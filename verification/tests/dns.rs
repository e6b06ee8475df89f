use acmecrab::config::{Acl, Config};
use acmecrab::dns::handlers::{
    a_rdata_of, aaaa_rdata_of, handle_notimpl, ns_rdata_of, send_auth_resp, send_nxdomain,
    server_failed, txt_rdata, Date, Handler,
};
use acmecrab::dns::message::{
    MessageType, OpCode, RData, RecordType, Request, Response, ResponseCode,
};
use acmecrab::error::Error;
use acmecrab::name::{LowerName, Name};
use acmecrab::name_map::{NameMap, NameSet};
use acmecrab::net::{IpAddress, Network, SocketAddress};
use acmecrab::txt_store::memory::InMemoryTxtStore;
use acmecrab::txt_store::TxtStore;
use std::sync::Arc;

fn lower(text: &str) -> LowerName {
    LowerName::new(&Name::from_str(text).unwrap())
}

fn set(names: &[&str]) -> NameSet {
    names.iter().fold(NameSet::new(), |set, name| set.with(lower(name)))
}

fn v4(a: u8, b: u8, c: u8, d: u8) -> IpAddress {
    IpAddress::V4(u32::from_be_bytes([a, b, c, d]))
}

const V6_A: u128 = 0x2606_2800_0220_0001_0248_1893_25c8_1946;
const V6_B: u128 = 0x2001_0db8_0000_0000_0000_0000_0000_0001;

fn config() -> Config {
    let local = SocketAddress { ip: v4(127, 0, 0, 1), port: 5353 };
    Config {
        domain: lower("example.com."),
        ns_domain: lower("ns1.example.com."),
        ns_admin: "dns-admin@example.com".to_string(),
        txt_store_state_path: None,
        api_bind_addr: local,
        api_timeout: 120,
        dns_udp_bind_addr: local,
        dns_tcp_bind_addr: local,
        dns_tcp_timeout: 60,
        acl: Acl::new()
            .with(
                Network::new(v4(192, 0, 2, 0), 24).unwrap(),
                set(&["test", "_acme-challenge.www"]),
            )
            .with(Network::new(v4(10, 0, 0, 0), 8).unwrap(), set(&["second"])),
        addrs: NameMap::new()
            .with(
                lower("example.com."),
                vec![v4(93, 184, 216, 34), IpAddress::V6(V6_A), v4(93, 184, 216, 35)],
            )
            .with(lower("six.example.com."), vec![IpAddress::V6(V6_B)])
            .with(lower("four.example.com."), vec![v4(192, 0, 2, 1)])
            .with(lower("none.example.com."), Vec::new()),
        ns_records: NameMap::new().with(
            lower("example.com."),
            vec![lower("ns1.example.com."), lower("ns2.example.com.")],
        ),
    }
}

fn handler() -> Handler {
    Handler::new(Arc::new(config()))
}

fn query(query_type: RecordType, name: &str) -> Request {
    Request {
        op_code: OpCode::Query,
        message_type: MessageType::Query,
        query_type,
        name: lower(name),
    }
}

fn day() -> Date {
    Date::new(2023, 3, 12).unwrap()
}

fn assert_nxdomain(response: &Response) {
    assert_eq!(response.response_code, ResponseCode::NXDomain);
    assert!(response.authoritative);
    assert!(response.answers.is_empty());
}

fn assert_authoritative(response: &Response, records: usize) {
    assert_eq!(response.response_code, ResponseCode::NoError);
    assert!(response.authoritative);
    assert_eq!(response.answers.len(), records);
}

fn txt_of(response: &Response) -> Vec<String> {
    response
        .answers
        .iter()
        .map(|r| match &r.rdata {
            RData::TXT(text) => text.clone(),
            _ => panic!("a record that is no TXT record"),
        })
        .collect()
}

#[test]
fn txt_for_ineligible_name_is_nxdomain() {
    let store = InMemoryTxtStore::new();
    let response = handler().handle_request_on(&query(RecordType::TXT, "nobody.example.com."), &store, day());
    assert_nxdomain(&response);
}

#[test]
fn txt_for_ineligible_name_is_nxdomain_whatever_is_stored() {
    let mut store = InMemoryTxtStore::new();
    store.add_txt(lower("stale.example.com."), "left-over".to_string()).unwrap();
    let response = handler().handle_request_on(&query(RecordType::TXT, "stale.example.com."), &store, day());
    assert_nxdomain(&response);
    let response = handler().handle_request_on(&query(RecordType::TXT, "example.com."), &store, day());
    assert_nxdomain(&response);
}

#[test]
fn txt_for_eligible_unset_name_is_authoritative_and_empty() {
    let store = InMemoryTxtStore::new();
    let response = handler().handle_request_on(&query(RecordType::TXT, "test.example.com."), &store, day());
    assert_authoritative(&response, 0);
    let response = handler().handle_request_on(&query(RecordType::TXT, "second.example.com."), &store, day());
    assert_authoritative(&response, 0);
}

#[test]
fn txt_returns_stored_values_newest_first() {
    let mut store = InMemoryTxtStore::new();
    store.add_txt(lower("test.example.com."), "one".to_string()).unwrap();
    let response = handler().handle_request_on(&query(RecordType::TXT, "test.example.com."), &store, day());
    assert_authoritative(&response, 1);
    assert_eq!(txt_of(&response), vec!["one"]);
    store.add_txt(lower("test.example.com."), "two".to_string()).unwrap();
    store.add_txt(lower("test.example.com."), "three".to_string()).unwrap();
    let response = handler().handle_request_on(&query(RecordType::TXT, "test.example.com."), &store, day());
    assert_authoritative(&response, 2);
    assert_eq!(txt_of(&response), vec!["three", "two"]);
    for record in &response.answers {
        assert_eq!(record.ttl, 1);
        assert_eq!(record.name.to_text(), "test.example.com.");
    }
}

#[test]
fn txt_query_name_is_compared_without_case() {
    let mut store = InMemoryTxtStore::new();
    store.add_txt(lower("test.example.com."), "one".to_string()).unwrap();
    let response = handler().handle_request_on(&query(RecordType::TXT, "TEST.Example.com."), &store, day());
    assert_eq!(txt_of(&response), vec!["one"]);
}

#[test]
fn txt_for_subdomain_of_several_labels() {
    let mut store = InMemoryTxtStore::new();
    store.add_txt(lower("_acme-challenge.www.example.com."), "one".to_string()).unwrap();
    let response = handler().handle_request_on(
        &query(RecordType::TXT, "_acme-challenge.www.example.com."),
        &store,
        day(),
    );
    assert_eq!(txt_of(&response), vec!["one"]);
    let response = handler().handle_request_on(&query(RecordType::TXT, "www.example.com."), &store, day());
    assert_nxdomain(&response);
}

#[test]
fn soa_for_the_domain() {
    let store = InMemoryTxtStore::new();
    let response = handler().handle_request_on(&query(RecordType::SOA, "example.com."), &store, day());
    assert_authoritative(&response, 1);
    let record = &response.answers[0];
    assert_eq!(record.ttl, 1);
    assert_eq!(record.name.to_text(), "example.com.");
    match &record.rdata {
        RData::SOA(soa) => {
            assert_eq!(soa.mname.to_text(), "ns1.example.com.");
            assert_eq!(soa.rname.to_text(), "dns-admin.example.com");
            assert_eq!(soa.serial, 20230312);
            assert_eq!(soa.refresh, 86400);
            assert_eq!(soa.retry, 7200);
            assert_eq!(soa.expire, 3600000);
            assert_eq!(soa.minimum, 172800);
        }
        _ => panic!("a record that is no SOA record"),
    }
}

#[test]
fn soa_for_another_name_is_nxdomain() {
    let store = InMemoryTxtStore::new();
    assert_nxdomain(&handler().handle_request_on(&query(RecordType::SOA, "test.example.com."), &store, day()));
    assert_nxdomain(&handler().handle_request_on(&query(RecordType::SOA, "com."), &store, day()));
    assert_nxdomain(&handler().handle_request_on(&query(RecordType::SOA, "."), &store, day()));
}

#[test]
fn soa_with_bad_admin_is_server_failure() {
    let mut bad = config();
    bad.ns_admin = "dns admin@example.com".to_string();
    let handler = Handler::new(Arc::new(bad));
    let store = InMemoryTxtStore::new();
    let request = query(RecordType::SOA, "example.com.");
    assert!(matches!(handler.handle_request_soa(&request, day()), Err(Error::DNSError(_))));
    assert!(matches!(handler.dispatch_request(&request, &store, day()), Err(Error::DNSError(_))));
    let response = handler.handle_request_on(&request, &store, day());
    assert_eq!(response.response_code, ResponseCode::ServFail);
    assert!(!response.authoritative);
    assert!(response.answers.is_empty());
    // Another name does not get as far as the administrator.
    assert_nxdomain(&handler.handle_request_on(&query(RecordType::SOA, "x.example.com."), &store, day()));
    // Other record types are not touched by it.
    assert_authoritative(&handler.handle_request_on(&query(RecordType::A, "example.com."), &store, day()), 2);
}

#[test]
fn soa_today_has_todays_serial() {
    let store = InMemoryTxtStore::new();
    let response = handler().handle_request(&query(RecordType::SOA, "example.com."), &store);
    assert_authoritative(&response, 1);
    match &response.answers[0].rdata {
        RData::SOA(soa) => {
            let (year, rest) = (soa.serial / 10_000, soa.serial % 10_000);
            assert!((2024..=9999).contains(&year));
            assert!((1..=12).contains(&(rest / 100)));
            assert!((1..=31).contains(&(rest % 100)));
            assert_eq!(soa.refresh, 86400);
            assert_eq!(soa.retry, 7200);
            assert_eq!(soa.expire, 3600000);
            assert_eq!(soa.minimum, 172800);
        }
        _ => panic!("a record that is no SOA record"),
    }
}

#[test]
fn serial_is_the_date_in_digits() {
    assert_eq!(Date::new(2023, 3, 12).unwrap().serial(), 20230312);
    assert_eq!(Date::new(1999, 12, 31).unwrap().serial(), 19991231);
    assert_eq!(Date::new(0, 1, 1).unwrap().serial(), 101);
    assert_eq!(Date::new(9999, 12, 31).unwrap().serial(), 99991231);
}

#[test]
fn date_out_of_range_is_none() {
    assert!(Date::new(2023, 0, 1).is_none());
    assert!(Date::new(2023, 13, 1).is_none());
    assert!(Date::new(2023, 1, 0).is_none());
    assert!(Date::new(2023, 1, 32).is_none());
    assert!(Date::new(-1, 1, 1).is_none());
    assert!(Date::new(10000, 1, 1).is_none());
}

#[test]
fn a_returns_ipv4_addresses_only() {
    let store = InMemoryTxtStore::new();
    let response = handler().handle_request_on(&query(RecordType::A, "example.com."), &store, day());
    assert_authoritative(&response, 2);
    assert!(matches!(response.answers[0].rdata, RData::A(a) if a == u32::from_be_bytes([93, 184, 216, 34])));
    assert!(matches!(response.answers[1].rdata, RData::A(a) if a == u32::from_be_bytes([93, 184, 216, 35])));
    assert_eq!(response.answers[0].ttl, 1);
    assert_eq!(response.answers[0].name.to_text(), "example.com.");
}

#[test]
fn a_for_name_with_ipv6_only_is_authoritative_and_empty() {
    let store = InMemoryTxtStore::new();
    let response = handler().handle_request_on(&query(RecordType::A, "six.example.com."), &store, day());
    assert_authoritative(&response, 0);
}

#[test]
fn a_for_name_without_addresses_is_authoritative_and_empty() {
    let store = InMemoryTxtStore::new();
    assert_authoritative(&handler().handle_request_on(&query(RecordType::A, "none.example.com."), &store, day()), 0);
    assert_authoritative(&handler().handle_request_on(&query(RecordType::AAAA, "none.example.com."), &store, day()), 0);
}

#[test]
fn a_for_unlisted_name_is_nxdomain() {
    let store = InMemoryTxtStore::new();
    assert_nxdomain(&handler().handle_request_on(&query(RecordType::A, "test.example.com."), &store, day()));
    assert_nxdomain(&handler().handle_request_on(&query(RecordType::AAAA, "test.example.com."), &store, day()));
}

#[test]
fn aaaa_returns_ipv6_addresses_only() {
    let store = InMemoryTxtStore::new();
    let response = handler().handle_request_on(&query(RecordType::AAAA, "example.com."), &store, day());
    assert_authoritative(&response, 1);
    assert!(matches!(response.answers[0].rdata, RData::AAAA(a) if a == V6_A));
    let response = handler().handle_request_on(&query(RecordType::AAAA, "four.example.com."), &store, day());
    assert_authoritative(&response, 0);
}

#[test]
fn ns_returns_each_nameserver() {
    let store = InMemoryTxtStore::new();
    let response = handler().handle_request_on(&query(RecordType::NS, "example.com."), &store, day());
    assert_authoritative(&response, 2);
    let names: Vec<String> = response
        .answers
        .iter()
        .map(|r| match &r.rdata {
            RData::NS(name) => name.to_text(),
            _ => panic!("a record that is no NS record"),
        })
        .collect();
    assert_eq!(names, vec!["ns1.example.com.", "ns2.example.com."]);
    assert_nxdomain(&handler().handle_request_on(&query(RecordType::NS, "test.example.com."), &store, day()));
}

#[test]
fn other_record_types_are_not_implemented() {
    let store = InMemoryTxtStore::new();
    for number in [5u16, 15, 33, 255] {
        let response = handler().handle_request_on(&query(RecordType::Unknown(number), "example.com."), &store, day());
        assert_eq!(response.response_code, ResponseCode::NotImp);
        assert!(!response.authoritative);
        assert!(response.answers.is_empty());
    }
}

#[test]
fn other_operations_are_not_implemented() {
    let store = InMemoryTxtStore::new();
    for op_code in [OpCode::Status, OpCode::Notify, OpCode::Update] {
        let mut request = query(RecordType::TXT, "test.example.com.");
        request.op_code = op_code;
        let response = handler().handle_request(&request, &store);
        assert_eq!(response.response_code, ResponseCode::NotImp);
        assert!(response.answers.is_empty());
    }
    let mut request = query(RecordType::A, "example.com.");
    request.message_type = MessageType::Response;
    let response = handler().handle_request(&request, &store);
    assert_eq!(response.response_code, ResponseCode::NotImp);
}

#[test]
fn handle_request_answers_as_on_any_day() {
    let mut store = InMemoryTxtStore::new();
    store.add_txt(lower("test.example.com."), "one".to_string()).unwrap();
    let response = handler().handle_request(&query(RecordType::TXT, "test.example.com."), &store);
    assert_eq!(txt_of(&response), vec!["one"]);
    assert_authoritative(&handler().handle_request(&query(RecordType::A, "example.com."), &store), 2);
    assert_nxdomain(&handler().handle_request(&query(RecordType::NS, "nobody.example.com."), &store));
}

#[test]
fn txt_domain_set_is_every_subdomain_with_the_domain() {
    let shared = Arc::new(config());
    let names = Handler::txt_domain_set(&shared);
    let mut names: Vec<String> = names.as_entries().iter().map(|n| n.name.to_text()).collect();
    names.sort();
    assert_eq!(
        names,
        vec!["_acme-challenge.www.example.com.", "second.example.com.", "test.example.com."]
    );
    let handler = Handler::new(shared);
    assert!(handler.in_txt_domain_set(&lower("test.example.com.")));
    assert!(handler.in_txt_domain_set(&lower("test.example.com")));
    assert!(!handler.in_txt_domain_set(&lower("test.")));
    assert!(!handler.in_txt_domain_set(&lower("example.com.")));
}

#[test]
fn txt_domain_set_holds_each_name_once() {
    let mut shared = config();
    shared.domain = lower("example.com");
    shared.acl = Acl::new()
        .with(Network::new(v4(192, 0, 2, 0), 24).unwrap(), set(&["test"]))
        .with(Network::new(v4(198, 51, 100, 0), 24).unwrap(), set(&["test", "www"]));
    let names = Handler::txt_domain_set(&Arc::new(shared));
    let texts: Vec<String> = names.as_entries().iter().map(|n| n.name.to_text()).collect();
    assert_eq!(texts, vec!["test.example.com.", "www.example.com."]);
    assert!(names.as_entries().iter().all(|n| n.name.is_fqdn()));
}

#[test]
fn txt_domain_set_of_an_empty_acl_is_empty() {
    let mut shared = config();
    shared.acl = Acl::new();
    assert!(Handler::txt_domain_set(&Arc::new(shared)).as_entries().is_empty());
}

#[test]
fn txt_domain_set_leaves_out_what_is_too_long() {
    let mut long = config();
    let label = "a".repeat(63);
    long.domain = lower(&format!("{label}.{label}.{label}."));
    long.acl = Acl::new().with(
        Network::new(v4(192, 0, 2, 0), 24).unwrap(),
        set(&[&"b".repeat(63), "short"]),
    );
    let names = Handler::txt_domain_set(&Arc::new(long));
    let names: Vec<String> = names.as_entries().iter().map(|n| n.name.to_text()).collect();
    assert_eq!(names, vec![format!("short.{label}.{label}.{label}.")]);
}

#[test]
fn static_lookups_take_the_first_entry() {
    let mut twice = config();
    twice.addrs = twice.addrs.with(lower("EXAMPLE.com."), vec![v4(1, 1, 1, 1)]);
    let handler = Handler::new(Arc::new(twice));
    assert_eq!(handler.addrs_from_config(&lower("example.com.")).unwrap().len(), 3);
    assert!(handler.addrs_from_config(&lower("nobody.example.com.")).is_none());
    assert_eq!(handler.ns_names_from_config(&lower("example.com.")).unwrap().len(), 2);
    assert!(handler.ns_names_from_config(&lower("six.example.com.")).is_none());
    assert_eq!(handler.a_rdata(&lower("example.com.")).len(), 2);
    assert_eq!(handler.aaaa_rdata(&lower("example.com.")).len(), 1);
    assert_eq!(handler.ns_rdata(&lower("example.com.")).len(), 2);
    assert!(handler.a_rdata(&lower("nobody.example.com.")).is_empty());
    assert!(handler.aaaa_rdata(&lower("nobody.example.com.")).is_empty());
    assert!(handler.ns_rdata(&lower("nobody.example.com.")).is_empty());
}

#[test]
fn record_data_keeps_the_order() {
    let addrs = vec![IpAddress::V6(1), v4(1, 2, 3, 4), IpAddress::V6(2), v4(5, 6, 7, 8)];
    let a = a_rdata_of(&addrs);
    assert_eq!(a.len(), 2);
    assert!(matches!(a[0], RData::A(x) if x == 0x0102_0304));
    assert!(matches!(a[1], RData::A(x) if x == 0x0506_0708));
    let aaaa = aaaa_rdata_of(&addrs);
    assert_eq!(aaaa.len(), 2);
    assert!(matches!(aaaa[0], RData::AAAA(1)));
    assert!(matches!(aaaa[1], RData::AAAA(2)));
    let ns = ns_rdata_of(&vec![lower("b."), lower("a.")]);
    assert!(matches!(&ns[0], RData::NS(n) if n.to_text() == "b."));
    assert!(matches!(&ns[1], RData::NS(n) if n.to_text() == "a."));
    let mut store = InMemoryTxtStore::new();
    store.add_txt(lower("x."), "old".to_string()).unwrap();
    store.add_txt(lower("x."), "new".to_string()).unwrap();
    let txt = txt_rdata(&store, &lower("x."));
    assert!(matches!(&txt[0], RData::TXT(t) if t == "new"));
    assert!(matches!(&txt[1], RData::TXT(t) if t == "old"));
}

#[test]
fn responses_by_kind() {
    let response = send_auth_resp(&lower("x.example."), vec![RData::A(1), RData::A(2), RData::A(3)]);
    assert_authoritative(&response, 3);
    for (i, record) in response.answers.iter().enumerate() {
        assert_eq!(record.ttl, 1);
        assert_eq!(record.name.to_text(), "x.example.");
        assert!(matches!(record.rdata, RData::A(a) if a as usize == i + 1));
    }
    assert_authoritative(&send_auth_resp(&lower("x."), Vec::new()), 0);
    assert_nxdomain(&send_nxdomain());
    assert_eq!(handle_notimpl().response_code, ResponseCode::NotImp);
    assert!(!handle_notimpl().authoritative);
    assert_eq!(server_failed().response_code, ResponseCode::ServFail);
    assert!(!server_failed().authoritative);
    assert!(server_failed().answers.is_empty());
}
