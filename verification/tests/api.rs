use acmecrab::api::api_error::APIError;
use acmecrab::api::model::{
    check_decoded_len, TxtValidationError, UpdateRecordRequest, DNS01_DECODED_LEN_BYTES,
};
use acmecrab::api::routes::{finish_update, update};
use acmecrab::config::{Acl, Config};
use acmecrab::dns::handlers::{Date, Handler};
use acmecrab::dns::message::{
    MessageType, OpCode, RData, RecordType, Request, ResponseCode,
};
use acmecrab::error::{Error, JsonRejection};
use acmecrab::name::{LowerName, Name};
use acmecrab::name_map::{NameMap, NameSet};
use acmecrab::net::{IpAddress, Network, SocketAddress};
use acmecrab::txt_store::file::FileTxtStore;
use acmecrab::txt_store::memory::InMemoryTxtStore;
use acmecrab::txt_store::TxtStore;
use std::sync::Arc;

const VALID: &str = "LPsIwTo7o8BoG0-vjCyGQGBWSVIPxI-i_X336eUOQZo";
const OTHER: &str = "AAAAAAAAAAAAAAAAAAAAAAAAAAAAAAAAAAAAAAAAAAA";

fn lower(text: &str) -> LowerName {
    LowerName::new(&Name::from_str(text).unwrap())
}

fn set(names: &[&str]) -> NameSet {
    names.iter().fold(NameSet::new(), |set, name| set.with(lower(name)))
}

fn v4(a: u8, b: u8, c: u8, d: u8) -> IpAddress {
    IpAddress::V4(u32::from_be_bytes([a, b, c, d]))
}

fn config(domain: &str) -> Config {
    let local = SocketAddress { ip: v4(127, 0, 0, 1), port: 3000 };
    Config {
        domain: lower(domain),
        ns_domain: lower("ns1.example.com."),
        ns_admin: "dns-admin@example.com".to_string(),
        txt_store_state_path: None,
        api_bind_addr: local,
        api_timeout: 120,
        dns_udp_bind_addr: local,
        dns_tcp_bind_addr: local,
        dns_tcp_timeout: 60,
        acl: Acl::new().with(Network::new(v4(192, 0, 2, 0), 24).unwrap(), set(&["test"])),
        addrs: NameMap::new(),
        ns_records: NameMap::new(),
    }
}

fn request(subdomain: &str, txt: &str) -> UpdateRecordRequest {
    UpdateRecordRequest { subdomain: subdomain.to_string(), txt: txt.to_string() }
}

fn txt_query(name: &str) -> Request {
    Request {
        op_code: OpCode::Query,
        message_type: MessageType::Query,
        query_type: RecordType::TXT,
        name: lower(name),
    }
}

fn values(store: &impl TxtStore, name: &str) -> Vec<String> {
    store.get_txt(&lower(name)).into_iter().collect()
}

#[test]
fn valid_dns01_accepts_a_digest() {
    assert!(request("test", VALID).valid_dns01().is_ok());
    assert!(request("test", OTHER).valid_dns01().is_ok());
}

#[test]
fn valid_dns01_refuses_other_lengths() {
    // "hello" in base64.
    match request("test", "aGVsbG8").valid_dns01() {
        Err(TxtValidationError::InvalidDecodedLength { actual, expected }) => {
            assert_eq!(actual, 5);
            assert_eq!(expected, 32);
        }
        _ => panic!("five bytes were taken for a digest"),
    }
    assert!(matches!(
        request("test", "").valid_dns01(),
        Err(TxtValidationError::InvalidDecodedLength { actual: 0, expected: 32 })
    ));
    // 33 bytes.
    let longer = format!("{OTHER}AA");
    assert_eq!(longer.len(), 45);
    assert!(matches!(
        request("test", &longer[..44]).valid_dns01(),
        Err(TxtValidationError::InvalidDecodedLength { actual: 33, expected: 32 })
    ));
    // 31 bytes.
    assert!(matches!(
        request("test", &OTHER[..42]).valid_dns01(),
        Err(TxtValidationError::InvalidDecodedLength { actual: 31, expected: 32 })
    ));
}

#[test]
fn valid_dns01_refuses_bad_encoding() {
    for bad in [
        "!!!",
        "LPsIwTo7o8BoG0-vjCyGQGBWSVIPxI-i_X336eUOQZo=",
        "LPsIwTo7o8BoG0+vjCyGQGBWSVIPxI+i/X336eUOQZo",
        "LPsIwTo7o8BoG0-vjCyGQGBWSVIPxI-i_X336eUOQZ ",
        "a",
    ] {
        assert!(matches!(
            request("test", bad).valid_dns01(),
            Err(TxtValidationError::InvalidEncoding(_))
        ));
    }
}

#[test]
fn decoded_length_is_judged_exactly() {
    assert_eq!(DNS01_DECODED_LEN_BYTES, 32);
    assert!(check_decoded_len(Ok(vec![0u8; 32])).is_ok());
    assert!(matches!(
        check_decoded_len(Ok(vec![0u8; 31])),
        Err(TxtValidationError::InvalidDecodedLength { actual: 31, expected: 32 })
    ));
    assert!(matches!(
        check_decoded_len(Ok(Vec::new())),
        Err(TxtValidationError::InvalidDecodedLength { actual: 0, expected: 32 })
    ));
    let err = base64::DecodeError::InvalidLength;
    assert!(matches!(
        check_decoded_len(Err(err.clone())),
        Err(TxtValidationError::InvalidEncoding(e)) if e == err
    ));
}

#[test]
fn update_is_stored_and_served() {
    let config = config("example.com");
    let mut store = InMemoryTxtStore::new();
    let result = update(&config, &mut store, v4(192, 0, 2, 5), request("test", VALID)).unwrap();
    assert_eq!(result.txt, VALID);
    assert_eq!(values(&store, "test.example.com."), vec![VALID]);

    let handler = Handler::new(Arc::new(config));
    let response = handler.handle_request_on(
        &txt_query("test.example.com."),
        &store,
        Date::new(2023, 3, 12).unwrap(),
    );
    assert_eq!(response.response_code, ResponseCode::NoError);
    assert!(response.authoritative);
    assert_eq!(response.answers.len(), 1);
    assert!(matches!(&response.answers[0].rdata, RData::TXT(text) if text == VALID));
}

#[test]
fn update_from_outside_the_network_is_forbidden() {
    let config = config("example.com");
    let mut store = InMemoryTxtStore::new();
    match update(&config, &mut store, v4(203, 0, 113, 1), request("test", VALID)) {
        Err(Error::AuthForbidden(ip, subdomain)) => {
            assert_eq!(ip, v4(203, 0, 113, 1));
            assert_eq!(subdomain.to_text(), "test");
        }
        _ => panic!("an update from outside was accepted"),
    }
    assert!(values(&store, "test.example.com.").is_empty());
}

#[test]
fn update_of_an_unlisted_subdomain_is_forbidden() {
    let config = config("example.com.");
    let mut store = InMemoryTxtStore::new();
    assert!(matches!(
        update(&config, &mut store, v4(192, 0, 2, 5), request("other", VALID)),
        Err(Error::AuthForbidden(_, _))
    ));
    assert!(matches!(
        update(&config, &mut store, v4(192, 0, 2, 5), request("test.example.com.", VALID)),
        Err(Error::AuthForbidden(_, _))
    ));
    assert!(values(&store, "other.example.com.").is_empty());
}

#[test]
fn update_checks_authorization_before_the_value() {
    let config = config("example.com.");
    let mut store = InMemoryTxtStore::new();
    assert!(matches!(
        update(&config, &mut store, v4(203, 0, 113, 1), request("test", "not a digest")),
        Err(Error::AuthForbidden(_, _))
    ));
    assert!(matches!(
        update(&config, &mut store, v4(192, 0, 2, 5), request("test", "not a digest")),
        Err(Error::InvalidDNS01)
    ));
    assert!(matches!(
        update(&config, &mut store, v4(192, 0, 2, 5), request("test", "aGVsbG8")),
        Err(Error::InvalidDNS01)
    ));
    assert!(values(&store, "test.example.com.").is_empty());
}

#[test]
fn update_with_a_bad_subdomain_is_a_dns_error() {
    let config = config("example.com.");
    let mut store = InMemoryTxtStore::new();
    assert!(matches!(
        update(&config, &mut store, v4(192, 0, 2, 5), request("not a name", VALID)),
        Err(Error::DNSError(_))
    ));
    assert!(values(&store, "test.example.com.").is_empty());
}

#[test]
fn update_that_is_too_long_is_a_dns_error() {
    let label = "a".repeat(63);
    let mut config = config(&format!("{label}.{label}.{label}."));
    let sub = "b".repeat(63);
    config.acl = Acl::new().with(
        Network::new(v4(192, 0, 2, 0), 24).unwrap(),
        set(&["test", &sub]),
    );
    let mut store = InMemoryTxtStore::new();
    assert!(matches!(
        update(&config, &mut store, v4(192, 0, 2, 5), request(&sub, VALID)),
        Err(Error::DNSError(_))
    ));
    assert!(update(&config, &mut store, v4(192, 0, 2, 5), request("test", VALID)).is_ok());
}

#[test]
fn update_ignores_the_case_of_the_subdomain() {
    let config = config("Example.COM.");
    let mut store = InMemoryTxtStore::new();
    update(&config, &mut store, v4(192, 0, 2, 5), request("TEST", VALID)).unwrap();
    assert_eq!(values(&store, "test.example.com."), vec![VALID]);
}

#[test]
fn updates_keep_the_last_two_values() {
    let config = config("example.com.");
    let mut store = InMemoryTxtStore::new();
    let third = "BBBBBBBBBBBBBBBBBBBBBBBBBBBBBBBBBBBBBBBBBBA";
    for txt in [VALID, OTHER, third] {
        update(&config, &mut store, v4(192, 0, 2, 5), request("test", txt)).unwrap();
    }
    assert_eq!(values(&store, "test.example.com."), vec![third, OTHER]);
}

#[test]
fn update_of_a_file_store_leaves_a_snapshot() {
    let config = config("example.com.");
    let mut store = FileTxtStore::try_from_file("state.json", None).unwrap();
    store.take_unsaved();
    update(&config, &mut store, v4(192, 0, 2, 5), request("test", VALID)).unwrap();
    let snapshot = store.take_unsaved().unwrap();
    assert!(snapshot.contains(VALID));
    assert!(snapshot.contains("\"test.example.com.\""));
    // A refused update leaves none.
    assert!(update(&config, &mut store, v4(203, 0, 113, 1), request("test", OTHER)).is_err());
    assert_eq!(store.take_unsaved(), None);
}

#[test]
fn finished_update_echoes_or_passes_the_error_on() {
    assert_eq!(finish_update(Ok(()), "value".to_string()).unwrap().txt, "value");
    assert!(matches!(
        finish_update(Err(Error::IO("disk full".to_string())), "value".to_string()),
        Err(Error::IO(message)) if message == "disk full"
    ));
}

#[test]
fn status_of_each_error() {
    let name = || lower("test");
    assert_eq!(APIError(Error::AuthForbidden(v4(203, 0, 113, 1), name())).status(), 403);
    assert_eq!(APIError(Error::NotImplemented).status(), 501);
    assert_eq!(APIError::register().status(), 501);
    assert_eq!(APIError(Error::InvalidDNS01).status(), 400);
    assert_eq!(APIError(Error::JsonExtractorRejection(JsonRejection::JsonDataError)).status(), 422);
    assert_eq!(APIError(Error::JsonExtractorRejection(JsonRejection::JsonSyntaxError)).status(), 400);
    assert_eq!(
        APIError(Error::JsonExtractorRejection(JsonRejection::MissingJsonContentType)).status(),
        415
    );
    assert_eq!(APIError(Error::JsonExtractorRejection(JsonRejection::BytesRejection)).status(), 500);
    assert_eq!(APIError(Error::NotFQDN(name())).status(), 500);
    assert_eq!(APIError(Error::InsecureAPIBind(v4(8, 8, 8, 8))).status(), 500);
    assert_eq!(APIError(Error::IO("gone".to_string())).status(), 500);
    assert_eq!(APIError(Error::InvalidJSON("bad".to_string())).status(), 500);
    let bad_name = Name::from_str("not a name").unwrap_err();
    assert_eq!(APIError(Error::DNSError(bad_name)).status(), 400);
}
