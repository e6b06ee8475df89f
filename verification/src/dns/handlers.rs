//! How each kind of query is answered.

use crate::config::{sanitized, AclEntry, Config, Shared};
use crate::name_map::{distinct_named, holds_key, named_at, NameMap, NameSet, Named};
use crate::dns::message::{
    rdata_view, MessageType, OpCode, RData, RDataView, Record, RecordType, RecordView, Request,
    Response, ResponseCode, ResponseView, SOA,
};
use crate::error::Error;
use crate::name::{
    encoded_len, lemma_lower_keeps_lengths, lower_labels, name_of_text, LowerName, Name, NameView,
    MAX_NAME_LEN,
};
use crate::net::IpAddress;
use crate::txt_store::{texts, TxtStore};
use std::collections::VecDeque;
use vstd::prelude::*;

verus! {

/// Time to live of every answer record, in seconds: answers are not meant
/// to be cached.
pub const ANSWER_TTL: u32 = 1;

/// SOA refresh interval: 24 hours.
pub const SOA_REFRESH: i32 = 86_400;

/// SOA retry interval: 2 hours.
pub const SOA_RETRY: i32 = 7_200;

/// SOA expiry: 1000 hours.
pub const SOA_EXPIRE: i32 = 3_600_000;

/// SOA minimum TTL: 2 days.
pub const SOA_MINIMUM: u32 = 172_800;

/// A calendar date.
#[derive(Clone, Copy, Debug)]
pub struct Date {
    year: i32,
    month: u8,
    day: u8,
}

/// Whether year, month and day are within the range of a four-digit
/// calendar.
pub open spec fn in_calendar(year: i32, month: u8, day: u8) -> bool {
    0 <= year <= 9999 && 1 <= month <= 12 && 1 <= day <= 31
}

/// The serial of a zone on a date: the digits `YYYYMMDD` read as a number.
pub open spec fn serial_on(year: i32, month: u8, day: u8) -> int {
    year * 10_000 + month * 100 + day
}

impl Date {
    #[verifier::type_invariant]
    spec fn inv(&self) -> bool {
        in_calendar(self.year, self.month, self.day)
    }

    /// The year.
    pub closed spec fn year(&self) -> i32 {
        self.year
    }

    /// The month, from 1.
    pub closed spec fn month(&self) -> u8 {
        self.month
    }

    /// The day of the month, from 1.
    pub closed spec fn day(&self) -> u8 {
        self.day
    }

    /// The zone serial for the date.
    pub open spec fn spec_serial(&self) -> int {
        serial_on(self.year(), self.month(), self.day())
    }

    /// The date with the given year, month and day, or `None` where one of
    /// them is out of range.
    pub fn new(year: i32, month: u8, day: u8) -> (res: Option<Date>)
        ensures
            res is Some <==> in_calendar(year, month, day),
            res matches Some(date) ==> date.year() == year && date.month() == month && date.day()
                == day,
    {
        if 0 <= year && year <= 9999 && 1 <= month && month <= 12 && 1 <= day && day <= 31 {
            Some(Date { year, month, day })
        } else {
            None
        }
    }

    /// The zone serial for the date.
    pub fn serial(&self) -> (serial: u32)
        ensures
            serial == self.spec_serial(),
    {
        proof {
            use_type_invariant(self);
        }
        let year: u32 = self.year as u32;
        let month: u32 = self.month as u32;
        let day: u32 = self.day as u32;
        year * 10_000 + month * 100 + day
    }
}

/// `time::OffsetDateTime::now_utc`, read through `year`, `month` and
/// `day`. The date is whatever the clock says, so nothing is promised of
/// it.
#[verifier::external_body]
fn utc_today() -> (today: (i32, u8, u8)) {
    let now = time::OffsetDateTime::now_utc();
    (now.year(), u8::from(now.month()), now.day())
}

/// Whether the ACL lets somebody update the name with labels `key`: it is
/// a listed subdomain followed by `domain`, in lower case.
pub open spec fn eligible(acl: Seq<AclEntry>, domain: Seq<Seq<u8>>, key: Seq<Seq<u8>>) -> bool {
    exists|i: int, j: int|
        0 <= i < acl.len() && 0 <= j < acl[i].subdomains.names().len() && key == lower_labels(
            (#[trigger] acl[i].subdomains.names()[j]).name@.labels + domain,
        )
}

/// The names for which a TXT record can exist, as far as they are names:
/// a subdomain and domain that are too long together name nothing. Each
/// name is fully qualified and occurs once.
pub open spec fn is_domain_set(
    set: Seq<Named<()>>,
    acl: Seq<AclEntry>,
    domain: Seq<Seq<u8>>,
) -> bool {
    &&& distinct_named(set)
    &&& forall|h: int| 0 <= h < set.len() ==> (#[trigger] set[h]).name@.fqdn
    &&& forall|h: int| 0 <= h < set.len() ==> eligible(acl, domain, (#[trigger] set[h]).name.key())
    &&& forall|key: Seq<Seq<u8>>|
        #![trigger holds_key(set, key)]
        eligible(acl, domain, key) && encoded_len(key) <= MAX_NAME_LEN ==> holds_key(set, key)
}

/// Answers queries from a configuration and a TXT store.
#[derive(Debug)]
pub struct Handler {
    config: Shared,
    txt_domain_set: NameSet,
}

/// A name more in a list is held besides the names that the list held.
pub proof fn lemma_holds_key_push(set: Seq<Named<()>>, entry: Named<()>, key: Seq<Seq<u8>>)
    ensures
        holds_key(set.push(entry), key) <==> holds_key(set, key) || key == entry.name.key(),
{
    let after = set.push(entry);
    if holds_key(set, key) {
        let j = choose|j: int| named_at(set, j, key);
        assert(named_at(after, j, key));
    }
    if key == entry.name.key() {
        assert(named_at(after, set.len() as int, key));
    }
    if holds_key(after, key) {
        let j = choose|j: int| named_at(after, j, key);
        if j < set.len() {
            assert(named_at(set, j, key));
        }
    }
}

/// Whether the subdomain at `(i, j)` of the ACL comes before `(a, b)`.
pub open spec fn comes_before(i: int, j: int, a: int, b: int) -> bool {
    i < a || (i == a && j < b)
}

/// The names gathered from the subdomains before `(a, b)`: each is fully
/// qualified and eligible, and each eligible name that comes from one of
/// those subdomains and is short enough is among them.
pub open spec fn gathered(
    set: Seq<Named<()>>,
    acl: Seq<AclEntry>,
    domain: Seq<Seq<u8>>,
    a: int,
    b: int,
) -> bool {
    &&& forall|h: int| 0 <= h < set.len() ==> (#[trigger] set[h]).name@.fqdn
    &&& forall|h: int| 0 <= h < set.len() ==> eligible(acl, domain, (#[trigger] set[h]).name.key())
    &&& forall|i: int, j: int|
        #![trigger acl[i].subdomains.names()[j]]
        0 <= i < acl.len() && 0 <= j < acl[i].subdomains.names().len() && comes_before(i, j, a, b)
            && encoded_len(acl[i].subdomains.names()[j].name@.labels + domain) <= MAX_NAME_LEN
            ==> holds_key(set, lower_labels(acl[i].subdomains.names()[j].name@.labels + domain))
}

impl Handler {
    #[verifier::type_invariant]
    spec fn inv(&self) -> bool {
        is_domain_set(self.txt_domain_set.names(), self.config.acl@, self.config.domain.key())
    }

    /// The configuration that answers are taken from.
    pub closed spec fn config(&self) -> Config {
        *self.config
    }

    /// The names for which a TXT record can exist.
    pub closed spec fn domain_set(&self) -> Seq<Named<()>> {
        self.txt_domain_set.names()
    }

    /// A handler for the configuration.
    pub fn new(config: Shared) -> (handler: Handler)
        ensures
            handler.config() == *config,
            is_domain_set(handler.domain_set(), config.acl@, config.domain.key()),
    {
        let txt_domain_set = Self::txt_domain_set(&config);
        Handler { config, txt_domain_set }
    }

    /// The names for which a TXT record can exist: every subdomain of the
    /// ACL, followed by the configured domain and fully qualified, each
    /// once. Whether a TXT query is for a name that does not exist is
    /// decided by this set alone.
    pub fn txt_domain_set(config: &Shared) -> (set: NameSet)
        ensures
            is_domain_set(set.names(), config.acl@, config.domain.key()),
    {
        let ghost acl = config.acl@;
        let ghost domain = config.domain.key();
        let base: &Name = config.domain.as_name();
        let entries = config.acl.as_entries();
        let mut set = NameSet::new();
        let mut i: usize = 0;
        while i < entries.len()
            invariant
                i <= entries.len(),
                entries@ == acl,
                acl == config.acl@,
                domain == config.domain.key(),
                base@.labels == domain,
                gathered(set.names(), acl, domain, i as int, 0),
            decreases entries.len() - i,
        {
            let subdomains = entries[i].subdomains.as_entries();
            let mut j: usize = 0;
            while j < subdomains.len()
                invariant
                    i < entries.len(),
                    entries@ == acl,
                    j <= subdomains.len(),
                    subdomains@ == acl[i as int].subdomains.names(),
                    acl == config.acl@,
                    domain == config.domain.key(),
                    base@.labels == domain,
                    gathered(set.names(), acl, domain, i as int, j as int),
                decreases subdomains.len() - j,
            {
                let ghost before = set.names();
                let ghost labels = subdomains@[j as int].name@.labels + domain;
                match subdomains[j].name.as_name().append_domain(base) {
                    Ok(fqdn) => {
                        let name = LowerName::new(&fqdn);
                        let ghost entry = Named { name, value: () };
                        set = set.with(name);
                        proof {
                            let after = set.names();
                            assert(name.key() == lower_labels(labels));
                            assert(eligible(acl, domain, name.key()));
                            assert(after == before || after == before.push(entry));
                            assert forall|h: int| 0 <= h < after.len() implies (
                            #[trigger] after[h]).name@.fqdn && eligible(
                                acl,
                                domain,
                                after[h].name.key(),
                            ) by {
                                if h < before.len() {
                                    assert(after[h] == before[h]);
                                }
                            }
                            assert forall|a: int, b: int|
                                #![trigger acl[a].subdomains.names()[b]]
                                0 <= a < acl.len() && 0 <= b < acl[a].subdomains.names().len()
                                    && comes_before(a, b, i as int, j + 1) && encoded_len(
                                    acl[a].subdomains.names()[b].name@.labels + domain,
                                ) <= MAX_NAME_LEN implies holds_key(
                                after,
                                lower_labels(acl[a].subdomains.names()[b].name@.labels + domain),
                            ) by {
                                let key = lower_labels(
                                    acl[a].subdomains.names()[b].name@.labels + domain,
                                );
                                lemma_holds_key_push(before, entry, key);
                            }
                        }
                    },
                    Err(_) => {
                        assert(encoded_len(labels) > MAX_NAME_LEN);
                    },
                }
                j = j + 1;
            }
            i = i + 1;
        }
        proof {
            assert forall|key: Seq<Seq<u8>>|
                eligible(acl, domain, key) && encoded_len(key) <= MAX_NAME_LEN implies holds_key(
                set.names(),
                key,
            ) by {
                let (a, b) = choose|a: int, b: int|
                    0 <= a < acl.len() && 0 <= b < acl[a].subdomains.names().len() && key
                        == lower_labels(
                        (#[trigger] acl[a].subdomains.names()[b]).name@.labels + domain,
                    );
                lemma_lower_keeps_lengths(acl[a].subdomains.names()[b].name@.labels + domain);
            }
        }
        let _entries = set.as_entries();
        set
    }

    /// Whether a TXT record can exist for `name`.
    pub fn in_txt_domain_set(&self, name: &LowerName) -> (found: bool)
        ensures
            found == eligible(self.config().acl@, self.config().domain.key(), name.key()),
    {
        proof {
            use_type_invariant(self);
        }
        let _labels = name.labels();
        self.txt_domain_set.contains(name)
    }
}

/// The addresses configured for the name with labels `key`, if it is
/// listed.
pub open spec fn addrs_for(addrs: NameMap<Vec<IpAddress>>, key: Seq<Seq<u8>>) -> Option<
    Seq<IpAddress>,
> {
    match addrs.value(key) {
        Some(list) => Some(list@),
        None => None,
    }
}

/// The nameservers configured for the name with labels `key`, if it is
/// listed.
pub open spec fn nameservers_for(entries: NameMap<Vec<LowerName>>, key: Seq<Seq<u8>>) -> Option<
    Seq<LowerName>,
> {
    match entries.value(key) {
        Some(list) => Some(list@),
        None => None,
    }
}

/// The A data for a list of addresses: one for each IPv4 address, in order.
pub open spec fn a_data(addrs: Seq<IpAddress>) -> Seq<RDataView>
    decreases addrs.len(),
{
    if addrs.len() == 0 {
        Seq::empty()
    } else {
        match addrs.last() {
            IpAddress::V4(a) => a_data(addrs.drop_last()).push(RDataView::A(a)),
            IpAddress::V6(_) => a_data(addrs.drop_last()),
        }
    }
}

/// The AAAA data for a list of addresses: one for each IPv6 address, in
/// order.
pub open spec fn aaaa_data(addrs: Seq<IpAddress>) -> Seq<RDataView>
    decreases addrs.len(),
{
    if addrs.len() == 0 {
        Seq::empty()
    } else {
        match addrs.last() {
            IpAddress::V4(_) => aaaa_data(addrs.drop_last()),
            IpAddress::V6(a) => aaaa_data(addrs.drop_last()).push(RDataView::AAAA(a)),
        }
    }
}

/// The NS data for a list of nameservers: one for each, in order.
pub open spec fn ns_data(nameservers: Seq<LowerName>) -> Seq<RDataView> {
    nameservers.map_values(|n: LowerName| RDataView::NS(n@))
}

/// The TXT data for a list of values: one for each, in order.
pub open spec fn txt_data(values: Seq<Seq<char>>) -> Seq<RDataView> {
    values.map_values(|t: Seq<char>| RDataView::TXT(t))
}

/// The authoritative answer that holds one record for each item of
/// `rdata`, each for `name` and with the shortest time to live.
pub open spec fn authoritative(name: NameView, rdata: Seq<RDataView>) -> ResponseView {
    ResponseView {
        response_code: ResponseCode::NoError,
        authoritative: true,
        answers: rdata.map_values(|d: RDataView| RecordView { name, ttl: ANSWER_TTL, rdata: d }),
    }
}

/// The authoritative answer that the name does not exist.
pub open spec fn nxdomain() -> ResponseView {
    ResponseView {
        response_code: ResponseCode::NXDomain,
        authoritative: true,
        answers: Seq::empty(),
    }
}

/// The answer to what is not implemented.
pub open spec fn not_implemented() -> ResponseView {
    ResponseView {
        response_code: ResponseCode::NotImp,
        authoritative: false,
        answers: Seq::empty(),
    }
}

/// The answer after an internal failure, which says nothing of its cause.
pub open spec fn server_failure() -> ResponseView {
    ResponseView {
        response_code: ResponseCode::ServFail,
        authoritative: false,
        answers: Seq::empty(),
    }
}

/// The answer to a TXT query: the values held for an eligible name, which
/// may be none; any other name does not exist, whatever the store holds.
pub open spec fn txt_answer<S: TxtStore>(config: Config, store: &S, name: NameView) -> ResponseView {
    if eligible(config.acl@, config.domain.key(), name.labels) {
        authoritative(name, txt_data(store.history(name.labels)))
    } else {
        nxdomain()
    }
}

/// The SOA data of the configured domain on a date, given the name that
/// the administrator's address denotes.
pub open spec fn soa_data(config: Config, admin: NameView, today: Date) -> RDataView {
    RDataView::SOA {
        mname: config.ns_domain@,
        rname: admin,
        serial: today.spec_serial() as u32,
        refresh: SOA_REFRESH,
        retry: SOA_RETRY,
        expire: SOA_EXPIRE,
        minimum: SOA_MINIMUM,
    }
}

/// The answer to an SOA query, where there is one: a name other than the
/// configured domain does not exist; for the domain itself the answer is
/// its SOA record, and there is none where the administrator's address
/// denotes no name.
pub open spec fn soa_answer(config: Config, name: NameView, today: Date) -> Option<ResponseView> {
    if name.labels != config.domain.key() {
        Some(nxdomain())
    } else {
        match name_of_text(sanitized(config.ns_admin@)) {
            Some(admin) => Some(
                authoritative(
                    name,
                    seq![soa_data(config, NameView { labels: admin.0, fqdn: admin.1 }, today)],
                ),
            ),
            None => None,
        }
    }
}

/// The answer to an A query: the IPv4 addresses of a listed name, which may
/// be none; a name that is not listed does not exist.
pub open spec fn a_answer(config: Config, name: NameView) -> ResponseView {
    match addrs_for(config.addrs, name.labels) {
        Some(addrs) => authoritative(name, a_data(addrs)),
        None => nxdomain(),
    }
}

/// The answer to an AAAA query: the IPv6 addresses of a listed name, which
/// may be none; a name that is not listed does not exist.
pub open spec fn aaaa_answer(config: Config, name: NameView) -> ResponseView {
    match addrs_for(config.addrs, name.labels) {
        Some(addrs) => authoritative(name, aaaa_data(addrs)),
        None => nxdomain(),
    }
}

/// The answer to an NS query: the nameservers of a listed name; a name that
/// is not listed does not exist.
pub open spec fn ns_answer(config: Config, name: NameView) -> ResponseView {
    match nameservers_for(config.ns_records, name.labels) {
        Some(nameservers) => authoritative(name, ns_data(nameservers)),
        None => nxdomain(),
    }
}

/// The answer to a request on a date, where there is one. Only standard
/// queries for TXT, SOA, A, AAAA and NS records are implemented.
pub open spec fn dispatched<S: TxtStore>(
    config: Config,
    store: &S,
    request: Request,
    today: Date,
) -> Option<ResponseView> {
    if !request.is_query() {
        Some(not_implemented())
    } else {
        match request.query_type {
            RecordType::TXT => Some(txt_answer(config, store, request.name@)),
            RecordType::SOA => soa_answer(config, request.name@, today),
            RecordType::A => Some(a_answer(config, request.name@)),
            RecordType::AAAA => Some(aaaa_answer(config, request.name@)),
            RecordType::NS => Some(ns_answer(config, request.name@)),
            RecordType::Unknown(_) => Some(not_implemented()),
        }
    }
}

/// The answer to a request on a date. Where building the answer fails, the
/// answer is a server failure.
pub open spec fn answer<S: TxtStore>(
    config: Config,
    store: &S,
    request: Request,
    today: Date,
) -> ResponseView {
    match dispatched(config, store, request, today) {
        Some(response) => response,
        None => server_failure(),
    }
}

/// The response to what is not implemented.
pub fn handle_notimpl() -> (response: Response)
    ensures
        response@ == not_implemented(),
{
    let response = Response {
        response_code: ResponseCode::NotImp,
        authoritative: false,
        answers: Vec::new(),
    };
    assert(response@.answers =~= Seq::empty());
    response
}

/// The authoritative response that the name does not exist.
pub fn send_nxdomain() -> (response: Response)
    ensures
        response@ == nxdomain(),
{
    let response = Response {
        response_code: ResponseCode::NXDomain,
        authoritative: true,
        answers: Vec::new(),
    };
    assert(response@.answers =~= Seq::empty());
    response
}

/// The response after an internal failure.
pub fn server_failed() -> (response: Response)
    ensures
        response@ == server_failure(),
{
    let response = Response {
        response_code: ResponseCode::ServFail,
        authoritative: false,
        answers: Vec::new(),
    };
    assert(response@.answers =~= Seq::empty());
    response
}

/// The authoritative response with one record for each item of `rdata`,
/// each for `name` and with the shortest time to live.
pub fn send_auth_resp(name: &LowerName, rdata: Vec<RData>) -> (response: Response)
    ensures
        response@ == authoritative(name@, rdata_view(rdata@)),
{
    let ghost all = rdata@;
    let ghost wanted = authoritative(name@, rdata_view(all)).answers;
    let mut rest = rdata;
    let mut records: Vec<Record> = Vec::new();
    while rest.len() > 0
        invariant
            records@.len() + rest@.len() == all.len(),
            rest@ == all.skip(records@.len() as int),
            wanted == authoritative(name@, rdata_view(all)).answers,
            forall|k: int| 0 <= k < records@.len() ==> (#[trigger] records@[k])@ == wanted[k],
        decreases rest.len(),
    {
        let ghost k = records@.len() as int;
        let rd = rest.remove(0);
        assert(rd == all[k]);
        records.push(Record { name: name.to_name(), ttl: ANSWER_TTL, rdata: rd });
        assert(rest@ =~= all.skip(k + 1));
    }
    let response = Response {
        response_code: ResponseCode::NoError,
        authoritative: true,
        answers: records,
    };
    assert(response@.answers =~= wanted);
    response
}

/// The TXT data for the values that the store holds for `key`.
pub fn txt_rdata<S: TxtStore>(store: &S, key: &LowerName) -> (rdata: Vec<RData>)
    ensures
        rdata_view(rdata@) == txt_data(store.history(key.key())),
{
    let values: VecDeque<String> = store.get_txt(key);
    let mut rdata: Vec<RData> = Vec::new();
    let mut i: usize = 0;
    proof {
        vstd::std_specs::vecdeque::axiom_spec_len(&values);
    }
    while i < values.len()
        invariant
            i <= values@.len(),
            values.len() == values@.len(),
            rdata@.len() == i,
            forall|k: int| 0 <= k < i ==> (#[trigger] rdata@[k])@ == RDataView::TXT(values@[k]@),
        decreases values@.len() - i,
    {
        rdata.push(RData::TXT(values[i].clone()));
        i = i + 1;
    }
    assert(rdata_view(rdata@) =~= txt_data(texts(values@)));
    rdata
}

/// The A data for a list of addresses.
pub fn a_rdata_of(addrs: &Vec<IpAddress>) -> (rdata: Vec<RData>)
    ensures
        rdata_view(rdata@) == a_data(addrs@),
{
    let mut rdata: Vec<RData> = Vec::new();
    let mut i: usize = 0;
    assert(addrs@.take(0) =~= Seq::empty());
    assert(rdata_view(rdata@) =~= Seq::empty());
    while i < addrs.len()
        invariant
            i <= addrs.len(),
            rdata_view(rdata@) == a_data(addrs@.take(i as int)),
        decreases addrs.len() - i,
    {
        let ghost before = rdata@;
        proof {
            assert(addrs@.take(i + 1).drop_last() =~= addrs@.take(i as int));
            assert(addrs@.take(i + 1).last() == addrs@[i as int]);
        }
        match addrs[i] {
            IpAddress::V4(a) => {
                rdata.push(RData::A(a));
                assert(rdata_view(rdata@) =~= rdata_view(before).push(RDataView::A(a)));
            },
            IpAddress::V6(_) => {},
        }
        i = i + 1;
    }
    assert(addrs@.take(addrs.len() as int) =~= addrs@);
    rdata
}

/// The AAAA data for a list of addresses.
pub fn aaaa_rdata_of(addrs: &Vec<IpAddress>) -> (rdata: Vec<RData>)
    ensures
        rdata_view(rdata@) == aaaa_data(addrs@),
{
    let mut rdata: Vec<RData> = Vec::new();
    let mut i: usize = 0;
    assert(addrs@.take(0) =~= Seq::empty());
    assert(rdata_view(rdata@) =~= Seq::empty());
    while i < addrs.len()
        invariant
            i <= addrs.len(),
            rdata_view(rdata@) == aaaa_data(addrs@.take(i as int)),
        decreases addrs.len() - i,
    {
        let ghost before = rdata@;
        proof {
            assert(addrs@.take(i + 1).drop_last() =~= addrs@.take(i as int));
            assert(addrs@.take(i + 1).last() == addrs@[i as int]);
        }
        match addrs[i] {
            IpAddress::V4(_) => {},
            IpAddress::V6(a) => {
                rdata.push(RData::AAAA(a));
                assert(rdata_view(rdata@) =~= rdata_view(before).push(RDataView::AAAA(a)));
            },
        }
        i = i + 1;
    }
    assert(addrs@.take(addrs.len() as int) =~= addrs@);
    rdata
}

/// The NS data for a list of nameservers.
pub fn ns_rdata_of(nameservers: &Vec<LowerName>) -> (rdata: Vec<RData>)
    ensures
        rdata_view(rdata@) == ns_data(nameservers@),
{
    let mut rdata: Vec<RData> = Vec::new();
    let mut i: usize = 0;
    while i < nameservers.len()
        invariant
            i <= nameservers.len(),
            rdata@.len() == i,
            forall|k: int| 0 <= k < i ==> (#[trigger] rdata@[k])@ == RDataView::NS(nameservers@[k]@),
        decreases nameservers.len() - i,
    {
        rdata.push(RData::NS(nameservers[i].to_name()));
        i = i + 1;
    }
    assert(rdata_view(rdata@) =~= ns_data(nameservers@));
    rdata
}

impl Handler {
    /// The entry of the address map for `fqdn`, if the name is listed.
    pub fn addrs_from_config(&self, fqdn: &LowerName) -> (found: Option<&Vec<IpAddress>>)
        ensures
            match found {
                Some(addrs) => addrs_for(self.config().addrs, fqdn.key()) == Some(addrs@),
                None => addrs_for(self.config().addrs, fqdn.key()) is None,
            },
    {
        self.config.addrs.get(fqdn)
    }

    /// The entry of the nameserver map for `fqdn`, if the name is listed.
    pub fn ns_names_from_config(&self, fqdn: &LowerName) -> (found: Option<&Vec<LowerName>>)
        ensures
            match found {
                Some(names) => nameservers_for(self.config().ns_records, fqdn.key()) == Some(
                    names@,
                ),
                None => nameservers_for(self.config().ns_records, fqdn.key()) is None,
            },
    {
        self.config.ns_records.get(fqdn)
    }

    /// The A data configured for `fqdn`; none for a name that is not
    /// listed.
    pub fn a_rdata(&self, fqdn: &LowerName) -> (rdata: Vec<RData>)
        ensures
            rdata_view(rdata@) == match addrs_for(self.config().addrs, fqdn.key()) {
                Some(addrs) => a_data(addrs),
                None => Seq::empty(),
            },
    {
        match self.addrs_from_config(fqdn) {
            Some(addrs) => a_rdata_of(addrs),
            None => {
                let rdata: Vec<RData> = Vec::new();
                assert(rdata_view(rdata@) =~= Seq::empty());
                rdata
            },
        }
    }

    /// The AAAA data configured for `fqdn`; none for a name that is not
    /// listed.
    pub fn aaaa_rdata(&self, fqdn: &LowerName) -> (rdata: Vec<RData>)
        ensures
            rdata_view(rdata@) == match addrs_for(self.config().addrs, fqdn.key()) {
                Some(addrs) => aaaa_data(addrs),
                None => Seq::empty(),
            },
    {
        match self.addrs_from_config(fqdn) {
            Some(addrs) => aaaa_rdata_of(addrs),
            None => {
                let rdata: Vec<RData> = Vec::new();
                assert(rdata_view(rdata@) =~= Seq::empty());
                rdata
            },
        }
    }

    /// The NS data configured for `fqdn`; none for a name that is not
    /// listed.
    pub fn ns_rdata(&self, fqdn: &LowerName) -> (rdata: Vec<RData>)
        ensures
            rdata_view(rdata@) == match nameservers_for(self.config().ns_records, fqdn.key()) {
                Some(nameservers) => ns_data(nameservers),
                None => Seq::empty(),
            },
    {
        match self.ns_names_from_config(fqdn) {
            Some(nameservers) => ns_rdata_of(nameservers),
            None => {
                let rdata: Vec<RData> = Vec::new();
                assert(rdata_view(rdata@) =~= Seq::empty());
                rdata
            },
        }
    }

    /// Answers a TXT query.
    pub fn handle_request_txt<S: TxtStore>(&self, request: &Request, store: &S) -> (response:
        Response)
        ensures
            response@ == txt_answer(self.config(), store, request.name@),
    {
        if !self.in_txt_domain_set(&request.name) {
            return send_nxdomain();
        }
        let txt_data = txt_rdata(store, &request.name);
        send_auth_resp(&request.name, txt_data)
    }

    /// Answers an SOA query. Fails where the administrator's address
    /// denotes no name.
    pub fn handle_request_soa(&self, request: &Request, today: Date) -> (res: Result<
        Response,
        Error,
    >)
        ensures
            match res {
                Ok(response) => soa_answer(self.config(), request.name@, today) == Some(response@),
                Err(err) => err is DNSError && soa_answer(self.config(), request.name@, today)
                    is None,
            },
    {
        if !request.name.same_as(&self.config.domain) {
            return Ok(send_nxdomain());
        }
        let serial: u32 = today.serial();
        let ns_admin = match self.config.ns_admin() {
            Ok(name) => name,
            Err(err) => {
                return Err(err);
            },
        };
        let soa_rdata = RData::SOA(
            SOA {
                mname: self.config.ns_domain.to_name(),
                rname: ns_admin,
                serial,
                refresh: SOA_REFRESH,
                retry: SOA_RETRY,
                expire: SOA_EXPIRE,
                minimum: SOA_MINIMUM,
            },
        );
        let mut rdata: Vec<RData> = Vec::new();
        rdata.push(soa_rdata);
        proof {
            let admin = name_of_text(sanitized(self.config().ns_admin@))->0;
            assert(rdata_view(rdata@) =~= seq![
                soa_data(self.config(), NameView { labels: admin.0, fqdn: admin.1 }, today),
            ]);
        }
        Ok(send_auth_resp(&request.name, rdata))
    }

    /// Answers an A query.
    pub fn handle_request_a(&self, request: &Request) -> (response: Response)
        ensures
            response@ == a_answer(self.config(), request.name@),
    {
        match self.addrs_from_config(&request.name) {
            None => send_nxdomain(),
            Some(_) => send_auth_resp(&request.name, self.a_rdata(&request.name)),
        }
    }

    /// Answers an AAAA query.
    pub fn handle_request_aaaa(&self, request: &Request) -> (response: Response)
        ensures
            response@ == aaaa_answer(self.config(), request.name@),
    {
        match self.addrs_from_config(&request.name) {
            None => send_nxdomain(),
            Some(_) => send_auth_resp(&request.name, self.aaaa_rdata(&request.name)),
        }
    }

    /// Answers an NS query.
    pub fn handle_request_ns(&self, request: &Request) -> (response: Response)
        ensures
            response@ == ns_answer(self.config(), request.name@),
    {
        match self.ns_names_from_config(&request.name) {
            None => send_nxdomain(),
            Some(_) => send_auth_resp(&request.name, self.ns_rdata(&request.name)),
        }
    }

    /// Answers a request by its kind, or says that the kind is not
    /// implemented. Fails where an answer cannot be built.
    pub fn dispatch_request<S: TxtStore>(&self, request: &Request, store: &S, today: Date) -> (res:
        Result<Response, Error>)
        ensures
            match res {
                Ok(response) => dispatched(self.config(), store, *request, today) == Some(
                    response@,
                ),
                Err(err) => err is DNSError && dispatched(self.config(), store, *request, today)
                    is None,
            },
    {
        if request.op_code != OpCode::Query || request.message_type != MessageType::Query {
            return Ok(handle_notimpl());
        }
        match request.query_type {
            RecordType::TXT => Ok(self.handle_request_txt(request, store)),
            RecordType::SOA => self.handle_request_soa(request, today),
            RecordType::A => Ok(self.handle_request_a(request)),
            RecordType::AAAA => Ok(self.handle_request_aaaa(request)),
            RecordType::NS => Ok(self.handle_request_ns(request)),
            RecordType::Unknown(_) => Ok(handle_notimpl()),
        }
    }

    /// Answers a request as of the given date. An error on the way is
    /// answered as a server failure and shows nothing of itself.
    pub fn handle_request_on<S: TxtStore>(&self, request: &Request, store: &S, today: Date) -> (
        response: Response)
        ensures
            response@ == answer(self.config(), store, *request, today),
    {
        match self.dispatch_request(request, store, today) {
            Ok(response) => response,
            Err(_) => server_failed(),
        }
    }

    /// Answers a request as of today. The date matters to SOA queries
    /// alone; a clock that shows no four-digit year is a server failure
    /// there.
    pub fn handle_request<S: TxtStore>(&self, request: &Request, store: &S) -> (response: Response)
        ensures
            !(request.is_query() && request.query_type == RecordType::SOA) ==> forall|
                today: Date,
            |
                response@ == #[trigger] answer(self.config(), store, *request, today),
            request.is_query() && request.query_type == RecordType::SOA ==> response@
                == server_failure() || exists|today: Date|
                response@ == #[trigger] answer(self.config(), store, *request, today),
    {
        let needs_date = request.op_code == OpCode::Query && request.message_type
            == MessageType::Query && request.query_type == RecordType::SOA;
        let clock: (i32, u8, u8) = if needs_date {
            utc_today()
        } else {
            (0, 1, 1)
        };
        match Date::new(clock.0, clock.1, clock.2) {
            Some(today) => self.handle_request_on(request, store, today),
            None => server_failed(),
        }
    }
}

/// No address of a list of IPv6 addresses is A data.
pub proof fn lemma_no_a_data(addrs: Seq<IpAddress>)
    requires
        forall|i: int| 0 <= i < addrs.len() ==> #[trigger] addrs[i] is V6,
    ensures
        a_data(addrs) == Seq::<RDataView>::empty(),
    decreases addrs.len(),
{
    if addrs.len() > 0 {
        assert(addrs.last() == addrs[addrs.len() - 1]);
        assert forall|i: int| 0 <= i < addrs.drop_last().len() implies #[trigger] addrs.drop_last()[i]
            is V6 by {
            assert(addrs.drop_last()[i] == addrs[i]);
        }
        lemma_no_a_data(addrs.drop_last());
    }
}

/// No address of a list of IPv4 addresses is AAAA data.
pub proof fn lemma_no_aaaa_data(addrs: Seq<IpAddress>)
    requires
        forall|i: int| 0 <= i < addrs.len() ==> #[trigger] addrs[i] is V4,
    ensures
        aaaa_data(addrs) == Seq::<RDataView>::empty(),
    decreases addrs.len(),
{
    if addrs.len() > 0 {
        assert(addrs.last() == addrs[addrs.len() - 1]);
        assert forall|i: int| 0 <= i < addrs.drop_last().len() implies #[trigger] addrs.drop_last()[i]
            is V4 by {
            assert(addrs.drop_last()[i] == addrs[i]);
        }
        lemma_no_aaaa_data(addrs.drop_last());
    }
}

/// A TXT query for a name that nobody may update is answered with "no such
/// name", whatever the store holds for it.
pub proof fn lemma_ineligible_txt_is_nxdomain<S: TxtStore>(
    config: Config,
    store: &S,
    request: Request,
    today: Date,
)
    requires
        request.is_query(),
        request.query_type == RecordType::TXT,
        !eligible(config.acl@, config.domain.key(), request.name.key()),
    ensures
        answer(config, store, request, today) == nxdomain(),
{
}

/// A TXT query for a name that somebody may update, and that holds no
/// value, is answered authoritatively, with success and without records.
pub proof fn lemma_unset_txt_is_empty<S: TxtStore>(
    config: Config,
    store: &S,
    request: Request,
    today: Date,
)
    requires
        request.is_query(),
        request.query_type == RecordType::TXT,
        eligible(config.acl@, config.domain.key(), request.name.key()),
        store.history(request.name.key()).len() == 0,
    ensures
        answer(config, store, request, today).response_code == ResponseCode::NoError,
        answer(config, store, request, today).authoritative,
        answer(config, store, request, today).answers.len() == 0,
{
}

/// A TXT query for a name that somebody may update is answered with one
/// record for each value that the store holds for it, newest first.
pub proof fn lemma_txt_serves_history<S: TxtStore>(
    config: Config,
    store: &S,
    request: Request,
    today: Date,
)
    requires
        request.is_query(),
        request.query_type == RecordType::TXT,
        eligible(config.acl@, config.domain.key(), request.name.key()),
    ensures
        answer(config, store, request, today).response_code == ResponseCode::NoError,
        answer(config, store, request, today).authoritative,
        answer(config, store, request, today).answers.len() == store.history(
            request.name.key(),
        ).len(),
        forall|i: int|
            0 <= i < store.history(request.name.key()).len() ==> #[trigger] answer(
                config,
                store,
                request,
                today,
            ).answers[i] == (RecordView {
                name: request.name@,
                ttl: ANSWER_TTL,
                rdata: RDataView::TXT(store.history(request.name.key())[i]),
            }),
{
}

/// An A query for a listed name that has IPv6 addresses only is answered
/// authoritatively, with success and without records.
pub proof fn lemma_a_for_ipv6_only_is_empty<S: TxtStore>(
    config: Config,
    store: &S,
    request: Request,
    today: Date,
)
    requires
        request.is_query(),
        request.query_type == RecordType::A,
        addrs_for(config.addrs, request.name.key()) matches Some(addrs) && forall|i: int|
            0 <= i < addrs.len() ==> #[trigger] addrs[i] is V6,
    ensures
        answer(config, store, request, today).response_code == ResponseCode::NoError,
        answer(config, store, request, today).authoritative,
        answer(config, store, request, today).answers.len() == 0,
{
    lemma_no_a_data(addrs_for(config.addrs, request.name.key())->0);
}

/// An SOA query for the configured domain is answered with one record: the
/// nameserver, the administrator, the serial of the day as `YYYYMMDD`, and
/// the four fixed timers.
pub proof fn lemma_soa_of_domain<S: TxtStore>(
    config: Config,
    store: &S,
    request: Request,
    today: Date,
)
    requires
        request.is_query(),
        request.query_type == RecordType::SOA,
        request.name.key() == config.domain.key(),
        name_of_text(sanitized(config.ns_admin@)) is Some,
        in_calendar(today.year(), today.month(), today.day()),
    ensures
        answer(config, store, request, today).response_code == ResponseCode::NoError,
        answer(config, store, request, today).authoritative,
        answer(config, store, request, today).answers.len() == 1,
        answer(config, store, request, today).answers[0].name == request.name@,
        answer(config, store, request, today).answers[0].ttl == ANSWER_TTL,
        answer(config, store, request, today).answers[0].rdata matches RDataView::SOA {
            mname,
            serial,
            refresh,
            retry,
            expire,
            minimum,
            ..
        } && mname == config.ns_domain@ && serial == today.year() * 10_000 + today.month() * 100
            + today.day() && refresh == 86_400 && retry == 7_200 && expire == 3_600_000 && minimum
            == 172_800,
{
}

/// Only names that somebody may update can fail to exist for TXT: every
/// TXT answer is either "no such name" for a name that nobody may update,
/// or an authoritative success.
pub proof fn lemma_txt_nxdomain_only_if_ineligible<S: TxtStore>(
    config: Config,
    store: &S,
    request: Request,
    today: Date,
)
    requires
        request.is_query(),
        request.query_type == RecordType::TXT,
    ensures
        answer(config, store, request, today).response_code == ResponseCode::NXDomain <==> !eligible(
            config.acl@,
            config.domain.key(),
            request.name.key(),
        ),
        answer(config, store, request, today).authoritative,
{
}

/// What is no standard query for a TXT, SOA, A, AAAA or NS record is not
/// implemented.
pub proof fn lemma_other_requests_not_implemented<S: TxtStore>(
    config: Config,
    store: &S,
    request: Request,
    today: Date,
)
    requires
        !request.is_query() || request.query_type is Unknown,
    ensures
        answer(config, store, request, today) == not_implemented(),
{
}

} // verus!
