//! The update endpoint, from the parsed request to the stored value.

use crate::api::model::{
    url_safe_no_pad_decoding, UpdateRecordRequest, UpdateRecordResult, DNS01_DECODED_LEN_BYTES,
};
use crate::config::{acl_permits, Config};
use crate::error::Error;
use crate::name::{appended, lower_labels, name_of_text, LowerName, Name, NameView};
use crate::net::IpAddress;
use crate::txt_store::{pushed, TxtStore};
use vstd::prelude::*;

verus! {

/// Whether a TXT value is the encoding of a digest.
pub open spec fn is_dns01(txt: Seq<char>) -> bool {
    url_safe_no_pad_decoding(txt) matches Some(raw) && raw.len() == DNS01_DECODED_LEN_BYTES
}

/// What is to be done with an update.
pub ghost enum Verdict {
    /// The subdomain is no domain name.
    BadName,
    /// The client may not update the subdomain.
    Forbidden { subdomain: NameView },
    /// The TXT value is not a DNS-01 challenge response.
    BadValue,
    /// Subdomain and domain are too long together.
    TooLong,
    /// The value is to be stored under the name with these labels.
    Store { key: Seq<Seq<u8>> },
}

/// The verdict on an update from `client_addr`. Authorization is checked
/// before the value's format, and both before anything is stored.
pub open spec fn verdict(
    config: Config,
    client_addr: IpAddress,
    payload: UpdateRecordRequest,
) -> Verdict {
    match name_of_text(payload.subdomain@) {
        None => Verdict::BadName,
        Some(parsed) => {
            let subdomain = NameView { labels: parsed.0, fqdn: parsed.1 };
            if !acl_permits(config.acl@, client_addr, lower_labels(subdomain.labels)) {
                Verdict::Forbidden {
                    subdomain: NameView {
                        labels: lower_labels(subdomain.labels),
                        fqdn: subdomain.fqdn,
                    },
                }
            } else if !is_dns01(payload.txt@) {
                Verdict::BadValue
            } else {
                match appended(subdomain, config.domain@) {
                    None => Verdict::TooLong,
                    Some(fqdn) => Verdict::Store { key: lower_labels(fqdn.labels) },
                }
            }
        },
    }
}

/// Whether `res` is the refusal that the verdict asks for.
pub open spec fn refused(
    v: Verdict,
    client_addr: IpAddress,
    res: Result<UpdateRecordResult, Error>,
) -> bool {
    match v {
        Verdict::BadName => res matches Err(Error::DNSError(_)),
        Verdict::Forbidden { subdomain } => res matches Err(Error::AuthForbidden(ip, name)) && ip
            == client_addr && name@ == subdomain,
        Verdict::BadValue => res matches Err(Error::InvalidDNS01),
        Verdict::TooLong => res matches Err(Error::DNSError(_)),
        Verdict::Store { .. } => true,
    }
}

/// What the store reported, read off the response to an update.
pub open spec fn outcome(res: Result<UpdateRecordResult, Error>) -> Result<(), Error> {
    match res {
        Ok(_) => Ok(()),
        Err(err) => Err(err),
    }
}

/// The response to an update once the store has taken the value: the
/// value is echoed where the store reports success, and the store's error
/// is passed on where it does not.
pub fn finish_update(stored: Result<(), Error>, txt: String) -> (res: Result<
    UpdateRecordResult,
    Error,
>)
    ensures
        match stored {
            Ok(()) => res matches Ok(result) && result.txt@ == txt@,
            Err(err) => res == Err::<UpdateRecordResult, Error>(err),
        },
        outcome(res) == stored,
{
    match stored {
        Ok(unit) => {
            assert(unit == ());
            Ok(UpdateRecordResult { txt })
        },
        Err(err) => Err(err),
    }
}

/// Handles an update of `payload.subdomain` from `client_addr`.
///
/// The client must be allowed to update the subdomain and the value must
/// be a DNS-01 challenge response. Then the value is stored under the
/// subdomain followed by the configured domain, fully qualified, and the
/// response is that of the store's write: the value echoed where the write
/// succeeds, the store's error where it fails. A refused update leaves the
/// store as it was.
pub fn update<S: TxtStore>(
    config: &Config,
    txt_store: &mut S,
    client_addr: IpAddress,
    payload: UpdateRecordRequest,
) -> (res: Result<UpdateRecordResult, Error>)
    ensures
        refused(verdict(*config, client_addr, payload), client_addr, res),
        match verdict(*config, client_addr, payload) {
            Verdict::Store { key } => {
                &&& final(txt_store).contents() == old(txt_store).contents().insert(
                    key,
                    pushed(old(txt_store).history(key), payload.txt@),
                )
                &&& final(txt_store).wrote(
                    old(txt_store),
                    NameView { labels: key, fqdn: true },
                    payload.txt@,
                    outcome(res),
                )
                &&& res matches Ok(result) ==> result.txt@ == payload.txt@
            },
            _ => res is Err && *final(txt_store) == *old(txt_store),
        },
{
    let subdomain: Name = match Name::from_str(payload.subdomain.as_str()) {
        Ok(name) => name,
        Err(err) => {
            return Err(Error::DNSError(err));
        },
    };
    if !config.update_permitted(client_addr, &subdomain) {
        return Err(Error::AuthForbidden(client_addr, LowerName::new(&subdomain)));
    }
    match payload.valid_dns01() {
        Err(_) => Err(Error::InvalidDNS01),
        Ok(_) => {
            let fqdn = match subdomain.append_domain(config.domain.as_name()) {
                Ok(name) => name,
                Err(err) => {
                    return Err(Error::DNSError(err));
                },
            };
            let stored = txt_store.add_txt(LowerName::new(&fqdn), payload.txt.clone());
            finish_update(stored, payload.txt)
        },
    }
}

/// An accepted update of a store in memory succeeds: of such a write the
/// store reports nothing but success.
pub proof fn lemma_accepted_update_succeeds(
    after: &crate::txt_store::memory::InMemoryTxtStore,
    before: &crate::txt_store::memory::InMemoryTxtStore,
    key: Seq<Seq<u8>>,
    value: Seq<char>,
    res: Result<UpdateRecordResult, Error>,
)
    requires
        after.wrote(before, NameView { labels: key, fqdn: true }, value, outcome(res)),
    ensures
        res is Ok,
{
}

/// Whatever the gateway stores, the answer engine serves: the name under
/// which an accepted update is stored is one for which a TXT record can
/// exist.
pub proof fn lemma_stored_name_is_eligible(
    config: Config,
    client_addr: IpAddress,
    payload: UpdateRecordRequest,
)
    requires
        verdict(config, client_addr, payload) is Store,
    ensures
        crate::dns::handlers::eligible(
            config.acl@,
            config.domain.key(),
            verdict(config, client_addr, payload)->key,
        ),
{
    let parsed = name_of_text(payload.subdomain@)->0;
    let sub = parsed.0;
    let acl = config.acl@;
    let domain = config.domain.key();
    let i = choose|i: int|
        0 <= i < acl.len() && crate::config::entry_permits(
            #[trigger] acl[i],
            client_addr,
            lower_labels(sub),
        );
    let names = acl[i].subdomains.names();
    let j = choose|j: int| crate::name_map::named_at(names, j, lower_labels(sub));
    crate::name::lemma_lower_concat(sub, domain);
    crate::name::lemma_lower_concat(names[j].name@.labels, domain);
    crate::name::lemma_lower_idempotent(sub);
    assert(verdict(config, client_addr, payload)->key == lower_labels(
        names[j].name@.labels + domain,
    ));
}

/// An update from an address outside every network that lists the
/// subdomain is forbidden, whatever the value.
pub proof fn lemma_outsider_is_forbidden(
    config: Config,
    client_addr: IpAddress,
    payload: UpdateRecordRequest,
)
    requires
        name_of_text(payload.subdomain@) matches Some(parsed) && !acl_permits(
            config.acl@,
            client_addr,
            lower_labels(parsed.0),
        ),
    ensures
        verdict(config, client_addr, payload) is Forbidden,
{
}

} // verus!
