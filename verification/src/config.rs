//! Configuration.

use crate::error::Error;
use crate::name::{lower_labels, name_of_text, LowerName, Name};
use crate::name_map::{NameMap, NameSet};
use crate::net::{v6_shares_prefix, IpAddress, Network, SocketAddress};
use crate::txt_store::file::{loads_contents, starts_empty, FileTxtStore};
use crate::txt_store::memory::InMemoryTxtStore;
use crate::txt_store::{DynTxtStore, TxtStore};
use std::sync::Arc;
use vstd::prelude::*;
use vstd::string::StrSliceExecFns;

verus! {

/// A reference-counted `Config`.
pub type Shared = Arc<Config>;

/// A network and the subdomains that its members may update.
#[derive(Debug)]
pub struct AclEntry {
    pub network: Network,
    pub subdomains: NameSet,
}

/// Whether no two entries are for the same network.
pub open spec fn distinct_networks(acl: Seq<AclEntry>) -> bool {
    forall|a: int, b: int|
        0 <= a < b < acl.len() ==> (#[trigger] acl[a]).network != (#[trigger] acl[b]).network
}

/// Whether some entry is for `network`.
pub open spec fn lists_network(acl: Seq<AclEntry>, network: Network) -> bool {
    exists|i: int| 0 <= i < acl.len() && (#[trigger] acl[i]).network == network
}

/// Which networks may update which subdomains. No network has more than
/// one entry.
#[derive(Debug)]
pub struct Acl {
    entries: Vec<AclEntry>,
}

impl View for Acl {
    type V = Seq<AclEntry>;

    closed spec fn view(&self) -> Seq<AclEntry> {
        self.entries@
    }
}

impl Acl {
    #[verifier::type_invariant]
    spec fn inv(&self) -> bool {
        distinct_networks(self.entries@)
    }

    /// An ACL that permits nothing.
    pub fn new() -> (acl: Acl)
        ensures
            acl@.len() == 0,
    {
        Acl { entries: Vec::new() }
    }

    /// The ACL with an entry more, for a network that it does not list yet.
    /// An entry for a network that it lists is dropped: the entry that the
    /// ACL has counts.
    pub fn with(self, network: Network, subdomains: NameSet) -> (acl: Acl)
        ensures
            acl@ == if lists_network(self@, network) {
                self@
            } else {
                self@.push(AclEntry { network, subdomains })
            },
    {
        proof {
            use_type_invariant(&self);
        }
        let mut i: usize = 0;
        while i < self.entries.len()
            invariant
                i <= self.entries.len(),
                forall|h: int| 0 <= h < i ==> (#[trigger] self.entries@[h]).network != network,
            decreases self.entries.len() - i,
        {
            if self.entries[i].network == network {
                return self;
            }
            i = i + 1;
        }
        let mut entries = self.entries;
        entries.push(AclEntry { network, subdomains });
        Acl { entries }
    }

    /// The entries of the ACL. No two are for the same network.
    pub fn as_entries(&self) -> (entries: &Vec<AclEntry>)
        ensures
            entries@ == self@,
            distinct_networks(self@),
    {
        proof {
            use_type_invariant(self);
        }
        &self.entries
    }
}

/// The runtime configuration.
#[derive(Debug)]
pub struct Config {
    /// Domain name of this instance. TXT records can be set for subdomains
    /// of it.
    pub domain: LowerName,
    /// Name of the nameserver responsible for `domain`, for the SOA record.
    pub ns_domain: LowerName,
    /// Email address of the nameserver's administrator, for the SOA record.
    pub ns_admin: String,
    /// Path of a JSON file that keeps the TXT records between restarts.
    /// Without one the records live in memory only.
    pub txt_store_state_path: Option<String>,
    /// Bind address of the HTTP API: loopback or within a private network.
    pub api_bind_addr: SocketAddress,
    /// Timeout of HTTP API requests, in seconds.
    pub api_timeout: u64,
    /// UDP bind address for DNS requests.
    pub dns_udp_bind_addr: SocketAddress,
    /// TCP bind address for DNS requests.
    pub dns_tcp_bind_addr: SocketAddress,
    /// Timeout of DNS requests over TCP, in seconds.
    pub dns_tcp_timeout: u64,
    /// Which networks may update which subdomains of `domain`.
    pub acl: Acl,
    /// The addresses served for A and AAAA queries, by name.
    pub addrs: NameMap<Vec<IpAddress>>,
    /// The nameservers served for NS queries, by name.
    pub ns_records: NameMap<Vec<LowerName>>,
}

/// The IPv6 unique local addresses, `fc00::/7`.
pub const IPV6_UNIQUE_LOCAL: u128 = 0xfc00_0000_0000_0000_0000_0000_0000_0000;

/// Length of the prefix of the unique local addresses.
pub const IPV6_UNIQUE_LOCAL_PREFIX: u8 = 7;

/// Whether the API may be bound to `ip`: a loopback address, a private
/// IPv4 address or a unique local IPv6 address.
pub open spec fn secure_bind(ip: IpAddress) -> bool {
    match ip {
        IpAddress::V4(_) => ip.loopback() || ip.private_v4(),
        IpAddress::V6(a) => ip.loopback() || v6_shares_prefix(
            IPV6_UNIQUE_LOCAL,
            a,
            IPV6_UNIQUE_LOCAL_PREFIX,
        ),
    }
}

/// Whether the entry allows `ip` to update the subdomain with labels `key`.
pub open spec fn entry_permits(entry: AclEntry, ip: IpAddress, key: Seq<Seq<u8>>) -> bool {
    entry.network.holds(ip) && entry.subdomains.holds(key)
}

/// Whether some entry allows `ip` to update the subdomain with labels `key`.
pub open spec fn acl_permits(acl: Seq<AclEntry>, ip: IpAddress, key: Seq<Seq<u8>>) -> bool {
    exists|i: int| 0 <= i < acl.len() && entry_permits(#[trigger] acl[i], ip, key)
}

impl Config {
    /// Whether `source_ip` may update `subdomain`: some network of the ACL
    /// contains the address and lists the subdomain. Case is ignored, and
    /// the subdomain is taken relative to `domain`.
    pub fn update_permitted(&self, source_ip: IpAddress, subdomain: &Name) -> (permitted: bool)
        ensures
            permitted == acl_permits(self.acl@, source_ip, lower_labels(subdomain@.labels)),
    {
        let wanted = LowerName::new(subdomain);
        let acl = self.acl.as_entries();
        let mut i: usize = 0;
        while i < acl.len()
            invariant
                i <= acl.len(),
                acl@ == self.acl@,
                wanted.key() == lower_labels(subdomain@.labels),
                forall|h: int| 0 <= h < i ==> !entry_permits(acl@[h], source_ip, wanted.key()),
            decreases acl.len() - i,
        {
            let entry = &acl[i];
            if entry.network.contains(source_ip) && entry.subdomains.contains(&wanted) {
                assert(entry_permits(acl@[i as int], source_ip, wanted.key()));
                return true;
            }
            i = i + 1;
        }
        false
    }

    /// Checks that the API bind address is a loopback address or within a
    /// private network.
    pub fn bind_addr_is_secure(&self) -> (res: Result<(), Error>)
        ensures
            secure_bind(self.api_bind_addr.ip) ==> res is Ok,
            !secure_bind(self.api_bind_addr.ip) ==> res == Err::<(), Error>(
                Error::InsecureAPIBind(self.api_bind_addr.ip),
            ),
    {
        let ip = self.api_bind_addr.ip;
        match ip {
            IpAddress::V4(_) => {
                if !ip.is_loopback() && !ip.is_private() {
                    return Err(Error::InsecureAPIBind(ip));
                }
                Ok(())
            },
            IpAddress::V6(_) => {
                let local = match Network::new(
                    IpAddress::V6(IPV6_UNIQUE_LOCAL),
                    IPV6_UNIQUE_LOCAL_PREFIX,
                ) {
                    Some(net) => net.contains(ip),
                    None => false,
                };
                if !ip.is_loopback() && !local {
                    return Err(Error::InsecureAPIBind(ip));
                }
                Ok(())
            },
        }
    }
}

/// Where the first `@` stands that no backslash escapes, looking from `i`
/// on; `escaped` says whether a backslash stands right before `i`.
pub open spec fn find_at_sign(s: Seq<char>, i: int, escaped: bool) -> Option<int>
    decreases s.len() - i,
{
    if i < 0 || i >= s.len() {
        None
    } else if escaped {
        find_at_sign(s, i + 1, false)
    } else if s[i] == '\\' {
        find_at_sign(s, i + 1, true)
    } else if s[i] == '@' {
        Some(i)
    } else {
        find_at_sign(s, i + 1, false)
    }
}

/// The text with a backslash put before every dot.
pub open spec fn escape_dots(s: Seq<char>) -> Seq<char>
    decreases s.len(),
{
    if s.len() == 0 {
        Seq::empty()
    } else if s.last() == '.' {
        escape_dots(s.drop_last()) + seq!['\\', '.']
    } else {
        escape_dots(s.drop_last()).push(s.last())
    }
}

/// An administrator's address as the text of a domain name: the first
/// unescaped `@` becomes a dot, and every dot before it is escaped. An
/// address without such an `@` stays as it is.
pub open spec fn sanitized(admin: Seq<char>) -> Seq<char> {
    match find_at_sign(admin, 0, false) {
        Some(at) => escape_dots(admin.take(at)) + seq!['.'] + admin.skip(at + 1),
        None => admin,
    }
}

/// `String::push`: the character is added at the end.
#[verifier::external_body]
fn push_char(text: &mut String, c: char)
    ensures
        final(text)@ == old(text)@.push(c),
{
    text.push(c)
}

/// Index of the first `@` in `text` that no backslash escapes.
pub fn position_of_at_sign(text: &str) -> (found: Option<usize>)
    ensures
        match found {
            Some(at) => find_at_sign(text@, 0, false) == Some(at as int) && at < text@.len(),
            None => find_at_sign(text@, 0, false) is None,
        },
{
    let n: usize = text.unicode_len();
    let mut i: usize = 0;
    let mut escaped = false;
    while i < n
        invariant
            i <= n,
            n == text@.len(),
            find_at_sign(text@, 0, false) == find_at_sign(text@, i as int, escaped),
        decreases n - i,
    {
        let c = text.get_char(i);
        if escaped {
            escaped = false;
        } else if c == '\\' {
            escaped = true;
        } else if c == '@' {
            return Some(i);
        }
        i = i + 1;
    }
    None
}

impl Config {
    /// The administrator's address as the text of a domain name.
    pub fn sanitized_ns_admin(&self) -> (text: String)
        ensures
            text@ == sanitized(self.ns_admin@),
    {
        let admin = self.ns_admin.as_str();
        let at: usize = match position_of_at_sign(admin) {
            Some(at) => at,
            None => {
                return self.ns_admin.clone();
            },
        };
        let n: usize = admin.unicode_len();
        let mut out = String::new();
        let mut i: usize = 0;
        while i < at
            invariant
                i <= at < n,
                n == admin@.len(),
                out@ == escape_dots(admin@.take(i as int)),
            decreases at - i,
        {
            let c = admin.get_char(i);
            proof {
                assert(admin@.take(i + 1).drop_last() =~= admin@.take(i as int));
                assert(admin@.take(i + 1).last() == c);
            }
            if c == '.' {
                push_char(&mut out, '\\');
                push_char(&mut out, '.');
                assert(out@ =~= escape_dots(admin@.take(i as int)) + seq!['\\', '.']);
            } else {
                push_char(&mut out, c);
            }
            i = i + 1;
        }
        push_char(&mut out, '.');
        i = at + 1;
        while i < n
            invariant
                at < i <= n,
                n == admin@.len(),
                out@ == escape_dots(admin@.take(at as int)) + seq!['.'] + admin@.subrange(
                    at + 1,
                    i as int,
                ),
            decreases n - i,
        {
            let c = admin.get_char(i);
            push_char(&mut out, c);
            assert(admin@.subrange(at + 1, i + 1) =~= admin@.subrange(at + 1, i as int).push(c));
            i = i + 1;
        }
        assert(admin@.subrange(at + 1, n as int) =~= admin@.skip(at + 1));
        out
    }

    /// The administrator's address as a domain name: the `@` is replaced by
    /// a dot, and dots in the user part are escaped. Fails where the result
    /// is no domain name.
    pub fn ns_admin(&self) -> (res: Result<Name, Error>)
        ensures
            match res {
                Ok(name) => name_of_text(sanitized(self.ns_admin@)) == Some(
                    (name@.labels, name@.fqdn),
                ),
                Err(err) => err is DNSError && name_of_text(sanitized(self.ns_admin@)) is None,
            },
    {
        let text = self.sanitized_ns_admin();
        match Name::from_str(text.as_str()) {
            Ok(name) => Ok(name),
            Err(err) => Err(Error::DNSError(err)),
        }
    }
}

impl Config {
    /// The TXT store that the configuration asks for. With a
    /// `txt_store_state_path` it is a `FileTxtStore` for that path, opened
    /// on `contents`, which are the file's contents, or `None` where the
    /// file does not exist yet. Without a path it is an empty
    /// `InMemoryTxtStore`, and `contents` are not looked at.
    pub fn txt_store(&self, contents: Option<Vec<u8>>) -> (res: Result<DynTxtStore, Error>)
        ensures
            self.txt_store_state_path is None ==> (res matches Ok(DynTxtStore::Memory(store))
                && store.contents() == Map::<Seq<Seq<u8>>, Seq<Seq<char>>>::empty()),
            self.txt_store_state_path matches Some(path) ==> match res {
                Ok(DynTxtStore::File(store)) => starts_empty(path@, contents, Ok(store))
                    && loads_contents(path@, contents, Ok(store)),
                Ok(DynTxtStore::Memory(_)) => false,
                Err(err) => starts_empty(path@, contents, Err(err)) && loads_contents(
                    path@,
                    contents,
                    Err(err),
                ),
            },
    {
        match &self.txt_store_state_path {
            Some(state_path) => {
                match FileTxtStore::try_from_file(state_path.as_str(), contents) {
                    Ok(store) => Ok(DynTxtStore::File(store)),
                    Err(err) => Err(err),
                }
            },
            None => Ok(DynTxtStore::Memory(InMemoryTxtStore::new())),
        }
    }
}

/// An empty ACL permits nothing.
pub proof fn lemma_empty_acl_permits_nothing(ip: IpAddress, key: Seq<Seq<u8>>)
    ensures
        !acl_permits(Seq::<AclEntry>::empty(), ip, key),
{
}

/// Each network grants on its own: what one entry permits, the ACL
/// permits, whatever the other entries say.
pub proof fn lemma_any_entry_permits(acl: Seq<AclEntry>, i: int, ip: IpAddress, key: Seq<Seq<u8>>)
    requires
        0 <= i < acl.len(),
        entry_permits(acl[i], ip, key),
    ensures
        acl_permits(acl, ip, key),
{
}

} // verus!
