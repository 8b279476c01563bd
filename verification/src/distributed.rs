//! The sibling servers of a node: each known by a domain and an address,
//! one to one. A connection is served only from a sibling's address, and
//! messages go only to siblings.
use bimap::BiHashMap;
use vstd::prelude::*;
use crate::network::ServerName;
use crate::server::{IpAddress, SocketAddress};
use crate::token::{granted, law_new_token_replaces_old, one_token_per_identity};

verus! {

#[verifier::external_type_specification]
#[verifier::external_body]
#[verifier::reject_recursive_types(L)]
#[verifier::reject_recursive_types(R)]
#[verifier::reject_recursive_types(LS)]
#[verifier::reject_recursive_types(RS)]
pub struct ExBiHashMap<L, R, LS, RS>(bimap::BiHashMap<L, R, LS, RS>);

/// A socket address as plain numbers: the IP version (4 or 6), the
/// address, the port, and for version 6 the flow label and scope id (0 for
/// version 4). Two socket addresses are equal exactly when their keys are.
pub type AddressKey = (u8, u128, u16, u32, u32);

/// The numbers of a socket address.
pub open spec fn address_key(a: SocketAddress) -> AddressKey {
    match a.ip {
        IpAddress::V4(ip) => (4u8, ip as u128, a.port, 0u32, 0u32),
        IpAddress::V6(ip) => (6u8, ip, a.port, a.flowinfo, a.scope_id),
    }
}

fn key_of(a: SocketAddress) -> (r: AddressKey)
    ensures
        r == address_key(a),
{
    match a.ip {
        IpAddress::V4(ip) => (4u8, ip as u128, a.port, 0u32, 0u32),
        IpAddress::V6(ip) => (6u8, ip, a.port, a.flowinfo, a.scope_id),
    }
}

/// Whether two socket addresses are the same, as `SocketAddr` compares
/// them: same version, address and port, and for version 6 the same flow
/// label and scope id.
pub open spec fn same_socket(a: SocketAddress, b: SocketAddress) -> bool {
    match (a.ip, b.ip) {
        (IpAddress::V4(x), IpAddress::V4(y)) => x == y && a.port == b.port,
        (IpAddress::V6(x), IpAddress::V6(y)) => x == y && a.port == b.port && a.flowinfo
            == b.flowinfo && a.scope_id == b.scope_id,
        _ => false,
    }
}

/// Two socket addresses have the same key exactly when they are the same
/// address: the key keeps the version, the address, the port, and for
/// version 6 the flow label and scope id.
pub proof fn law_address_key_identifies_the_address(a: SocketAddress, b: SocketAddress)
    ensures
        (address_key(a) == address_key(b)) <==> same_socket(a, b),
{
}

/// A bimap of sibling domains and addresses.
pub type SiblingMap = BiHashMap<String, AddressKey>;

/// The domain-address pairs that a bimap holds, by domain.
pub uninterp spec fn sibling_pairs(m: BiHashMap<String, AddressKey>) -> Map<Seq<char>, AddressKey>;

/// Calls `BiHashMap::new`: a bimap that holds nothing.
#[verifier::external_body]
fn empty_bimap() -> (r: SiblingMap)
    ensures
        sibling_pairs(r).dom() == Set::<Seq<char>>::empty(),
{
    BiHashMap::new()
}

/// Calls `BiHashMap::insert`, which removes any pair with the same domain
/// or the same address and then holds the new pair.
#[verifier::external_body]
fn bimap_insert(m: &mut BiHashMap<String, AddressKey>, domain: String, addr: AddressKey)
    ensures
        sibling_pairs(*final(m)) == granted(sibling_pairs(*old(m)), domain@, addr),
{
    m.insert(domain, addr);
}

/// Calls `BiHashMap::get_by_right` and clones what it finds: the domain
/// paired with `addr`, if one is.
#[verifier::external_body]
fn bimap_get_by_right(m: &BiHashMap<String, AddressKey>, addr: &AddressKey) -> (r: Option<String>)
    ensures
        match r {
            Some(d) => sibling_pairs(*m).contains_key(d@) && sibling_pairs(*m)[d@] == *addr,
            None => forall|d: Seq<char>| #[trigger]
                sibling_pairs(*m).contains_key(d) ==> sibling_pairs(*m)[d] != *addr,
        },
{
    m.get_by_right(addr).cloned()
}

/// Calls `BiHashMap::contains_left`: whether `domain` is paired.
#[verifier::external_body]
fn bimap_contains_left(m: &BiHashMap<String, AddressKey>, domain: &str) -> (r: bool)
    ensures
        r == sibling_pairs(*m).contains_key(domain@),
{
    m.contains_left(domain)
}

/// Calls `BiHashMap::left_values` and clones each domain: every paired
/// domain once, in the order the map is walked.
#[verifier::external_body]
fn bimap_left_values(m: &BiHashMap<String, AddressKey>) -> (r: Vec<String>)
    ensures
        domain_views(r@).no_duplicates(),
        domain_views(r@).to_set() == sibling_pairs(*m).dom(),
{
    m.left_values().cloned().collect()
}

pub open spec fn domain_views(s: Seq<String>) -> Seq<Seq<char>> {
    s.map_values(|d: String| d@)
}

/// The directory that a list of siblings builds: each pair in turn, a
/// later one replacing any earlier one with its domain or address.
pub open spec fn directory_of(s: Seq<(Seq<char>, AddressKey)>) -> Map<Seq<char>, AddressKey>
    decreases s.len(),
{
    if s.len() == 0 {
        Map::empty()
    } else {
        granted(directory_of(s.drop_last()), s.last().0, s.last().1)
    }
}

pub open spec fn sibling_views(s: Seq<(String, SocketAddress)>) -> Seq<(Seq<char>, AddressKey)> {
    s.map_values(|p: (String, SocketAddress)| (p.0@, address_key(p.1)))
}

/// The siblings of a node.
pub struct SiblingDirectory {
    siblings: BiHashMap<String, AddressKey>,
}

impl SiblingDirectory {
    /// Each sibling's domain with its address.
    pub closed spec fn view(&self) -> Map<Seq<char>, AddressKey> {
        sibling_pairs(self.siblings)
    }

    /// No two siblings share an address.
    pub closed spec fn wf(&self) -> bool {
        one_token_per_identity(self.view())
    }

    /// The directory of the given siblings.
    pub fn new(siblings: Vec<(String, SocketAddress)>) -> (r: SiblingDirectory)
        ensures
            r.wf(),
            r.view() == directory_of(sibling_views(siblings@)),
    {
        let mut m = empty_bimap();
        let ghost all = sibling_views(siblings@);
        let mut i: usize = 0;
        assert(all.subrange(0, 0) =~= Seq::<(Seq<char>, AddressKey)>::empty());
        while i < siblings.len()
            invariant
                i <= siblings@.len(),
                all == sibling_views(siblings@),
                sibling_pairs(m) == directory_of(all.subrange(0, i as int)),
                one_token_per_identity(sibling_pairs(m)),
            decreases siblings@.len() - i,
        {
            let domain = siblings[i].0.clone();
            let key = key_of(siblings[i].1);
            let ghost old_pairs = sibling_pairs(m);
            bimap_insert(&mut m, domain, key);
            proof {
                let g = sibling_pairs(m);
                assert forall|a: Seq<char>, b: Seq<char>|
                    g.contains_key(a) && g.contains_key(b) && a != b implies #[trigger] g[a]
                    != #[trigger] g[b] by {
                    if a != siblings@[i as int].0@ {
                        law_new_token_replaces_old(old_pairs, siblings@[i as int].0@, key, a);
                    } else {
                        law_new_token_replaces_old(old_pairs, siblings@[i as int].0@, key, b);
                    }
                }
                assert(all.subrange(0, i + 1).drop_last() =~= all.subrange(0, i as int));
                assert(all.subrange(0, i + 1).last() == (siblings@[i as int].0@, key));
            }
            i = i + 1;
        }
        assert(all.subrange(0, siblings@.len() as int) =~= all);
        SiblingDirectory { siblings: m }
    }

    /// The sibling a connection from `addr` comes from, if it comes from
    /// one.
    pub fn server_name_of(&self, addr: SocketAddress) -> (r: Option<ServerName>)
        requires
            self.wf(),
        ensures
            match r {
                Some(name) => self.view().contains_key(name.0@) && self.view()[name.0@]
                    == address_key(addr),
                None => forall|d: Seq<char>| #[trigger]
                    self.view().contains_key(d) ==> self.view()[d] != address_key(addr),
            },
    {
        let key = key_of(addr);
        match bimap_get_by_right(&self.siblings, &key) {
            Some(d) => Some(ServerName(d)),
            None => None,
        }
    }

    /// Whether a message may go to `domain`: only a sibling's domain is
    /// accepted; another is refused with "`domain` is not a sibling".
    pub fn check_sibling(&self, domain: &str) -> (r: Result<(), String>)
        ensures
            self.view().contains_key(domain@) ==> r is Ok,
            !self.view().contains_key(domain@) ==> (r matches Err(m) && m@ == domain@
                + " is not a sibling"@),
    {
        if bimap_contains_left(&self.siblings, domain) {
            Ok(())
        } else {
            let m = domain.to_owned().concat(" is not a sibling");
            Err(m)
        }
    }

    /// Every sibling's domain once: where a broadcast goes.
    pub fn domains(&self) -> (r: Vec<String>)
        ensures
            domain_views(r@).no_duplicates(),
            domain_views(r@).to_set() == self.view().dom(),
    {
        bimap_left_values(&self.siblings)
    }
}

/// Whatever list of siblings a directory is built from, no two siblings in
/// it share an address, and each has one.
pub proof fn law_siblings_one_to_one(s: Seq<(Seq<char>, AddressKey)>)
    ensures
        one_token_per_identity(directory_of(s)),
    decreases s.len(),
{
    if s.len() > 0 {
        law_siblings_one_to_one(s.drop_last());
        let m = directory_of(s.drop_last());
        let g = directory_of(s);
        assert forall|a: Seq<char>, b: Seq<char>|
            g.contains_key(a) && g.contains_key(b) && a != b implies #[trigger] g[a] != #[trigger] g[b] by {
            if a != s.last().0 && b != s.last().0 {
                assert(m[a] != m[b]);
            }
        }
    }
}

/// Siblings with different domains at different addresses are all kept,
/// each with its own address.
pub proof fn law_distinct_siblings_all_kept(s: Seq<(Seq<char>, AddressKey)>)
    requires
        forall|i: int, j: int|
            0 <= i < j < s.len() ==> #[trigger] s[i].0 != #[trigger] s[j].0 && s[i].1 != s[j].1,
    ensures
        forall|i: int|
            0 <= i < s.len() ==> directory_of(s).contains_key(#[trigger] s[i].0) && directory_of(s)[s[i].0]
                == s[i].1,
    decreases s.len(),
{
    if s.len() > 0 {
        let p = s.drop_last();
        assert forall|i: int, j: int| 0 <= i < j < p.len() implies #[trigger] p[i].0 != #[trigger] p[j].0
            && p[i].1 != p[j].1 by {
            assert(p[i] == s[i] && p[j] == s[j]);
        }
        law_distinct_siblings_all_kept(p);
        let n = s.len() - 1;
        assert forall|i: int| 0 <= i < s.len() implies directory_of(s).contains_key(#[trigger] s[i].0)
            && directory_of(s)[s[i].0] == s[i].1 by {
            if i < n {
                assert(p[i] == s[i]);
                assert(s[i].0 != s[n].0 && s[i].1 != s[n].1);
            }
        }
    }
}

/// A directory built from siblings with different domains at different
/// socket addresses knows every one of them, each at its own address: two
/// siblings on one host are told apart by their ports.
pub proof fn law_siblings_at_different_addresses_all_kept(s: Seq<(String, SocketAddress)>)
    requires
        forall|i: int, j: int|
            0 <= i < j < s.len() ==> #[trigger] s[i].0@ != #[trigger] s[j].0@ && !same_socket(s[i].1, s[j].1),
    ensures
        forall|i: int|
            0 <= i < s.len() ==> directory_of(sibling_views(s)).contains_key(#[trigger] s[i].0@)
                && directory_of(sibling_views(s))[s[i].0@] == address_key(s[i].1),
{
    let v = sibling_views(s);
    assert forall|i: int, j: int| 0 <= i < j < v.len() implies #[trigger] v[i].0 != #[trigger] v[j].0
        && v[i].1 != v[j].1 by {
        law_address_key_identifies_the_address(s[i].1, s[j].1);
    }
    law_distinct_siblings_all_kept(v);
    assert forall|i: int| 0 <= i < s.len() implies directory_of(v).contains_key(#[trigger] s[i].0@)
        && directory_of(v)[s[i].0@] == address_key(s[i].1) by {
        assert(v[i] == (s[i].0@, address_key(s[i].1)));
        assert(directory_of(v).contains_key(v[i].0) && directory_of(v)[v[i].0] == v[i].1);
    }
}

/// A later entry for a domain or an address replaces the earlier one.
pub proof fn law_later_sibling_wins(
    s: Seq<(Seq<char>, AddressKey)>,
    domain: Seq<char>,
    addr: AddressKey,
)
    ensures
        directory_of(s.push((domain, addr))).contains_key(domain),
        directory_of(s.push((domain, addr)))[domain] == addr,
        forall|d: Seq<char>| #[trigger]
            directory_of(s.push((domain, addr))).contains_key(d) && d != domain
                ==> directory_of(s.push((domain, addr)))[d] != addr,
{
    assert(s.push((domain, addr)).drop_last() =~= s);
}

} // verus!
