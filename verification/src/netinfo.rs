//! Finding the network interface that carries the default route, from the
//! routing, interface, address and adapter tables of the system.
use vstd::prelude::*;
use crate::error::Error;
use crate::ethernet;
use crate::ipv4;
use vstd::string::StrSliceExecFns;

verus! {

/// The default network interface: its device GUID, the default gateway, and
/// its own IPv4 and MAC addresses.
#[derive(Debug)]
pub struct NIC {
    pub guid: String,
    pub gateway: ipv4::Addr,
    pub address: ipv4::Addr,
    pub phy_address: ethernet::Addr,
}

/// A row of the IPv4 routing table.
#[derive(Debug, Clone, Copy)]
pub struct IpForwardRow {
    pub dest: ipv4::Addr,
    pub mask: ipv4::Addr,
    pub policy: u32,
    pub next_hop: ipv4::Addr,
    pub if_index: u32,
}

/// The IPv4 routing table.
#[derive(Debug)]
pub struct IpForwardTable {
    pub entries: Vec<IpForwardRow>,
}

impl IpForwardTable {
    pub fn entries(&self) -> (r: &[IpForwardRow])
        ensures
            r@ == self.entries@,
    {
        self.entries.as_slice()
    }
}

/// The name of a network adapter, in UTF-16.
#[derive(Debug)]
pub struct IpAdapterName(pub Vec<u16>);

/// An interface index with the adapter name it belongs to.
#[derive(Debug)]
pub struct IpAdapterIndexMap {
    pub index: u32,
    pub name: IpAdapterName,
}

/// The table of interfaces.
#[derive(Debug)]
pub struct IpInterfaceInfo {
    pub adapter: Vec<IpAdapterIndexMap>,
}

impl IpInterfaceInfo {
    pub fn adapters(&self) -> (r: &[IpAdapterIndexMap])
        ensures
            r@ == self.adapter@,
    {
        self.adapter.as_slice()
    }
}

/// A row of the table of IPv4 addresses bound to interfaces.
#[derive(Debug, Clone, Copy)]
pub struct IpAddrRow {
    pub addr: ipv4::Addr,
    pub index: u32,
    pub mask: ipv4::Addr,
    pub bcast_addr: ipv4::Addr,
    pub reasm_size: u32,
}

/// The table of IPv4 addresses bound to interfaces.
#[derive(Debug)]
pub struct IpAddrTable {
    pub entries: Vec<IpAddrRow>,
}

impl IpAddrTable {
    pub fn entries(&self) -> (r: &[IpAddrRow])
        ensures
            r@ == self.entries@,
    {
        self.entries.as_slice()
    }
}

/// What this crate reads of a network adapter's description; the adapters
/// come in the order of the system's list.
#[derive(Debug, Clone, Copy)]
pub struct IpAdapterInfo {
    pub combo_index: u32,
    pub address_length: u32,
    pub address: ethernet::Addr,
    pub address_rest: u16,
    pub index: u32,
    pub adapter_type: u32,
}

/// The text that the UTF-16 code units `u` encode, each unpaired surrogate
/// read as U+FFFD: a unit outside 0xD800..0xE000 is a character of its own,
/// a high surrogate (0xD800..0xDC00) followed by a low one (0xDC00..0xE000)
/// is the character 0x10000 + (high - 0xD800) * 0x400 + (low - 0xDC00).
pub open spec fn utf16_lossy(u: Seq<u16>) -> Seq<char>
    decreases u.len(),
{
    if u.len() == 0 {
        Seq::empty()
    } else if u[0] < 0xD800 || u[0] >= 0xE000 {
        seq![u[0] as char] + utf16_lossy(u.subrange(1, u.len() as int))
    } else if u[0] < 0xDC00 && u.len() >= 2 && 0xDC00 <= u[1] && u[1] < 0xE000 {
        seq![(0x10000 + (u[0] - 0xD800) * 0x400 + (u[1] - 0xDC00)) as char] + utf16_lossy(
            u.subrange(2, u.len() as int),
        )
    } else {
        seq!['\u{FFFD}'] + utf16_lossy(u.subrange(1, u.len() as int))
    }
}

/// `String::from_utf16_lossy`: the text `units` encode in UTF-16, each
/// unpaired surrogate replaced by U+FFFD.
#[verifier::external_body]
fn decode_utf16_lossy(units: &[u16]) -> (r: String)
    ensures
        r@ == utf16_lossy(units@),
{
    String::from_utf16_lossy(units)
}

/// `s` without its trailing NUL characters.
pub open spec fn trim_nul_end(s: Seq<char>) -> Seq<char>
    decreases s.len(),
{
    if s.len() > 0 && s.last() == '\0' {
        trim_nul_end(s.drop_last())
    } else {
        s
    }
}

/// The position of the first `c` in `s` at or after `from`.
pub open spec fn find_char(s: Seq<char>, c: char, from: int) -> Option<int>
    decreases s.len() - from,
{
    if from < 0 || from >= s.len() {
        None
    } else if s[from] == c {
        Some(from)
    } else {
        find_char(s, c, from + 1)
    }
}

/// The GUID in an adapter name: the text from its first `{` to the end.
pub open spec fn guid_of(name: Seq<char>) -> Option<Seq<char>> {
    match find_char(name, '{', 0) {
        Some(k) => Some(name.subrange(k, name.len() as int)),
        None => None,
    }
}

impl IpAdapterName {
    /// The name as text, without trailing NUL characters.
    pub fn to_string(&self) -> (r: String)
        ensures
            r@ == trim_nul_end(utf16_lossy(self.0@)),
    {
        let s = decode_utf16_lossy(self.0.as_slice());
        let t = s.as_str();
        let mut end = t.unicode_len();
        assert(t@.subrange(0, end as int) =~= t@);
        while end > 0 && t.get_char(end - 1) == '\0'
            invariant
                end <= t@.len(),
                trim_nul_end(t@.subrange(0, end as int)) == trim_nul_end(t@),
            decreases end,
        {
            let ghost before = t@.subrange(0, end as int);
            assert(before.drop_last() =~= t@.subrange(0, end - 1));
            end = end - 1;
        }
        proof {
            let u = t@.subrange(0, end as int);
            assert(trim_nul_end(u) == u);
        }
        t.substring_char(0, end).to_owned()
    }
}

/// Whether a route leads to 0.0.0.0, that is, is the default route.
pub open spec fn is_default_route(e: IpForwardRow) -> bool {
    e.dest == ipv4::Addr([0u8, 0u8, 0u8, 0u8])
}

/// The first default route in `entries`.
pub fn default_route(entries: &[IpForwardRow]) -> (r: Result<IpForwardRow, Error>)
    ensures
        match r {
            Ok(e) => exists|i: int|
                0 <= i < entries@.len() && entries@[i] == e && is_default_route(e) && forall|j: int|
                    0 <= j < i ==> !is_default_route(#[trigger] entries@[j]),
            Err(err) => err == Error::DefaultRouteMissing && forall|i: int|
                0 <= i < entries@.len() ==> !is_default_route(#[trigger] entries@[i]),
        },
{
    let zero = ipv4::Addr::zero();
    let mut i: usize = 0;
    while i < entries.len()
        invariant
            i <= entries@.len(),
            zero == ipv4::Addr([0u8, 0u8, 0u8, 0u8]),
            forall|j: int| 0 <= j < i ==> !is_default_route(#[trigger] entries@[j]),
        decreases entries@.len() - i,
    {
        if entries[i].dest == zero {
            return Ok(entries[i]);
        }
        i = i + 1;
    }
    Err(Error::DefaultRouteMissing)
}

/// The first interface with index `if_index`.
pub fn interface_of(adapters: &[IpAdapterIndexMap], if_index: u32) -> (r: Result<&IpAdapterIndexMap, Error>)
    ensures
        match r {
            Ok(a) => exists|i: int|
                0 <= i < adapters@.len() && adapters@[i] == *a && a.index == if_index && forall|
                    j: int,
                | 0 <= j < i ==> (#[trigger] adapters@[j]).index != if_index,
            Err(err) => err == Error::DefaultInterfaceMissing && forall|i: int|
                0 <= i < adapters@.len() ==> (#[trigger] adapters@[i]).index != if_index,
        },
{
    let mut i: usize = 0;
    while i < adapters.len()
        invariant
            i <= adapters@.len(),
            forall|j: int| 0 <= j < i ==> (#[trigger] adapters@[j]).index != if_index,
        decreases adapters@.len() - i,
    {
        if adapters[i].index == if_index {
            return Ok(&adapters[i]);
        }
        i = i + 1;
    }
    Err(Error::DefaultInterfaceMissing)
}

/// The address of the first row bound to interface `if_index`.
pub fn address_of(rows: &[IpAddrRow], if_index: u32) -> (r: Result<ipv4::Addr, Error>)
    ensures
        match r {
            Ok(a) => exists|i: int|
                0 <= i < rows@.len() && rows@[i].addr == a && rows@[i].index == if_index && forall|
                    j: int,
                | 0 <= j < i ==> (#[trigger] rows@[j]).index != if_index,
            Err(err) => err == Error::DefaultInterfaceNoIPAddr && forall|i: int|
                0 <= i < rows@.len() ==> (#[trigger] rows@[i]).index != if_index,
        },
{
    let mut i: usize = 0;
    while i < rows.len()
        invariant
            i <= rows@.len(),
            forall|j: int| 0 <= j < i ==> (#[trigger] rows@[j]).index != if_index,
        decreases rows@.len() - i,
    {
        if rows[i].index == if_index {
            return Ok(rows[i].addr);
        }
        i = i + 1;
    }
    Err(Error::DefaultInterfaceNoIPAddr)
}

/// Whether an adapter is the one with index `if_index` and a six-byte address.
pub open spec fn is_mac_of(a: IpAdapterInfo, if_index: u32) -> bool {
    a.address_length == 6 && a.index == if_index
}

/// The MAC address of the first adapter in the list with index `if_index`
/// and a six-byte address.
pub fn mac_address_of(adapters: &[IpAdapterInfo], if_index: u32) -> (r: Result<ethernet::Addr, Error>)
    ensures
        match r {
            Ok(m) => exists|i: int|
                0 <= i < adapters@.len() && adapters@[i].address == m && is_mac_of(
                    adapters@[i],
                    if_index,
                ) && forall|j: int| 0 <= j < i ==> !is_mac_of(#[trigger] adapters@[j], if_index),
            Err(err) => err == Error::DefaultInterfaceNoMACAddr && forall|i: int|
                0 <= i < adapters@.len() ==> !is_mac_of(#[trigger] adapters@[i], if_index),
        },
{
    let mut i: usize = 0;
    while i < adapters.len()
        invariant
            i <= adapters@.len(),
            forall|j: int| 0 <= j < i ==> !is_mac_of(#[trigger] adapters@[j], if_index),
        decreases adapters@.len() - i,
    {
        if adapters[i].address_length == 6 && adapters[i].index == if_index {
            return Ok(adapters[i].address);
        }
        i = i + 1;
    }
    Err(Error::DefaultInterfaceNoMACAddr)
}

/// The default interface, from its route, its entry in the interface table,
/// its IPv4 address and its MAC address: its GUID is read from the
/// interface's name.
pub fn nic_from(
    route: IpForwardRow,
    interface: &IpAdapterIndexMap,
    address: ipv4::Addr,
    phy_address: ethernet::Addr,
) -> (r: Result<NIC, Error>)
    ensures
        match guid_of(trim_nul_end(utf16_lossy(interface.name.0@))) {
            None => r == Err::<NIC, Error>(Error::DefaultInterfaceUnidentified),
            Some(g) => r matches Ok(nic) && nic.guid@ == g && nic.gateway == route.next_hop
                && nic.address == address && nic.phy_address == phy_address,
        },
{
    let name = interface.name.to_string();
    let t = name.as_str();
    let n = t.unicode_len();
    let mut k: usize = 0;
    while k < n && t.get_char(k) != '{'
        invariant
            k <= n,
            n == t@.len(),
            find_char(t@, '{', k as int) == find_char(t@, '{', 0),
        decreases n - k,
    {
        k = k + 1;
    }
    if k == n {
        return Err(Error::DefaultInterfaceUnidentified);
    }
    let guid = t.substring_char(k, n).to_owned();
    Ok(NIC { guid, address, phy_address, gateway: route.next_hop })
}

} // verus!

verus! {

/// Trimming removes exactly the trailing NUL characters: what is left is a
/// prefix of the text that does not end in a NUL, and everything after it is NUL.
pub proof fn lemma_trim_nul_end(s: Seq<char>)
    ensures
        trim_nul_end(s).len() <= s.len(),
        trim_nul_end(s) == s.subrange(0, trim_nul_end(s).len() as int),
        trim_nul_end(s).len() > 0 ==> trim_nul_end(s).last() != '\0',
        forall|i: int| trim_nul_end(s).len() <= i < s.len() ==> s[i] == '\0',
    decreases s.len(),
{
    if s.len() > 0 && s.last() == '\0' {
        lemma_trim_nul_end(s.drop_last());
        let t = trim_nul_end(s.drop_last());
        assert(s.drop_last().subrange(0, t.len() as int) =~= s.subrange(0, t.len() as int));
        assert forall|i: int| t.len() <= i < s.len() implies s[i] == '\0' by {
            if i < s.len() - 1 {
                assert(s.drop_last()[i] == s[i]);
            }
        }
    } else {
        assert(s.subrange(0, s.len() as int) =~= s);
    }
}

proof fn lemma_find_char(s: Seq<char>, c: char, from: int)
    requires
        0 <= from,
    ensures
        find_char(s, c, from) matches Some(k) ==> from <= k < s.len() && s[k] == c && forall|
            i: int,
        | from <= i < k ==> s[i] != c,
        find_char(s, c, from) is None ==> forall|i: int| from <= i < s.len() ==> s[i] != c,
    decreases s.len() - from,
{
    if from < s.len() && s[from] != c {
        lemma_find_char(s, c, from + 1);
    }
}

/// The GUID of a name starts at its first `{` and runs to the end; a name
/// with no `{` has none.
pub proof fn lemma_guid_of(name: Seq<char>)
    ensures
        guid_of(name) matches Some(g) ==> {
            &&& g.len() >= 1
            &&& g[0] == '{'
            &&& name == name.subrange(0, name.len() - g.len()) + g
            &&& forall|i: int| 0 <= i < name.len() - g.len() ==> name[i] != '{'
        },
        guid_of(name) is None ==> forall|i: int| 0 <= i < name.len() ==> name[i] != '{',
{
    lemma_find_char(name, '{', 0);
    if let Some(k) = find_char(name, '{', 0) {
        assert(name =~= name.subrange(0, k) + name.subrange(k, name.len() as int));
    }
}

} // verus!
