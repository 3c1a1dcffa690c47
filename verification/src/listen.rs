//! Choice of the address the metadata server listens on.
use vstd::prelude::*;
use crate::selection::lemma_filter_membership;

verus! {

/// An IP address: IPv4 as its 32 bits, IPv6 as its 128 bits.
#[derive(Clone, Copy, Debug, PartialEq, Eq)]
pub enum IpAddress {
    V4(u32),
    V6(u128),
}

/// A network interface of the host with its addresses, in the order the
/// system lists them.
#[derive(Clone, Debug)]
pub struct NetworkInterface {
    pub name: String,
    pub addresses: Vec<IpAddress>,
}

/// Why no listening address can be chosen.
#[derive(Clone, Debug)]
pub enum ListenAddressError {
    /// No interface has the configured name.
    InterfaceNotFound { name: String },
    /// The interface has no IPv4 address.
    NoIpv4Address,
}

/// The text of the error, as reported to the operator.
pub open spec fn listen_error_text(e: ListenAddressError) -> Seq<char> {
    match e {
        ListenAddressError::InterfaceNotFound { name } => "Network interface "@ + name@ + " not found"@,
        ListenAddressError::NoIpv4Address => "No IPv4 address found"@,
    }
}

impl ListenAddressError {
    /// The text of the error, as reported to the operator.
    pub fn message(&self) -> (m: String)
        ensures
            m@ == listen_error_text(*self),
    {
        match self {
            ListenAddressError::InterfaceNotFound { name } => {
                let m = String::from_str("Network interface ").concat(name.as_str()).concat(" not found");
                assert(m@ =~= listen_error_text(*self));
                m
            },
            ListenAddressError::NoIpv4Address => String::from_str("No IPv4 address found"),
        }
    }
}

/// The predicate "named `name`".
pub open spec fn named(name: Seq<char>) -> spec_fn(NetworkInterface) -> bool {
    |i: NetworkInterface| i.name@ == name
}

/// The predicate "an IPv4 address".
pub open spec fn is_ipv4() -> spec_fn(IpAddress) -> bool {
    |a: IpAddress| a is V4
}

/// Chooses the listening address: the first IPv4 address of the first
/// interface named `interface_name`, with `port`.
pub fn get_exposed_address(interfaces: &Vec<NetworkInterface>, interface_name: &str, port: u16) -> (r: Result<(IpAddress, u16), ListenAddressError>)
    ensures
        ({
            let hits = interfaces@.filter(named(interface_name@));
            if hits.len() == 0 {
                r matches Err(ListenAddressError::InterfaceNotFound { name }) && name@ == interface_name@
            } else {
                let v4 = hits[0].addresses@.filter(is_ipv4());
                if v4.len() == 0 {
                    r matches Err(ListenAddressError::NoIpv4Address)
                } else {
                    r == Ok::<(IpAddress, u16), ListenAddressError>((v4[0], port))
                }
            }
        }),
{
    let wanted = String::from_str(interface_name);
    let mut i: usize = 0;
    while i < interfaces.len()
        invariant
            wanted@ == interface_name@,
            i <= interfaces@.len(),
            interfaces@.take(i as int).filter(named(interface_name@)) == Seq::<NetworkInterface>::empty(),
        decreases interfaces@.len() - i,
    {
        proof {
            assert(interfaces@.take(i + 1) =~= interfaces@.take(i as int).push(interfaces@[i as int]));
            interfaces@.take(i as int).lemma_filter_push(interfaces@[i as int], named(interface_name@));
        }
        if interfaces[i].name == wanted {
            proof {
                assert(interfaces@ =~= interfaces@.take(i + 1) + interfaces@.skip(i + 1));
                Seq::filter_distributes_over_add(interfaces@.take(i + 1), interfaces@.skip(i + 1), named(interface_name@));
                assert(interfaces@.take(i + 1).filter(named(interface_name@)) =~= seq![interfaces@[i as int]]);
                assert(interfaces@.filter(named(interface_name@))[0] == interfaces@[i as int]);
            }
            let addresses = &interfaces[i].addresses;
            let mut j: usize = 0;
            while j < addresses.len()
                invariant
                    interfaces@.filter(named(interface_name@)).len() > 0,
                    interfaces@.filter(named(interface_name@))[0].addresses@ == addresses@,
                    j <= addresses@.len(),
                    addresses@.take(j as int).filter(is_ipv4()) == Seq::<IpAddress>::empty(),
                decreases addresses@.len() - j,
            {
                proof {
                    assert(addresses@.take(j + 1) =~= addresses@.take(j as int).push(addresses@[j as int]));
                    addresses@.take(j as int).lemma_filter_push(addresses@[j as int], is_ipv4());
                }
                if let IpAddress::V4(_) = addresses[j] {
                    proof {
                        assert(addresses@ =~= addresses@.take(j + 1) + addresses@.skip(j + 1));
                        Seq::filter_distributes_over_add(addresses@.take(j + 1), addresses@.skip(j + 1), is_ipv4());
                        assert(addresses@.take(j + 1).filter(is_ipv4()) =~= seq![addresses@[j as int]]);
                    }
                    return Ok((addresses[j], port));
                }
                j = j + 1;
            }
            assert(addresses@.take(j as int) =~= addresses@);
            return Err(ListenAddressError::NoIpv4Address);
        }
        i = i + 1;
    }
    assert(interfaces@.take(i as int) =~= interfaces@);
    Err(ListenAddressError::InterfaceNotFound { name: wanted })
}

/// The interfaces considered are exactly those whose name equals the
/// configured name, and the addresses considered are exactly the IPv4 ones.
pub proof fn law_listen_choice_by_exact_name(
    interfaces: Seq<NetworkInterface>,
    interface_name: Seq<char>,
    i: NetworkInterface,
    addresses: Seq<IpAddress>,
    a: IpAddress,
)
    ensures
        interfaces.filter(named(interface_name)).contains(i) <==> (interfaces.contains(i) && i.name@
            == interface_name),
        addresses.filter(is_ipv4()).contains(a) <==> (addresses.contains(a) && a is V4),
{
    lemma_filter_membership(interfaces, named(interface_name), i);
    lemma_filter_membership(addresses, is_ipv4(), a);
}

} // verus!
