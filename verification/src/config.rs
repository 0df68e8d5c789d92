//! Where a coordinator can be found: the descriptor it leaves for its
//! clients, and the place where it leaves it.

use vstd::prelude::*;
use vstd::string::*;
use crate::address::{IpAddress, SocketAddress};
use crate::text::same_text;

verus! {

/// The descriptor of a running coordinator.
#[derive(Clone, Debug, PartialEq, Eq)]
pub struct DaemonConfig {
    pub name: String,
    pub partition: String,
    pub client_addr: SocketAddress,
    pub daemon_addr: SocketAddress,
}

impl DaemonConfig {
    /// The descriptor of the coordinator `name` of `partition`.
    pub fn new(
        name: &str,
        partition: &str,
        client_addr: SocketAddress,
        daemon_addr: SocketAddress,
    ) -> (config: DaemonConfig)
        ensures
            config.name@ == name@,
            config.partition@ == partition@,
            config.client_addr == client_addr,
            config.daemon_addr == daemon_addr,
    {
        DaemonConfig {
            name: String::from_str(name),
            partition: String::from_str(partition),
            client_addr,
            daemon_addr,
        }
    }
}

/// The base directory for configuration: the one the environment names, or
/// `.config` under the home directory.
pub open spec fn config_home_of(xdg: Option<Seq<char>>, home: Option<Seq<char>>) -> Option<
    Seq<char>,
> {
    match xdg {
        Some(dir) => Some(dir),
        None => match home {
            Some(h) => Some(h + "/.config"@),
            None => None,
        },
    }
}

/// The directory that holds the descriptors of a partition.
pub open spec fn partition_dir_of(config_home: Seq<char>, partition: Seq<char>) -> Seq<char> {
    config_home + "/heimdallr/"@ + partition
}

/// The file that holds the descriptor of the coordinator `name`.
pub open spec fn descriptor_path_of(
    config_home: Seq<char>,
    partition: Seq<char>,
    name: Seq<char>,
) -> Seq<char> {
    partition_dir_of(config_home, partition) + "/"@ + name
}

/// The base directory for configuration, given what the environment holds
/// under `XDG_CONFIG_HOME` and under `HOME`. There is none if it holds
/// neither.
pub fn config_home(xdg: Option<String>, home: Option<String>) -> (dir: Option<String>)
    ensures
        match dir {
            Some(d) => config_home_of(
                match xdg {
                    Some(x) => Some(x@),
                    None => None,
                },
                match home {
                    Some(h) => Some(h@),
                    None => None,
                },
            ) == Some(d@),
            None => xdg is None && home is None,
        },
{
    match xdg {
        Some(dir) => Some(dir),
        None => match home {
            Some(h) => Some(h.concat("/.config")),
            None => None,
        },
    }
}

/// The directory that holds the descriptors of `partition`.
pub fn partition_dir(config_home: &str, partition: &str) -> (dir: String)
    ensures
        dir@ == partition_dir_of(config_home@, partition@),
{
    String::from_str(config_home).concat("/heimdallr/").concat(partition)
}

/// The file that holds the descriptor of the coordinator `name` of
/// `partition`.
pub fn descriptor_path(config_home: &str, partition: &str, name: &str) -> (path: String)
    ensures
        path@ == descriptor_path_of(config_home@, partition@, name@),
{
    partition_dir(config_home, partition).concat("/").concat(name)
}

/// A network interface of this machine: its name and the addresses it has.
#[derive(Clone, Debug, PartialEq, Eq)]
pub struct NetworkInterface {
    pub name: String,
    pub ips: Vec<IpAddress>,
}

pub struct NetworkInterfaceView {
    pub name: Seq<char>,
    pub ips: Seq<IpAddress>,
}

impl View for NetworkInterface {
    type V = NetworkInterfaceView;

    open spec fn view(&self) -> NetworkInterfaceView {
        NetworkInterfaceView { name: self.name@, ips: self.ips@ }
    }
}

/// The interfaces of `v` as plain mathematics.
pub open spec fn interface_views(v: Seq<NetworkInterface>) -> Seq<NetworkInterfaceView> {
    v.map_values(|i: NetworkInterface| i@)
}

/// The address to listen on among `interfaces`: the first address of the
/// last interface called `name`, or `fallback` where none is called so.
/// There is no such address if an interface called `name` has none.
pub open spec fn interface_ip(
    fallback: IpAddress,
    interfaces: Seq<NetworkInterfaceView>,
    name: Seq<char>,
) -> Option<IpAddress>
    decreases interfaces.len(),
{
    if interfaces.len() == 0 {
        Some(fallback)
    } else {
        match interface_ip(fallback, interfaces.drop_last(), name) {
            None => None,
            Some(ip) => if interfaces.last().name == name {
                if interfaces.last().ips.len() > 0 {
                    Some(interfaces.last().ips[0])
                } else {
                    None
                }
            } else {
                Some(ip)
            },
        }
    }
}

/// The address to listen on: the machine's own address `local`, or
/// `0.0.0.0` where it is not known, unless the user asked for an interface
/// by name.
pub open spec fn listening_ip(
    local: Option<IpAddress>,
    interface: Seq<char>,
    interfaces: Seq<NetworkInterfaceView>,
) -> Option<IpAddress> {
    let fallback = match local {
        Some(ip) => ip,
        None => IpAddress::V4(0),
    };
    if interface.len() == 0 {
        Some(fallback)
    } else {
        interface_ip(fallback, interfaces, interface)
    }
}

/// Picks the address to listen on.
pub fn select_ip(local: Option<IpAddress>, interface: &str, interfaces: &Vec<NetworkInterface>) -> (ip:
    Option<IpAddress>)
    ensures
        ip == listening_ip(local, interface@, interface_views(interfaces@)),
{
    let mut ip = match local {
        Some(i) => i,
        None => IpAddress::unspecified(),
    };
    if !interface.is_empty() {
        let ghost fallback = ip;
        let ghost all = interface_views(interfaces@);
        let mut k: usize = 0;
        while k < interfaces.len()
            invariant
                k <= interfaces.len(),
                all == interface_views(interfaces@),
                interface@.len() > 0,
                listening_ip(local, interface@, all) == interface_ip(fallback, all, interface@),
                interface_ip(fallback, all.subrange(0, k as int), interface@) == Some(ip),
            decreases interfaces.len() - k,
        {
            proof {
                let upto = all.subrange(0, k + 1);
                assert(upto.drop_last() =~= all.subrange(0, k as int));
                assert(upto.last() == interfaces@[k as int]@);
            }
            if same_text(interfaces[k].name.as_str(), interface) {
                if interfaces[k].ips.len() == 0 {
                    proof {
                        lemma_no_address_stays(fallback, all, interface@, k + 1);
                    }
                    return None;
                }
                ip = interfaces[k].ips[0];
            }
            k = k + 1;
        }
        assert(all.subrange(0, k as int) =~= all);
    }
    Some(ip)
}

/// Once an interface of the wanted name has no address, no later interface
/// makes up for it.
proof fn lemma_no_address_stays(
    fallback: IpAddress,
    interfaces: Seq<NetworkInterfaceView>,
    name: Seq<char>,
    n: int,
)
    requires
        0 <= n <= interfaces.len(),
        interface_ip(fallback, interfaces.subrange(0, n), name) is None,
    ensures
        interface_ip(fallback, interfaces, name) is None,
    decreases interfaces.len() - n,
{
    if n == interfaces.len() {
        assert(interfaces.subrange(0, n) =~= interfaces);
    } else {
        let upto = interfaces.subrange(0, n + 1);
        assert(upto.drop_last() =~= interfaces.subrange(0, n));
        lemma_no_address_stays(fallback, interfaces, name, n + 1);
    }
}

} // verus!
