//! A coordinator at its start: its command line, the address it listens
//! on, and the descriptor it leaves for its clients.

use vstd::prelude::*;
use vstd::string::*;
use crate::address::{IpAddress, SocketAddress};
use crate::config::{
    config_home, config_home_of, descriptor_path, descriptor_path_of, interface_views,
    listening_ip, partition_dir, partition_dir_of, select_ip, DaemonConfig, NetworkInterface,
};
use crate::text::{same_text, texts};

verus! {

/// The port every coordinator listens on.
pub const DAEMON_PORT: u16 = 4664;

/// A coordinator that knows its name, its partition and its address.
#[derive(Clone, Debug, PartialEq, Eq)]
pub struct Daemon {
    pub name: String,
    pub partition: String,
    pub client_listener_addr: SocketAddress,
}

/// The descriptor of a coordinator and where it is to be written.
#[derive(Clone, Debug, PartialEq, Eq)]
pub struct PartitionFile {
    pub dir: String,
    pub path: String,
    pub config: DaemonConfig,
}

/// Why the command line of a coordinator could not be read.
#[derive(Clone, Copy, Debug, PartialEq, Eq, Structural)]
pub enum ArgError {
    /// The partition flag stands last, without a value.
    Partition,
    /// The name flag stands last, without a value.
    Name,
    /// The interface flag stands last, without a value.
    Interface,
    /// An argument is no flag of the coordinator.
    Unknown,
}

/// What a coordinator was told on its command line.
pub struct DaemonOptionsView {
    pub name: Seq<char>,
    pub partition: Seq<char>,
    pub interface: Seq<char>,
}

/// What the arguments from position `at` on add to the options `found`.
/// A flag takes the argument behind it as its value, and the last value of
/// a flag wins.
pub open spec fn parse_daemon_from(args: Seq<Seq<char>>, at: int, found: DaemonOptionsView) -> Result<
    DaemonOptionsView,
    ArgError,
>
    decreases args.len() - at,
{
    if at < 0 || at >= args.len() {
        Ok(found)
    } else {
        let arg = args[at];
        let last = at + 1 >= args.len();
        let value = args[at + 1];
        if arg == "-p"@ || arg == "--partition"@ {
            if last {
                Err(ArgError::Partition)
            } else {
                parse_daemon_from(args, at + 2, DaemonOptionsView { partition: value, ..found })
            }
        } else if arg == "-n"@ || arg == "--name"@ {
            if last {
                Err(ArgError::Name)
            } else {
                parse_daemon_from(args, at + 2, DaemonOptionsView { name: value, ..found })
            }
        } else if arg == "--interface"@ {
            if last {
                Err(ArgError::Interface)
            } else {
                parse_daemon_from(args, at + 2, DaemonOptionsView { interface: value, ..found })
            }
        } else {
            Err(ArgError::Unknown)
        }
    }
}

/// What a whole command line says, the program's name aside.
pub open spec fn parse_daemon(args: Seq<Seq<char>>) -> Result<DaemonOptionsView, ArgError> {
    parse_daemon_from(
        args,
        1,
        DaemonOptionsView { name: Seq::empty(), partition: Seq::empty(), interface: Seq::empty() },
    )
}

impl ArgError {
    /// The error in words.
    pub fn message(&self) -> (text: &'static str)
        ensures
            text@ == match *self {
                ArgError::Partition => "No valid partition name given."@,
                ArgError::Name => "No valid daemon name given."@,
                ArgError::Interface => "No valid network interface name given."@,
                ArgError::Unknown => "Unknown argument error."@,
            },
    {
        match self {
            ArgError::Partition => "No valid partition name given.",
            ArgError::Name => "No valid daemon name given.",
            ArgError::Interface => "No valid network interface name given.",
            ArgError::Unknown => "Unknown argument error.",
        }
    }
}

/// Reads the command line of a coordinator, the program's name first: its
/// name, its partition and the interface it is to listen on, each empty if
/// not given.
pub fn parse_args(args: &Vec<String>) -> (result: Result<(String, String, String), ArgError>)
    ensures
        match result {
            Ok((name, partition, interface)) => parse_daemon(texts(args@)) == Ok::<
                DaemonOptionsView,
                ArgError,
            >(DaemonOptionsView { name: name@, partition: partition@, interface: interface@ }),
            Err(e) => parse_daemon(texts(args@)) == Err::<DaemonOptionsView, ArgError>(e),
        },
{
    let ghost all = texts(args@);
    let mut partition = String::new();
    let mut name = String::new();
    let mut interface = String::new();
    let mut i: usize = 1;
    while i < args.len()
        invariant
            1 <= i <= args.len() + 1,
            all == texts(args@),
            parse_daemon_from(
                all,
                i as int,
                DaemonOptionsView { name: name@, partition: partition@, interface: interface@ },
            ) == parse_daemon(all),
        decreases args.len() + 1 - i,
    {
        let arg = args[i].as_str();
        let last = i + 1 >= args.len();
        assert(all[i as int] == arg@);
        assert(!last ==> all[i + 1] == args@[i + 1]@);
        if same_text(arg, "-p") || same_text(arg, "--partition") {
            if last {
                return Err(ArgError::Partition);
            }
            partition = args[i + 1].clone();
        } else if same_text(arg, "-n") || same_text(arg, "--name") {
            if last {
                return Err(ArgError::Name);
            }
            name = args[i + 1].clone();
        } else if same_text(arg, "--interface") {
            if last {
                return Err(ArgError::Interface);
            }
            interface = args[i + 1].clone();
        } else {
            return Err(ArgError::Unknown);
        }
        i = i + 2;
    }
    Ok((name, partition, interface))
}

impl Daemon {
    /// The coordinator `name` of `partition`. It listens on the interface
    /// called `interface` if that is not empty, else on the machine's own
    /// address `local`, else on every address; always on the coordinators'
    /// port. There is no coordinator if the interface asked for has no
    /// address.
    pub fn new(
        name: &str,
        partition: &str,
        interface: &str,
        local: Option<IpAddress>,
        interfaces: &Vec<NetworkInterface>,
    ) -> (daemon: Option<Daemon>)
        ensures
            match daemon {
                Some(d) => {
                    &&& d.name@ == name@
                    &&& d.partition@ == partition@
                    &&& d.client_listener_addr.port == DAEMON_PORT
                    &&& listening_ip(local, interface@, interface_views(interfaces@)) == Some(
                        d.client_listener_addr.ip,
                    )
                },
                None => listening_ip(local, interface@, interface_views(interfaces@)) is None,
            },
    {
        match select_ip(local, interface, interfaces) {
            Some(ip) => Some(
                Daemon {
                    name: String::from_str(name),
                    partition: String::from_str(partition),
                    client_listener_addr: SocketAddress::new(ip, DAEMON_PORT),
                },
            ),
            None => None,
        }
    }

    /// The descriptor this coordinator leaves for its clients, with the
    /// directory and the file it goes to, given what the environment holds
    /// under `XDG_CONFIG_HOME` and under `HOME`. There is no place for it if
    /// the environment holds neither.
    pub fn create_partition_file(&self, xdg: Option<String>, home: Option<String>) -> (file: Option<
        PartitionFile,
    >)
        ensures
            match file {
                Some(f) => {
                    let base = config_home_of(
                        match xdg {
                            Some(x) => Some(x@),
                            None => None,
                        },
                        match home {
                            Some(h) => Some(h@),
                            None => None,
                        },
                    );
                    &&& base is Some
                    &&& f.dir@ == partition_dir_of(base->0, self.partition@)
                    &&& f.path@ == descriptor_path_of(base->0, self.partition@, self.name@)
                    &&& f.config.name@ == self.name@
                    &&& f.config.partition@ == self.partition@
                    &&& f.config.client_addr == self.client_listener_addr
                    &&& f.config.daemon_addr == self.client_listener_addr
                },
                None => xdg is None && home is None,
            },
    {
        match config_home(xdg, home) {
            Some(base) => {
                let dir = partition_dir(base.as_str(), self.partition.as_str());
                let path = descriptor_path(
                    base.as_str(),
                    self.partition.as_str(),
                    self.name.as_str(),
                );
                let config = DaemonConfig::new(
                    self.name.as_str(),
                    self.partition.as_str(),
                    self.client_listener_addr,
                    self.client_listener_addr,
                );
                Some(PartitionFile { dir, path, config })
            },
            None => None,
        }
    }
}

} // verus!
