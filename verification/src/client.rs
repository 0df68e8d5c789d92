//! The client's side of the protocol: its command line, its registration
//! with the coordinator, and what it announces and expects when it sends,
//! receives, waits at the barrier and shuts down.

use vstd::prelude::*;
use vstd::string::*;
use crate::address::SocketAddress;
use crate::networking::{
    BarrierPkt, ClientOperationPkt, ClientRegistrationPkt, ClientRegistrationPktView,
    ClientRegistrationReplyPkt, DaemonPkt, DaemonPktTypeView, DaemonPktView, FinalizePkt,
    MutexCreationReplyPkt,
};
use crate::config::{config_home, config_home_of, descriptor_path, descriptor_path_of};
use crate::mutex::HeimdallrMutex;
use crate::pending::PendingTable;
use crate::text::{parse_u32, parsed_u32, same_text, texts};

verus! {

/// What a client was told on its command line.
#[derive(Clone, Debug, PartialEq, Eq)]
pub struct ClientOptions {
    pub job: String,
    pub partition: String,
    pub size: u32,
    pub node: String,
    pub interface: String,
    pub cmd_args: Vec<String>,
}

/// Why a command line could not be read.
#[derive(Clone, Copy, Debug, PartialEq, Eq, Structural)]
pub enum InitError {
    /// The partition flag stands last, without a value.
    Partition,
    /// The job count flag stands last, without a value.
    JobCount,
    /// The value of the job count flag is no number.
    JobCountNotANumber,
    /// The node flag stands last, without a value.
    Node,
    /// The job name flag stands last, without a value.
    JobName,
    /// The interface flag stands last, without a value.
    Interface,
}

/// Client options as plain mathematics.
pub struct ClientOptionsView {
    pub job: Seq<char>,
    pub partition: Seq<char>,
    pub size: u32,
    pub node: Seq<char>,
    pub interface: Seq<char>,
    pub cmd_args: Seq<Seq<char>>,
}

impl View for ClientOptions {
    type V = ClientOptionsView;

    open spec fn view(&self) -> ClientOptionsView {
        ClientOptionsView {
            job: self.job@,
            partition: self.partition@,
            size: self.size,
            node: self.node@,
            interface: self.interface@,
            cmd_args: texts(self.cmd_args@),
        }
    }
}

impl ClientOptionsView {
    /// The options before anything has been read: the job is called `job`,
    /// and nothing else is set.
    pub open spec fn start(job: Seq<char>) -> ClientOptionsView {
        ClientOptionsView {
            job,
            partition: Seq::empty(),
            size: 0,
            node: Seq::empty(),
            interface: Seq::empty(),
            cmd_args: Seq::empty(),
        }
    }

    /// Whether partition, node and a job count other than zero are all
    /// there.
    pub open spec fn is_complete(self) -> bool {
        self.partition.len() > 0 && self.node.len() > 0 && self.size != 0
    }
}

/// What the arguments from position `at` on add to the options `found`.
///
/// A flag takes the argument behind it as its value, and the last value of
/// a flag wins. Everything behind `--args` belongs to the user's program.
/// An argument that is no flag is passed over.
pub open spec fn parse_client_from(args: Seq<Seq<char>>, at: int, found: ClientOptionsView) -> Result<
    ClientOptionsView,
    InitError,
>
    decreases args.len() - at,
{
    if at < 0 || at >= args.len() {
        Ok(found)
    } else {
        let arg = args[at];
        let last = at + 1 >= args.len();
        let value = args[at + 1];
        if arg == "-p"@ || arg == "--partition"@ {
            if last {
                Err(InitError::Partition)
            } else {
                parse_client_from(args, at + 2, ClientOptionsView { partition: value, ..found })
            }
        } else if arg == "-j"@ || arg == "--jobs"@ {
            if last {
                Err(InitError::JobCount)
            } else {
                match parsed_u32(value) {
                    Some(size) => parse_client_from(
                        args,
                        at + 2,
                        ClientOptionsView { size, ..found },
                    ),
                    None => Err(InitError::JobCountNotANumber),
                }
            }
        } else if arg == "-n"@ || arg == "--node"@ {
            if last {
                Err(InitError::Node)
            } else {
                parse_client_from(args, at + 2, ClientOptionsView { node: value, ..found })
            }
        } else if arg == "--job-name"@ {
            if last {
                Err(InitError::JobName)
            } else {
                parse_client_from(args, at + 2, ClientOptionsView { job: value, ..found })
            }
        } else if arg == "--interface"@ {
            if last {
                Err(InitError::Interface)
            } else {
                parse_client_from(args, at + 2, ClientOptionsView { interface: value, ..found })
            }
        } else if arg == "--args"@ {
            Ok(ClientOptionsView { cmd_args: args.subrange(at + 1, args.len() as int), ..found })
        } else {
            parse_client_from(args, at + 1, found)
        }
    }
}

/// What a whole command line says: the program's name is the name of the
/// job unless a flag gives another.
pub open spec fn parse_client(args: Seq<Seq<char>>) -> Result<ClientOptionsView, InitError> {
    if args.len() == 0 {
        Ok(ClientOptionsView::start(Seq::empty()))
    } else {
        parse_client_from(args, 1, ClientOptionsView::start(args[0]))
    }
}

impl InitError {
    /// The error in words.
    pub fn message(&self) -> (text: &'static str)
        ensures
            text@ == match *self {
                InitError::Partition => "Error in partition argument."@,
                InitError::JobCount => "Error in setting job count."@,
                InitError::JobCountNotANumber => "Job count is not a number."@,
                InitError::Node => "Error in setting node."@,
                InitError::JobName => "Error in setting job-name."@,
                InitError::Interface => "No valid network interface name given."@,
            },
    {
        match self {
            InitError::Partition => "Error in partition argument.",
            InitError::JobCount => "Error in setting job count.",
            InitError::JobCountNotANumber => "Job count is not a number.",
            InitError::Node => "Error in setting node.",
            InitError::JobName => "Error in setting job-name.",
            InitError::Interface => "No valid network interface name given.",
        }
    }
}

impl ClientOptions {
    /// Reads the command line of a client, the program's name first.
    pub fn parse(args: &Vec<String>) -> (result: Result<ClientOptions, InitError>)
        ensures
            match result {
                Ok(options) => parse_client(texts(args@)) == Ok::<ClientOptionsView, InitError>(
                    options@,
                ),
                Err(e) => parse_client(texts(args@)) == Err::<ClientOptionsView, InitError>(e),
            },
    {
        let ghost all = texts(args@);
        let mut options = ClientOptions {
            job: String::new(),
            partition: String::new(),
            size: 0,
            node: String::new(),
            interface: String::new(),
            cmd_args: Vec::new(),
        };
        assert(options@.cmd_args =~= Seq::<Seq<char>>::empty());
        if args.len() == 0 {
            return Ok(options);
        }
        options.job = args[0].clone();
        assert(all[0] == args@[0]@);
        let mut i: usize = 1;
        while i < args.len()
            invariant
                1 <= i <= args.len() + 1,
                all == texts(args@),
                parse_client_from(all, i as int, options@) == parse_client(all),
            decreases args.len() + 1 - i,
        {
            let arg = args[i].as_str();
            let last = i + 1 >= args.len();
            assert(all[i as int] == arg@);
            assert(!last ==> all[i + 1] == args@[i + 1]@);
            if same_text(arg, "-p") || same_text(arg, "--partition") {
                if last {
                    return Err(InitError::Partition);
                }
                options.partition = args[i + 1].clone();
                i = i + 2;
            } else if same_text(arg, "-j") || same_text(arg, "--jobs") {
                if last {
                    return Err(InitError::JobCount);
                }
                match parse_u32(args[i + 1].as_str()) {
                    Some(size) => {
                        options.size = size;
                    },
                    None => {
                        return Err(InitError::JobCountNotANumber);
                    },
                }
                i = i + 2;
            } else if same_text(arg, "-n") || same_text(arg, "--node") {
                if last {
                    return Err(InitError::Node);
                }
                options.node = args[i + 1].clone();
                i = i + 2;
            } else if same_text(arg, "--job-name") {
                if last {
                    return Err(InitError::JobName);
                }
                options.job = args[i + 1].clone();
                i = i + 2;
            } else if same_text(arg, "--interface") {
                if last {
                    return Err(InitError::Interface);
                }
                options.interface = args[i + 1].clone();
                i = i + 2;
            } else if same_text(arg, "--args") {
                let ghost before = options@;
                let mut k: usize = i + 1;
                let mut rest: Vec<String> = Vec::new();
                assert(texts(rest@) =~= all.subrange(i + 1, i + 1));
                while k < args.len()
                    invariant
                        i + 1 <= k <= args.len(),
                        all == texts(args@),
                        texts(rest@) == all.subrange(i + 1, k as int),
                    decreases args.len() - k,
                {
                    let ghost taken = rest@;
                    let item = args[k].clone();
                    assert(all.len() == args@.len());
                    assert(item@ == all[k as int]);
                    assert(texts(taken).len() == taken.len());
                    assert(taken.len() == k - (i + 1));
                    rest.push(item);
                    k = k + 1;
                    assert(rest@.len() == k - (i + 1));
                    assert forall|j: int| 0 <= j < rest@.len() implies texts(rest@)[j]
                        == all.subrange(i + 1, k as int)[j] by {
                        if j < taken.len() {
                            assert(texts(taken)[j] == all.subrange(i + 1, k - 1)[j]);
                            assert(rest@[j] == taken[j]);
                        } else {
                            assert(rest@[j] == item);
                        }
                    }
                    assert(texts(rest@) =~= all.subrange(i + 1, k as int));
                }
                options.cmd_args = rest;
                assert(options@ == ClientOptionsView {
                    cmd_args: all.subrange(i + 1, all.len() as int),
                    ..before
                });
                return Ok(options);
            } else {
                i = i + 1;
            }
        }
        Ok(options)
    }

    /// Whether the client was told its partition, its node and a job count
    /// other than zero. A client that was not cannot start.
    pub fn is_complete(&self) -> (complete: bool)
        ensures
            complete == self@.is_complete(),
    {
        !(self.partition.as_str().is_empty() || self.node.as_str().is_empty() || self.size == 0)
    }

    /// The file in which the coordinator of this client's node has left its
    /// descriptor, given what the environment holds under `XDG_CONFIG_HOME`
    /// and under `HOME`. There is no such file if it holds neither.
    pub fn node_file(&self, xdg: Option<String>, home: Option<String>) -> (path: Option<String>)
        ensures
            match path {
                Some(p) => {
                    let base = config_home_of(
                        match xdg {
                            Some(x) => Some(x@),
                            None => None,
                        },
                        match home {
                            Some(h) => Some(h@),
                            None => None,
                        },
                    );
                    base is Some && p@ == descriptor_path_of(base->0, self.partition@, self.node@)
                },
                None => xdg is None && home is None,
            },
    {
        match config_home(xdg, home) {
            Some(base) => Some(
                descriptor_path(base.as_str(), self.partition.as_str(), self.node.as_str()),
            ),
            None => None,
        }
    }

    /// The request that registers this client, whose peer listener is at
    /// `listener_addr`, with the coordinator.
    pub fn registration(&self, listener_addr: SocketAddress) -> (pkt: DaemonPkt)
        ensures
            pkt@ == (DaemonPktView {
                job: self.job@,
                pkt: DaemonPktTypeView::ClientRegistration(
                    ClientRegistrationPktView { job: self.job@, size: self.size, listener_addr },
                ),
            }),
    {
        ClientRegistrationPkt::new(self.job.as_str(), self.size, listener_addr)
    }
}

/// A registered member of a job.
#[derive(Clone, Debug)]
pub struct HeimdallrClient {
    pub job: String,
    pub size: u32,
    pub id: u32,
    pub client_listeners: Vec<SocketAddress>,
    pub cmd_args: Vec<String>,
    pub readers: PendingTable,
}

/// What a sender puts on the wire before a transfer: the announcement, and
/// the peer listener it goes to.
#[derive(Clone, Copy, Debug, PartialEq, Eq, Structural)]
pub struct Announcement {
    pub to: SocketAddress,
    pub pkt: ClientOperationPkt,
}

impl HeimdallrClient {
    /// Whether the job has a rank `dest` to send to.
    pub open spec fn has_rank(&self, dest: u32) -> bool {
        dest < self.client_listeners@.len()
    }

    /// What this client announces, and to which peer listener, to send rank
    /// `dest` a message tagged `id` that is served at `transfer_addr`.
    pub open spec fn announcement(
        &self,
        dest: u32,
        id: u32,
        transfer_addr: SocketAddress,
    ) -> Announcement
        recommends
            self.has_rank(dest),
    {
        Announcement {
            to: self.client_listeners@[dest as int],
            pkt: ClientOperationPkt { client_id: self.id, op_id: id, addr: transfer_addr },
        }
    }

    /// Makes the client out of its options and the coordinator's reply to
    /// its registration: the reply gives it its rank and the peer listeners
    /// of all ranks, and it has heard of no announcement yet.
    pub fn init(options: ClientOptions, reply: ClientRegistrationReplyPkt) -> (client:
        HeimdallrClient)
        ensures
            client.id == reply.id,
            client.client_listeners == reply.client_listeners,
            client.job == options.job,
            client.size == options.size,
            client.cmd_args == options.cmd_args,
            client.readers@ == Map::<(u32, u32), SocketAddress>::empty(),
    {
        HeimdallrClient {
            job: options.job,
            size: options.size,
            id: reply.id,
            client_listeners: reply.client_listeners,
            cmd_args: options.cmd_args,
            readers: PendingTable::new(),
        }
    }

    /// Takes an announcement that arrived at the peer listener and keeps it
    /// for the receive that matches it. An earlier announcement of the same
    /// sender under the same tag that is still waiting loses its place; its
    /// address is handed back.
    pub fn listener_handler(&mut self, pkt: ClientOperationPkt) -> (displaced: Option<SocketAddress>)
        ensures
            final(self).readers@ == old(self).readers@.insert((pkt.client_id, pkt.op_id), pkt.addr),
            displaced == if old(self).readers@.contains_key((pkt.client_id, pkt.op_id)) {
                Some(old(self).readers@[(pkt.client_id, pkt.op_id)])
            } else {
                None
            },
            final(self).job == old(self).job,
            final(self).size == old(self).size,
            final(self).id == old(self).id,
            final(self).client_listeners == old(self).client_listeners,
            final(self).cmd_args == old(self).cmd_args,
    {
        self.readers.announce(pkt)
    }

    /// What to announce, and where, to send rank `dest` a message tagged
    /// `id` that will be served at `transfer_addr`. The job must have a rank
    /// `dest`.
    pub fn send(&self, dest: u32, id: u32, transfer_addr: SocketAddress) -> (announcement:
        Announcement)
        requires
            self.has_rank(dest),
        ensures
            announcement == self.announcement(dest, id, transfer_addr),
    {
        let to = self.client_listeners[dest as usize];
        Announcement { to, pkt: ClientOperationPkt::new(self.id, id, transfer_addr) }
    }

    /// What to announce, and where, to send rank `dest` a slice tagged `id`:
    /// a slice is announced like any other message.
    pub fn send_slice(&self, dest: u32, id: u32, transfer_addr: SocketAddress) -> (announcement:
        Announcement)
        requires
            self.has_rank(dest),
        ensures
            announcement == self.announcement(dest, id, transfer_addr),
    {
        self.send(dest, id, transfer_addr)
    }

    /// Looks for the announcement of rank `source` under the tag `id`. If it
    /// has arrived, it is taken out and the address to fetch the message
    /// from is handed back; if not, nothing changes and the caller asks
    /// again later.
    pub fn receive(&mut self, source: u32, id: u32) -> (addr: Option<SocketAddress>)
        ensures
            final(self).readers@ == old(self).readers@.remove((source, id)),
            addr == if old(self).readers@.contains_key((source, id)) {
                Some(old(self).readers@[(source, id)])
            } else {
                None
            },
            final(self).job == old(self).job,
            final(self).size == old(self).size,
            final(self).id == old(self).id,
            final(self).client_listeners == old(self).client_listeners,
            final(self).cmd_args == old(self).cmd_args,
    {
        self.readers.take(source, id)
    }

    /// Looks for an announcement under the tag `id`, whoever sent it. If one
    /// has arrived, it is taken out and its sender and the address to fetch
    /// the message from are handed back; where several senders wait under
    /// the tag, any one of them is taken. If none has arrived, nothing
    /// changes and the caller asks again later.
    pub fn receive_any_source(&mut self, id: u32) -> (found: Option<(u32, SocketAddress)>)
        ensures
            match found {
                Some((source, addr)) => {
                    &&& old(self).readers@.contains_key((source, id))
                    &&& old(self).readers@[(source, id)] == addr
                    &&& final(self).readers@ == old(self).readers@.remove((source, id))
                },
                None => {
                    &&& forall|source: u32| !old(self).readers@.contains_key((source, id))
                    &&& final(self).readers@ == old(self).readers@
                },
            },
            final(self).job == old(self).job,
            final(self).size == old(self).size,
            final(self).id == old(self).id,
            final(self).client_listeners == old(self).client_listeners,
            final(self).cmd_args == old(self).cmd_args,
    {
        self.readers.take_any(id)
    }

    /// Makes the mutex `name` out of the coordinator's confirmation of this
    /// client's creation request; see [`HeimdallrMutex::new`].
    pub fn create_mutex<T>(&self, name: &str, start_data: T, reply: MutexCreationReplyPkt) -> (mutex:
        HeimdallrMutex<T>)
        requires
            reply.name@ == name@,
        ensures
            mutex.name@ == name@,
            mutex.job@ == self.job@,
            mutex.client_id == self.id,
            mutex.data == start_data,
    {
        HeimdallrMutex::new(self, name, start_data, reply)
    }

    /// The request by which this client enters the barrier.
    pub fn barrier(&self) -> (pkt: DaemonPkt)
        ensures
            pkt@ == (DaemonPktView {
                job: self.job@,
                pkt: DaemonPktTypeView::Barrier(BarrierPkt { id: self.id, size: self.size }),
            }),
    {
        BarrierPkt::new(self.id, self.size, self.job.as_str())
    }

    /// The request by which this client announces its shutdown.
    pub fn finalize(&self) -> (pkt: DaemonPkt)
        ensures
            pkt@ == (DaemonPktView {
                job: self.job@,
                pkt: DaemonPktTypeView::Finalize(FinalizePkt { id: self.id, size: self.size }),
            }),
    {
        FinalizePkt::new(self.id, self.size, self.job.as_str())
    }
}

/// A receive finds what the matching send announced: once the announcement
/// of `sender` for rank `dest` under `tag` has reached a table of waiting
/// announcements, the table holds the sender's transfer address under the
/// sender's rank and the tag; taking it out leaves the table as if the
/// announcement had never come; and the entries under other keys are as
/// they were.
pub proof fn lemma_receive_finds_announced(
    sender: HeimdallrClient,
    dest: u32,
    tag: u32,
    transfer_addr: SocketAddress,
    readers: Map<(u32, u32), SocketAddress>,
)
    requires
        sender.has_rank(dest),
    ensures
        ({
            let a = sender.announcement(dest, tag, transfer_addr);
            let heard = readers.insert((a.pkt.client_id, a.pkt.op_id), a.pkt.addr);
            &&& a.to == sender.client_listeners@[dest as int]
            &&& heard.contains_key((sender.id, tag))
            &&& heard[(sender.id, tag)] == transfer_addr
            &&& heard.remove((sender.id, tag)) == readers.remove((sender.id, tag))
            &&& forall|k: (u32, u32)|
                k != (sender.id, tag) ==> (heard.contains_key(k) <==> readers.contains_key(k))
                    && heard[k] == readers[k]
        }),
{
    let a = sender.announcement(dest, tag, transfer_addr);
    let heard = readers.insert((a.pkt.client_id, a.pkt.op_id), a.pkt.addr);
    assert(heard.remove((sender.id, tag)) =~= readers.remove((sender.id, tag)));
}

} // verus!
