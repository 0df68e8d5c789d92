//! The receive-side rendezvous table of a client.
//!
//! A sender announces a transfer before the receiver asks for it, or after:
//! the table keeps each announcement, keyed by sender rank and tag, until the
//! matching receive takes it out.

use std::collections::HashMap;
use vstd::prelude::*;
use vstd::set_lib::lemma_map_size;
use vstd::std_specs::hash::*;
use vstd::std_specs::iter::IteratorSpec;
use crate::address::SocketAddress;
use crate::networking::ClientOperationPkt;

verus! {

/// The announcements a client has heard of and not yet received. Sender and
/// tag of an announcement make one number, under which its address is kept.
#[derive(Clone, Debug)]
pub struct PendingTable {
    entries: HashMap<u64, SocketAddress>,
}

/// The number that stands for `sender` and `tag`: the sender in the upper
/// half, the tag in the lower.
spec fn key_of(sender: u32, tag: u32) -> u64 {
    (sender as u64 * 0x1_0000_0000 + tag as u64) as u64
}

/// The sender that `key` stands for.
spec fn sender_of(key: u64) -> u32 {
    (key / 0x1_0000_0000) as u32
}

/// The tag that `key` stands for.
spec fn tag_of(key: u64) -> u32 {
    (key % 0x1_0000_0000) as u32
}

/// The sender and the tag that `key` stands for.
spec fn pair_of(key: u64) -> (u32, u32) {
    (sender_of(key), tag_of(key))
}

/// The announcements kept under the numbers of `packed`, as a map from
/// (sender, tag) to the advertised address.
spec fn table_of(packed: Map<u64, SocketAddress>) -> Map<(u32, u32), SocketAddress> {
    Map::new(
        |k: (u32, u32)| packed.contains_key(key_of(k.0, k.1)),
        |k: (u32, u32)| packed[key_of(k.0, k.1)],
    )
}

/// Every pair of sender and tag has a number of its own, and every number
/// stands for one pair.
proof fn lemma_keys_are_pairs(sender: u32, tag: u32, key: u64)
    ensures
        sender_of(key_of(sender, tag)) == sender,
        tag_of(key_of(sender, tag)) == tag,
        key_of(sender_of(key), tag_of(key)) == key,
{
}

proof fn lemma_insert(packed: Map<u64, SocketAddress>, sender: u32, tag: u32, addr: SocketAddress)
    ensures
        table_of(packed.insert(key_of(sender, tag), addr)) == table_of(packed).insert(
            (sender, tag),
            addr,
        ),
{
    let after = table_of(packed.insert(key_of(sender, tag), addr));
    let expected = table_of(packed).insert((sender, tag), addr);
    assert forall|k: (u32, u32)| after.contains_key(k) == expected.contains_key(k) && (
    after.contains_key(k) ==> after[k] == expected[k]) by {
        lemma_keys_are_pairs(k.0, k.1, 0);
        lemma_keys_are_pairs(sender, tag, 0);
    }
    assert(after =~= expected);
}

proof fn lemma_remove(packed: Map<u64, SocketAddress>, sender: u32, tag: u32)
    ensures
        table_of(packed.remove(key_of(sender, tag))) == table_of(packed).remove((sender, tag)),
{
    let after = table_of(packed.remove(key_of(sender, tag)));
    let expected = table_of(packed).remove((sender, tag));
    assert forall|k: (u32, u32)| after.contains_key(k) == expected.contains_key(k) && (
    after.contains_key(k) ==> after[k] == expected[k]) by {
        lemma_keys_are_pairs(k.0, k.1, 0);
        lemma_keys_are_pairs(sender, tag, 0);
    }
    assert(after =~= expected);
}

proof fn lemma_as_many(packed: Map<u64, SocketAddress>)
    requires
        packed.dom().finite(),
    ensures
        table_of(packed).dom().finite(),
        table_of(packed).dom().len() == packed.dom().len(),
{
    let pair = |key: u64| pair_of(key);
    assert forall|a: u64, b: u64| #[trigger] pair_of(a) == #[trigger] pair_of(b) implies a == b by {
        lemma_keys_are_pairs(0, 0, a);
        lemma_keys_are_pairs(0, 0, b);
    }
    assert(vstd::relations::injective_on(pair, packed.dom()));
    assert forall|k: (u32, u32)| packed.dom().map(pair).contains(k) == table_of(
        packed,
    ).dom().contains(k) by {
        lemma_keys_are_pairs(k.0, k.1, 0);
        if table_of(packed).dom().contains(k) {
            assert(packed.dom().contains(key_of(k.0, k.1)));
            assert(pair(key_of(k.0, k.1)) == k);
        }
        if packed.dom().map(pair).contains(k) {
            let key = choose|key: u64| packed.dom().contains(key) && pair(key) == k;
            lemma_keys_are_pairs(0, 0, key);
        }
    }
    assert(packed.dom().map(pair) =~= table_of(packed).dom());
    lemma_map_size(packed.dom(), table_of(packed).dom(), pair);
}

impl View for PendingTable {
    type V = Map<(u32, u32), SocketAddress>;

    /// The table as a map from (sender, tag) to the advertised address.
    closed spec fn view(&self) -> Map<(u32, u32), SocketAddress> {
        table_of(self.entries@)
    }
}

fn key(sender: u32, tag: u32) -> (key: u64)
    ensures
        key == key_of(sender, tag),
{
    (sender as u64) * 0x1_0000_0000 + (tag as u64)
}

impl PendingTable {
    /// An empty table.
    pub fn new() -> (table: PendingTable)
        ensures
            table@ == Map::<(u32, u32), SocketAddress>::empty(),
    {
        let table = PendingTable { entries: HashMap::new() };
        assert(table@ =~= Map::<(u32, u32), SocketAddress>::empty());
        table
    }

    /// The number of announcements waiting.
    pub fn len(&self) -> (n: usize)
        ensures
            self@.dom().finite(),
            n == self@.dom().len(),
    {
        broadcast use group_hash_axioms;

        proof {
            lemma_as_many(self.entries@);
        }
        self.entries.len()
    }

    /// Whether an announcement of `sender` under `tag` is waiting.
    pub fn contains(&self, sender: u32, tag: u32) -> (found: bool)
        ensures
            found == self@.contains_key((sender, tag)),
    {
        broadcast use group_hash_axioms;

        self.entries.contains_key(&key(sender, tag))
    }

    /// Records that `sender` offers the message tagged `tag` at `addr`.
    ///
    /// A second announcement under a key that is still waiting replaces the
    /// address of the first, which is handed back so that the caller can
    /// report the clash.
    pub fn insert(&mut self, sender: u32, tag: u32, addr: SocketAddress) -> (displaced: Option<
        SocketAddress,
    >)
        ensures
            final(self)@ == old(self)@.insert((sender, tag), addr),
            displaced == if old(self)@.contains_key((sender, tag)) {
                Some(old(self)@[(sender, tag)])
            } else {
                None
            },
    {
        broadcast use group_hash_axioms;

        proof {
            lemma_insert(self.entries@, sender, tag, addr);
        }
        self.entries.insert(key(sender, tag), addr)
    }

    /// Records the announcement carried by `pkt`.
    pub fn announce(&mut self, pkt: ClientOperationPkt) -> (displaced: Option<SocketAddress>)
        ensures
            final(self)@ == old(self)@.insert((pkt.client_id, pkt.op_id), pkt.addr),
            displaced == if old(self)@.contains_key((pkt.client_id, pkt.op_id)) {
                Some(old(self)@[(pkt.client_id, pkt.op_id)])
            } else {
                None
            },
    {
        self.insert(pkt.client_id, pkt.op_id, pkt.addr)
    }

    /// Takes out the announcement of `sender` under `tag`, if it is waiting,
    /// and hands back the address it advertised.
    pub fn take(&mut self, sender: u32, tag: u32) -> (addr: Option<SocketAddress>)
        ensures
            final(self)@ == old(self)@.remove((sender, tag)),
            addr == if old(self)@.contains_key((sender, tag)) {
                Some(old(self)@[(sender, tag)])
            } else {
                None
            },
    {
        broadcast use group_hash_axioms;

        proof {
            lemma_remove(self.entries@, sender, tag);
        }
        let k = key(sender, tag);
        self.entries.remove(&k)
    }

    /// The number under which some announcement tagged `tag` is kept, if
    /// there is any. Which one, where several wait, is left open.
    fn any_tagged(&self, tag: u32) -> (found: Option<u64>)
        ensures
            match found {
                Some(k) => self.entries@.contains_key(k) && tag_of(k) == tag,
                None => forall|k: u64| self.entries@.contains_key(k) ==> tag_of(k) != tag,
            },
    {
        broadcast use group_hash_axioms;

        let ghost keys = self.entries.keys().remaining().unref();
        let ghost mut seen: int = 0;
        for k in walk: self.entries.keys()
            invariant
                keys == walk.seq().unref(),
                keys.to_set() == self.entries@.dom(),
                seen == walk.index(),
                forall|j: int| 0 <= j < seen ==> tag_of(#[trigger] keys[j]) != tag,
        {
            assert(*k == keys[seen]);
            if *k % 0x1_0000_0000 == tag as u64 {
                assert(keys.contains(*k));
                return Some(*k);
            }
            proof {
                seen = seen + 1;
            }
        }
        assert(seen == keys.len());
        assert forall|k: u64| self.entries@.contains_key(k) implies tag_of(k) != tag by {
            assert(keys.to_set().contains(k));
            let j = choose|j: int| 0 <= j < keys.len() && keys[j] == k;
            assert(tag_of(keys[j]) != tag);
        }
        None
    }

    /// Takes out an announcement tagged `tag`, whoever sent it, and hands
    /// back its sender and the address it advertised. Where several senders
    /// wait under the tag, any one of them is taken.
    pub fn take_any(&mut self, tag: u32) -> (taken: Option<(u32, SocketAddress)>)
        ensures
            match taken {
                Some((sender, addr)) => {
                    &&& old(self)@.contains_key((sender, tag))
                    &&& old(self)@[(sender, tag)] == addr
                    &&& final(self)@ == old(self)@.remove((sender, tag))
                },
                None => {
                    &&& forall|sender: u32| !old(self)@.contains_key((sender, tag))
                    &&& final(self)@ == old(self)@
                },
            },
    {
        broadcast use group_hash_axioms;

        match self.any_tagged(tag) {
            Some(k) => {
                let sender = (k / 0x1_0000_0000) as u32;
                proof {
                    lemma_keys_are_pairs(sender, tag, k);
                    lemma_remove(self.entries@, sender, tag);
                }
                match self.entries.remove(&k) {
                    Some(addr) => Some((sender, addr)),
                    None => None,
                }
            },
            None => {
                assert forall|sender: u32| !self@.contains_key((sender, tag)) by {
                    lemma_keys_are_pairs(sender, tag, 0);
                }
                None
            },
        }
    }
}

} // verus!
