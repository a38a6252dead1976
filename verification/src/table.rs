//! The transposition table: a cache of one bound per position.

use crate::board::Board;
use vstd::prelude::*;

verus! {

/// The number of slots: twice a prime.
pub const CAPACITY: u64 = 16777186;

/// The hash field of a slot that holds nothing: the number whose 49 low
/// bits are all set, which is the hash of no position.
pub const HASH_MASK: u64 = 0x1_FFFF_FFFF_FFFF;

/// The word that holds `key` above the eight bits of `value`.
pub open spec fn pack(key: u64, value: i8) -> u64 {
    (key << 8) | ((value as u64) & 0xFF)
}

/// What a word holds above its eight low bits.
pub open spec fn packed_key(node: u64) -> u64 {
    node >> 8
}

/// The eight low bits of a word, read as a signed byte.
pub open spec fn packed_value(node: u64) -> i8 {
    (node & 0xFF) as i8
}

/// A key of at most 49 bits and a byte come out of the word that they were
/// packed into, and the word of an empty slot holds the key of no position.
pub proof fn lemma_pack(key: u64, value: i8)
    by (bit_vector)
    requires
        key <= HASH_MASK,
    ensures
        packed_key(pack(key, value)) == key,
        packed_value(pack(key, value)) == value,
        packed_key(HASH_MASK << 8) == HASH_MASK,
{
}

/// One slot of the table: a hash and a signed byte in one word.
#[derive(Clone, Copy)]
pub struct TableNode {
    node: u64,
}

impl TableNode {
    /// The word of the slot.
    pub closed spec fn word(self) -> u64 {
        self.node
    }

    /// The byte that the slot holds.
    pub fn get_value(&self) -> (value: i8)
        ensures
            value == packed_value(self.word()),
    {
        #[verifier::truncate]
        ((self.node & 0xFF) as i8)
    }

    /// The hash that the slot holds.
    pub fn get_hash(&self) -> (key: u64)
        ensures
            key == packed_key(self.word()),
    {
        self.node >> 8
    }

    /// The slot that holds `value` under `key`, a key of at most 56 bits.
    pub fn new(key: u64, value: i8) -> (node: TableNode)
        ensures
            node.word() == pack(key, value),
            key <= HASH_MASK ==> packed_key(node.word()) == key && packed_value(node.word())
                == value,
    {
        proof {
            if key <= HASH_MASK {
                lemma_pack(key, value);
            }
        }
        let low = #[verifier::truncate]
        (value as u64) & 0xFF;
        TableNode { node: (key << 8) | low }
    }
}

/// A cache from position hashes to one signed byte each, with one slot for
/// all the hashes that leave the same remainder on division by `CAPACITY`.
pub struct Table {
    contents: Vec<TableNode>,
    add_count: i32,
    get_count: i32,
}

/// The hashes that share the slot of `key`.
pub open spec fn slot_keys(key: u64) -> Set<u64> {
    Set::new(|other: u64| other % CAPACITY == key % CAPACITY)
}

impl View for Table {
    type V = Map<u64, i32>;

    /// The scores held, by the hash they were stored under.
    closed spec fn view(&self) -> Map<u64, i32> {
        Map::new(
            |key: u64| key < HASH_MASK && packed_key(self.slot(key)) == key,
            |key: u64| packed_value(self.slot(key)) as i32,
        )
    }
}

impl Table {
    #[verifier::type_invariant]
    closed spec fn inv(self) -> bool {
        self.contents.len() == CAPACITY
    }

    closed spec fn slot(self, key: u64) -> u64 {
        self.contents@[(key % CAPACITY) as int].word()
    }

    /// How often `add` has run, counted modulo 2^32.
    pub closed spec fn adds(self) -> i32 {
        self.add_count
    }

    /// How often `get` has run, counted modulo 2^32.
    pub closed spec fn gets(self) -> i32 {
        self.get_count
    }

    /// A table that holds nothing.
    pub fn new() -> (table: Table)
        ensures
            table@ == Map::<u64, i32>::empty(),
            table.adds() == 0,
            table.gets() == 0,
    {
        let empty = TableNode { node: HASH_MASK << 8 };
        let table = Table { contents: vec![empty; CAPACITY as usize], add_count: 0, get_count: 0 };
        proof {
            lemma_pack(0, 0);
        }
        table
    }

    /// Stores the low byte of `score` under the hash of `position`, in place
    /// of whatever the slot of that hash held.
    pub fn add(&mut self, position: &Board, score: i32)
        ensures
            final(self)@ == old(self)@.remove_keys(slot_keys(position@.hash())).insert(
                position@.hash(),
                (score as i8) as i32,
            ),
            final(self).adds() == old(self).adds().wrapping_add(1),
            final(self).gets() == old(self).gets(),
    {
        proof {
            use_type_invariant(&*self);
        }
        self.add_count = self.add_count.wrapping_add(1);
        let key = position.hash();
        let index = (key % CAPACITY) as usize;
        let value = #[verifier::truncate]
        (score as i8);
        self.contents[index] = TableNode::new(key, value);
        proof {
            lemma_pack(key, value);
        }
    }

    /// The score stored under the hash of `position`, if its slot still holds it.
    pub fn get(&mut self, position: &Board) -> (score: Option<i32>)
        ensures
            final(self)@ == old(self)@,
            score == if old(self)@.dom().contains(position@.hash()) {
                Some(old(self)@[position@.hash()])
            } else {
                None
            },
            score matches Some(byte) ==> -128 <= byte <= 127,
            final(self).gets() == old(self).gets().wrapping_add(1),
            final(self).adds() == old(self).adds(),
    {
        proof {
            use_type_invariant(&*self);
        }
        self.get_count = self.get_count.wrapping_add(1);
        let index = (position.hash() % CAPACITY) as usize;
        let node = self.contents[index];
        if node.get_hash() == position.hash() {
            Some(node.get_value() as i32)
        } else {
            None
        }
    }

    /// Empties every slot.
    pub fn clear(&mut self)
        ensures
            final(self)@ == Map::<u64, i32>::empty(),
            final(self).adds() == old(self).adds(),
            final(self).gets() == old(self).gets(),
    {
        proof {
            use_type_invariant(&*self);
        }
        let empty = TableNode { node: HASH_MASK << 8 };
        let mut i: u64 = 0;
        while i < CAPACITY
            invariant
                i <= CAPACITY,
                self.contents.len() == CAPACITY,
                self.add_count == old(self).add_count,
                self.get_count == old(self).get_count,
                empty.word() == HASH_MASK << 8,
                forall|j: int| 0 <= j < i ==> self.contents@[j].word() == HASH_MASK << 8,
            decreases CAPACITY - i,
        {
            self.contents[i as usize] = empty;
            i += 1;
        }
        proof {
            lemma_pack(0, 0);
        }
    }

    /// How often `add` has run.
    pub fn add_count(&self) -> (count: i32)
        ensures
            count == self.adds(),
    {
        self.add_count
    }

    /// How often `get` has run.
    pub fn get_count(&self) -> (count: i32)
        ensures
            count == self.gets(),
    {
        self.get_count
    }
}

} // verus!
