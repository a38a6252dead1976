//! The candidate moves of one position, in the order of their values.

use vstd::prelude::*;

verus! {

/// A column and the value that it is ordered by.
#[derive(Clone, Copy, Debug, Eq, PartialEq)]
pub struct MoveNode {
    pub action: u8,
    pub value: i32,
}

/// Up to seven candidate columns, kept in ascending order of their values
/// and handed out from the highest value down.
pub struct MoveSort {
    moves: [MoveNode; 7],
    size: usize,
}

impl View for MoveSort {
    type V = Seq<MoveNode>;

    /// The candidates held, lowest value first.
    closed spec fn view(&self) -> Seq<MoveNode> {
        self.moves@.take(self.size as int)
    }
}

/// No candidate of `s` has a higher value than one after it.
pub open spec fn ascending(s: Seq<MoveNode>) -> bool {
    forall|i: int, j: int| 0 <= i <= j < s.len() ==> s[i].value <= s[j].value
}

/// How many candidates of `s` have a value that is not higher than `value`.
pub open spec fn rank(s: Seq<MoveNode>, value: i32) -> int
    decreases s.len(),
{
    if s.len() == 0 {
        0
    } else {
        rank(s.drop_last(), value) + if s.last().value <= value {
            1int
        } else {
            0int
        }
    }
}

/// Some candidate of `s` is the column `col`.
pub open spec fn holds(s: Seq<MoveNode>, col: u8) -> bool {
    exists|k: int| 0 <= k < s.len() && (#[trigger] s[k]).action == col
}

/// The rank is a place of the sequence, or the place behind the last.
pub proof fn lemma_rank_bounds(s: Seq<MoveNode>, value: i32)
    ensures
        0 <= rank(s, value) <= s.len(),
    decreases s.len(),
{
    if s.len() > 0 {
        lemma_rank_bounds(s.drop_last(), value);
    }
}

/// In an ascending sequence the candidates whose value is not higher than
/// `value` are the first ones.
pub proof fn lemma_rank(s: Seq<MoveNode>, value: i32, k: int)
    requires
        0 <= k <= s.len(),
        forall|i: int| 0 <= i < k ==> s[i].value <= value,
        forall|i: int| k <= i < s.len() ==> s[i].value > value,
    ensures
        rank(s, value) == k,
    decreases s.len(),
{
    if s.len() > 0 {
        if k == s.len() {
            lemma_rank(s.drop_last(), value, k - 1);
        } else {
            lemma_rank(s.drop_last(), value, k);
        }
    }
}

/// With one more candidate, the columns held are those held before and the
/// new one.
pub proof fn lemma_insert_holds(s: Seq<MoveNode>, k: int, node: MoveNode)
    requires
        0 <= k <= s.len(),
    ensures
        forall|col: u8| holds(s.insert(k, node), col) <==> holds(s, col) || col == node.action,
        forall|i: int|
            0 <= i < s.len() + 1 ==> #[trigger] s.insert(k, node)[i] == node || exists|j: int|
                0 <= j < s.len() && s[j] == s.insert(k, node)[i],
{
    let t = s.insert(k, node);
    assert forall|col: u8| holds(t, col) <==> holds(s, col) || col == node.action by {
        if holds(s, col) {
            let j = choose|j: int| 0 <= j < s.len() && (#[trigger] s[j]).action == col;
            if j < k {
                assert(t[j].action == col);
            } else {
                assert(t[j + 1].action == col);
            }
        }
        if col == node.action {
            assert(t[k].action == col);
        }
    }
}

/// Without its last candidate, a sequence holds the columns that it held,
/// but for the column of the last.
pub proof fn lemma_drop_last_holds(s: Seq<MoveNode>, col: u8)
    requires
        holds(s, col),
        col != s.last().action,
    ensures
        holds(s.drop_last(), col),
{
    let j = choose|j: int| 0 <= j < s.len() && (#[trigger] s[j]).action == col;
    assert(s.drop_last()[j].action == col);
}

impl MoveSort {
    /// What holds of every sorter: at most seven candidates are held, in
    /// ascending order of their values.
    #[verifier::type_invariant]
    pub closed spec fn wf(&self) -> bool {
        &&& self.size <= 7
        &&& ascending(self@)
    }

    /// A sorter that holds nothing.
    pub fn new() -> (sorter: MoveSort)
        ensures
            sorter@ == Seq::<MoveNode>::empty(),
    {
        let moves = [MoveNode { action: 0, value: 0 };7];
        MoveSort { moves, size: 0 }
    }

    /// The number of candidates held.
    pub fn size(&self) -> (count: usize)
        ensures
            count == self@.len(),
            count <= 7,
            ascending(self@),
    {
        proof {
            use_type_invariant(self);
        }
        self.size
    }

    /// Takes out every candidate.
    pub fn clear(&mut self)
        ensures
            final(self)@ == Seq::<MoveNode>::empty(),
    {
        self.size = 0;
    }

    /// Adds a candidate behind those whose value is not higher than its own.
    pub fn insert(&mut self, action: u8, value: i32)
        requires
            old(self)@.len() < 7,
        ensures
            final(self)@ == old(self)@.insert(rank(old(self)@, value), MoveNode { action, value }),
            0 <= rank(old(self)@, value) <= old(self)@.len(),
    {
        proof {
            use_type_invariant(&*self);
        }
        let ghost before = self@;
        let mut current = self.size;
        while current > 0 && self.moves[current - 1].value > value
            invariant
                self.size == before.len(),
                self.size < 7,
                current <= self.size,
                ascending(before),
                forall|i: int| 0 <= i < current ==> self.moves@[i] == before[i],
                current < self.size ==> self.moves@[current as int] == before[current as int],
                forall|i: int| current < i <= self.size ==> self.moves@[i] == before[i - 1],
                forall|i: int| current <= i < before.len() ==> before[i].value > value,
            decreases current,
        {
            proof {
                let c = current as int;
                let after = self.moves@.update(c, self.moves@[c - 1]).take(self.size as int);
                assert forall|i: int, j: int| 0 <= i <= j < after.len() implies after[i].value
                    <= after[j].value by {
                    let x = if i < c {
                        i
                    } else {
                        i - 1
                    };
                    let y = if j < c {
                        j
                    } else {
                        j - 1
                    };
                    assert(before[x].value <= before[y].value);
                }
            }
            self.moves[current] = self.moves[current - 1];
            current -= 1;
        }
        proof {
            let k = current as int;
            let node = MoveNode { action, value };
            assert forall|i: int| 0 <= i < k implies before[i].value <= value by {
                assert(before[i].value <= before[k - 1].value);
            }
            lemma_rank(before, value, k);
            let placed = self.moves@.update(k, node);
            let short = placed.take(self.size as int);
            assert forall|i: int, j: int| 0 <= i <= j < short.len() implies short[i].value
                <= short[j].value by {
                if i < k && j > k {
                    assert(before[i].value <= before[j - 1].value);
                } else if i < k && j < k {
                    assert(before[i].value <= before[j].value);
                } else if i > k {
                    assert(before[i - 1].value <= before[j - 1].value);
                }
            }
            let long = placed.take(self.size as int + 1);
            assert(long =~= before.insert(k, node));
            assert forall|i: int, j: int| 0 <= i <= j < long.len() implies long[i].value
                <= long[j].value by {
                if i < k && j > k {
                    assert(before[i].value <= before[j - 1].value);
                } else if i < k && j < k {
                    assert(before[i].value <= before[j].value);
                } else if i > k {
                    assert(before[i - 1].value <= before[j - 1].value);
                }
            }
        }
        self.moves[current] = MoveNode { action, value };
        self.size += 1;
    }

    /// Takes out the last candidate, one of the highest value, and gives
    /// its column.
    pub fn get_next(&mut self) -> (action: u8)
        requires
            old(self)@.len() > 0,
        ensures
            final(self)@ == old(self)@.drop_last(),
            action == old(self)@.last().action,
            forall|i: int|
                0 <= i < old(self)@.len() ==> old(self)@[i].value <= old(self)@.last().value,
    {
        proof {
            use_type_invariant(&*self);
        }
        self.size -= 1;
        self.moves[self.size].action
    }
}

} // verus!
