//! Replay protection: a window of the most recently seen sequence numbers.

use vstd::prelude::*;
use std::collections::{HashSet, VecDeque};

verus! {

broadcast use vstd::std_specs::hash::group_hash_axioms;

/// The sequence numbers seen most recently, at most `window_size` of them
/// (at least one once anything was marked), and the newest number that has
/// left the window: it, and every number at or below it, is refused as too
/// old.
#[derive(Debug)]
pub struct ReplayWindow {
    window_size: usize,
    seen_messages: HashSet<u64>,
    sequence_numbers: VecDeque<u64>,
    evicted_floor: Option<u64>,
}

/// The larger of a previous floor and a number that just left the window.
pub open spec fn raise_floor(floor: Option<u64>, evicted: u64) -> Option<u64> {
    match floor {
        Some(f) => Some(if f < evicted { evicted } else { f }),
        None => Some(evicted),
    }
}

/// Whether `sequence` is accepted in the state (`seen`, `floor`): not seen,
/// and not at or below a number that has left the window.
pub open spec fn spec_is_new(seen: Set<u64>, floor: Option<u64>, sequence: u64) -> bool {
    &&& !seen.contains(sequence)
    &&& !(floor matches Some(f) && sequence <= f)
}

/// The window state after marking `sequence` in the state (`seen`, `order`,
/// `floor`) of a window of `window_size`: when full, the oldest number leaves
/// the window and raises the floor.
pub open spec fn spec_mark(
    window_size: nat,
    seen: Set<u64>,
    order: Seq<u64>,
    floor: Option<u64>,
    sequence: u64,
) -> (Set<u64>, Seq<u64>, Option<u64>) {
    if order.len() >= window_size && order.len() > 0 {
        (
            seen.remove(order[0]).insert(sequence),
            order.subrange(1, order.len() as int).push(sequence),
            raise_floor(floor, order[0]),
        )
    } else {
        (seen.insert(sequence), order.push(sequence), floor)
    }
}

impl ReplayWindow {
    /// Every number still considered seen is in the window's order, and the
    /// order never grows past the window (or one number, for a window of zero).
    #[verifier::type_invariant]
    spec fn well_formed(self) -> bool {
        &&& forall|s: u64| self.seen_messages@.contains(s) ==> self.sequence_numbers@.contains(s)
        &&& self.sequence_numbers@.len() <= if self.window_size == 0 { 1 } else { self.window_size as int }
    }

    /// The capacity of the window.
    pub closed spec fn spec_window_size(&self) -> nat {
        self.window_size as nat
    }

    /// The sequence numbers considered seen.
    pub closed spec fn seen(&self) -> Set<u64> {
        self.seen_messages@
    }

    /// The marks in the window, oldest first.
    pub closed spec fn order(&self) -> Seq<u64> {
        self.sequence_numbers@
    }

    /// The newest number that has left the window, if any has.
    pub closed spec fn floor(&self) -> Option<u64> {
        self.evicted_floor
    }

    /// An empty window of `window_size` numbers.
    pub fn new(window_size: usize) -> (w: ReplayWindow)
        ensures
            w.spec_window_size() == window_size,
            w.seen() == Set::<u64>::empty(),
            w.order() == Seq::<u64>::empty(),
            w.floor() is None,
    {
        ReplayWindow {
            window_size,
            seen_messages: HashSet::new(),
            sequence_numbers: VecDeque::new(),
            evicted_floor: None,
        }
    }

    /// Whether `sequence` would be accepted: not seen, and not at or below a
    /// number that has left the window.
    pub fn is_new(&self, sequence: u64) -> (b: bool)
        ensures
            b == spec_is_new(self.seen(), self.floor(), sequence),
    {
        if self.seen_messages.contains(&sequence) {
            return false;
        }
        match self.evicted_floor {
            Some(f) => sequence > f,
            None => true,
        }
    }

    /// Records `sequence`, evicting the oldest mark when the window is full.
    pub fn mark_seen(&mut self, sequence: u64)
        ensures
            final(self).spec_window_size() == old(self).spec_window_size(),
            (final(self).seen(), final(self).order(), final(self).floor()) == spec_mark(
                old(self).spec_window_size(),
                old(self).seen(),
                old(self).order(),
                old(self).floor(),
                sequence,
            ),
            final(self).seen().contains(sequence),
    {
        proof {
            use_type_invariant(&*self);
        }
        let ghost old_order = self.sequence_numbers@;
        let ghost old_seen = self.seen_messages@;
        let mut seen: HashSet<u64> = HashSet::new();
        std::mem::swap(&mut seen, &mut self.seen_messages);
        let mut order: VecDeque<u64> = VecDeque::new();
        std::mem::swap(&mut order, &mut self.sequence_numbers);
        let mut floor = self.evicted_floor;
        if order.len() >= self.window_size {
            if let Some(oldest) = order.pop_front() {
                seen.remove(&oldest);
                floor = match floor {
                    Some(f) => Some(if f < oldest { oldest } else { f }),
                    None => Some(oldest),
                };
            }
        }
        seen.insert(sequence);
        order.push_back(sequence);
        proof {
            assert forall|s: u64| seen@.contains(s) implies order@.contains(s) by {
                if s != sequence {
                    assert(old_seen.contains(s));
                    assert(old_order.contains(s));
                    let k = choose|k: int| 0 <= k < old_order.len() && old_order[k] == s;
                    if old_order.len() >= self.window_size && old_order.len() > 0 {
                        assert(k != 0);
                        assert(order@[k - 1] == s);
                    } else {
                        assert(order@[k] == s);
                    }
                } else {
                    assert(order@[order@.len() - 1] == s);
                }
            }
        }
        self.sequence_numbers = order;
        self.seen_messages = seen;
        self.evicted_floor = floor;
    }

    /// Accepts `sequence` and marks it when `is_new` holds of it; refuses it
    /// and changes nothing otherwise.
    pub fn check_and_mark(&mut self, sequence: u64) -> (accepted: bool)
        ensures
            accepted == spec_is_new(old(self).seen(), old(self).floor(), sequence),
            final(self).spec_window_size() == old(self).spec_window_size(),
            accepted ==> (final(self).seen(), final(self).order(), final(self).floor()) == spec_mark(
                old(self).spec_window_size(),
                old(self).seen(),
                old(self).order(),
                old(self).floor(),
                sequence,
            ),
            !accepted ==> final(self).seen() == old(self).seen() && final(self).order()
                == old(self).order() && final(self).floor() == old(self).floor(),
    {
        if self.is_new(sequence) {
            self.mark_seen(sequence);
            true
        } else {
            false
        }
    }

    /// Forgets every mark and the floor.
    pub fn reset(&mut self)
        ensures
            final(self).spec_window_size() == old(self).spec_window_size(),
            final(self).seen() == Set::<u64>::empty(),
            final(self).order() == Seq::<u64>::empty(),
            final(self).floor() is None,
    {
        proof {
            use_type_invariant(&*self);
        }
        let mut seen: HashSet<u64> = HashSet::new();
        std::mem::swap(&mut seen, &mut self.seen_messages);
        let mut order: VecDeque<u64> = VecDeque::new();
        std::mem::swap(&mut order, &mut self.sequence_numbers);
        seen.clear();
        order.clear();
        self.sequence_numbers = order;
        self.seen_messages = seen;
        self.evicted_floor = None;
    }
}

/// The window state after checking each of `marks` in turn, from the state
/// (`seen`, `order`, `floor`): accepted numbers are marked, refused ones
/// change nothing.
pub open spec fn spec_check_all(
    window_size: nat,
    seen: Set<u64>,
    order: Seq<u64>,
    floor: Option<u64>,
    marks: Seq<u64>,
) -> (Set<u64>, Seq<u64>, Option<u64>)
    decreases marks.len(),
{
    if marks.len() == 0 {
        (seen, order, floor)
    } else {
        let (s1, o1, f1) = if spec_is_new(seen, floor, marks[0]) {
            spec_mark(window_size, seen, order, floor, marks[0])
        } else {
            (seen, order, floor)
        };
        spec_check_all(window_size, s1, o1, f1, marks.subrange(1, marks.len() as int))
    }
}

/// A number that is refused stays refused after one more mark.
pub proof fn lemma_refused_stays_refused(
    window_size: nat,
    seen: Set<u64>,
    order: Seq<u64>,
    floor: Option<u64>,
    a: u64,
    b: u64,
)
    requires
        !spec_is_new(seen, floor, a),
    ensures
        ({
            let (s1, o1, f1) = spec_mark(window_size, seen, order, floor, b);
            !spec_is_new(s1, f1, a)
        }),
{
}

/// No replay: once a number has been accepted, checking any further numbers
/// never makes it acceptable again.
pub proof fn lemma_no_replay(
    window_size: nat,
    seen: Set<u64>,
    order: Seq<u64>,
    floor: Option<u64>,
    a: u64,
    later: Seq<u64>,
)
    requires
        spec_is_new(seen, floor, a),
    ensures
        ({
            let (s1, o1, f1) = spec_mark(window_size, seen, order, floor, a);
            let (s2, o2, f2) = spec_check_all(window_size, s1, o1, f1, later);
            !spec_is_new(s2, f2, a)
        }),
{
    let (s1, o1, f1) = spec_mark(window_size, seen, order, floor, a);
    lemma_refused_after_all(window_size, s1, o1, f1, a, later);
}

/// A refused number stays refused through any further checks.
pub proof fn lemma_refused_after_all(
    window_size: nat,
    seen: Set<u64>,
    order: Seq<u64>,
    floor: Option<u64>,
    a: u64,
    later: Seq<u64>,
)
    requires
        !spec_is_new(seen, floor, a),
    ensures
        ({
            let (s2, o2, f2) = spec_check_all(window_size, seen, order, floor, later);
            !spec_is_new(s2, f2, a)
        }),
    decreases later.len(),
{
    if later.len() > 0 {
        let b = later[0];
        if spec_is_new(seen, floor, b) {
            lemma_refused_stays_refused(window_size, seen, order, floor, a, b);
            let (s1, o1, f1) = spec_mark(window_size, seen, order, floor, b);
            lemma_refused_after_all(window_size, s1, o1, f1, a, later.subrange(1, later.len() as int));
        } else {
            lemma_refused_after_all(window_size, seen, order, floor, a, later.subrange(1, later.len() as int));
        }
    }
}

/// What `check_and_mark` answers for each of `marks` in turn, from the state
/// (`seen`, `order`, `floor`).
pub open spec fn spec_answers(
    window_size: nat,
    seen: Set<u64>,
    order: Seq<u64>,
    floor: Option<u64>,
    marks: Seq<u64>,
) -> Seq<bool>
    decreases marks.len(),
{
    if marks.len() == 0 {
        Seq::empty()
    } else {
        let ok = spec_is_new(seen, floor, marks[0]);
        let (s1, o1, f1) = if ok {
            spec_mark(window_size, seen, order, floor, marks[0])
        } else {
            (seen, order, floor)
        };
        seq![ok] + spec_answers(window_size, s1, o1, f1, marks.subrange(1, marks.len() as int))
    }
}

proof fn lemma_answers_len(window_size: nat, seen: Set<u64>, order: Seq<u64>, floor: Option<u64>, marks: Seq<u64>)
    ensures
        spec_answers(window_size, seen, order, floor, marks).len() == marks.len(),
    decreases marks.len(),
{
    if marks.len() > 0 {
        let ok = spec_is_new(seen, floor, marks[0]);
        let (s1, o1, f1) = if ok {
            spec_mark(window_size, seen, order, floor, marks[0])
        } else {
            (seen, order, floor)
        };
        lemma_answers_len(window_size, s1, o1, f1, marks.subrange(1, marks.len() as int));
    }
}

/// A refused number is refused at every later check.
proof fn lemma_refused_answers(
    window_size: nat,
    seen: Set<u64>,
    order: Seq<u64>,
    floor: Option<u64>,
    a: u64,
    marks: Seq<u64>,
    j: int,
)
    requires
        !spec_is_new(seen, floor, a),
        0 <= j < marks.len(),
        marks[j] == a,
    ensures
        !spec_answers(window_size, seen, order, floor, marks)[j],
    decreases j,
{
    let ok = spec_is_new(seen, floor, marks[0]);
    let (s1, o1, f1) = if ok {
        spec_mark(window_size, seen, order, floor, marks[0])
    } else {
        (seen, order, floor)
    };
    let rest = marks.subrange(1, marks.len() as int);
    let all = spec_answers(window_size, seen, order, floor, marks);
    let tail = spec_answers(window_size, s1, o1, f1, rest);
    lemma_answers_len(window_size, s1, o1, f1, rest);
    assert(all == seq![ok] + tail);
    if j > 0 {
        assert(all[j] == tail[j - 1]);
        if ok {
            lemma_refused_stays_refused(window_size, seen, order, floor, a, marks[0]);
        }
        lemma_refused_answers(window_size, s1, o1, f1, a, rest, j - 1);
    }
}

/// Each number is accepted at most once: after a check accepts a number,
/// every later check of the same number refuses it.
pub proof fn lemma_accepted_at_most_once(
    window_size: nat,
    seen: Set<u64>,
    order: Seq<u64>,
    floor: Option<u64>,
    marks: Seq<u64>,
    i: int,
    j: int,
)
    requires
        0 <= i < j < marks.len(),
        marks[i] == marks[j],
        spec_answers(window_size, seen, order, floor, marks)[i],
    ensures
        !spec_answers(window_size, seen, order, floor, marks)[j],
    decreases i,
{
    let ok = spec_is_new(seen, floor, marks[0]);
    let (s1, o1, f1) = if ok {
        spec_mark(window_size, seen, order, floor, marks[0])
    } else {
        (seen, order, floor)
    };
    let rest = marks.subrange(1, marks.len() as int);
    let all = spec_answers(window_size, seen, order, floor, marks);
    let tail = spec_answers(window_size, s1, o1, f1, rest);
    lemma_answers_len(window_size, s1, o1, f1, rest);
    assert(all == seq![ok] + tail);
    assert(all[i] == if i == 0 { ok } else { tail[i - 1] });
    assert(all[j] == tail[j - 1]);
    if i == 0 {
        assert(ok);
        lemma_refused_answers(window_size, s1, o1, f1, marks[0], rest, j - 1);
    } else {
        lemma_accepted_at_most_once(window_size, s1, o1, f1, rest, i - 1, j - 1);
    }
}

/// Every number the state still refuses stems from the accepted numbers `acc`.
pub open spec fn stems_from(seen: Set<u64>, order: Seq<u64>, floor: Option<u64>, acc: Set<u64>) -> bool {
    &&& forall|x: u64| #[trigger] seen.contains(x) ==> acc.contains(x)
    &&& forall|k: int| 0 <= k < order.len() ==> acc.contains(#[trigger] order[k])
    &&& (floor matches Some(f) ==> acc.contains(f))
}

proof fn lemma_fresh_answer(
    window_size: nat,
    seen: Set<u64>,
    order: Seq<u64>,
    floor: Option<u64>,
    acc: Set<u64>,
    marks: Seq<u64>,
    j: int,
)
    requires
        stems_from(seen, order, floor, acc),
        0 <= j < marks.len(),
        forall|x: u64| #[trigger] acc.contains(x) ==> x < marks[j],
        forall|k: int| 0 <= k < j ==> #[trigger] marks[k] != marks[j],
        forall|k: int| 0 <= k < j && #[trigger] spec_answers(window_size, seen, order, floor, marks)[k] ==> marks[k] < marks[j],
    ensures
        spec_answers(window_size, seen, order, floor, marks)[j],
    decreases j,
{
    let ok = spec_is_new(seen, floor, marks[0]);
    let (s1, o1, f1) = if ok {
        spec_mark(window_size, seen, order, floor, marks[0])
    } else {
        (seen, order, floor)
    };
    let rest = marks.subrange(1, marks.len() as int);
    let all = spec_answers(window_size, seen, order, floor, marks);
    let tail = spec_answers(window_size, s1, o1, f1, rest);
    lemma_answers_len(window_size, s1, o1, f1, rest);
    assert(all == seq![ok] + tail);
    if j > 0 {
        let acc1 = if ok { acc.insert(marks[0]) } else { acc };
        if ok {
            assert(all[0]);
            assert(marks[0] < marks[j]);
            if order.len() >= window_size && order.len() > 0 {
                assert(acc.contains(order[0]));
            }
            assert forall|k: int| 0 <= k < o1.len() implies acc1.contains(#[trigger] o1[k]) by {
                if order.len() >= window_size && order.len() > 0 {
                    if k < o1.len() - 1 {
                        assert(o1[k] == order[k + 1]);
                    }
                } else {
                    if k < o1.len() - 1 {
                        assert(o1[k] == order[k]);
                    }
                }
            }
        }
        assert forall|k: int| 0 <= k < j - 1 implies #[trigger] rest[k] != rest[j - 1] by {
            assert(rest[k] == marks[k + 1]);
            assert(marks[k + 1] != marks[j]);
        }
        assert forall|k: int| 0 <= k < j - 1 && #[trigger] tail[k] implies rest[k] < rest[j - 1] by {
            assert(all[k + 1] == tail[k]);
            assert(rest[k] == marks[k + 1]);
        }
        lemma_fresh_answer(window_size, s1, o1, f1, acc1, rest, j - 1);
        assert(all[j] == tail[j - 1]);
    } else {
        assert(!acc.contains(marks[0]));
    }
}

/// A number never checked before and above every number accepted before is
/// accepted, from an empty window.
pub proof fn lemma_fresh_higher_accepted(window_size: nat, marks: Seq<u64>, j: int)
    requires
        0 <= j < marks.len(),
        forall|k: int| 0 <= k < j ==> #[trigger] marks[k] != marks[j],
        forall|k: int| 0 <= k < j && #[trigger] spec_answers(window_size, Set::empty(), Seq::empty(), None, marks)[k]
            ==> marks[k] < marks[j],
    ensures
        spec_answers(window_size, Set::empty(), Seq::empty(), None, marks)[j],
{
    lemma_fresh_answer(window_size, Set::empty(), Seq::empty(), None, Set::empty(), marks, j);
}

} // verus!
