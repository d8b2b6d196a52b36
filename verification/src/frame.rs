//! The bookkeeping of the ids that a function reads and assigns.
use std::collections::{HashMap, HashSet};
use vstd::multiset::Multiset;
use vstd::prelude::*;

use crate::ast::ConstantIndex;

verus! {

broadcast use {
    vstd::std_specs::hash::group_hash_axioms,
    vstd::set::group_set_axioms,
    vstd::map::group_map_axioms,
};

/// What is known of the ids in the function that is being parsed.
///
/// Whether an id that is read belongs to the function is only known once the expression it stands
/// in is complete: the id may turn out to be the target of an assignment. So while an expression
/// is being parsed the frame keeps a running count for each id: one up for each read, one down for
/// each assignment. A positive count at the end of the expression is a non-local access, if the
/// function hasn't assigned the id before. An assignment is complete once its value has been
/// parsed, so what the value reads is read before the assignment.
///
/// | expression  | count of `a`              | `a` is   |
/// |-------------|---------------------------|----------|
/// | `a = 1`     | 0: up, down               | a local  |
/// | `a = a`     | 1: up, down, up           | captured |
/// | `a = a = a` | 1: up, down, up, down, up | captured |
///
/// What a nested function captures counts as read by the function around it. In
/// `(|| a) for b in 0..10` the outer function captures `a` too. In `(|| a) for a in 0..10` it
/// doesn't, because there `a` is bound by the loop.
#[derive(Debug)]
pub struct Frame {
    /// If a frame contains yield then it represents a generator function.
    pub contains_yield: bool,
    /// Ids that have been assigned within the frame.
    pub ids_assigned_in_scope: HashSet<ConstantIndex>,
    /// Ids and lookup roots which have been accessed without being locally assigned previously.
    pub accessed_non_locals: HashSet<ConstantIndex>,
    /// The running counts of the expression that is being parsed.
    pub expression_id_accesses: HashMap<ConstantIndex, usize>,
}

#[verifier::ext_equal]
pub struct FrameView {
    pub contains_yield: bool,
    pub assigned: Set<ConstantIndex>,
    pub non_locals: Set<ConstantIndex>,
    pub accesses: Map<ConstantIndex, usize>,
}

impl View for Frame {
    type V = FrameView;

    open spec fn view(&self) -> FrameView {
        FrameView {
            contains_yield: self.contains_yield,
            assigned: self.ids_assigned_in_scope@,
            non_locals: self.accessed_non_locals@,
            accesses: self.expression_id_accesses@,
        }
    }
}

/// The count of each id where each of them occurs once.
pub open spec fn once(ids: Set<ConstantIndex>) -> Map<ConstantIndex, nat> {
    Map::new(|id: ConstantIndex| ids.contains(id), |id: ConstantIndex| 1)
}

impl FrameView {
    pub open spec fn empty() -> FrameView {
        FrameView {
            contains_yield: false,
            assigned: Set::empty(),
            non_locals: Set::empty(),
            accesses: Map::empty(),
        }
    }

    /// The ids that were assigned without having been accessed as non-locals first.
    pub open spec fn locals(self) -> Set<ConstantIndex> {
        self.assigned.difference(self.non_locals)
    }

    /// The running count of an id.
    pub open spec fn access_count(self, id: ConstantIndex) -> int {
        if self.accesses.contains_key(id) {
            self.accesses[id] as int
        } else {
            0
        }
    }

    /// The running count of each of the ids can go up by one.
    pub open spec fn can_access(self, ids: Set<ConstantIndex>) -> bool {
        forall|id: ConstantIndex| #[trigger]
            ids.contains(id) ==> self.access_count(id) < usize::MAX
    }

    /// The ids have been read, each of them once.
    pub open spec fn access_all(self, ids: Set<ConstantIndex>) -> FrameView {
        FrameView {
            accesses: Map::new(
                |id: ConstantIndex| self.accesses.contains_key(id) || ids.contains(id),
                |id: ConstantIndex|
                    if ids.contains(id) {
                        (self.access_count(id) + 1) as usize
                    } else {
                        self.accesses[id]
                    },
            ),
            ..self
        }
    }

    /// The id has been read.
    pub open spec fn access(self, id: ConstantIndex) -> FrameView {
        FrameView {
            accesses: self.accesses.insert(id, (self.access_count(id) + 1) as usize),
            ..self
        }
    }

    /// A read of the id has turned out to be an assignment.
    pub open spec fn take_back_access(self, id: ConstantIndex) -> FrameView {
        FrameView {
            accesses: self.accesses.insert(id, (self.access_count(id) - 1) as usize),
            ..self
        }
    }

    pub open spec fn assign(self, id: ConstantIndex) -> FrameView {
        FrameView { assigned: self.assigned.insert(id), ..self }
    }

    /// An assignment to the id is complete. If its value reads the id, and the function hasn't
    /// assigned it before, the read is a non-local access.
    pub open spec fn declare(self, id: ConstantIndex) -> FrameView {
        FrameView {
            non_locals: if self.access_count(id) > 0 && !self.assigned.contains(id) {
                self.non_locals.insert(id)
            } else {
                self.non_locals
            },
            assigned: self.assigned.insert(id),
            ..self
        }
    }

    pub open spec fn assign_all(self, ids: Seq<ConstantIndex>) -> FrameView {
        FrameView { assigned: self.assigned.union(ids.to_set()), ..self }
    }

    /// The ids that the finished expression has accessed as non-locals.
    pub open spec fn pending_non_locals(self) -> Set<ConstantIndex> {
        Set::new(
            |id: ConstantIndex|
                self.accesses.contains_key(id) && self.accesses[id] > 0 && !self.assigned.contains(
                    id,
                ),
        )
    }

    pub open spec fn finish(self) -> FrameView {
        FrameView {
            non_locals: self.non_locals.union(self.pending_non_locals()),
            accesses: Map::empty(),
            ..self
        }
    }

    /// The ids that a function captures from outside, each of them once.
    pub open spec fn captures(self) -> Multiset<ConstantIndex> {
        Multiset::from_map(once(self.non_locals))
    }

    /// Every id that the frame knows is below the bound.
    pub open spec fn ids_below(self, bound: int) -> bool {
        &&& forall|id: ConstantIndex| #[trigger] self.assigned.contains(id) ==> id < bound
        &&& forall|id: ConstantIndex| #[trigger] self.non_locals.contains(id) ==> id < bound
        &&& forall|id: ConstantIndex| #[trigger] self.accesses.contains_key(id) ==> id < bound
    }
}

/// The captured ids are ids that the frame knows.
pub proof fn lemma_captures_below(frame: FrameView, captured: Seq<ConstantIndex>, bound: int)
    requires
        frame.ids_below(bound),
        captured.to_set() == frame.non_locals,
    ensures
        forall|id: ConstantIndex| #[trigger] captured.to_multiset().contains(id) ==> id < bound,
{
    broadcast use vstd::seq_lib::group_to_multiset_ensures;

    assert forall|id: ConstantIndex| #[trigger] captured.to_multiset().contains(id) implies id
        < bound by {
        assert(captured.contains(id));
        assert(frame.non_locals.contains(id));
    }
}

impl Default for Frame {
    fn default() -> (frame: Frame)
        ensures
            frame@ == FrameView::empty(),
    {
        let frame = Frame {
            contains_yield: false,
            ids_assigned_in_scope: HashSet::new(),
            accessed_non_locals: HashSet::new(),
            expression_id_accesses: HashMap::new(),
        };
        assert(frame@ =~= FrameView::empty());
        frame
    }
}

/// The first elements of a sequence that are not excluded, as a set.
spec fn kept(ids: Seq<ConstantIndex>, n: int, excluded: Set<ConstantIndex>) -> Set<ConstantIndex> {
    ids.take(n).to_set().difference(excluded)
}

proof fn lemma_kept_step(ids: Seq<ConstantIndex>, n: int, excluded: Set<ConstantIndex>)
    requires
        ids.no_duplicates(),
        0 <= n < ids.len(),
    ensures
        kept(ids, n, excluded).finite(),
        kept(ids, n + 1, excluded).len() == kept(ids, n, excluded).len() + (if excluded.contains(
            ids[n],
        ) {
            0int
        } else {
            1int
        }),
{
    let before = kept(ids, n, excluded);
    let after = kept(ids, n + 1, excluded);
    lemma_take_step(ids, n);
    vstd::seq_lib::seq_to_set_is_finite(ids.take(n));
    if excluded.contains(ids[n]) {
        assert(after =~= before);
    } else {
        assert(after =~= before.insert(ids[n]));
    }
}

impl Frame {
    /// Locals in a frame are assigned values that weren't first accessed non-locally.
    pub fn local_count(&self) -> (count: usize)
        ensures
            count == self@.locals().len(),
    {
        let mut count: usize = 0;
        let size: usize = self.ids_assigned_in_scope.len();
        proof {
            assert forall|s: Seq<ConstantIndex>| #[trigger]
                kept(s, 0, self@.non_locals) == Set::<ConstantIndex>::empty() by {
                assert(kept(s, 0, self@.non_locals) =~= Set::empty());
            }
        }
        for id in ids: self.ids_assigned_in_scope.iter()
            invariant
                ids.seq().unref().no_duplicates(),
                ids.seq().unref().len() == size,
                ids.seq().unref().take(size as int) == ids.seq().unref(),
                ids.seq().unref().to_set() == self@.assigned,
                count == kept(ids.seq().unref(), ids.index() as int, self@.non_locals).len(),
                count <= ids.index(),
        {
            proof {
                lemma_kept_step(ids.seq().unref(), ids.index() as int, self@.non_locals);
            }
            if !self.accessed_non_locals.contains(id) {
                count = count + 1;
            }
        }
        count
    }

    /// Non-locals accessed in a nested frame need to be declared as also accessed in this frame.
    /// This ensures that captures from the outer frame will be available when creating the nested
    /// inner scope.
    pub fn add_nested_accessed_non_locals(&mut self, nested_frame: &Frame)
        requires
            old(self)@.can_access(nested_frame@.non_locals),
        ensures
            final(self)@ == old(self)@.access_all(nested_frame@.non_locals),
    {
        for non_local in ids: nested_frame.accessed_non_locals.iter()
            invariant
                ids.seq().unref().no_duplicates(),
                ids.seq().unref().to_set() == nested_frame@.non_locals,
                ids.seq().unref().take(ids.seq().len() as int) == ids.seq().unref(),
                old(self)@.can_access(nested_frame@.non_locals),
                self@ == old(self)@.access_all(ids.seq().unref().take(ids.index()).to_set()),
        {
            proof {
                lemma_take_step(ids.seq().unref(), ids.index());
            }
            self.increment_expression_access_for_id(*non_local);
            assert(self@ =~= old(self)@.access_all(
                ids.seq().unref().take(ids.index() + 1).to_set(),
            ));
        }
    }

    pub fn increment_expression_access_for_id(&mut self, id: ConstantIndex)
        requires
            old(self)@.access_count(id) < usize::MAX,
        ensures
            final(self)@ == old(self)@.access(id),
    {
        let count = self.expression_id_accesses.entry(id).or_insert(0);
        *count = *count + 1;
    }

    /// The running count of an id.
    pub fn access_count(&self, id: ConstantIndex) -> (count: usize)
        ensures
            count == self@.access_count(id),
    {
        match self.expression_id_accesses.get(&id) {
            Some(count) => *count,
            None => 0,
        }
    }

    /// The running counts of the nested frame's non-locals can go up by one.
    pub fn can_access_nested(&self, nested_frame: &Frame) -> (can: bool)
        ensures
            can == self@.can_access(nested_frame@.non_locals),
    {
        for non_local in ids: nested_frame.accessed_non_locals.iter()
            invariant
                ids.seq().unref().no_duplicates(),
                ids.seq().unref().to_set() == nested_frame@.non_locals,
                ids.seq().unref().take(ids.seq().len() as int) == ids.seq().unref(),
                self@.can_access(ids.seq().unref().take(ids.index()).to_set()),
        {
            proof {
                lemma_take_step(ids.seq().unref(), ids.index());
            }
            if self.access_count(*non_local) == usize::MAX {
                return false;
            }
        }
        true
    }

    /// The ids that a function with this frame captures.
    pub fn captures(&self) -> (captured: Vec<ConstantIndex>)
        ensures
            captured@.to_multiset() == self@.captures(),
            captured@.to_set() == self@.non_locals,
    {
        let mut captured: Vec<ConstantIndex> = Vec::new();
        for non_local in ids: self.accessed_non_locals.iter()
            invariant
                ids.seq().unref().no_duplicates(),
                ids.seq().unref().to_set() == self@.non_locals,
                ids.seq().unref().take(ids.seq().len() as int) == ids.seq().unref(),
                captured@ == ids.seq().unref().take(ids.index()),
        {
            captured.push(*non_local);
            assert(captured@ =~= ids.seq().unref().take(ids.index() + 1));
        }
        proof {
            lemma_distinct_to_multiset(captured@);
        }
        captured
    }

    /// Declares ids as assigned.
    pub fn assign_all(&mut self, ids: &Vec<ConstantIndex>)
        ensures
            final(self)@ == old(self)@.assign_all(ids@),
    {
        let mut i: usize = 0;
        assert(ids@.take(0).to_set() =~= Set::empty());
        assert(self@ =~= old(self)@.assign_all(ids@.take(0)));
        while i < ids.len()
            invariant
                i <= ids.len(),
                self@ == old(self)@.assign_all(ids@.take(i as int)),
            decreases ids.len() - i,
        {
            self.ids_assigned_in_scope.insert(ids[i]);
            proof {
                assert(ids@.take(i + 1) =~= ids@.take(i as int).push(ids@[i as int]));
                lemma_push_to_set(ids@.take(i as int), ids@[i as int]);
            }
            i = i + 1;
            assert(self@ =~= old(self)@.assign_all(ids@.take(i as int)));
        }
        assert(ids@.take(i as int) =~= ids@);
    }

    /// Takes back one access of the id. An id that hasn't been accessed is an error.
    pub fn decrement_expression_access_for_id(&mut self, id: ConstantIndex) -> (result: Result<
        (),
        (),
    >)
        requires
            old(self)@.accesses.contains_key(id) ==> old(self)@.accesses[id] > 0,
        ensures
            result is Ok <==> old(self)@.accesses.contains_key(id),
            result is Ok ==> final(self)@ == old(self)@.take_back_access(id),
            result is Err ==> final(self)@ == old(self)@,
    {
        let count: usize = match self.expression_id_accesses.get(&id) {
            Some(count) => *count,
            None => return Err(()),
        };
        self.expression_id_accesses.insert(id, count - 1);
        Ok(())
    }

    /// Declares an id as assigned, once the value that it is assigned has been parsed. An id that
    /// the value reads before it has ever been assigned is a non-local.
    pub fn declare_assigned_id(&mut self, id: ConstantIndex)
        ensures
            final(self)@ == old(self)@.declare(id),
    {
        if self.access_count(id) > 0 && !self.ids_assigned_in_scope.contains(&id) {
            self.accessed_non_locals.insert(id);
        }
        self.ids_assigned_in_scope.insert(id);
    }

    /// Declares the ids with a positive count as non-locals, unless they have been assigned.
    pub fn finish_expressions(&mut self)
        ensures
            final(self)@ == old(self)@.finish(),
    {
        let ghost assigned = self@.assigned;
        proof {
            assert forall|entries: Seq<(ConstantIndex, usize)>|
                entries.to_set() == self@.accesses.kv_pairs() implies #[trigger] pending(
                entries,
                assigned,
            ) == self@.pending_non_locals() by {
                lemma_pending_all(entries, self@);
            }
        }
        for entry in entries: self.expression_id_accesses.iter()
            invariant
                self@.assigned == assigned,
                self@.contains_yield == old(self)@.contains_yield,
                entries.seq().unref().to_set() == old(self)@.accesses.kv_pairs(),
                entries.seq().unref().take(entries.seq().len() as int) == entries.seq().unref(),
                pending(entries.seq().unref(), assigned) == old(self)@.pending_non_locals(),
                self@.non_locals == old(self)@.non_locals.union(
                    pending(entries.seq().unref().take(entries.index()), assigned),
                ),
        {
            proof {
                lemma_pending_step(entries.seq().unref(), entries.index(), assigned);
            }
            if *entry.1 > 0 && !self.ids_assigned_in_scope.contains(entry.0) {
                self.accessed_non_locals.insert(*entry.0);
            }
        }
        self.expression_id_accesses.clear();
    }
}

/// An assignment takes back the read of its target, as in `a = 1`: no count has changed, and an id
/// that wasn't read otherwise is a local, unless it has been captured before.
pub proof fn law_assignment_takes_back_its_read(frame: FrameView, id: ConstantIndex)
    requires
        frame.access_count(id) < usize::MAX,
    ensures
        ({
            let assigned = frame.access(id).take_back_access(id).declare(id);
            &&& forall|other: ConstantIndex| #[trigger]
                assigned.access_count(other) == frame.access_count(other)
            &&& frame.access_count(id) == 0 ==> {
                &&& assigned.finish().non_locals.contains(id) == frame.non_locals.contains(id)
                &&& assigned.finish().locals().contains(id) == !frame.non_locals.contains(id)
            }
        }),
{
}

/// A read on the right-hand side is counted, as in `a = a`. If the id hasn't been assigned before,
/// it is captured, and it is no local.
pub proof fn law_read_of_assigned_id_is_captured(frame: FrameView, id: ConstantIndex)
    requires
        frame.access_count(id) < usize::MAX,
    ensures
        ({
            let read = frame.access(id).take_back_access(id).access(id);
            let after = read.declare(id).finish();
            &&& read.access_count(id) == frame.access_count(id) + 1
            &&& !frame.assigned.contains(id) ==> {
                &&& after.non_locals.contains(id)
                &&& !after.locals().contains(id)
            }
        }),
{
}

/// In a chain of assignments only the last read is counted, as in `a = a = a`. If the id hasn't
/// been assigned before, it is captured, and it is no local.
pub proof fn law_chained_assignment_captures(frame: FrameView, id: ConstantIndex)
    requires
        frame.access_count(id) < usize::MAX,
    ensures
        ({
            let first = frame.access(id).take_back_access(id);
            let second = first.access(id).take_back_access(id);
            let read = second.access(id);
            let after = read.declare(id).declare(id).finish();
            &&& read.access_count(id) == frame.access_count(id) + 1
            &&& !frame.assigned.contains(id) ==> {
                &&& after.non_locals.contains(id)
                &&& !after.locals().contains(id)
            }
        }),
{
}

/// A nested function that reads the id that is being assigned captures it from outside of the
/// function around it as well, as in `a = || a`, if the id hasn't been assigned before.
pub proof fn law_nested_read_of_assigned_id_is_captured(
    frame: FrameView,
    captured: Set<ConstantIndex>,
    id: ConstantIndex,
)
    requires
        frame.access(id).take_back_access(id).can_access(captured),
        frame.access_count(id) < usize::MAX,
        captured.contains(id),
        !frame.assigned.contains(id),
    ensures
        ({
            let read = frame.access(id).take_back_access(id).access_all(captured);
            let after = read.declare(id).finish();
            &&& after.non_locals.contains(id)
            &&& !after.locals().contains(id)
        }),
{
    let taken_back = frame.access(id).take_back_access(id);
    assert(taken_back.access_all(captured).accesses[id] == taken_back.access_count(id) + 1);
}

/// An assignment to an id that has been assigned before captures nothing, whatever its value reads.
pub proof fn law_assigned_id_stays_as_it_is(frame: FrameView, id: ConstantIndex)
    requires
        frame.assigned.contains(id),
    ensures
        frame.declare(id).non_locals == frame.non_locals,
        frame.declare(id).assigned == frame.assigned,
{
    assert(frame.assigned.insert(id) =~= frame.assigned);
}

/// Reads and assignments of one id don't affect the counts of the others.
pub proof fn law_counts_are_separate(frame: FrameView, id: ConstantIndex, other: ConstantIndex)
    requires
        id != other,
    ensures
        frame.access(id).access_count(other) == frame.access_count(other),
        frame.take_back_access(id).access_count(other) == frame.access_count(other),
        frame.assign(id).access_count(other) == frame.access_count(other),
        frame.declare(id).access_count(other) == frame.access_count(other),
{
}

/// An id that a nested function captures is captured by the function around it as well, as `a` is
/// in `(|| a) for b in 0..10`, unless the outer function assigns it.
pub proof fn law_captures_reach_outwards(
    frame: FrameView,
    captured: Set<ConstantIndex>,
    assigned: Seq<ConstantIndex>,
    id: ConstantIndex,
)
    requires
        frame.can_access(captured),
        captured.contains(id),
        !frame.assigned.contains(id),
        !assigned.contains(id),
    ensures
        frame.access_all(captured).assign_all(assigned).finish().non_locals.contains(id),
{
    let f = frame.access_all(captured).assign_all(assigned);
    assert(f.accesses[id] == frame.access_count(id) + 1);
    assert(!f.assigned.contains(id));
    assert(f.pending_non_locals().contains(id));
}

/// An id that a nested function captures and the function around it binds within the same
/// expression isn't captured from further out, as `a` isn't in `(|| a) for a in 0..10`.
pub proof fn law_assigned_id_is_not_captured(
    frame: FrameView,
    captured: Set<ConstantIndex>,
    id: ConstantIndex,
)
    ensures
        frame.access_all(captured).assign(id).finish().non_locals.contains(id)
            == frame.non_locals.contains(id),
{
}

/// What a nested function captures is available in the function around it once the expression is
/// complete: as something that it has assigned, or as something that it captures itself.
pub proof fn law_captures_are_available(
    frame: FrameView,
    captured: Set<ConstantIndex>,
    id: ConstantIndex,
)
    requires
        frame.can_access(captured),
        captured.contains(id),
    ensures
        ({
            let after = frame.access_all(captured).finish();
            after.assigned.contains(id) || after.non_locals.contains(id)
        }),
{
    let f = frame.access_all(captured);
    assert(f.accesses[id] == frame.access_count(id) + 1);
    if !frame.assigned.contains(id) {
        assert(f.pending_non_locals().contains(id));
    }
}

/// A local stays one, whatever happens to the frame.
pub proof fn law_local_stays_local(frame: FrameView, id: ConstantIndex, other: ConstantIndex)
    requires
        frame.locals().contains(id),
    ensures
        frame.access(other).locals().contains(id),
        frame.take_back_access(other).locals().contains(id),
        frame.assign(other).locals().contains(id),
        frame.declare(other).locals().contains(id),
        frame.finish().locals().contains(id),
{
}

/// An id that is captured stays captured, and never counts as a local.
pub proof fn law_captured_is_never_local(frame: FrameView, id: ConstantIndex, other: ConstantIndex)
    requires
        frame.non_locals.contains(id),
    ensures
        !frame.locals().contains(id),
        frame.access(other).non_locals.contains(id),
        frame.take_back_access(other).non_locals.contains(id),
        frame.assign(other).non_locals.contains(id),
        frame.declare(other).non_locals.contains(id),
        frame.finish().non_locals.contains(id),
{
}

/// A complete expression leaves no counts, and completing it again changes nothing.
pub proof fn law_finish(frame: FrameView)
    ensures
        forall|id: ConstantIndex| #[trigger] frame.finish().access_count(id) == 0,
        frame.finish().assigned == frame.assigned,
        frame.finish().finish() == frame.finish(),
{
    assert(frame.finish().pending_non_locals() =~= Set::empty());
    assert(frame.finish().finish() =~= frame.finish());
}

/// A new frame knows nothing: no yield, no id.
pub proof fn law_new_frame(id: ConstantIndex)
    ensures
        ({
            let frame = FrameView::empty();
            &&& !frame.contains_yield
            &&& !frame.assigned.contains(id)
            &&& !frame.non_locals.contains(id)
            &&& frame.access_count(id) == 0
            &&& !frame.accesses.contains_key(id)
            &&& !frame.locals().contains(id)
        }),
{
}

/// Whether a frame contains a yield has nothing to do with its ids: no read and no assignment
/// changes it, and neither does the end of an expression.
pub proof fn law_ids_are_no_yield(
    frame: FrameView,
    id: ConstantIndex,
    ids: Set<ConstantIndex>,
    list: Seq<ConstantIndex>,
)
    ensures
        frame.access(id).contains_yield == frame.contains_yield,
        frame.access_all(ids).contains_yield == frame.contains_yield,
        frame.take_back_access(id).contains_yield == frame.contains_yield,
        frame.assign(id).contains_yield == frame.contains_yield,
        frame.assign_all(list).contains_yield == frame.contains_yield,
        frame.declare(id).contains_yield == frame.contains_yield,
        frame.finish().contains_yield == frame.contains_yield,
{
}

/// A read counts once and assigns nothing. Taking it back undoes it.
pub proof fn law_read(frame: FrameView, id: ConstantIndex)
    requires
        frame.access_count(id) < usize::MAX,
    ensures
        ({
            let read = frame.access(id);
            let back = read.take_back_access(id);
            &&& read.access_count(id) == frame.access_count(id) + 1
            &&& read.accesses.contains_key(id)
            &&& read.assigned == frame.assigned
            &&& read.non_locals == frame.non_locals
            &&& back.access_count(id) == frame.access_count(id)
            &&& back.assigned == frame.assigned
            &&& back.non_locals == frame.non_locals
        }),
{
}

/// What a nested function captures counts as one read of each of its ids, and as nothing else.
pub proof fn law_nested_reads(frame: FrameView, ids: Set<ConstantIndex>, id: ConstantIndex)
    requires
        frame.can_access(ids),
    ensures
        ({
            let read = frame.access_all(ids);
            &&& ids.contains(id) ==> read.access_count(id) == frame.access_count(id) + 1
            &&& !ids.contains(id) ==> read.access_count(id) == frame.access_count(id)
            &&& read.assigned == frame.assigned
            &&& read.non_locals == frame.non_locals
        }),
{
    let read = frame.access_all(ids);
    if ids.contains(id) {
        assert(read.accesses.contains_key(id));
        assert(frame.access_count(id) < usize::MAX);
    }
}

/// One read of an id is what a nested function that captures only that id amounts to.
pub proof fn law_nested_read_of_one_id(frame: FrameView, id: ConstantIndex)
    ensures
        frame.access_all(set![id]) == frame.access(id),
        frame.can_access(set![id]) <==> frame.access_count(id) < usize::MAX,
{
    assert(frame.access_all(set![id]).accesses =~= frame.access(id).accesses);
    if frame.can_access(set![id]) {
        assert(set![id].contains(id));
    }
}

/// An assignment adds its id to those that have been assigned and touches no other, and neither
/// reads nor captures anything. Assigning several ids is assigning each of them.
pub proof fn law_assigned_ids(
    frame: FrameView,
    id: ConstantIndex,
    ids: Seq<ConstantIndex>,
    other: ConstantIndex,
)
    ensures
        frame.assign(id).assigned.contains(other) <==> frame.assigned.contains(other) || other
            == id,
        frame.assign(id).non_locals == frame.non_locals,
        frame.assign(id).accesses == frame.accesses,
        frame.assign_all(ids).assigned.contains(other) <==> frame.assigned.contains(other)
            || ids.contains(other),
        frame.assign_all(ids).non_locals == frame.non_locals,
        frame.assign_all(ids).accesses == frame.accesses,
        frame.declare(id).assigned == frame.assign(id).assigned,
        frame.declare(id).accesses == frame.accesses,
{
}

/// A complete assignment captures its id exactly if its value reads it and the function hasn't
/// assigned it before. It captures no other id.
pub proof fn law_declared_captures(frame: FrameView, id: ConstantIndex, other: ConstantIndex)
    ensures
        frame.declare(id).non_locals.contains(other) <==> {
            ||| frame.non_locals.contains(other)
            ||| other == id && frame.access_count(id) > 0 && !frame.assigned.contains(id)
        },
{
}

/// A complete expression captures exactly the ids that it has read more often than it has assigned
/// them and that the function hasn't assigned.
pub proof fn law_finished_captures(frame: FrameView, id: ConstantIndex)
    ensures
        frame.finish().non_locals.contains(id) <==> {
            ||| frame.non_locals.contains(id)
            ||| frame.access_count(id) > 0 && !frame.assigned.contains(id)
        },
        frame.pending_non_locals().contains(id) <==> frame.access_count(id) > 0
            && !frame.assigned.contains(id),
{
}

/// The locals of a frame are the ids that it has assigned and doesn't capture.
pub proof fn law_locals(frame: FrameView, id: ConstantIndex)
    ensures
        frame.locals().contains(id) <==> frame.assigned.contains(id) && !frame.non_locals.contains(
            id,
        ),
{
}

/// A function captures each of its non-locals once, and nothing else.
pub proof fn law_captures_once(frame: FrameView, id: ConstantIndex)
    requires
        frame.non_locals.finite(),
    ensures
        frame.captures().count(id) == (if frame.non_locals.contains(id) {
            1nat
        } else {
            0nat
        }),
{
    broadcast use vstd::multiset::group_multiset_axioms;

    assert(once(frame.non_locals).dom() =~= frame.non_locals);
}

/// The view of a frame is what its fields hold.
pub proof fn law_frame_view(frame: Frame)
    ensures
        frame@.contains_yield == frame.contains_yield,
        frame@.assigned == frame.ids_assigned_in_scope@,
        frame@.non_locals == frame.accessed_non_locals@,
        frame@.accesses == frame.expression_id_accesses@,
{
}

/// The ids with a positive count that have not been assigned.
spec fn pending(entries: Seq<(ConstantIndex, usize)>, assigned: Set<ConstantIndex>) -> Set<
    ConstantIndex,
> {
    Set::new(
        |id: ConstantIndex|
            exists|i: int|
                0 <= i < entries.len() && (#[trigger] entries[i]).0 == id && entries[i].1 > 0
                    && !assigned.contains(id),
    )
}

proof fn lemma_pending_step(
    entries: Seq<(ConstantIndex, usize)>,
    n: int,
    assigned: Set<ConstantIndex>,
)
    requires
        0 <= n < entries.len(),
    ensures
        pending(entries.take(n + 1), assigned) == (if entries[n].1 > 0 && !assigned.contains(
            entries[n].0,
        ) {
            pending(entries.take(n), assigned).insert(entries[n].0)
        } else {
            pending(entries.take(n), assigned)
        }),
{
    let before = entries.take(n);
    let after = entries.take(n + 1);
    assert(after[n] == entries[n]);
    assert forall|id: ConstantIndex| pending(before, assigned).contains(id) implies pending(
        after,
        assigned,
    ).contains(id) by {
        let i = choose|i: int|
            0 <= i < before.len() && (#[trigger] before[i]).0 == id && before[i].1 > 0
                && !assigned.contains(id);
        assert(after[i] == before[i]);
    }
    assert forall|id: ConstantIndex|
        pending(after, assigned).contains(id) && id != entries[n].0 implies pending(
        before,
        assigned,
    ).contains(id) by {
        let i = choose|i: int|
            0 <= i < after.len() && (#[trigger] after[i]).0 == id && after[i].1 > 0
                && !assigned.contains(id);
        assert(before[i] == after[i]);
    }
    if !(entries[n].1 > 0 && !assigned.contains(entries[n].0)) {
        assert forall|id: ConstantIndex| pending(after, assigned).contains(id) implies pending(
            before,
            assigned,
        ).contains(id) by {
            let i = choose|i: int|
                0 <= i < after.len() && (#[trigger] after[i]).0 == id && after[i].1 > 0
                    && !assigned.contains(id);
            assert(i < n);
            assert(before[i] == after[i]);
        }
        assert(pending(after, assigned) =~= pending(before, assigned));
    } else {
        assert(pending(after, assigned) =~= pending(before, assigned).insert(entries[n].0));
    }
}

proof fn lemma_pending_all(entries: Seq<(ConstantIndex, usize)>, frame: FrameView)
    requires
        entries.to_set() == frame.accesses.kv_pairs(),
    ensures
        pending(entries, frame.assigned) == frame.pending_non_locals(),
{
    assert forall|id: ConstantIndex|
        pending(entries, frame.assigned).contains(id)
            <==> frame.pending_non_locals().contains(id) by {
        if pending(entries, frame.assigned).contains(id) {
            let i = choose|i: int|
                0 <= i < entries.len() && (#[trigger] entries[i]).0 == id && entries[i].1 > 0
                    && !frame.assigned.contains(id);
            assert(entries.to_set().contains(entries[i]));
            assert(frame.accesses.kv_pairs().contains(entries[i]));
        }
        if frame.pending_non_locals().contains(id) {
            assert(frame.accesses.kv_pairs().contains((id, frame.accesses[id])));
            assert(entries.to_set().contains((id, frame.accesses[id])));
            let i = choose|i: int| 0 <= i < entries.len() && entries[i] == (id, frame.accesses[id]);
            assert(entries[i].0 == id);
        }
    }
    assert(pending(entries, frame.assigned) =~= frame.pending_non_locals());
}

proof fn lemma_take_step(ids: Seq<ConstantIndex>, n: int)
    requires
        ids.no_duplicates(),
        0 <= n < ids.len(),
    ensures
        ids.take(n + 1).to_set() == ids.take(n).to_set().insert(ids[n]),
        !ids.take(n).to_set().contains(ids[n]),
        ids.to_set().contains(ids[n]),
{
    assert(ids.take(n + 1) =~= ids.take(n).push(ids[n]));
    lemma_push_to_set(ids.take(n), ids[n]);
    if ids.take(n).to_set().contains(ids[n]) {
        let i = choose|i: int| 0 <= i < n && ids.take(n)[i] == ids[n];
        assert(ids[i] == ids[n]);
    }
}

proof fn lemma_distinct_to_multiset(s: Seq<ConstantIndex>)
    requires
        s.no_duplicates(),
    ensures
        s.to_multiset() == Multiset::from_map(once(s.to_set())),
{
    broadcast use {vstd::multiset::group_multiset_axioms, vstd::seq_lib::group_to_multiset_ensures};

    vstd::seq_lib::seq_to_set_is_finite(s);
    s.lemma_multiset_has_no_duplicates();
    assert(once(s.to_set()).dom() =~= s.to_set());
    assert forall|id: ConstantIndex| #[trigger]
        s.to_multiset().count(id) == Multiset::from_map(once(s.to_set())).count(id) by {
        if s.contains(id) {
            assert(s.to_multiset().contains(id));
            assert(once(s.to_set()).dom().contains(id));
        } else {
            assert(!once(s.to_set()).dom().contains(id));
        }
    }
    assert(s.to_multiset() =~= Multiset::from_map(once(s.to_set())));
}

proof fn lemma_push_to_set(s: Seq<ConstantIndex>, id: ConstantIndex)
    ensures
        s.push(id).to_set() == s.to_set().insert(id),
{
    assert forall|x: ConstantIndex| s.push(id).to_set().contains(x) <==> s.to_set().insert(
        id,
    ).contains(x) by {
        if s.push(id).to_set().contains(x) {
            let i = choose|i: int| 0 <= i < s.push(id).len() && s.push(id)[i] == x;
            if i < s.len() {
                assert(s[i] == x);
            }
        }
        if s.to_set().contains(x) {
            let i = choose|i: int| 0 <= i < s.len() && s[i] == x;
            assert(s.push(id)[i] == x);
        }
        assert(s.push(id)[s.len() as int] == id);
    }
    assert(s.push(id).to_set() =~= s.to_set().insert(id));
}

} // verus!
