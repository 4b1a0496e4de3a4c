//! Identifier allocation with reuse of released identifiers.
//!
//! Identifiers start at 1. A released identifier that equals the high-water
//! mark lowers the mark; any other released identifier goes onto a stack and is
//! handed out again before the mark is raised.

use vstd::prelude::*;

verus! {

/// Mathematical state of an identifier generator.
pub struct NumGenState {
    /// Highest identifier handed out by raising the mark and not yet taken back.
    pub last_used: nat,
    /// Released identifiers awaiting reuse; the last one is reused first.
    pub freed: Seq<u64>,
}

impl NumGenState {
    /// The state of a generator that has issued nothing.
    pub open spec fn initial() -> NumGenState {
        NumGenState { last_used: 0, freed: Seq::empty() }
    }

    /// Every released identifier lies in `1..=last_used` and occurs once.
    pub open spec fn wf(self) -> bool {
        &&& self.last_used <= u64::MAX
        &&& self.freed.no_duplicates()
        &&& forall|i: int| 0 <= i < self.freed.len() ==> 1 <= #[trigger] self.freed[i] <= self.last_used
    }

    /// `id` is currently held by somebody.
    pub open spec fn is_live(self, id: u64) -> bool {
        1 <= id <= self.last_used && !self.freed.contains(id)
    }

    /// The identifiers currently held.
    pub open spec fn live(self) -> Set<u64> {
        Set::new(|id: u64| self.is_live(id))
    }

    /// An identifier can be issued without running out of 64-bit numbers.
    pub open spec fn can_issue(self) -> bool {
        self.freed.len() > 0 || self.last_used < u64::MAX
    }

    /// The identifier that the next request receives.
    pub open spec fn next_id(self) -> u64 {
        if self.freed.len() > 0 {
            self.freed.last()
        } else {
            (self.last_used + 1) as u64
        }
    }

    /// The state after the next request.
    pub open spec fn after_next(self) -> NumGenState {
        if self.freed.len() > 0 {
            NumGenState { last_used: self.last_used, freed: self.freed.drop_last() }
        } else {
            NumGenState { last_used: self.last_used + 1, freed: self.freed }
        }
    }

    /// The state after `id` is released.
    pub open spec fn after_free(self, id: u64) -> NumGenState {
        if id == self.last_used {
            NumGenState { last_used: (self.last_used - 1) as nat, freed: self.freed }
        } else {
            NumGenState { last_used: self.last_used, freed: self.freed.push(id) }
        }
    }
}

/// One call made on a generator.
pub enum NumGenOp {
    /// A request for an identifier.
    Next,
    /// The release of an identifier.
    Free(u64),
}

/// Every release in `ops`, applied in order from `s`, names an identifier that
/// is held at that moment, and every request can be served.
pub open spec fn valid_trace(s: NumGenState, ops: Seq<NumGenOp>) -> bool
    decreases ops.len(),
{
    if ops.len() == 0 {
        true
    } else {
        match ops[0] {
            NumGenOp::Next => s.can_issue() && valid_trace(s.after_next(), ops.drop_first()),
            NumGenOp::Free(id) => s.is_live(id) && valid_trace(s.after_free(id), ops.drop_first()),
        }
    }
}

/// The state reached from `s` by the calls in `ops`.
pub open spec fn run_trace(s: NumGenState, ops: Seq<NumGenOp>) -> NumGenState
    decreases ops.len(),
{
    if ops.len() == 0 {
        s
    } else {
        match ops[0] {
            NumGenOp::Next => run_trace(s.after_next(), ops.drop_first()),
            NumGenOp::Free(id) => run_trace(s.after_free(id), ops.drop_first()),
        }
    }
}

/// A request hands out an identifier that nobody holds, never zero, and the
/// holder set grows by exactly that identifier.
pub proof fn lemma_next_is_fresh(s: NumGenState)
    requires
        s.wf(),
        s.can_issue(),
    ensures
        s.next_id() >= 1,
        !s.is_live(s.next_id()),
        s.after_next().wf(),
        s.after_next().live() == s.live().insert(s.next_id()),
{
    let id = s.next_id();
    let t = s.after_next();
    if s.freed.len() > 0 {
        let last = s.freed.len() - 1;
        assert(s.freed[last] == id);
        assert(s.freed.contains(id));
        assert forall|i: int| 0 <= i < t.freed.len() implies 1 <= #[trigger] t.freed[i]
            <= t.last_used by {
            assert(t.freed[i] == s.freed[i]);
        }
        assert forall|x: u64| t.is_live(x) <==> (s.is_live(x) || x == id) by {
            if t.freed.contains(x) {
                let j = choose|j: int| 0 <= j < t.freed.len() && t.freed[j] == x;
                assert(s.freed[j] == x);
            }
            if s.freed.contains(x) && x != id {
                let j = choose|j: int| 0 <= j < s.freed.len() && s.freed[j] == x;
                assert(j != last);
                assert(t.freed[j] == x);
            }
            if x == id {
                if t.freed.contains(x) {
                    let j = choose|j: int| 0 <= j < t.freed.len() && t.freed[j] == x;
                    assert(s.freed[j] == s.freed[last]);
                }
            }
        }
    } else {
        assert forall|x: u64| t.is_live(x) <==> (s.is_live(x) || x == id) by {}
    }
    assert(t.live() =~= s.live().insert(id));
}

/// A release of a held identifier removes exactly that identifier from the
/// holder set.
pub proof fn lemma_free_releases(s: NumGenState, id: u64)
    requires
        s.wf(),
        s.is_live(id),
    ensures
        s.after_free(id).wf(),
        !s.after_free(id).is_live(id),
        s.after_free(id).live() == s.live().remove(id),
{
    let t = s.after_free(id);
    if id == s.last_used {
        assert forall|i: int| 0 <= i < t.freed.len() implies 1 <= #[trigger] t.freed[i]
            <= t.last_used by {
            assert(s.freed.contains(s.freed[i]));
        }
        assert forall|x: u64| t.is_live(x) <==> (s.is_live(x) && x != id) by {}
    } else {
        assert forall|i: int, j: int|
            0 <= i < t.freed.len() && 0 <= j < t.freed.len() && i != j implies t.freed[i]
            != t.freed[j] by {
            if i < s.freed.len() {
                assert(s.freed.contains(s.freed[i]));
            }
            if j < s.freed.len() {
                assert(s.freed.contains(s.freed[j]));
            }
        }
        assert(t.freed[s.freed.len() as int] == id);
        assert forall|x: u64| t.is_live(x) <==> (s.is_live(x) && x != id) by {
            if s.freed.contains(x) {
                let j = choose|j: int| 0 <= j < s.freed.len() && s.freed[j] == x;
                assert(t.freed[j] == x);
            }
            if t.freed.contains(x) && x != id {
                let j = choose|j: int| 0 <= j < t.freed.len() && t.freed[j] == x;
                assert(s.freed[j] == x);
            }
        }
    }
    assert(t.live() =~= s.live().remove(id));
}

/// After any sequence of requests and releases of held identifiers, starting
/// from a generator that has issued nothing, the identifier that the next
/// request would receive is held by nobody: no identifier is ever held twice.
pub proof fn law_no_identifier_held_twice(ops: Seq<NumGenOp>)
    requires
        valid_trace(NumGenState::initial(), ops),
        run_trace(NumGenState::initial(), ops).can_issue(),
    ensures
        run_trace(NumGenState::initial(), ops).wf(),
        !run_trace(NumGenState::initial(), ops).is_live(
            run_trace(NumGenState::initial(), ops).next_id(),
        ),
{
    lemma_trace_keeps_wf(NumGenState::initial(), ops);
    lemma_next_is_fresh(run_trace(NumGenState::initial(), ops));
}

/// A valid sequence of calls leads from a well-formed state to a well-formed
/// state.
pub proof fn lemma_trace_keeps_wf(s: NumGenState, ops: Seq<NumGenOp>)
    requires
        s.wf(),
        valid_trace(s, ops),
    ensures
        run_trace(s, ops).wf(),
    decreases ops.len(),
{
    if ops.len() > 0 {
        match ops[0] {
            NumGenOp::Next => {
                lemma_next_is_fresh(s);
                lemma_trace_keeps_wf(s.after_next(), ops.drop_first());
            },
            NumGenOp::Free(id) => {
                lemma_free_releases(s, id);
                lemma_trace_keeps_wf(s.after_free(id), ops.drop_first());
            },
        }
    }
}

/// Releasing a held identifier and asking again returns that identifier and
/// restores the generator exactly, so nothing new is allocated. The one case
/// left out is a release that lowers the mark while older released
/// identifiers are still waiting: those are reused first.
pub proof fn law_release_then_request_returns_same(s: NumGenState, id: u64)
    requires
        s.wf(),
        s.is_live(id),
        !(id == s.last_used && s.freed.len() > 0),
    ensures
        s.after_free(id).can_issue(),
        s.after_free(id).next_id() == id,
        s.after_free(id).after_next() == s,
{
    let t = s.after_free(id);
    if id == s.last_used {
        assert(t.after_next().freed =~= s.freed);
    } else {
        assert(t.freed.drop_last() =~= s.freed);
    }
}

/// A released identifier below the mark is handed out again by the very next
/// request, before the mark is raised to any identifier never used so far.
pub proof fn law_released_id_reused_before_fresh(s: NumGenState, id: u64)
    requires
        s.wf(),
        s.is_live(id),
        id != s.last_used,
    ensures
        s.after_free(id).next_id() == id,
        s.after_free(id).after_next().last_used == s.last_used,
        id < s.last_used,
{
}

/// While released identifiers wait, a request never raises the mark.
pub proof fn law_reuse_precedes_growth(s: NumGenState)
    requires
        s.wf(),
        s.freed.len() > 0,
    ensures
        s.next_id() <= s.last_used,
        s.after_next().last_used == s.last_used,
{
    assert(s.freed[s.freed.len() - 1] <= s.last_used);
}

/// Generator of unique 64-bit identifiers.
pub struct IncrementalNumGenerator {
    last_used: u64,
    freed: Vec<u64>,
}

impl View for IncrementalNumGenerator {
    type V = NumGenState;

    closed spec fn view(&self) -> NumGenState {
        NumGenState { last_used: self.last_used as nat, freed: self.freed@ }
    }
}

impl IncrementalNumGenerator {
    /// A generator that has issued nothing; its first identifier is 1.
    #[must_use]
    pub fn new() -> (r: Self)
        ensures
            r@ == NumGenState::initial(),
            r@.wf(),
    {
        Self { last_used: 0, freed: Vec::new() }
    }

    /// Issues an identifier: the most recently released one if any waits,
    /// otherwise one above the mark.
    #[must_use]
    pub fn next(&mut self) -> (id: u64)
        requires
            old(self)@.wf(),
            old(self)@.can_issue(),
        ensures
            id == old(self)@.next_id(),
            final(self)@ == old(self)@.after_next(),
            final(self)@.wf(),
            id >= 1,
            !old(self)@.is_live(id),
            final(self)@.live() == old(self)@.live().insert(id),
    {
        proof {
            lemma_next_is_fresh(self@);
        }
        if let Some(ret) = self.freed.pop() {
            ret
        } else {
            self.last_used += 1;
            self.last_used
        }
    }

    /// Takes back `num`, which must be held.
    pub fn free(&mut self, num: u64)
        requires
            old(self)@.wf(),
            old(self)@.is_live(num),
        ensures
            final(self)@ == old(self)@.after_free(num),
            final(self)@.wf(),
            final(self)@.live() == old(self)@.live().remove(num),
    {
        proof {
            lemma_free_releases(self@, num);
        }
        if num == self.last_used {
            self.last_used -= 1;
        } else {
            self.freed.push(num);
        }
    }

    /// Whether `next` can be called.
    pub fn can_issue(&self) -> (r: bool)
        ensures
            r == self@.can_issue(),
    {
        self.freed.len() > 0 || self.last_used < u64::MAX
    }

    /// Whether `id` is currently held.
    pub fn is_live(&self, id: u64) -> (r: bool)
        ensures
            r == self@.is_live(id),
    {
        if id < 1 || id > self.last_used {
            return false;
        }
        let mut i: usize = 0;
        while i < self.freed.len()
            invariant
                i <= self.freed.len(),
                forall|j: int| 0 <= j < i ==> self.freed@[j] != id,
            decreases self.freed.len() - i,
        {
            if self.freed[i] == id {
                return false;
            }
            i += 1;
        }
        true
    }
}

} // verus!
