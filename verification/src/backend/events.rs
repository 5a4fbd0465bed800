//! The walk over all connections of the DNS-over-HTTP/3 backend, one pass for each.
//!
//! A walk is a sequence of pieces of outside work: [`DoH3Backend::begin_events`] names the first one
//! and [`DoH3Backend::advance_events`] takes the outcome of one and names the next.

use crate::backend::connection;
use crate::backend::connection::{ConnectionOutcome, ConnectionState, ConnectionWork};
use crate::backend::doh3::DoH3Backend;
use vstd::prelude::*;

verus! {

/// A piece of outside work that a walk over the connections asks for.
pub enum BackendWork {
    /// Do this for the connection at the index. Outcome: that of the piece of work.
    Connection(usize, ConnectionWork),
    /// Take the socket of the connection at the index, whose session has ended, out of the poller.
    /// Outcome: `Done`.
    RemoveSocket(usize),
    /// The walk is over.
    Finished,
}

/// Whether `outcome` is an outcome of `work`.
pub open spec fn accepts(work: BackendWork, outcome: ConnectionOutcome) -> bool {
    match work {
        BackendWork::Connection(_, work) => connection::accepts(work, outcome),
        BackendWork::RemoveSocket(_) => outcome is Done,
        BackendWork::Finished => false,
    }
}

/// Whether a pass is not over with `work`.
pub open spec fn goes_on(work: ConnectionWork) -> bool {
    !(work is SessionEnded) && !(work is Finished)
}

/// Whether a walk may ask for `work` while the connections have `states` in hand.
pub open spec fn in_walk(states: Seq<ConnectionState>, work: BackendWork) -> bool {
    match work {
        BackendWork::Connection(index, work) => index < states.len() && goes_on(work)
            && connection::in_pass(states[index as int], work),
        BackendWork::RemoveSocket(index) => index < states.len() && states[index as int].session
            is None,
        BackendWork::Finished => true,
    }
}

/// The pass over the first connection from `from` on that has a session; connections without one are
/// left alone.
pub open spec fn next_pass(states: Seq<ConnectionState>, from: int) -> BackendWork
    decreases states.len() - from,
{
    if from >= states.len() {
        BackendWork::Finished
    } else if states[from].session is Some {
        BackendWork::Connection(from as usize, ConnectionWork::ExpireRequests)
    } else {
        next_pass(states, from + 1)
    }
}

/// What the connections have in hand, and the next piece of work, after `work` had the outcome
/// `outcome`. A connection whose session ended gives its socket back before the next one comes up.
pub open spec fn next(
    states: Seq<ConnectionState>,
    work: BackendWork,
    outcome: ConnectionOutcome,
) -> (Seq<ConnectionState>, BackendWork) {
    match work {
        BackendWork::Connection(index, work) => {
            let (state, following) = connection::next(states[index as int], work, outcome);
            let after = states.update(index as int, state);
            match following {
                ConnectionWork::SessionEnded(true) => (after, BackendWork::RemoveSocket(index)),
                ConnectionWork::SessionEnded(false)
                | ConnectionWork::Finished => (after, next_pass(after, index + 1)),
                _ => (after, BackendWork::Connection(index, following)),
            }
        },
        BackendWork::RemoveSocket(index) => (states, next_pass(states, index + 1)),
        BackendWork::Finished => (states, work),
    }
}

impl DoH3Backend {
    /// Starts a walk over the connections; names the first piece of work.
    pub fn begin_events(&self) -> (work: BackendWork)
        ensures
            work == next_pass(self.states(), 0),
            in_walk(self.states(), work),
    {
        self.pass_from(0)
    }

    /// Takes the outcome of a piece of work and names the next one.
    pub fn advance_events(&mut self, work: BackendWork, outcome: ConnectionOutcome) -> (following:
        BackendWork)
        requires
            in_walk(old(self).states(), work),
            accepts(work, outcome),
        ensures
            (final(self).states(), following) == next(old(self).states(), work, outcome),
            in_walk(final(self).states(), following),
            final(self).servers() == old(self).servers(),
    {
        // An index is below the number of connections, so the one behind it is in range.
        let _count: usize = self.connection_count();
        match work {
            BackendWork::Connection(index, work) => {
                let following = self.advance(index, work, outcome);
                match following {
                    ConnectionWork::SessionEnded(true) => BackendWork::RemoveSocket(index),
                    ConnectionWork::SessionEnded(false)
                    | ConnectionWork::Finished => self.pass_from(index + 1),
                    _ => BackendWork::Connection(index, following),
                }
            },
            BackendWork::RemoveSocket(index) => self.pass_from(index + 1),
            BackendWork::Finished => BackendWork::Finished,
        }
    }

    /// Finds the next connection that has a session.
    fn pass_from(&self, from: usize) -> (work: BackendWork)
        requires
            from <= self.states().len(),
        ensures
            work == next_pass(self.states(), from as int),
            in_walk(self.states(), work),
    {
        let count = self.connection_count();
        let mut index: usize = from;
        while index < count
            invariant
                index <= count,
                count == self.states().len(),
                count == self.servers().len(),
                next_pass(self.states(), from as int) == next_pass(self.states(), index as int),
            decreases count - index,
        {
            let work = self.begin_pass(index);
            match work {
                ConnectionWork::ExpireRequests => {
                    return BackendWork::Connection(index, work);
                },
                _ => {},
            }
            index = index + 1;
        }
        BackendWork::Finished
    }
}

/// Where a walk is after its pieces of work had these outcomes.
pub open spec fn reached(start: Seq<ConnectionState>, outcomes: Seq<ConnectionOutcome>) -> (
    Seq<ConnectionState>,
    BackendWork,
)
    decreases outcomes.len(),
{
    if outcomes.len() == 0 {
        (start, next_pass(start, 0))
    } else {
        let (states, work) = reached(start, outcomes.drop_last());
        next(states, work, outcomes.last())
    }
}

/// Whether these are the outcomes of a walk, or of the first part of one.
pub open spec fn is_walk(start: Seq<ConnectionState>, outcomes: Seq<ConnectionOutcome>) -> bool
    decreases outcomes.len(),
{
    outcomes.len() == 0 || {
        let work = reached(start, outcomes.drop_last()).1;
        &&& is_walk(start, outcomes.drop_last())
        &&& accepts(work, outcomes.last())
    }
}

/// The index at which a pass begins with `work`, if one does.
pub open spec fn begins(work: BackendWork) -> Seq<int> {
    match work {
        BackendWork::Connection(index, ConnectionWork::ExpireRequests) => seq![index as int],
        _ => Seq::empty(),
    }
}

/// The indices at which passes began, in their order.
pub open spec fn passes(start: Seq<ConnectionState>, outcomes: Seq<ConnectionOutcome>) -> Seq<int>
    decreases outcomes.len(),
{
    if outcomes.len() == 0 {
        begins(reached(start, outcomes).1)
    } else {
        passes(start, outcomes.drop_last()) + begins(reached(start, outcomes).1)
    }
}

/// The indices in front of `count` of the connections that have a session, in their order.
pub open spec fn with_session(states: Seq<ConnectionState>, count: int) -> Seq<int>
    decreases count,
{
    if count <= 0 {
        Seq::empty()
    } else if states[count - 1].session is Some {
        with_session(states, count - 1).push(count - 1)
    } else {
        with_session(states, count - 1)
    }
}

/// The connections in front of this index have had their turn.
pub open spec fn done_before(states: Seq<ConnectionState>, work: BackendWork) -> int {
    match work {
        BackendWork::Connection(index, _) => index + 1,
        BackendWork::RemoveSocket(index) => index + 1,
        BackendWork::Finished => states.len() as int,
    }
}

/// What the search for the next pass finds.
proof fn lemma_next_pass(states: Seq<ConnectionState>, from: int)
    requires
        0 <= from <= states.len() <= usize::MAX,
    ensures
        ({
            let work = next_pass(states, from);
            &&& in_walk(states, work)
            &&& !(work is RemoveSocket)
            &&& from <= done_before(states, work) <= states.len()
            &&& work is Connection ==> from < done_before(states, work)
            &&& with_session(states, done_before(states, work)) == with_session(states, from)
                + begins(work)
        }),
    decreases states.len() - from,
{
    if from < states.len() && states[from].session is None {
        lemma_next_pass(states, from + 1);
        assert(with_session(states, from + 1) == with_session(states, from));
    } else if from < states.len() {
        assert(with_session(states, from + 1) == with_session(states, from).push(from));
        assert(with_session(states, from).push(from) =~= with_session(states, from) + seq![from]);
    } else {
        assert(with_session(states, from) + Seq::empty() =~= with_session(states, from));
    }
}

/// The search for the next pass sees the connections from `from` on alone.
proof fn lemma_same_next_pass(
    first: Seq<ConnectionState>,
    second: Seq<ConnectionState>,
    from: int,
)
    requires
        0 <= from,
        first.len() == second.len(),
        forall|i: int| from <= i < first.len() ==> #[trigger] first[i] == second[i],
    ensures
        next_pass(first, from) == next_pass(second, from),
    decreases first.len() - from,
{
    if from < first.len() {
        assert(first[from] == second[from]);
        lemma_same_next_pass(first, second, from + 1);
    }
}

/// What holds wherever a walk is: it asks for what it may ask for, the connections that come later
/// are untouched, and a pass began over each connection in front that had a session.
spec fn on_course(start: Seq<ConnectionState>, outcomes: Seq<ConnectionOutcome>) -> bool {
    let (states, work) = reached(start, outcomes);
    &&& states.len() == start.len()
    &&& in_walk(states, work)
    &&& 0 <= done_before(states, work) <= start.len()
    &&& forall|i: int|
        done_before(states, work) <= i < start.len() ==> #[trigger] states[i] == start[i]
    &&& passes(start, outcomes) == with_session(start, done_before(states, work))
    &&& work matches BackendWork::Connection(index, ConnectionWork::ExpireRequests)
        ==> states[index as int] == start[index as int]
}

proof fn lemma_on_course(start: Seq<ConnectionState>, outcomes: Seq<ConnectionOutcome>)
    requires
        start.len() <= usize::MAX,
        is_walk(start, outcomes),
    ensures
        on_course(start, outcomes),
    decreases outcomes.len(),
{
    if outcomes.len() == 0 {
        lemma_next_pass(start, 0);
        assert(with_session(start, 0) + begins(next_pass(start, 0)) =~= begins(
            next_pass(start, 0),
        ));
    } else {
        let before = outcomes.drop_last();
        lemma_on_course(start, before);
        let (states, work) = reached(start, before);
        let (after, following) = reached(start, outcomes);
        let from = done_before(states, work);
        assert(forall|i: int| from <= i < start.len() ==> #[trigger] after[i] == states[i]);
        if following == next_pass(after, from) {
            lemma_same_next_pass(after, start, from);
            lemma_next_pass(start, from);
            lemma_next_pass(after, from);
        } else {
            assert(passes(start, before) + begins(following) =~= passes(start, before));
        }
    }
}

/// Every connection that has a session gets one pass in a walk, and no other one does: once a walk is
/// over, its passes are those over the connections that had a session at its start, in their order.
pub proof fn law_each_connection_gets_one_pass(
    start: Seq<ConnectionState>,
    outcomes: Seq<ConnectionOutcome>,
)
    requires
        start.len() <= usize::MAX,
        is_walk(start, outcomes),
        reached(start, outcomes).1 is Finished,
    ensures
        passes(start, outcomes) == with_session(start, start.len() as int),
{
    lemma_on_course(start, outcomes);
}

/// A connection is as it was at the start of the walk when its pass begins.
pub proof fn law_pass_begins_untouched(
    start: Seq<ConnectionState>,
    outcomes: Seq<ConnectionOutcome>,
    index: usize,
)
    requires
        start.len() <= usize::MAX,
        is_walk(start, outcomes),
        reached(start, outcomes).1 == BackendWork::Connection(
            index,
            ConnectionWork::ExpireRequests,
        ),
    ensures
        index < start.len(),
        reached(start, outcomes).0[index as int] == start[index as int],
{
    lemma_on_course(start, outcomes);
}

/// The connections with a session are those, each of them once, in their order.
pub proof fn law_connections_with_session(states: Seq<ConnectionState>, count: int)
    requires
        0 <= count <= states.len(),
    ensures
        forall|i: int|
            0 <= i < count ==> (with_session(states, count).contains(i) <==> (
            #[trigger] states[i]).session is Some),
        forall|k: int|
            0 <= k < with_session(states, count).len() ==> 0 <= #[trigger] with_session(
                states,
                count,
            )[k] < count,
        forall|k: int, l: int|
            0 <= k < l < with_session(states, count).len() ==> (#[trigger] with_session(
                states,
                count,
            )[k]) < (#[trigger] with_session(states, count)[l]),
    decreases count,
{
    if count > 0 {
        let all = with_session(states, count);
        let front = with_session(states, count - 1);
        law_connections_with_session(states, count - 1);
        assert forall|i: int| 0 <= i < count implies (all.contains(i) <==> (
        #[trigger] states[i]).session is Some) by {
            if i < count - 1 {
                if front.contains(i) {
                    let k = choose|k: int| 0 <= k < front.len() && front[k] == i;
                    assert(all[k] == i);
                }
                if all.contains(i) {
                    let k = choose|k: int| 0 <= k < all.len() && all[k] == i;
                    assert(front[k] == i);
                }
            } else {
                if states[i].session is Some {
                    assert(all[front.len() as int] == i);
                } else if all.contains(i) {
                    let k = choose|k: int| 0 <= k < all.len() && all[k] == i;
                    assert(front[k] == i);
                }
            }
        }
        assert forall|k: int| 0 <= k < all.len() implies 0 <= #[trigger] all[k] < count by {
            if k < front.len() {
                assert(all[k] == front[k]);
            }
        }
        assert forall|k: int, l: int| 0 <= k < l < all.len() implies (#[trigger] all[k]) < (
        #[trigger] all[l]) by {
            assert(all[k] == front[k]);
            if l < front.len() {
                assert(all[l] == front[l]);
            }
        }
    }
}

/// A socket is removed exactly if the session of its connection has just ended and leaves a socket
/// behind.
pub proof fn law_sockets_are_removed(
    states: Seq<ConnectionState>,
    work: BackendWork,
    outcome: ConnectionOutcome,
    index: usize,
)
    requires
        states.len() <= usize::MAX,
        in_walk(states, work),
        accepts(work, outcome),
    ensures
        next(states, work, outcome).1 == BackendWork::RemoveSocket(index) <==> {
            &&& work matches BackendWork::Connection(current, pass)
            &&& current == index
            &&& connection::next(states[index as int], pass, outcome).1
                == ConnectionWork::SessionEnded(true)
        },
{
    let from = done_before(states, work);
    lemma_next_pass(next(states, work, outcome).0, from);
}

/// A walk changes the connection that it works for, and no other one; it never goes back.
pub proof fn law_walk_works_for_one_connection(
    states: Seq<ConnectionState>,
    work: BackendWork,
    outcome: ConnectionOutcome,
)
    requires
        states.len() <= usize::MAX,
        in_walk(states, work),
        accepts(work, outcome),
    ensures
        ({
            let (after, following) = next(states, work, outcome);
            &&& after.len() == states.len()
            &&& done_before(states, work) <= done_before(after, following)
            &&& forall|i: int|
                0 <= i < states.len() && i != done_before(states, work) - 1 ==> #[trigger] after[i]
                    == states[i]
        }),
{
    let from = done_before(states, work);
    lemma_next_pass(next(states, work, outcome).0, from);
}

/// A walk starts with the first connection that has a session, if there is one.
pub proof fn law_walk_starts_with_first_session(states: Seq<ConnectionState>, first: int)
    requires
        0 <= first < states.len() <= usize::MAX,
        states[first].session is Some,
        forall|i: int| 0 <= i < first ==> (#[trigger] states[i]).session is None,
    ensures
        next_pass(states, 0) == BackendWork::Connection(
            first as usize,
            ConnectionWork::ExpireRequests,
        ),
{
    lemma_first_session(states, 0, first);
}

/// Without a session there is nothing to do.
pub proof fn law_no_walk_without_sessions(states: Seq<ConnectionState>, from: int)
    requires
        0 <= from <= states.len(),
        forall|i: int| from <= i < states.len() ==> (#[trigger] states[i]).session is None,
    ensures
        next_pass(states, from) == BackendWork::Finished,
    decreases states.len() - from,
{
    if from < states.len() {
        assert(states[from].session is None);
        law_no_walk_without_sessions(states, from + 1);
    }
}

proof fn lemma_first_session(states: Seq<ConnectionState>, from: int, first: int)
    requires
        0 <= from <= first < states.len(),
        states[first].session is Some,
        forall|i: int| from <= i < first ==> (#[trigger] states[i]).session is None,
    ensures
        next_pass(states, from) == BackendWork::Connection(
            first as usize,
            ConnectionWork::ExpireRequests,
        ),
    decreases first - from,
{
    if from < first {
        assert(states[from].session is None);
        lemma_first_session(states, from + 1, first);
    }
}

/// A walk does for a connection what its pass asks for: the state of the connection and the next piece
/// of work are those of the pass, until the pass is over. A connection that gives no socket back, or
/// that gave it back, is followed by the next one that has a session.
pub proof fn law_walk_follows_the_passes(
    states: Seq<ConnectionState>,
    index: usize,
    work: ConnectionWork,
    outcome: ConnectionOutcome,
    following_index: int,
)
    requires
        index < states.len() <= usize::MAX,
    ensures
        ({
            let (state, following) = connection::next(states[index as int], work, outcome);
            let (after, asked) = next(states, BackendWork::Connection(index, work), outcome);
            &&& after == states.update(index as int, state)
            &&& !(following is SessionEnded) && !(following is Finished) ==> asked
                == BackendWork::Connection(index, following)
            &&& following == ConnectionWork::SessionEnded(true) ==> asked
                == BackendWork::RemoveSocket(index)
            &&& following == ConnectionWork::SessionEnded(false) || following is Finished ==> {
                &&& index < following_index < states.len() && states[following_index].session
                    is Some && (forall|i: int|
                    index < i < following_index ==> (#[trigger] states[i]).session is None)
                    ==> asked == BackendWork::Connection(
                    following_index as usize,
                    ConnectionWork::ExpireRequests,
                )
                &&& (forall|i: int|
                    index < i < states.len() ==> (#[trigger] states[i]).session is None) ==> asked
                    == BackendWork::Finished
            }
        }),
        ({
            let (after, asked) = next(
                states,
                BackendWork::RemoveSocket(index),
                ConnectionOutcome::Done,
            );
            &&& after == states
            &&& index < following_index < states.len() && states[following_index].session is Some
                && (forall|i: int|
                index < i < following_index ==> (#[trigger] states[i]).session is None) ==> asked
                == BackendWork::Connection(
                following_index as usize,
                ConnectionWork::ExpireRequests,
            )
            &&& (forall|i: int|
                index < i < states.len() ==> (#[trigger] states[i]).session is None) ==> asked
                == BackendWork::Finished
        }),
{
    let after = next(states, BackendWork::Connection(index, work), outcome).0;
    assert(forall|i: int| index < i < states.len() ==> #[trigger] after[i] == states[i]);
    lemma_same_next_pass(after, states, index + 1);
    if index < following_index < states.len() && states[following_index].session is Some && (forall|
        i: int,
    |
        index < i < following_index ==> (#[trigger] states[i]).session is None) {
        lemma_first_session(states, index + 1, following_index);
    }
    if forall|i: int| index < i < states.len() ==> (#[trigger] states[i]).session is None {
        law_no_walk_without_sessions(states, index + 1);
    }
}

/// Every outcome that a pass takes is one that the walk takes.
pub proof fn law_walk_takes_every_outcome(
    index: usize,
    work: ConnectionWork,
    outcome: ConnectionOutcome,
)
    ensures
        accepts(BackendWork::Connection(index, work), outcome) <==> connection::accepts(
            work,
            outcome,
        ),
        accepts(BackendWork::RemoveSocket(index), ConnectionOutcome::Done),
{
}

} // verus!
