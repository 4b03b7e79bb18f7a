//! The shared backend stream manager, as a state machine: the process holds
//! at most one backend stream; the first caller to demand it opens it,
//! concurrent callers wait, and teardown returns the manager to the absent
//! state so a later caller reopens it.
//!
//! The asynchronous shell drives this machine under its mutual-exclusion
//! guard: it feeds one event at a time and performs the returned action.
//! The sender and the inbound-dispatch task are created by the one
//! `StoreSenderAndSpawn` action and destroyed by the one `ClearSender`
//! action, so neither exists without the other.

use vstd::prelude::*;

verus! {

/// The lifecycle state of the one shared backend stream.
#[derive(Clone, Copy, PartialEq, Eq, Structural, Debug)]
pub enum StreamState {
    /// No stream and no open in flight.
    Absent,
    /// One open call is in flight; its issuer holds the guard.
    Initializing,
    /// The stream is open: the sender is stored and the single
    /// inbound-dispatch task is running.
    Open,
}

/// What the surrounding process observes.
#[derive(Clone, Copy, PartialEq, Eq, Structural, Debug)]
pub enum StreamEvent {
    /// A connection needs the stream (it has taken the guard).
    Demand,
    /// The in-flight open call returned the stream.
    OpenSucceeded,
    /// The in-flight open call failed.
    OpenFailed,
    /// The inbound-dispatch task saw the stream end, cleanly or not.
    StreamEnded,
    /// Forced teardown was requested.
    CloseRequested,
}

/// What the surrounding process must do next.
#[derive(Clone, Copy, PartialEq, Eq, Structural, Debug)]
pub enum StreamAction {
    /// Issue the one backend open call.
    StartOpen,
    /// Wait: another caller's open is already in flight.
    AwaitOpen,
    /// The stream is ready: use the stored sender.
    UseSender,
    /// Store the new sender and spawn the single inbound-dispatch task.
    StoreSenderAndSpawn,
    /// Report the open failure to the demanding caller.
    AbandonOpen,
    /// Discard the stored sender (the dispatch task winds down with it).
    ClearSender,
    /// Nothing to do in this state.
    Ignore,
}

/// One transition of the stream manager.
pub open spec fn stream_step_spec(s: StreamState, e: StreamEvent) -> (StreamState, StreamAction) {
    match (s, e) {
        (StreamState::Absent, StreamEvent::Demand) => (
            StreamState::Initializing,
            StreamAction::StartOpen,
        ),
        (StreamState::Initializing, StreamEvent::Demand) => (
            StreamState::Initializing,
            StreamAction::AwaitOpen,
        ),
        (StreamState::Open, StreamEvent::Demand) => (StreamState::Open, StreamAction::UseSender),
        (StreamState::Initializing, StreamEvent::OpenSucceeded) => (
            StreamState::Open,
            StreamAction::StoreSenderAndSpawn,
        ),
        (StreamState::Initializing, StreamEvent::OpenFailed) => (
            StreamState::Absent,
            StreamAction::AbandonOpen,
        ),
        (StreamState::Open, StreamEvent::StreamEnded) => (
            StreamState::Absent,
            StreamAction::ClearSender,
        ),
        (StreamState::Open, StreamEvent::CloseRequested) => (
            StreamState::Absent,
            StreamAction::ClearSender,
        ),
        (_, _) => (s, StreamAction::Ignore),
    }
}

/// One transition of the stream manager; the caller performs the action.
pub fn stream_step(s: StreamState, e: StreamEvent) -> (r: (StreamState, StreamAction))
    ensures
        r == stream_step_spec(s, e),
{
    match (s, e) {
        (StreamState::Absent, StreamEvent::Demand) => (
            StreamState::Initializing,
            StreamAction::StartOpen,
        ),
        (StreamState::Initializing, StreamEvent::Demand) => (
            StreamState::Initializing,
            StreamAction::AwaitOpen,
        ),
        (StreamState::Open, StreamEvent::Demand) => (StreamState::Open, StreamAction::UseSender),
        (StreamState::Initializing, StreamEvent::OpenSucceeded) => (
            StreamState::Open,
            StreamAction::StoreSenderAndSpawn,
        ),
        (StreamState::Initializing, StreamEvent::OpenFailed) => (
            StreamState::Absent,
            StreamAction::AbandonOpen,
        ),
        (StreamState::Open, StreamEvent::StreamEnded) => (
            StreamState::Absent,
            StreamAction::ClearSender,
        ),
        (StreamState::Open, StreamEvent::CloseRequested) => (
            StreamState::Absent,
            StreamAction::ClearSender,
        ),
        (_, _) => (s, StreamAction::Ignore),
    }
}

/// The state after running a sequence of events.
pub open spec fn run_steps(s0: StreamState, evs: Seq<StreamEvent>) -> StreamState
    decreases evs.len(),
{
    if evs.len() == 0 {
        s0
    } else {
        run_steps(stream_step_spec(s0, evs[0]).0, evs.skip(1))
    }
}

/// The actions a sequence of events produces, in order.
pub open spec fn actions_of(s0: StreamState, evs: Seq<StreamEvent>) -> Seq<StreamAction>
    decreases evs.len(),
{
    if evs.len() == 0 {
        Seq::empty()
    } else {
        seq![stream_step_spec(s0, evs[0]).1] + actions_of(
            stream_step_spec(s0, evs[0]).0,
            evs.skip(1),
        )
    }
}

/// How many backend open calls a sequence of events issues.
pub open spec fn count_opens(s0: StreamState, evs: Seq<StreamEvent>) -> nat
    decreases evs.len(),
{
    if evs.len() == 0 {
        0
    } else {
        (if stream_step_spec(s0, evs[0]).1 == StreamAction::StartOpen {
            1nat
        } else {
            0nat
        }) + count_opens(stream_step_spec(s0, evs[0]).0, evs.skip(1))
    }
}

/// An open call is issued only from the absent state, and the issuer moves
/// the manager to initializing, so no second open can start until the
/// first has completed or failed.
pub proof fn lemma_open_only_from_absent(s: StreamState, e: StreamEvent)
    ensures
        stream_step_spec(s, e).1 == StreamAction::StartOpen ==> s == StreamState::Absent
            && stream_step_spec(s, e).0 == StreamState::Initializing,
{
}

pub open spec fn all_demands(evs: Seq<StreamEvent>) -> bool {
    forall|i: int| 0 <= i < evs.len() ==> evs[i] == StreamEvent::Demand
}

/// While an open is in flight, further demands wait and issue no open.
pub proof fn lemma_demands_while_initializing(evs: Seq<StreamEvent>)
    requires
        all_demands(evs),
    ensures
        run_steps(StreamState::Initializing, evs) == StreamState::Initializing,
        count_opens(StreamState::Initializing, evs) == 0,
        forall|i: int|
            0 <= i < evs.len() ==> actions_of(StreamState::Initializing, evs)[i]
                == StreamAction::AwaitOpen,
    decreases evs.len(),
{
    if evs.len() > 0 {
        assert(evs[0] == StreamEvent::Demand);
        assert(all_demands(evs.skip(1))) by {
            assert(forall|i: int|
                0 <= i < evs.skip(1).len() ==> #[trigger] evs.skip(1)[i] == evs[i + 1]);
        }
        lemma_demands_while_initializing(evs.skip(1));
        lemma_actions_len(StreamState::Initializing, evs.skip(1));
        assert(actions_of(StreamState::Initializing, evs) == seq![StreamAction::AwaitOpen]
            + actions_of(StreamState::Initializing, evs.skip(1)));
        assert forall|i: int|
            0 <= i < evs.len() implies actions_of(StreamState::Initializing, evs)[i]
            == StreamAction::AwaitOpen by {
            if i > 0 {
                assert(actions_of(StreamState::Initializing, evs)[i] == actions_of(
                    StreamState::Initializing,
                    evs.skip(1),
                )[i - 1]);
            }
        }
    }
}

/// Once the stream is open, every further demand uses the stored sender
/// and issues no open.
pub proof fn lemma_demands_while_open(evs: Seq<StreamEvent>)
    requires
        all_demands(evs),
    ensures
        run_steps(StreamState::Open, evs) == StreamState::Open,
        count_opens(StreamState::Open, evs) == 0,
        forall|i: int|
            0 <= i < evs.len() ==> actions_of(StreamState::Open, evs)[i]
                == StreamAction::UseSender,
    decreases evs.len(),
{
    if evs.len() > 0 {
        assert(evs[0] == StreamEvent::Demand);
        assert(all_demands(evs.skip(1))) by {
            assert(forall|i: int|
                0 <= i < evs.skip(1).len() ==> #[trigger] evs.skip(1)[i] == evs[i + 1]);
        }
        lemma_demands_while_open(evs.skip(1));
        lemma_actions_len(StreamState::Open, evs.skip(1));
        assert(actions_of(StreamState::Open, evs) == seq![StreamAction::UseSender] + actions_of(
            StreamState::Open,
            evs.skip(1),
        ));
        assert forall|i: int|
            0 <= i < evs.len() implies actions_of(StreamState::Open, evs)[i]
            == StreamAction::UseSender by {
            if i > 0 {
                assert(actions_of(StreamState::Open, evs)[i] == actions_of(
                    StreamState::Open,
                    evs.skip(1),
                )[i - 1]);
            }
        }
    }
}

/// Single-open race, successful side: from a fresh manager, any number of
/// demanding callers issue exactly one backend open; once the winner's
/// open succeeds, every later demand observes the one ready sender.
pub proof fn lemma_single_open_race(pre: Seq<StreamEvent>, post: Seq<StreamEvent>)
    requires
        all_demands(pre),
        pre.len() >= 1,
        all_demands(post),
    ensures
        count_opens(StreamState::Absent, pre + seq![StreamEvent::OpenSucceeded] + post) == 1,
        run_steps(StreamState::Absent, pre + seq![StreamEvent::OpenSucceeded] + post)
            == StreamState::Open,
        forall|i: int|
            0 <= i < post.len() ==> #[trigger] actions_of(
                StreamState::Absent,
                pre + seq![StreamEvent::OpenSucceeded] + post,
            )[pre.len() + 1 + i] == StreamAction::UseSender,
{
    let evs = pre + seq![StreamEvent::OpenSucceeded] + post;
    let rest = seq![StreamEvent::OpenSucceeded] + post;
    assert(evs =~= pre + rest);
    lemma_run_append(StreamState::Absent, pre, rest);
    lemma_first_demand(pre);
    lemma_demands_while_initializing(pre.skip(1));
    assert(run_steps(StreamState::Absent, pre) == StreamState::Initializing);
    assert(count_opens(StreamState::Absent, pre) == 1);
    assert(rest[0] == StreamEvent::OpenSucceeded);
    assert(rest.skip(1) =~= post);
    lemma_demands_while_open(post);
    assert(run_steps(StreamState::Initializing, rest) == StreamState::Open);
    assert(count_opens(StreamState::Initializing, rest) == 0);
    assert(count_opens(StreamState::Absent, evs) == count_opens(StreamState::Absent, pre)
        + count_opens(StreamState::Initializing, rest)) by {
        lemma_count_append(StreamState::Absent, pre, rest);
    }
    lemma_actions_append(StreamState::Absent, pre, rest);
    lemma_actions_len(StreamState::Absent, pre);
    lemma_actions_len(StreamState::Initializing, rest);
    lemma_actions_len(StreamState::Open, post);
    assert(actions_of(StreamState::Initializing, rest) == seq![StreamAction::StoreSenderAndSpawn]
        + actions_of(StreamState::Open, post));
    assert forall|i: int|
        0 <= i < post.len() implies #[trigger] actions_of(StreamState::Absent, evs)[pre.len() + 1
        + i] == StreamAction::UseSender by {
        assert(actions_of(StreamState::Absent, evs) == actions_of(StreamState::Absent, pre)
            + actions_of(StreamState::Initializing, rest));
        assert(actions_of(StreamState::Absent, evs)[pre.len() + 1 + i] == actions_of(
            StreamState::Initializing,
            rest,
        )[1 + i]);
        assert(actions_of(StreamState::Initializing, rest)[1 + i] == actions_of(
            StreamState::Open,
            post,
        )[i]);
    }
}

/// Single-open race, failing side: the one open is issued, its failure is
/// reported, and the manager is absent again so a later caller may retry.
pub proof fn lemma_single_open_race_failure(pre: Seq<StreamEvent>)
    requires
        all_demands(pre),
        pre.len() >= 1,
    ensures
        count_opens(StreamState::Absent, pre + seq![StreamEvent::OpenFailed]) == 1,
        run_steps(StreamState::Absent, pre + seq![StreamEvent::OpenFailed])
            == StreamState::Absent,
{
    let rest = seq![StreamEvent::OpenFailed];
    lemma_run_append(StreamState::Absent, pre, rest);
    lemma_count_append(StreamState::Absent, pre, rest);
    lemma_first_demand(pre);
    lemma_demands_while_initializing(pre.skip(1));
    assert(run_steps(StreamState::Absent, pre) == StreamState::Initializing);
    assert(count_opens(StreamState::Absent, pre) == 1);
    assert(rest[0] == StreamEvent::OpenFailed);
    assert(rest.skip(1) =~= Seq::<StreamEvent>::empty());
    assert(count_opens(StreamState::Absent, rest.skip(1)) == 0);
    assert(run_steps(StreamState::Absent, rest.skip(1)) == StreamState::Absent);
    assert(count_opens(StreamState::Initializing, rest) == 0);
    assert(run_steps(StreamState::Initializing, rest) == StreamState::Absent);
}

proof fn lemma_first_demand(pre: Seq<StreamEvent>)
    requires
        all_demands(pre),
        pre.len() >= 1,
    ensures
        run_steps(StreamState::Absent, pre) == run_steps(StreamState::Initializing, pre.skip(1)),
        count_opens(StreamState::Absent, pre) == 1 + count_opens(
            StreamState::Initializing,
            pre.skip(1),
        ),
        all_demands(pre.skip(1)),
{
    assert(pre[0] == StreamEvent::Demand);
    assert(forall|i: int| 0 <= i < pre.skip(1).len() ==> #[trigger] pre.skip(1)[i] == pre[i + 1]);
}

proof fn lemma_run_append(s0: StreamState, a: Seq<StreamEvent>, b: Seq<StreamEvent>)
    ensures
        run_steps(s0, a + b) == run_steps(run_steps(s0, a), b),
    decreases a.len(),
{
    if a.len() == 0 {
        assert(a + b =~= b);
    } else {
        assert((a + b)[0] == a[0]);
        assert((a + b).skip(1) =~= a.skip(1) + b);
        lemma_run_append(stream_step_spec(s0, a[0]).0, a.skip(1), b);
    }
}

proof fn lemma_count_append(s0: StreamState, a: Seq<StreamEvent>, b: Seq<StreamEvent>)
    ensures
        count_opens(s0, a + b) == count_opens(s0, a) + count_opens(run_steps(s0, a), b),
    decreases a.len(),
{
    if a.len() == 0 {
        assert(a + b =~= b);
    } else {
        assert((a + b)[0] == a[0]);
        assert((a + b).skip(1) =~= a.skip(1) + b);
        lemma_count_append(stream_step_spec(s0, a[0]).0, a.skip(1), b);
    }
}

proof fn lemma_actions_len(s0: StreamState, evs: Seq<StreamEvent>)
    ensures
        actions_of(s0, evs).len() == evs.len(),
    decreases evs.len(),
{
    if evs.len() > 0 {
        lemma_actions_len(stream_step_spec(s0, evs[0]).0, evs.skip(1));
    }
}

proof fn lemma_actions_append(s0: StreamState, a: Seq<StreamEvent>, b: Seq<StreamEvent>)
    ensures
        actions_of(s0, a + b) =~= actions_of(s0, a) + actions_of(run_steps(s0, a), b),
    decreases a.len(),
{
    if a.len() == 0 {
        assert(a + b =~= b);
        assert(actions_of(s0, a) =~= Seq::<StreamAction>::empty());
    } else {
        assert((a + b)[0] == a[0]);
        assert((a + b).skip(1) =~= a.skip(1) + b);
        lemma_actions_append(stream_step_spec(s0, a[0]).0, a.skip(1), b);
    }
}

} // verus!
