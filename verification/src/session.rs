//! The session registry: a concurrency-safe mapping from robot identifier
//! to the delivery handle of the one client connection registered under it,
//! used to route backend-originated messages.
//!
//! The registry is modeled as a `Map` from identifier characters to the
//! delivery handle; at most one entry exists per identifier, and inserting
//! over an existing identifier replaces it (last write wins).

use vstd::prelude::*;

use crate::backend::SignalMessage;

verus! {

#[verifier::external_type_specification]
#[verifier::external_body]
#[verifier::reject_recursive_types(T)]
pub struct ExUnboundedSender<T>(tokio::sync::mpsc::UnboundedSender<T>);

/// The delivery handle of one client connection: backend messages pushed
/// here are written to that connection's socket by its delivery task.
pub type WsSender = tokio::sync::mpsc::UnboundedSender<SignalMessage>;

/// Relies on tokio's `UnboundedSender::clone`: a clone is a handle to the
/// same channel, so it is modeled as the same abstract sender value.
#[verifier::external_body]
pub fn clone_sender(tx: &WsSender) -> (r: WsSender)
    ensures
        r == *tx,
{
    tx.clone()
}

/// Relies on tokio's `UnboundedSender::send`: the message is enqueued if
/// the receiver half is still open, and rejected if it has closed. Which
/// of the two happens depends on runtime state, so nothing is promised of
/// the outcome.
#[verifier::external_body]
pub fn send_to_session(tx: &WsSender, m: SignalMessage) -> (r: bool) {
    tx.send(m).is_ok()
}

/// The map described by an entry list, later entries winning.
pub open spec fn entries_map(s: Seq<(String, WsSender)>) -> Map<Seq<char>, WsSender>
    decreases s.len(),
{
    if s.len() == 0 {
        Map::empty()
    } else {
        entries_map(s.drop_last()).insert(s.last().0@, s.last().1)
    }
}

/// No two entries share a robot identifier.
pub open spec fn unique_keys(s: Seq<(String, WsSender)>) -> bool {
    forall|i: int, j: int| 0 <= i < j < s.len() ==> (#[trigger] s[i]).0@ != (#[trigger] s[j]).0@
}

proof fn lemma_unique_drop_last(s: Seq<(String, WsSender)>)
    requires
        unique_keys(s),
        s.len() > 0,
    ensures
        unique_keys(s.drop_last()),
{
    assert forall|i: int, j: int|
        0 <= i < j < s.drop_last().len() implies (#[trigger] s.drop_last()[i]).0@ != (
    #[trigger] s.drop_last()[j]).0@ by {
        assert(s.drop_last()[i] == s[i]);
        assert(s.drop_last()[j] == s[j]);
    }
}

proof fn lemma_entries_map_contains(s: Seq<(String, WsSender)>, k: Seq<char>)
    ensures
        entries_map(s).contains_key(k) <==> exists|i: int|
            0 <= i < s.len() && (#[trigger] s[i]).0@ == k,
    decreases s.len(),
{
    if s.len() > 0 {
        lemma_entries_map_contains(s.drop_last(), k);
        if s.last().0@ == k {
            assert(s[s.len() - 1].0@ == k);
        } else {
            if entries_map(s).contains_key(k) {
                let i = choose|i: int| 0 <= i < s.drop_last().len() && (#[trigger] s.drop_last()[i]).0@ == k;
                assert(s[i].0@ == k);
            }
            if exists|i: int| 0 <= i < s.len() && (#[trigger] s[i]).0@ == k {
                let i = choose|i: int| 0 <= i < s.len() && (#[trigger] s[i]).0@ == k;
                assert(i < s.len() - 1);
                assert(s.drop_last()[i].0@ == k);
            }
        }
    }
}

proof fn lemma_entries_map_get(s: Seq<(String, WsSender)>, i: int)
    requires
        unique_keys(s),
        0 <= i < s.len(),
    ensures
        entries_map(s).contains_key(s[i].0@),
        entries_map(s)[s[i].0@] == s[i].1,
    decreases s.len(),
{
    if i == s.len() - 1 {
        assert(s[i] == s.last());
    } else {
        lemma_unique_drop_last(s);
        assert(s.drop_last()[i] == s[i]);
        lemma_entries_map_get(s.drop_last(), i);
        assert(s[i].0@ != s.last().0@);
    }
}

proof fn lemma_entries_map_update(s: Seq<(String, WsSender)>, i: int, p: (String, WsSender))
    requires
        unique_keys(s),
        0 <= i < s.len(),
        p.0@ == s[i].0@,
    ensures
        entries_map(s.update(i, p)) =~= entries_map(s).insert(p.0@, p.1),
    decreases s.len(),
{
    if i == s.len() - 1 {
        assert(s.update(i, p).drop_last() =~= s.drop_last());
        assert(s.update(i, p).last() == p);
    } else {
        lemma_unique_drop_last(s);
        assert(s.update(i, p).drop_last() =~= s.drop_last().update(i, p));
        assert(s.drop_last()[i] == s[i]);
        lemma_entries_map_update(s.drop_last(), i, p);
        assert(s.update(i, p).last() == s.last());
        assert(p.0@ != s.last().0@);
    }
}

proof fn lemma_entries_map_remove(s: Seq<(String, WsSender)>, i: int)
    requires
        unique_keys(s),
        0 <= i < s.len(),
    ensures
        entries_map(s.remove(i)) =~= entries_map(s).remove(s[i].0@),
    decreases s.len(),
{
    if i == s.len() - 1 {
        assert(s.remove(i) =~= s.drop_last());
        lemma_unique_drop_last(s);
        lemma_entries_map_contains(s.drop_last(), s[i].0@);
        assert forall|j: int| 0 <= j < s.drop_last().len() implies (#[trigger] s.drop_last()[j]).0@
            != s[i].0@ by {
            assert(s.drop_last()[j] == s[j]);
        }
        assert(!entries_map(s.drop_last()).contains_key(s[i].0@));
    } else {
        lemma_unique_drop_last(s);
        assert(s.remove(i).drop_last() =~= s.drop_last().remove(i));
        assert(s.remove(i).last() == s.last());
        assert(s.drop_last()[i] == s[i]);
        lemma_entries_map_remove(s.drop_last(), i);
        assert(s[i].0@ != s.last().0@);
    }
}

/// The session registry. At most one delivery handle is registered per
/// robot identifier.
pub struct SessionManager {
    entries: Vec<(String, WsSender)>,
}

impl View for SessionManager {
    type V = Map<Seq<char>, WsSender>;

    closed spec fn view(&self) -> Map<Seq<char>, WsSender> {
        entries_map(self.entries@)
    }
}

impl SessionManager {
    /// Well-formedness: no two entries share an identifier. Constructors
    /// establish it and every method preserves it.
    pub closed spec fn wf(self) -> bool {
        unique_keys(self.entries@)
    }

    /// An empty registry.
    pub fn new() -> (r: SessionManager)
        ensures
            r@ == Map::<Seq<char>, WsSender>::empty(),
            r.wf(),
    {
        SessionManager { entries: Vec::new() }
    }

    /// Position of the entry registered under `key`, if any.
    fn position_of(&self, key: &String) -> (r: Option<usize>)
        requires
            self.wf(),
        ensures
            match r {
                Option::Some(i) => i < self.entries@.len() && self.entries@[i as int].0@ == key@,
                Option::None => !self@.contains_key(key@),
            },
    {
        let mut i: usize = 0;
        while i < self.entries.len()
            invariant
                i <= self.entries@.len(),
                forall|j: int| 0 <= j < i ==> (#[trigger] self.entries@[j]).0@ != key@,
            decreases self.entries@.len() - i,
        {
            if self.entries[i].0 == *key {
                return Some(i);
            }
            i = i + 1;
        }
        proof {
            lemma_entries_map_contains(self.entries@, key@);
        }
        None
    }

    /// Installs or replaces the entry for `robot_id`. A previous handle
    /// under the same identifier is discarded without notice.
    pub fn insert(&mut self, robot_id: String, tx: WsSender)
        requires
            old(self).wf(),
        ensures
            final(self)@ == old(self)@.insert(robot_id@, tx),
            final(self).wf(),
    {
        let found = self.position_of(&robot_id);
        match found {
            Some(i) => {
                proof {
                    lemma_entries_map_update(self.entries@, i as int, (robot_id, tx));
                }
                self.entries.set(i, (robot_id, tx));
                proof {
                    assert forall|a: int, b: int|
                        0 <= a < b < self.entries@.len() implies (#[trigger] self.entries@[a]).0@
                        != (#[trigger] self.entries@[b]).0@ by {
                        assert(old(self).entries@[a].0@ != old(self).entries@[b].0@);
                    }
                }
            },
            None => {
                proof {
                    lemma_entries_map_contains(self.entries@, robot_id@);
                    assert(self.entries@.push((robot_id, tx)).drop_last() =~= self.entries@);
                }
                self.entries.push((robot_id, tx));
                proof {
                    assert forall|a: int, b: int|
                        0 <= a < b < self.entries@.len() implies (#[trigger] self.entries@[a]).0@
                        != (#[trigger] self.entries@[b]).0@ by {
                        if b < self.entries@.len() - 1 {
                            assert(old(self).entries@[a].0@ != old(self).entries@[b].0@);
                        } else {
                            assert(self.entries@[a] == old(self).entries@[a]);
                        }
                    }
                }
            },
        }
    }

    /// Removes the entry for `robot_id` if present; does nothing otherwise.
    pub fn remove(&mut self, robot_id: &String)
        requires
            old(self).wf(),
        ensures
            final(self)@ == old(self)@.remove(robot_id@),
            final(self).wf(),
    {
        let found = self.position_of(robot_id);
        match found {
            Some(i) => {
                proof {
                    lemma_entries_map_remove(self.entries@, i as int);
                }
                let _ = self.entries.remove(i);
                proof {
                    assert forall|a: int, b: int|
                        0 <= a < b < self.entries@.len() implies (#[trigger] self.entries@[a]).0@
                        != (#[trigger] self.entries@[b]).0@ by {
                        let s = old(self).entries@;
                        let aa = if a < i as int { a } else { a + 1 };
                        let bb = if b < i as int { b } else { b + 1 };
                        assert(self.entries@[a] == s[aa]);
                        assert(self.entries@[b] == s[bb]);
                        assert(s[aa].0@ != s[bb].0@);
                    }
                }
            },
            None => {
                proof {
                    assert(self@ =~= self@.remove(robot_id@));
                }
            },
        }
    }

    /// The delivery handle registered under `robot_id`, or nothing.
    pub fn get_ws_sender(&self, robot_id: &String) -> (r: Option<WsSender>)
        requires
            self.wf(),
        ensures
            r is Some <==> self@.contains_key(robot_id@),
            r is Some ==> r->Some_0 == self@[robot_id@],
    {
        match self.position_of(robot_id) {
            Some(i) => {
                proof {
                    lemma_entries_map_get(self.entries@, i as int);
                }
                Some(clone_sender(&self.entries[i].1))
            },
            None => None,
        }
    }

    /// How many sessions are registered.
    pub fn len(&self) -> (r: usize)
        requires
            self.wf(),
        ensures
            r == self@.dom().len(),
    {
        proof {
            lemma_entries_dom(self.entries@);
        }
        self.entries.len()
    }
}

proof fn lemma_entries_dom(s: Seq<(String, WsSender)>)
    requires
        unique_keys(s),
    ensures
        entries_map(s).dom().finite(),
        entries_map(s).dom().len() == s.len(),
    decreases s.len(),
{
    if s.len() > 0 {
        lemma_unique_drop_last(s);
        lemma_entries_dom(s.drop_last());
        lemma_entries_map_contains(s.drop_last(), s.last().0@);
        assert forall|j: int| 0 <= j < s.drop_last().len() implies (#[trigger] s.drop_last()[j]).0@
            != s.last().0@ by {
            assert(s.drop_last()[j] == s[j]);
            assert(s[j].0@ != s[s.len() - 1].0@);
        }
        assert(!entries_map(s.drop_last()).contains_key(s.last().0@));
        assert(entries_map(s).dom() =~= entries_map(s.drop_last()).dom().insert(s.last().0@));
    } else {
        assert(entries_map(s).dom() =~= Set::<Seq<char>>::empty());
    }
}

/// The outcome of routing one backend message.
#[derive(Clone, Copy, PartialEq, Eq, Structural, Debug)]
pub enum DispatchOutcome {
    /// A session was registered under the message's identifier and its
    /// delivery handle accepted the message.
    Delivered,
    /// A session was registered but its delivery handle has closed.
    SessionGone,
    /// No session is registered under the identifier: the message is
    /// dropped, neither queued nor buffered.
    NoSession,
}

impl SessionManager {
    /// Routes one backend-originated message: looks up the session under
    /// the identifier the message carries and forwards the message to that
    /// session's delivery handle alone; with no session registered, the
    /// message is dropped.
    pub fn dispatch_message(&self, m: SignalMessage) -> (r: DispatchOutcome)
        requires
            self.wf(),
        ensures
            r is NoSession <==> !self@.contains_key(m.robot_id@),
    {
        match self.get_ws_sender(&m.robot_id) {
            Some(tx) => {
                if send_to_session(&tx, m) {
                    DispatchOutcome::Delivered
                } else {
                    DispatchOutcome::SessionGone
                }
            },
            None => DispatchOutcome::NoSession,
        }
    }
}

/// Isolation: with sessions registered under two distinct identifiers, the
/// registry resolves each identifier to its own session's handle, never
/// the other's.
pub proof fn lemma_session_isolation(
    m: Map<Seq<char>, WsSender>,
    a: Seq<char>,
    b: Seq<char>,
    sa: WsSender,
    sb: WsSender,
)
    requires
        a != b,
    ensures
        m.insert(a, sa).insert(b, sb)[a] == sa,
        m.insert(a, sa).insert(b, sb)[b] == sb,
{
}

/// Last write wins: registering the same identifier twice leaves exactly
/// the one entry of the second registration, as if the first had never
/// happened.
pub proof fn lemma_register_last_write_wins(
    m: Map<Seq<char>, WsSender>,
    k: Seq<char>,
    s1: WsSender,
    s2: WsSender,
)
    ensures
        m.insert(k, s1).insert(k, s2) == m.insert(k, s2),
        m.insert(k, s1).insert(k, s2)[k] == s2,
{
    assert(m.insert(k, s1).insert(k, s2) =~= m.insert(k, s2));
}

} // verus!
