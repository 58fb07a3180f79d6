//! The lifecycle of a user object embedded in a host record.
//!
//! The host allocates the record, asks for construction once, delivers
//! callbacks (messages and clock re-entries) and finally tears the record
//! down. A `Wrapper` holds the embedded object and decides which of these
//! requests may reach it: callbacks only between a successful construction and
//! teardown, construction and teardown at most once each.

use vstd::prelude::*;

verus! {

/// Where an instance stands in its lifecycle.
#[derive(Clone, Copy, Debug, PartialEq, Eq, Structural)]
pub enum Phase {
    /// The host has allocated the record; no object has been built yet.
    Allocated,
    /// The object was built and receives callbacks.
    Live,
    /// Building the object failed; the record holds no object.
    Failed,
    /// The host has torn the record down.
    Destroyed,
}

/// A host request that the lifecycle refused or that failed.
#[derive(Clone, Copy, Debug, PartialEq, Eq, Structural)]
pub enum LifecycleError {
    /// A callback arrived before the object was built.
    NotConstructed,
    /// Construction was requested a second time.
    AlreadyConstructed,
    /// The object could not be built, so the record holds none.
    ConstructionFailure,
    /// The record has already been torn down.
    Destroyed,
}

/// A request of the host on one record.
#[derive(Clone, Copy, Debug, PartialEq, Eq, Structural)]
pub enum Event {
    /// Construction; `true` when the object could be built.
    Construct(bool),
    /// A callback to the object: a message, or a clock re-entry.
    Dispatch,
    /// Teardown of the record.
    Destroy,
}

/// The phase after `e` in phase `p`, and whether `e` was accepted there.
pub open spec fn step(p: Phase, e: Event) -> (Phase, bool) {
    match e {
        Event::Construct(ok) => if p == Phase::Allocated {
            (if ok { Phase::Live } else { Phase::Failed }, true)
        } else {
            (p, false)
        },
        Event::Dispatch => (p, p == Phase::Live),
        Event::Destroy => (Phase::Destroyed, p != Phase::Destroyed),
    }
}

/// The error reported for `e` in phase `p`, where there is one.
pub open spec fn error_of(p: Phase, e: Event) -> Option<LifecycleError> {
    if p == Phase::Destroyed {
        Some(LifecycleError::Destroyed)
    } else {
        match e {
            Event::Construct(ok) => if p != Phase::Allocated {
                Some(LifecycleError::AlreadyConstructed)
            } else if !ok {
                Some(LifecycleError::ConstructionFailure)
            } else {
                None
            },
            Event::Dispatch => if p == Phase::Allocated {
                Some(LifecycleError::NotConstructed)
            } else if p == Phase::Failed {
                Some(LifecycleError::ConstructionFailure)
            } else {
                None
            },
            Event::Destroy => None,
        }
    }
}

/// The phase of a record after the first `i` requests of `events`.
pub open spec fn phase_at(events: Seq<Event>, i: int) -> Phase
    decreases i,
{
    if i <= 0 {
        Phase::Allocated
    } else {
        step(phase_at(events, i - 1), events[i - 1]).0
    }
}

/// Whether request `i` of `events` was accepted.
pub open spec fn accepted(events: Seq<Event>, i: int) -> bool {
    step(phase_at(events, i), events[i]).1
}

/// A record of the host with the user object embedded in it.
pub struct Wrapper<T> {
    phase: Phase,
    object: Option<T>,
}

impl<T> Wrapper<T> {
    /// The lifecycle phase of the record.
    pub closed spec fn phase(&self) -> Phase {
        self.phase
    }

    /// The embedded object, while there is one.
    pub closed spec fn object(&self) -> Option<T> {
        self.object
    }

    /// The record holds an object exactly while it is live.
    pub open spec fn wf(&self) -> bool {
        self.object() is Some <==> self.phase() == Phase::Live
    }

    /// A freshly allocated record, with no object yet.
    pub fn new() -> (r: Self)
        ensures
            r.wf(),
            r.phase() == Phase::Allocated,
    {
        Wrapper { phase: Phase::Allocated, object: None }
    }

    /// Construction of the record's object: `built` is the object, or `None`
    /// when it could not be built. Accepted only on a freshly allocated record.
    pub fn construct(&mut self, built: Option<T>) -> (r: Result<(), LifecycleError>)
        requires
            old(self).wf(),
        ensures
            final(self).wf(),
            final(self).phase() == step(old(self).phase(), Event::Construct(built is Some)).0,
            r matches Err(e) ==> error_of(
                old(self).phase(),
                Event::Construct(built is Some),
            ) == Some(e),
            r is Ok <==> error_of(old(self).phase(), Event::Construct(built is Some)) is None,
            old(self).phase() == Phase::Allocated ==> final(self).object() == built,
            old(self).phase() != Phase::Allocated ==> final(self).object() == old(self).object(),
    {
        match self.phase {
            Phase::Allocated => {
                match built {
                    Some(o) => {
                        self.object = Some(o);
                        self.phase = Phase::Live;
                        Ok(())
                    },
                    None => {
                        self.phase = Phase::Failed;
                        Err(LifecycleError::ConstructionFailure)
                    },
                }
            },
            Phase::Destroyed => Err(LifecycleError::Destroyed),
            _ => Err(LifecycleError::AlreadyConstructed),
        }
    }

    /// The object a callback is delivered to: shared access, only while the
    /// record is live. Any change of state goes through the object's own
    /// synchronisation.
    pub fn wrapped(&self) -> (r: Result<&T, LifecycleError>)
        requires
            self.wf(),
        ensures
            r matches Ok(o) ==> self.object() == Some(*o),
            r matches Err(e) ==> error_of(self.phase(), Event::Dispatch) == Some(e),
            r is Ok <==> step(self.phase(), Event::Dispatch).1,
    {
        match &self.object {
            Some(o) => Ok(o),
            None => match self.phase {
                Phase::Allocated => Err(LifecycleError::NotConstructed),
                Phase::Failed => Err(LifecycleError::ConstructionFailure),
                _ => Err(LifecycleError::Destroyed),
            },
        }
    }

    /// Teardown of the record: the object, if one was built, is handed back
    /// for its cleanup, and no callback reaches it afterwards, clock
    /// re-entries included.
    pub fn destroy(&mut self) -> (r: Result<Option<T>, LifecycleError>)
        requires
            old(self).wf(),
        ensures
            final(self).wf(),
            final(self).phase() == Phase::Destroyed,
            r matches Ok(o) ==> o == old(self).object(),
            r matches Err(e) ==> e == LifecycleError::Destroyed,
            r is Ok <==> step(old(self).phase(), Event::Destroy).1,
    {
        if self.phase == Phase::Destroyed {
            Err(LifecycleError::Destroyed)
        } else {
            let o = self.object.take();
            self.phase = Phase::Destroyed;
            Ok(o)
        }
    }

    /// The record's current lifecycle phase.
    pub fn current_phase(&self) -> (r: Phase)
        ensures
            r == self.phase(),
    {
        self.phase
    }

    /// Whether the record is live, so that callbacks reach its object.
    pub fn is_live(&self) -> (r: bool)
        ensures
            r == (self.phase() == Phase::Live),
    {
        self.phase == Phase::Live
    }
}

spec fn rank(p: Phase) -> int {
    match p {
        Phase::Allocated => 0,
        Phase::Live => 1,
        Phase::Failed => 1,
        Phase::Destroyed => 2,
    }
}

proof fn lemma_rank_grows(events: Seq<Event>, i: int, j: int)
    requires
        0 <= i <= j,
    ensures
        rank(phase_at(events, i)) <= rank(phase_at(events, j)),
    decreases j - i,
{
    if i < j {
        lemma_rank_grows(events, i, j - 1);
    }
}

proof fn lemma_live_after_construct(events: Seq<Event>, i: int)
    requires
        0 <= i,
        phase_at(events, i) == Phase::Live,
    ensures
        exists|k: int|
            0 <= k < i && events[k] == Event::Construct(true) && #[trigger] accepted(events, k),
    decreases i,
{
    if phase_at(events, i - 1) == Phase::Live {
        lemma_live_after_construct(events, i - 1);
        let k = choose|k: int|
            0 <= k < i - 1 && events[k] == Event::Construct(true) && #[trigger] accepted(
                events,
                k,
            );
        assert(0 <= k < i && events[k] == Event::Construct(true) && accepted(events, k));
    } else {
        assert(accepted(events, i - 1));
    }
}

/// Over any run of host requests on one record: a callback is accepted only
/// after a successful construction and before teardown, construction is
/// accepted at most once, and teardown is accepted at most once.
pub proof fn lemma_lifecycle_order(events: Seq<Event>)
    ensures
        forall|i: int|
            0 <= i < events.len() && events[i] == Event::Dispatch && #[trigger] accepted(
                events,
                i,
            ) ==> (exists|k: int|
                0 <= k < i && events[k] == Event::Construct(true) && #[trigger] accepted(
                    events,
                    k,
                )),
        forall|i: int, k: int|
            0 <= k < i < events.len() && events[i] == Event::Dispatch && #[trigger] accepted(
                events,
                i,
            ) && events[k] == Event::Destroy ==> !#[trigger] accepted(events, k),
        forall|i: int, j: int|
            0 <= i < j < events.len() && events[i] is Construct && events[j] is Construct
                && #[trigger] accepted(events, i) ==> !#[trigger] accepted(events, j),
        forall|i: int, j: int|
            0 <= i < j < events.len() && events[i] == Event::Destroy && events[j] == Event::Destroy
                && #[trigger] accepted(events, i) ==> !#[trigger] accepted(events, j),
{
    assert forall|i: int|
        0 <= i < events.len() && events[i] == Event::Dispatch && #[trigger] accepted(
            events,
            i,
        ) implies (exists|k: int|
        0 <= k < i && events[k] == Event::Construct(true) && #[trigger] accepted(events, k)) by {
        lemma_live_after_construct(events, i);
    }
    assert forall|i: int, k: int|
        0 <= k < i < events.len() && events[i] == Event::Dispatch && #[trigger] accepted(
            events,
            i,
        ) && events[k] == Event::Destroy implies !#[trigger] accepted(events, k) by {
        lemma_rank_grows(events, k + 1, i);
    }
    assert forall|i: int, j: int|
        0 <= i < j < events.len() && events[i] is Construct && events[j] is Construct
            && #[trigger] accepted(events, i) implies !#[trigger] accepted(events, j) by {
        lemma_rank_grows(events, i + 1, j);
    }
    assert forall|i: int, j: int|
        0 <= i < j < events.len() && events[i] == Event::Destroy && events[j] == Event::Destroy
            && #[trigger] accepted(events, i) implies !#[trigger] accepted(events, j) by {
        lemma_rank_grows(events, i + 1, j);
    }
}

/// Two callbacks delivered in immediate succession to a live record are both
/// accepted, and the record stays live: neither disturbs the other.
pub proof fn lemma_dispatch_repeats(p: Phase)
    requires
        p == Phase::Live,
    ensures
        step(p, Event::Dispatch) == (Phase::Live, true),
        step(step(p, Event::Dispatch).0, Event::Dispatch) == (Phase::Live, true),
{
}

} // verus!
