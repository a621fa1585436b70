use vstd::prelude::*;

verus! {

/// Who holds a store's lock. The lock is exclusive and not reentrant: an
/// attempt while anyone holds it, the holder included, does not succeed.
pub struct LockState {
    pub holder: Option<u64>,
}

/// Whether an attempt by anyone succeeds on a lock in state `h`.
pub open spec fn can_acquire(h: Option<u64>) -> bool {
    h is None
}

pub open spec fn after_acquire(h: Option<u64>, who: u64) -> Option<u64> {
    if h is None {
        Some(who)
    } else {
        h
    }
}

pub open spec fn after_release(h: Option<u64>, who: u64) -> Option<u64> {
    if h == Some(who) {
        None
    } else {
        h
    }
}

impl LockState {
    /// A lock that nobody holds.
    pub fn new() -> (r: LockState)
        ensures
            r.holder is None,
    {
        LockState { holder: None }
    }

    /// An attempt by `who`; it succeeds exactly when nobody holds the lock.
    pub fn try_acquire(&mut self, who: u64) -> (r: bool)
        ensures
            r == can_acquire(old(self).holder),
            final(self).holder == after_acquire(old(self).holder, who),
    {
        match self.holder {
            None => {
                self.holder = Some(who);
                true
            },
            Some(_) => false,
        }
    }

    /// `who` lets go of the lock; a release by anyone but the holder changes nothing.
    pub fn release(&mut self, who: u64)
        ensures
            final(self).holder == after_release(old(self).holder, who),
    {
        match self.holder {
            Some(h) => {
                if h == who {
                    self.holder = None;
                }
            },
            None => {},
        }
    }

    /// Whether `who` holds the lock.
    pub fn is_held_by(&self, who: u64) -> (r: bool)
        ensures
            r == (self.holder == Some(who)),
    {
        match self.holder {
            Some(h) => h == who,
            None => false,
        }
    }
}

/// Where an operation on a store stands with respect to its lock.
#[derive(PartialEq, Eq, Clone, Copy, Debug, Structural)]
pub enum Phase {
    /// Not started.
    Idle,
    /// Waiting for the lock.
    Waiting,
    /// Holding the lock: the only phase in which it checks and changes the store.
    Holding,
    /// Finished, the lock released, whether the work succeeded or failed.
    Done,
}

/// One operation (create, remove, list, install, uninstall) against a store's lock.
pub struct Session {
    pub id: u64,
    pub phase: Phase,
}

/// A session's next phase and the lock's next holder, after one step; `finished`
/// says whether the work under the lock has ended, on success or on error.
pub open spec fn step(phase: Phase, h: Option<u64>, id: u64, finished: bool) -> (Phase, Option<u64>) {
    match phase {
        Phase::Idle => (Phase::Waiting, h),
        Phase::Waiting => if can_acquire(h) {
            (Phase::Holding, after_acquire(h, id))
        } else {
            (Phase::Waiting, h)
        },
        Phase::Holding => if finished {
            (Phase::Done, after_release(h, id))
        } else {
            (Phase::Holding, h)
        },
        Phase::Done => (Phase::Done, h),
    }
}

/// Two sessions with distinct ids contend for one lock, which nobody else
/// holds, and each holds it exactly while it is in `Holding`.
pub open spec fn pair_consistent(a: Session, b: Session, h: Option<u64>) -> bool {
    &&& a.id != b.id
    &&& (a.phase == Phase::Holding <==> h == Some(a.id))
    &&& (b.phase == Phase::Holding <==> h == Some(b.id))
    &&& (h is Some ==> h == Some(a.id) || h == Some(b.id))
}

impl Session {
    pub fn new(id: u64) -> (r: Session)
        ensures
            r.id == id,
            r.phase == Phase::Idle,
    {
        Session { id, phase: Phase::Idle }
    }

    /// Moves the session one step on, taking or releasing `lock` as the step asks.
    pub fn advance(&mut self, lock: &mut LockState, finished: bool) -> (r: Phase)
        ensures
            final(self).id == old(self).id,
            (final(self).phase, final(lock).holder) == step(old(self).phase, old(lock).holder, old(self).id, finished),
            r == final(self).phase,
    {
        match self.phase {
            Phase::Idle => {
                self.phase = Phase::Waiting;
            },
            Phase::Waiting => {
                if lock.try_acquire(self.id) {
                    self.phase = Phase::Holding;
                }
            },
            Phase::Holding => {
                if finished {
                    lock.release(self.id);
                    self.phase = Phase::Done;
                }
            },
            Phase::Done => {},
        }
        self.phase
    }
}

/// Two operations against one store never hold the lock together: from a
/// consistent start, where neither has begun, a step of either session keeps
/// the pair consistent, and in a consistent pair at most one is `Holding`.
pub proof fn lemma_sessions_exclusive(a: Session, b: Session, h: Option<u64>, finished: bool)
    requires
        pair_consistent(a, b, h),
    ensures
        !(a.phase == Phase::Holding && b.phase == Phase::Holding),
        pair_consistent(
            Session { id: a.id, phase: step(a.phase, h, a.id, finished).0 },
            b,
            step(a.phase, h, a.id, finished).1,
        ),
        pair_consistent(
            a,
            Session { id: b.id, phase: step(b.phase, h, b.id, finished).0 },
            step(b.phase, h, b.id, finished).1,
        ),
{
}

/// Two sessions that have not begun, over a free lock, are consistent.
pub proof fn lemma_sessions_start(a: u64, b: u64)
    requires
        a != b,
    ensures
        pair_consistent(Session { id: a, phase: Phase::Idle }, Session { id: b, phase: Phase::Idle }, None),
{
}

/// Two operations on one store are serialised: once `a` holds the lock, every
/// attempt by another `b` fails, and whatever others try, `a` keeps the lock
/// until it releases it; after that release, `b` gets it.
pub proof fn lemma_lock_serializes(h: Option<u64>, a: u64, b: u64)
    requires
        h is None,
        a != b,
    ensures
        can_acquire(h),
        after_acquire(h, a) == Some(a),
        !can_acquire(after_acquire(h, a)),
        after_acquire(after_acquire(h, a), b) == Some(a),
        after_release(after_acquire(h, a), b) == Some(a),
        can_acquire(after_release(after_acquire(h, a), a)),
        after_acquire(after_release(after_acquire(h, a), a), b) == Some(b),
{
}

} // verus!
