//! Taking the locks every ThinkPad tool agrees on.
//!
//! One mutex guards the controller. Driving it through LpcIO is also an LpcIO
//! operation, and that has a mutex of its own. The order is fixed: the
//! controller's first, LpcIO's second, and they are let go in reverse.

use vstd::prelude::*;

use crate::pawnio::{Fault, Layout};

verus! {

/// How long to wait for either mutex, in milliseconds.
pub const LOCK_TIMEOUT_MS: u32 = 2_000;

/// Windows' codes for a wait that was granted, and for one granted because
/// the previous holder died.
pub const WAIT_OBJECT_0: u32 = 0;

pub const WAIT_ABANDONED: u32 = 0x80;

/// One of the two mutexes.
#[derive(Debug, Clone, Copy, PartialEq, Eq, Structural)]
pub enum Mutex {
    /// `Global\Access_EC`
    Controller,
    /// `Global\Access_ISABUS.HTP.Method`
    Isa,
}

impl Mutex {
    /// The name every tool agrees on.
    pub fn name(self) -> (r: &'static str)
        ensures
            r@ == (match self {
                Mutex::Controller => "Global\\Access_EC"@,
                Mutex::Isa => "Global\\Access_ISABUS.HTP.Method"@,
            }),
    {
        match self {
            Mutex::Controller => "Global\\Access_EC",
            Mutex::Isa => "Global\\Access_ISABUS.HTP.Method",
        }
    }
}

/// Something to be done to a mutex.
#[derive(Debug, Clone, Copy, PartialEq, Eq, Structural)]
pub enum LockAsk {
    /// Have a handle to it, made now if there is none.
    Handle(Mutex),
    /// Wait for it, as long as the timeout allows.
    Take(Mutex),
    /// Let it go.
    Release(Mutex),
}

/// What taking the locks does next.
#[derive(Debug, Clone, Copy)]
pub enum Locking {
    Ask(LockAsk),
    /// Held, all of them.
    Held,
    /// Refused, with none of them held.
    Refused(Fault),
}

/// Taking the locks, given whether each thing asked for so far succeeded.
///
/// A handle that cannot be had is a lock somebody else arbitrates on, so it
/// refuses too. Refused halfway, the first lock is let go.
pub open spec fn locking(both: bool, heard: Seq<bool>) -> Locking {
    if heard.len() == 0 {
        Locking::Ask(LockAsk::Handle(Mutex::Controller))
    } else if !heard[0] {
        Locking::Refused(Fault::Busy)
    } else if heard.len() == 1 {
        Locking::Ask(LockAsk::Take(Mutex::Controller))
    } else if !heard[1] {
        Locking::Refused(Fault::Busy)
    } else if !both {
        Locking::Held
    } else if heard.len() == 2 {
        Locking::Ask(LockAsk::Handle(Mutex::Isa))
    } else if !heard[2] {
        if heard.len() == 3 {
            Locking::Ask(LockAsk::Release(Mutex::Controller))
        } else {
            Locking::Refused(Fault::Busy)
        }
    } else if heard.len() == 3 {
        Locking::Ask(LockAsk::Take(Mutex::Isa))
    } else if !heard[3] {
        if heard.len() == 4 {
            Locking::Ask(LockAsk::Release(Mutex::Controller))
        } else {
            Locking::Refused(Fault::Busy)
        }
    } else {
        Locking::Held
    }
}

/// The locks a layout needs.
#[derive(Debug, Clone, Copy)]
pub struct EcLock {
    /// Whether LpcIO's mutex applies.
    pub needs_isa: bool,
}

impl EcLock {
    /// The lock set the layout needs: the controller's always, LpcIO's only
    /// where LpcIO is underneath.
    pub fn acquire_handle(layout: Layout) -> (r: Self)
        ensures
            r.needs_isa == (layout == Layout::Alternate),
    {
        EcLock { needs_isa: layout.uses_isa_lock() }
    }

    /// Takes the locks, or refuses to touch the controller.
    pub fn lock(&self, heard: &Vec<bool>) -> (r: Locking)
        ensures
            r == locking(self.needs_isa, heard@),
    {
        let n = heard.len();
        if n == 0 {
            return Locking::Ask(LockAsk::Handle(Mutex::Controller));
        }
        if !heard[0] {
            return Locking::Refused(Fault::Busy);
        }
        if n == 1 {
            return Locking::Ask(LockAsk::Take(Mutex::Controller));
        }
        if !heard[1] {
            return Locking::Refused(Fault::Busy);
        }
        if !self.needs_isa {
            return Locking::Held;
        }
        if n == 2 {
            return Locking::Ask(LockAsk::Handle(Mutex::Isa));
        }
        if !heard[2] {
            return if n == 3 {
                Locking::Ask(LockAsk::Release(Mutex::Controller))
            } else {
                Locking::Refused(Fault::Busy)
            };
        }
        if n == 3 {
            return Locking::Ask(LockAsk::Take(Mutex::Isa));
        }
        if !heard[3] {
            return if n == 4 {
                Locking::Ask(LockAsk::Release(Mutex::Controller))
            } else {
                Locking::Refused(Fault::Busy)
            };
        }
        Locking::Held
    }

    /// The locks in the order they are let go: the reverse of the order they
    /// were taken in.
    pub fn unlock(&self) -> (r: Vec<Mutex>)
        ensures
            r@ == (if self.needs_isa {
                seq![Mutex::Isa, Mutex::Controller]
            } else {
                seq![Mutex::Controller]
            }),
    {
        let mut r: Vec<Mutex> = Vec::new();
        if self.needs_isa {
            r.push(Mutex::Isa);
        }
        r.push(Mutex::Controller);
        proof {
            if self.needs_isa {
                assert(r@ == seq![Mutex::Isa, Mutex::Controller]);
            } else {
                assert(r@ == seq![Mutex::Controller]);
            }
        }
        r
    }
}

/// Whether a wait gave us the mutex. Abandoned means the previous holder died
/// mid-transaction, but the lock is ours.
pub fn was_granted(code: u32) -> (r: bool)
    ensures
        r == (code == 0 || code == 0x80),
{
    code == WAIT_OBJECT_0 || code == WAIT_ABANDONED
}

/// LpcIO's mutex is only ever asked for while the controller's is held, and a
/// refusal halfway lets the controller's go.
pub proof fn the_order_is_fixed(both: bool, heard: Seq<bool>)
    ensures
        (locking(both, heard) == Locking::Ask(LockAsk::Take(Mutex::Isa))) ==> heard.len() == 3
            && locking(both, heard.take(1)) == Locking::Ask(LockAsk::Take(Mutex::Controller))
            && heard[1],
        (locking(both, heard) is Refused && heard.len() > 2 && heard[0] && heard[1]) ==> exists|
            k: int,
        |
            2 < k < heard.len() && #[trigger] locking(both, heard.take(k)) == Locking::Ask(
                LockAsk::Release(Mutex::Controller),
            ),
{
    if locking(both, heard) is Refused && heard.len() > 2 && heard[0] && heard[1] {
        if !heard[2] {
            assert(locking(both, heard.take(3)) == Locking::Ask(
                LockAsk::Release(Mutex::Controller),
            ));
        } else {
            assert(locking(both, heard.take(4)) == Locking::Ask(
                LockAsk::Release(Mutex::Controller),
            ));
        }
    }
}

/// Taking the locks goes in order: a handle on the controller's and then the
/// lock itself, and where LpcIO is underneath its handle and lock behind it.
/// They are held once all of that worked, and not before; whatever does not
/// work is somebody else's turn, with the controller's lock given back first
/// where it was taken.
pub proof fn the_locks_are_taken_in_order(both: bool, heard: Seq<bool>)
    ensures
        heard.len() == 0 ==> locking(both, heard) == Locking::Ask(
            LockAsk::Handle(Mutex::Controller),
        ),
        heard.len() == 1 && heard[0] ==> locking(both, heard) == Locking::Ask(
            LockAsk::Take(Mutex::Controller),
        ),
        heard.len() == 2 && heard[0] && heard[1] && both ==> locking(both, heard) == Locking::Ask(
            LockAsk::Handle(Mutex::Isa),
        ),
        heard.len() == 3 && heard[0] && heard[1] && heard[2] && both ==> locking(both, heard)
            == Locking::Ask(LockAsk::Take(Mutex::Isa)),
        heard.len() == 3 && heard[0] && heard[1] && !heard[2] && both ==> locking(both, heard)
            == Locking::Ask(LockAsk::Release(Mutex::Controller)),
        heard.len() == 4 && heard[0] && heard[1] && heard[2] && !heard[3] && both ==> locking(
            both,
            heard,
        ) == Locking::Ask(LockAsk::Release(Mutex::Controller)),
        locking(both, heard) is Held <==> {
            &&& heard.len() >= 2 && heard[0] && heard[1]
            &&& both ==> heard.len() >= 4 && heard[2] && heard[3]
        },
        locking(both, heard) matches Locking::Refused(f) ==> f is Busy,
{
}

} // verus!
