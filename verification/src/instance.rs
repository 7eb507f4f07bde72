//! The settings window's named locks: a single instance, and one adapter sweep at a
//! time.

use crate::text::{chars_of, find_last_char, last_index_of, lemma_last_index_of, part, push_decimal};
use crate::text::{decimal, same_ignoring_case, same_text_ignoring_case, string_of};
use vstd::prelude::*;

verus! {

pub const SETTINGS_MUTEX_NAME: &'static str = "Local\\ForwardSlashWindows.Settings";

pub const WINDOW_TITLE: &'static str = "Forward Slash Windows";

/// The image name every settings instance runs under.
pub const SETTINGS_IMAGE_NAME: &'static str = "fswsettings.exe";

/// How often a second launch looks for the first one's window, 50 ms apart.
pub const ACTIVATION_POLLS: u32 = 200;

// ---------------------------------------------------------------------------
// A single instance
// ---------------------------------------------------------------------------

/// What became of the creation of a named mutex.
#[derive(Debug, Clone, Copy, PartialEq, Eq, Structural)]
pub enum MutexAnswer {
    /// It could not be created, with the system's error code.
    Failed(u32),
    /// It was created, with this handle.
    Created(isize),
    /// Somebody else has it.
    Exists,
}

/// How a launch goes on.
#[derive(Debug, Clone, PartialEq, Eq)]
pub enum Startup {
    /// This is the first instance: run.
    Run,
    /// Log the first text, show the second one, and exit with the code.
    Refuse { log: String, message: String, code: i32 },
    /// Another instance runs: raise its window.
    RaiseOther,
}

/// Decides by the mutex. Where ownership cannot be decided the launch is refused: a
/// duplicate window is what the mutex is there to prevent.
pub fn startup(mutex: MutexAnswer) -> (r: Startup)
    ensures
        match r {
            Startup::Run => mutex is Created,
            Startup::RaiseOther => mutex is Exists,
            Startup::Refuse { log, message, code } => {
                &&& mutex is Failed
                &&& log@ == "single-instance mutex creation failed: Win32 error "@ + decimal(
                    mutex->Failed_0 as nat,
                )
                &&& message@
                    == "Forward Slash Windows could not verify that it is not already running (Win32 error "@
                    + decimal(mutex->Failed_0 as nat) + ")."@
                &&& code == 2
            },
        },
{
    match mutex {
        MutexAnswer::Created(_) => Startup::Run,
        MutexAnswer::Exists => Startup::RaiseOther,
        MutexAnswer::Failed(error) => {
            let mut log: String = "single-instance mutex creation failed: Win32 error ".to_owned();
            push_decimal(&mut log, error as u64);
            let mut message: String = "Forward Slash Windows could not verify that it is not already running (Win32 error ".to_owned();
            push_decimal(&mut message, error as u64);
            message.push_str(").");
            Startup::Refuse { log, message, code: 2 }
        },
    }
}

/// What a second launch does next.
#[derive(Debug, Clone, Copy, PartialEq, Eq, Structural)]
pub enum RaiseStep {
    /// Raise the window that was found, and exit.
    Raise,
    /// The window may still be on its way: look again.
    LookAgain,
    /// Tell the user, and exit.
    GiveUp,
}

/// Looks for the other instance's window a limited number of times; `looks` counts
/// this one.
pub fn raise_step(found: bool, looks: u32) -> (r: RaiseStep)
    ensures
        r == if found {
            RaiseStep::Raise
        } else if looks < ACTIVATION_POLLS {
            RaiseStep::LookAgain
        } else {
            RaiseStep::GiveUp
        },
{
    if found {
        RaiseStep::Raise
    } else if looks < ACTIVATION_POLLS {
        RaiseStep::LookAgain
    } else {
        RaiseStep::GiveUp
    }
}

/// What stands behind the last separator of either kind.
pub open spec fn base_name(path: Seq<char>) -> Seq<char> {
    let back = path.skip(last_index_of(path, '\\') + 1);
    back.skip(last_index_of(back, '/') + 1)
}

/// Whether a process image is a settings window's, by its name alone and in any
/// case.
pub fn is_settings_image(path: &str) -> (r: bool)
    ensures
        r == same_ignoring_case(base_name(path@), SETTINGS_IMAGE_NAME@),
{
    let chars = chars_of(path);
    let v = chars.as_slice();
    let n: usize = v.len();
    proof {
        lemma_last_index_of(v@, '\\');
    }
    let back = match find_last_char(v, '\\') {
        Some(at) => part(v, at + 1, n),
        None => v,
    };
    proof {
        assert(back@ =~= path@.skip(last_index_of(path@, '\\') + 1));
        lemma_last_index_of(back@, '/');
    }
    let m: usize = back.len();
    let name = match find_last_char(back, '/') {
        Some(at) => part(back, at + 1, m),
        None => back,
    };
    assert(name@ =~= back@.skip(last_index_of(back@, '/') + 1));
    same_text_ignoring_case(string_of(name).as_str(), SETTINGS_IMAGE_NAME)
}

// ---------------------------------------------------------------------------
// One sweep at a time
// ---------------------------------------------------------------------------

/// How this process stands to the sweep lock.
#[derive(Debug, Clone, Copy, PartialEq, Eq, Structural)]
pub enum Hold {
    Free,
    /// The lock could not be evaluated; it is taken as held, so that the work, which
    /// can be repeated, still runs.
    Assumed,
    /// It is held by this handle.
    Held(isize),
}

/// The lock that keeps two processes from sweeping the adapters at once. Existence
/// decides, not ownership: whoever creates the mutex keeps its handle for the length
/// of the work, and nobody ever waits.
#[derive(Debug, Clone, Copy, PartialEq, Eq, Structural)]
pub struct SweepLock {
    pub hold: Hold,
}

impl Default for SweepLock {
    fn default() -> (r: Self)
        ensures
            r.hold == Hold::Free,
    {
        SweepLock { hold: Hold::Free }
    }
}

impl SweepLock {
    /// Whether an attempt to take the lock creates the mutex at all.
    pub fn may_try(&self) -> (r: bool)
        ensures
            r == (self.hold == Hold::Free),
    {
        self.hold == Hold::Free
    }

    /// Takes the lock by the mutex's answer. `false` means somebody else is
    /// sweeping, this process included.
    pub fn acquire(&mut self, mutex: MutexAnswer) -> (r: bool)
        ensures
            r == (old(self).hold == Hold::Free && mutex != MutexAnswer::Exists),
            final(self).hold == if !r {
                old(self).hold
            } else {
                match mutex {
                    MutexAnswer::Created(handle) => Hold::Held(handle),
                    _ => Hold::Assumed,
                }
            },
    {
        if !self.may_try() {
            return false;
        }
        match mutex {
            MutexAnswer::Exists => false,
            MutexAnswer::Failed(_) => {
                self.hold = Hold::Assumed;
                true
            },
            MutexAnswer::Created(handle) => {
                self.hold = Hold::Held(handle);
                true
            },
        }
    }

    /// Lets the lock go, and returns the handle to close. Nothing happens where this
    /// process does not hold it.
    pub fn release(&mut self) -> (r: Option<isize>)
        ensures
            r == match old(self).hold {
                Hold::Held(handle) => Some(handle),
                _ => None,
            },
            final(self).hold == Hold::Free,
    {
        let handle = match self.hold {
            Hold::Held(handle) => Some(handle),
            _ => None,
        };
        self.hold = Hold::Free;
        handle
    }
}

}
