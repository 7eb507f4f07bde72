//! Process-exit watchdog for the settings window: a process must not outlive the
//! window it once showed.

use vstd::prelude::*;

verus! {

/// Startup grace, in ticks of one second: the window's creation and the poll of a
/// second instance must never trip the watchdog.
pub const STARTUP_GRACE_TICKS: u32 = 20;

/// Ticks between asking the window's thread to quit and the last-resort exit.
pub const EXIT_GRACE_TICKS: u32 = 3;

/// What a tick does.
#[derive(Debug, Clone, Copy, PartialEq, Eq, Structural)]
pub enum TickAction {
    Nothing,
    /// Ask the window's thread to quit.
    Quit,
    /// Exit the process.
    Exit,
}

/// The watchdog's view of the window.
#[derive(Debug, Clone, Copy, PartialEq, Eq)]
pub struct ExitWatchdog {
    ticks: u32,
    dead_ticks: u32,
    window: Option<isize>,
    exit_requested: bool,
}

/// What the watchdog knows.
pub struct WatchdogText {
    pub ticks: u32,
    pub dead_ticks: u32,
    pub window: Option<isize>,
    pub exit_requested: bool,
}

impl View for ExitWatchdog {
    type V = WatchdogText;

    closed spec fn view(&self) -> WatchdogText {
        WatchdogText {
            ticks: self.ticks,
            dead_ticks: self.dead_ticks,
            window: self.window,
            exit_requested: self.exit_requested,
        }
    }
}

/// A counter that stops at its limit.
pub open spec fn counted(n: u32) -> u32 {
    if n < u32::MAX {
        (n + 1) as u32
    } else {
        u32::MAX
    }
}

/// What a tick does, and what the watchdog knows after it. During the startup
/// grace, after a requested exit, and before a window was seen, nothing happens. A
/// window that is gone is answered by one request to quit, and then by the exit.
pub open spec fn after_tick(before: WatchdogText, alive: bool) -> (WatchdogText, TickAction) {
    let ticked = WatchdogText { ticks: counted(before.ticks), ..before };
    if ticked.ticks <= STARTUP_GRACE_TICKS || before.exit_requested || before.window is None {
        (ticked, TickAction::Nothing)
    } else if before.window->Some_0 != 0 && alive {
        (WatchdogText { dead_ticks: 0, ..ticked }, TickAction::Nothing)
    } else {
        let dead = counted(before.dead_ticks);
        (
            WatchdogText { dead_ticks: dead, ..ticked },
            if dead >= EXIT_GRACE_TICKS {
                TickAction::Exit
            } else if dead == 1 {
                TickAction::Quit
            } else {
                TickAction::Nothing
            },
        )
    }
}

impl ExitWatchdog {
    pub fn new() -> (r: Self)
        ensures
            r@ == (WatchdogText { ticks: 0, dead_ticks: 0, window: None, exit_requested: false }),
    {
        ExitWatchdog { ticks: 0, dead_ticks: 0, window: None, exit_requested: false }
    }

    /// Records the window that was found.
    pub fn note_window(&mut self, window: isize)
        ensures
            final(self)@ == (WatchdogText { window: Some(window), ..old(self)@ }),
    {
        self.window = Some(window);
    }

    /// Records that the program means to exit, which silences the watchdog.
    pub fn note_exit_requested(&mut self)
        ensures
            final(self)@ == (WatchdogText { exit_requested: true, ..old(self)@ }),
    {
        self.exit_requested = true;
    }

    /// The window to ask about.
    pub fn window(&self) -> (r: Option<isize>)
        ensures
            r == self@.window,
    {
        self.window
    }

    /// One tick, for whether the window that was found is still one.
    pub fn tick(&mut self, alive: bool) -> (r: TickAction)
        ensures
            (final(self)@, r) == after_tick(old(self)@, alive),
    {
        self.ticks = self.ticks.saturating_add(1);
        if self.ticks <= STARTUP_GRACE_TICKS || self.exit_requested {
            return TickAction::Nothing;
        }
        let known = match self.window {
            Some(window) => window,
            None => {
                return TickAction::Nothing;
            },
        };
        if known != 0 && alive {
            self.dead_ticks = 0;
            return TickAction::Nothing;
        }
        self.dead_ticks = self.dead_ticks.saturating_add(1);
        if self.dead_ticks >= EXIT_GRACE_TICKS {
            TickAction::Exit
        } else if self.dead_ticks == 1 {
            TickAction::Quit
        } else {
            TickAction::Nothing
        }
    }
}

/// The watchdog's view after some ticks on which the window was gone.
pub open spec fn after_dead_ticks(before: WatchdogText, n: nat) -> WatchdogText
    decreases n,
{
    if n == 0 {
        before
    } else {
        after_tick(after_dead_ticks(before, (n - 1) as nat), false).0
    }
}

/// Once the startup grace is over, a window that was seen alive and then is gone
/// for as many ticks as the exit grace ends the process; a live window never does.
pub proof fn law_no_process_outlives_its_window(before: WatchdogText)
    requires
        before.ticks >= STARTUP_GRACE_TICKS,
        before.window is Some,
        !before.exit_requested,
        before.dead_ticks == 0,
    ensures
        after_tick(before, false).1 == TickAction::Quit,
        after_tick(after_dead_ticks(before, 2), false).1 == TickAction::Exit,
        before.window->Some_0 != 0 ==> after_tick(before, true).1 == TickAction::Nothing,
{
    reveal_with_fuel(after_dead_ticks, 3);
}

/// A requested exit silences the watchdog for good.
pub proof fn law_requested_exit_silences_the_watchdog(before: WatchdogText, alive: bool)
    requires
        before.exit_requested,
    ensures
        after_tick(before, alive).1 == TickAction::Nothing,
        after_tick(before, alive).0.exit_requested,
{
}

}
