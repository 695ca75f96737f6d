//! The mode decisions of one tick of the run loop.
//!
//! A tick does outside work (screens, buttons, the menu and time-set
//! screens) in between its decisions; the caller performs that work in the
//! order the methods below are called and hands back what it saw.
//!
//! Order of a tick: [`ModeState::boot_step`] (a tick that boots ends
//! there); the periodic updates, which may set `ringing_alarm`; the chimes
//! when [`runs_chimes`]; [`ModeState::clock_button`] with the push button
//! when [`reads_button_first`]; then, by [`dispatch`] of the mode:
//! [`ModeState::after_menu`], [`ModeState::after_time_set`],
//! [`ModeState::after_alarm_check`], [`ModeState::after_button`] or
//! [`ModeState::leave_boot`].

use vstd::prelude::*;
use crate::runtime::mode::UiMode;

verus! {

/// The part of the run-loop state that the mode decisions read and change.
#[derive(Clone, Copy, Debug, PartialEq, Eq, Structural)]
pub struct ModeState {
    pub mode: UiMode,
    pub boot_done: bool,
    /// The alarm that is ringing, by its index in the alarm table.
    pub ringing_alarm: Option<usize>,
}

/// What a mode asks of the caller in the second half of a tick.
#[derive(Clone, Copy, Debug, PartialEq, Eq, Structural)]
pub enum ModeTask {
    /// Run the menu, then report its choice to `after_menu`.
    UpdateMenu,
    /// Run the time-set screen, then report to `after_time_set`.
    UpdateTimeSet,
    /// Look up the ringing alarm (if any), then report to `after_alarm_check`.
    CheckAlarm,
    /// Read the push button, then report to `after_button`.
    ReadButton,
    /// Nothing to run; call `leave_boot`.
    LeaveBoot,
}

pub open spec fn task_of(mode: UiMode) -> ModeTask {
    match mode {
        UiMode::Menu => ModeTask::UpdateMenu,
        UiMode::TimeSet => ModeTask::UpdateTimeSet,
        UiMode::Clock => ModeTask::CheckAlarm,
        UiMode::Alarm => ModeTask::ReadButton,
        UiMode::About => ModeTask::ReadButton,
        UiMode::Boot => ModeTask::LeaveBoot,
    }
}

/// The task the mode asks for.
pub fn dispatch(mode: UiMode) -> (r: ModeTask)
    ensures
        r == task_of(mode),
{
    match mode {
        UiMode::Menu => ModeTask::UpdateMenu,
        UiMode::TimeSet => ModeTask::UpdateTimeSet,
        UiMode::Clock => ModeTask::CheckAlarm,
        UiMode::Alarm => ModeTask::ReadButton,
        UiMode::About => ModeTask::ReadButton,
        UiMode::Boot => ModeTask::LeaveBoot,
    }
}

/// The hourly chimes run only on the clock screen.
pub fn runs_chimes(mode: UiMode) -> (r: bool)
    ensures
        r == (mode == UiMode::Clock),
{
    mode == UiMode::Clock
}

/// On the clock screen the push button is read before the mode's task.
pub fn reads_button_first(mode: UiMode) -> (r: bool)
    ensures
        r == (mode == UiMode::Clock),
{
    mode == UiMode::Clock
}

/// The clock face is drawn on the clock and alarm screens.
pub fn shows_clock(mode: UiMode) -> (r: bool)
    ensures
        r == (mode == UiMode::Clock || mode == UiMode::Alarm),
{
    mode == UiMode::Clock || mode == UiMode::Alarm
}

/// The screen drawn over the rest: the menu, the about box, or none.
pub fn overlay(mode: UiMode) -> (r: Option<UiMode>)
    ensures
        r == (if mode == UiMode::Menu || mode == UiMode::About { Some(mode) } else { None::<UiMode> }),
{
    match mode {
        UiMode::Menu => Some(UiMode::Menu),
        UiMode::About => Some(UiMode::About),
        _ => None,
    }
}

impl ModeState {
    /// The state at power-on: booting, no alarm ringing.
    pub fn new() -> (r: Self)
        ensures
            r == (ModeState { mode: UiMode::Boot, boot_done: false, ringing_alarm: None }),
    {
        ModeState { mode: UiMode::Boot, boot_done: false, ringing_alarm: None }
    }

    /// The first tick boots: it returns `true` (the caller then shows the
    /// boot screen, loads the alarms and ends the tick) and goes to the
    /// clock. Later ticks return `false` and change nothing.
    pub fn boot_step(&mut self) -> (booted: bool)
        ensures
            booted == !old(self).boot_done,
            booted ==> *final(self) == (ModeState { mode: UiMode::Clock, boot_done: true, ..*old(self) }),
            !booted ==> *final(self) == *old(self),
    {
        if !self.boot_done {
            self.boot_done = true;
            self.mode = UiMode::Clock;
            return true;
        }
        false
    }

    /// On the clock screen, a press opens the menu.
    pub fn clock_button(&mut self, pressed: bool)
        ensures
            *final(self) == (if old(self).mode == UiMode::Clock && pressed {
                ModeState { mode: UiMode::Menu, ..*old(self) }
            } else {
                *old(self)
            }),
    {
        if self.mode == UiMode::Clock && pressed {
            self.mode = UiMode::Menu;
        }
    }

    /// After the menu ran: open the time-set screen (the caller starts its
    /// editing), else the about box, else close to the clock, as the menu
    /// chose; otherwise stay in the menu. Returns whether time setting
    /// starts.
    pub fn after_menu(&mut self, open_time_set: bool, open_about: bool, close: bool) -> (start_editing: bool)
        requires
            old(self).mode == UiMode::Menu,
        ensures
            start_editing == open_time_set,
            *final(self) == state_after_task(*old(self), open_time_set, open_about, close, false, false, false),
            final(self).mode == mode_after_task(*old(self), open_time_set, open_about, close, false, false, false),
            final(self).boot_done == old(self).boot_done,
            final(self).ringing_alarm == old(self).ringing_alarm,
            final(self).mode == if open_time_set {
                UiMode::TimeSet
            } else if open_about {
                UiMode::About
            } else if close {
                UiMode::Clock
            } else {
                UiMode::Menu
            },
    {
        if open_time_set {
            self.mode = UiMode::TimeSet;
            true
        } else if open_about {
            self.mode = UiMode::About;
            false
        } else if close {
            self.mode = UiMode::Clock;
            false
        } else {
            false
        }
    }

    /// After the time-set screen ran: back to the menu once editing ended.
    pub fn after_time_set(&mut self, editing: bool)
        requires
            old(self).mode == UiMode::TimeSet,
        ensures
            *final(self) == state_after_task(*old(self), false, false, false, editing, false, false),
            final(self).mode == mode_after_task(*old(self), false, false, false, editing, false, false),
            *final(self) == (if editing {
                *old(self)
            } else {
                ModeState { mode: UiMode::Menu, ..*old(self) }
            }),
    {
        if !editing {
            self.mode = UiMode::Menu;
        }
    }

    /// On the clock screen: when an alarm rings and its entry exists
    /// (`alarm_present`; the caller then shows it), go to the alarm screen.
    pub fn after_alarm_check(&mut self, alarm_present: bool)
        requires
            old(self).mode == UiMode::Clock,
        ensures
            *final(self) == state_after_task(*old(self), false, false, false, false, alarm_present, false),
            final(self).mode == mode_after_task(*old(self), false, false, false, false, alarm_present, false),
            *final(self) == (if old(self).ringing_alarm is Some && alarm_present {
                ModeState { mode: UiMode::Alarm, ..*old(self) }
            } else {
                *old(self)
            }),
    {
        if self.ringing_alarm.is_some() && alarm_present {
            self.mode = UiMode::Alarm;
        }
    }

    /// On the alarm screen or the about box: a press returns to the clock;
    /// leaving the alarm screen silences the alarm (the caller hides it).
    pub fn after_button(&mut self, pressed: bool)
        requires
            old(self).mode == UiMode::Alarm || old(self).mode == UiMode::About,
        ensures
            *final(self) == state_after_task(*old(self), false, false, false, false, false, pressed),
            final(self).mode == mode_after_task(*old(self), false, false, false, false, false, pressed),
            !pressed ==> *final(self) == *old(self),
            pressed && old(self).mode == UiMode::Alarm ==> *final(self) == (ModeState {
                mode: UiMode::Clock,
                ringing_alarm: None,
                ..*old(self)
            }),
            pressed && old(self).mode == UiMode::About ==> *final(self) == (ModeState {
                mode: UiMode::Clock,
                ..*old(self)
            }),
    {
        if pressed {
            if self.mode == UiMode::Alarm {
                self.ringing_alarm = None;
            }
            self.mode = UiMode::Clock;
        }
    }

    /// A boot screen left over after booting gives way to the clock.
    pub fn leave_boot(&mut self)
        requires
            old(self).mode == UiMode::Boot,
        ensures
            *final(self) == state_after_task(*old(self), false, false, false, false, false, false),
            final(self).mode == mode_after_task(*old(self), false, false, false, false, false, false),
            *final(self) == (ModeState { mode: UiMode::Clock, ..*old(self) }),
    {
        self.mode = UiMode::Clock;
    }
}

/// The mode after the second half of a tick, by the mode's task and what
/// the caller saw: the menu's choice, whether editing goes on, whether the
/// ringing alarm's entry exists, the push button.
pub open spec fn mode_after_task(
    s: ModeState,
    open_time_set: bool,
    open_about: bool,
    close: bool,
    editing: bool,
    alarm_present: bool,
    pressed: bool,
) -> UiMode {
    match s.mode {
        UiMode::Menu => if open_time_set {
            UiMode::TimeSet
        } else if open_about {
            UiMode::About
        } else if close {
            UiMode::Clock
        } else {
            UiMode::Menu
        },
        UiMode::TimeSet => if editing {
            UiMode::TimeSet
        } else {
            UiMode::Menu
        },
        UiMode::Clock => if s.ringing_alarm is Some && alarm_present {
            UiMode::Alarm
        } else {
            UiMode::Clock
        },
        UiMode::Alarm => if pressed {
            UiMode::Clock
        } else {
            UiMode::Alarm
        },
        UiMode::About => if pressed {
            UiMode::Clock
        } else {
            UiMode::About
        },
        UiMode::Boot => UiMode::Clock,
    }
}

/// The state after the second half of a tick: the mode by
/// [`mode_after_task`]; a press that leaves the alarm screen also silences
/// the alarm.
pub open spec fn state_after_task(
    s: ModeState,
    open_time_set: bool,
    open_about: bool,
    close: bool,
    editing: bool,
    alarm_present: bool,
    pressed: bool,
) -> ModeState {
    let mode = mode_after_task(s, open_time_set, open_about, close, editing, alarm_present, pressed);
    if s.mode == UiMode::Alarm && pressed {
        ModeState { mode, ringing_alarm: None, ..s }
    } else {
        ModeState { mode, ..s }
    }
}

/// The state after a whole tick, as the methods compose in the order the
/// module documentation gives: a first tick boots to the clock and ends;
/// otherwise the periodic updates leave `ringing` as the ringing alarm,
/// a press read first on the clock screen (`first_press`) opens the menu,
/// and the mode's task runs with what the caller saw.
pub open spec fn tick_state(
    s: ModeState,
    ringing: Option<usize>,
    first_press: bool,
    open_time_set: bool,
    open_about: bool,
    close: bool,
    editing: bool,
    alarm_present: bool,
    pressed: bool,
) -> ModeState {
    if !s.boot_done {
        ModeState { mode: UiMode::Clock, boot_done: true, ..s }
    } else {
        let s1 = ModeState { ringing_alarm: ringing, ..s };
        let s2 = if s1.mode == UiMode::Clock && first_press {
            ModeState { mode: UiMode::Menu, ..s1 }
        } else {
            s1
        };
        state_after_task(s2, open_time_set, open_about, close, editing, alarm_present, pressed)
    }
}

/// Law: after any tick the clock has booted and is off the boot screen;
/// the first tick ends on the clock screen and changes nothing else; and
/// the alarm screen is left only by a press, which silences the alarm.
pub proof fn lemma_whole_tick(
    s: ModeState,
    ringing: Option<usize>,
    first_press: bool,
    open_time_set: bool,
    open_about: bool,
    close: bool,
    editing: bool,
    alarm_present: bool,
    pressed: bool,
)
    ensures
        ({
            let t = tick_state(s, ringing, first_press, open_time_set, open_about, close, editing, alarm_present, pressed);
            &&& t.boot_done
            &&& t.mode != UiMode::Boot
            &&& !s.boot_done ==> t == (ModeState { mode: UiMode::Clock, boot_done: true, ..s })
            &&& s.boot_done && s.mode == UiMode::Alarm ==> (t.mode == UiMode::Alarm && t.ringing_alarm == ringing)
                || (pressed && t.mode == UiMode::Clock && t.ringing_alarm is None)
        }),
{
}

/// Law: whatever the caller reports, a tick never ends on the boot screen.
pub proof fn lemma_tick_leaves_boot(
    s: ModeState,
    open_time_set: bool,
    open_about: bool,
    close: bool,
    editing: bool,
    alarm_present: bool,
    pressed: bool,
)
    ensures
        mode_after_task(s, open_time_set, open_about, close, editing, alarm_present, pressed)
            != UiMode::Boot,
{
}

/// Law: the alarm screen is only entered from the clock screen, and only
/// while an alarm rings.
pub proof fn lemma_alarm_needs_ringing(
    s: ModeState,
    open_time_set: bool,
    open_about: bool,
    close: bool,
    editing: bool,
    alarm_present: bool,
    pressed: bool,
)
    requires
        s.mode != UiMode::Alarm,
        mode_after_task(s, open_time_set, open_about, close, editing, alarm_present, pressed)
            == UiMode::Alarm,
    ensures
        s.mode == UiMode::Clock,
        s.ringing_alarm is Some,
{
}

} // verus!
