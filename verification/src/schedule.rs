//! Periodic checkups through systemd user timers: the unit files that run
//! `sysmedic monitor` on a schedule. Installing them is the caller's part.

use vstd::prelude::*;
use vstd::string::StringExecFns;

use crate::text::push_str;

verus! {

/// The unit that runs one checkup.
pub const SERVICE: &'static str = "sysmedic-checkup.service";

/// The timer that triggers it.
pub const TIMER: &'static str = "sysmedic-checkup.timer";

/// How often a scheduled checkup runs.
#[derive(Debug, Clone, Copy, PartialEq, Eq, Structural)]
pub enum Cadence {
    Daily,
    Weekly,
    Monthly,
}

/// When a cadence fires: a little after nine in the morning, off the hour.
pub open spec fn on_calendar_text(c: Cadence) -> Seq<char> {
    match c {
        Cadence::Daily => "*-*-* 09:17:00"@,
        Cadence::Weekly => "Mon *-*-* 09:17:00"@,
        Cadence::Monthly => "*-*-01 09:17:00"@,
    }
}

/// A cadence's name.
pub open spec fn cadence_label(c: Cadence) -> Seq<char> {
    match c {
        Cadence::Daily => "daily"@,
        Cadence::Weekly => "weekly"@,
        Cadence::Monthly => "monthly"@,
    }
}

impl Cadence {
    pub fn on_calendar(self) -> (s: &'static str)
        ensures
            s@ == on_calendar_text(self),
    {
        match self {
            Cadence::Daily => "*-*-* 09:17:00",
            Cadence::Weekly => "Mon *-*-* 09:17:00",
            Cadence::Monthly => "*-*-01 09:17:00",
        }
    }

    pub fn label(self) -> (s: &'static str)
        ensures
            s@ == cadence_label(self),
    {
        match self {
            Cadence::Daily => "daily",
            Cadence::Weekly => "weekly",
            Cadence::Monthly => "monthly",
        }
    }
}

/// The service unit for the executable at `exe`: a oneshot that runs
/// `monitor`, with the path quoted so a path with spaces stays one word.
pub open spec fn service_unit_text(exe: Seq<char>) -> Seq<char> {
    "[Unit]\nDescription=SysMedic scheduled checkup\n\n[Service]\nType=oneshot\nExecStart=\""@ + exe
        + "\" monitor\n"@
}

/// The `.service` unit that runs one checkup.
pub fn service_unit(exe: &str) -> (unit: String)
    ensures
        unit@ == service_unit_text(exe@),
{
    let mut unit = String::from_str(
        "[Unit]\nDescription=SysMedic scheduled checkup\n\n[Service]\nType=oneshot\nExecStart=\"",
    );
    push_str(&mut unit, exe);
    push_str(&mut unit, "\" monitor\n");
    unit
}

/// The timer unit for `c`: it fires on the cadence's calendar time, spread
/// by up to an hour so machines do not all fire at once, and catches up on
/// a run missed while the machine was off.
pub open spec fn timer_unit_text(c: Cadence) -> Seq<char> {
    "[Unit]\nDescription=SysMedic "@ + cadence_label(c) + " checkup timer\n\n[Timer]\nOnCalendar="@
        + on_calendar_text(c)
        + "\nRandomizedDelaySec=1h\nPersistent=true\n\n[Install]\nWantedBy=timers.target\n"@
}

/// The `.timer` unit that triggers the service on `cadence`.
pub fn timer_unit(cadence: Cadence) -> (unit: String)
    ensures
        unit@ == timer_unit_text(cadence),
{
    let mut unit = String::from_str("[Unit]\nDescription=SysMedic ");
    push_str(&mut unit, cadence.label());
    push_str(&mut unit, " checkup timer\n\n[Timer]\nOnCalendar=");
    push_str(&mut unit, cadence.on_calendar());
    push_str(
        &mut unit,
        "\nRandomizedDelaySec=1h\nPersistent=true\n\n[Install]\nWantedBy=timers.target\n",
    );
    unit
}

} // verus!
