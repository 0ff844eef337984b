//! The status bar of the terminal UI: the platform and system in use, and
//! the latest status, which is cleared once it has been shown long enough.
use vstd::prelude::*;
use crate::config::ComputePlatform;
use crate::messages::StatusEvent;

verus! {

/// How long a status stays, in milliseconds.
pub const STATUS_CLEAR_MILLIS: u64 = 10000;

/// The status bar's state. Times are milliseconds of a clock that does
/// not go back.
#[derive(Debug)]
pub struct StatusBar {
    pub current_status: Option<StatusEvent>,
    /// When the status was last set.
    pub last_updated: u64,
    pub status_clear_time: u64,
    pub current_platform: ComputePlatform,
    pub current_system: String,
}

/// What the status bar is told.
#[derive(Debug)]
pub enum BarEvent {
    /// A tick of the UI at the given time.
    Tick(u64),
    /// A new status at the given time.
    Status(StatusEvent, u64),
    /// Another system was selected.
    SystemSelected(String),
    Other,
}

/// The status has been shown for longer than the clear time at `now`.
pub open spec fn expired(last: u64, clear: u64, now: u64) -> bool {
    now >= last && now - last > clear
}

impl StatusBar {
    pub fn new(platform: ComputePlatform, system: String, now: u64) -> (r: StatusBar)
        ensures
            r.current_status is None,
            r.last_updated == now,
            r.status_clear_time == STATUS_CLEAR_MILLIS,
            r.current_platform == platform,
            r.current_system == system,
    {
        StatusBar {
            current_status: None,
            last_updated: now,
            status_clear_time: STATUS_CLEAR_MILLIS,
            current_platform: platform,
            current_system: system,
        }
    }

    /// Takes an event: a tick clears a status shown for longer than the
    /// clear time, a status replaces the shown one and restarts its time,
    /// a selected system is shown from then on.
    pub fn on(&mut self, ev: BarEvent)
        ensures
            final(self).status_clear_time == old(self).status_clear_time,
            final(self).current_platform == old(self).current_platform,
            match ev {
                BarEvent::Tick(now) => {
                    &&& final(self).current_status == (if expired(
                        old(self).last_updated,
                        old(self).status_clear_time,
                        now,
                    ) {
                        None
                    } else {
                        old(self).current_status
                    })
                    &&& final(self).last_updated == old(self).last_updated
                    &&& final(self).current_system == old(self).current_system
                },
                BarEvent::Status(s, now) => {
                    &&& final(self).current_status == Some(s)
                    &&& final(self).last_updated == now
                    &&& final(self).current_system == old(self).current_system
                },
                BarEvent::SystemSelected(name) => {
                    &&& final(self).current_status == old(self).current_status
                    &&& final(self).last_updated == old(self).last_updated
                    &&& final(self).current_system == name
                },
                BarEvent::Other => {
                    &&& final(self).current_status == old(self).current_status
                    &&& final(self).last_updated == old(self).last_updated
                    &&& final(self).current_system == old(self).current_system
                },
            },
    {
        match ev {
            BarEvent::Tick(now) => {
                if now >= self.last_updated && now - self.last_updated > self.status_clear_time {
                    self.current_status = None;
                }
            },
            BarEvent::Status(s, now) => {
                self.current_status = Some(s);
                self.last_updated = now;
            },
            BarEvent::SystemSelected(name) => {
                self.current_system = name;
            },
            BarEvent::Other => {},
        }
    }

    /// The platform as the bar shows it, in capitals.
    pub fn platform_label(&self) -> (r: &'static str)
        ensures
            self.current_platform == ComputePlatform::HPC ==> r@ == "HPC"@,
            self.current_platform == ComputePlatform::ML ==> r@ == "ML"@,
            self.current_platform == ComputePlatform::CW ==> r@ == "CW"@,
    {
        match self.current_platform {
            ComputePlatform::HPC => "HPC",
            ComputePlatform::ML => "ML",
            ComputePlatform::CW => "CW",
        }
    }
}

} // verus!
