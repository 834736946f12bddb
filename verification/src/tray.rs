//! Tray icon selection from the statuses of all watches.

use vstd::prelude::*;
use crate::state::WatchStatus;

verus! {

/// True when `s` holds the status `t` somewhere.
pub open spec fn has_status(s: Seq<WatchStatus>, t: WatchStatus) -> bool {
    exists|i: int| 0 <= i < s.len() && s[i] == t
}

/// The status the tray shows for a list of watch statuses: Error beats
/// Warning, which beats Maintenance, which beats Unknown; an empty list or a
/// list of successes is Success.
pub open spec fn spec_aggregate_status(s: Seq<WatchStatus>) -> WatchStatus {
    if has_status(s, WatchStatus::Error) {
        WatchStatus::Error
    } else if has_status(s, WatchStatus::Warning) {
        WatchStatus::Warning
    } else if has_status(s, WatchStatus::Maintenance) {
        WatchStatus::Maintenance
    } else if has_status(s, WatchStatus::Unknown) {
        WatchStatus::Unknown
    } else {
        WatchStatus::Success
    }
}

fn contains_status(statuses: &[WatchStatus], t: WatchStatus) -> (r: bool)
    ensures
        r == has_status(statuses@, t),
{
    let mut i: usize = 0;
    while i < statuses.len()
        invariant
            i <= statuses.len(),
            forall|j: int| 0 <= j < i ==> statuses@[j] != t,
        decreases statuses.len() - i,
    {
        if statuses[i] == t {
            return true;
        }
        i = i + 1;
    }
    false
}

/// Determines the worst status across all watches.
pub fn aggregate_status(statuses: &[WatchStatus]) -> (r: WatchStatus)
    ensures
        r == spec_aggregate_status(statuses@),
{
    if contains_status(statuses, WatchStatus::Error) {
        return WatchStatus::Error;
    }
    if contains_status(statuses, WatchStatus::Warning) {
        return WatchStatus::Warning;
    }
    if contains_status(statuses, WatchStatus::Maintenance) {
        return WatchStatus::Maintenance;
    }
    if contains_status(statuses, WatchStatus::Unknown) {
        return WatchStatus::Unknown;
    }
    WatchStatus::Success
}

/// The tray icon shown for a status.
#[derive(Debug, Clone, Copy, PartialEq, Eq, Structural)]
pub enum TrayIcon {
    Green,
    Orange,
    Red,
    Grey,
}

/// Returns the icon for a given status.
pub fn icon_for_status(status: &WatchStatus) -> (r: TrayIcon)
    ensures
        r == (match *status {
            WatchStatus::Success => TrayIcon::Green,
            WatchStatus::Warning => TrayIcon::Orange,
            WatchStatus::Error => TrayIcon::Red,
            WatchStatus::Maintenance => TrayIcon::Grey,
            WatchStatus::Unknown => TrayIcon::Grey,
        }),
{
    match status {
        WatchStatus::Success => TrayIcon::Green,
        WatchStatus::Warning => TrayIcon::Orange,
        WatchStatus::Error => TrayIcon::Red,
        WatchStatus::Maintenance => TrayIcon::Grey,
        WatchStatus::Unknown => TrayIcon::Grey,
    }
}

} // verus!
