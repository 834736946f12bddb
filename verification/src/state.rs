//! Watch statuses and the plain parts of the state shown to the user.

use vstd::prelude::*;
use crate::json::{JsonNumber, JsonValue};

verus! {

/// The evaluated status of a single watch entry.
#[derive(Debug, Clone, Copy, PartialEq, Eq, Structural)]
pub enum WatchStatus {
    Success,
    Warning,
    Error,
    Maintenance,
    Unknown,
}

/// The snake-case name under which a status is serialised.
pub open spec fn spec_status_name(s: WatchStatus) -> Seq<char> {
    match s {
        WatchStatus::Success => seq!['s', 'u', 'c', 'c', 'e', 's', 's'],
        WatchStatus::Warning => seq!['w', 'a', 'r', 'n', 'i', 'n', 'g'],
        WatchStatus::Error => seq!['e', 'r', 'r', 'o', 'r'],
        WatchStatus::Maintenance => seq!['m', 'a', 'i', 'n', 't', 'e', 'n', 'a', 'n', 'c', 'e'],
        WatchStatus::Unknown => seq!['u', 'n', 'k', 'n', 'o', 'w', 'n'],
    }
}

impl WatchStatus {
    /// Returns the snake-case name under which the status is serialised.
    pub fn as_str(&self) -> (r: &'static str)
        ensures
            r@ == spec_status_name(*self),
    {
        match self {
            WatchStatus::Success => {
                proof { reveal_strlit("success"); }
                "success"
            },
            WatchStatus::Warning => {
                proof { reveal_strlit("warning"); }
                "warning"
            },
            WatchStatus::Error => {
                proof { reveal_strlit("error"); }
                "error"
            },
            WatchStatus::Maintenance => {
                proof { reveal_strlit("maintenance"); }
                "maintenance"
            },
            WatchStatus::Unknown => {
                proof { reveal_strlit("unknown"); }
                "unknown"
            },
        }
    }
}

/// Resolved state of a single list item inside a List-style display block.
#[derive(Debug, Clone)]
pub struct ListItemState {
    pub title: String,
    pub status: WatchStatus,
}

/// Resolved display block (templates interpolated, expressions evaluated).
/// Bounds are numbers as the data or the configuration wrote them.
#[derive(Debug)]
pub struct DisplayState {
    pub style: String,
    pub title: Option<String>,
    pub description: Option<String>,
    pub content: Option<String>,
    pub value: Option<JsonValue>,
    pub min: Option<JsonNumber>,
    pub max: Option<JsonNumber>,
    pub items: Option<Vec<ListItemState>>,
}

/// Resolved detail panel state.
#[derive(Debug)]
pub struct DetailState {
    pub title: Option<String>,
    pub style: String,
    pub description: Option<String>,
    pub value: Option<JsonValue>,
    pub min: Option<JsonNumber>,
    pub max: Option<JsonNumber>,
}

/// Full evaluated state for one watch entry.
#[derive(Debug)]
pub struct WatchState {
    pub name: String,
    pub status: WatchStatus,
    /// Raw provider output data.
    pub data: JsonValue,
    /// Resolved display block (templates interpolated).
    pub display: DisplayState,
    /// Resolved detail panels.
    pub details: Vec<DetailState>,
    pub expand: bool,
    pub url: Option<String>,
    /// ISO 8601 timestamp of the last check.
    pub last_check: Option<String>,
    /// Human-readable error message when the provider failed.
    pub error_message: Option<String>,
}

} // verus!

verus! {

/// Severity order used when several statuses are folded into one:
/// Success < Maintenance < Unknown < Warning < Error.
pub open spec fn severity(s: WatchStatus) -> nat {
    match s {
        WatchStatus::Success => 0,
        WatchStatus::Maintenance => 1,
        WatchStatus::Unknown => 2,
        WatchStatus::Warning => 3,
        WatchStatus::Error => 4,
    }
}

/// The more severe of two statuses (the first one on a tie).
pub open spec fn spec_pick_worse(a: WatchStatus, b: WatchStatus) -> WatchStatus {
    if severity(b) > severity(a) {
        b
    } else {
        a
    }
}

fn rank(s: &WatchStatus) -> (r: u8)
    ensures
        r == severity(*s),
{
    match s {
        WatchStatus::Success => 0,
        WatchStatus::Maintenance => 1,
        WatchStatus::Unknown => 2,
        WatchStatus::Warning => 3,
        WatchStatus::Error => 4,
    }
}

/// Returns the more severe of two statuses.
pub fn pick_worse(a: WatchStatus, b: WatchStatus) -> (r: WatchStatus)
    ensures
        r == spec_pick_worse(a, b),
{
    if rank(&b) > rank(&a) {
        b
    } else {
        a
    }
}

/// Folds statuses with [`spec_pick_worse`], starting from Success.
pub open spec fn spec_worst(s: Seq<WatchStatus>) -> WatchStatus
    decreases s.len(),
{
    if s.len() == 0 {
        WatchStatus::Success
    } else {
        spec_pick_worse(spec_worst(s.drop_last()), s.last())
    }
}

/// `pick_worse` is commutative.
pub proof fn law_pick_worse_commutative(a: WatchStatus, b: WatchStatus)
    ensures
        spec_pick_worse(a, b) == spec_pick_worse(b, a),
{
}

/// `pick_worse` is associative.
pub proof fn law_pick_worse_associative(a: WatchStatus, b: WatchStatus, c: WatchStatus)
    ensures
        spec_pick_worse(spec_pick_worse(a, b), c) == spec_pick_worse(a, spec_pick_worse(b, c)),
{
}

/// `pick_worse` is idempotent, Success is its neutral element and Error absorbs.
pub proof fn law_pick_worse_identities(a: WatchStatus)
    ensures
        spec_pick_worse(a, a) == a,
        spec_pick_worse(WatchStatus::Success, a) == a,
        spec_pick_worse(a, WatchStatus::Success) == a,
        spec_pick_worse(a, WatchStatus::Error) == WatchStatus::Error,
        spec_pick_worse(WatchStatus::Error, a) == WatchStatus::Error,
{
}

/// The fold of `pick_worse` is one of the statuses (or Success when there
/// are none), and no status in the list is more severe than it.
pub proof fn law_worst_is_maximum(s: Seq<WatchStatus>)
    ensures
        forall|i: int| 0 <= i < s.len() ==> severity(s[i]) <= severity(spec_worst(s)),
        spec_worst(s) == WatchStatus::Success || exists|i: int|
            0 <= i < s.len() && s[i] == spec_worst(s),
    decreases s.len(),
{
    if s.len() > 0 {
        law_worst_is_maximum(s.drop_last());
        let w = spec_worst(s.drop_last());
        assert forall|i: int| 0 <= i < s.len() implies severity(s[i]) <= severity(spec_worst(s)) by {
            if i < s.len() - 1 {
                assert(s[i] == s.drop_last()[i]);
            }
        }
        if spec_worst(s) != WatchStatus::Success {
            if spec_worst(s) == s.last() {
                assert(s[s.len() - 1] == spec_worst(s));
            } else {
                let j = choose|j: int| 0 <= j < s.drop_last().len() && s.drop_last()[j] == w;
                assert(s[j] == spec_worst(s));
            }
        }
    }
}

} // verus!
