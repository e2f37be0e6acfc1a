//! Shared UI vocabulary: live-view density and the status classes rows are
//! coloured by.

use vstd::prelude::*;

verus! {

/// Human snapshot density.
#[derive(Debug, Clone, Copy, PartialEq, Eq, Structural)]
pub enum LiveViewMode {
    Focused,
    Compact,
    Full,
}

/// The status class of a row in live and table views.
#[derive(Debug, Clone, Copy, PartialEq, Eq, Structural)]
pub enum UiStatus {
    Active,
    Working,
    Waiting,
    Awaiting,
    Retrying,
    Complete,
    Failed,
    Skipped,
}

pub open spec fn live_view_name(mode: LiveViewMode) -> Seq<char> {
    match mode {
        LiveViewMode::Focused => "focused"@,
        LiveViewMode::Compact => "compact"@,
        LiveViewMode::Full => "full"@,
    }
}

/// The `--view` spelling of `mode`.
pub fn live_view_as_str(mode: LiveViewMode) -> (r: &'static str)
    ensures
        r@ == live_view_name(mode),
{
    match mode {
        LiveViewMode::Focused => "focused",
        LiveViewMode::Compact => "compact",
        LiveViewMode::Full => "full",
    }
}

} // verus!
