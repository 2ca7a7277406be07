//! Small display rules: colors of context zones, message roles, skill scopes, node
//! and tool-call states, and the timestamp format of the debug log.
use vstd::prelude::*;
use crate::text::{concat3, decimal, spec_decimal, str_eq, two_digits, three_digits, spec_zero_pad};
use crate::tools::ToolCallStatus;

verus! {

/// Color of an attention anchor zone.
pub open spec fn spec_anchor_badge(zone: Seq<char>) -> Seq<char> {
    if zone == "head"@ {
        "#4080ff"@
    } else if zone == "middle"@ {
        "#c0a040"@
    } else if zone == "tail"@ {
        "#40c040"@
    } else {
        "#888"@
    }
}

/// Color of an attention anchor zone.
pub fn anchor_badge(zone: &str) -> (c: &'static str)
    ensures
        c@ == spec_anchor_badge(zone@),
{
    if str_eq(zone, "head") {
        "#4080ff"
    } else if str_eq(zone, "middle") {
        "#c0a040"
    } else if str_eq(zone, "tail") {
        "#40c040"
    } else {
        "#888"
    }
}

/// Color of a message role.
pub open spec fn spec_role_color(role: Seq<char>) -> Seq<char> {
    if role == "system"@ {
        "#c080ff"@
    } else if role == "user"@ {
        "#4080ff"@
    } else if role == "assistant"@ {
        "#40c040"@
    } else if role == "tool"@ {
        "#c0a040"@
    } else {
        "#888"@
    }
}

/// Color of a message role.
pub fn role_color(role: &str) -> (c: &'static str)
    ensures
        c@ == spec_role_color(role@),
{
    if str_eq(role, "system") {
        "#c080ff"
    } else if str_eq(role, "user") {
        "#4080ff"
    } else if str_eq(role, "assistant") {
        "#40c040"
    } else if str_eq(role, "tool") {
        "#c0a040"
    } else {
        "#888"
    }
}

/// `HH:MM:SS.mmm` for a number of milliseconds (hours may take more digits).
pub open spec fn spec_format_elapsed(ms: nat) -> Seq<char> {
    let secs = ms / 1000;
    let mins = secs / 60;
    let hours = mins / 60;
    spec_zero_pad(hours, 2) + ":"@ + spec_zero_pad(mins % 60, 2) + ":"@ + spec_zero_pad(secs % 60, 2) + "."@
        + spec_zero_pad(ms % 1000, 3)
}

/// The timestamp of a debug log line, from milliseconds since the log started.
pub fn format_elapsed(ms: u64) -> (s: String)
    ensures
        s@ == spec_format_elapsed(ms as nat),
{
    let secs = ms / 1000;
    let mins = secs / 60;
    let hours = mins / 60;
    let a = concat3(two_digits(hours).as_str(), ":", two_digits(mins % 60).as_str());
    let b = concat3(a.as_str(), ":", two_digits(secs % 60).as_str());
    let c = concat3(b.as_str(), ".", three_digits(ms % 1000).as_str());
    c
}

/// Color of a skill's scope: user skills green, repository skills blue, others yellow.
pub fn skill_scope_color(scope: &str) -> (c: &'static str)
    ensures
        c@ == (if scope@ == "User"@ {
            "#40c040"@
        } else if scope@ == "Repo"@ {
            "#4080ff"@
        } else {
            "#c0c040"@
        }),
{
    if str_eq(scope, "User") {
        "#40c040"
    } else if str_eq(scope, "Repo") {
        "#4080ff"
    } else {
        "#c0c040"
    }
}

/// Dot color of a node: green when online, red otherwise.
pub fn node_status_class(status: &str) -> (c: &'static str)
    ensures
        c@ == (if status@ == "online"@ { "bg-green-500"@ } else { "bg-red-500"@ }),
{
    if str_eq(status, "online") {
        "bg-green-500"
    } else {
        "bg-red-500"
    }
}

/// Text style of a tool call's status in the history.
pub fn tool_status_class(status: ToolCallStatus) -> (c: &'static str)
    ensures
        c@ == match status {
            ToolCallStatus::Running => "text-[#c0c040]"@,
            ToolCallStatus::Success => "text-[#40c040]"@,
            ToolCallStatus::Error => "text-[#c04040]"@,
            ToolCallStatus::Skipped => "text-[#888]"@,
        },
{
    match status {
        ToolCallStatus::Running => "text-[#c0c040]",
        ToolCallStatus::Success => "text-[#40c040]",
        ToolCallStatus::Error => "text-[#c04040]",
        ToolCallStatus::Skipped => "text-[#888]",
    }
}

/// The duration after a tool call's status: ` {ms}ms`, nothing when unknown.
pub fn duration_suffix(duration_ms: Option<u64>) -> (s: String)
    ensures
        s@ == match duration_ms {
            Some(ms) => " "@ + spec_decimal(ms as nat) + "ms"@,
            None => Seq::<char>::empty(),
        },
{
    match duration_ms {
        Some(ms) => concat3(" ", decimal(ms).as_str(), "ms"),
        None => String::new(),
    }
}

} // verus!
