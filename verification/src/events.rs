//! The labels and messages under which the dashboard lists streamer events.

use crate::text::opt_view;
use vstd::prelude::*;

verus! {

/// Severity of a log event.
#[derive(Clone, Copy, Debug, PartialEq, Eq, Structural)]
pub enum LogSeverity {
    Error,
    Warning,
    Info,
    Debug,
}

/// The kind of an event, with the text its label and message depend on.
#[derive(Debug)]
pub enum EventKind {
    Log { severity: LogSeverity, content: String },
    DebugGroup { group: String, message: String },
    Session,
    StatisticsSummary,
    GraphStatistics,
    Tracking,
    Buttons,
    Haptics,
    DriversList,
    ServerRequestsSelfRestart,
    Adb,
    NewVersionFound { version: String },
    OxrFrameSummary,
}

/// The label of an event kind: the severity for a log entry, the group for a
/// debug group, a fixed tag otherwise.
pub open spec fn label_spec(k: EventKind) -> Seq<char> {
    match k {
        EventKind::Log { severity: LogSeverity::Error, .. } => "ERROR"@,
        EventKind::Log { severity: LogSeverity::Warning, .. } => "WARNING"@,
        EventKind::Log { severity: LogSeverity::Info, .. } => "INFO"@,
        EventKind::Log { severity: LogSeverity::Debug, .. } => "DEBUG"@,
        EventKind::DebugGroup { group, .. } => group@,
        EventKind::Session => "SESSION"@,
        EventKind::StatisticsSummary => "STATS"@,
        EventKind::GraphStatistics => "GRAPH"@,
        EventKind::Tracking => "TRACKING"@,
        EventKind::Buttons => "BUTTONS"@,
        EventKind::Haptics => "HAPTICS"@,
        EventKind::DriversList => "DRV LIST"@,
        EventKind::ServerRequestsSelfRestart => "RESTART"@,
        EventKind::Adb => "ADB"@,
        EventKind::NewVersionFound { .. } => "NEW VER"@,
        EventKind::OxrFrameSummary => "OXR STATS"@,
    }
}

pub fn event_type_string(k: &EventKind) -> (r: String)
    ensures
        r@ == label_spec(*k),
{
    match k {
        EventKind::Log { severity: LogSeverity::Error, .. } => String::from_str("ERROR"),
        EventKind::Log { severity: LogSeverity::Warning, .. } => String::from_str("WARNING"),
        EventKind::Log { severity: LogSeverity::Info, .. } => String::from_str("INFO"),
        EventKind::Log { severity: LogSeverity::Debug, .. } => String::from_str("DEBUG"),
        EventKind::DebugGroup { group, .. } => group.clone(),
        EventKind::Session => String::from_str("SESSION"),
        EventKind::StatisticsSummary => String::from_str("STATS"),
        EventKind::GraphStatistics => String::from_str("GRAPH"),
        EventKind::Tracking => String::from_str("TRACKING"),
        EventKind::Buttons => String::from_str("BUTTONS"),
        EventKind::Haptics => String::from_str("HAPTICS"),
        EventKind::DriversList => String::from_str("DRV LIST"),
        EventKind::ServerRequestsSelfRestart => String::from_str("RESTART"),
        EventKind::Adb => String::from_str("ADB"),
        EventKind::NewVersionFound { .. } => String::from_str("NEW VER"),
        EventKind::OxrFrameSummary => String::from_str("OXR STATS"),
    }
}

/// A log entry is labelled with its own severity's name: ERROR, WARNING,
/// INFO or DEBUG, so that entries of different severities never share a
/// label; a debug group is labelled with its group and carries its message.
pub proof fn law_event_labels(
    s: LogSeverity,
    t: LogSeverity,
    c1: String,
    c2: String,
    group: String,
    message: String,
)
    ensures
        label_spec(EventKind::Log { severity: LogSeverity::Error, content: c1 }) == "ERROR"@,
        label_spec(EventKind::Log { severity: LogSeverity::Warning, content: c1 }) == "WARNING"@,
        label_spec(EventKind::Log { severity: LogSeverity::Info, content: c1 }) == "INFO"@,
        label_spec(EventKind::Log { severity: LogSeverity::Debug, content: c1 }) == "DEBUG"@,
        (label_spec(EventKind::Log { severity: s, content: c1 }) == label_spec(
            EventKind::Log { severity: t, content: c2 },
        )) <==> s == t,
        message_spec(EventKind::Log { severity: s, content: c1 }) == Some(c1@),
        label_spec(EventKind::DebugGroup { group, message }) == group@,
        message_spec(EventKind::DebugGroup { group, message }) == Some(message@),
{
    reveal_strlit("ERROR");
    reveal_strlit("WARNING");
    reveal_strlit("INFO");
    reveal_strlit("DEBUG");
    assert("ERROR"@ != "DEBUG"@) by {
        assert("ERROR"@[0] != "DEBUG"@[0]);
    }
    assert("ERROR"@.len() != "WARNING"@.len() && "ERROR"@.len() != "INFO"@.len());
    assert("WARNING"@.len() != "INFO"@.len() && "WARNING"@.len() != "DEBUG"@.len());
    assert("INFO"@.len() != "DEBUG"@.len());
}

/// The plain-text message of an event kind; `None` for the kinds whose
/// message is their payload written as JSON (tracking, buttons, haptics,
/// drivers list, ADB).
pub open spec fn message_spec(k: EventKind) -> Option<Seq<char>> {
    match k {
        EventKind::Log { content, .. } => Some(content@),
        EventKind::DebugGroup { message, .. } => Some(message@),
        EventKind::Session => Some("Updated"@),
        EventKind::StatisticsSummary => Some(""@),
        EventKind::GraphStatistics => Some(""@),
        EventKind::ServerRequestsSelfRestart => Some("Request for server restart"@),
        EventKind::NewVersionFound { version } => Some(version@),
        EventKind::OxrFrameSummary => Some(""@),
        _ => None,
    }
}

pub fn event_message(k: &EventKind) -> (r: Option<String>)
    ensures
        opt_view(r) == message_spec(*k),
{
    match k {
        EventKind::Log { content, .. } => Some(content.clone()),
        EventKind::DebugGroup { message, .. } => Some(message.clone()),
        EventKind::Session => Some(String::from_str("Updated")),
        EventKind::StatisticsSummary => Some(String::from_str("")),
        EventKind::GraphStatistics => Some(String::from_str("")),
        EventKind::ServerRequestsSelfRestart => Some(String::from_str("Request for server restart")),
        EventKind::NewVersionFound { version } => Some(version.clone()),
        EventKind::OxrFrameSummary => Some(String::from_str("")),
        EventKind::Tracking | EventKind::Buttons | EventKind::Haptics | EventKind::DriversList
        | EventKind::Adb => None,
    }
}

} // verus!
