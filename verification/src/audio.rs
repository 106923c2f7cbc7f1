//! Audio service: the stream entries built from what the sound server
//! reports, and the decisions its polling loops take.
//!
//! The sound server's mainloop, context and introspection calls live with
//! the transport, which cannot be driven from verified code: it hands each
//! reported stream's fields over as plain values, and asks the step
//! functions here what its polling loops should do next.

use vstd::prelude::*;

verus! {

/// A capture stream's state, as the sound server reports it.
#[derive(Eq, PartialEq, Structural, Debug, Clone, Copy)]
pub enum AudioSourceState {
    Invalid,
    Running,
    Idle,
    Suspended,
}

/// A playback stream's state, as the sound server reports it.
#[derive(Eq, PartialEq, Structural, Debug, Clone, Copy)]
pub enum AudioSinkState {
    Invalid,
    Running,
    Idle,
    Suspended,
}

/// What kind of stream an entry describes.
#[derive(Debug)]
pub enum StreamType {
    Microphones(AudioSourceState),
    App(String),
    Speaker(AudioSinkState, u32),
    Recording(String),
}

/// One stream as shown to the consumer.
#[derive(Debug)]
pub struct StreamEntry {
    pub name: String,
    pub description: String,
    pub is_muted: bool,
    pub volume: Vec<u32>,
    pub icon_name: String,
    pub type_: StreamType,
    pub id: u32,
}

/// The fields the transport reads from one playback device.
#[derive(Debug)]
pub struct SinkFields {
    pub name: Option<String>,
    pub description: Option<String>,
    pub mute: bool,
    pub volumes: Vec<u32>,
    pub icon_prop: Option<String>,
    pub state: AudioSinkState,
    pub base_volume: u32,
    pub index: u32,
}

/// The fields the transport reads from one capture device.
#[derive(Debug)]
pub struct SourceFields {
    pub name: Option<String>,
    pub description: Option<String>,
    pub mute: bool,
    pub volumes: Vec<u32>,
    pub icon_prop: Option<String>,
    pub state: AudioSourceState,
    pub index: u32,
}

/// The fields the transport reads from one application's playback stream.
#[derive(Debug)]
pub struct SinkInputFields {
    pub name: Option<String>,
    pub mute: bool,
    pub volumes: Vec<u32>,
    pub icon_prop: Option<String>,
    pub app_name: Option<String>,
    pub index: u32,
}

/// The fields the transport reads from one recording stream.
#[derive(Debug)]
pub struct SourceOutputFields {
    pub name: Option<String>,
    pub mute: bool,
    pub volumes: Vec<u32>,
    pub icon_prop: Option<String>,
    pub device_description: Option<String>,
    pub app_name: Option<String>,
    pub index: u32,
}

/// The view of an optional string with a literal default.
pub open spec fn or_default(o: Option<String>, d: Seq<char>) -> Seq<char> {
    match o {
        Some(s) => s@,
        None => d,
    }
}

fn unwrap_or_str(o: Option<String>, d: &str) -> (r: String)
    ensures
        r@ == or_default(o, d@),
{
    match o {
        Some(s) => s,
        None => String::from_str(d),
    }
}

impl StreamEntry {
    /// The entry for a playback device.  The server names every device, so
    /// a missing name or description is outside this constructor's domain.
    pub fn from_sink(f: SinkFields) -> (r: StreamEntry)
        requires
            f.name is Some,
            f.description is Some,
        ensures
            r.name@ == f.name->Some_0@,
            r.description@ == f.description->Some_0@,
            r.is_muted == f.mute,
            r.volume@ == f.volumes@,
            r.icon_name@ == or_default(f.icon_prop, "audio-card-analog-pci"@),
            r.type_ matches StreamType::Speaker(s, b) && s == f.state && b == f.base_volume,
            r.id == f.index,
    {
        let name = match f.name {
            Some(n) => n,
            None => String::new(),
        };
        let description = match f.description {
            Some(d) => d,
            None => String::new(),
        };
        StreamEntry {
            name,
            description,
            is_muted: f.mute,
            volume: f.volumes,
            icon_name: unwrap_or_str(f.icon_prop, "audio-card-analog-pci"),
            type_: StreamType::Speaker(f.state, f.base_volume),
            id: f.index,
        }
    }

    /// The entry for a capture device.
    pub fn from_source(f: SourceFields) -> (r: StreamEntry)
        requires
            f.name is Some,
            f.description is Some,
        ensures
            r.name@ == f.name->Some_0@,
            r.description@ == f.description->Some_0@,
            r.is_muted == f.mute,
            r.volume@ == f.volumes@,
            r.icon_name@ == or_default(f.icon_prop, "audio-card-analog-pci"@),
            r.type_ matches StreamType::Microphones(s) && s == f.state,
            r.id == f.index,
    {
        let name = match f.name {
            Some(n) => n,
            None => String::new(),
        };
        let description = match f.description {
            Some(d) => d,
            None => String::new(),
        };
        StreamEntry {
            name,
            description,
            is_muted: f.mute,
            volume: f.volumes,
            icon_name: unwrap_or_str(f.icon_prop, "audio-card-analog-pci"),
            type_: StreamType::Microphones(f.state),
            id: f.index,
        }
    }

    /// The entry for an application's playback stream: the stream's name
    /// doubles as the description, and an unnamed application is shown as
    /// unknown.
    pub fn from_sink_input(f: SinkInputFields) -> (r: StreamEntry)
        requires
            f.name is Some,
        ensures
            r.name@ == f.name->Some_0@,
            r.description@ == f.name->Some_0@,
            r.is_muted == f.mute,
            r.volume@ == f.volumes@,
            r.icon_name@ == or_default(f.icon_prop, "audio-card-analog-pci"@),
            r.type_ matches StreamType::App(a) && a@ == or_default(f.app_name, "unknown"@),
            r.id == f.index,
    {
        let name = match f.name {
            Some(n) => n,
            None => String::new(),
        };
        let description = name.clone();
        StreamEntry {
            name,
            description,
            is_muted: f.mute,
            volume: f.volumes,
            icon_name: unwrap_or_str(f.icon_prop, "audio-card-analog-pci"),
            type_: StreamType::App(unwrap_or_str(f.app_name, "unknown")),
            id: f.index,
        }
    }

    /// The entry for a recording stream: described by its device when one
    /// is named, else by its own name.
    pub fn from_source_output(f: SourceOutputFields) -> (r: StreamEntry)
        requires
            f.name is Some,
        ensures
            r.name@ == f.name->Some_0@,
            r.description@ == (match f.device_description {
                Some(d) => d@,
                None => f.name->Some_0@,
            }),
            r.is_muted == f.mute,
            r.volume@ == f.volumes@,
            r.icon_name@ == or_default(f.icon_prop, "record"@),
            r.type_ matches StreamType::Recording(a) && a@ == or_default(f.app_name, "unknown"@),
            r.id == f.index,
    {
        let name = match f.name {
            Some(n) => n,
            None => String::new(),
        };
        let description = match f.device_description {
            Some(d) => d,
            None => name.clone(),
        };
        StreamEntry {
            name,
            description,
            is_muted: f.mute,
            volume: f.volumes,
            icon_name: unwrap_or_str(f.icon_prop, "record"),
            type_: StreamType::Recording(unwrap_or_str(f.app_name, "unknown")),
            id: f.index,
        }
    }
}

/// Why the audio service cannot be served.
#[derive(Debug, PartialEq, Eq, Structural)]
pub enum AudioServiceError {
    NewMainloopError,
    NewContextError,
    ConnectContextError(i32),
    IterateError,
    ContextTerminatedError,
}

/// One turn of the sound server's mainloop, reduced to what the decisions
/// read.
#[derive(Eq, PartialEq, Structural, Debug, Clone, Copy)]
pub enum IterateOutcome {
    Quit,
    Failure,
    Success,
}

/// The connection's state, as the sound server reports it.
#[derive(Eq, PartialEq, Structural, Debug, Clone, Copy)]
pub enum ContextState {
    Unconnected,
    Connecting,
    Authorizing,
    SettingName,
    Ready,
    Failed,
    Terminated,
}

/// What the connection poll loop does next.
#[derive(Debug, PartialEq, Eq, Structural)]
pub enum PollStep {
    Fail(AudioServiceError),
    Ready,
    Continue,
}

/// One step of waiting for the connection to become ready: a failed or
/// quit mainloop turn aborts; with the turn successful, a ready context
/// ends the wait, a failed or terminated context aborts, and anything else
/// polls again.
pub fn context_poll_step(it: IterateOutcome, st: ContextState) -> (r: PollStep)
    ensures
        (it == IterateOutcome::Quit || it == IterateOutcome::Failure) ==> r == PollStep::Fail(
            AudioServiceError::IterateError,
        ),
        it == IterateOutcome::Success && st == ContextState::Ready ==> r == PollStep::Ready,
        it == IterateOutcome::Success && (st == ContextState::Failed || st
            == ContextState::Terminated) ==> r == PollStep::Fail(
            AudioServiceError::ContextTerminatedError,
        ),
        it == IterateOutcome::Success && st != ContextState::Ready && st != ContextState::Failed
            && st != ContextState::Terminated ==> r == PollStep::Continue,
{
    match it {
        IterateOutcome::Quit => PollStep::Fail(AudioServiceError::IterateError),
        IterateOutcome::Failure => PollStep::Fail(AudioServiceError::IterateError),
        IterateOutcome::Success => match st {
            ContextState::Ready => PollStep::Ready,
            ContextState::Failed => PollStep::Fail(AudioServiceError::ContextTerminatedError),
            ContextState::Terminated => PollStep::Fail(AudioServiceError::ContextTerminatedError),
            _ => PollStep::Continue,
        },
    }
}

/// What waiting on a pending operation does next.
#[derive(Debug, PartialEq, Eq, Structural)]
pub enum OpStep {
    Fail(AudioServiceError),
    Done,
    Continue,
}

/// One step of waiting for an operation to finish: once the operation
/// stops running the wait is done; while it runs, a failed or quit
/// mainloop turn aborts and a successful one waits on.
pub fn wait_op_step(op_running: bool, it: IterateOutcome) -> (r: OpStep)
    ensures
        !op_running ==> r == OpStep::Done,
        op_running && it != IterateOutcome::Success ==> r == OpStep::Fail(
            AudioServiceError::IterateError,
        ),
        op_running && it == IterateOutcome::Success ==> r == OpStep::Continue,
{
    if !op_running {
        OpStep::Done
    } else {
        match it {
            IterateOutcome::Quit => OpStep::Fail(AudioServiceError::IterateError),
            IterateOutcome::Failure => OpStep::Fail(AudioServiceError::IterateError),
            IterateOutcome::Success => OpStep::Continue,
        }
    }
}

} // verus!
