//! What makes a hub give a satellite link up.

use crate::ids::SatelliteHost;
use crate::text::{decimal, decimal_text};
use crate::wire::{BootstrapProfile, BootstrapStreamProfile, EngineCodec};
use vstd::prelude::*;
use vstd::string::*;

verus! {

/// A stream frame that must belong to the selected generation.
#[derive(Debug, Clone, Copy, PartialEq, Eq, Structural)]
pub enum BoundFrame {
    /// Live output.
    TerminalOutput,
    /// A page of history.
    HistoryPage,
    /// The end of a generation.
    BootstrapTombstone,
    /// The end of a history cursor.
    HistoryTombstone,
    /// A refused history request.
    HistoryRejected,
}

impl BoundFrame {
    /// The frame's protocol name.
    pub open spec fn label(self) -> Seq<char> {
        match self {
            BoundFrame::TerminalOutput => "TERMINAL_OUTPUT"@,
            BoundFrame::HistoryPage => "HISTORY_PAGE"@,
            BoundFrame::BootstrapTombstone => "BOOTSTRAP_TOMBSTONE"@,
            BoundFrame::HistoryTombstone => "HISTORY_TOMBSTONE"@,
            BoundFrame::HistoryRejected => "HISTORY_REJECTED"@,
        }
    }

    fn name(self) -> (name: &'static str)
        ensures
            name@ == self.label(),
    {
        match self {
            BoundFrame::TerminalOutput => "TERMINAL_OUTPUT",
            BoundFrame::HistoryPage => "HISTORY_PAGE",
            BoundFrame::BootstrapTombstone => "BOOTSTRAP_TOMBSTONE",
            BoundFrame::HistoryTombstone => "HISTORY_TOMBSTONE",
            BoundFrame::HistoryRejected => "HISTORY_REJECTED",
        }
    }
}

/// A protocol violation by a satellite, or a bound that it outran. Any of them
/// ends the link.
#[allow(inconsistent_fields)]
#[derive(Debug, Clone, Copy, PartialEq, Eq, Structural)]
pub enum RelayFault {
    /// A generation is encoded otherwise than negotiated.
    ProfileMismatch {
        /// How it is encoded.
        sent: BootstrapStreamProfile,
        /// What the link negotiated.
        negotiated: BootstrapProfile,
    },
    /// A generation begins while another is selected.
    OverlappingBegin {
        /// The terminal.
        terminal: u32,
    },
    /// A chunk arrived for a terminal without a generation.
    ChunkBeforeBegin {
        /// The terminal.
        terminal: u32,
    },
    /// A chunk belongs to another generation, or to a finished one.
    ChunkIdentity {
        /// The terminal.
        terminal: u32,
    },
    /// A chunk was skipped or repeated.
    ChunkSequence {
        /// The sequence that was sent.
        sent: u32,
        /// The sequence that was due.
        expected: u32,
    },
    /// READY arrived for a terminal without a generation.
    ReadyBeforeBegin {
        /// The terminal.
        terminal: u32,
    },
    /// READY belongs to another generation, or to a finished one.
    ReadyIdentity {
        /// The terminal.
        terminal: u32,
    },
    /// One generation carries too many frames.
    GenerationFrames,
    /// One generation carries too many bytes.
    GenerationBytes,
    /// Unfinished generations together carry too many frames.
    ConnectionFrames,
    /// Unfinished generations together carry too many bytes.
    ConnectionBytes,
    /// A bound frame arrived for a terminal without a generation.
    NoGeneration {
        /// The frame.
        frame: BoundFrame,
        /// The terminal.
        terminal: u32,
    },
    /// A bound frame belongs to another generation.
    InactiveIdentity {
        /// The frame.
        frame: BoundFrame,
        /// The terminal.
        terminal: u32,
    },
    /// A bound frame arrived before its generation was complete.
    BeforeReady {
        /// The frame.
        frame: BoundFrame,
        /// The terminal.
        terminal: u32,
    },
    /// The satellite refused to stop a stream.
    DetachRefused {
        /// The terminal.
        terminal: u32,
    },
    /// The satellite did not confirm in time that a stream stopped.
    DetachOverdue {
        /// How long the hub waited, in seconds.
        seconds: u64,
    },
    /// A frame that a satellite may not send.
    DirectionInvalid,
}

/// How a codec is written in a message.
pub open spec fn codec_label(codec: EngineCodec) -> Seq<char> {
    match codec {
        EngineCodec::LibghosttyCheckpointV2 => "LibghosttyCheckpointV2"@,
        EngineCodec::LibghosttySnapshotV1 => "LibghosttySnapshotV1"@,
    }
}

/// How a stream profile is written in a message.
pub open spec fn stream_profile_label(profile: BootstrapStreamProfile) -> Seq<char> {
    match profile {
        BootstrapStreamProfile::NativeState { codec } => "NativeState { codec: "@ + codec_label(
            codec,
        ) + " }"@,
        BootstrapStreamProfile::SynthesizedVtRaw => "SynthesizedVtRaw"@,
        BootstrapStreamProfile::SynthesizedVtStateSync => "SynthesizedVtStateSync"@,
    }
}

/// How a connection profile is written in a message.
pub open spec fn profile_label(profile: BootstrapProfile) -> Seq<char> {
    match profile {
        BootstrapProfile::NativeState { codec, features } => "NativeState { codec: "@ + codec_label(
            codec,
        ) + ", features: "@ + decimal(features.bits as nat) + " }"@,
        BootstrapProfile::SynthesizedVtRaw => "SynthesizedVtRaw"@,
        BootstrapProfile::SynthesizedVtStateSync => "SynthesizedVtStateSync"@,
        BootstrapProfile::Unrecognized { code } => "Unrecognized { code: "@ + decimal(code as nat)
            + " }"@,
    }
}

fn codec_name(codec: EngineCodec) -> (name: &'static str)
    ensures
        name@ == codec_label(codec),
{
    match codec {
        EngineCodec::LibghosttyCheckpointV2 => "LibghosttyCheckpointV2",
        EngineCodec::LibghosttySnapshotV1 => "LibghosttySnapshotV1",
    }
}

/// A stream profile as messages write it.
pub fn stream_profile_text(profile: BootstrapStreamProfile) -> (text: String)
    ensures
        text@ == stream_profile_label(profile),
{
    match profile {
        BootstrapStreamProfile::NativeState { codec } => "NativeState { codec: ".to_owned().concat(
            codec_name(codec),
        ).concat(" }"),
        BootstrapStreamProfile::SynthesizedVtRaw => "SynthesizedVtRaw".to_owned(),
        BootstrapStreamProfile::SynthesizedVtStateSync => "SynthesizedVtStateSync".to_owned(),
    }
}

/// A connection profile as messages write it.
pub fn profile_text(profile: BootstrapProfile) -> (text: String)
    ensures
        text@ == profile_label(profile),
{
    match profile {
        BootstrapProfile::NativeState { codec, features } => "NativeState { codec: ".to_owned().concat(
            codec_name(codec),
        ).concat(", features: ").concat(decimal_text(features.bits as u64).as_str()).concat(" }"),
        BootstrapProfile::SynthesizedVtRaw => "SynthesizedVtRaw".to_owned(),
        BootstrapProfile::SynthesizedVtStateSync => "SynthesizedVtStateSync".to_owned(),
        BootstrapProfile::Unrecognized { code } => "Unrecognized { code: ".to_owned().concat(
            decimal_text(code as u64).as_str(),
        ).concat(" }"),
    }
}

impl RelayFault {
    /// The message for a fault of satellite `host`.
    pub open spec fn says(self, host: Seq<char>) -> Seq<char> {
        "satellite "@ + host + self.detail()
    }

    /// What follows the satellite's name in the message.
    pub open spec fn detail(self) -> Seq<char> {
        match self {
            RelayFault::ProfileMismatch { sent, negotiated } => " sent BOOTSTRAP_BEGIN profile "@
                + stream_profile_label(sent) + ", negotiated "@ + profile_label(negotiated),
            RelayFault::OverlappingBegin { terminal } =>
                " sent overlapping BOOTSTRAP_BEGIN for terminal "@ + decimal(terminal as nat),
            RelayFault::ChunkBeforeBegin { terminal } =>
                " sent BOOTSTRAP_CHUNK before BEGIN for terminal "@ + decimal(terminal as nat),
            RelayFault::ChunkIdentity { terminal } =>
                " changed or reused bootstrap identity before READY for terminal "@ + decimal(
                terminal as nat,
            ),
            RelayFault::ChunkSequence { sent, expected } => " sent BOOTSTRAP_CHUNK sequence "@
                + decimal(sent as nat) + ", expected "@ + decimal(expected as nat),
            RelayFault::ReadyBeforeBegin { terminal } =>
                " sent BOOTSTRAP_READY before BEGIN for terminal "@ + decimal(terminal as nat),
            RelayFault::ReadyIdentity { terminal } =>
                " changed or reused bootstrap identity at READY for terminal "@ + decimal(
                terminal as nat,
            ),
            RelayFault::GenerationFrames =>
                " exceeded the per-generation bootstrap frame budget"@,
            RelayFault::GenerationBytes => " exceeded the per-generation bootstrap byte budget"@,
            RelayFault::ConnectionFrames =>
                " exceeded the connection-wide in-flight bootstrap frame budget"@,
            RelayFault::ConnectionBytes =>
                " exceeded the connection-wide in-flight bootstrap byte budget"@,
            RelayFault::NoGeneration { frame, terminal } => " sent "@ + frame.label()
                + " without a selected bootstrap generation for terminal "@ + decimal(
                terminal as nat,
            ),
            RelayFault::InactiveIdentity { frame, terminal } => " sent "@ + frame.label()
                + " for a non-active bootstrap identity on terminal "@ + decimal(terminal as nat),
            RelayFault::BeforeReady { frame, terminal } => " sent "@ + frame.label()
                + " before BOOTSTRAP_READY for terminal "@ + decimal(terminal as nat),
            RelayFault::DetachRefused { terminal } =>
                " refused upstream detach barrier for terminal "@ + decimal(terminal as nat),
            RelayFault::DetachOverdue { seconds } =>
                " did not acknowledge upstream detach within "@ + decimal(seconds as nat) + "s"@,
            RelayFault::DirectionInvalid => " sent a direction-invalid frame after HELLO_OK"@,
        }
    }

    fn detail_text(self) -> (text: String)
        ensures
            text@ == self.detail(),
    {
        match self {
            RelayFault::ProfileMismatch { sent, negotiated } =>
                " sent BOOTSTRAP_BEGIN profile ".to_owned().concat(
                stream_profile_text(sent).as_str(),
            ).concat(", negotiated ").concat(profile_text(negotiated).as_str()),
            RelayFault::OverlappingBegin { terminal } =>
                " sent overlapping BOOTSTRAP_BEGIN for terminal ".to_owned().concat(
                decimal_text(terminal as u64).as_str(),
            ),
            RelayFault::ChunkBeforeBegin { terminal } =>
                " sent BOOTSTRAP_CHUNK before BEGIN for terminal ".to_owned().concat(
                decimal_text(terminal as u64).as_str(),
            ),
            RelayFault::ChunkIdentity { terminal } =>
                " changed or reused bootstrap identity before READY for terminal ".to_owned().concat(
            decimal_text(terminal as u64).as_str()),
            RelayFault::ChunkSequence { sent, expected } =>
                " sent BOOTSTRAP_CHUNK sequence ".to_owned().concat(
                decimal_text(sent as u64).as_str(),
            ).concat(", expected ").concat(decimal_text(expected as u64).as_str()),
            RelayFault::ReadyBeforeBegin { terminal } =>
                " sent BOOTSTRAP_READY before BEGIN for terminal ".to_owned().concat(
                decimal_text(terminal as u64).as_str(),
            ),
            RelayFault::ReadyIdentity { terminal } =>
                " changed or reused bootstrap identity at READY for terminal ".to_owned().concat(
                decimal_text(terminal as u64).as_str(),
            ),
            RelayFault::GenerationFrames =>
                " exceeded the per-generation bootstrap frame budget".to_owned(),
            RelayFault::GenerationBytes =>
                " exceeded the per-generation bootstrap byte budget".to_owned(),
            RelayFault::ConnectionFrames =>
                " exceeded the connection-wide in-flight bootstrap frame budget".to_owned(),
            RelayFault::ConnectionBytes =>
                " exceeded the connection-wide in-flight bootstrap byte budget".to_owned(),
            RelayFault::NoGeneration { frame, terminal } => " sent ".to_owned().concat(
                frame.name(),
            ).concat(" without a selected bootstrap generation for terminal ").concat(
                decimal_text(terminal as u64).as_str(),
            ),
            RelayFault::InactiveIdentity { frame, terminal } => " sent ".to_owned().concat(
                frame.name(),
            ).concat(" for a non-active bootstrap identity on terminal ").concat(
                decimal_text(terminal as u64).as_str(),
            ),
            RelayFault::BeforeReady { frame, terminal } => " sent ".to_owned().concat(
                frame.name(),
            ).concat(" before BOOTSTRAP_READY for terminal ").concat(
                decimal_text(terminal as u64).as_str(),
            ),
            RelayFault::DetachRefused { terminal } =>
                " refused upstream detach barrier for terminal ".to_owned().concat(
                decimal_text(terminal as u64).as_str(),
            ),
            RelayFault::DetachOverdue { seconds } =>
                " did not acknowledge upstream detach within ".to_owned().concat(
                decimal_text(seconds).as_str(),
            ).concat("s"),
            RelayFault::DirectionInvalid =>
                " sent a direction-invalid frame after HELLO_OK".to_owned(),
        }
    }

    /// The message for a fault of satellite `host`.
    pub fn message(self, host: &SatelliteHost) -> (text: String)
        ensures
            text@ == self.says(host.name@),
    {
        "satellite ".to_owned().concat(host.name.as_str()).concat(self.detail_text().as_str())
    }
}

} // verus!
