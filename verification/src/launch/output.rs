//! Lines a child process prints, as log events.

use vstd::prelude::*;
use crate::progress::{LogLevel, ProgressEvent};

verus! {

/// Which output stream of a child process a line came from.
#[derive(Debug, Clone, Copy, PartialEq, Eq, Structural)]
pub enum OutputStream {
    Stdout,
    Stderr,
}

/// The log event of one line the game printed: standard output at info
/// level, standard error at warning level.
pub fn game_output_event(stream: OutputStream, line: String) -> (e: ProgressEvent)
    ensures
        e matches ProgressEvent::Log { source, level, message } && message == line && match stream {
            OutputStream::Stdout => source@ == "minecraft.stdout"@ && level == LogLevel::Info,
            OutputStream::Stderr => source@ == "minecraft.stderr"@ && level == LogLevel::Warn,
        },
{
    match stream {
        OutputStream::Stdout => ProgressEvent::Log {
            source: "minecraft.stdout".to_string(),
            level: LogLevel::Info,
            message: line,
        },
        OutputStream::Stderr => ProgressEvent::Log {
            source: "minecraft.stderr".to_string(),
            level: LogLevel::Warn,
            message: line,
        },
    }
}

/// The log event of one line an install processor printed: standard
/// output at debug level, standard error at warning level.
pub fn processor_output_event(stream: OutputStream, line: String) -> (e: ProgressEvent)
    ensures
        e matches ProgressEvent::Log { source, level, message } && message == line && match stream {
            OutputStream::Stdout => source@ == "forge.processor.stdout"@ && level == LogLevel::Debug,
            OutputStream::Stderr => source@ == "forge.processor.stderr"@ && level == LogLevel::Warn,
        },
{
    match stream {
        OutputStream::Stdout => ProgressEvent::Log {
            source: "forge.processor.stdout".to_string(),
            level: LogLevel::Debug,
            message: line,
        },
        OutputStream::Stderr => ProgressEvent::Log {
            source: "forge.processor.stderr".to_string(),
            level: LogLevel::Warn,
            message: line,
        },
    }
}

} // verus!
