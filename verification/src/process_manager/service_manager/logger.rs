//! Turning the lines of a child's output into log records.
//!
//! A drain reads one stream of one child. For every line it is handed it
//! says what to log and what to append to the stream's log file; it performs
//! neither.

use crate::error::Error;
use crate::path::{join, joined};
use crate::text::{append_bytes, text_bytes};
use vstd::prelude::*;
use vstd::string::{StringExecFns, StringSliceAdditionalSpecFns};

verus! {

/// Which stream of a child a drain reads.
#[derive(Debug, Clone, Copy, PartialEq, Eq, Structural)]
pub enum Logger {
    /// The child's standard output.
    Stdout,
    /// The child's standard error.
    Stderr,
}

/// How much a log record matters.
#[derive(Debug, Clone, Copy, PartialEq, Eq, Structural)]
pub enum LogLevel {
    /// For the ordinary output of a child.
    Debug,
    /// For what a child writes to its standard error, and for failures.
    Error,
}

/// One event for the structured log.
#[derive(Debug, Clone, PartialEq, Eq)]
pub struct LogRecord {
    /// How much the record matters.
    pub level: LogLevel,
    /// The logical target: the name of the service.
    pub target: String,
    /// The text of the record.
    pub line: String,
}

/// What a drain is told about its stream.
#[derive(Debug, Clone, PartialEq, Eq)]
pub enum DrainEvent {
    /// The stream gave a line, without its line end. The last line counts
    /// even if the stream ended before a line end.
    Line(String),
    /// The stream is at its end.
    End,
    /// Reading the stream failed; the text is the system's message.
    ReadFailed(String),
}

/// What a drain answers.
#[derive(Debug, Clone, PartialEq, Eq)]
pub struct DrainStep {
    /// What to log, if anything.
    pub record: Option<LogRecord>,
    /// What to append to the stream's log file, if the drain has one.
    pub file_bytes: Option<Vec<u8>>,
    /// Whether the drain goes on reading.
    pub goes_on: bool,
}

/// The drain of one stream of one child.
#[derive(Debug, Clone, PartialEq, Eq)]
pub struct Drain {
    /// The stream that is read.
    pub logger: Logger,
    /// The log target: the name of the service.
    pub target: String,
    /// The path of the stream's log file, to be created anew, if files are
    /// wanted.
    pub file: Option<String>,
}

impl Logger {
    /// The level at which a stream's lines are logged: debug for standard
    /// output, error for standard error.
    pub open spec fn spec_level(self) -> LogLevel {
        match self {
            Logger::Stdout => LogLevel::Debug,
            Logger::Stderr => LogLevel::Error,
        }
    }

    /// The name of a stream as it appears in file names.
    pub open spec fn spec_stream_name(self) -> Seq<char> {
        match self {
            Logger::Stdout => "stdout"@,
            Logger::Stderr => "stderr"@,
        }
    }

    /// The name of the log file of a target's stream: the target, the
    /// stream, and `txt`, with dots between them. Each stream of each service
    /// so has a file of its own.
    pub open spec fn spec_file_name(self, target: Seq<char>) -> Seq<char> {
        target + "."@ + self.spec_stream_name() + ".txt"@
    }

    /// What is appended to a log file for a line: the line and a line feed.
    pub open spec fn spec_file_line(line: Seq<char>) -> Seq<u8> {
        text_bytes(line) + text_bytes("\n"@)
    }

    /// The level at which this stream's lines are logged.
    pub fn level(&self) -> (level: LogLevel)
        ensures
            level == self.spec_level(),
    {
        match self {
            Logger::Stdout => LogLevel::Debug,
            Logger::Stderr => LogLevel::Error,
        }
    }

    /// The name of this stream as it appears in file names.
    pub fn stream_name(&self) -> (name: &'static str)
        ensures
            name@ == self.spec_stream_name(),
    {
        match self {
            Logger::Stdout => "stdout",
            Logger::Stderr => "stderr",
        }
    }

    /// The log record for a line of this stream.
    pub fn log_line(&self, target: &str, line: &str) -> (record: LogRecord)
        ensures
            record.level == self.spec_level(),
            record.target@ == target@,
            record.line@ == line@,
    {
        LogRecord {
            level: self.level(),
            target: String::from_str(target),
            line: String::from_str(line),
        }
    }

    /// The name of the log file of this stream of a target.
    pub fn logs_file_name(&self, target: &str) -> (name: String)
        ensures
            name@ == self.spec_file_name(target@),
    {
        let mut name = String::from_str(target);
        name.append(".");
        name.append(self.stream_name());
        name.append(".txt");
        name
    }

    /// The path of the log file to create for this stream of a target: the
    /// file's name adjoined to the logs directory, or none if no files are
    /// wanted.
    pub fn create_logs_file(&self, logs_dir: &Option<String>, target: &str) -> (path: Option<
        String,
    >)
        ensures
            path is Some == logs_dir is Some,
            path matches Some(p) ==> p@ == joined(logs_dir->0@, self.spec_file_name(target@)),
    {
        match logs_dir {
            Some(dir) => {
                let name = self.logs_file_name(target);
                Some(join(dir.as_str(), name.as_str()))
            },
            None => None,
        }
    }

    /// What is appended to a log file for a line.
    pub fn write_log_file_line(line: &str) -> (bytes: Vec<u8>)
        ensures
            bytes@ == Logger::spec_file_line(line@),
    {
        let mut bytes: Vec<u8> = Vec::new();
        append_bytes(&mut bytes, line.as_bytes());
        append_bytes(&mut bytes, "\n".as_bytes());
        bytes
    }

    /// Begins the drain of this stream of a target. A child that lacks the
    /// stream is an error that names the target.
    pub fn start(self, has_stream: bool, target: &str, logs_dir: &Option<String>) -> (drain:
        Result<Drain, Error>)
        ensures
            drain is Ok == has_stream,
            drain matches Ok(d) ==> {
                &&& d.logger == self
                &&& d.target@ == target@
                &&& d.file is Some == logs_dir is Some
                &&& d.file matches Some(p) ==> p@ == joined(
                    logs_dir->0@,
                    self.spec_file_name(target@),
                )
            },
            drain matches Err(e) ==> e matches Error::MissingStream(t) && t@ == target@,
    {
        if !has_stream {
            return Err(Error::MissingStream(String::from_str(target)));
        }
        Ok(
            Drain {
                logger: self,
                target: String::from_str(target),
                file: self.create_logs_file(logs_dir, target),
            },
        )
    }
}

impl Drain {
    /// What follows an event of the stream. A line is logged at the stream's
    /// level and appended to the file; the end of the stream ends the drain in
    /// silence; a failed read is logged as an error, appended to the file, and
    /// ends the drain.
    pub fn on_event(&self, event: DrainEvent) -> (step: DrainStep)
        ensures
            match event {
                DrainEvent::Line(line) => {
                    &&& step.goes_on
                    &&& step.record matches Some(r) && r.level == self.logger.spec_level()
                        && r.target@ == self.target@ && r.line@ == line@
                    &&& step.file_bytes is Some == self.file is Some
                    &&& step.file_bytes matches Some(b) ==> b@ == Logger::spec_file_line(line@)
                },
                DrainEvent::End => {
                    &&& !step.goes_on
                    &&& step.record is None
                    &&& step.file_bytes is None
                },
                DrainEvent::ReadFailed(message) => {
                    &&& !step.goes_on
                    &&& step.record matches Some(r) && r.level == LogLevel::Error && r.target@
                        == self.target@ && r.line@ == message@
                    &&& step.file_bytes is Some == self.file is Some
                    &&& step.file_bytes matches Some(b) ==> b@ == Logger::spec_file_line(
                        message@,
                    )
                },
            },
    {
        match event {
            DrainEvent::Line(line) => {
                let file_bytes = if self.file.is_some() {
                    Some(Logger::write_log_file_line(line.as_str()))
                } else {
                    None
                };
                DrainStep {
                    record: Some(self.logger.log_line(self.target.as_str(), line.as_str())),
                    file_bytes,
                    goes_on: true,
                }
            },
            DrainEvent::End => DrainStep { record: None, file_bytes: None, goes_on: false },
            DrainEvent::ReadFailed(message) => {
                let file_bytes = if self.file.is_some() {
                    Some(Logger::write_log_file_line(message.as_str()))
                } else {
                    None
                };
                DrainStep {
                    record: Some(
                        LogRecord {
                            level: LogLevel::Error,
                            target: self.target.clone(),
                            line: message,
                        },
                    ),
                    file_bytes,
                    goes_on: false,
                }
            },
        }
    }
}

} // verus!
