//! Error types of the node's subsystems, with the messages they display.

use vstd::prelude::*;
use vstd::string::*;
use vstd::std_specs::convert::FromSpecImpl;

verus! {

/// A error raised during validation of the candidate.
#[derive(Debug, Clone)]
pub enum ValidationError {
    /// The error was raised because the candidate is invalid.
    InvalidCandidate(InvalidCandidate),
    /// This error is raised due to inability to serve the request.
    InternalError(String),
}

/// A description of an error raised during executing a PVF and can be
/// attributed to the combination of the candidate's validation parameters and
/// the PVF.
#[derive(Debug, Clone)]
pub enum InvalidCandidate {
    /// The failure is reported by the worker. The string contains the error message.
    ///
    /// This also includes the errors reported by the preparation pipeline.
    WorkerReportedError(String),
    /// The worker has died during validation of a candidate: a transient
    /// glitch or a candidate that led to the process's death, which cannot
    /// be told apart; either way it is attributed to the candidate.
    AmbigiousWorkerDeath,
    /// PVF execution (compilation is not included) took more time than was allotted.
    HardTimeout,
}

/// A description of an error during jaeger initialization.
#[derive(Debug, Clone, Copy, PartialEq, Eq, Structural)]
pub enum JaegerError {
    AlreadyLaunched,
    MissingConfiguration,
}

/// The message of a jaeger error.
pub open spec fn jaeger_message(e: JaegerError) -> Seq<char> {
    match e {
        JaegerError::AlreadyLaunched => "Already launched the collector thread"@,
        JaegerError::MissingConfiguration => "Missing jaeger configuration"@,
    }
}

impl JaegerError {
    /// The message this error displays.
    pub fn message(&self) -> (r: String)
        ensures
            r@ == jaeger_message(*self),
    {
        match self {
            JaegerError::AlreadyLaunched => String::from_str("Already launched the collector thread"),
            JaegerError::MissingConfiguration => String::from_str("Missing jaeger configuration"),
        }
    }
}

/// A description of an error causing the runtime API request to be unservable.
#[derive(Debug, Clone)]
pub struct RuntimeApiError(String);

impl RuntimeApiError {
    /// The error's message.
    pub closed spec fn message(&self) -> Seq<char> {
        self.0@
    }

    /// The message this error displays: the one it was made from.
    pub fn to_string(&self) -> (r: String)
        ensures
            r@ == self.message(),
    {
        self.0.clone()
    }

    /// The error with the given message.
    pub closed spec fn of_message(s: String) -> Self {
        RuntimeApiError(s)
    }

    /// What `of_message` holds.
    pub broadcast proof fn of_message_holds(s: String)
        ensures
            #[trigger] Self::of_message(s).message() == s@,
    {
    }
}

impl From<String> for RuntimeApiError {
    fn from(s: String) -> (r: Self) {
        RuntimeApiError(s)
    }
}

impl FromSpecImpl<String> for RuntimeApiError {
    open spec fn obeys_from_spec() -> bool {
        true
    }

    open spec fn from_spec(v: String) -> Self {
        Self::of_message(v)
    }
}

/// A description of an error causing the chain API request to be unservable.
#[derive(Debug, Clone)]
pub struct ChainApiError {
    msg: String,
}

impl ChainApiError {
    /// The error's message.
    pub closed spec fn message(&self) -> Seq<char> {
        self.msg@
    }

    /// The message this error displays: the one it was made from.
    pub fn to_string(&self) -> (r: String)
        ensures
            r@ == self.message(),
    {
        self.msg.clone()
    }

    /// The error with the given message.
    pub closed spec fn of_message(msg: String) -> Self {
        ChainApiError { msg }
    }

    /// What `of_message` holds.
    pub broadcast proof fn of_message_holds(msg: String)
        ensures
            #[trigger] Self::of_message(msg).message() == msg@,
    {
    }

    /// The error whose message is a copy of `s`.
    pub fn from_str(s: &str) -> (r: Self)
        ensures
            r.message() == s@,
    {
        ChainApiError::from(String::from_str(s))
    }
}

impl From<String> for ChainApiError {
    fn from(msg: String) -> (r: Self) {
        ChainApiError { msg }
    }
}

impl FromSpecImpl<String> for ChainApiError {
    open spec fn obeys_from_spec() -> bool {
        true
    }

    open spec fn from_spec(v: String) -> Self {
        Self::of_message(v)
    }
}

/// An error that may happen during Availability Recovery process.
#[derive(PartialEq, Eq, Structural, Debug, Clone, Copy)]
pub enum RecoveryError {
    /// A chunk is recovered but is invalid.
    Invalid,
    /// A requested chunk is unavailable.
    Unavailable,
}

impl RecoveryError {
    /// The error as its debug output writes it: the variant's name.
    pub fn debug_name(&self) -> (r: &'static str)
        ensures
            r@ == match *self {
                RecoveryError::Invalid => "Invalid"@,
                RecoveryError::Unavailable => "Unavailable"@,
            },
    {
        match self {
            RecoveryError::Invalid => "Invalid",
            RecoveryError::Unavailable => "Unavailable",
        }
    }
}

/// An error that is either fatal, ending the subsystem, or not.
#[derive(Debug, Clone)]
pub enum Fault<E, F> {
    /// An error the subsystem carries on after.
    NonFatal(E),
    /// An error the subsystem stops on.
    Fatal(F),
}

/// Eats a top-level error that is not fatal, so that the subsystem carries on,
/// and passes a fatal one on. (The eaten error is only worth a log line.)
pub fn log_error<E, F>(result: Result<(), Fault<E, F>>) -> (r: Result<(), F>)
    ensures
        r == match result {
            Err(Fault::Fatal(f)) => Err::<(), F>(f),
            _ => Ok(()),
        },
{
    match result {
        Ok(()) => Ok(()),
        Err(Fault::NonFatal(_)) => Ok(()),
        Err(Fault::Fatal(f)) => Err(f),
    }
}

} // verus!
