//! Error types of the library.
use vstd::prelude::*;
use vstd::string::StringExecFns;

verus! {

/// An owned copy of a string slice.
pub fn str_to_string(s: &str) -> (r: String)
    ensures
        r@ == s@,
{
    String::from_str(s)
}

/// An error while dispatching events.
#[derive(Debug)]
pub enum EventDispatchError {
    /// A handler returned an error.
    ErrorFromHandler(EventHandlerError),
    /// The exclusive lock on the queue could not be taken.
    MutexLockFailedError,
    /// Receiving failed.
    RecvError,
    /// At least one handler failed.
    ContainError,
}

/// An error raised inside an event handler.
#[derive(Debug)]
pub enum EventHandlerError {
    /// Any other failure, with its message.
    Fail(String),
    /// The event does not match the state being processed (the index of its kind).
    InvalidState(usize),
    /// The player implementation failed, with its message.
    PlayerError(String),
}

/// An invalid state, with its message.
#[derive(Debug, PartialEq, Eq)]
pub struct InvalidStateError(pub String);

/// A value that does not name a row (dan) of the board.
#[derive(Debug, Clone, Copy, PartialEq, Eq, Structural)]
pub struct DanConvertError(pub u32);

/// Converting a move to its string form failed.
#[derive(Debug, Clone, Copy, PartialEq, Eq, Structural)]
pub enum ToMoveStringConvertError {
    /// The row could not be written as a character.
    CharConvert(DanConvertError),
    /// Thinking was aborted, so there is no move.
    AbortedError,
}

/// Building a USI command failed.
#[derive(Debug)]
pub enum UsiOutputCreateError {
    /// The object that the command is made from is invalid.
    ValidationError(String),
    /// Invalid state, with the name of what is invalid.
    InvalidStateError(String),
    /// The info command is invalid, with the reason.
    InvalidInfoCommand(String),
    /// Writing a move failed.
    ConvertError(ToMoveStringConvertError),
    /// Thinking was aborted.
    AbortedError,
}

/// Sending an info command failed.
#[derive(Debug)]
pub enum InfoSendError {
    Fail(String),
}

/// The worker thread that sends info commands failed.
#[derive(Debug)]
pub enum InfoSendWorkerError {
    /// Receiving failed.
    RecvError,
    /// Sending failed.
    SendError,
}

/// Converting a USI string failed.
#[derive(Debug, PartialEq, Eq)]
pub enum TypeConvertError {
    /// The input is malformed.
    SyntaxError(String),
    /// The conversion itself went wrong.
    LogicError(String),
}

/// Starting the agent failed.
#[derive(Debug)]
pub enum USIAgentStartupError {
    MutexLockFailedOtherError(String),
    IOError(String),
    PlayerError(String),
}

/// Running the agent failed.
#[derive(Debug)]
pub enum USIAgentRunningError {
    MutexLockFailedError,
    StartupError(USIAgentStartupError),
}

/// A rule of shogi was broken.
#[derive(Debug, PartialEq, Eq)]
pub enum ShogiError {
    InvalidState(String),
}

/// The USI protocol was not followed.
#[derive(Debug, PartialEq, Eq)]
pub enum UsiProtocolError {
    InvalidState(String),
}

/// Building an SFEN string failed.
#[derive(Debug, PartialEq, Eq)]
pub enum SfenStringConvertError {
    ToMoveString(ToMoveStringConvertError),
    TypeConvertError(TypeConvertError),
    InvalidFormat(String),
}

/// Writing a game record failed.
#[derive(Debug)]
pub enum KifuWriteError {
    Fail(String),
    InvalidState(String),
    SfenStringConvertError(SfenStringConvertError),
    IOError(String),
}

/// A size limit was exceeded (the limit).
#[derive(Debug, PartialEq, Eq)]
pub struct LimitSizeError(pub usize);

/// An input that is out of the accepted range, with its message.
#[derive(Debug, PartialEq, Eq)]
pub struct InvalidInputError(pub String);

/// A parameter that is out of the accepted range, with its message.
#[derive(Debug, PartialEq, Eq)]
pub struct IllegalParameterError(pub String);

impl IllegalParameterError {
    /// An error with the given message.
    pub fn new(s: String) -> (r: IllegalParameterError)
        ensures
            r.0@ == s@,
    {
        IllegalParameterError(s)
    }
}

impl ToMoveStringConvertError {
    /// Wraps a row conversion error.
    pub fn from_dan(e: DanConvertError) -> (r: ToMoveStringConvertError)
        ensures
            r == ToMoveStringConvertError::CharConvert(e),
    {
        ToMoveStringConvertError::CharConvert(e)
    }
}

impl UsiOutputCreateError {
    /// Wraps a move conversion error.
    pub fn from_move_string(e: ToMoveStringConvertError) -> (r: UsiOutputCreateError)
        ensures
            r == UsiOutputCreateError::ConvertError(e),
    {
        UsiOutputCreateError::ConvertError(e)
    }
}

impl SfenStringConvertError {
    /// Wraps a move conversion error.
    pub fn from_move_string(e: ToMoveStringConvertError) -> (r: SfenStringConvertError)
        ensures
            r == SfenStringConvertError::ToMoveString(e),
    {
        SfenStringConvertError::ToMoveString(e)
    }

    /// Wraps a type conversion error.
    pub fn from_type_convert(e: TypeConvertError) -> (r: SfenStringConvertError)
        ensures
            r == SfenStringConvertError::TypeConvertError(e),
    {
        SfenStringConvertError::TypeConvertError(e)
    }
}

impl USIAgentRunningError {
    /// Wraps a startup error.
    pub fn from_startup(e: USIAgentStartupError) -> (r: USIAgentRunningError)
        ensures
            r == USIAgentRunningError::StartupError(e),
    {
        USIAgentRunningError::StartupError(e)
    }
}

impl KifuWriteError {
    /// Wraps an SFEN conversion error.
    pub fn from_sfen(e: SfenStringConvertError) -> (r: KifuWriteError)
        ensures
            r == KifuWriteError::SfenStringConvertError(e),
    {
        KifuWriteError::SfenStringConvertError(e)
    }
}

impl EventDispatchError {
    /// Wraps a handler error.
    pub fn from_handler(e: EventHandlerError) -> (r: EventDispatchError)
        ensures
            r == EventDispatchError::ErrorFromHandler(e),
    {
        EventDispatchError::ErrorFromHandler(e)
    }
}

} // verus!
