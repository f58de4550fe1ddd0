use vstd::prelude::*;

verus! {

/// The kinds of failure the client reports.
#[derive(Clone, Copy, Debug, PartialEq, Eq, Structural)]
pub enum ErrorType {
    LoginError,
    LogoutError,
    ParseError,
    NoneError,
    NetworkError,
    OtherError,
}

/// Printable name of each kind.
pub open spec fn kind_name(t: ErrorType) -> Seq<char> {
    match t {
        ErrorType::LoginError => "LoginError"@,
        ErrorType::LogoutError => "LogoutError"@,
        ErrorType::ParseError => "ParseError"@,
        ErrorType::NoneError => "NoneError"@,
        ErrorType::NetworkError => "NetworkError"@,
        ErrorType::OtherError => "OtherError"@,
    }
}

impl ErrorType {
    /// The name of the kind, as it is printed.
    pub fn name(&self) -> (r: String)
        ensures
            r@ == kind_name(*self),
    {
        match self {
            ErrorType::LoginError => String::from_str("LoginError"),
            ErrorType::LogoutError => String::from_str("LogoutError"),
            ErrorType::ParseError => String::from_str("ParseError"),
            ErrorType::NoneError => String::from_str("NoneError"),
            ErrorType::NetworkError => String::from_str("NetworkError"),
            ErrorType::OtherError => String::from_str("OtherError"),
        }
    }
}

/// An error of the client: its kind, a message, and the rendered text of
/// the failure that caused it, if any.
#[derive(Debug)]
pub struct SDKError {
    pub kind: ErrorType,
    pub message: String,
    pub cause: Option<String>,
}

/// The text an error is printed as.
pub open spec fn error_text(kind: ErrorType, message: Seq<char>, cause: Option<String>) -> Seq<char> {
    match cause {
        Some(c) => "Type "@ + kind_name(kind) + ": "@ + message + " caused by "@ + c@,
        None => message,
    }
}

impl SDKError {
    /// Whether this error only says that a value was absent.
    pub fn is_none_error(&self) -> (r: bool)
        ensures
            r == (self.kind == ErrorType::NoneError),
    {
        self.kind == ErrorType::NoneError
    }

    /// An absent-value error with an empty message.
    pub fn none() -> (r: Self)
        ensures
            r.kind == ErrorType::NoneError,
            r.message@ == Seq::<char>::empty(),
            r.cause is None,
    {
        SDKError::with_type(ErrorType::NoneError, String::new())
    }

    /// An absent-value error with the given message.
    pub fn new(message: String) -> (r: Self)
        ensures
            r.kind == ErrorType::NoneError,
            r.message@ == message@,
            r.cause is None,
    {
        SDKError::with_type(ErrorType::NoneError, message)
    }

    /// An error of the given kind, without a cause.
    pub fn with_type(kind: ErrorType, message: String) -> (r: Self)
        ensures
            r.kind == kind,
            r.message@ == message@,
            r.cause is None,
    {
        SDKError { kind, message, cause: None }
    }

    /// An error of the given kind, caused by a failure printed as `cause`.
    pub fn with_cause(kind: ErrorType, message: String, cause: String) -> (r: Self)
        ensures
            r.kind == kind,
            r.message@ == message@,
            r.cause == Some(cause),
    {
        SDKError { kind, message, cause: Some(cause) }
    }

    /// The text of the error: the message alone, or with its kind and cause.
    pub fn to_text(&self) -> (r: String)
        ensures
            r@ == error_text(self.kind, self.message@, self.cause),
    {
        match &self.cause {
            Some(c) => {
                let s = String::from_str("Type ");
                let s = s.concat(self.kind.name().as_str());
                let s = s.concat(": ");
                let s = s.concat(self.message.as_str());
                let s = s.concat(" caused by ");
                s.concat(c.as_str())
            },
            None => self.message.clone(),
        }
    }
}

} // verus!
