//! The errors of the shell's front end and of its commands.

use vstd::prelude::*;

verus! {

/// What the lexer and the parser refuse.
#[derive(Debug)]
pub enum SyntaxError {
    /// A quote was opened and the input ended before it was closed.
    UnclosedQuote,
    /// A token stands where the grammar has no place for it.
    UnexpectedToken(String),
    /// The grammar asks for a token and there is none.
    ExpectedToken(String),
    /// A node was built against its own rules.
    InternalError,
    /// No usable key for the text-generation service.
    InvalidOpenAIKey(String),
}

/// A `SyntaxError` over sequences of characters.
pub enum SyntaxErrorView {
    UnclosedQuote,
    UnexpectedToken(Seq<char>),
    ExpectedToken(Seq<char>),
    InternalError,
    InvalidOpenAIKey(Seq<char>),
}

impl View for SyntaxError {
    type V = SyntaxErrorView;

    open spec fn view(&self) -> SyntaxErrorView {
        match self {
            SyntaxError::UnclosedQuote => SyntaxErrorView::UnclosedQuote,
            SyntaxError::UnexpectedToken(s) => SyntaxErrorView::UnexpectedToken(s@),
            SyntaxError::ExpectedToken(s) => SyntaxErrorView::ExpectedToken(s@),
            SyntaxError::InternalError => SyntaxErrorView::InternalError,
            SyntaxError::InvalidOpenAIKey(s) => SyntaxErrorView::InvalidOpenAIKey(s@),
        }
    }
}

impl SyntaxErrorView {
    /// The text shown to the user for this error.
    pub open spec fn message(self) -> Seq<char> {
        match self {
            SyntaxErrorView::UnclosedQuote => "Unclosed quote"@,
            SyntaxErrorView::UnexpectedToken(s) => "Unexpected token: "@ + s,
            SyntaxErrorView::ExpectedToken(s) => "Expected token: "@ + s,
            SyntaxErrorView::InternalError => "Internal Error"@,
            SyntaxErrorView::InvalidOpenAIKey(s) => "Invalid OPENAI_API_KEY: "@ + s,
        }
    }
}

impl SyntaxError {
    /// The text shown to the user for this error.
    pub fn message(&self) -> (r: String)
        ensures
            r@ == self@.message(),
    {
        match self {
            SyntaxError::UnclosedQuote => String::from_str("Unclosed quote"),
            SyntaxError::UnexpectedToken(s) => String::from_str("Unexpected token: ").concat(
                s.as_str(),
            ),
            SyntaxError::ExpectedToken(s) => String::from_str("Expected token: ").concat(
                s.as_str(),
            ),
            SyntaxError::InternalError => String::from_str("Internal Error"),
            SyntaxError::InvalidOpenAIKey(s) => String::from_str(
                "Invalid OPENAI_API_KEY: ",
            ).concat(s.as_str()),
        }
    }
}

impl Clone for SyntaxError {
    fn clone(&self) -> (r: SyntaxError)
        ensures
            r@ == self@,
    {
        match self {
            SyntaxError::UnclosedQuote => SyntaxError::UnclosedQuote,
            SyntaxError::UnexpectedToken(s) => SyntaxError::UnexpectedToken(s.clone()),
            SyntaxError::ExpectedToken(s) => SyntaxError::ExpectedToken(s.clone()),
            SyntaxError::InternalError => SyntaxError::InternalError,
            SyntaxError::InvalidOpenAIKey(s) => SyntaxError::InvalidOpenAIKey(s.clone()),
        }
    }
}

/// What a command reports when it fails while it runs.
#[derive(Debug)]
pub enum RuntimeError {
    /// The command could not do its work; the text says why.
    CommandFailed(String),
}

impl View for RuntimeError {
    type V = Seq<char>;

    /// The reason carried by the error.
    open spec fn view(&self) -> Seq<char> {
        match self {
            RuntimeError::CommandFailed(s) => s@,
        }
    }
}

impl RuntimeError {
    /// The text shown to the user for this error.
    pub fn message(&self) -> (r: String)
        ensures
            r@ == "Command failed: "@ + self@,
    {
        match self {
            RuntimeError::CommandFailed(s) => String::from_str("Command failed: ").concat(
                s.as_str(),
            ),
        }
    }
}

impl Clone for RuntimeError {
    fn clone(&self) -> (r: RuntimeError)
        ensures
            r@ == self@,
    {
        match self {
            RuntimeError::CommandFailed(s) => RuntimeError::CommandFailed(s.clone()),
        }
    }
}

/// How a request to the text-generation service went wrong.
#[derive(Debug)]
pub enum OpenAIError {
    /// The request could not be sent or no answer came.
    NetworkError(String),
    /// The service answered with a failure status; the text is its body.
    APIError(String),
    /// The answer could not be read.
    DeserializationError(String),
}

/// An `OpenAIError` over sequences of characters.
pub enum OpenAIErrorView {
    NetworkError(Seq<char>),
    APIError(Seq<char>),
    DeserializationError(Seq<char>),
}

impl View for OpenAIError {
    type V = OpenAIErrorView;

    open spec fn view(&self) -> OpenAIErrorView {
        match self {
            OpenAIError::NetworkError(s) => OpenAIErrorView::NetworkError(s@),
            OpenAIError::APIError(s) => OpenAIErrorView::APIError(s@),
            OpenAIError::DeserializationError(s) => OpenAIErrorView::DeserializationError(s@),
        }
    }
}

impl OpenAIErrorView {
    /// The text shown to the user for this error.
    pub open spec fn message(self) -> Seq<char> {
        match self {
            OpenAIErrorView::NetworkError(s) => "Network error: "@ + s,
            OpenAIErrorView::APIError(s) => "API error: "@ + s,
            OpenAIErrorView::DeserializationError(s) => "Deserialization error: "@ + s,
        }
    }
}

impl OpenAIError {
    /// The text shown to the user for this error.
    pub fn message(&self) -> (r: String)
        ensures
            r@ == self@.message(),
    {
        match self {
            OpenAIError::NetworkError(s) => String::from_str("Network error: ").concat(
                s.as_str(),
            ),
            OpenAIError::APIError(s) => String::from_str("API error: ").concat(s.as_str()),
            OpenAIError::DeserializationError(s) => String::from_str(
                "Deserialization error: ",
            ).concat(s.as_str()),
        }
    }
}

} // verus!
