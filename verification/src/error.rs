use vstd::prelude::*;

use crate::text::{join_words, Text};

verus! {

/// A model artifact that does not hold what its format promises.
#[derive(Debug)]
pub struct InvalidModelError {
    pub path: Option<String>,
    pub field: Option<String>,
    pub message: String,
}

/// A request field with a value that cannot be served.
#[derive(Debug)]
pub struct InvalidRequestError {
    pub field: String,
    pub message: String,
}

/// A feature that exists but is not supported here.
#[derive(Debug)]
pub struct UnsupportedError {
    pub feature: String,
    pub requested: Option<String>,
    pub supported: Vec<String>,
}

/// A tokenizer failure; `source` is the text of what caused it.
#[derive(Debug)]
pub struct TokenizerError {
    pub message: String,
    pub source: Option<String>,
}

/// A kernel that refused its arguments, or failed.
#[derive(Debug)]
pub struct KernelError {
    pub backend: String,
    pub message: String,
}

/// A failure of the runtime around the kernels.
#[derive(Debug)]
pub struct RuntimeError {
    pub message: String,
}

/// A failed read or write; `source` is the text of the system's error.
#[derive(Debug)]
pub struct IoError {
    pub path: Option<String>,
    pub source: String,
}

/// Everything that can go wrong.
#[derive(Debug)]
pub enum OcelotlError {
    InvalidModel(InvalidModelError),
    InvalidRequest(InvalidRequestError),
    Unsupported(UnsupportedError),
    Tokenizer(TokenizerError),
    Kernel(KernelError),
    Runtime(RuntimeError),
    Io(IoError),
}

/// What an error says, as plain sequences of characters.
#[verifier::ext_equal]
pub enum ErrorView {
    InvalidModel { path: Option<Seq<char>>, field: Option<Seq<char>>, message: Seq<char> },
    InvalidRequest { field: Seq<char>, message: Seq<char> },
    Unsupported { feature: Seq<char>, requested: Option<Seq<char>>, supported: Seq<Seq<char>> },
    Tokenizer { message: Seq<char>, source: Option<Seq<char>> },
    Kernel { backend: Seq<char>, message: Seq<char> },
    Runtime { message: Seq<char> },
    Io { path: Option<Seq<char>>, source: Seq<char> },
}

impl View for OcelotlError {
    type V = ErrorView;

    open spec fn view(&self) -> ErrorView {
        match *self {
            OcelotlError::InvalidModel(e) => ErrorView::InvalidModel {
                path: crate::text::opt_chars(e.path),
                field: crate::text::opt_chars(e.field),
                message: e.message@,
            },
            OcelotlError::InvalidRequest(e) => ErrorView::InvalidRequest {
                field: e.field@,
                message: e.message@,
            },
            OcelotlError::Unsupported(e) => ErrorView::Unsupported {
                feature: e.feature@,
                requested: crate::text::opt_chars(e.requested),
                supported: crate::text::words(e.supported@),
            },
            OcelotlError::Tokenizer(e) => ErrorView::Tokenizer {
                message: e.message@,
                source: crate::text::opt_chars(e.source),
            },
            OcelotlError::Kernel(e) => ErrorView::Kernel { backend: e.backend@, message: e.message@ },
            OcelotlError::Runtime(e) => ErrorView::Runtime { message: e.message@ },
            OcelotlError::Io(e) => ErrorView::Io {
                path: crate::text::opt_chars(e.path),
                source: e.source@,
            },
        }
    }
}

/// A result with its error replaced by what the error says.
pub open spec fn outcome<T>(r: Result<T, OcelotlError>) -> Result<T, ErrorView> {
    match r {
        Ok(t) => Ok(t),
        Err(e) => Err(e@),
    }
}

/// `prefix`, the text and `suffix` if there is a text, nothing otherwise.
pub open spec fn quoted(prefix: Seq<char>, text: Option<Seq<char>>, suffix: Seq<char>) -> Seq<char> {
    match text {
        Some(t) => prefix + t + suffix,
        None => Seq::empty(),
    }
}

impl ErrorView {
    /// The line that a user sees.
    pub open spec fn rendered(self) -> Seq<char> {
        match self {
            ErrorView::InvalidModel { path, field, message } => "invalid model artifact"@ + quoted(
                " at `"@,
                path,
                "`"@,
            ) + quoted(" (field `"@, field, "`)"@) + ": "@ + message,
            ErrorView::InvalidRequest { field, message } => "invalid request field `"@ + field
                + "`: "@ + message,
            ErrorView::Unsupported { feature, requested, supported } => "unsupported feature `"@
                + feature + "`"@ + quoted(" (requested `"@, requested, "`)"@) + ": supported = ["@
                + crate::text::word_list(supported) + "]"@,
            ErrorView::Tokenizer { message, source: _ } => "tokenizer error: "@ + message,
            ErrorView::Kernel { backend, message } => "kernel error on backend `"@ + backend
                + "`: "@ + message,
            ErrorView::Runtime { message } => "runtime error: "@ + message,
            ErrorView::Io { path, source } => "IO error"@ + quoted(" on `"@, path, "`"@) + ": "@
                + source,
        }
    }

    /// The text of the error underneath, where there is one.
    pub open spec fn cause(self) -> Option<Seq<char>> {
        match self {
            ErrorView::Tokenizer { message: _, source } => source,
            ErrorView::Io { path: _, source } => Some(source),
            _ => None,
        }
    }
}

fn quote(prefix: &str, text: &Option<String>, suffix: &str) -> (s: String)
    ensures
        s@ == quoted(prefix@, crate::text::opt_chars(*text), suffix@),
{
    match text {
        Some(t) => Text::new(prefix).s(t.as_str()).s(suffix).done(),
        None => String::new(),
    }
}

impl OcelotlError {
    /// The line that a user sees.
    pub fn to_string(&self) -> (s: String)
        ensures
            s@ == self@.rendered(),
    {
        match self {
            OcelotlError::InvalidModel(e) => Text::new("invalid model artifact").s(
                quote(" at `", &e.path, "`").as_str(),
            ).s(quote(" (field `", &e.field, "`)").as_str()).s(": ").s(e.message.as_str()).done(),
            OcelotlError::InvalidRequest(e) => Text::new("invalid request field `").s(
                e.field.as_str(),
            ).s("`: ").s(e.message.as_str()).done(),
            OcelotlError::Unsupported(e) => Text::new("unsupported feature `").s(
                e.feature.as_str(),
            ).s("`").s(quote(" (requested `", &e.requested, "`)").as_str()).s(": supported = [").s(
                join_words(&e.supported).as_str(),
            ).s("]").done(),
            OcelotlError::Tokenizer(e) => Text::new("tokenizer error: ").s(
                e.message.as_str(),
            ).done(),
            OcelotlError::Kernel(e) => Text::new("kernel error on backend `").s(
                e.backend.as_str(),
            ).s("`: ").s(e.message.as_str()).done(),
            OcelotlError::Runtime(e) => Text::new("runtime error: ").s(e.message.as_str()).done(),
            OcelotlError::Io(e) => Text::new("IO error").s(
                quote(" on `", &e.path, "`").as_str(),
            ).s(": ").s(e.source.as_str()).done(),
        }
    }

    /// The text of the error underneath, where there is one.
    pub fn source(&self) -> (s: Option<String>)
        ensures
            crate::text::opt_chars(s) == self@.cause(),
    {
        match self {
            OcelotlError::Tokenizer(e) => crate::text::clone_opt(&e.source),
            OcelotlError::Io(e) => Some(e.source.clone()),
            _ => None,
        }
    }
}

/// The view of a kernel error of the CPU backend.
pub open spec fn cpu_error(message: Seq<char>) -> ErrorView {
    ErrorView::Kernel { backend: "cpu"@, message }
}

/// The view of a runtime error.
pub open spec fn runtime_error(message: Seq<char>) -> ErrorView {
    ErrorView::Runtime { message }
}

/// A runtime error with the given message.
pub fn runtime_err(message: String) -> (e: OcelotlError)
    ensures
        e@ == runtime_error(message@),
{
    OcelotlError::Runtime(RuntimeError { message })
}

/// A kernel error of the CPU backend with the given message.
pub fn kernel_err(message: String) -> (e: OcelotlError)
    ensures
        e@ == cpu_error(message@),
{
    OcelotlError::Kernel(KernelError { backend: String::from_str("cpu"), message })
}

} // verus!
