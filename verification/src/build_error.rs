use vstd::prelude::*;

use crate::decimal::{decimal, push_decimal};

verus! {

/// Errors raised while building the rseq payload and its offset table.
pub enum RseqBuildError {
    RseqStartWrongArgumentCount { name: String, count: usize },
    RseqStartFirstArgInvalid { name: String, actual: String },
    RseqStartSecondArgInvalid { name: String, actual: String },
    RseqStartReturnInvalid { name: String, actual: String },
    RseqCommitSectionNotFound { section_name: String },
    SymbolDataNotFound { symbol_name: String },
    GenricSymbolError { symbol_name: String, message: String },
    MagicNotFound,
    MagicFoundMultipleTimes,
    Io { message: String },
    JsonError { message: String },
    CargoMetadata { message: String },
    Object { message: String },
    Context { message: String, source: Box<RseqBuildError> },
}

impl RseqBuildError {
    /// Wraps this error in a `Context` error that carries `msg`.
    pub fn wrap(self, msg: String) -> (res: RseqBuildError)
        ensures
            res == (RseqBuildError::Context { message: msg, source: Box::new(self) }),
    {
        RseqBuildError::Context { message: msg, source: Box::new(self) }
    }
}

pub const FUNCTION_OPEN: &'static str = "Function '";
pub const WRONG_COUNT: &'static str = "' has wrong argument count: expected 2 parameters: (*c_void, u32), got ";
pub const WRONG_COUNT_END: &'static str = ".";
pub const BAD_FIRST_ARG: &'static str = "' has invalid first argument: expected *mut c_void, got '";
pub const BAD_SECOND_ARG: &'static str = "' has invalid second argument: expected u32, got '";
pub const BAD_RETURN: &'static str = "' has invalid return type: expected Result<*mut c_void, E>, got '";
pub const QUOTE: &'static str = "'";
pub const SECTION_OPEN: &'static str = "section '";
pub const SECTION_NOT_FOUND: &'static str = "' not found in rseq so";
pub const DATA_OPEN: &'static str = "Data for symbol '";
pub const DATA_NOT_PRESENT: &'static str = "' is not present in the so file";
pub const SYMBOL_PROBLEM_OPEN: &'static str = "problem with symbol '";
pub const SYMBOL_PROBLEM_SEPARATOR: &'static str = "': ";
pub const MAGIC_NOT_FOUND_TEXT: &'static str = "rseq end magic not found for symbol in rseq commet section";
pub const MAGIC_MULTIPLE_TEXT: &'static str = "rseq end magic found multiple times for symbolin rseq commet section";
pub const IO_OPEN: &'static str = "IO error: ";
pub const JSON_OPEN: &'static str = "JSON parsing failed: ";
pub const CARGO_METADATA_OPEN: &'static str = "Failed to fetch cargo metadata: ";
pub const OBJECT_OPEN: &'static str = "Object error: ";
pub const CONTEXT_SEPARATOR: &'static str = ": ";

/// The message of an error, and for a wrapped error its context followed by
/// the message of the error it wraps.
pub open spec fn error_text(e: RseqBuildError) -> Seq<char>
    decreases e,
{
    match e {
        RseqBuildError::RseqStartWrongArgumentCount { name, count } =>
            FUNCTION_OPEN@ + name@ + WRONG_COUNT@ + decimal(count as nat) + WRONG_COUNT_END@,
        RseqBuildError::RseqStartFirstArgInvalid { name, actual } =>
            FUNCTION_OPEN@ + name@ + BAD_FIRST_ARG@ + actual@ + QUOTE@,
        RseqBuildError::RseqStartSecondArgInvalid { name, actual } =>
            FUNCTION_OPEN@ + name@ + BAD_SECOND_ARG@ + actual@ + QUOTE@,
        RseqBuildError::RseqStartReturnInvalid { name, actual } =>
            FUNCTION_OPEN@ + name@ + BAD_RETURN@ + actual@ + QUOTE@,
        RseqBuildError::RseqCommitSectionNotFound { section_name } =>
            SECTION_OPEN@ + section_name@ + SECTION_NOT_FOUND@,
        RseqBuildError::SymbolDataNotFound { symbol_name } =>
            DATA_OPEN@ + symbol_name@ + DATA_NOT_PRESENT@,
        RseqBuildError::GenricSymbolError { symbol_name, message } =>
            SYMBOL_PROBLEM_OPEN@ + symbol_name@ + SYMBOL_PROBLEM_SEPARATOR@ + message@,
        RseqBuildError::MagicNotFound => MAGIC_NOT_FOUND_TEXT@,
        RseqBuildError::MagicFoundMultipleTimes => MAGIC_MULTIPLE_TEXT@,
        RseqBuildError::Io { message } => IO_OPEN@ + message@,
        RseqBuildError::JsonError { message } => JSON_OPEN@ + message@,
        RseqBuildError::CargoMetadata { message } => CARGO_METADATA_OPEN@ + message@,
        RseqBuildError::Object { message } => OBJECT_OPEN@ + message@,
        RseqBuildError::Context { message, source } => message@ + CONTEXT_SEPARATOR@ + error_text(*source),
    }
}

impl RseqBuildError {
    /// Appends the message of the error to `text`.
    pub fn append_description(&self, text: &mut String)
        ensures
            final(text)@ == old(text)@ + error_text(*self),
        decreases self,
    {
        match self {
            RseqBuildError::RseqStartWrongArgumentCount { name, count } => {
                text.append(FUNCTION_OPEN);
                text.append(name.as_str());
                text.append(WRONG_COUNT);
                push_decimal(text, *count);
                text.append(WRONG_COUNT_END);
            },
            RseqBuildError::RseqStartFirstArgInvalid { name, actual } => {
                text.append(FUNCTION_OPEN);
                text.append(name.as_str());
                text.append(BAD_FIRST_ARG);
                text.append(actual.as_str());
                text.append(QUOTE);
            },
            RseqBuildError::RseqStartSecondArgInvalid { name, actual } => {
                text.append(FUNCTION_OPEN);
                text.append(name.as_str());
                text.append(BAD_SECOND_ARG);
                text.append(actual.as_str());
                text.append(QUOTE);
            },
            RseqBuildError::RseqStartReturnInvalid { name, actual } => {
                text.append(FUNCTION_OPEN);
                text.append(name.as_str());
                text.append(BAD_RETURN);
                text.append(actual.as_str());
                text.append(QUOTE);
            },
            RseqBuildError::RseqCommitSectionNotFound { section_name } => {
                text.append(SECTION_OPEN);
                text.append(section_name.as_str());
                text.append(SECTION_NOT_FOUND);
            },
            RseqBuildError::SymbolDataNotFound { symbol_name } => {
                text.append(DATA_OPEN);
                text.append(symbol_name.as_str());
                text.append(DATA_NOT_PRESENT);
            },
            RseqBuildError::GenricSymbolError { symbol_name, message } => {
                text.append(SYMBOL_PROBLEM_OPEN);
                text.append(symbol_name.as_str());
                text.append(SYMBOL_PROBLEM_SEPARATOR);
                text.append(message.as_str());
            },
            RseqBuildError::MagicNotFound => {
                text.append(MAGIC_NOT_FOUND_TEXT);
            },
            RseqBuildError::MagicFoundMultipleTimes => {
                text.append(MAGIC_MULTIPLE_TEXT);
            },
            RseqBuildError::Io { message } => {
                text.append(IO_OPEN);
                text.append(message.as_str());
            },
            RseqBuildError::JsonError { message } => {
                text.append(JSON_OPEN);
                text.append(message.as_str());
            },
            RseqBuildError::CargoMetadata { message } => {
                text.append(CARGO_METADATA_OPEN);
                text.append(message.as_str());
            },
            RseqBuildError::Object { message } => {
                text.append(OBJECT_OPEN);
                text.append(message.as_str());
            },
            RseqBuildError::Context { message, source } => {
                text.append(message.as_str());
                text.append(CONTEXT_SEPARATOR);
                source.append_description(text);
            },
        }
        assert(final(text)@ =~= old(text)@ + error_text(*self));
    }

    /// The message of the error.
    pub fn to_display_string(&self) -> (res: String)
        ensures
            res@ == error_text(*self),
    {
        let mut text = String::new();
        self.append_description(&mut text);
        assert(text@ =~= error_text(*self));
        text
    }
}

} // verus!
