//! Errors of the state store and of field values.
use crate::text::{push_all, push_str, string_chars, string_from};
use vstd::prelude::*;

verus! {

/// Why the state of a heist could not be created, read or written. The
/// payloads of `Unreadable` and `Unparseable` are the underlying error's
/// message.
#[derive(Debug)]
pub enum StateError {
    Missing,
    AlreadyExists,
    Unreadable(String),
    Unparseable(String),
}

/// Why a value was refused for a state field.
#[derive(Debug, Clone)]
pub enum ValueError {
    Unknown(String),
    InvalidStage(String),
    InvalidNumeric { field: String, value: String },
    InvalidValue { field: String, value: String, expected: String },
    NotIncrementable(String),
    InvalidRef { value: String, reason: String },
}

/// The mathematical value of a [`ValueError`].
pub enum ValueErrorView {
    Unknown(Seq<char>),
    InvalidStage(Seq<char>),
    InvalidNumeric { field: Seq<char>, value: Seq<char> },
    InvalidValue { field: Seq<char>, value: Seq<char>, expected: Seq<char> },
    NotIncrementable(Seq<char>),
    InvalidRef { value: Seq<char>, reason: Seq<char> },
}

impl View for ValueError {
    type V = ValueErrorView;

    open spec fn view(&self) -> ValueErrorView {
        match self {
            ValueError::Unknown(f) => ValueErrorView::Unknown(f@),
            ValueError::InvalidStage(v) => ValueErrorView::InvalidStage(v@),
            ValueError::InvalidNumeric { field, value } => ValueErrorView::InvalidNumeric {
                field: field@,
                value: value@,
            },
            ValueError::InvalidValue { field, value, expected } => ValueErrorView::InvalidValue {
                field: field@,
                value: value@,
                expected: expected@,
            },
            ValueError::NotIncrementable(f) => ValueErrorView::NotIncrementable(f@),
            ValueError::InvalidRef { value, reason } => ValueErrorView::InvalidRef {
                value: value@,
                reason: reason@,
            },
        }
    }
}

/// The user-facing message of a value error.
pub open spec fn value_error_message(e: ValueErrorView) -> Seq<char> {
    match e {
        ValueErrorView::Unknown(f) => "unknown field: "@ + f,
        ValueErrorView::InvalidStage(v) => "invalid stage: "@ + v,
        ValueErrorView::InvalidNumeric { field, value } => "invalid value for numeric field '"@
            + field + "': "@ + value + " (expected an integer)"@,
        ValueErrorView::InvalidValue { field, value, expected } => "invalid value for field '"@
            + field + "': "@ + value + " (expected "@ + expected + ")"@,
        ValueErrorView::NotIncrementable(f) => "field '"@ + f
            + "' is not incrementable (not a number)"@,
        ValueErrorView::InvalidRef { value, reason } => "invalid ref '"@ + value + "': "@ + reason,
    }
}

impl ValueError {
    /// The error's message, as it is shown to users.
    pub fn message(&self) -> (r: String)
        ensures
            r@ == value_error_message(self@),
    {
        let mut m: Vec<char> = Vec::new();
        match self {
            ValueError::Unknown(f) => {
                push_str(&mut m, "unknown field: ");
                push_all(&mut m, &string_chars(f));
            },
            ValueError::InvalidStage(v) => {
                push_str(&mut m, "invalid stage: ");
                push_all(&mut m, &string_chars(v));
            },
            ValueError::InvalidNumeric { field, value } => {
                push_str(&mut m, "invalid value for numeric field '");
                push_all(&mut m, &string_chars(field));
                push_str(&mut m, "': ");
                push_all(&mut m, &string_chars(value));
                push_str(&mut m, " (expected an integer)");
            },
            ValueError::InvalidValue { field, value, expected } => {
                push_str(&mut m, "invalid value for field '");
                push_all(&mut m, &string_chars(field));
                push_str(&mut m, "': ");
                push_all(&mut m, &string_chars(value));
                push_str(&mut m, " (expected ");
                push_all(&mut m, &string_chars(expected));
                push_str(&mut m, ")");
            },
            ValueError::NotIncrementable(f) => {
                push_str(&mut m, "field '");
                push_all(&mut m, &string_chars(f));
                push_str(&mut m, "' is not incrementable (not a number)");
            },
            ValueError::InvalidRef { value, reason } => {
                push_str(&mut m, "invalid ref '");
                push_all(&mut m, &string_chars(value));
                push_str(&mut m, "': ");
                push_all(&mut m, &string_chars(reason));
            },
        }
        proof {
            assert(m@ =~= value_error_message(self@));
        }
        string_from(&m)
    }
}

/// The user-facing message of a state error.
pub open spec fn state_error_message(e: &StateError) -> Seq<char> {
    match e {
        StateError::Missing => "state file missing"@,
        StateError::AlreadyExists => "state directory already exists"@,
        StateError::Unreadable(m) => "failed to read state file: "@ + m@,
        StateError::Unparseable(m) => "state file unparseable: "@ + m@,
    }
}

impl StateError {
    /// The error's message, as it is shown to users.
    pub fn message(&self) -> (r: String)
        ensures
            r@ == state_error_message(self),
    {
        let mut m: Vec<char> = Vec::new();
        match self {
            StateError::Missing => push_str(&mut m, "state file missing"),
            StateError::AlreadyExists => push_str(&mut m, "state directory already exists"),
            StateError::Unreadable(e) => {
                push_str(&mut m, "failed to read state file: ");
                push_all(&mut m, &string_chars(e));
            },
            StateError::Unparseable(e) => {
                push_str(&mut m, "state file unparseable: ");
                push_all(&mut m, &string_chars(e));
            },
        }
        proof {
            assert(m@ =~= state_error_message(self));
        }
        string_from(&m)
    }
}

} // verus!
