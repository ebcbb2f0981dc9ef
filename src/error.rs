use vstd::prelude::*;

use crate::text::owned;

verus! {

/// The kinds of error that input validation reports.
#[derive(Debug, Clone, Copy, PartialEq, Eq, Structural)]
pub enum ActionErrorType {
    KeysUnallowed,
    ActionUnrecognized,
    InvalidInput,
    WrongInputType,
    WrongDateFormat,
    WrongDateTimeFormat,
    WrongEnumChoice,
    ValueRequired,
    ValidationError,
    UnknownDatabaseWriteError,
    InternalServerError,
}

/// The HTTP status code of each kind.
pub open spec fn status_of(t: ActionErrorType) -> u16 {
    match t {
        ActionErrorType::KeysUnallowed => 400,
        ActionErrorType::ActionUnrecognized => 400,
        ActionErrorType::InvalidInput => 400,
        ActionErrorType::WrongInputType => 400,
        ActionErrorType::WrongDateFormat => 400,
        ActionErrorType::WrongDateTimeFormat => 400,
        ActionErrorType::WrongEnumChoice => 400,
        ActionErrorType::ValueRequired => 400,
        ActionErrorType::ValidationError => 400,
        ActionErrorType::UnknownDatabaseWriteError => 500,
        ActionErrorType::InternalServerError => 500,
    }
}

impl ActionErrorType {
    pub fn code(&self) -> (r: u16)
        ensures
            r == status_of(*self),
    {
        match self {
            ActionErrorType::KeysUnallowed => 400,
            ActionErrorType::ActionUnrecognized => 400,
            ActionErrorType::InvalidInput => 400,
            ActionErrorType::WrongInputType => 400,
            ActionErrorType::WrongDateFormat => 400,
            ActionErrorType::WrongDateTimeFormat => 400,
            ActionErrorType::WrongEnumChoice => 400,
            ActionErrorType::ValueRequired => 400,
            ActionErrorType::ValidationError => 400,
            ActionErrorType::UnknownDatabaseWriteError => 500,
            ActionErrorType::InternalServerError => 500,
        }
    }
}

/// A validation error: a kind, a message, and optionally a reason for each key.
#[derive(Debug, PartialEq)]
pub struct ActionError {
    pub kind: ActionErrorType,
    pub message: String,
    pub errors: Option<Vec<(String, String)>>,
}

impl ActionError {
    pub open spec fn is_plain(&self, kind: ActionErrorType, message: Seq<char>) -> bool {
        &&& self.kind == kind
        &&& self.message@ == message
        &&& self.errors is None
    }

    pub open spec fn is_at(&self, kind: ActionErrorType, message: Seq<char>, key: Seq<char>, reason: Seq<char>) -> bool {
        &&& self.kind == kind
        &&& self.message@ == message
        &&& self.errors matches Some(e)
        &&& e@.len() == 1
        &&& e@[0].0@ == key
        &&& e@[0].1@ == reason
    }

    pub fn keys_unallowed() -> (r: Self)
        ensures
            r.is_plain(ActionErrorType::KeysUnallowed, "Unallowed keys detected."@),
    {
        ActionError { kind: ActionErrorType::KeysUnallowed, message: owned("Unallowed keys detected."), errors: None }
    }

    pub fn action_unrecognized() -> (r: Self)
        ensures
            r.is_plain(ActionErrorType::ActionUnrecognized, "This action is unrecognized."@),
    {
        ActionError { kind: ActionErrorType::ActionUnrecognized, message: owned("This action is unrecognized."), errors: None }
    }

    pub fn wrong_input_type() -> (r: Self)
        ensures
            r.is_plain(ActionErrorType::WrongInputType, "Input type is unexpected."@),
    {
        ActionError { kind: ActionErrorType::WrongInputType, message: owned("Input type is unexpected."), errors: None }
    }

    pub fn wrong_date_format() -> (r: Self)
        ensures
            r.is_plain(ActionErrorType::WrongDateFormat, "Date format is unexpected."@),
    {
        ActionError { kind: ActionErrorType::WrongDateFormat, message: owned("Date format is unexpected."), errors: None }
    }

    pub fn wrong_datetime_format() -> (r: Self)
        ensures
            r.is_plain(ActionErrorType::WrongDateTimeFormat, "Datetime format is unexpected."@),
    {
        ActionError { kind: ActionErrorType::WrongDateTimeFormat, message: owned("Datetime format is unexpected."), errors: None }
    }

    pub fn wrong_enum_choice() -> (r: Self)
        ensures
            r.is_plain(ActionErrorType::WrongEnumChoice, "Enum value is unexpected."@),
    {
        ActionError { kind: ActionErrorType::WrongEnumChoice, message: owned("Enum value is unexpected."), errors: None }
    }

    pub fn value_required() -> (r: Self)
        ensures
            r.is_plain(ActionErrorType::ValueRequired, "Value is required."@),
    {
        ActionError { kind: ActionErrorType::ValueRequired, message: owned("Value is required."), errors: None }
    }

    pub fn unknown_database_write_error() -> (r: Self)
        ensures
            r.is_plain(ActionErrorType::UnknownDatabaseWriteError, "An unknown database write error occurred."@),
    {
        ActionError { kind: ActionErrorType::UnknownDatabaseWriteError, message: owned("An unknown database write error occurred."), errors: None }
    }

    pub fn invalid_input(key: &str, reason: String) -> (r: Self)
        ensures
            r.is_at(ActionErrorType::InvalidInput, "Invalid value found in input values."@, key@, reason@),
    {
        let mut fields: Vec<(String, String)> = Vec::new();
        fields.push((owned(key), reason));
        ActionError { kind: ActionErrorType::InvalidInput, message: owned("Invalid value found in input values."), errors: Some(fields) }
    }

    pub fn unique_value_duplicated(field: &str) -> (r: Self)
        ensures
            r.is_at(ActionErrorType::ValidationError, "Input is not valid."@, field@, "Unique value duplicated."@),
    {
        let mut errors: Vec<(String, String)> = Vec::new();
        errors.push((owned(field), owned("Unique value duplicated.")));
        ActionError { kind: ActionErrorType::ValidationError, message: owned("Input is not valid."), errors: Some(errors) }
    }

    pub fn internal_server_error(reason: String) -> (r: Self)
        ensures
            r.kind == ActionErrorType::InternalServerError,
            r.message == reason,
            r.errors is None,
    {
        ActionError { kind: ActionErrorType::InternalServerError, message: reason, errors: None }
    }
}

} // verus!
