use vstd::prelude::*;

use crate::text::{concat, owned};

verus! {

/// The kinds of error that an action can end in.
#[derive(Debug, Clone, Copy, PartialEq, Eq, Structural)]
pub enum ActionErrorType {
    UnknownDatabaseWriteError,
    UnknownDatabaseDeleteError,
    UnknownDatabaseFindError,
    UnknownDatabaseFindUniqueError,
    UnknownDatabaseCountError,
    NotFound,
    InternalServerError,
    UndefinedAction,
    UnallowedAction,
    ObjectNotFound,
    ObjectIsNotSaved,
    FieldIsNotUnique,
    UnmatchedDataTypeInDatabase,
    InvalidAuthorizationFormat,
    IdentityIsNotFound,
    UnexpectedNull,
    InvalidQueryInput,
    RequiredRelationCannotDisconnect,
    NewObjectCannotDisconnect,
    SaveCallingError,
    CustomError,
    ModelNotFound,
    WrongIdentityModel,
    PropertySetterError,
    IncorrectJSONFormat,
    UnexpectedInputRootType,
    UnexpectedInputType,
    UnexpectedInputKey,
    UnexpectedInputValue,
    MissingRequiredInput,
    UnexpectedObjectLength,
    InvalidJWTToken,
    PermissionDenied,
    InvalidKey,
}

/// The HTTP status class of each error kind.
pub open spec fn status_of(t: ActionErrorType) -> u16 {
    match t {
        ActionErrorType::UnknownDatabaseWriteError => 500,
        ActionErrorType::UnknownDatabaseDeleteError => 500,
        ActionErrorType::UnknownDatabaseFindError => 500,
        ActionErrorType::UnknownDatabaseFindUniqueError => 500,
        ActionErrorType::UnknownDatabaseCountError => 500,
        ActionErrorType::NotFound => 404,
        ActionErrorType::InternalServerError => 500,
        ActionErrorType::UndefinedAction => 400,
        ActionErrorType::UnallowedAction => 400,
        ActionErrorType::ObjectNotFound => 404,
        ActionErrorType::ObjectIsNotSaved => 400,
        ActionErrorType::FieldIsNotUnique => 400,
        ActionErrorType::UnmatchedDataTypeInDatabase => 500,
        ActionErrorType::InvalidAuthorizationFormat => 401,
        ActionErrorType::IdentityIsNotFound => 401,
        ActionErrorType::UnexpectedNull => 400,
        ActionErrorType::InvalidQueryInput => 400,
        ActionErrorType::RequiredRelationCannotDisconnect => 400,
        ActionErrorType::NewObjectCannotDisconnect => 400,
        ActionErrorType::SaveCallingError => 500,
        ActionErrorType::CustomError => 500,
        ActionErrorType::ModelNotFound => 500,
        ActionErrorType::WrongIdentityModel => 401,
        ActionErrorType::PropertySetterError => 400,
        ActionErrorType::IncorrectJSONFormat => 400,
        ActionErrorType::UnexpectedInputRootType => 400,
        ActionErrorType::UnexpectedInputType => 400,
        ActionErrorType::UnexpectedInputKey => 400,
        ActionErrorType::UnexpectedInputValue => 400,
        ActionErrorType::MissingRequiredInput => 400,
        ActionErrorType::UnexpectedObjectLength => 400,
        ActionErrorType::InvalidJWTToken => 401,
        ActionErrorType::PermissionDenied => 401,
        ActionErrorType::InvalidKey => 500,
    }
}

impl ActionErrorType {
    /// The HTTP status code that reports this kind of error.
    pub fn code(&self) -> (r: u16)
        ensures
            r == status_of(*self),
    {
        match self {
            ActionErrorType::UnknownDatabaseWriteError => 500,
            ActionErrorType::UnknownDatabaseDeleteError => 500,
            ActionErrorType::UnknownDatabaseFindError => 500,
            ActionErrorType::UnknownDatabaseFindUniqueError => 500,
            ActionErrorType::UnknownDatabaseCountError => 500,
            ActionErrorType::NotFound => 404,
            ActionErrorType::InternalServerError => 500,
            ActionErrorType::UndefinedAction => 400,
            ActionErrorType::UnallowedAction => 400,
            ActionErrorType::ObjectNotFound => 404,
            ActionErrorType::ObjectIsNotSaved => 400,
            ActionErrorType::FieldIsNotUnique => 400,
            ActionErrorType::UnmatchedDataTypeInDatabase => 500,
            ActionErrorType::InvalidAuthorizationFormat => 401,
            ActionErrorType::IdentityIsNotFound => 401,
            ActionErrorType::UnexpectedNull => 400,
            ActionErrorType::InvalidQueryInput => 400,
            ActionErrorType::RequiredRelationCannotDisconnect => 400,
            ActionErrorType::NewObjectCannotDisconnect => 400,
            ActionErrorType::SaveCallingError => 500,
            ActionErrorType::CustomError => 500,
            ActionErrorType::ModelNotFound => 500,
            ActionErrorType::WrongIdentityModel => 401,
            ActionErrorType::PropertySetterError => 400,
            ActionErrorType::IncorrectJSONFormat => 400,
            ActionErrorType::UnexpectedInputRootType => 400,
            ActionErrorType::UnexpectedInputType => 400,
            ActionErrorType::UnexpectedInputKey => 400,
            ActionErrorType::UnexpectedInputValue => 400,
            ActionErrorType::MissingRequiredInput => 400,
            ActionErrorType::UnexpectedObjectLength => 400,
            ActionErrorType::InvalidJWTToken => 401,
            ActionErrorType::PermissionDenied => 401,
            ActionErrorType::InvalidKey => 500,
        }
    }
}

/// An error reported to the caller: a kind, a message, and optionally a reason for
/// each key path at which the input went wrong.
#[derive(Debug, PartialEq)]
pub struct ActionError {
    pub kind: ActionErrorType,
    pub message: String,
    pub errors: Option<Vec<(String, String)>>,
}

impl ActionError {
    /// True when the error has the given kind and message and no per-path reasons.
    pub open spec fn is_plain(&self, kind: ActionErrorType, message: Seq<char>) -> bool {
        &&& self.kind == kind
        &&& self.message@ == message
        &&& self.errors is None
    }

    /// True when the error has the given kind and message and exactly one reason,
    /// `reason`, given for `path`.
    pub open spec fn is_at(&self, kind: ActionErrorType, message: Seq<char>, path: Seq<char>, reason: Seq<char>) -> bool {
        &&& self.kind == kind
        &&& self.message@ == message
        &&& self.errors matches Some(e)
        &&& e@.len() == 1
        &&& e@[0].0@ == path
        &&& e@[0].1@ == reason
    }

    fn plain(kind: ActionErrorType, message: &str) -> (r: Self)
        ensures
            r.is_plain(kind, message@),
    {
        ActionError { kind, message: owned(message), errors: None }
    }

    fn at(kind: ActionErrorType, message: &str, path: &str, reason: String) -> (r: Self)
        ensures
            r.is_at(kind, message@, path@, reason@),
    {
        let mut errors: Vec<(String, String)> = Vec::new();
        errors.push((owned(path), reason));
        ActionError { kind, message: owned(message), errors: Some(errors) }
    }

    pub fn invalid_query_input(reason: &str) -> (r: Self)
        ensures
            r.is_plain(ActionErrorType::InvalidQueryInput, reason@),
    {
        Self::plain(ActionErrorType::InvalidQueryInput, reason)
    }

    pub fn unexpected_enum_value(field: &str) -> (r: Self)
        ensures
            r.is_at(ActionErrorType::UnexpectedInputValue, "Enum value is unexpected."@, field@, "Enum value is unexpected."@),
    {
        Self::at(ActionErrorType::UnexpectedInputValue, "Enum value is unexpected.", field, owned("Enum value is unexpected."))
    }

    pub fn unique_value_duplicated(field: &str) -> (r: Self)
        ensures
            r.is_at(ActionErrorType::UnexpectedInputValue, "Input is not valid."@, field@, "Unique value duplicated."@),
    {
        Self::at(ActionErrorType::UnexpectedInputValue, "Input is not valid.", field, owned("Unique value duplicated."))
    }

    pub fn internal_server_error(reason: &str) -> (r: Self)
        ensures
            r.is_plain(ActionErrorType::InternalServerError, reason@),
    {
        Self::plain(ActionErrorType::InternalServerError, reason)
    }

    pub fn unknown_database_write_error() -> (r: Self)
        ensures
            r.is_plain(ActionErrorType::UnknownDatabaseWriteError, "An unknown database write error occurred."@),
    {
        Self::plain(ActionErrorType::UnknownDatabaseWriteError, "An unknown database write error occurred.")
    }

    pub fn unknown_database_delete_error() -> (r: Self)
        ensures
            r.is_plain(ActionErrorType::UnknownDatabaseDeleteError, "An unknown database delete error occurred."@),
    {
        Self::plain(ActionErrorType::UnknownDatabaseDeleteError, "An unknown database delete error occurred.")
    }

    pub fn not_found() -> (r: Self)
        ensures
            r.is_plain(ActionErrorType::NotFound, "The request destination is not found."@),
    {
        Self::plain(ActionErrorType::NotFound, "The request destination is not found.")
    }

    pub fn undefined_action() -> (r: Self)
        ensures
            r.is_plain(ActionErrorType::UndefinedAction, "Undefined action."@),
    {
        Self::plain(ActionErrorType::UndefinedAction, "Undefined action.")
    }

    pub fn unallowed_action() -> (r: Self)
        ensures
            r.is_plain(ActionErrorType::UnallowedAction, "Unallowed action."@),
    {
        Self::plain(ActionErrorType::UnallowedAction, "Unallowed action.")
    }

    pub fn object_not_found() -> (r: Self)
        ensures
            r.is_plain(ActionErrorType::ObjectNotFound, "The requested object is not exist."@),
    {
        Self::plain(ActionErrorType::ObjectNotFound, "The requested object is not exist.")
    }

    pub fn object_is_not_saved() -> (r: Self)
        ensures
            r.is_plain(ActionErrorType::ObjectIsNotSaved, "This object is not saved thus can't be deleted."@),
    {
        Self::plain(ActionErrorType::ObjectIsNotSaved, "This object is not saved thus can't be deleted.")
    }

    pub fn field_is_not_unique() -> (r: Self)
        ensures
            r.is_plain(ActionErrorType::FieldIsNotUnique, "Unique where input is not unique."@),
    {
        Self::plain(ActionErrorType::FieldIsNotUnique, "Unique where input is not unique.")
    }

    pub fn unknown_database_find_error() -> (r: Self)
        ensures
            r.is_plain(ActionErrorType::UnknownDatabaseFindError, "An unknown query error occurred."@),
    {
        Self::plain(ActionErrorType::UnknownDatabaseFindError, "An unknown query error occurred.")
    }

    pub fn unknown_database_find_unique_error() -> (r: Self)
        ensures
            r.is_plain(ActionErrorType::UnknownDatabaseFindUniqueError, "An unknown query unique error occurred."@),
    {
        Self::plain(ActionErrorType::UnknownDatabaseFindUniqueError, "An unknown query unique error occurred.")
    }

    pub fn unknown_database_count_error() -> (r: Self)
        ensures
            r.is_plain(ActionErrorType::UnknownDatabaseCountError, "An unknown count error occurred."@),
    {
        Self::plain(ActionErrorType::UnknownDatabaseCountError, "An unknown count error occurred.")
    }

    pub fn invalid_authorization_format() -> (r: Self)
        ensures
            r.is_plain(ActionErrorType::InvalidAuthorizationFormat, "Invalid authorization header format."@),
    {
        Self::plain(ActionErrorType::InvalidAuthorizationFormat, "Invalid authorization header format.")
    }

    pub fn invalid_jwt_token() -> (r: Self)
        ensures
            r.is_plain(ActionErrorType::InvalidJWTToken, "This token is malformed."@),
    {
        Self::plain(ActionErrorType::InvalidJWTToken, "This token is malformed.")
    }

    pub fn identity_is_not_found() -> (r: Self)
        ensures
            r.is_plain(ActionErrorType::IdentityIsNotFound, "Identity is not found."@),
    {
        Self::plain(ActionErrorType::IdentityIsNotFound, "Identity is not found.")
    }

    pub fn unexpected_null(field: &str) -> (r: Self)
        ensures
            r.is_at(ActionErrorType::UnexpectedNull, "Unexpected null."@, field@, "Unexpected null."@),
    {
        Self::at(ActionErrorType::UnexpectedNull, "Unexpected null.", field, owned("Unexpected null."))
    }

    pub fn required_relation_cannot_disconnect() -> (r: Self)
        ensures
            r.is_plain(ActionErrorType::RequiredRelationCannotDisconnect, "Required relation cannot disconnect."@),
    {
        Self::plain(ActionErrorType::RequiredRelationCannotDisconnect, "Required relation cannot disconnect.")
    }

    pub fn new_object_cannot_disconnect() -> (r: Self)
        ensures
            r.is_plain(ActionErrorType::NewObjectCannotDisconnect, "New object cannot disconnect."@),
    {
        Self::plain(ActionErrorType::NewObjectCannotDisconnect, "New object cannot disconnect.")
    }

    pub fn custom_error(message: &str) -> (r: Self)
        ensures
            r.is_plain(ActionErrorType::CustomError, message@),
    {
        Self::plain(ActionErrorType::CustomError, message)
    }

    pub fn wrong_identity_model() -> (r: Self)
        ensures
            r.is_plain(ActionErrorType::WrongIdentityModel, "This identity is valid but is not of this model."@),
    {
        Self::plain(ActionErrorType::WrongIdentityModel, "This identity is valid but is not of this model.")
    }

    pub fn property_setter_error(reason: &str) -> (r: Self)
        ensures
            r.is_plain(ActionErrorType::PropertySetterError, reason@),
    {
        Self::plain(ActionErrorType::PropertySetterError, reason)
    }

    pub fn incorrect_json_format() -> (r: Self)
        ensures
            r.is_plain(ActionErrorType::IncorrectJSONFormat, "Incorrect JSON format."@),
    {
        Self::plain(ActionErrorType::IncorrectJSONFormat, "Incorrect JSON format.")
    }

    pub fn unmatched_data_type_in_database(field_name: &str) -> (r: Self)
        ensures
            r.is_plain(
                ActionErrorType::UnmatchedDataTypeInDatabase,
                "Unmatched data type for field '"@ + field_name@ + "' in database."@,
            ),
    {
        let m = concat(&concat("Unmatched data type for field '", field_name), "' in database.");
        ActionError { kind: ActionErrorType::UnmatchedDataTypeInDatabase, message: m, errors: None }
    }

    /// A value of an unexpected JSON type was found at `field`.
    pub fn expected(expected_json_type: &str, field: &str) -> (r: Self)
        ensures
            r.is_at(
                ActionErrorType::UnexpectedInputType,
                "Expected '"@ + expected_json_type@ + "'."@,
                field@,
                "Unexpected field type."@,
            ),
    {
        let m = concat(&concat("Expected '", expected_json_type), "'.");
        let mut errors: Vec<(String, String)> = Vec::new();
        errors.push((owned(field), owned("Unexpected field type.")));
        ActionError { kind: ActionErrorType::UnexpectedInputType, message: m, errors: Some(errors) }
    }

    pub fn save_calling_error(model_name: &str) -> (r: Self)
        ensures
            r.is_plain(
                ActionErrorType::SaveCallingError,
                "Model `"@ + model_name@ + "', save method cannot be called inside before save callbacks."@,
            ),
    {
        let m = concat(&concat("Model `", model_name), "', save method cannot be called inside before save callbacks.");
        ActionError { kind: ActionErrorType::SaveCallingError, message: m, errors: None }
    }

    pub fn model_not_found(name: &str) -> (r: Self)
        ensures
            r.is_plain(ActionErrorType::ModelNotFound, "Model named `"@ + name@ + "' is not found."@),
    {
        let m = concat(&concat("Model named `", name), "' is not found.");
        ActionError { kind: ActionErrorType::ModelNotFound, message: m, errors: None }
    }

    pub fn unexpected_input_root_type(expected: &str) -> (r: Self)
        ensures
            r.is_plain(ActionErrorType::UnexpectedInputRootType, "Unexpected root input type. Expect "@ + expected@ + "."@),
    {
        let m = concat(&concat("Unexpected root input type. Expect ", expected), ".");
        ActionError { kind: ActionErrorType::UnexpectedInputRootType, message: m, errors: None }
    }

    pub fn unexpected_input_type(expected: &str, key_path: &str) -> (r: Self)
        ensures
            r.is_at(ActionErrorType::UnexpectedInputType, "Unexpected input type found."@, key_path@, "Expect "@ + expected@ + "."@),
    {
        let reason = concat(&concat("Expect ", expected), ".");
        Self::at(ActionErrorType::UnexpectedInputType, "Unexpected input type found.", key_path, reason)
    }

    pub fn unexpected_input_key(unexpected: &str, key_path: &str) -> (r: Self)
        ensures
            r.is_at(ActionErrorType::UnexpectedInputKey, "Unexpected key found."@, key_path@, "Unexpected key '"@ + unexpected@ + "'."@),
    {
        let reason = concat(&concat("Unexpected key '", unexpected), "'.");
        Self::at(ActionErrorType::UnexpectedInputKey, "Unexpected key found.", key_path, reason)
    }

    pub fn unexpected_input_value(expected: &str, key_path: &str) -> (r: Self)
        ensures
            r.is_at(ActionErrorType::UnexpectedInputValue, "Unexpected value found."@, key_path@, "Expect `"@ + expected@ + "'."@),
    {
        let reason = concat(&concat("Expect `", expected), "'.");
        Self::at(ActionErrorType::UnexpectedInputValue, "Unexpected value found.", key_path, reason)
    }

    pub fn unexpected_input_value_validation(reason: &str, key_path: &str) -> (r: Self)
        ensures
            r.is_at(ActionErrorType::UnexpectedInputValue, "Unexpected value found."@, key_path@, reason@),
    {
        Self::at(ActionErrorType::UnexpectedInputValue, "Unexpected value found.", key_path, owned(reason))
    }

    pub fn missing_required_input(expected: &str, key_path: &str) -> (r: Self)
        ensures
            r.is_at(ActionErrorType::MissingRequiredInput, "Missing required input."@, key_path@, "Expect `"@ + expected@ + "'."@),
    {
        let reason = concat(&concat("Expect `", expected), "'.");
        Self::at(ActionErrorType::MissingRequiredInput, "Missing required input.", key_path, reason)
    }

    /// An object at `key_path` should have had `expected` keys; `expected` is given
    /// in decimal digits.
    pub fn unexpected_object_length(expected: &str, key_path: &str) -> (r: Self)
        ensures
            r.is_at(ActionErrorType::UnexpectedObjectLength, "Unexpected object length."@, key_path@, "Expect length "@ + expected@ + "."@),
    {
        let reason = concat(&concat("Expect length ", expected), ".");
        Self::at(ActionErrorType::UnexpectedObjectLength, "Unexpected object length.", key_path, reason)
    }

    pub fn invalid_key(unexpected_key: &str, model_name: &str) -> (r: Self)
        ensures
            r.is_plain(
                ActionErrorType::InvalidKey,
                "Invalid key '"@ + unexpected_key@ + "' accessed on model `"@ + model_name@ + "'"@,
            ),
    {
        let m = concat(&concat(&concat(&concat("Invalid key '", unexpected_key), "' accessed on model `"), model_name), "'");
        ActionError { kind: ActionErrorType::InvalidKey, message: m, errors: None }
    }

    pub fn permission_denied(action: &str) -> (r: Self)
        ensures
            r.is_plain(ActionErrorType::PermissionDenied, "Permission denied for `"@ + action@ + "'."@),
    {
        let m = concat(&concat("Permission denied for `", action), "'.");
        ActionError { kind: ActionErrorType::PermissionDenied, message: m, errors: None }
    }
}

} // verus!
