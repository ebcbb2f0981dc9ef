//! Decodes the JSON given for a field in a create or update into a typed input.

use vstd::prelude::*;

use crate::action_error::{ActionError, ActionErrorType};
use crate::json::{Json, Number, copy_number};
use crate::outside::{decimal_text, parse_date, parse_datetime_millis, parse_decimal, parsed_date, rfc3339_millis};
use crate::schema::{Field, FieldType, Graph, Optionality, enum_has};
use crate::text::str_eq;
use crate::value::{Date, Value};

verus! {

/// An update that the backend applies to the stored number.
#[derive(Debug, Clone, Copy, PartialEq, Eq, Structural)]
pub enum AtomicUpdateType {
    Increment,
    Decrement,
    Multiply,
    Divide,
}

/// A decoded input: a value to store, or an update of the stored number.
#[derive(Debug, PartialEq)]
pub enum Input {
    SetValue(Value),
    AtomicUpdate(AtomicUpdateType, Value),
}

/// The mathematical value of a scalar `Value`.
pub enum Scalar {
    Null,
    ObjectId(Seq<char>),
    Bool(bool),
    I8(i8),
    I16(i16),
    I32(i32),
    I64(i64),
    I128(i128),
    U8(u8),
    U16(u16),
    U32(u32),
    U64(u64),
    U128(u128),
    F32(Number),
    F64(Number),
    Decimal(Seq<char>),
    Str(Seq<char>),
    Date(Date),
    DateTime(i64),
}

pub open spec fn scalar_view(v: Value) -> Option<Scalar> {
    match v {
        Value::Null => Some(Scalar::Null),
        Value::ObjectId(s) => Some(Scalar::ObjectId(s@)),
        Value::Bool(b) => Some(Scalar::Bool(b)),
        Value::I8(n) => Some(Scalar::I8(n)),
        Value::I16(n) => Some(Scalar::I16(n)),
        Value::I32(n) => Some(Scalar::I32(n)),
        Value::I64(n) => Some(Scalar::I64(n)),
        Value::I128(n) => Some(Scalar::I128(n)),
        Value::U8(n) => Some(Scalar::U8(n)),
        Value::U16(n) => Some(Scalar::U16(n)),
        Value::U32(n) => Some(Scalar::U32(n)),
        Value::U64(n) => Some(Scalar::U64(n)),
        Value::U128(n) => Some(Scalar::U128(n)),
        Value::F32(n) => Some(Scalar::F32(n)),
        Value::F64(n) => Some(Scalar::F64(n)),
        Value::Decimal(s) => Some(Scalar::Decimal(s@)),
        Value::String(s) => Some(Scalar::Str(s@)),
        Value::Date(d) => Some(Scalar::Date(d)),
        Value::DateTime(ms) => Some(Scalar::DateTime(ms)),
        _ => None,
    }
}

/// The integer a JSON number holds, if it is an integer.
pub open spec fn number_int(n: Number) -> Option<int> {
    match n {
        Number::Int(x) => Some(x as int),
        Number::UInt(x) => Some(x as int),
        Number::Float(_) => None,
    }
}

/// `n` as a value of the integer type `ft`, when it is in range.
pub open spec fn int_scalar(ft: FieldType, n: int) -> Option<Scalar> {
    match ft {
        FieldType::I8 => if i8::MIN <= n <= i8::MAX { Some(Scalar::I8(n as i8)) } else { None },
        FieldType::I16 => if i16::MIN <= n <= i16::MAX { Some(Scalar::I16(n as i16)) } else { None },
        FieldType::I32 => if i32::MIN <= n <= i32::MAX { Some(Scalar::I32(n as i32)) } else { None },
        FieldType::I64 => if i64::MIN <= n <= i64::MAX { Some(Scalar::I64(n as i64)) } else { None },
        FieldType::I128 => if i128::MIN <= n <= i128::MAX { Some(Scalar::I128(n as i128)) } else { None },
        FieldType::U8 => if 0 <= n <= u8::MAX { Some(Scalar::U8(n as u8)) } else { None },
        FieldType::U16 => if 0 <= n <= u16::MAX { Some(Scalar::U16(n as u16)) } else { None },
        FieldType::U32 => if 0 <= n <= u32::MAX { Some(Scalar::U32(n as u32)) } else { None },
        FieldType::U64 => if 0 <= n <= u64::MAX { Some(Scalar::U64(n as u64)) } else { None },
        FieldType::U128 => if 0 <= n <= u128::MAX { Some(Scalar::U128(n as u128)) } else { None },
        _ => None,
    }
}

/// Whether the field type holds a single value rather than a sequence, mapping or object.
pub open spec fn is_scalar_type(ft: FieldType) -> bool {
    !(ft is Vec || ft is Dictionary || ft is Object)
}

pub open spec fn is_numeric(ft: FieldType) -> bool {
    ft.is_int() || ft.is_float() || ft is Decimal
}

/// A JSON literal as a value of the field type `ft`.
pub open spec fn literal_spec(enums: Seq<(String, Vec<String>)>, ft: FieldType, j: Json) -> Result<Scalar, ActionErrorType> {
    if ft.is_int() {
        match j {
            Json::Number(n) => match number_int(n) {
                Some(x) => match int_scalar(ft, x) {
                    Some(s) => Ok(s),
                    None => Err(ActionErrorType::UnexpectedInputValue),
                },
                None => Err(ActionErrorType::UnexpectedInputType),
            },
            _ => Err(ActionErrorType::UnexpectedInputType),
        }
    } else {
        match ft {
            FieldType::F32 => match j {
                Json::Number(n) => Ok(Scalar::F32(n)),
                _ => Err(ActionErrorType::UnexpectedInputType),
            },
            FieldType::F64 => match j {
                Json::Number(n) => Ok(Scalar::F64(n)),
                _ => Err(ActionErrorType::UnexpectedInputType),
            },
            FieldType::Decimal => match j {
                Json::Str(s) => match decimal_text(s@) {
                    Some(t) => Ok(Scalar::Decimal(t)),
                    None => Err(ActionErrorType::UnexpectedInputValue),
                },
                _ => Err(ActionErrorType::UnexpectedInputType),
            },
            FieldType::Bool => match j {
                Json::Bool(b) => Ok(Scalar::Bool(b)),
                _ => Err(ActionErrorType::UnexpectedInputType),
            },
            FieldType::String => match j {
                Json::Str(s) => Ok(Scalar::Str(s@)),
                _ => Err(ActionErrorType::UnexpectedInputType),
            },
            FieldType::ObjectId => match j {
                Json::Str(s) => Ok(Scalar::ObjectId(s@)),
                _ => Err(ActionErrorType::UnexpectedInputType),
            },
            FieldType::Date => match j {
                Json::Str(s) => match parsed_date(s@) {
                    Some((y, m, d)) => Ok(Scalar::Date(Date { year: y as i32, month: m as u32, day: d as u32 })),
                    None => Err(ActionErrorType::UnexpectedInputValue),
                },
                _ => Err(ActionErrorType::UnexpectedInputType),
            },
            FieldType::DateTime => match j {
                Json::Str(s) => match rfc3339_millis(s@) {
                    Some(ms) => Ok(Scalar::DateTime(ms as i64)),
                    None => Err(ActionErrorType::UnexpectedInputValue),
                },
                _ => Err(ActionErrorType::UnexpectedInputType),
            },
            FieldType::Enum(name) => match j {
                Json::Str(s) => if enum_has(enums, name@, s@) {
                    Ok(Scalar::Str(s@))
                } else {
                    Err(ActionErrorType::UnexpectedInputValue)
                },
                _ => Err(ActionErrorType::UnexpectedInputType),
            },
            _ => Err(ActionErrorType::InternalServerError),
        }
    }
}

/// The update operator of an update object: `set` for every field; `increment`,
/// `decrement`, `multiply` and `divide` for numeric fields.
pub open spec fn update_op(ft: FieldType, op: Seq<char>) -> Option<Option<AtomicUpdateType>> {
    if op == "set"@ {
        Some(None)
    } else if is_numeric(ft) && op == "increment"@ {
        Some(Some(AtomicUpdateType::Increment))
    } else if is_numeric(ft) && op == "decrement"@ {
        Some(Some(AtomicUpdateType::Decrement))
    } else if is_numeric(ft) && op == "multiply"@ {
        Some(Some(AtomicUpdateType::Multiply))
    } else if is_numeric(ft) && op == "divide"@ {
        Some(Some(AtomicUpdateType::Divide))
    } else {
        None
    }
}

/// `null`: allowed for an optional field only.
pub open spec fn null_spec(f: Field) -> Result<(Option<AtomicUpdateType>, Scalar), ActionErrorType> {
    if f.optionality == Optionality::Optional {
        Ok((None, Scalar::Null))
    } else {
        Err(ActionErrorType::UnexpectedNull)
    }
}

/// The decoded input of a field: `null`, a literal, or an object with exactly
/// one update operator.
pub open spec fn decode_spec(enums: Seq<(String, Vec<String>)>, f: Field, j: Json) -> Result<(Option<AtomicUpdateType>, Scalar), ActionErrorType> {
    if j is Null {
        null_spec(f)
    } else if !is_scalar_type(f.field_type) {
        Err(ActionErrorType::InternalServerError)
    } else {
        match j {
            Json::Object(entries) => if entries@.len() != 1 {
                Err(ActionErrorType::UnexpectedObjectLength)
            } else {
                match update_op(f.field_type, entries@[0].0@) {
                    None => Err(ActionErrorType::UnexpectedInputKey),
                    Some(kind) => if entries@[0].1 is Null {
                        if kind is None { null_spec(f) } else { Err(ActionErrorType::UnexpectedInputType) }
                    } else {
                        match literal_spec(enums, f.field_type, entries@[0].1) {
                            Ok(s) => Ok((kind, s)),
                            Err(e) => Err(e),
                        }
                    },
                }
            },
            _ => match literal_spec(enums, f.field_type, j) {
                Ok(s) => Ok((None, s)),
                Err(e) => Err(e),
            },
        }
    }
}

pub open spec fn input_view(i: Input) -> (Option<AtomicUpdateType>, Option<Scalar>) {
    match i {
        Input::SetValue(v) => (None, scalar_view(v)),
        Input::AtomicUpdate(k, v) => (Some(k), scalar_view(v)),
    }
}


fn int_value(ft: &FieldType, n: i128, path: &str) -> (r: Result<Value, ActionError>)
    requires
        ft.is_int(),
    ensures
        r matches Ok(v) ==> int_scalar(*ft, n as int) == scalar_view(v) && scalar_view(v) is Some,
        r matches Err(e) ==> int_scalar(*ft, n as int) is None && e.kind == ActionErrorType::UnexpectedInputValue,
{
    let out_of_range = ActionError::unexpected_input_value("a number in range", path);
    match ft {
        FieldType::I8 => if -128 <= n && n <= 127 { Ok(Value::I8(n as i8)) } else { Err(out_of_range) },
        FieldType::I16 => if -32768 <= n && n <= 32767 { Ok(Value::I16(n as i16)) } else { Err(out_of_range) },
        FieldType::I32 => if -2147483648 <= n && n <= 2147483647 { Ok(Value::I32(n as i32)) } else { Err(out_of_range) },
        FieldType::I64 => if -9223372036854775808 <= n && n <= 9223372036854775807 { Ok(Value::I64(n as i64)) } else { Err(out_of_range) },
        FieldType::I128 => Ok(Value::I128(n)),
        FieldType::U8 => if 0 <= n && n <= 255 { Ok(Value::U8(n as u8)) } else { Err(out_of_range) },
        FieldType::U16 => if 0 <= n && n <= 65535 { Ok(Value::U16(n as u16)) } else { Err(out_of_range) },
        FieldType::U32 => if 0 <= n && n <= 4294967295 { Ok(Value::U32(n as u32)) } else { Err(out_of_range) },
        FieldType::U64 => if 0 <= n && n <= 18446744073709551615 { Ok(Value::U64(n as u64)) } else { Err(out_of_range) },
        _ => if 0 <= n { Ok(Value::U128(n as u128)) } else { Err(out_of_range) },
    }
}

fn is_int_type(ft: &FieldType) -> (r: bool)
    ensures
        r == ft.is_int(),
{
    match ft {
        FieldType::I8 | FieldType::I16 | FieldType::I32 | FieldType::I64 | FieldType::I128
        | FieldType::U8 | FieldType::U16 | FieldType::U32 | FieldType::U64 | FieldType::U128 => true,
        _ => false,
    }
}

/// Decodes a JSON literal as a value of the field type `ft`.
fn decode_literal(graph: &Graph, ft: &FieldType, j: &Json, path: &str) -> (r: Result<Value, ActionError>)
    ensures
        r matches Ok(v) ==> literal_spec(graph.enums@, *ft, *j) matches Ok(s) && scalar_view(v) == Some(s),
        r matches Err(e) ==> literal_spec(graph.enums@, *ft, *j) == Err::<Scalar, ActionErrorType>(e.kind),
{
    if is_int_type(ft) {
        return match j {
            Json::Number(Number::Int(x)) => int_value(ft, *x as i128, path),
            Json::Number(Number::UInt(x)) => int_value(ft, *x as i128, path),
            _ => Err(ActionError::unexpected_input_type("integer", path)),
        };
    }
    match ft {
        FieldType::F32 => match j {
            Json::Number(n) => Ok(Value::F32(copy_number(n))),
            _ => Err(ActionError::unexpected_input_type("number", path)),
        },
        FieldType::F64 => match j {
            Json::Number(n) => Ok(Value::F64(copy_number(n))),
            _ => Err(ActionError::unexpected_input_type("number", path)),
        },
        FieldType::Decimal => match j {
            Json::Str(s) => match parse_decimal(s.as_str()) {
                Some(t) => Ok(Value::Decimal(t)),
                None => Err(ActionError::unexpected_input_value("decimal string", path)),
            },
            _ => Err(ActionError::unexpected_input_type("decimal string", path)),
        },
        FieldType::Bool => match j {
            Json::Bool(b) => Ok(Value::Bool(*b)),
            _ => Err(ActionError::unexpected_input_type("bool", path)),
        },
        FieldType::String => match j {
            Json::Str(s) => Ok(Value::String(s.clone())),
            _ => Err(ActionError::unexpected_input_type("string", path)),
        },
        FieldType::ObjectId => match j {
            Json::Str(s) => Ok(Value::ObjectId(s.clone())),
            _ => Err(ActionError::unexpected_input_type("string", path)),
        },
        FieldType::Date => match j {
            Json::Str(s) => match parse_date(s.as_str()) {
                Some((y, m, d)) => Ok(Value::Date(Date { year: y, month: m, day: d })),
                None => Err(ActionError::unexpected_input_value("date", path)),
            },
            _ => Err(ActionError::unexpected_input_type("date string", path)),
        },
        FieldType::DateTime => match j {
            Json::Str(s) => match parse_datetime_millis(s.as_str()) {
                Some(ms) => Ok(Value::DateTime(ms)),
                None => Err(ActionError::unexpected_input_value("datetime", path)),
            },
            _ => Err(ActionError::unexpected_input_type("datetime string", path)),
        },
        FieldType::Enum(name) => match j {
            Json::Str(s) => if graph.enum_contains(name.as_str(), s.as_str()) {
                Ok(Value::String(s.clone()))
            } else {
                Err(ActionError::unexpected_input_value("enum member", path))
            },
            _ => Err(ActionError::unexpected_input_type("string", path)),
        },
        _ => Err(ActionError::internal_server_error("This field type takes no literal.")),
    }
}

fn decode_null(field: &Field, path: &str) -> (r: Result<Input, ActionError>)
    ensures
        r matches Ok(i) ==> null_spec(*field) matches Ok((k, s)) && input_view(i) == (k, Some(s)),
        r matches Err(e) ==> null_spec(*field) == Err::<(Option<AtomicUpdateType>, Scalar), ActionErrorType>(e.kind),
{
    if field.optionality == Optionality::Optional {
        Ok(Input::SetValue(Value::Null))
    } else {
        Err(ActionError::unexpected_null(path))
    }
}

/// Decodes the JSON given for `field`: `null` for an optional field, a literal
/// of the field's type, or an object with exactly one update operator (`set`,
/// and for numeric fields `increment`, `decrement`, `multiply`, `divide`).
pub fn decode_field_input(graph: &Graph, field: &Field, j: &Json, path: &str) -> (r: Result<Input, ActionError>)
    ensures
        r matches Ok(i) ==> decode_spec(graph.enums@, *field, *j) matches Ok((k, s)) && input_view(i) == (k, Some(s)),
        r matches Err(e) ==> decode_spec(graph.enums@, *field, *j) == Err::<(Option<AtomicUpdateType>, Scalar), ActionErrorType>(e.kind),
{
    if let Json::Null = j {
        return decode_null(field, path);
    }
    let ft = &field.field_type;
    match ft {
        FieldType::Vec(_) | FieldType::Dictionary(_) | FieldType::Object(_) => {
            return Err(ActionError::internal_server_error("This field type takes no literal."));
        },
        _ => {},
    }
    match j {
        Json::Object(entries) => {
            if entries.len() != 1 {
                return Err(ActionError::unexpected_object_length("1", path));
            }
            let op = entries[0].0.as_str();
            let v = &entries[0].1;
            let numeric = is_int_type(ft) || match ft {
                FieldType::F32 | FieldType::F64 | FieldType::Decimal => true,
                _ => false,
            };
            let kind: Option<AtomicUpdateType> = if str_eq(op, "set") {
                None
            } else if numeric && str_eq(op, "increment") {
                Some(AtomicUpdateType::Increment)
            } else if numeric && str_eq(op, "decrement") {
                Some(AtomicUpdateType::Decrement)
            } else if numeric && str_eq(op, "multiply") {
                Some(AtomicUpdateType::Multiply)
            } else if numeric && str_eq(op, "divide") {
                Some(AtomicUpdateType::Divide)
            } else {
                return Err(ActionError::unexpected_input_key(op, path));
            };
            if let Json::Null = v {
                return match kind {
                    None => decode_null(field, path),
                    Some(_) => Err(ActionError::unexpected_input_type("number", path)),
                };
            }
            let value = decode_literal(graph, ft, v, path)?;
            match kind {
                None => Ok(Input::SetValue(value)),
                Some(k) => Ok(Input::AtomicUpdate(k, value)),
            }
        },
        _ => {
            let value = decode_literal(graph, ft, j, path)?;
            Ok(Input::SetValue(value))
        },
    }
}

} // verus!
