use vstd::prelude::*;

use crate::action_error::{ActionError, ActionErrorType};
use crate::bson::{Bson, BV, Entries, bview, bview_items, bview_entries, lemma_items_push, lemma_entries_push};
use crate::json::{Number, copy_number};
use crate::outside::{day_start, day_start_millis, is_object_id_text, is_valid_ymd, days_in_month, is_leap_year, lower_hex_digit, object_id_hex};

verus! {

/// A calendar day.
#[derive(Debug, Clone, Copy, PartialEq, Eq, Structural)]
pub struct Date {
    pub year: i32,
    pub month: u32,
    pub day: u32,
}

/// Whether the year, month and day name a valid day.
pub fn is_valid_date(y: i32, m: u32, d: u32) -> (r: bool)
    ensures
        r == is_valid_ymd(y as int, m as int, d as int),
{
    if y < -262143 || y > 262142 || m < 1 || m > 12 || d < 1 {
        return false;
    }
    let leap = (y % 4 == 0 && y % 100 != 0) || y % 400 == 0;
    assert(leap == is_leap_year(y as int));
    let dim: u32 = if m == 2 {
        if leap { 29 } else { 28 }
    } else if m == 4 || m == 6 || m == 9 || m == 11 {
        30
    } else {
        31
    };
    assert(dim as int == days_in_month(y as int, m as int));
    d <= dim
}

impl Date {
    pub open spec fn is_valid(&self) -> bool {
        is_valid_ymd(self.year as int, self.month as int, self.day as int)
    }
}

/// A typed value of a field.
#[derive(Debug, PartialEq)]
pub enum Value {
    Null,
    ObjectId(String),
    Bool(bool),
    I8(i8),
    I16(i16),
    I32(i32),
    I64(i64),
    I128(i128),
    U8(u8),
    U16(u16),
    U32(u32),
    U64(u64),
    U128(u128),
    /// A single-precision float, as the number it was written as.
    F32(Number),
    /// A double-precision float, as the number it was written as.
    F64(Number),
    /// A decimal, as its canonical text.
    Decimal(String),
    String(String),
    Date(Date),
    /// An instant, in milliseconds since the Unix epoch, UTC.
    DateTime(i64),
    Vec(Vec<Value>),
    Dictionary(Vec<(String, Value)>),
}

/// The backend value of a scalar value; `None` where it cannot be encoded.
pub open spec fn scalar_bson(v: Value) -> Option<BV> {
    match v {
        Value::Null => Some(BV::Null),
        Value::ObjectId(s) => if is_object_id_text(s@) {
            Some(BV::ObjectId(s@.map_values(|c: char| lower_hex_digit(c))))
        } else {
            None
        },
        Value::Bool(b) => Some(BV::Bool(b)),
        Value::I8(n) => Some(BV::Int32(n as i32)),
        Value::I16(n) => Some(BV::Int32(n as i32)),
        Value::I32(n) => Some(BV::Int32(n)),
        Value::I64(n) => Some(BV::Int64(n)),
        Value::I128(n) => if i64::MIN <= n <= i64::MAX { Some(BV::Int64(n as i64)) } else { None },
        Value::U8(n) => Some(BV::Int32(n as i32)),
        Value::U16(n) => Some(BV::Int32(n as i32)),
        Value::U32(n) => Some(BV::Int64(n as i64)),
        Value::U64(n) => if n <= i64::MAX { Some(BV::Int64(n as i64)) } else { None },
        Value::U128(n) => if n <= i64::MAX { Some(BV::Int64(n as i64)) } else { None },
        Value::F32(n) => Some(BV::Double(n)),
        Value::F64(n) => Some(BV::Double(n)),
        Value::Decimal(s) => Some(BV::Decimal(s@)),
        Value::String(s) => Some(BV::Str(s@)),
        Value::Date(d) => if d.is_valid() {
            Some(BV::DateTime(day_start_millis(d.year as int, d.month as int, d.day as int) as i64))
        } else {
            None
        },
        Value::DateTime(ms) => Some(BV::DateTime(ms)),
        _ => None,
    }
}

/// The backend value of a value: scalars as `scalar_bson` gives them, sequences
/// and mappings element by element.
pub open spec fn value_bson(v: Value) -> Option<BV>
    decreases v,
{
    match v {
        Value::Vec(items) => match value_bson_items(items@) {
            Some(s) => Some(BV::Array(s)),
            None => None,
        },
        Value::Dictionary(entries) => match value_bson_entries(entries@) {
            Some(s) => Some(BV::Doc(s)),
            None => None,
        },
        _ => scalar_bson(v),
    }
}

pub open spec fn value_bson_items(s: Seq<Value>) -> Option<Seq<BV>>
    decreases s,
{
    if s.len() == 0 {
        Some(Seq::empty())
    } else {
        match (value_bson_items(s.drop_last()), value_bson(s.last())) {
            (Some(a), Some(b)) => Some(a.push(b)),
            _ => None,
        }
    }
}

pub open spec fn value_bson_entries(s: Seq<(String, Value)>) -> Option<Seq<(Seq<char>, BV)>>
    decreases s,
{
    if s.len() == 0 {
        Some(Seq::empty())
    } else {
        match (value_bson_entries(s.drop_last()), value_bson(s.last().1)) {
            (Some(a), Some(b)) => Some(a.push((s.last().0@, b))),
            _ => None,
        }
    }
}

/// Size of a value: the number of nodes in its tree.
pub open spec fn value_size(v: Value) -> nat
    decreases v,
{
    match v {
        Value::Vec(items) => 1 + value_items_size(items@),
        Value::Dictionary(entries) => 1 + value_entries_size(entries@),
        _ => 1,
    }
}

pub open spec fn value_items_size(s: Seq<Value>) -> nat
    decreases s,
{
    if s.len() == 0 {
        0
    } else {
        value_items_size(s.drop_last()) + value_size(s.last())
    }
}

pub open spec fn value_entries_size(s: Seq<(String, Value)>) -> nat
    decreases s,
{
    if s.len() == 0 {
        0
    } else {
        value_entries_size(s.drop_last()) + value_size(s.last().1)
    }
}

proof fn lemma_value_item_smaller(s: Seq<Value>, i: int)
    requires
        0 <= i < s.len(),
    ensures
        value_size(s[i]) <= value_items_size(s),
    decreases s.len(),
{
    if i < s.len() - 1 {
        lemma_value_item_smaller(s.drop_last(), i);
    }
}

proof fn lemma_value_entry_smaller(s: Seq<(String, Value)>, i: int)
    requires
        0 <= i < s.len(),
    ensures
        value_size(s[i].1) <= value_entries_size(s),
    decreases s.len(),
{
    if i < s.len() - 1 {
        lemma_value_entry_smaller(s.drop_last(), i);
    }
}

impl Value {
    /// Encodes the value for the document backend. Integers below 32 bits widen
    /// to 32 bits, wider ones go to 64 bits (an integer outside 64 bits is an
    /// `UnexpectedInputValue` error); a date becomes the instant at its
    /// midnight UTC. An object id that does not parse, or an invalid date, is an
    /// `UnexpectedInputValue` error.
    pub fn to_bson_value(&self) -> (r: Result<Bson, ActionError>)
        ensures
            r matches Ok(b) ==> value_bson(*self) == Some(bview(b)),
            r matches Err(e) ==> value_bson(*self) is None && e.kind == ActionErrorType::UnexpectedInputValue,
        decreases value_size(*self),
    {
        match self {
            Value::Null => Ok(Bson::Null),
            Value::ObjectId(s) => match object_id_hex(s.as_str()) {
                Some(h) => Ok(Bson::ObjectId(h)),
                None => Err(ActionError::unexpected_input_value("object id", "")),
            },
            Value::Bool(b) => Ok(Bson::Bool(*b)),
            Value::I8(n) => Ok(Bson::Int32(*n as i32)),
            Value::I16(n) => Ok(Bson::Int32(*n as i32)),
            Value::I32(n) => Ok(Bson::Int32(*n)),
            Value::I64(n) => Ok(Bson::Int64(*n)),
            Value::I128(n) => if -9223372036854775808 <= *n && *n <= 9223372036854775807 {
                Ok(Bson::Int64(*n as i64))
            } else {
                Err(ActionError::unexpected_input_value("an integer within 64 bits", ""))
            },
            Value::U8(n) => Ok(Bson::Int32(*n as i32)),
            Value::U16(n) => Ok(Bson::Int32(*n as i32)),
            Value::U32(n) => Ok(Bson::Int64(*n as i64)),
            Value::U64(n) => if *n <= 9223372036854775807 {
                Ok(Bson::Int64(*n as i64))
            } else {
                Err(ActionError::unexpected_input_value("an integer within 64 bits", ""))
            },
            Value::U128(n) => if *n <= 9223372036854775807 {
                Ok(Bson::Int64(*n as i64))
            } else {
                Err(ActionError::unexpected_input_value("an integer within 64 bits", ""))
            },
            Value::F32(n) => Ok(Bson::Double(copy_number(n))),
            Value::F64(n) => Ok(Bson::Double(copy_number(n))),
            Value::Decimal(s) => Ok(Bson::Decimal(s.clone())),
            Value::String(s) => Ok(Bson::Str(s.clone())),
            Value::Date(d) => {
                if is_valid_date(d.year, d.month, d.day) {
                    Ok(Bson::DateTime(day_start(d.year, d.month, d.day)))
                } else {
                    Err(ActionError::unexpected_input_value("date", ""))
                }
            },
            Value::DateTime(ms) => Ok(Bson::DateTime(*ms)),
            Value::Vec(items) => {
                let mut out: Vec<Bson> = Vec::new();
                let mut i: usize = 0;
                while i < items.len()
                    invariant
                        *self == Value::Vec(*items),
                        i <= items@.len(),
                        value_bson_items(items@.take(i as int)) == Some(bview_items(out@)),
                    decreases items.len() - i,
                {
                    proof {
                        lemma_value_item_smaller(items@, i as int);
                        assert(items@.take(i as int + 1).drop_last() =~= items@.take(i as int));
                    }
                    match items[i].to_bson_value() {
                        Ok(b) => {
                            proof {
                                lemma_items_push(out@, b);
                            }
                            out.push(b);
                        },
                        Err(e) => {
                            proof {
                                lemma_items_prefix_fails(items@, i as int + 1);
                            }
                            return Err(e);
                        },
                    }
                    i = i + 1;
                }
                assert(items@.take(i as int) =~= items@);
                Ok(Bson::Array(out))
            },
            Value::Dictionary(entries) => {
                let mut out: Entries = Vec::new();
                let mut i: usize = 0;
                while i < entries.len()
                    invariant
                        *self == Value::Dictionary(*entries),
                        i <= entries@.len(),
                        value_bson_entries(entries@.take(i as int)) == Some(bview_entries(out@)),
                    decreases entries.len() - i,
                {
                    proof {
                        lemma_value_entry_smaller(entries@, i as int);
                        assert(entries@.take(i as int + 1).drop_last() =~= entries@.take(i as int));
                    }
                    match entries[i].1.to_bson_value() {
                        Ok(b) => {
                            let k = entries[i].0.clone();
                            proof {
                                lemma_entries_push(out@, (k, b));
                            }
                            out.push((k, b));
                        },
                        Err(e) => {
                            proof {
                                lemma_entries_prefix_fails(entries@, i as int + 1);
                            }
                            return Err(e);
                        },
                    }
                    i = i + 1;
                }
                assert(entries@.take(i as int) =~= entries@);
                Ok(Bson::Doc(out))
            },
        }
    }
}


proof fn lemma_items_prefix_fails(s: Seq<Value>, n: int)
    requires
        0 < n <= s.len(),
        value_bson(s[n - 1]) is None,
    ensures
        value_bson_items(s) is None,
    decreases s.len(),
{
    if n < s.len() {
        lemma_items_prefix_fails(s.drop_last(), n);
    }
}

proof fn lemma_entries_prefix_fails(s: Seq<(String, Value)>, n: int)
    requires
        0 < n <= s.len(),
        value_bson(s[n - 1].1) is None,
    ensures
        value_bson_entries(s) is None,
    decreases s.len(),
{
    if n < s.len() {
        lemma_entries_prefix_fails(s.drop_last(), n);
    }
}

} // verus!
