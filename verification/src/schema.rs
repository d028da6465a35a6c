//! Column types and fields.

use vstd::prelude::*;
use crate::text;

verus! {

/// The unit of a time or timestamp type.
#[derive(Clone, Copy, Debug, PartialEq, Eq, Structural)]
pub enum TimeUnit {
    Second,
    Millisecond,
    Microsecond,
    Nanosecond,
}

/// The type of a column. The types that [`ApproxDistinct`](crate::ApproxDistinct) tells apart
/// have a variant of their own; any other type is carried by its text.
#[derive(Debug, PartialEq, Eq)]
pub enum DataType {
    Null,
    Int8,
    Int16,
    Int32,
    Int64,
    UInt8,
    UInt16,
    UInt32,
    UInt64,
    Date32,
    Date64,
    Time32(TimeUnit),
    Time64(TimeUnit),
    /// A unit and an optional time zone.
    Timestamp(TimeUnit, Option<String>),
    Utf8,
    LargeUtf8,
    Utf8View,
    Binary,
    LargeBinary,
    /// Byte strings of one width.
    FixedSizeBinary(i32),
    /// Lists of the values of a field.
    List(Box<Field>),
    /// A type that is not told apart from others, given by its text.
    Other(String),
}

/// A named column with its type.
#[derive(Debug, PartialEq, Eq)]
pub struct Field {
    pub name: String,
    pub data_type: DataType,
    pub nullable: bool,
}

/// The text of a string in double quotes, with special characters escaped.
pub uninterp spec fn quoted(s: Seq<char>) -> Seq<char>;

/// Formats with the `Debug` implementation of `str` of the standard library. Trusted: the
/// result is a function of the characters.
#[verifier::external_body]
fn quote(s: &str) -> (text: String)
    ensures
        text@ == quoted(s@),
{
    format!("{s:?}")
}

/// Calls `datafusion_expr::utils::format_state_name`. Trusted: the result is the name of the
/// aggregate followed by the name of the state in square brackets.
#[verifier::external_body]
pub(crate) fn format_state_name(name: &str, state_name: &str) -> (text: String)
    ensures
        text@ == state_name_of(name@, state_name@),
{
    datafusion_expr::utils::format_state_name(name, state_name)
}

/// The name of a state field of an aggregate.
pub open spec fn state_name_of(name: Seq<char>, state_name: Seq<char>) -> Seq<char> {
    name + seq!['['] + state_name + seq![']']
}

/// Two types are the same: they agree up to the identity of the strings in them.
pub open spec fn same_type(a: DataType, b: DataType) -> bool
    decreases a,
{
    match (a, b) {
        (DataType::Timestamp(u, None), DataType::Timestamp(v, None)) => u == v,
        (DataType::Timestamp(u, Some(x)), DataType::Timestamp(v, Some(y))) => u == v && x@ == y@,
        (DataType::List(x), DataType::List(y)) => x.name@ == y.name@ && x.nullable == y.nullable
            && same_type(x.data_type, y.data_type),
        (DataType::Other(x), DataType::Other(y)) => x@ == y@,
        _ => a == b,
    }
}

/// A type of lists of nullable items of a type, under the default name of list items.
pub open spec fn is_list_of(list: DataType, data_type: DataType) -> bool {
    list matches DataType::List(item) && item.name@ == "item"@ && item.data_type == data_type
        && item.nullable
}

impl Clone for Field {
    fn clone(&self) -> (copy: Self)
        ensures
            copy == *self,
        decreases self,
    {
        Field {
            name: self.name.clone(),
            data_type: self.data_type.clone(),
            nullable: self.nullable,
        }
    }
}

impl Clone for DataType {
    fn clone(&self) -> (copy: Self)
        ensures
            copy == *self,
        decreases self,
    {
        match self {
            DataType::Null => DataType::Null,
            DataType::Int8 => DataType::Int8,
            DataType::Int16 => DataType::Int16,
            DataType::Int32 => DataType::Int32,
            DataType::Int64 => DataType::Int64,
            DataType::UInt8 => DataType::UInt8,
            DataType::UInt16 => DataType::UInt16,
            DataType::UInt32 => DataType::UInt32,
            DataType::UInt64 => DataType::UInt64,
            DataType::Date32 => DataType::Date32,
            DataType::Date64 => DataType::Date64,
            DataType::Time32(unit) => DataType::Time32(*unit),
            DataType::Time64(unit) => DataType::Time64(*unit),
            DataType::Timestamp(unit, None) => DataType::Timestamp(*unit, None),
            DataType::Timestamp(unit, Some(zone)) => {
                DataType::Timestamp(*unit, Some(zone.clone()))
            },
            DataType::Utf8 => DataType::Utf8,
            DataType::LargeUtf8 => DataType::LargeUtf8,
            DataType::Utf8View => DataType::Utf8View,
            DataType::Binary => DataType::Binary,
            DataType::LargeBinary => DataType::LargeBinary,
            DataType::FixedSizeBinary(width) => DataType::FixedSizeBinary(*width),
            DataType::List(item) => DataType::List(Box::new((&**item).clone())),
            DataType::Other(text) => DataType::Other(text.clone()),
        }
    }
}

impl TimeUnit {
    /// The abbreviation of the unit.
    pub open spec fn abbreviation(self) -> Seq<char> {
        match self {
            TimeUnit::Second => "s"@,
            TimeUnit::Millisecond => "ms"@,
            TimeUnit::Microsecond => "\u{b5}s"@,
            TimeUnit::Nanosecond => "ns"@,
        }
    }

    /// The abbreviation of the unit.
    pub fn text(&self) -> (text: &'static str)
        ensures
            text@ == self.abbreviation(),
    {
        match self {
            TimeUnit::Second => "s",
            TimeUnit::Millisecond => "ms",
            TimeUnit::Microsecond => "\u{b5}s",
            TimeUnit::Nanosecond => "ns",
        }
    }
}

impl Field {
    /// The text of the field as the item of a list type.
    pub open spec fn item_spelling(self) -> Seq<char>
        decreases self,
    {
        (if self.nullable { ""@ } else { "non-null "@ }) + self.data_type.spelling() + (
        if self.name@ == "item"@ { ""@ } else { ", field: '"@ + self.name@ + "'"@ })
    }

    /// A field that holds lists.
    pub fn new_list(name: String, item: Field, nullable: bool) -> (field: Field)
        ensures
            field == (Field { name, data_type: DataType::List(Box::new(item)), nullable }),
    {
        Field { name, data_type: DataType::List(Box::new(item)), nullable }
    }

    /// A field for the items of a list, under the name that list items have by default.
    pub fn new_list_field(data_type: DataType, nullable: bool) -> (field: Field)
        ensures
            field.name@ == "item"@,
            field.data_type == data_type,
            field.nullable == nullable,
    {
        Field { name: "item".to_owned(), data_type, nullable }
    }

    fn item_text(&self) -> (text: String)
        ensures
            text@ == self.item_spelling(),
        decreases self,
    {
        let mut text = if self.nullable { String::new() } else { "non-null ".to_owned() };
        proof {
            reveal_strlit("");
            assert(""@ =~= Seq::<char>::empty());
        }
        text.append(self.data_type.text().as_str());
        let default_name = "item".to_owned();
        if !self.name.eq(&default_name) {
            text.append(", field: '");
            text.append(self.name.as_str());
            text.append("'");
        }
        assert(text@ =~= self.item_spelling());
        text
    }
}

impl DataType {
    /// Timestamps in a unit, whatever the time zone.
    pub open spec fn is_timestamp_in(self, unit: TimeUnit) -> bool {
        self matches DataType::Timestamp(u, _) && u == unit
    }

    /// The text of the type.
    pub open spec fn spelling(self) -> Seq<char>
        decreases self,
    {
        match self {
            DataType::Null => "Null"@,
            DataType::Int8 => "Int8"@,
            DataType::Int16 => "Int16"@,
            DataType::Int32 => "Int32"@,
            DataType::Int64 => "Int64"@,
            DataType::UInt8 => "UInt8"@,
            DataType::UInt16 => "UInt16"@,
            DataType::UInt32 => "UInt32"@,
            DataType::UInt64 => "UInt64"@,
            DataType::Date32 => "Date32"@,
            DataType::Date64 => "Date64"@,
            DataType::Time32(unit) => "Time32("@ + unit.abbreviation() + ")"@,
            DataType::Time64(unit) => "Time64("@ + unit.abbreviation() + ")"@,
            DataType::Timestamp(unit, None) => "Timestamp("@ + unit.abbreviation() + ")"@,
            DataType::Timestamp(unit, Some(zone)) => "Timestamp("@ + unit.abbreviation() + ", "@
                + quoted(zone@) + ")"@,
            DataType::Utf8 => "Utf8"@,
            DataType::LargeUtf8 => "LargeUtf8"@,
            DataType::Utf8View => "Utf8View"@,
            DataType::Binary => "Binary"@,
            DataType::LargeBinary => "LargeBinary"@,
            DataType::FixedSizeBinary(width) => "FixedSizeBinary("@ + text::signed_decimal(
                width as int,
            ) + ")"@,
            DataType::List(item) => "List("@ + item.item_spelling() + ")"@,
            DataType::Other(text) => text@,
        }
    }

    /// Writes the text of the type.
    pub fn text(&self) -> (text: String)
        ensures
            text@ == self.spelling(),
        decreases self,
    {
        match self {
            DataType::Null => "Null".to_owned(),
            DataType::Int8 => "Int8".to_owned(),
            DataType::Int16 => "Int16".to_owned(),
            DataType::Int32 => "Int32".to_owned(),
            DataType::Int64 => "Int64".to_owned(),
            DataType::UInt8 => "UInt8".to_owned(),
            DataType::UInt16 => "UInt16".to_owned(),
            DataType::UInt32 => "UInt32".to_owned(),
            DataType::UInt64 => "UInt64".to_owned(),
            DataType::Date32 => "Date32".to_owned(),
            DataType::Date64 => "Date64".to_owned(),
            DataType::Time32(unit) => text::concat3("Time32(", unit.text(), ")"),
            DataType::Time64(unit) => text::concat3("Time64(", unit.text(), ")"),
            DataType::Timestamp(unit, zone) => match zone {
                None => text::concat3("Timestamp(", unit.text(), ")"),
                Some(zone) => {
                    let mut text = text::concat3("Timestamp(", unit.text(), ", ");
                    text.append(quote(zone.as_str()).as_str());
                    text.append(")");
                    text
                },
            },
            DataType::Utf8 => "Utf8".to_owned(),
            DataType::LargeUtf8 => "LargeUtf8".to_owned(),
            DataType::Utf8View => "Utf8View".to_owned(),
            DataType::Binary => "Binary".to_owned(),
            DataType::LargeBinary => "LargeBinary".to_owned(),
            DataType::FixedSizeBinary(width) => text::concat3(
                "FixedSizeBinary(",
                text::signed_decimal_text(*width).as_str(),
                ")",
            ),
            DataType::List(item) => text::concat3("List(", item.item_text().as_str(), ")"),
            DataType::Other(text) => text.clone(),
        }
    }
}

} // verus!
