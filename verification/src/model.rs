//! The declarations that are collected: functions and constants.

use crate::text::{
    char_literal, escape_bytes, escaped_bytes, integer_text, integer_to_string, is_decimal,
    is_decimal_text, natural_to_string, quote_char, quote_string, recase, recased, string_literal,
    CaseStyle,
};
use vstd::prelude::*;

verus! {

/// A function to export. The types are kept as text, as they were written.
#[derive(Debug, Clone, PartialEq, Eq)]
pub struct Function {
    /// The name of the function.
    pub name: String,
    /// The return part of its signature: empty, `-> T`, or a bare `T`.
    pub return_type: String,
    /// Its arguments in the order of the call, each a name and a type.
    pub arguments: Vec<(String, String)>,
}

/// The contents of a `Function`.
pub struct FunctionView {
    pub name: Seq<char>,
    pub return_type: Seq<char>,
    pub arguments: Seq<(Seq<char>, Seq<char>)>,
}

impl DeepView for Function {
    type V = FunctionView;

    open spec fn deep_view(&self) -> FunctionView {
        FunctionView {
            name: self.name@,
            return_type: self.return_type@,
            arguments: self.arguments.deep_view(),
        }
    }
}

impl FunctionView {
    /// No two arguments have the same name.
    pub open spec fn well_formed(self) -> bool {
        forall|i: int, j: int|
            0 <= i < j < self.arguments.len() ==> self.arguments[i].0 != self.arguments[j].0
    }
}

/// The value of a constant. The variant fixes how the value is written in C.
#[derive(Debug, Clone, PartialEq, Eq)]
pub enum ConstantValue {
    /// A C `char`.
    CChar(u8),
    I8(i8),
    I16(i16),
    I32(i32),
    I64(i64),
    U8(u8),
    U16(u16),
    U32(u32),
    U64(u64),
    /// A 32-bit float, kept as its value written in decimal.
    F32(String),
    /// A 64-bit float, kept as its value written in decimal.
    F64(String),
    /// A UTF-8 string.
    Str(String),
    /// A byte string.
    Bytes(Vec<u8>),
}

/// A constant to export.
#[derive(Debug, Clone, PartialEq, Eq)]
pub struct Constant {
    /// The name of the constant.
    pub name: String,
    /// Its value.
    pub value: ConstantValue,
}

/// The contents of a `ConstantValue`.
pub enum ConstantValueView {
    CChar(u8),
    I8(i8),
    I16(i16),
    I32(i32),
    I64(i64),
    U8(u8),
    U16(u16),
    U32(u32),
    U64(u64),
    F32(Seq<char>),
    F64(Seq<char>),
    Str(Seq<char>),
    Bytes(Seq<u8>),
}

/// The contents of a `Constant`.
pub struct ConstantView {
    pub name: Seq<char>,
    pub value: ConstantValueView,
}

impl DeepView for ConstantValue {
    type V = ConstantValueView;

    open spec fn deep_view(&self) -> ConstantValueView {
        match self {
            ConstantValue::CChar(v) => ConstantValueView::CChar(*v),
            ConstantValue::I8(v) => ConstantValueView::I8(*v),
            ConstantValue::I16(v) => ConstantValueView::I16(*v),
            ConstantValue::I32(v) => ConstantValueView::I32(*v),
            ConstantValue::I64(v) => ConstantValueView::I64(*v),
            ConstantValue::U8(v) => ConstantValueView::U8(*v),
            ConstantValue::U16(v) => ConstantValueView::U16(*v),
            ConstantValue::U32(v) => ConstantValueView::U32(*v),
            ConstantValue::U64(v) => ConstantValueView::U64(*v),
            ConstantValue::F32(v) => ConstantValueView::F32(v@),
            ConstantValue::F64(v) => ConstantValueView::F64(v@),
            ConstantValue::Str(v) => ConstantValueView::Str(v@),
            ConstantValue::Bytes(v) => ConstantValueView::Bytes(v@),
        }
    }
}

impl DeepView for Constant {
    type V = ConstantView;

    open spec fn deep_view(&self) -> ConstantView {
        ConstantView { name: self.name@, value: self.value.deep_view() }
    }
}

impl ConstantValueView {
    /// A float is a number in decimal: digits, at most one point among them,
    /// and a minus sign in front at most. Every other value is well formed
    /// as it is.
    pub open spec fn well_formed(self) -> bool {
        match self {
            ConstantValueView::F32(text) => is_decimal_text(text),
            ConstantValueView::F64(text) => is_decimal_text(text),
            _ => true,
        }
    }

    /// The value as a C literal. Narrow integers get a cast to their width,
    /// wide ones a suffix; a 32-bit float ends in `f`; characters and strings
    /// are quoted and escaped; a byte string is a quoted string of escapes.
    pub open spec fn literal(self) -> Seq<char> {
        match self {
            ConstantValueView::CChar(v) => char_literal(v as char),
            ConstantValueView::I8(v) => "((int8_t)"@ + integer_text(v as int) + ")"@,
            ConstantValueView::I16(v) => "((int16_t)"@ + integer_text(v as int) + ")"@,
            ConstantValueView::I32(v) => integer_text(v as int),
            ConstantValueView::I64(v) => integer_text(v as int) + "ll"@,
            ConstantValueView::U8(v) => "((uint8_t)"@ + integer_text(v as int) + "u)"@,
            ConstantValueView::U16(v) => "((uint16_t)"@ + integer_text(v as int) + "u)"@,
            ConstantValueView::U32(v) => integer_text(v as int) + "u"@,
            ConstantValueView::U64(v) => integer_text(v as int) + "ull"@,
            ConstantValueView::F32(v) => v + "f"@,
            ConstantValueView::F64(v) => v,
            ConstantValueView::Str(v) => string_literal(v),
            ConstantValueView::Bytes(v) => "\""@ + escaped_bytes(v) + "\""@,
        }
    }
}

/// A line of a C header that gives a name to a literal.
pub open spec fn define_text(name: Seq<char>, literal: Seq<char>) -> Seq<char> {
    "#define "@ + name + " "@ + literal + "\n"@
}

impl ConstantView {
    /// The value of the constant is well formed.
    pub open spec fn well_formed(self) -> bool {
        self.value.well_formed()
    }

    /// The line of a C header that defines the constant: its name is the
    /// prefix followed by the constant's name in upper snake case.
    pub open spec fn header_line(self, prefix: Seq<char>) -> Seq<char> {
        define_text(prefix + recased(self.name, CaseStyle::UpperSnake), self.value.literal())
    }
}

/// Writes a line of a C header that gives a name to a literal.
pub fn define_line(name: &str, literal: &str) -> (out: String)
    ensures
        out@ == define_text(name@, literal@),
{
    let mut out = String::from_str("#define ");
    out.append(name);
    out.append(" ");
    out.append(literal);
    out.append("\n");
    out
}

fn wrap(before: &str, middle: &str, after: &str) -> (out: String)
    ensures
        out@ == before@ + middle@ + after@,
{
    let mut out = String::from_str(before);
    out.append(middle);
    out.append(after);
    out
}

impl ConstantValue {
    /// Tells whether the value is well formed: whether a float is a number in
    /// decimal.
    pub fn is_well_formed(&self) -> (ok: bool)
        ensures
            ok == self.deep_view().well_formed(),
    {
        match self {
            ConstantValue::F32(text) => is_decimal(text.as_str()),
            ConstantValue::F64(text) => is_decimal(text.as_str()),
            _ => true,
        }
    }

    /// Writes the value as a C literal.
    pub fn c_literal(&self) -> (out: String)
        requires
            self.deep_view().well_formed(),
        ensures
            out@ == self.deep_view().literal(),
    {
        let none = String::new();
        match self {
            ConstantValue::CChar(v) => quote_char(*v as char),
            ConstantValue::I8(v) => wrap("((int8_t)", integer_to_string(*v as i64).as_str(), ")"),
            ConstantValue::I16(v) => wrap("((int16_t)", integer_to_string(*v as i64).as_str(), ")"),
            ConstantValue::I32(v) => integer_to_string(*v as i64),
            ConstantValue::I64(v) => wrap(none.as_str(), integer_to_string(*v).as_str(), "ll"),
            ConstantValue::U8(v) => wrap("((uint8_t)", natural_to_string(*v as u64).as_str(), "u)"),
            ConstantValue::U16(v) => wrap(
                "((uint16_t)",
                natural_to_string(*v as u64).as_str(),
                "u)",
            ),
            ConstantValue::U32(v) => wrap(
                none.as_str(),
                natural_to_string(*v as u64).as_str(),
                "u",
            ),
            ConstantValue::U64(v) => wrap(none.as_str(), natural_to_string(*v).as_str(), "ull"),
            ConstantValue::F32(v) => wrap(none.as_str(), v.as_str(), "f"),
            ConstantValue::F64(v) => v.clone(),
            ConstantValue::Str(v) => quote_string(v.as_str()),
            ConstantValue::Bytes(v) => wrap("\"", escape_bytes(v).as_str(), "\""),
        }
    }
}

impl Constant {
    /// Writes the line of a C header that defines the constant.
    pub fn c_header(&self, prefix: &str) -> (out: String)
        requires
            self.deep_view().well_formed(),
        ensures
            out@ == self.deep_view().header_line(prefix@),
    {
        let mut name = String::from_str(prefix);
        name.append(recase(self.name.as_str(), CaseStyle::UpperSnake).as_str());
        define_line(name.as_str(), self.value.c_literal().as_str())
    }
}

} // verus!
