//! The records under which declarations are kept: a text made of fields, each
//! field its length in decimal, a colon, and its content.

use crate::model::{
    Constant, ConstantValue, ConstantValueView, ConstantView, Function, FunctionView,
};
use crate::text::{
    digits_value, integer_text, integer_to_string, is_decimal, is_decimal_text,
    lemma_digits_of_natural_text, lemma_natural_text_is_digits, natural_text, natural_to_string,
    parse_digits, push_char,
};
use crate::registry::State;
use vstd::prelude::*;

verus! {

/// A field: the length of the content in decimal, a colon, the content.
pub open spec fn field(content: Seq<char>) -> Seq<char> {
    natural_text(content.len()) + seq![':'] + content
}

/// The first colon of a text stands at `k`.
pub open spec fn first_colon(text: Seq<char>, k: int) -> bool {
    &&& 0 <= k < text.len()
    &&& text[k] == ':'
    &&& forall|j: int| 0 <= j < k ==> text[j] != ':'
}

/// Splits a text into its first field and what follows it. There is none
/// where the text has no colon, where no number stands before the colon, or
/// where the text is shorter than the number says.
pub open spec fn split_field(text: Seq<char>) -> Option<(Seq<char>, Seq<char>)> {
    if exists|k: int| first_colon(text, k) {
        let k = choose|k: int| first_colon(text, k);
        match digits_value(text.take(k)) {
            Some(n) => if k + 1 + n <= text.len() {
                Some((text.subrange(k + 1, k + 1 + n), text.skip(k + 1 + n)))
            } else {
                None
            },
            None => None,
        }
    } else {
        None
    }
}

/// A field in front of a text splits into its content and that text.
pub proof fn lemma_split_field(content: Seq<char>, rest: Seq<char>)
    ensures
        split_field(field(content) + rest) == Some((content, rest)),
{
    let n = content.len();
    let digits = natural_text(n);
    let text = field(content) + rest;
    let k = digits.len() as int;
    lemma_natural_text_is_digits(n);
    lemma_digits_of_natural_text(n);
    assert forall|j: int| 0 <= j < k implies text[j] != ':' by {
        assert(text[j] == digits[j]);
    }
    assert(text[k] == ':');
    assert(first_colon(text, k));
    let chosen = choose|k: int| first_colon(text, k);
    assert(chosen == k) by {
        if chosen < k {
            assert(text[chosen] != ':');
        } else if k < chosen {
            assert(text[k] != ':');
        }
    }
    assert(text.take(k) =~= digits);
    assert(text.subrange(k + 1, k + 1 + n) =~= content);
    assert(text.skip(k + 1 + n) =~= rest);
}

/// Appends a field to a text.
pub fn push_field(text: &mut String, content: &str)
    ensures
        final(text)@ == old(text)@ + field(content@),
{
    let ghost before = text@;
    let length = content.unicode_len();
    text.append(natural_to_string(length as u64).as_str());
    push_char(text, ':');
    text.append(content);
    assert(text@ =~= before + field(content@));
}

/// Splits a text into its first field and what follows it.
pub fn take_field(text: &str) -> (out: Option<(&str, &str)>)
    ensures
        match out {
            Some((content, rest)) => split_field(text@) == Some((content@, rest@)) && rest@.len()
                < text@.len(),
            None => split_field(text@) is None,
        },
{
    let n = text.unicode_len();
    let mut k: usize = 0;
    let mut found = false;
    while k < n
        invariant_except_break
            k <= n,
            !found,
        invariant
            n == text@.len(),
            forall|j: int| 0 <= j < k ==> text@[j] != ':',
        ensures
            k <= n,
            found ==> first_colon(text@, k as int),
            !found ==> k == n,
        decreases n - k,
    {
        if text.get_char(k) == ':' {
            found = true;
            break;
        }
        k += 1;
    }
    if !found {
        assert forall|j: int| !first_colon(text@, j) by {}
        return None;
    }
    proof {
        let chosen = choose|j: int| first_colon(text@, j);
        if chosen < k {
            assert(text@[chosen] != ':');
        } else if k < chosen {
            assert(text@[k as int] != ':');
        }
        assert(chosen == k);
    }
    let digits = text.substring_char(0, k);
    assert(digits@ =~= text@.take(k as int));
    let room = n - k - 1;
    let length = match parse_digits(digits, room as u64) {
        Some(length) => length as usize,
        None => {
            return None;
        },
    };
    let content = text.substring_char(k + 1, k + 1 + length);
    let rest = text.substring_char(k + 1 + length, n);
    assert(rest@ =~= text@.skip(k + 1 + length));
    Some((content, rest))
}

/// The fields of a list of arguments: for each in turn its name, then its
/// type.
pub open spec fn encoded_args(args: Seq<(Seq<char>, Seq<char>)>) -> Seq<char>
    decreases args.len(),
{
    if args.len() == 0 {
        Seq::empty()
    } else {
        encoded_args(args.drop_last()) + field(args.last().0) + field(args.last().1)
    }
}

/// The record of a function: its name, its return type, its arguments.
pub open spec fn encoded_function(function: FunctionView) -> Seq<char> {
    field(function.name) + field(function.return_type) + encoded_args(function.arguments)
}

/// Reads fields two by two, as names and types, to the end of the text.
pub open spec fn decoded_args(text: Seq<char>) -> Option<Seq<(Seq<char>, Seq<char>)>>
    decreases text.len(),
{
    if text.len() == 0 {
        Some(Seq::empty())
    } else {
        match split_field(text) {
            None => None,
            Some((name, after_name)) => match split_field(after_name) {
                None => None,
                Some((ty, rest)) => if rest.len() < text.len() {
                    match decoded_args(rest) {
                        None => None,
                        Some(tail) => Some(seq![(name, ty)] + tail),
                    }
                } else {
                    None
                },
            },
        }
    }
}

/// Reads the record of a function.
pub open spec fn decoded_function(text: Seq<char>) -> Option<FunctionView> {
    match split_field(text) {
        None => None,
        Some((name, after_name)) => match split_field(after_name) {
            None => None,
            Some((return_type, rest)) => match decoded_args(rest) {
                None => None,
                Some(arguments) => Some(FunctionView { name, return_type, arguments }),
            },
        },
    }
}

/// The fields of a list that starts with one argument start with the fields
/// of that argument.
pub proof fn lemma_encoded_args_front(
    first: (Seq<char>, Seq<char>),
    tail: Seq<(Seq<char>, Seq<char>)>,
)
    ensures
        encoded_args(seq![first] + tail) == field(first.0) + field(first.1) + encoded_args(tail),
    decreases tail.len(),
{
    let all = seq![first] + tail;
    reveal_with_fuel(encoded_args, 2);
    if tail.len() == 0 {
        assert(all.drop_last() =~= Seq::empty());
        assert(all.last() == first);
        assert(encoded_args(all) =~= field(first.0) + field(first.1) + encoded_args(tail));
    } else {
        lemma_encoded_args_front(first, tail.drop_last());
        assert(all.drop_last() =~= seq![first] + tail.drop_last());
        assert(all.last() == tail.last());
        assert(encoded_args(all) =~= field(first.0) + field(first.1) + encoded_args(tail));
    }
}

/// Reading the fields of a list of arguments gives the list back.
pub proof fn lemma_args_round_trip(args: Seq<(Seq<char>, Seq<char>)>)
    ensures
        decoded_args(encoded_args(args)) == Some(args),
    decreases args.len(),
{
    if args.len() > 0 {
        let first = args[0];
        let tail = args.skip(1);
        assert(args =~= seq![first] + tail);
        lemma_encoded_args_front(first, tail);
        lemma_args_round_trip(tail);
        let text = encoded_args(args);
        let after_name = field(first.1) + encoded_args(tail);
        assert(text =~= field(first.0) + after_name);
        lemma_split_field(first.0, after_name);
        lemma_split_field(first.1, encoded_args(tail));
        lemma_natural_text_is_digits(first.0.len());
    }
}

/// Reading the record of a function gives the function back.
pub proof fn lemma_function_round_trip(function: FunctionView)
    ensures
        decoded_function(encoded_function(function)) == Some(function),
{
    let after_name = field(function.return_type) + encoded_args(function.arguments);
    assert(encoded_function(function) =~= field(function.name) + after_name);
    lemma_split_field(function.name, after_name);
    lemma_split_field(function.return_type, encoded_args(function.arguments));
    lemma_args_round_trip(function.arguments);
}

/// Writes the record of a function.
pub fn encode_function(function: &Function) -> (record: String)
    ensures
        record@ == encoded_function(function.deep_view()),
{
    let ghost args = function.arguments.deep_view();
    let mut record = String::new();
    push_field(&mut record, function.name.as_str());
    push_field(&mut record, function.return_type.as_str());
    let ghost head = record@;
    let mut i: usize = 0;
    assert(args.take(0) =~= Seq::empty());
    while i < function.arguments.len()
        invariant
            i <= function.arguments.len(),
            args == function.arguments.deep_view(),
            record@ == head + encoded_args(args.take(i as int)),
        decreases function.arguments.len() - i,
    {
        proof {
            let next = args.take(i + 1);
            assert(next.drop_last() =~= args.take(i as int));
            assert(next.last() == args[i as int]);
        }
        push_field(&mut record, function.arguments[i].0.as_str());
        push_field(&mut record, function.arguments[i].1.as_str());
        i += 1;
    }
    assert(args.take(i as int) =~= args);
    record
}

/// Reads the record of a function. A text that is no such record gives none.
pub fn decode_function(record: &str) -> (out: Option<Function>)
    ensures
        out.deep_view() == decoded_function(record@),
{
    let (name, after_name) = match take_field(record) {
        Some(split) => split,
        None => {
            return None;
        },
    };
    let (return_type, fields) = match take_field(after_name) {
        Some(split) => split,
        None => {
            return None;
        },
    };
    let mut arguments: Vec<(String, String)> = Vec::new();
    let mut rest: &str = fields;
    assert(arguments.deep_view() =~= Seq::empty());
    while rest.unicode_len() > 0
        invariant
            decoded_function(record@) == match decoded_args(fields@) {
                Some(arguments) => Some(
                    FunctionView { name: name@, return_type: return_type@, arguments },
                ),
                None => None,
            },
            decoded_args(fields@) == match decoded_args(rest@) {
                Some(tail) => Some(arguments.deep_view() + tail),
                None => None,
            },
        decreases rest@.len(),
    {
        let (arg_name, after_arg_name) = match take_field(rest) {
            Some(split) => split,
            None => {
                return None;
            },
        };
        let (arg_type, next) = match take_field(after_arg_name) {
            Some(split) => split,
            None => {
                return None;
            },
        };
        let ghost before = arguments.deep_view();
        arguments.push((String::from_str(arg_name), String::from_str(arg_type)));
        proof {
            assert(arguments.deep_view() =~= before.push((arg_name@, arg_type@)));
            match decoded_args(next@) {
                Some(tail) => {
                    assert(before + (seq![(arg_name@, arg_type@)] + tail)
                        =~= arguments.deep_view() + tail);
                },
                None => {},
            }
        }
        rest = next;
    }
    assert(arguments.deep_view() + Seq::empty() =~= arguments.deep_view());
    Some(
        Function {
            name: String::from_str(name),
            return_type: String::from_str(return_type),
            arguments,
        },
    )
}

impl State for Function {
    open spec fn kind_name() -> Seq<char> {
        "coastal.function"@
    }

    open spec fn representable(contents: FunctionView) -> bool {
        true
    }

    open spec fn encoded(contents: FunctionView) -> Seq<char> {
        encoded_function(contents)
    }

    open spec fn decoded(record: Seq<char>) -> Option<FunctionView> {
        decoded_function(record)
    }

    proof fn lemma_round_trip(contents: FunctionView) {
        lemma_function_round_trip(contents);
    }

    proof fn lemma_decoded_is_representable(record: Seq<char>) {
    }

    fn kind_text() -> (name: &'static str) {
        "coastal.function"
    }

    fn encode(&self) -> (record: String) {
        encode_function(self)
    }

    fn decode(record: &str) -> (out: Option<Function>) {
        decode_function(record)
    }
}

/// The integer that a text stands for: decimal digits, after a minus sign
/// for a number below zero.
pub open spec fn integer_value(text: Seq<char>) -> Option<int> {
    if text.len() > 0 && text[0] == '-' {
        match digits_value(text.skip(1)) {
            Some(n) => Some(-(n as int)),
            None => None,
        }
    } else {
        match digits_value(text) {
            Some(n) => Some(n as int),
            None => None,
        }
    }
}

/// The integer that a text stands for, where it lies between two bounds.
pub open spec fn ranged_value(text: Seq<char>, low: int, high: int) -> Option<int> {
    match integer_value(text) {
        Some(value) => if low <= value <= high {
            Some(value)
        } else {
            None
        },
        None => None,
    }
}

/// Bytes as text: each byte is the character with its number.
pub open spec fn bytes_text(bytes: Seq<u8>) -> Seq<char> {
    Seq::new(bytes.len(), |i: int| bytes[i] as char)
}

/// The bytes that a text stands for, where each character has the number of
/// a byte.
pub open spec fn text_bytes(text: Seq<char>) -> Option<Seq<u8>> {
    if forall|i: int| 0 <= i < text.len() ==> text[i] as u32 <= 0xff {
        Some(Seq::new(text.len(), |i: int| text[i] as u8))
    } else {
        None
    }
}

impl ConstantValueView {
    /// The character that tells the variants apart in a record.
    pub open spec fn tag(self) -> char {
        match self {
            ConstantValueView::CChar(_) => 'c',
            ConstantValueView::I8(_) => 'b',
            ConstantValueView::I16(_) => 'h',
            ConstantValueView::I32(_) => 'i',
            ConstantValueView::I64(_) => 'q',
            ConstantValueView::U8(_) => 'B',
            ConstantValueView::U16(_) => 'H',
            ConstantValueView::U32(_) => 'I',
            ConstantValueView::U64(_) => 'Q',
            ConstantValueView::F32(_) => 'f',
            ConstantValueView::F64(_) => 'd',
            ConstantValueView::Str(_) => 's',
            ConstantValueView::Bytes(_) => 'y',
        }
    }

    /// The value as it stands in a record: a number in decimal, a text as it
    /// is, bytes as characters.
    pub open spec fn payload(self) -> Seq<char> {
        match self {
            ConstantValueView::CChar(v) => integer_text(v as int),
            ConstantValueView::I8(v) => integer_text(v as int),
            ConstantValueView::I16(v) => integer_text(v as int),
            ConstantValueView::I32(v) => integer_text(v as int),
            ConstantValueView::I64(v) => integer_text(v as int),
            ConstantValueView::U8(v) => integer_text(v as int),
            ConstantValueView::U16(v) => integer_text(v as int),
            ConstantValueView::U32(v) => integer_text(v as int),
            ConstantValueView::U64(v) => integer_text(v as int),
            ConstantValueView::F32(v) => v,
            ConstantValueView::F64(v) => v,
            ConstantValueView::Str(v) => v,
            ConstantValueView::Bytes(v) => bytes_text(v),
        }
    }
}

/// The value that a tag and a payload stand for. An integer must fit the
/// variant that the tag names, and a float must be a number in decimal.
pub open spec fn decoded_value(tag: char, payload: Seq<char>) -> Option<ConstantValueView> {
    if tag == 'c' {
        match ranged_value(payload, 0, 0xff) {
            Some(v) => Some(ConstantValueView::CChar(v as u8)),
            None => None,
        }
    } else if tag == 'b' {
        match ranged_value(payload, -0x80, 0x7f) {
            Some(v) => Some(ConstantValueView::I8(v as i8)),
            None => None,
        }
    } else if tag == 'h' {
        match ranged_value(payload, -0x8000, 0x7fff) {
            Some(v) => Some(ConstantValueView::I16(v as i16)),
            None => None,
        }
    } else if tag == 'i' {
        match ranged_value(payload, -0x8000_0000, 0x7fff_ffff) {
            Some(v) => Some(ConstantValueView::I32(v as i32)),
            None => None,
        }
    } else if tag == 'q' {
        match ranged_value(payload, -0x8000_0000_0000_0000, 0x7fff_ffff_ffff_ffff) {
            Some(v) => Some(ConstantValueView::I64(v as i64)),
            None => None,
        }
    } else if tag == 'B' {
        match ranged_value(payload, 0, 0xff) {
            Some(v) => Some(ConstantValueView::U8(v as u8)),
            None => None,
        }
    } else if tag == 'H' {
        match ranged_value(payload, 0, 0xffff) {
            Some(v) => Some(ConstantValueView::U16(v as u16)),
            None => None,
        }
    } else if tag == 'I' {
        match ranged_value(payload, 0, 0xffff_ffff) {
            Some(v) => Some(ConstantValueView::U32(v as u32)),
            None => None,
        }
    } else if tag == 'Q' {
        match ranged_value(payload, 0, 0xffff_ffff_ffff_ffff) {
            Some(v) => Some(ConstantValueView::U64(v as u64)),
            None => None,
        }
    } else if tag == 'f' {
        if is_decimal_text(payload) {
            Some(ConstantValueView::F32(payload))
        } else {
            None
        }
    } else if tag == 'd' {
        if is_decimal_text(payload) {
            Some(ConstantValueView::F64(payload))
        } else {
            None
        }
    } else if tag == 's' {
        Some(ConstantValueView::Str(payload))
    } else if tag == 'y' {
        match text_bytes(payload) {
            Some(bytes) => Some(ConstantValueView::Bytes(bytes)),
            None => None,
        }
    } else {
        None
    }
}

/// What is read from a record is well formed.
pub proof fn lemma_decoded_constant_is_well_formed(text: Seq<char>)
    ensures
        decoded_constant(text) matches Some(constant) ==> constant.well_formed(),
{
}

/// The record of a constant: its name as a field, the tag of its value, the
/// value.
pub open spec fn encoded_constant(constant: ConstantView) -> Seq<char> {
    field(constant.name) + seq![constant.value.tag()] + constant.value.payload()
}

/// Reads the record of a constant.
pub open spec fn decoded_constant(text: Seq<char>) -> Option<ConstantView> {
    match split_field(text) {
        None => None,
        Some((name, rest)) => if rest.len() == 0 {
            None
        } else {
            match decoded_value(rest[0], rest.skip(1)) {
                Some(value) => Some(ConstantView { name, value }),
                None => None,
            }
        },
    }
}

/// Reading the decimal form of an integer gives the integer back.
pub proof fn lemma_integer_round_trip(value: int)
    ensures
        integer_value(integer_text(value)) == Some(value),
{
    if value < 0 {
        let magnitude = (-value) as nat;
        lemma_digits_of_natural_text(magnitude);
        assert(integer_text(value).skip(1) =~= natural_text(magnitude));
    } else {
        lemma_digits_of_natural_text(value as nat);
        lemma_natural_text_is_digits(value as nat);
    }
}

/// Reading bytes written as text gives the bytes back.
pub proof fn lemma_bytes_round_trip(bytes: Seq<u8>)
    ensures
        text_bytes(bytes_text(bytes)) == Some(bytes),
{
    let text = bytes_text(bytes);
    assert forall|i: int| 0 <= i < text.len() implies text[i] as u32 <= 0xff by {
        assert(text[i] == bytes[i] as char);
    }
    assert(Seq::new(text.len(), |i: int| text[i] as u8) =~= bytes);
}

/// Reading the tag and the payload of a well-formed value gives the value
/// back.
pub proof fn lemma_value_round_trip(value: ConstantValueView)
    requires
        value.well_formed(),
    ensures
        decoded_value(value.tag(), value.payload()) == Some(value),
{
    match value {
        ConstantValueView::CChar(v) => lemma_integer_round_trip(v as int),
        ConstantValueView::I8(v) => lemma_integer_round_trip(v as int),
        ConstantValueView::I16(v) => lemma_integer_round_trip(v as int),
        ConstantValueView::I32(v) => lemma_integer_round_trip(v as int),
        ConstantValueView::I64(v) => lemma_integer_round_trip(v as int),
        ConstantValueView::U8(v) => lemma_integer_round_trip(v as int),
        ConstantValueView::U16(v) => lemma_integer_round_trip(v as int),
        ConstantValueView::U32(v) => lemma_integer_round_trip(v as int),
        ConstantValueView::U64(v) => lemma_integer_round_trip(v as int),
        ConstantValueView::Bytes(v) => lemma_bytes_round_trip(v),
        _ => {},
    }
}

/// Reading the record of a well-formed constant gives the constant back.
pub proof fn lemma_constant_round_trip(constant: ConstantView)
    requires
        constant.well_formed(),
    ensures
        decoded_constant(encoded_constant(constant)) == Some(constant),
{
    let rest = seq![constant.value.tag()] + constant.value.payload();
    assert(encoded_constant(constant) =~= field(constant.name) + rest);
    lemma_split_field(constant.name, rest);
    assert(rest.skip(1) =~= constant.value.payload());
    lemma_value_round_trip(constant.value);
}

/// Reads a text as an integer between two bounds. The bounds are those of
/// the widest integers that a constant can hold.
pub fn parse_integer(text: &str, low: i128, high: i128) -> (out: Option<i128>)
    requires
        -0x8000_0000_0000_0000 <= low,
        high <= 0xffff_ffff_ffff_ffff,
    ensures
        out == match ranged_value(text@, low as int, high as int) {
            Some(value) => Some(value as i128),
            None => None,
        },
{
    let n = text.unicode_len();
    let value: i128 = if n > 0 && text.get_char(0) == '-' {
        let digits = text.substring_char(1, n);
        assert(digits@ =~= text@.skip(1));
        let most: u64 = if low <= 0 {
            (-low) as u64
        } else {
            0
        };
        match parse_digits(digits, most) {
            Some(magnitude) => -(magnitude as i128),
            None => {
                return None;
            },
        }
    } else {
        let most: u64 = if high >= 0 {
            high as u64
        } else {
            0
        };
        match parse_digits(text, most) {
            Some(value) => value as i128,
            None => {
                return None;
            },
        }
    };
    if low <= value && value <= high {
        Some(value)
    } else {
        None
    }
}

fn bytes_to_text(bytes: &Vec<u8>) -> (text: String)
    ensures
        text@ == bytes_text(bytes@),
{
    let mut text = String::new();
    let mut i: usize = 0;
    while i < bytes.len()
        invariant
            i <= bytes.len(),
            text@ == bytes_text(bytes@.take(i as int)),
        decreases bytes.len() - i,
    {
        push_char(&mut text, bytes[i] as char);
        assert(text@ =~= bytes_text(bytes@.take(i + 1)));
        i += 1;
    }
    assert(bytes@.take(i as int) =~= bytes@);
    text
}

fn text_to_bytes(text: &str) -> (out: Option<Vec<u8>>)
    ensures
        match out {
            Some(bytes) => text_bytes(text@) == Some(bytes@),
            None => text_bytes(text@) is None,
        },
{
    let n = text.unicode_len();
    let mut bytes: Vec<u8> = Vec::new();
    let mut i: usize = 0;
    while i < n
        invariant
            i <= n,
            n == text@.len(),
            bytes@.len() == i,
            forall|j: int| 0 <= j < i ==> (#[trigger] text@[j]) as u32 <= 0xff,
            forall|j: int| 0 <= j < i ==> #[trigger] bytes@[j] == text@[j] as u8,
        decreases n - i,
    {
        let c = text.get_char(i);
        if c as u32 > 0xff {
            assert(text@[i as int] as u32 > 0xff);
            return None;
        }
        let byte = c as u8;
        assert(byte == text@[i as int] as u8);
        bytes.push(byte);
        i += 1;
    }
    assert(bytes@ =~= Seq::new(text@.len(), |i: int| text@[i] as u8));
    Some(bytes)
}

impl ConstantValue {
    fn tag(&self) -> (tag: char)
        ensures
            tag == self.deep_view().tag(),
    {
        match self {
            ConstantValue::CChar(_) => 'c',
            ConstantValue::I8(_) => 'b',
            ConstantValue::I16(_) => 'h',
            ConstantValue::I32(_) => 'i',
            ConstantValue::I64(_) => 'q',
            ConstantValue::U8(_) => 'B',
            ConstantValue::U16(_) => 'H',
            ConstantValue::U32(_) => 'I',
            ConstantValue::U64(_) => 'Q',
            ConstantValue::F32(_) => 'f',
            ConstantValue::F64(_) => 'd',
            ConstantValue::Str(_) => 's',
            ConstantValue::Bytes(_) => 'y',
        }
    }

    fn payload(&self) -> (payload: String)
        ensures
            payload@ == self.deep_view().payload(),
    {
        match self {
            ConstantValue::CChar(v) => natural_to_string(*v as u64),
            ConstantValue::I8(v) => integer_to_string(*v as i64),
            ConstantValue::I16(v) => integer_to_string(*v as i64),
            ConstantValue::I32(v) => integer_to_string(*v as i64),
            ConstantValue::I64(v) => integer_to_string(*v),
            ConstantValue::U8(v) => natural_to_string(*v as u64),
            ConstantValue::U16(v) => natural_to_string(*v as u64),
            ConstantValue::U32(v) => natural_to_string(*v as u64),
            ConstantValue::U64(v) => natural_to_string(*v),
            ConstantValue::F32(v) => v.clone(),
            ConstantValue::F64(v) => v.clone(),
            ConstantValue::Str(v) => v.clone(),
            ConstantValue::Bytes(v) => bytes_to_text(v),
        }
    }

    fn from_parts(tag: char, payload: &str) -> (out: Option<ConstantValue>)
        ensures
            out.deep_view() == decoded_value(tag, payload@),
    {
        if tag == 'c' {
            match parse_integer(payload, 0, 0xff) {
                Some(v) => Some(ConstantValue::CChar(v as u8)),
                None => None,
            }
        } else if tag == 'b' {
            match parse_integer(payload, -0x80, 0x7f) {
                Some(v) => Some(ConstantValue::I8(v as i8)),
                None => None,
            }
        } else if tag == 'h' {
            match parse_integer(payload, -0x8000, 0x7fff) {
                Some(v) => Some(ConstantValue::I16(v as i16)),
                None => None,
            }
        } else if tag == 'i' {
            match parse_integer(payload, -0x8000_0000, 0x7fff_ffff) {
                Some(v) => Some(ConstantValue::I32(v as i32)),
                None => None,
            }
        } else if tag == 'q' {
            match parse_integer(payload, -0x8000_0000_0000_0000, 0x7fff_ffff_ffff_ffff) {
                Some(v) => Some(ConstantValue::I64(v as i64)),
                None => None,
            }
        } else if tag == 'B' {
            match parse_integer(payload, 0, 0xff) {
                Some(v) => Some(ConstantValue::U8(v as u8)),
                None => None,
            }
        } else if tag == 'H' {
            match parse_integer(payload, 0, 0xffff) {
                Some(v) => Some(ConstantValue::U16(v as u16)),
                None => None,
            }
        } else if tag == 'I' {
            match parse_integer(payload, 0, 0xffff_ffff) {
                Some(v) => Some(ConstantValue::U32(v as u32)),
                None => None,
            }
        } else if tag == 'Q' {
            match parse_integer(payload, 0, 0xffff_ffff_ffff_ffff) {
                Some(v) => Some(ConstantValue::U64(v as u64)),
                None => None,
            }
        } else if tag == 'f' {
            if is_decimal(payload) {
                Some(ConstantValue::F32(String::from_str(payload)))
            } else {
                None
            }
        } else if tag == 'd' {
            if is_decimal(payload) {
                Some(ConstantValue::F64(String::from_str(payload)))
            } else {
                None
            }
        } else if tag == 's' {
            Some(ConstantValue::Str(String::from_str(payload)))
        } else if tag == 'y' {
            match text_to_bytes(payload) {
                Some(bytes) => Some(ConstantValue::Bytes(bytes)),
                None => None,
            }
        } else {
            None
        }
    }
}

/// Writes the record of a constant.
pub fn encode_constant(constant: &Constant) -> (record: String)
    ensures
        record@ == encoded_constant(constant.deep_view()),
{
    let mut record = String::new();
    push_field(&mut record, constant.name.as_str());
    push_char(&mut record, constant.value.tag());
    record.append(constant.value.payload().as_str());
    assert(record@ =~= encoded_constant(constant.deep_view()));
    record
}

/// Reads the record of a constant. A text that is no such record gives none.
pub fn decode_constant(record: &str) -> (out: Option<Constant>)
    ensures
        out.deep_view() == decoded_constant(record@),
{
    let (name, rest) = match take_field(record) {
        Some(split) => split,
        None => {
            return None;
        },
    };
    let n = rest.unicode_len();
    if n == 0 {
        return None;
    }
    let payload = rest.substring_char(1, n);
    assert(payload@ =~= rest@.skip(1));
    match ConstantValue::from_parts(rest.get_char(0), payload) {
        Some(value) => Some(Constant { name: String::from_str(name), value }),
        None => None,
    }
}

impl State for Constant {
    open spec fn kind_name() -> Seq<char> {
        "coastal.constant"@
    }

    open spec fn representable(contents: ConstantView) -> bool {
        contents.well_formed()
    }

    open spec fn encoded(contents: ConstantView) -> Seq<char> {
        encoded_constant(contents)
    }

    open spec fn decoded(record: Seq<char>) -> Option<ConstantView> {
        decoded_constant(record)
    }

    proof fn lemma_round_trip(contents: ConstantView) {
        lemma_constant_round_trip(contents);
    }

    proof fn lemma_decoded_is_representable(record: Seq<char>) {
        lemma_decoded_constant_is_well_formed(record);
    }

    fn kind_text() -> (name: &'static str) {
        "coastal.constant"
    }

    fn encode(&self) -> (record: String) {
        encode_constant(self)
    }

    fn decode(record: &str) -> (out: Option<Constant>) {
        decode_constant(record)
    }
}

} // verus!
