//! The conversion rules: what an argument or a return value of a source type
//! becomes at the C boundary.

use crate::text::{same_text, squeeze, squeezed};
use crate::types::{ReturnShape, SourceType, TypeKind, TypeShape};
use vstd::prelude::*;

verus! {

/// What one argument becomes in a wrapper.
#[derive(Debug)]
pub struct ConvertArg {
    /// The parameter declarations of the wrapper, each followed by a comma.
    pub decl: String,
    /// The arguments handed to the wrapped function, each followed by a comma.
    pub call: String,
    /// The declarations of the same parameters in C, type first.
    pub c_args: Vec<String>,
}

/// What the return value becomes in a wrapper.
#[derive(Debug)]
pub struct ConvertReturn {
    /// Code that runs before the call.
    pub before: String,
    /// Code that follows the call.
    pub after: String,
    /// The return type of the wrapper.
    pub return_type: String,
    /// The same type in C.
    pub c_type: String,
}

/// The contents of a `ConvertArg`.
pub struct ConvertArgView {
    pub decl: Seq<char>,
    pub call: Seq<char>,
    pub c_args: Seq<Seq<char>>,
}

/// The contents of a `ConvertReturn`.
pub struct ConvertReturnView {
    pub before: Seq<char>,
    pub after: Seq<char>,
    pub return_type: Seq<char>,
    pub c_type: Seq<char>,
}

impl DeepView for ConvertArg {
    type V = ConvertArgView;

    open spec fn deep_view(&self) -> ConvertArgView {
        ConvertArgView { decl: self.decl@, call: self.call@, c_args: self.c_args.deep_view() }
    }
}

impl DeepView for ConvertReturn {
    type V = ConvertReturnView;

    open spec fn deep_view(&self) -> ConvertReturnView {
        ConvertReturnView {
            before: self.before@,
            after: self.after@,
            return_type: self.return_type@,
            c_type: self.c_type@,
        }
    }
}

/// The scalar types that cross the boundary unchanged: for the name of one,
/// its path in a wrapper's signature and its C type.
pub open spec fn scalar_rule(name: Seq<char>) -> Option<(Seq<char>, Seq<char>)> {
    if name == "bool"@ {
        Some(("bool"@, "bool"@))
    } else if name == "i8"@ {
        Some(("i8"@, "int8_t"@))
    } else if name == "i16"@ {
        Some(("i16"@, "int16_t"@))
    } else if name == "i32"@ {
        Some(("i32"@, "int32_t"@))
    } else if name == "i64"@ {
        Some(("i64"@, "int64_t"@))
    } else if name == "u8"@ {
        Some(("u8"@, "uint8_t"@))
    } else if name == "u16"@ {
        Some(("u16"@, "uint16_t"@))
    } else if name == "u32"@ {
        Some(("u32"@, "uint32_t"@))
    } else if name == "u64"@ {
        Some(("u64"@, "uint64_t"@))
    } else if name == "usize"@ {
        Some(("usize"@, "size_t"@))
    } else if name == "isize"@ {
        Some(("isize"@, "ssize_t"@))
    } else if name == "f32"@ {
        Some(("f32"@, "float"@))
    } else if name == "f64"@ {
        Some(("f64"@, "double"@))
    } else if name == "c_char"@ {
        Some(("std::ffi::c_char"@, "char"@))
    } else if name == "c_uchar"@ {
        Some(("std::ffi::c_uchar"@, "unsigned char"@))
    } else if name == "c_schar"@ {
        Some(("std::ffi::c_schar"@, "signed char"@))
    } else {
        None
    }
}

/// The integers that must not be zero: for the name of one, the plain
/// integer that crosses the boundary in its place and that integer's C type.
pub open spec fn non_zero_rule(name: Seq<char>) -> Option<(Seq<char>, Seq<char>)> {
    if name == "NonZeroI8"@ {
        Some(("i8"@, "int8_t"@))
    } else if name == "NonZeroI16"@ {
        Some(("i16"@, "int16_t"@))
    } else if name == "NonZeroI32"@ {
        Some(("i32"@, "int32_t"@))
    } else if name == "NonZeroI64"@ {
        Some(("i64"@, "int64_t"@))
    } else if name == "NonZeroU8"@ {
        Some(("u8"@, "uint8_t"@))
    } else if name == "NonZeroU16"@ {
        Some(("u16"@, "uint16_t"@))
    } else if name == "NonZeroU32"@ {
        Some(("u32"@, "uint32_t"@))
    } else if name == "NonZeroU64"@ {
        Some(("u64"@, "uint64_t"@))
    } else if name == "NonZeroIsize"@ {
        Some(("isize"@, "ssize_t"@))
    } else if name == "NonZeroUsize"@ {
        Some(("usize"@, "size_t"@))
    } else {
        None
    }
}

/// Looks a name up among the scalar types.
pub fn find_scalar(name: &str) -> (found: Option<(&'static str, &'static str)>)
    ensures
        match found {
            Some((path, c_type)) => scalar_rule(name@) == Some((path@, c_type@)),
            None => scalar_rule(name@) is None,
        },
{
    if same_text(name, "bool") {
        Some(("bool", "bool"))
    } else if same_text(name, "i8") {
        Some(("i8", "int8_t"))
    } else if same_text(name, "i16") {
        Some(("i16", "int16_t"))
    } else if same_text(name, "i32") {
        Some(("i32", "int32_t"))
    } else if same_text(name, "i64") {
        Some(("i64", "int64_t"))
    } else if same_text(name, "u8") {
        Some(("u8", "uint8_t"))
    } else if same_text(name, "u16") {
        Some(("u16", "uint16_t"))
    } else if same_text(name, "u32") {
        Some(("u32", "uint32_t"))
    } else if same_text(name, "u64") {
        Some(("u64", "uint64_t"))
    } else if same_text(name, "usize") {
        Some(("usize", "size_t"))
    } else if same_text(name, "isize") {
        Some(("isize", "ssize_t"))
    } else if same_text(name, "f32") {
        Some(("f32", "float"))
    } else if same_text(name, "f64") {
        Some(("f64", "double"))
    } else if same_text(name, "c_char") {
        Some(("std::ffi::c_char", "char"))
    } else if same_text(name, "c_uchar") {
        Some(("std::ffi::c_uchar", "unsigned char"))
    } else if same_text(name, "c_schar") {
        Some(("std::ffi::c_schar", "signed char"))
    } else {
        None
    }
}

/// Looks a name up among the integers that must not be zero.
pub fn find_non_zero(name: &str) -> (found: Option<(&'static str, &'static str)>)
    ensures
        match found {
            Some((raw, c_type)) => non_zero_rule(name@) == Some((raw@, c_type@)),
            None => non_zero_rule(name@) is None,
        },
{
    if same_text(name, "NonZeroI8") {
        Some(("i8", "int8_t"))
    } else if same_text(name, "NonZeroI16") {
        Some(("i16", "int16_t"))
    } else if same_text(name, "NonZeroI32") {
        Some(("i32", "int32_t"))
    } else if same_text(name, "NonZeroI64") {
        Some(("i64", "int64_t"))
    } else if same_text(name, "NonZeroU8") {
        Some(("u8", "uint8_t"))
    } else if same_text(name, "NonZeroU16") {
        Some(("u16", "uint16_t"))
    } else if same_text(name, "NonZeroU32") {
        Some(("u32", "uint32_t"))
    } else if same_text(name, "NonZeroU64") {
        Some(("u64", "uint64_t"))
    } else if same_text(name, "NonZeroIsize") {
        Some(("isize", "ssize_t"))
    } else if same_text(name, "NonZeroUsize") {
        Some(("usize", "size_t"))
    } else {
        None
    }
}

/// An argument that crosses the boundary unchanged.
pub open spec fn plain_arg(name: Seq<char>, path: Seq<char>, c_type: Seq<char>) -> ConvertArgView {
    ConvertArgView {
        decl: name + ": "@ + path + ", "@,
        call: name + ", "@,
        c_args: seq![c_type + " "@ + name],
    }
}

/// An argument that crosses the boundary as a plain integer and is checked
/// at the call: the wrapper stops the program when it is zero.
pub open spec fn guarded_arg(name: Seq<char>, raw: Seq<char>, c_type: Seq<char>) -> ConvertArgView {
    ConvertArgView {
        decl: name + ": "@ + raw + ", "@,
        call: name + ".try_into().unwrap_or_else(|_| panic!(\"argument '"@ + name
            + "' must be non-zero\")), "@,
        c_args: seq![c_type + " "@ + name],
    }
}

/// What the built-in rules make of an argument whose type is the given path.
pub open spec fn path_arg(name: Seq<char>, path: Seq<char>) -> Option<ConvertArgView> {
    match scalar_rule(path) {
        Some((abi, c_type)) => Some(plain_arg(name, abi, c_type)),
        None => match non_zero_rule(path) {
            Some((raw, c_type)) => Some(guarded_arg(name, raw, c_type)),
            None => None,
        },
    }
}

/// What the built-in rules make of an argument: a path that is not
/// qualified goes by its name, whatever parentheses stand around it and
/// however its tokens are spaced, and every other shape is declined.
pub open spec fn builtin_arg(name: Seq<char>, shape: TypeShape) -> Option<ConvertArgView> {
    match shape.innermost() {
        TypeShape::Path { qualified, text } => if qualified {
            None
        } else {
            path_arg(name, squeezed(text@))
        },
        _ => None,
    }
}

fn make_plain_arg(name: &str, path: &str, c_type: &str) -> (out: ConvertArg)
    ensures
        out.deep_view() == plain_arg(name@, path@, c_type@),
{
    let mut decl = String::from_str(name);
    decl.append(": ");
    decl.append(path);
    decl.append(", ");
    let mut call = String::from_str(name);
    call.append(", ");
    let mut c_arg = String::from_str(c_type);
    c_arg.append(" ");
    c_arg.append(name);
    let mut c_args: Vec<String> = Vec::new();
    c_args.push(c_arg);
    let out = ConvertArg { decl, call, c_args };
    assert(out.deep_view().c_args =~= seq![c_type@ + " "@ + name@]);
    out
}

fn make_guarded_arg(name: &str, raw: &str, c_type: &str) -> (out: ConvertArg)
    ensures
        out.deep_view() == guarded_arg(name@, raw@, c_type@),
{
    let mut decl = String::from_str(name);
    decl.append(": ");
    decl.append(raw);
    decl.append(", ");
    let mut call = String::from_str(name);
    call.append(".try_into().unwrap_or_else(|_| panic!(\"argument '");
    call.append(name);
    call.append("' must be non-zero\")), ");
    let mut c_arg = String::from_str(c_type);
    c_arg.append(" ");
    c_arg.append(name);
    let mut c_args: Vec<String> = Vec::new();
    c_args.push(c_arg);
    let out = ConvertArg { decl, call, c_args };
    assert(out.deep_view().c_args =~= seq![c_type@ + " "@ + name@]);
    out
}

/// Converts an argument whose type is a path, such as `count: u32`.
pub fn convert_path_arg(name: &str, path: &str) -> (out: Option<ConvertArg>)
    ensures
        out.deep_view() == path_arg(name@, path@),
{
    if let Some((abi, c_type)) = find_scalar(path) {
        return Some(make_plain_arg(name, abi, c_type));
    }
    if let Some((raw, c_type)) = find_non_zero(path) {
        return Some(make_guarded_arg(name, raw, c_type));
    }
    None
}

/// The built-in argument conversion.
pub fn convert_builtin_arg(name: &str, ty: &SourceType) -> (out: Option<ConvertArg>)
    ensures
        out.deep_view() == builtin_arg(name@, ty.shape),
{
    match ty.shape.peel() {
        TypeShape::Path { qualified, text } => {
            if *qualified {
                None
            } else {
                convert_path_arg(name, squeeze(text.as_str()).as_str())
            }
        },
        _ => None,
    }
}

/// A return value handed back as it is, or through `.into()`.
pub open spec fn value_return(
    after: Seq<char>,
    path: Seq<char>,
    c_type: Seq<char>,
) -> ConvertReturnView {
    ConvertReturnView { before: Seq::empty(), after, return_type: path, c_type }
}

/// A wrapper that hands nothing back: the call becomes a statement, and the C
/// side sees `void`.
pub open spec fn void_return(return_type: Seq<char>) -> ConvertReturnView {
    ConvertReturnView { before: Seq::empty(), after: ";"@, return_type, c_type: "void"@ }
}

/// What the built-in rules make of a return type that is the given path:
/// a scalar is returned as it is, an integer that must not be zero as the
/// plain integer inside it.
pub open spec fn path_return(path: Seq<char>) -> Option<ConvertReturnView> {
    match scalar_rule(path) {
        Some((abi, c_type)) => Some(value_return(Seq::empty(), abi, c_type)),
        None => match non_zero_rule(path) {
            Some((raw, c_type)) => Some(value_return(".into()"@, raw, c_type)),
            None => None,
        },
    }
}

/// What the built-in rules make of a written return type: `!` returns
/// nothing, a path that is not qualified goes by its name, whatever
/// parentheses stand around it, and every other shape is declined.
pub open spec fn builtin_result_type(shape: TypeShape) -> Option<ConvertReturnView> {
    match shape.innermost() {
        TypeShape::Other(TypeKind::Never) => Some(void_return("!"@)),
        TypeShape::Path { qualified, text } => if qualified {
            None
        } else {
            path_return(squeezed(text@))
        },
        _ => None,
    }
}

/// What the built-in rules make of the return part of a signature.
pub open spec fn builtin_return(ret: ReturnShape) -> Option<ConvertReturnView> {
    match ret {
        ReturnShape::Default => Some(void_return("()"@)),
        ReturnShape::Type(ty) => builtin_result_type(ty.shape),
    }
}

fn make_value_return(after: &str, path: &str, c_type: &str) -> (out: ConvertReturn)
    ensures
        out.deep_view() == value_return(after@, path@, c_type@),
{
    ConvertReturn {
        before: String::new(),
        after: String::from_str(after),
        return_type: String::from_str(path),
        c_type: String::from_str(c_type),
    }
}

fn make_void_return(return_type: &str) -> (out: ConvertReturn)
    ensures
        out.deep_view() == void_return(return_type@),
{
    ConvertReturn {
        before: String::new(),
        after: String::from_str(";"),
        return_type: String::from_str(return_type),
        c_type: String::from_str("void"),
    }
}

/// Converts a return type that is a path, such as `-> u32`.
pub fn convert_path_return(path: &str) -> (out: Option<ConvertReturn>)
    ensures
        out.deep_view() == path_return(path@),
{
    if let Some((abi, c_type)) = find_scalar(path) {
        let kept = String::new();
        return Some(make_value_return(kept.as_str(), abi, c_type));
    }
    if let Some((raw, c_type)) = find_non_zero(path) {
        return Some(make_value_return(".into()", raw, c_type));
    }
    None
}

/// Converts a written return type.
pub fn convert_builtin_result_type(ty: &SourceType) -> (out: Option<ConvertReturn>)
    ensures
        out.deep_view() == builtin_result_type(ty.shape),
{
    match ty.shape.peel() {
        TypeShape::Other(TypeKind::Never) => Some(make_void_return("!")),
        TypeShape::Path { qualified, text } => {
            if *qualified {
                None
            } else {
                convert_path_return(squeeze(text.as_str()).as_str())
            }
        },
        _ => None,
    }
}

/// The built-in return conversion.
pub fn convert_builtin_return(ret: &ReturnShape) -> (out: Option<ConvertReturn>)
    ensures
        out.deep_view() == builtin_return(*ret),
{
    match ret {
        ReturnShape::Default => Some(make_void_return("()")),
        ReturnShape::Type(ty) => convert_builtin_result_type(ty),
    }
}

/// A rule for arguments. It either says what an argument becomes or declines,
/// and then the next rule is asked.
pub trait ArgConverter {
    /// What the rule makes of an argument with the given name and type.
    spec fn converts(&self, name: Seq<char>, ty: SourceType) -> Option<ConvertArgView>;

    /// Applies the rule.
    fn convert(&self, name: &str, ty: &SourceType) -> (out: Option<ConvertArg>)
        ensures
            out.deep_view() == self.converts(name@, *ty),
    ;
}

/// A rule for return types. It either says what the return value becomes or
/// declines, and then the next rule is asked.
pub trait ReturnConverter {
    /// What the rule makes of the return part of a signature.
    spec fn converts(&self, ret: ReturnShape) -> Option<ConvertReturnView>;

    /// Applies the rule.
    fn convert(&self, ret: &ReturnShape) -> (out: Option<ConvertReturn>)
        ensures
            out.deep_view() == self.converts(*ret),
    ;
}

/// The built-in rules for arguments.
#[derive(Clone, Copy, Debug)]
pub struct BuiltinArgs;

/// The built-in rules for return types.
#[derive(Clone, Copy, Debug)]
pub struct BuiltinReturns;

impl ArgConverter for BuiltinArgs {
    open spec fn converts(&self, name: Seq<char>, ty: SourceType) -> Option<ConvertArgView> {
        builtin_arg(name, ty.shape)
    }

    fn convert(&self, name: &str, ty: &SourceType) -> (out: Option<ConvertArg>) {
        convert_builtin_arg(name, ty)
    }
}

impl ReturnConverter for BuiltinReturns {
    open spec fn converts(&self, ret: ReturnShape) -> Option<ConvertReturnView> {
        builtin_return(ret)
    }

    fn convert(&self, ret: &ReturnShape) -> (out: Option<ConvertReturn>) {
        convert_builtin_return(ret)
    }
}

/// A rule for one more type that crosses the boundary unchanged. It accepts
/// the type that is written with the tokens of `source`, however they are
/// spaced, and declines every other.
#[derive(Debug)]
pub struct TypeRule {
    /// The source type.
    pub source: String,
    /// The type in a wrapper's signature.
    pub abi_type: String,
    /// The type in C.
    pub c_type: String,
}

impl TypeRule {
    /// Tells whether a type is written with the tokens of `source`.
    pub fn accepts(&self, ty: &SourceType) -> (yes: bool)
        ensures
            yes == (squeezed(ty.text@) == squeezed(self.source@)),
    {
        same_text(squeeze(ty.text.as_str()).as_str(), squeeze(self.source.as_str()).as_str())
    }
}

impl ArgConverter for TypeRule {
    open spec fn converts(&self, name: Seq<char>, ty: SourceType) -> Option<ConvertArgView> {
        if squeezed(ty.text@) == squeezed(self.source@) {
            Some(plain_arg(name, self.abi_type@, self.c_type@))
        } else {
            None
        }
    }

    fn convert(&self, name: &str, ty: &SourceType) -> (out: Option<ConvertArg>) {
        if self.accepts(ty) {
            Some(make_plain_arg(name, self.abi_type.as_str(), self.c_type.as_str()))
        } else {
            None
        }
    }
}

impl ReturnConverter for TypeRule {
    open spec fn converts(&self, ret: ReturnShape) -> Option<ConvertReturnView> {
        match ret {
            ReturnShape::Type(ty) => if squeezed(ty.text@) == squeezed(self.source@) {
                Some(value_return(Seq::empty(), self.abi_type@, self.c_type@))
            } else {
                None
            },
            ReturnShape::Default => None,
        }
    }

    fn convert(&self, ret: &ReturnShape) -> (out: Option<ConvertReturn>) {
        match ret {
            ReturnShape::Type(ty) => {
                if self.accepts(ty) {
                    let kept = String::new();
                    Some(
                        make_value_return(
                            kept.as_str(),
                            self.abi_type.as_str(),
                            self.c_type.as_str(),
                        ),
                    )
                } else {
                    None
                }
            },
            ReturnShape::Default => None,
        }
    }
}

/// What an ordered list of argument rules makes of an argument: the answer
/// of the first rule that does not decline.
pub open spec fn first_arg(
    rules: Seq<Box<dyn ArgConverter>>,
    name: Seq<char>,
    ty: SourceType,
) -> Option<ConvertArgView>
    decreases rules.len(),
{
    if rules.len() == 0 {
        None
    } else {
        match rules[0].converts(name, ty) {
            Some(out) => Some(out),
            None => first_arg(rules.skip(1), name, ty),
        }
    }
}

/// What an ordered list of return rules makes of a return type: the answer
/// of the first rule that does not decline.
pub open spec fn first_return(rules: Seq<Box<dyn ReturnConverter>>, ret: ReturnShape) -> Option<
    ConvertReturnView,
>
    decreases rules.len(),
{
    if rules.len() == 0 {
        None
    } else {
        match rules[0].converts(ret) {
            Some(out) => Some(out),
            None => first_return(rules.skip(1), ret),
        }
    }
}

/// Asks the rules in order and returns the first answer.
pub fn apply_arg_rules(rules: &Vec<Box<dyn ArgConverter>>, name: &str, ty: &SourceType) -> (out:
    Option<ConvertArg>)
    ensures
        out.deep_view() == first_arg(rules@, name@, *ty),
{
    let mut i: usize = 0;
    assert(rules@.skip(0) =~= rules@);
    while i < rules.len()
        invariant
            i <= rules.len(),
            first_arg(rules@, name@, *ty) == first_arg(rules@.skip(i as int), name@, *ty),
        decreases rules.len() - i,
    {
        let answer = rules[i].convert(name, ty);
        proof {
            assert(rules@.skip(i as int)[0] == rules@[i as int]);
            assert(rules@.skip(i as int).skip(1) =~= rules@.skip(i + 1));
        }
        if answer.is_some() {
            return answer;
        }
        i += 1;
    }
    None
}

/// Asks the rules in order and returns the first answer.
pub fn apply_return_rules(rules: &Vec<Box<dyn ReturnConverter>>, ret: &ReturnShape) -> (out:
    Option<ConvertReturn>)
    ensures
        out.deep_view() == first_return(rules@, *ret),
{
    let mut i: usize = 0;
    assert(rules@.skip(0) =~= rules@);
    while i < rules.len()
        invariant
            i <= rules.len(),
            first_return(rules@, *ret) == first_return(rules@.skip(i as int), *ret),
        decreases rules.len() - i,
    {
        let answer = rules[i].convert(ret);
        proof {
            assert(rules@.skip(i as int)[0] == rules@[i as int]);
            assert(rules@.skip(i as int).skip(1) =~= rules@.skip(i + 1));
        }
        if answer.is_some() {
            return answer;
        }
        i += 1;
    }
    None
}

} // verus!
