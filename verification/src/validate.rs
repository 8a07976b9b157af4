//! The checks made when a declaration is collected: what shapes of function
//! and constant can be exported at all.

use crate::model::{
    Constant, ConstantValue, ConstantValueView, ConstantView, Function, FunctionView,
};
use crate::record::{encoded_constant, encoded_function};
use crate::registry::{key_of, Registry, State};
use crate::text::{
    digits_value, is_decimal, is_decimal_text, parse_digits, same_text, squeeze, squeezed,
};
use crate::types::{SourceType, TypeKind, TypeShape};
use vstd::prelude::*;

verus! {

/// The pattern of a parameter.
#[derive(Debug, Clone, PartialEq, Eq)]
pub enum Pattern {
    /// A plain name.
    Name(String),
    /// Anything else: a tuple, a wildcard, a reference pattern.
    Other,
}

/// One parameter of a function item.
#[derive(Debug, PartialEq, Eq)]
pub enum FnInput {
    /// `self` in any form.
    Receiver,
    /// A pattern and a type.
    Typed { pattern: Pattern, ty: SourceType },
}

/// A function item, as far as collecting it looks at it.
#[derive(Debug, PartialEq, Eq)]
pub struct FnItem {
    /// The function is `async`.
    pub is_async: bool,
    /// The function has type, lifetime or const parameters.
    pub has_generics: bool,
    /// The name of the function.
    pub name: String,
    /// Its parameters in order.
    pub inputs: Vec<FnInput>,
    /// The return part of its signature as text.
    pub output: String,
}

/// A literal.
#[derive(Debug, Clone, PartialEq, Eq)]
pub enum Literal {
    /// A byte literal, `b'a'`.
    Byte(u8),
    /// An integer literal, as its decimal digits.
    Int { digits: String },
    /// A float literal, as the decimal text of its value at 32 bits and at
    /// 64 bits.
    Float { single: String, double: String },
    /// A string literal.
    Str(String),
    /// A byte string literal.
    ByteStr(Vec<u8>),
    /// A literal of any other kind.
    Other,
}

/// A constant item, as far as collecting it looks at it.
#[derive(Debug, PartialEq, Eq)]
pub struct ConstItem {
    /// The name of the constant.
    pub name: String,
    /// Its declared type.
    pub ty: SourceType,
    /// Its initializer where that is a single literal.
    pub value: Option<Literal>,
}

/// An item that carries the attribute.
#[derive(Debug, PartialEq, Eq)]
pub enum Item {
    Const(ConstItem),
    Fn(FnItem),
    /// An item of any other kind.
    Other,
}

/// A collected declaration.
#[derive(Debug, Clone, PartialEq, Eq)]
pub enum Declaration {
    Function(Function),
    Constant(Constant),
}

/// The contents of a `Declaration`.
pub enum DeclarationView {
    Function(FunctionView),
    Constant(ConstantView),
}

impl DeclarationView {
    /// A function is well formed when its arguments all have different
    /// names, a constant when its value is.
    pub open spec fn well_formed(self) -> bool {
        match self {
            DeclarationView::Function(function) => function.well_formed(),
            DeclarationView::Constant(constant) => constant.well_formed(),
        }
    }
}

impl DeepView for Declaration {
    type V = DeclarationView;

    open spec fn deep_view(&self) -> DeclarationView {
        match self {
            Declaration::Function(function) => DeclarationView::Function(function.deep_view()),
            Declaration::Constant(constant) => DeclarationView::Constant(constant.deep_view()),
        }
    }
}

/// Why an item cannot be collected. Where a parameter is at fault, `index`
/// is its position.
#[derive(Debug, Clone, PartialEq, Eq)]
pub enum ValidationError {
    /// The attribute was given arguments.
    AttributeArguments,
    /// The item is neither a function nor a constant.
    UnsupportedItem,
    /// The function is `async`.
    AsyncFunction,
    /// The function has generic parameters.
    GenericFunction,
    /// The function takes `self`.
    Receiver { index: usize },
    /// A parameter is not a plain name.
    PatternArgument { index: usize },
    /// The type of a parameter is of a kind that is never exported: `impl`,
    /// `_`, a macro call, `!` or `dyn`.
    ArgumentType { index: usize, kind: TypeKind },
    /// Two parameters have the same name.
    DuplicateArgument { index: usize },
    /// The constant's initializer is not a single literal.
    NotLiteral,
    /// The constant's type is not supported, or its literal is of another
    /// kind than the type asks for.
    ConstantType { ty: String },
    /// The constant's literal does not fit its type: an integer is too
    /// large, or a float is no number in decimal.
    OutOfRange { ty: String },
}

/// The contents of a `ValidationError`.
pub enum ValidationErrorView {
    AttributeArguments,
    UnsupportedItem,
    AsyncFunction,
    GenericFunction,
    Receiver { index: int },
    PatternArgument { index: int },
    ArgumentType { index: int, kind: TypeKind },
    DuplicateArgument { index: int },
    NotLiteral,
    ConstantType { ty: Seq<char> },
    OutOfRange { ty: Seq<char> },
}

impl DeepView for ValidationError {
    type V = ValidationErrorView;

    open spec fn deep_view(&self) -> ValidationErrorView {
        match self {
            ValidationError::AttributeArguments => ValidationErrorView::AttributeArguments,
            ValidationError::UnsupportedItem => ValidationErrorView::UnsupportedItem,
            ValidationError::AsyncFunction => ValidationErrorView::AsyncFunction,
            ValidationError::GenericFunction => ValidationErrorView::GenericFunction,
            ValidationError::Receiver { index } => ValidationErrorView::Receiver {
                index: *index as int,
            },
            ValidationError::PatternArgument { index } => ValidationErrorView::PatternArgument {
                index: *index as int,
            },
            ValidationError::ArgumentType { index, kind } => ValidationErrorView::ArgumentType {
                index: *index as int,
                kind: *kind,
            },
            ValidationError::DuplicateArgument { index } => {
                ValidationErrorView::DuplicateArgument { index: *index as int }
            },
            ValidationError::NotLiteral => ValidationErrorView::NotLiteral,
            ValidationError::ConstantType { ty } => ValidationErrorView::ConstantType { ty: ty@ },
            ValidationError::OutOfRange { ty } => ValidationErrorView::OutOfRange { ty: ty@ },
        }
    }
}

impl ValidationErrorView {
    /// The diagnostic. It says which construct is not supported; for a
    /// constant it names the declared type.
    pub open spec fn message(self) -> Seq<char> {
        match self {
            ValidationErrorView::AttributeArguments =>
                "Coastal attribute macro does not take arguments"@,
            ValidationErrorView::UnsupportedItem =>
                "#[coast] only supports 'const' and 'fn' items currently"@,
            ValidationErrorView::AsyncFunction => "Coastal does not support async functions"@,
            ValidationErrorView::GenericFunction => "Coastal does not support generic functions"@,
            ValidationErrorView::Receiver { .. } =>
                "Coastal does not yet support associated methods"@,
            ValidationErrorView::PatternArgument { .. } =>
                "Coastal does not support pattern arguments"@,
            ValidationErrorView::ArgumentType { kind, .. } => match kind {
                TypeKind::ImplTrait => "Coastal does not support 'impl' arguments"@,
                TypeKind::Infer => "Coastal does not support inferred argument type"@,
                TypeKind::Macro => "Coastal does not support macro argument types"@,
                TypeKind::Never => "Coastal does not support the '!' argument type"@,
                TypeKind::TraitObject => "Coastal does not support 'dyn' arguments"@,
                _ => "Coastal does not support this argument type"@,
            },
            ValidationErrorView::DuplicateArgument { .. } =>
                "Coastal does not support two arguments of one name"@,
            ValidationErrorView::NotLiteral => "Coastal constants must have a literal value"@,
            ValidationErrorView::ConstantType { ty } =>
                "Coastal constants can only be c_char, int, float, bytes, or string types, not '"@
                + ty + "'"@,
            ValidationErrorView::OutOfRange { ty } => "Coastal constant does not fit the type '"@
                + ty + "'"@,
        }
    }
}

impl ValidationError {
    /// Writes the diagnostic.
    pub fn message(&self) -> (out: String)
        ensures
            out@ == self.deep_view().message(),
    {
        match self {
            ValidationError::AttributeArguments => String::from_str(
                "Coastal attribute macro does not take arguments",
            ),
            ValidationError::UnsupportedItem => String::from_str(
                "#[coast] only supports 'const' and 'fn' items currently",
            ),
            ValidationError::AsyncFunction => String::from_str(
                "Coastal does not support async functions",
            ),
            ValidationError::GenericFunction => String::from_str(
                "Coastal does not support generic functions",
            ),
            ValidationError::Receiver { .. } => String::from_str(
                "Coastal does not yet support associated methods",
            ),
            ValidationError::PatternArgument { .. } => String::from_str(
                "Coastal does not support pattern arguments",
            ),
            ValidationError::ArgumentType { kind, .. } => match kind {
                TypeKind::ImplTrait => String::from_str(
                    "Coastal does not support 'impl' arguments",
                ),
                TypeKind::Infer => String::from_str(
                    "Coastal does not support inferred argument type",
                ),
                TypeKind::Macro => String::from_str(
                    "Coastal does not support macro argument types",
                ),
                TypeKind::Never => String::from_str(
                    "Coastal does not support the '!' argument type",
                ),
                TypeKind::TraitObject => String::from_str(
                    "Coastal does not support 'dyn' arguments",
                ),
                _ => String::from_str("Coastal does not support this argument type"),
            },
            ValidationError::DuplicateArgument { .. } => String::from_str(
                "Coastal does not support two arguments of one name",
            ),
            ValidationError::NotLiteral => String::from_str(
                "Coastal constants must have a literal value",
            ),
            ValidationError::ConstantType { ty } => {
                let mut out = String::from_str(
                    "Coastal constants can only be c_char, int, float, bytes, or string types, not '",
                );
                out.append(ty.as_str());
                out.append("'");
                out
            },
            ValidationError::OutOfRange { ty } => {
                let mut out = String::from_str("Coastal constant does not fit the type '");
                out.append(ty.as_str());
                out.append("'");
                out
            },
        }
    }
}

/// The kinds of type that a parameter may never have.
pub open spec fn refused_kind(kind: TypeKind) -> bool {
    kind == TypeKind::ImplTrait || kind == TypeKind::Infer || kind == TypeKind::Macro || kind
        == TypeKind::Never || kind == TypeKind::TraitObject
}

/// What collecting makes of a parameter with a plain name: the argument,
/// its type as it is printed, unless the type is of a kind that is never
/// exported.
pub open spec fn checked_argument(name: Seq<char>, ty: SourceType, index: int) -> Result<
    (Seq<char>, Seq<char>),
    ValidationErrorView,
> {
    match ty.shape {
        TypeShape::Other(kind) => if refused_kind(kind) {
            Err(ValidationErrorView::ArgumentType { index, kind })
        } else {
            Ok((name, ty.text@))
        },
        _ => Ok((name, ty.text@)),
    }
}

/// What collecting makes of one parameter: its name and its type, or the
/// reason why the function is refused.
pub open spec fn checked_input(input: FnInput, index: int) -> Result<
    (Seq<char>, Seq<char>),
    ValidationErrorView,
> {
    match input {
        FnInput::Receiver => Err(ValidationErrorView::Receiver { index }),
        FnInput::Typed { pattern, ty } => match pattern {
            Pattern::Other => Err(ValidationErrorView::PatternArgument { index }),
            Pattern::Name(name) => checked_argument(name@, ty, index),
        },
    }
}

/// What collecting makes of a list of parameters: the arguments in the same
/// order, or the error of the first parameter that has one.
pub open spec fn checked_inputs(inputs: Seq<FnInput>) -> Result<
    Seq<(Seq<char>, Seq<char>)>,
    ValidationErrorView,
>
    decreases inputs.len(),
{
    if inputs.len() == 0 {
        Ok(Seq::empty())
    } else {
        match checked_inputs(inputs.drop_last()) {
            Err(error) => Err(error),
            Ok(args) => match checked_input(inputs.last(), inputs.len() - 1) {
                Err(error) => Err(error),
                Ok(arg) => Ok(args.push(arg)),
            },
        }
    }
}

/// The position of the first argument whose name an earlier argument has.
pub open spec fn first_repeat(args: Seq<(Seq<char>, Seq<char>)>) -> Option<int>
    decreases args.len(),
{
    if args.len() == 0 {
        None
    } else {
        match first_repeat(args.drop_last()) {
            Some(index) => Some(index),
            None => if exists|i: int| 0 <= i < args.len() - 1 && args[i].0 == args.last().0 {
                Some(args.len() - 1)
            } else {
                None
            },
        }
    }
}

/// What collecting makes of a function item. The checks come in this order:
/// `async`, generic parameters, each parameter in turn, repeated names.
pub open spec fn checked_function(item: FnItem) -> Result<FunctionView, ValidationErrorView> {
    if item.is_async {
        Err(ValidationErrorView::AsyncFunction)
    } else if item.has_generics {
        Err(ValidationErrorView::GenericFunction)
    } else {
        match checked_inputs(item.inputs@) {
            Err(error) => Err(error),
            Ok(arguments) => match first_repeat(arguments) {
                Some(index) => Err(ValidationErrorView::DuplicateArgument { index }),
                None => Ok(
                    FunctionView { name: item.name@, return_type: item.output@, arguments },
                ),
            },
        }
    }
}

/// An error among the parameters stays the error of every longer list.
pub proof fn lemma_inputs_error_persists(inputs: Seq<FnInput>, k: int)
    requires
        0 <= k <= inputs.len(),
        checked_inputs(inputs.take(k)) is Err,
    ensures
        checked_inputs(inputs) == checked_inputs(inputs.take(k)),
    decreases inputs.len(),
{
    if k < inputs.len() {
        assert(inputs.drop_last().take(k) =~= inputs.take(k));
        lemma_inputs_error_persists(inputs.drop_last(), k);
    } else {
        assert(inputs.take(k) =~= inputs);
    }
}

/// A repeated name stays the first repeated name of every longer list.
pub proof fn lemma_repeat_persists(args: Seq<(Seq<char>, Seq<char>)>, k: int)
    requires
        0 <= k <= args.len(),
        first_repeat(args.take(k)) is Some,
    ensures
        first_repeat(args) == first_repeat(args.take(k)),
    decreases args.len(),
{
    if k < args.len() {
        assert(args.drop_last().take(k) =~= args.take(k));
        lemma_repeat_persists(args.drop_last(), k);
    } else {
        assert(args.take(k) =~= args);
    }
}

/// Where no name is repeated, the names are all different.
pub proof fn lemma_no_repeat_is_distinct(args: Seq<(Seq<char>, Seq<char>)>)
    requires
        first_repeat(args) is None,
    ensures
        forall|i: int, j: int| 0 <= i < j < args.len() ==> args[i].0 != args[j].0,
    decreases args.len(),
{
    if args.len() > 0 {
        lemma_no_repeat_is_distinct(args.drop_last());
        assert forall|i: int, j: int| 0 <= i < j < args.len() implies args[i].0 != args[j].0 by {
            if j < args.len() - 1 {
                assert(args.drop_last()[i] == args[i]);
                assert(args.drop_last()[j] == args[j]);
            }
        }
    }
}

/// A repeated name is the name of an earlier argument.
pub proof fn lemma_repeat_is_earlier_name(args: Seq<(Seq<char>, Seq<char>)>)
    requires
        first_repeat(args) is Some,
    ensures
        0 < first_repeat(args).unwrap() < args.len(),
        exists|i: int|
            0 <= i < first_repeat(args).unwrap() && (#[trigger] args[i]).0 == args[first_repeat(
                args,
            ).unwrap()].0,
    decreases args.len(),
{
    if first_repeat(args.drop_last()) is Some {
        lemma_repeat_is_earlier_name(args.drop_last());
        let j = first_repeat(args.drop_last()).unwrap();
        let i = choose|i: int|
            0 <= i < j && (#[trigger] args.drop_last()[i]).0 == args.drop_last()[j].0;
        assert(args[i].0 == args[j].0);
    } else {
        let j = args.len() - 1;
        let i = choose|i: int| 0 <= i < args.len() - 1 && args[i].0 == args.last().0;
        assert(args[i].0 == args[j].0);
    }
}

fn is_refused_kind(kind: TypeKind) -> (refused: bool)
    ensures
        refused == refused_kind(kind),
{
    match kind {
        TypeKind::ImplTrait => true,
        TypeKind::Infer => true,
        TypeKind::Macro => true,
        TypeKind::Never => true,
        TypeKind::TraitObject => true,
        _ => false,
    }
}

/// Checks a parameter with a plain name.
pub fn check_argument(name: &str, ty: &SourceType, index: usize) -> (out: Result<
    (String, String),
    ValidationError,
>)
    ensures
        match out {
            Ok(arg) => checked_argument(name@, *ty, index as int) == Ok::<_, ValidationErrorView>(
                arg.deep_view(),
            ),
            Err(error) => checked_argument(name@, *ty, index as int) == Err::<
                (Seq<char>, Seq<char>),
                _,
            >(error.deep_view()),
        },
{
    if let TypeShape::Other(kind) = &ty.shape {
        if is_refused_kind(*kind) {
            return Err(ValidationError::ArgumentType { index, kind: *kind });
        }
    }
    Ok((String::from_str(name), ty.text.clone()))
}

/// Checks one parameter.
pub fn check_input(input: &FnInput, index: usize) -> (out: Result<
    (String, String),
    ValidationError,
>)
    ensures
        match out {
            Ok(arg) => checked_input(*input, index as int) == Ok::<_, ValidationErrorView>(
                arg.deep_view(),
            ),
            Err(error) => checked_input(*input, index as int) == Err::<(Seq<char>, Seq<char>), _>(
                error.deep_view(),
            ),
        },
{
    match input {
        FnInput::Receiver => Err(ValidationError::Receiver { index }),
        FnInput::Typed { pattern, ty } => match pattern {
            Pattern::Other => Err(ValidationError::PatternArgument { index }),
            Pattern::Name(name) => check_argument(name.as_str(), ty, index),
        },
    }
}

fn find_earlier(arguments: &Vec<(String, String)>, j: usize) -> (found: bool)
    requires
        j < arguments.len(),
    ensures
        found == exists|i: int|
            0 <= i < j && arguments.deep_view()[i].0 == arguments.deep_view()[j as int].0,
{
    let ghost args = arguments.deep_view();
    let mut i: usize = 0;
    while i < j
        invariant
            i <= j < arguments.len(),
            args == arguments.deep_view(),
            forall|k: int| 0 <= k < i ==> args[k].0 != args[j as int].0,
        decreases j - i,
    {
        if same_text(arguments[i].0.as_str(), arguments[j].0.as_str()) {
            assert(args[i as int].0 == args[j as int].0);
            return true;
        }
        i += 1;
    }
    false
}

fn find_repeat(arguments: &Vec<(String, String)>) -> (found: Option<usize>)
    ensures
        match found {
            Some(index) => first_repeat(arguments.deep_view()) == Some(index as int),
            None => first_repeat(arguments.deep_view()) is None,
        },
{
    let ghost args = arguments.deep_view();
    let mut j: usize = 0;
    assert(args.take(0) =~= Seq::empty());
    while j < arguments.len()
        invariant
            j <= arguments.len(),
            args == arguments.deep_view(),
            first_repeat(args.take(j as int)) is None,
        decreases arguments.len() - j,
    {
        let repeated = find_earlier(arguments, j);
        proof {
            let next = args.take(j + 1);
            assert(next.drop_last() =~= args.take(j as int));
            assert(next.last() == args[j as int]);
            assert forall|i: int| 0 <= i < j implies next[i] == args[i] by {}
            if repeated {
                let i = choose|i: int| 0 <= i < j && args[i].0 == args[j as int].0;
                assert(next[i].0 == next.last().0);
                assert(first_repeat(next) == Some(j as int));
                lemma_repeat_persists(args, j + 1);
            }
        }
        if repeated {
            return Some(j);
        }
        j += 1;
    }
    assert(args.take(j as int) =~= args);
    None
}

impl Function {
    /// Tells whether the arguments all have different names.
    pub fn is_well_formed(&self) -> (ok: bool)
        ensures
            ok == self.deep_view().well_formed(),
    {
        match find_repeat(&self.arguments) {
            None => {
                proof {
                    lemma_no_repeat_is_distinct(self.arguments.deep_view());
                }
                true
            },
            Some(_) => {
                proof {
                    let args = self.deep_view().arguments;
                    lemma_repeat_is_earlier_name(args);
                    let j = first_repeat(args).unwrap();
                    let i = choose|i: int| 0 <= i < j && (#[trigger] args[i]).0 == args[j].0;
                    assert(args[i].0 == args[j].0);
                }
                false
            },
        }
    }
}

/// Checks a function item and turns it into the function to export.
pub fn handle_fn(item: &FnItem) -> (out: Result<Function, ValidationError>)
    ensures
        match out {
            Ok(function) => checked_function(*item) == Ok::<_, ValidationErrorView>(
                function.deep_view(),
            ) && function.deep_view().well_formed(),
            Err(error) => checked_function(*item) == Err::<FunctionView, _>(error.deep_view()),
        },
{
    if item.is_async {
        return Err(ValidationError::AsyncFunction);
    }
    if item.has_generics {
        return Err(ValidationError::GenericFunction);
    }
    let mut arguments: Vec<(String, String)> = Vec::new();
    let mut i: usize = 0;
    assert(item.inputs@.take(0) =~= Seq::empty());
    assert(arguments.deep_view() =~= Seq::empty());
    while i < item.inputs.len()
        invariant
            i <= item.inputs.len(),
            !item.is_async,
            !item.has_generics,
            checked_inputs(item.inputs@.take(i as int)) == Ok::<_, ValidationErrorView>(
                arguments.deep_view(),
            ),
        decreases item.inputs.len() - i,
    {
        proof {
            let next = item.inputs@.take(i + 1);
            assert(next.drop_last() =~= item.inputs@.take(i as int));
            assert(next.last() == item.inputs@[i as int]);
        }
        let ghost before = arguments.deep_view();
        match check_input(&item.inputs[i], i) {
            Ok(arg) => {
                let ghost added = arg.deep_view();
                arguments.push(arg);
                assert(arguments.deep_view() =~= before.push(added));
            },
            Err(error) => {
                proof {
                    lemma_inputs_error_persists(item.inputs@, i + 1);
                }
                return Err(error);
            },
        }
        i += 1;
    }
    assert(item.inputs@.take(i as int) =~= item.inputs@);
    if let Some(index) = find_repeat(&arguments) {
        return Err(ValidationError::DuplicateArgument { index });
    }
    proof {
        lemma_no_repeat_is_distinct(arguments.deep_view());
    }
    Ok(Function { name: item.name.clone(), return_type: item.output.clone(), arguments })
}

/// The integer types that a constant can have.
#[derive(Clone, Copy, Debug, PartialEq, Eq, Structural)]
pub enum IntegerType {
    I8,
    I16,
    I32,
    I64,
    U8,
    U16,
    U32,
    U64,
}

/// The integer type that a type name stands for. The pointer-sized types go
/// by their 64-bit counterparts.
pub open spec fn integer_type(ty: Seq<char>) -> Option<IntegerType> {
    if ty == "i8"@ {
        Some(IntegerType::I8)
    } else if ty == "i16"@ {
        Some(IntegerType::I16)
    } else if ty == "i32"@ {
        Some(IntegerType::I32)
    } else if ty == "i64"@ || ty == "isize"@ {
        Some(IntegerType::I64)
    } else if ty == "u8"@ {
        Some(IntegerType::U8)
    } else if ty == "u16"@ {
        Some(IntegerType::U16)
    } else if ty == "u32"@ {
        Some(IntegerType::U32)
    } else if ty == "u64"@ || ty == "usize"@ {
        Some(IntegerType::U64)
    } else {
        None
    }
}

impl IntegerType {
    /// The largest value of the type.
    pub open spec fn limit(self) -> nat {
        match self {
            IntegerType::I8 => 0x7f,
            IntegerType::I16 => 0x7fff,
            IntegerType::I32 => 0x7fff_ffff,
            IntegerType::I64 => 0x7fff_ffff_ffff_ffff,
            IntegerType::U8 => 0xff,
            IntegerType::U16 => 0xffff,
            IntegerType::U32 => 0xffff_ffff,
            IntegerType::U64 => 0xffff_ffff_ffff_ffff,
        }
    }

    /// The constant of this type with the given value.
    pub open spec fn constant(self, value: nat) -> ConstantValueView {
        match self {
            IntegerType::I8 => ConstantValueView::I8(value as i8),
            IntegerType::I16 => ConstantValueView::I16(value as i16),
            IntegerType::I32 => ConstantValueView::I32(value as i32),
            IntegerType::I64 => ConstantValueView::I64(value as i64),
            IntegerType::U8 => ConstantValueView::U8(value as u8),
            IntegerType::U16 => ConstantValueView::U16(value as u16),
            IntegerType::U32 => ConstantValueView::U32(value as u32),
            IntegerType::U64 => ConstantValueView::U64(value as u64),
        }
    }
}

/// The value of a constant of the given type and literal. The type is taken
/// by its tokens, however they are spaced. Each type asks for its own kind of
/// literal: an integer type for an integer that fits it, a float type for a
/// number in decimal, `c_char` for a byte, `&str` for a string and `&[u8]`
/// for a byte string.
pub open spec fn constant_value(ty: Seq<char>, literal: Literal) -> Result<
    ConstantValueView,
    ValidationErrorView,
> {
    let plain = squeezed(ty);
    match literal {
        Literal::Byte(byte) => if plain == "c_char"@ {
            Ok(ConstantValueView::CChar(byte))
        } else {
            Err(ValidationErrorView::ConstantType { ty })
        },
        Literal::Int { digits } => match integer_type(plain) {
            None => Err(ValidationErrorView::ConstantType { ty }),
            Some(kind) => match digits_value(digits@) {
                Some(value) => if value <= kind.limit() {
                    Ok(kind.constant(value))
                } else {
                    Err(ValidationErrorView::OutOfRange { ty })
                },
                None => Err(ValidationErrorView::OutOfRange { ty }),
            },
        },
        Literal::Float { single, double } => if plain == "f32"@ {
            if is_decimal_text(single@) {
                Ok(ConstantValueView::F32(single@))
            } else {
                Err(ValidationErrorView::OutOfRange { ty })
            }
        } else if plain == "f64"@ {
            if is_decimal_text(double@) {
                Ok(ConstantValueView::F64(double@))
            } else {
                Err(ValidationErrorView::OutOfRange { ty })
            }
        } else {
            Err(ValidationErrorView::ConstantType { ty })
        },
        Literal::Str(text) => if plain == "&str"@ {
            Ok(ConstantValueView::Str(text@))
        } else {
            Err(ValidationErrorView::ConstantType { ty })
        },
        Literal::ByteStr(bytes) => if plain == "&[u8]"@ {
            Ok(ConstantValueView::Bytes(bytes@))
        } else {
            Err(ValidationErrorView::ConstantType { ty })
        },
        Literal::Other => Err(ValidationErrorView::ConstantType { ty }),
    }
}

/// What collecting makes of a constant item: the initializer must be a single
/// literal, and the declared type and the literal must go together.
pub open spec fn checked_constant(item: ConstItem) -> Result<ConstantView, ValidationErrorView> {
    match item.value {
        None => Err(ValidationErrorView::NotLiteral),
        Some(literal) => match constant_value(item.ty.text@, literal) {
            Err(error) => Err(error),
            Ok(value) => Ok(ConstantView { name: item.name@, value }),
        },
    }
}

/// What collecting makes of an item.
pub open spec fn checked_item(attr_is_empty: bool, item: Item) -> Result<
    DeclarationView,
    ValidationErrorView,
> {
    if !attr_is_empty {
        Err(ValidationErrorView::AttributeArguments)
    } else {
        match item {
            Item::Const(item) => match checked_constant(item) {
                Ok(constant) => Ok(DeclarationView::Constant(constant)),
                Err(error) => Err(error),
            },
            Item::Fn(item) => match checked_function(item) {
                Ok(function) => Ok(DeclarationView::Function(function)),
                Err(error) => Err(error),
            },
            Item::Other => Err(ValidationErrorView::UnsupportedItem),
        }
    }
}

fn find_integer_type(ty: &str) -> (found: Option<IntegerType>)
    ensures
        found == integer_type(ty@),
{
    if same_text(ty, "i8") {
        Some(IntegerType::I8)
    } else if same_text(ty, "i16") {
        Some(IntegerType::I16)
    } else if same_text(ty, "i32") {
        Some(IntegerType::I32)
    } else if same_text(ty, "i64") || same_text(ty, "isize") {
        Some(IntegerType::I64)
    } else if same_text(ty, "u8") {
        Some(IntegerType::U8)
    } else if same_text(ty, "u16") {
        Some(IntegerType::U16)
    } else if same_text(ty, "u32") {
        Some(IntegerType::U32)
    } else if same_text(ty, "u64") || same_text(ty, "usize") {
        Some(IntegerType::U64)
    } else {
        None
    }
}

fn read_integer(kind: IntegerType, digits: &str) -> (out: Option<ConstantValue>)
    ensures
        match out {
            Some(value) => digits_value(digits@) matches Some(number) && number <= kind.limit()
                && value.deep_view() == kind.constant(number),
            None => !(digits_value(digits@) matches Some(number) && number <= kind.limit()),
        },
{
    match kind {
        IntegerType::I8 => match parse_digits(digits, 0x7f) {
            Some(number) => Some(ConstantValue::I8(number as i8)),
            None => None,
        },
        IntegerType::I16 => match parse_digits(digits, 0x7fff) {
            Some(number) => Some(ConstantValue::I16(number as i16)),
            None => None,
        },
        IntegerType::I32 => match parse_digits(digits, 0x7fff_ffff) {
            Some(number) => Some(ConstantValue::I32(number as i32)),
            None => None,
        },
        IntegerType::I64 => match parse_digits(digits, 0x7fff_ffff_ffff_ffff) {
            Some(number) => Some(ConstantValue::I64(number as i64)),
            None => None,
        },
        IntegerType::U8 => match parse_digits(digits, 0xff) {
            Some(number) => Some(ConstantValue::U8(number as u8)),
            None => None,
        },
        IntegerType::U16 => match parse_digits(digits, 0xffff) {
            Some(number) => Some(ConstantValue::U16(number as u16)),
            None => None,
        },
        IntegerType::U32 => match parse_digits(digits, 0xffff_ffff) {
            Some(number) => Some(ConstantValue::U32(number as u32)),
            None => None,
        },
        IntegerType::U64 => match parse_digits(digits, 0xffff_ffff_ffff_ffff) {
            Some(number) => Some(ConstantValue::U64(number)),
            None => None,
        },
    }
}

/// Reads the value of a constant from its literal. `ty` is the declared type
/// as it is printed; the space between its tokens does not count.
pub fn read_constant(ty: &str, literal: &Literal) -> (out: Result<ConstantValue, ValidationError>)
    ensures
        match out {
            Ok(value) => constant_value(ty@, *literal) == Ok::<_, ValidationErrorView>(
                value.deep_view(),
            ) && value.deep_view().well_formed(),
            Err(error) => constant_value(ty@, *literal) == Err::<ConstantValueView, _>(
                error.deep_view(),
            ),
        },
{
    let squeezed_ty = squeeze(ty);
    let plain = squeezed_ty.as_str();
    match literal {
        Literal::Byte(byte) => {
            if same_text(plain, "c_char") {
                return Ok(ConstantValue::CChar(*byte));
            }
        },
        Literal::Int { digits } => {
            if let Some(kind) = find_integer_type(plain) {
                return match read_integer(kind, digits.as_str()) {
                    Some(value) => Ok(value),
                    None => Err(ValidationError::OutOfRange { ty: String::from_str(ty) }),
                };
            }
        },
        Literal::Float { single, double } => {
            if same_text(plain, "f32") {
                return if is_decimal(single.as_str()) {
                    Ok(ConstantValue::F32(single.clone()))
                } else {
                    Err(ValidationError::OutOfRange { ty: String::from_str(ty) })
                };
            }
            if same_text(plain, "f64") {
                return if is_decimal(double.as_str()) {
                    Ok(ConstantValue::F64(double.clone()))
                } else {
                    Err(ValidationError::OutOfRange { ty: String::from_str(ty) })
                };
            }
        },
        Literal::Str(text) => {
            if same_text(plain, "&str") {
                return Ok(ConstantValue::Str(text.clone()));
            }
        },
        Literal::ByteStr(bytes) => {
            if same_text(plain, "&[u8]") {
                return Ok(ConstantValue::Bytes(bytes.clone()));
            }
        },
        Literal::Other => {},
    }
    Err(ValidationError::ConstantType { ty: String::from_str(ty) })
}

/// Checks a constant item and turns it into the constant to export.
pub fn handle_const(item: &ConstItem) -> (out: Result<Constant, ValidationError>)
    ensures
        match out {
            Ok(constant) => checked_constant(*item) == Ok::<_, ValidationErrorView>(
                constant.deep_view(),
            ) && constant.deep_view().well_formed(),
            Err(error) => checked_constant(*item) == Err::<ConstantView, _>(error.deep_view()),
        },
{
    let literal = match &item.value {
        None => {
            return Err(ValidationError::NotLiteral);
        },
        Some(literal) => literal,
    };
    match read_constant(item.ty.text.as_str(), literal) {
        Err(error) => Err(error),
        Ok(value) => Ok(Constant { name: item.name.clone(), value }),
    }
}

/// Checks an item that carries the attribute and turns it into a
/// declaration. The attribute takes no arguments, and only functions and
/// constants can carry it.
pub fn validate(attr_is_empty: bool, item: &Item) -> (out: Result<Declaration, ValidationError>)
    ensures
        match out {
            Ok(declaration) => checked_item(attr_is_empty, *item) == Ok::<_, ValidationErrorView>(
                declaration.deep_view(),
            ) && declaration.deep_view().well_formed(),
            Err(error) => checked_item(attr_is_empty, *item) == Err::<DeclarationView, _>(
                error.deep_view(),
            ),
        },
{
    if !attr_is_empty {
        return Err(ValidationError::AttributeArguments);
    }
    match item {
        Item::Const(item) => match handle_const(item) {
            Ok(constant) => Ok(Declaration::Constant(constant)),
            Err(error) => Err(error),
        },
        Item::Fn(item) => match handle_fn(item) {
            Ok(function) => Ok(Declaration::Function(function)),
            Err(error) => Err(error),
        },
        Item::Other => Err(ValidationError::UnsupportedItem),
    }
}

impl DeclarationView {
    /// The entry under which the declaration is saved: its key, made of its
    /// kind and its name, and its record.
    pub open spec fn entry(self) -> (Seq<char>, Seq<char>) {
        match self {
            DeclarationView::Function(function) => (
                key_of(Function::kind_name(), function.name),
                encoded_function(function),
            ),
            DeclarationView::Constant(constant) => (
                key_of(Constant::kind_name(), constant.name),
                encoded_constant(constant),
            ),
        }
    }
}

/// Collects an item that carries the attribute: the item is checked, and
/// what it declares is saved in the registry under its name. An item that
/// is refused leaves the registry as it was.
pub fn coast(registry: &mut Registry, attr_is_empty: bool, item: &Item) -> (out: Result<
    (),
    ValidationError,
>)
    ensures
        match out {
            Ok(_) => checked_item(attr_is_empty, *item) matches Ok(declaration)
                && final(registry).deep_view() == old(registry).deep_view().push(
                declaration.entry(),
            ),
            Err(error) => checked_item(attr_is_empty, *item) == Err::<DeclarationView, _>(
                error.deep_view(),
            ) && final(registry).deep_view() == old(registry).deep_view(),
        },
{
    match validate(attr_is_empty, item) {
        Err(error) => Err(error),
        Ok(Declaration::Function(function)) => {
            function.save_state(registry, function.name.as_str());
            Ok(())
        },
        Ok(Declaration::Constant(constant)) => {
            constant.save_state(registry, constant.name.as_str());
            Ok(())
        },
    }
}

} // verus!
