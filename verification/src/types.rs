//! The shapes of source types, as far as the conversion rules look at them,
//! and the parser that reads them from text.

use quote::ToTokens;
use syn::{ReturnType, Type};
use vstd::prelude::*;

verus! {

/// The kinds of type that no built-in rule looks into.
#[derive(Clone, Copy, Debug, PartialEq, Eq, Structural)]
pub enum TypeKind {
    /// A fixed-size array, `[T; N]`.
    Array,
    /// A function pointer, `fn(A) -> B`.
    BareFn,
    /// An opaque type, `impl Trait`.
    ImplTrait,
    /// An inferred type, `_`.
    Infer,
    /// A type produced by a macro call.
    Macro,
    /// The type of computations that never return, `!`.
    Never,
    /// A raw pointer, `*const T` or `*mut T`.
    Ptr,
    /// A borrowed reference, `&T` or `&mut T`.
    Reference,
    /// A bare slice, `[T]`.
    Slice,
    /// A trait object, `dyn Trait`.
    TraitObject,
    /// A tuple, `(A, B)`.
    Tuple,
    /// Anything that the parser keeps as uninterpreted tokens.
    Unknown,
}

/// The shape of a source type.
#[derive(Debug, PartialEq, Eq)]
pub enum TypeShape {
    /// A path such as `i32` or `<T as Trait>::Out`. `text` is the path alone
    /// as the parser printed it; `qualified` tells whether a `<T as Trait>`
    /// part stands in front of it.
    Path { qualified: bool, text: String },
    /// A type inside parentheses or inside an invisible group.
    Nested(Box<TypeShape>),
    /// A type of any other kind.
    Other(TypeKind),
}

/// A source type as it was read: its tokens as text, and its shape.
#[derive(Debug, PartialEq, Eq)]
pub struct SourceType {
    /// The tokens of the type as the parser printed them. How they are
    /// spaced is the printer's choice.
    pub text: String,
    /// What kind of type it is.
    pub shape: TypeShape,
}

/// What a function returns.
#[derive(Debug, PartialEq, Eq)]
pub enum ReturnShape {
    /// Nothing is written: the function returns `()`.
    Default,
    /// An arrow and a type.
    Type(SourceType),
}

/// Why a text is not a type.
#[derive(Debug, Clone, PartialEq, Eq)]
pub struct ParseError {
    /// The parser's message.
    pub message: String,
}

impl TypeShape {
    /// The shape without the parentheses and groups around it.
    pub open spec fn innermost(self) -> TypeShape
        decreases self,
    {
        match self {
            TypeShape::Nested(inner) => inner.innermost(),
            _ => self,
        }
    }

    /// Strips the parentheses and groups around a shape.
    pub fn peel(&self) -> (inner: &TypeShape)
        ensures
            *inner == self.innermost(),
            !(*inner is Nested),
        decreases *self,
    {
        match self {
            TypeShape::Nested(inner) => inner.peel(),
            _ => self,
        }
    }
}

/// `syn::Type`, which the parser hands to the two functions below. Nothing
/// is known of what is inside.
#[verifier::external_type_specification]
#[verifier::external_body]
pub struct ExType(Type);

/// Tells the variants of `syn::Type` apart that carry nothing the rules read,
/// one kind for each variant. Nothing is claimed of the answer.
#[verifier::external_body]
fn kind_of(ty: &Type) -> TypeKind {
    match ty {
        Type::Array(_) => TypeKind::Array,
        Type::BareFn(_) => TypeKind::BareFn,
        Type::ImplTrait(_) => TypeKind::ImplTrait,
        Type::Infer(_) => TypeKind::Infer,
        Type::Macro(_) => TypeKind::Macro,
        Type::Never(_) => TypeKind::Never,
        Type::Ptr(_) => TypeKind::Ptr,
        Type::Reference(_) => TypeKind::Reference,
        Type::Slice(_) => TypeKind::Slice,
        Type::TraitObject(_) => TypeKind::TraitObject,
        Type::Tuple(_) => TypeKind::Tuple,
        _ => TypeKind::Unknown,
    }
}

/// Copies out of a `syn::Type` what the rules read: the nesting of
/// `Type::Group` and `Type::Paren`, and for a `Type::Path` whether it has a
/// `qself` and its path as `to_token_stream().to_string()` prints it. Nothing
/// is claimed of the answer.
#[verifier::external_body]
fn shape_of(ty: &Type) -> TypeShape {
    match ty {
        Type::Group(group) => TypeShape::Nested(Box::new(shape_of(&group.elem))),
        Type::Paren(paren) => TypeShape::Nested(Box::new(shape_of(&paren.elem))),
        Type::Path(path) => TypeShape::Path {
            qualified: path.qself.is_some(),
            text: path.path.to_token_stream().to_string(),
        },
        other => TypeShape::Other(kind_of(other)),
    }
}

/// Reads a type with `syn::parse_str::<syn::Type>`. The type comes back
/// with its tokens as `to_token_stream().to_string()` prints them, an error
/// as its message. Nothing is claimed of the outcome: the lexer and the
/// printer behind `syn` are the compiler's inside a procedural macro and
/// `proc-macro2`'s own elsewhere, and the two need not agree.
#[verifier::external_body]
fn parse_type(text: &str) -> Result<SourceType, ParseError> {
    match syn::parse_str::<Type>(text) {
        Ok(ty) => Ok(SourceType { text: ty.to_token_stream().to_string(), shape: shape_of(&ty) }),
        Err(error) => Err(ParseError { message: error.to_string() }),
    }
}

/// Reads the return part of a signature with
/// `syn::parse_str::<syn::ReturnType>`. Nothing is claimed of the outcome,
/// for the same reason.
#[verifier::external_body]
fn parse_return(text: &str) -> Result<ReturnShape, ParseError> {
    match syn::parse_str::<ReturnType>(text) {
        Ok(ReturnType::Default) => Ok(ReturnShape::Default),
        Ok(ReturnType::Type(_, ty)) => Ok(
            ReturnShape::Type(
                SourceType { text: ty.to_token_stream().to_string(), shape: shape_of(&ty) },
            ),
        ),
        Err(error) => Err(ParseError { message: error.to_string() }),
    }
}

/// The return shape that a stored text stands for, given what it reads as: the
/// return part of a signature where it reads as one, else the type that it
/// reads as, else the error of reading it as a type.
pub open spec fn return_shape_of(
    as_return: Result<ReturnShape, ParseError>,
    as_type: Result<SourceType, ParseError>,
) -> Result<ReturnShape, ParseError> {
    match as_return {
        Ok(shape) => Ok(shape),
        Err(_) => match as_type {
            Ok(shape) => Ok(ReturnShape::Type(shape)),
            Err(error) => Err(error),
        },
    }
}

/// Decides what a stored return type stands for, from what the text reads as
/// when taken for the return part of a signature and when taken for a type.
pub fn return_from(
    as_return: Result<ReturnShape, ParseError>,
    as_type: Result<SourceType, ParseError>,
) -> (out: Result<ReturnShape, ParseError>)
    ensures
        out == return_shape_of(as_return, as_type),
{
    match as_return {
        Ok(shape) => Ok(shape),
        Err(_) => match as_type {
            Ok(shape) => Ok(ReturnShape::Type(shape)),
            Err(error) => Err(error),
        },
    }
}

/// Reads a text as a type. What comes back is the parser's answer.
pub fn read_type(text: &str) -> Result<SourceType, ParseError> {
    parse_type(text)
}

/// Reads a stored return type. Both `-> T` and a bare `T` are accepted, and
/// the empty text stands for no return value. What comes back is decided by
/// `return_from` from the parser's two answers.
pub fn read_return(text: &str) -> Result<ReturnShape, ParseError> {
    return_from(parse_return(text), parse_type(text))
}

} // verus!
