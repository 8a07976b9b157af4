//! The generator: naming, the rule chains, and the text of the wrappers and of
//! the header.

use crate::convert::{
    apply_arg_rules, apply_return_rules, builtin_arg, builtin_return, first_arg, first_return,
    ArgConverter, BuiltinArgs, BuiltinReturns, ConvertArg, ConvertArgView, ConvertReturn,
    ConvertReturnView, ReturnConverter,
};
use crate::model::{Constant, ConstantView, Function, FunctionView};
use crate::text::{recase, recased, CaseStyle};
use crate::types::{read_return, read_type, ParseError, ReturnShape, SourceType};
use vstd::prelude::*;

verus! {

/// Why no wrapper could be generated.
#[derive(Debug, Clone, PartialEq, Eq)]
pub enum GenerateError {
    /// A stored type does not read as a type.
    TypeParse { text: String, message: String },
    /// No rule accepts the type of an argument.
    Argument { name: String, ty: String },
    /// No rule accepts the return type.
    ReturnType { ty: String },
}

/// The contents of a `GenerateError`.
pub enum GenerateErrorView {
    TypeParse { text: Seq<char>, message: Seq<char> },
    Argument { name: Seq<char>, ty: Seq<char> },
    ReturnType { ty: Seq<char> },
}

impl DeepView for GenerateError {
    type V = GenerateErrorView;

    open spec fn deep_view(&self) -> GenerateErrorView {
        match self {
            GenerateError::TypeParse { text, message } => GenerateErrorView::TypeParse {
                text: text@,
                message: message@,
            },
            GenerateError::Argument { name, ty } => GenerateErrorView::Argument {
                name: name@,
                ty: ty@,
            },
            GenerateError::ReturnType { ty } => GenerateErrorView::ReturnType { ty: ty@ },
        }
    }
}

impl GenerateErrorView {
    /// The diagnostic: it names the parameter, or the return type, and gives
    /// the type as text.
    pub open spec fn message(self) -> Seq<char> {
        match self {
            GenerateErrorView::TypeParse { text, message } => "can't read the type '"@ + text
                + "': "@ + message,
            GenerateErrorView::Argument { name, ty } => "can't convert argument '"@ + name + ": "@
                + ty + "'"@,
            GenerateErrorView::ReturnType { ty } => "can't convert return type '"@ + ty + "'"@,
        }
    }
}

impl GenerateError {
    /// Writes the diagnostic.
    pub fn message(&self) -> (out: String)
        ensures
            out@ == self.deep_view().message(),
    {
        match self {
            GenerateError::TypeParse { text, message } => {
                let mut out = String::from_str("can't read the type '");
                out.append(text.as_str());
                out.append("': ");
                out.append(message.as_str());
                out
            },
            GenerateError::Argument { name, ty } => {
                let mut out = String::from_str("can't convert argument '");
                out.append(name.as_str());
                out.append(": ");
                out.append(ty.as_str());
                out.append("'");
                out
            },
            GenerateError::ReturnType { ty } => {
                let mut out = String::from_str("can't convert return type '");
                out.append(ty.as_str());
                out.append("'");
                out
            },
        }
    }
}

/// A library to generate bindings for: the names to use, what to export, and
/// the conversion rules in the order in which they are asked.
pub struct Library {
    /// The prefix of exported types, in Pascal case.
    pub type_prefix: String,
    /// The prefix of exported functions, in snake case with an underscore.
    pub function_prefix: String,
    /// The prefix of exported constants, in upper snake case with an
    /// underscore.
    pub constant_prefix: String,
    /// The constants to export.
    pub constants: Vec<Constant>,
    /// The functions to export.
    pub functions: Vec<Function>,
    /// The rules for arguments. The first that accepts a type decides.
    pub arg_converters: Vec<Box<dyn ArgConverter>>,
    /// The rules for return types. The first that accepts a type decides.
    pub return_converters: Vec<Box<dyn ReturnConverter>>,
}

/// The return part of a signature as a diagnostic shows it.
pub open spec fn return_text(ret: ReturnShape) -> Seq<char> {
    match ret {
        ReturnShape::Default => Seq::empty(),
        ReturnShape::Type(ty) => "-> "@ + ty.text@,
    }
}

/// The text of one wrapper: an exported function under the prefixed name that
/// takes the converted parameters, calls the function it wraps by its own name
/// and hands back the converted result.
pub open spec fn wrapper_text(
    prefix: Seq<char>,
    name: Seq<char>,
    decls: Seq<char>,
    calls: Seq<char>,
    ret: ConvertReturnView,
) -> Seq<char> {
    "#[no_mangle]\npub extern \"C\" fn "@ + prefix + name + "("@ + decls + ") -> "@
        + ret.return_type + " {\n    "@ + ret.before + "super::"@ + name + "("@ + calls + ")"@
        + ret.after + "\n}\n"@
}

/// The text of the module that holds the wrappers.
pub open spec fn module_text(wrappers: Seq<char>) -> Seq<char> {
    "mod coastal_wrappers {\n"@ + wrappers + "}\n"@
}

/// What the parser made of the types that a function is stored with: of the
/// type of each argument in turn, and of the return type.
#[derive(Debug, PartialEq, Eq)]
pub struct ParsedSignature {
    /// What each argument's type read as.
    pub types: Vec<Result<SourceType, ParseError>>,
    /// What the return type read as.
    pub ret: Result<ReturnShape, ParseError>,
}

impl ParsedSignature {
    /// There is one answer for each argument of the function.
    pub open spec fn fits(&self, function: FunctionView) -> bool {
        self.types@.len() == function.arguments.len()
    }
}

/// There is one signature for each function, and each fits its function.
pub open spec fn all_fit(parsed: Seq<ParsedSignature>, functions: Seq<FunctionView>) -> bool {
    &&& parsed.len() == functions.len()
    &&& forall|i: int| 0 <= i < parsed.len() ==> (#[trigger] parsed[i]).fits(functions[i])
}

/// The outcome of a step is the expected one.
pub open spec fn is_outcome(
    out: Result<String, GenerateError>,
    expected: Result<Seq<char>, GenerateErrorView>,
) -> bool {
    match out {
        Ok(text) => expected == Ok::<_, GenerateErrorView>(text@),
        Err(error) => expected == Err::<Seq<char>, _>(error.deep_view()),
    }
}

impl Library {
    /// The rules for arguments are the built-in ones alone.
    pub open spec fn has_builtin_arg_rules(&self) -> bool {
        &&& self.arg_converters@.len() == 1
        &&& forall|name: Seq<char>, ty: SourceType|
            #[trigger] self.arg_converters@[0].converts(name, ty) == builtin_arg(name, ty.shape)
    }

    /// The rules for return types are the built-in ones alone.
    pub open spec fn has_builtin_return_rules(&self) -> bool {
        &&& self.return_converters@.len() == 1
        &&& forall|ret: ReturnShape|
            #[trigger] self.return_converters@[0].converts(ret) == builtin_return(ret)
    }

    /// The constants of the library are all well formed.
    pub open spec fn has_well_formed_constants(&self) -> bool {
        forall|i: int|
            0 <= i < self.constants.deep_view().len() ==> (#[trigger] self.constants.deep_view()[
                i
            ]).well_formed()
    }

    /// What the rules make of an argument.
    pub open spec fn arg_outcome(&self, name: Seq<char>, ty: SourceType) -> Result<
        ConvertArgView,
        GenerateErrorView,
    > {
        match first_arg(self.arg_converters@, name, ty) {
            Some(out) => Ok(out),
            None => Err(GenerateErrorView::Argument { name, ty: ty.text@ }),
        }
    }

    /// What the rules make of the return part of a signature.
    pub open spec fn return_outcome(&self, ret: ReturnShape) -> Result<
        ConvertReturnView,
        GenerateErrorView,
    > {
        match first_return(self.return_converters@, ret) {
            Some(out) => Ok(out),
            None => Err(GenerateErrorView::ReturnType { ty: return_text(ret) }),
        }
    }

    /// What becomes of an argument that is stored with its type as text,
    /// given what the text read as: a type is converted, and a text that did
    /// not read as a type is an error of its own.
    pub open spec fn stored_arg_outcome(
        &self,
        name: Seq<char>,
        text: Seq<char>,
        parsed: Result<SourceType, ParseError>,
    ) -> Result<ConvertArgView, GenerateErrorView> {
        match parsed {
            Ok(source) => self.arg_outcome(name, source),
            Err(error) => Err(GenerateErrorView::TypeParse { text, message: error.message@ }),
        }
    }

    /// What becomes of a return type that is stored as text, given what the
    /// text read as.
    pub open spec fn stored_return_outcome(
        &self,
        text: Seq<char>,
        parsed: Result<ReturnShape, ParseError>,
    ) -> Result<ConvertReturnView, GenerateErrorView> {
        match parsed {
            Ok(ret) => self.return_outcome(ret),
            Err(error) => Err(GenerateErrorView::TypeParse { text, message: error.message@ }),
        }
    }

    /// What becomes of a list of stored arguments, given what their types
    /// read as: the declarations and the call arguments of all of them,
    /// joined in the order of the list, or the error of the first argument
    /// that has one.
    pub open spec fn args_outcome(
        &self,
        args: Seq<(Seq<char>, Seq<char>)>,
        types: Seq<Result<SourceType, ParseError>>,
    ) -> Result<(Seq<char>, Seq<char>), GenerateErrorView>
        recommends
            args.len() == types.len(),
        decreases args.len(),
    {
        if args.len() == 0 {
            Ok((Seq::empty(), Seq::empty()))
        } else {
            match self.args_outcome(args.drop_last(), types.drop_last()) {
                Err(error) => Err(error),
                Ok((decls, calls)) => match self.stored_arg_outcome(
                    args.last().0,
                    args.last().1,
                    types.last(),
                ) {
                    Err(error) => Err(error),
                    Ok(arg) => Ok((decls + arg.decl, calls + arg.call)),
                },
            }
        }
    }

    /// The wrapper of a function, given what its stored types read as, or
    /// the first error met: the arguments are taken in order, then the
    /// return type.
    pub open spec fn wrapper_of(&self, function: FunctionView, parsed: ParsedSignature) -> Result<
        Seq<char>,
        GenerateErrorView,
    > {
        match self.args_outcome(function.arguments, parsed.types@) {
            Err(error) => Err(error),
            Ok((decls, calls)) => match self.stored_return_outcome(
                function.return_type,
                parsed.ret,
            ) {
                Err(error) => Err(error),
                Ok(ret) => Ok(
                    wrapper_text(self.function_prefix@, function.name, decls, calls, ret),
                ),
            },
        }
    }

    /// The wrappers of a list of functions, one after the other in the order
    /// of the list, or the error of the first function that has one.
    pub open spec fn wrappers_of(
        &self,
        functions: Seq<FunctionView>,
        parsed: Seq<ParsedSignature>,
    ) -> Result<Seq<char>, GenerateErrorView>
        recommends
            functions.len() == parsed.len(),
        decreases functions.len(),
    {
        if functions.len() == 0 {
            Ok(Seq::empty())
        } else {
            match self.wrappers_of(functions.drop_last(), parsed.drop_last()) {
                Err(error) => Err(error),
                Ok(text) => match self.wrapper_of(functions.last(), parsed.last()) {
                    Err(error) => Err(error),
                    Ok(wrapper) => Ok(text + wrapper),
                },
            }
        }
    }

    /// The module of wrappers for the functions of the library, given what
    /// their stored types read as.
    pub open spec fn module_of(&self, parsed: Seq<ParsedSignature>) -> Result<
        Seq<char>,
        GenerateErrorView,
    > {
        match self.wrappers_of(self.functions.deep_view(), parsed) {
            Err(error) => Err(error),
            Ok(text) => Ok(module_text(text)),
        }
    }

    /// The header lines of a list of constants, in the order of the list.
    pub open spec fn header_of(prefix: Seq<char>, constants: Seq<ConstantView>) -> Seq<char>
        decreases constants.len(),
    {
        if constants.len() == 0 {
            Seq::empty()
        } else {
            Self::header_of(prefix, constants.drop_last()) + constants.last().header_line(prefix)
        }
    }

    /// A library named after a package, with nothing to export yet and the
    /// built-in rules.
    pub fn new(package: &str) -> (library: Library)
        ensures
            library.type_prefix@ == recased(package@, CaseStyle::Pascal),
            library.function_prefix@ == recased(package@, CaseStyle::Snake) + "_"@,
            library.constant_prefix@ == recased(package@, CaseStyle::UpperSnake) + "_"@,
            library.constants@.len() == 0,
            library.functions@.len() == 0,
            library.has_builtin_arg_rules(),
            library.has_builtin_return_rules(),
    {
        Library::with_names(
            recase(package, CaseStyle::Pascal),
            recase(package, CaseStyle::Snake),
            recase(package, CaseStyle::UpperSnake),
        )
    }

    /// A library under the name of a package as it is written in three
    /// styles: in Pascal case for types, in snake case for functions, in upper
    /// snake case for constants. The names of functions and constants are
    /// parted from the prefix by an underscore. The library has nothing to
    /// export yet, and the built-in rules.
    pub fn with_names(pascal: String, snake: String, upper_snake: String) -> (library: Library)
        ensures
            library.type_prefix@ == pascal@,
            library.function_prefix@ == snake@ + "_"@,
            library.constant_prefix@ == upper_snake@ + "_"@,
            library.constants@.len() == 0,
            library.functions@.len() == 0,
            library.has_builtin_arg_rules(),
            library.has_builtin_return_rules(),
    {
        let mut function_prefix = snake;
        function_prefix.append("_");
        let mut constant_prefix = upper_snake;
        constant_prefix.append("_");
        let arg_converters: Vec<Box<dyn ArgConverter>> = vec![Box::new(BuiltinArgs)];
        let return_converters: Vec<Box<dyn ReturnConverter>> = vec![Box::new(BuiltinReturns)];
        assert forall|name: Seq<char>, ty: SourceType| #[trigger]
            arg_converters@[0].converts(name, ty) == builtin_arg(
                name,
                ty.shape,
            ) by {
            assert(arg_converters@[0].converts(name, ty) == BuiltinArgs.converts(name, ty));
        }
        assert forall|ret: ReturnShape| #[trigger]
            return_converters@[0].converts(ret) == builtin_return(ret) by {
            assert(return_converters@[0].converts(ret) == BuiltinReturns.converts(ret));
        }
        Library {
            type_prefix: pascal,
            function_prefix,
            constant_prefix,
            constants: Vec::new(),
            functions: Vec::new(),
            arg_converters,
            return_converters,
        }
    }

    /// Converts an argument with the first rule that accepts its type.
    pub fn convert_arg(&self, name: &str, ty: &SourceType) -> (out: Result<
        ConvertArg,
        GenerateError,
    >)
        ensures
            match out {
                Ok(arg) => self.arg_outcome(name@, *ty) == Ok::<_, GenerateErrorView>(
                    arg.deep_view(),
                ),
                Err(error) => self.arg_outcome(name@, *ty) == Err::<ConvertArgView, _>(
                    error.deep_view(),
                ),
            },
    {
        match apply_arg_rules(&self.arg_converters, name, ty) {
            Some(arg) => Ok(arg),
            None => Err(
                GenerateError::Argument { name: String::from_str(name), ty: ty.text.clone() },
            ),
        }
    }

    /// Converts a return type with the first rule that accepts it.
    pub fn convert_return(&self, ret: &ReturnShape) -> (out: Result<ConvertReturn, GenerateError>)
        ensures
            match out {
                Ok(converted) => self.return_outcome(*ret) == Ok::<_, GenerateErrorView>(
                    converted.deep_view(),
                ),
                Err(error) => self.return_outcome(*ret) == Err::<ConvertReturnView, _>(
                    error.deep_view(),
                ),
            },
    {
        match apply_return_rules(&self.return_converters, ret) {
            Some(converted) => Ok(converted),
            None => {
                let ty = match ret {
                    ReturnShape::Default => String::new(),
                    ReturnShape::Type(ty) => {
                        let mut text = String::from_str("-> ");
                        text.append(ty.text.as_str());
                        text
                    },
                };
                Err(GenerateError::ReturnType { ty })
            },
        }
    }
}

/// An error among the arguments stays the error of every longer list.
pub proof fn lemma_args_error_persists(
    library: &Library,
    args: Seq<(Seq<char>, Seq<char>)>,
    types: Seq<Result<SourceType, ParseError>>,
    k: int,
)
    requires
        args.len() == types.len(),
        0 <= k <= args.len(),
        library.args_outcome(args.take(k), types.take(k)) is Err,
    ensures
        library.args_outcome(args, types) == library.args_outcome(args.take(k), types.take(k)),
    decreases args.len(),
{
    if k < args.len() {
        assert(args.drop_last().take(k) =~= args.take(k));
        assert(types.drop_last().take(k) =~= types.take(k));
        lemma_args_error_persists(library, args.drop_last(), types.drop_last(), k);
    } else {
        assert(args.take(k) =~= args);
        assert(types.take(k) =~= types);
    }
}

/// An error among the functions stays the error of every longer list.
pub proof fn lemma_wrappers_error_persists(
    library: &Library,
    functions: Seq<FunctionView>,
    parsed: Seq<ParsedSignature>,
    k: int,
)
    requires
        functions.len() == parsed.len(),
        0 <= k <= functions.len(),
        library.wrappers_of(functions.take(k), parsed.take(k)) is Err,
    ensures
        library.wrappers_of(functions, parsed) == library.wrappers_of(
            functions.take(k),
            parsed.take(k),
        ),
    decreases functions.len(),
{
    if k < functions.len() {
        assert(functions.drop_last().take(k) =~= functions.take(k));
        assert(parsed.drop_last().take(k) =~= parsed.take(k));
        lemma_wrappers_error_persists(library, functions.drop_last(), parsed.drop_last(), k);
    } else {
        assert(functions.take(k) =~= functions);
        assert(parsed.take(k) =~= parsed);
    }
}

impl Function {
    /// Reads the stored types of the function: the type of each argument in
    /// turn, then the return type. What the parser answers is not known
    /// beforehand; there is one answer for each argument.
    pub fn parse_signature(&self) -> (parsed: ParsedSignature)
        ensures
            parsed.fits(self.deep_view()),
    {
        let mut types: Vec<Result<SourceType, ParseError>> = Vec::new();
        let mut i: usize = 0;
        while i < self.arguments.len()
            invariant
                i <= self.arguments.len(),
                types@.len() == i,
            decreases self.arguments.len() - i,
        {
            types.push(read_type(self.arguments[i].1.as_str()));
            i += 1;
        }
        ParsedSignature { types, ret: read_return(self.return_type.as_str()) }
    }

    /// Generates the wrapper of the function under the names and rules of a
    /// library, from what its stored types read as.
    pub fn wrap_parsed(&self, lib: &Library, parsed: &ParsedSignature) -> (out: Result<
        String,
        GenerateError,
    >)
        requires
            parsed.fits(self.deep_view()),
        ensures
            is_outcome(out, lib.wrapper_of(self.deep_view(), *parsed)),
    {
        let ghost args = self.arguments.deep_view();
        let ghost types = parsed.types@;
        let mut decls = String::new();
        let mut calls = String::new();
        let mut i: usize = 0;
        assert(args.take(0) =~= Seq::empty());
        while i < self.arguments.len()
            invariant
                i <= self.arguments.len(),
                args == self.arguments.deep_view(),
                types == parsed.types@,
                types.len() == args.len(),
                lib.args_outcome(args.take(i as int), types.take(i as int)) == Ok::<
                    _,
                    GenerateErrorView,
                >((decls@, calls@)),
            decreases self.arguments.len() - i,
        {
            let name = &self.arguments[i].0;
            let ty = &self.arguments[i].1;
            proof {
                let next = args.take(i + 1);
                assert(next.drop_last() =~= args.take(i as int));
                assert(next.last() == (name@, ty@));
                assert(types.take(i + 1).drop_last() =~= types.take(i as int));
                assert(types.take(i + 1).last() == types[i as int]);
            }
            let source = match &parsed.types[i] {
                Ok(source) => source,
                Err(error) => {
                    proof {
                        lemma_args_error_persists(lib, args, types, i + 1);
                    }
                    return Err(
                        GenerateError::TypeParse {
                            text: ty.clone(),
                            message: error.message.clone(),
                        },
                    );
                },
            };
            let arg = match lib.convert_arg(name.as_str(), source) {
                Ok(arg) => arg,
                Err(error) => {
                    proof {
                        lemma_args_error_persists(lib, args, types, i + 1);
                    }
                    return Err(error);
                },
            };
            decls.append(arg.decl.as_str());
            calls.append(arg.call.as_str());
            i += 1;
        }
        assert(args.take(i as int) =~= args);
        assert(types.take(i as int) =~= types);
        let shape = match &parsed.ret {
            Ok(shape) => shape,
            Err(error) => {
                return Err(
                    GenerateError::TypeParse {
                        text: self.return_type.clone(),
                        message: error.message.clone(),
                    },
                );
            },
        };
        let ret = match lib.convert_return(shape) {
            Ok(ret) => ret,
            Err(error) => {
                return Err(error);
            },
        };
        let mut text = String::from_str("#[no_mangle]\npub extern \"C\" fn ");
        text.append(lib.function_prefix.as_str());
        text.append(self.name.as_str());
        text.append("(");
        text.append(decls.as_str());
        text.append(") -> ");
        text.append(ret.return_type.as_str());
        text.append(" {\n    ");
        text.append(ret.before.as_str());
        text.append("super::");
        text.append(self.name.as_str());
        text.append("(");
        text.append(calls.as_str());
        text.append(")");
        text.append(ret.after.as_str());
        text.append("\n}\n");
        Ok(text)
    }

    /// Generates the wrapper of the function under the names and rules of a
    /// library. The stored types are read first; whatever they read as, the
    /// outcome is what `wrap_parsed` makes of it.
    pub fn rust_wrapper(&self, lib: &Library) -> (out: Result<String, GenerateError>)
        ensures
            exists|parsed: ParsedSignature|
                parsed.fits(self.deep_view()) && #[trigger] is_outcome(
                    out,
                    lib.wrapper_of(self.deep_view(), parsed),
                ),
    {
        let parsed = self.parse_signature();
        let out = self.wrap_parsed(lib, &parsed);
        assert(is_outcome(out, lib.wrapper_of(self.deep_view(), parsed)));
        out
    }
}

impl Library {
    /// Reads the stored types of every function of the library, in their
    /// order.
    pub fn parse_signatures(&self) -> (parsed: Vec<ParsedSignature>)
        ensures
            all_fit(parsed@, self.functions.deep_view()),
    {
        let mut parsed: Vec<ParsedSignature> = Vec::new();
        let mut i: usize = 0;
        while i < self.functions.len()
            invariant
                i <= self.functions.len(),
                parsed@.len() == i,
                forall|k: int|
                    0 <= k < i ==> (#[trigger] parsed@[k]).fits(self.functions.deep_view()[k]),
            decreases self.functions.len() - i,
        {
            let signature = self.functions[i].parse_signature();
            assert(self.functions.deep_view()[i as int] == self.functions[i as int].deep_view());
            parsed.push(signature);
            i += 1;
        }
        parsed
    }

    /// Generates the module that holds the wrappers of all the functions, in
    /// their order, from what their stored types read as. Nothing is
    /// generated when one of them has an error.
    pub fn wrap_parsed(&self, parsed: &Vec<ParsedSignature>) -> (out: Result<
        String,
        GenerateError,
    >)
        requires
            all_fit(parsed@, self.functions.deep_view()),
        ensures
            is_outcome(out, self.module_of(parsed@)),
    {
        let ghost functions = self.functions.deep_view();
        let mut wrappers = String::new();
        let mut i: usize = 0;
        assert(functions.take(0) =~= Seq::empty());
        while i < self.functions.len()
            invariant
                i <= self.functions.len(),
                functions == self.functions.deep_view(),
                all_fit(parsed@, functions),
                self.wrappers_of(functions.take(i as int), parsed@.take(i as int)) == Ok::<
                    _,
                    GenerateErrorView,
                >(wrappers@),
            decreases self.functions.len() - i,
        {
            proof {
                let next = functions.take(i + 1);
                assert(next.drop_last() =~= functions.take(i as int));
                assert(next.last() == self.functions[i as int].deep_view());
                assert(parsed@.take(i + 1).drop_last() =~= parsed@.take(i as int));
                assert(parsed@.take(i + 1).last() == parsed@[i as int]);
                assert(parsed@[i as int].fits(functions[i as int]));
            }
            match self.functions[i].wrap_parsed(self, &parsed[i]) {
                Ok(wrapper) => {
                    wrappers.append(wrapper.as_str());
                },
                Err(error) => {
                    proof {
                        lemma_wrappers_error_persists(self, functions, parsed@, i + 1);
                    }
                    return Err(error);
                },
            }
            i += 1;
        }
        assert(functions.take(i as int) =~= functions);
        assert(parsed@.take(i as int) =~= parsed@);
        let mut text = String::from_str("mod coastal_wrappers {\n");
        text.append(wrappers.as_str());
        text.append("}\n");
        Ok(text)
    }

    /// Generates the module that holds the wrappers of all the functions, in
    /// their order. The stored types are read first; whatever they read as,
    /// the outcome is what `wrap_parsed` makes of it.
    pub fn rust_wrapper(&self) -> (out: Result<String, GenerateError>)
        ensures
            exists|parsed: Seq<ParsedSignature>|
                all_fit(parsed, self.functions.deep_view()) && #[trigger] is_outcome(
                    out,
                    self.module_of(parsed),
                ),
    {
        let parsed = self.parse_signatures();
        let out = self.wrap_parsed(&parsed);
        assert(is_outcome(out, self.module_of(parsed@)));
        out
    }

    /// Generates the lines of a C header that define the constants, in their
    /// order.
    pub fn c_header(&self) -> (out: String)
        requires
            self.has_well_formed_constants(),
        ensures
            out@ == Self::header_of(self.constant_prefix@, self.constants.deep_view()),
    {
        let ghost constants = self.constants.deep_view();
        let mut out = String::new();
        let mut i: usize = 0;
        assert(constants.take(0) =~= Seq::empty());
        while i < self.constants.len()
            invariant
                i <= self.constants.len(),
                constants == self.constants.deep_view(),
                self.has_well_formed_constants(),
                out@ == Self::header_of(self.constant_prefix@, constants.take(i as int)),
            decreases self.constants.len() - i,
        {
            proof {
                let next = constants.take(i + 1);
                assert(next.drop_last() =~= constants.take(i as int));
                assert(next.last() == self.constants[i as int].deep_view());
                assert(constants[i as int].well_formed());
            }
            out.append(self.constants[i].c_header(self.constant_prefix.as_str()).as_str());
            i += 1;
        }
        assert(constants.take(i as int) =~= constants);
        out
    }

    /// Tells whether the constants of the library are all well formed.
    pub fn check_constants(&self) -> (ok: bool)
        ensures
            ok == self.has_well_formed_constants(),
    {
        let mut i: usize = 0;
        while i < self.constants.len()
            invariant
                i <= self.constants.len(),
                forall|k: int|
                    0 <= k < i ==> (#[trigger] self.constants.deep_view()[k]).well_formed(),
            decreases self.constants.len() - i,
        {
            assert(self.constants.deep_view()[i as int] == self.constants[i as int].deep_view());
            if !self.constants[i].value.is_well_formed() {
                return false;
            }
            i += 1;
        }
        true
    }
}

/// What was generated: the module of wrappers, and the lines of the C header.
#[derive(Debug, Clone, PartialEq, Eq)]
pub struct GeneratedCode {
    /// The module of wrappers, as Rust source.
    pub wrappers: String,
    /// The definitions of the constants, as lines of a C header.
    pub header: String,
}

/// The contents of a `GeneratedCode`.
pub struct GeneratedCodeView {
    pub wrappers: Seq<char>,
    pub header: Seq<char>,
}

impl DeepView for GeneratedCode {
    type V = GeneratedCodeView;

    open spec fn deep_view(&self) -> GeneratedCodeView {
        GeneratedCodeView { wrappers: self.wrappers@, header: self.header@ }
    }
}

/// The outcome of a generation is the expected one.
pub open spec fn is_generated(
    out: Result<GeneratedCode, GenerateError>,
    expected: Result<GeneratedCodeView, GenerateErrorView>,
) -> bool {
    match out {
        Ok(code) => expected == Ok::<_, GenerateErrorView>(code.deep_view()),
        Err(error) => expected == Err::<GeneratedCodeView, _>(error.deep_view()),
    }
}

impl Library {
    /// The bindings of the library, given what the stored types of its
    /// functions read as: the module of wrappers and the header, or the error
    /// of the first function that cannot be wrapped.
    pub open spec fn generated(&self, parsed: Seq<ParsedSignature>) -> Result<
        GeneratedCodeView,
        GenerateErrorView,
    > {
        match self.module_of(parsed) {
            Err(error) => Err(error),
            Ok(wrappers) => Ok(
                GeneratedCodeView {
                    wrappers,
                    header: Self::header_of(self.constant_prefix@, self.constants.deep_view()),
                },
            ),
        }
    }

    /// Two libraries have the same names, export the same declarations in
    /// the same order, and their rules give the same answers.
    pub open spec fn agrees_with(&self, other: &Library) -> bool {
        &&& self.function_prefix@ == other.function_prefix@
        &&& self.constant_prefix@ == other.constant_prefix@
        &&& self.functions.deep_view() == other.functions.deep_view()
        &&& self.constants.deep_view() == other.constants.deep_view()
        &&& forall|name: Seq<char>, ty: SourceType|
            first_arg(self.arg_converters@, name, ty) == first_arg(
                other.arg_converters@,
                name,
                ty,
            )
        &&& forall|ret: ReturnShape|
            first_return(self.return_converters@, ret) == first_return(
                other.return_converters@,
                ret,
            )
    }

    /// Generates the bindings of the library from what the stored types of
    /// its functions read as. Nothing is generated when a function cannot be
    /// wrapped.
    pub fn generate_parsed(&self, parsed: &Vec<ParsedSignature>) -> (out: Result<
        GeneratedCode,
        GenerateError,
    >)
        requires
            all_fit(parsed@, self.functions.deep_view()),
            self.has_well_formed_constants(),
        ensures
            is_generated(out, self.generated(parsed@)),
    {
        match self.wrap_parsed(parsed) {
            Err(error) => Err(error),
            Ok(wrappers) => Ok(GeneratedCode { wrappers, header: self.c_header() }),
        }
    }

    /// Generates the bindings of the library. The stored types are read
    /// first; whatever they read as, the outcome is what `generate_parsed`
    /// makes of it.
    pub fn generate(&self) -> (out: Result<GeneratedCode, GenerateError>)
        requires
            self.has_well_formed_constants(),
        ensures
            exists|parsed: Seq<ParsedSignature>|
                all_fit(parsed, self.functions.deep_view()) && #[trigger] is_generated(
                    out,
                    self.generated(parsed),
                ),
    {
        let parsed = self.parse_signatures();
        let out = self.generate_parsed(&parsed);
        assert(is_generated(out, self.generated(parsed@)));
        out
    }
}

/// With the built-in rules alone, the answer for an argument is the built-in
/// one.
pub proof fn lemma_builtin_arg_rules(library: &Library, name: Seq<char>, ty: SourceType)
    requires
        library.has_builtin_arg_rules(),
    ensures
        first_arg(library.arg_converters@, name, ty) == builtin_arg(name, ty.shape),
{
    reveal_with_fuel(first_arg, 2);
    assert(library.arg_converters@[0].converts(name, ty) == builtin_arg(
        name,
        ty.shape,
    ));
}

/// With the built-in rules alone, the answer for a return type is the
/// built-in one.
pub proof fn lemma_builtin_return_rules(library: &Library, ret: ReturnShape)
    requires
        library.has_builtin_return_rules(),
    ensures
        first_return(library.return_converters@, ret) == builtin_return(ret),
{
    reveal_with_fuel(first_return, 2);
    assert(library.return_converters@[0].converts(ret) == builtin_return(ret));
}

proof fn lemma_same_args_outcome(
    a: &Library,
    b: &Library,
    args: Seq<(Seq<char>, Seq<char>)>,
    types: Seq<Result<SourceType, ParseError>>,
)
    requires
        a.agrees_with(b),
    ensures
        a.args_outcome(args, types) == b.args_outcome(args, types),
    decreases args.len(),
{
    if args.len() > 0 {
        lemma_same_args_outcome(a, b, args.drop_last(), types.drop_last());
    }
}

proof fn lemma_same_wrappers(
    a: &Library,
    b: &Library,
    functions: Seq<FunctionView>,
    parsed: Seq<ParsedSignature>,
)
    requires
        a.agrees_with(b),
    ensures
        a.wrappers_of(functions, parsed) == b.wrappers_of(functions, parsed),
    decreases functions.len(),
{
    if functions.len() > 0 {
        lemma_same_wrappers(a, b, functions.drop_last(), parsed.drop_last());
        lemma_same_args_outcome(a, b, functions.last().arguments, parsed.last().types@);
    }
}

/// Generation is a function of its inputs: libraries with the same names,
/// the same declarations and rules that give the same answers generate the
/// same text from the same parsed types, character for character, or fail
/// with the same error.
pub proof fn lemma_generation_is_determined(
    a: &Library,
    b: &Library,
    parsed: Seq<ParsedSignature>,
)
    requires
        a.agrees_with(b),
    ensures
        a.generated(parsed) == b.generated(parsed),
{
    lemma_same_wrappers(a, b, a.functions.deep_view(), parsed);
}

} // verus!
