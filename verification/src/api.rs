//! The generation step: a list of requests names the declarations to load,
//! and the bindings are generated for what was loaded.

use crate::convert::{first_arg, first_return};
use crate::library::{
    all_fit, lemma_builtin_arg_rules, lemma_builtin_return_rules, lemma_generation_is_determined,
    GenerateError, GenerateErrorView, GeneratedCode, GeneratedCodeView, Library, ParsedSignature,
};
use crate::record::lemma_decoded_constant_is_well_formed;
use crate::model::{Constant, ConstantView, Function, FunctionView};
use crate::registry::{
    key_of, loaded, make_key, record_of, Registry, RegistryError, RegistryErrorView, State,
};
use crate::text::{recased, CaseStyle};
use crate::types::{ReturnShape, SourceType};
use crate::validate::{Declaration, DeclarationView};
use vstd::prelude::*;

verus! {

/// A token of a list of requests.
#[derive(Debug, Clone, PartialEq, Eq)]
pub enum Token {
    /// The keyword `fn`.
    Fn,
    /// The keyword `const`.
    Const,
    /// A semicolon.
    Semi,
    /// A name.
    Ident(String),
    /// Any other token.
    Other,
}

/// Why a list of tokens is no list of requests. `at` is the position of the
/// token that should have been something else; it is the length of the list
/// where the list ends too early.
#[derive(Debug, Clone, Copy, PartialEq, Eq, Structural)]
pub enum RequestError {
    /// A request starts with `fn` or `const`.
    ExpectedItem { at: usize },
    /// A name follows the keyword.
    ExpectedName { at: usize },
    /// A semicolon ends the request.
    ExpectedSemicolon { at: usize },
}

/// A request for one declaration, by its name.
pub enum Request {
    /// `fn name;`
    Function(Seq<char>),
    /// `const name;`
    Constant(Seq<char>),
}

/// Why nothing was generated.
#[derive(Debug, Clone, PartialEq, Eq)]
pub enum ApiError {
    /// The requests are not written as they should be.
    Syntax(RequestError),
    /// A requested declaration could not be loaded.
    Registry(RegistryError),
    /// A function could not be wrapped.
    Generate(GenerateError),
}

/// The contents of an `ApiError`.
pub enum ApiErrorView {
    Syntax(RequestError),
    Registry(RegistryErrorView),
    Generate(GenerateErrorView),
}

impl DeepView for ApiError {
    type V = ApiErrorView;

    open spec fn deep_view(&self) -> ApiErrorView {
        match self {
            ApiError::Syntax(error) => ApiErrorView::Syntax(*error),
            ApiError::Registry(error) => ApiErrorView::Registry(error.deep_view()),
            ApiError::Generate(error) => ApiErrorView::Generate(error.deep_view()),
        }
    }
}

impl RequestError {
    /// What was expected where the requests go wrong.
    pub open spec fn expected(self) -> Seq<char> {
        match self {
            RequestError::ExpectedItem { .. } => "expected `fn` or `const`"@,
            RequestError::ExpectedName { .. } => "expected identifier"@,
            RequestError::ExpectedSemicolon { .. } => "expected `;`"@,
        }
    }

    /// Writes the diagnostic.
    pub fn message(&self) -> (out: String)
        ensures
            out@ == self.expected(),
    {
        match self {
            RequestError::ExpectedItem { .. } => String::from_str("expected `fn` or `const`"),
            RequestError::ExpectedName { .. } => String::from_str("expected identifier"),
            RequestError::ExpectedSemicolon { .. } => String::from_str("expected `;`"),
        }
    }
}

impl ApiErrorView {
    /// The diagnostic of the error inside.
    pub open spec fn message(self) -> Seq<char> {
        match self {
            ApiErrorView::Syntax(error) => error.expected(),
            ApiErrorView::Registry(error) => error.message(),
            ApiErrorView::Generate(error) => error.message(),
        }
    }
}

impl ApiError {
    /// Writes the diagnostic.
    pub fn message(&self) -> (out: String)
        ensures
            out@ == self.deep_view().message(),
    {
        match self {
            ApiError::Syntax(error) => error.message(),
            ApiError::Registry(error) => error.message(),
            ApiError::Generate(error) => error.message(),
        }
    }
}

/// The request that starts at a position: a keyword, a name, a semicolon.
pub open spec fn request_at(tokens: Seq<Token>, at: int) -> Result<Request, RequestError>
    recommends
        0 <= at < tokens.len(),
{
    if !(tokens[at] is Fn || tokens[at] is Const) {
        Err(RequestError::ExpectedItem { at: at as usize })
    } else if at + 1 >= tokens.len() || !(tokens[at + 1] is Ident) {
        Err(RequestError::ExpectedName { at: (at + 1) as usize })
    } else if at + 2 >= tokens.len() || !(tokens[at + 2] is Semi) {
        Err(RequestError::ExpectedSemicolon { at: (at + 2) as usize })
    } else if tokens[at] is Fn {
        Ok(Request::Function(tokens[at + 1]->Ident_0@))
    } else {
        Ok(Request::Constant(tokens[at + 1]->Ident_0@))
    }
}

/// The declaration that a request asks for.
pub open spec fn requested(entries: Seq<(Seq<char>, Seq<char>)>, request: Request) -> Result<
    DeclarationView,
    RegistryErrorView,
> {
    match request {
        Request::Function(name) => match loaded::<Function>(entries, name) {
            Ok(function) => Ok(DeclarationView::Function(function)),
            Err(error) => Err(error),
        },
        Request::Constant(name) => match loaded::<Constant>(entries, name) {
            Ok(constant) => Ok(DeclarationView::Constant(constant)),
            Err(error) => Err(error),
        },
    }
}

/// The declarations that the requests from a position on ask for, in the
/// order of the requests, or the first error: each request is read and its
/// declaration loaded before the next is looked at.
pub open spec fn gathered(
    entries: Seq<(Seq<char>, Seq<char>)>,
    tokens: Seq<Token>,
    at: int,
) -> Result<Seq<DeclarationView>, ApiErrorView>
    decreases tokens.len() - at,
{
    if at < 0 || at >= tokens.len() {
        Ok(Seq::empty())
    } else {
        match request_at(tokens, at) {
            Err(error) => Err(ApiErrorView::Syntax(error)),
            Ok(request) => match requested(entries, request) {
                Err(error) => Err(ApiErrorView::Registry(error)),
                Ok(declaration) => match gathered(entries, tokens, at + 3) {
                    Err(error) => Err(error),
                    Ok(tail) => Ok(seq![declaration] + tail),
                },
            },
        }
    }
}

/// The functions among a list of declarations, in their order.
pub open spec fn functions_of(declarations: Seq<DeclarationView>) -> Seq<FunctionView>
    decreases declarations.len(),
{
    if declarations.len() == 0 {
        Seq::empty()
    } else {
        match declarations.last() {
            DeclarationView::Function(function) => functions_of(declarations.drop_last()).push(
                function,
            ),
            DeclarationView::Constant(_) => functions_of(declarations.drop_last()),
        }
    }
}

/// The constants among a list of declarations, in their order.
pub open spec fn constants_of(declarations: Seq<DeclarationView>) -> Seq<ConstantView>
    decreases declarations.len(),
{
    if declarations.len() == 0 {
        Seq::empty()
    } else {
        match declarations.last() {
            DeclarationView::Constant(constant) => constants_of(declarations.drop_last()).push(
                constant,
            ),
            DeclarationView::Function(_) => constants_of(declarations.drop_last()),
        }
    }
}

/// The key of the declaration that the tokens at a position name: the key
/// of a function after `fn`, of a constant after `const`.
pub open spec fn key_at(tokens: Seq<Token>, at: int) -> Option<Seq<char>>
    recommends
        0 <= at < tokens.len() - 1,
{
    match (tokens[at], tokens[at + 1]) {
        (Token::Fn, Token::Ident(name)) => Some(key_of(Function::kind_name(), name@)),
        (Token::Const, Token::Ident(name)) => Some(key_of(Constant::kind_name(), name@)),
        _ => None,
    }
}

/// The keys of the declarations that the tokens from a position on name, in
/// their order.
pub open spec fn keys_from(tokens: Seq<Token>, at: int) -> Seq<Seq<char>>
    decreases tokens.len() - at,
{
    if at < 0 || at + 1 >= tokens.len() {
        Seq::empty()
    } else {
        match key_at(tokens, at) {
            Some(key) => seq![key] + keys_from(tokens, at + 1),
            None => keys_from(tokens, at + 1),
        }
    }
}

/// Lists the keys under which the declarations that a list of tokens names
/// are kept: the records to have at hand before the requests are answered.
pub fn requested_keys(tokens: &Vec<Token>) -> (keys: Vec<String>)
    ensures
        keys.deep_view() == keys_from(tokens@, 0),
{
    let mut keys: Vec<String> = Vec::new();
    let mut at: usize = 0;
    assert(keys.deep_view() =~= Seq::empty());
    if tokens.len() == 0 {
        return keys;
    }
    while at < tokens.len() - 1
        invariant
            tokens.len() > 0,
            at <= tokens.len() - 1,
            keys_from(tokens@, 0) == keys.deep_view() + keys_from(tokens@, at as int),
        decreases tokens.len() - at,
    {
        let ghost before = keys.deep_view();
        let key = match (&tokens[at], &tokens[at + 1]) {
            (Token::Fn, Token::Ident(name)) => Some(
                make_key(Function::kind_text(), name.as_str()),
            ),
            (Token::Const, Token::Ident(name)) => Some(
                make_key(Constant::kind_text(), name.as_str()),
            ),
            _ => None,
        };
        if let Some(key) = key {
            let ghost added = key@;
            keys.push(key);
            assert(keys.deep_view() =~= before.push(added));
            assert(before + (seq![added] + keys_from(tokens@, at + 1)) =~= keys.deep_view()
                + keys_from(tokens@, at + 1));
        }
        at += 1;
    }
    assert(keys.deep_view() + Seq::empty() =~= keys.deep_view());
    keys
}

/// A constant that a request gives is well formed.
pub proof fn lemma_requested_is_well_formed(entries: Seq<(Seq<char>, Seq<char>)>, request: Request)
    ensures
        requested(entries, request) matches Ok(DeclarationView::Constant(constant))
            ==> constant.well_formed(),
{
    match request {
        Request::Constant(name) => {
            match record_of(entries, key_of(Constant::kind_name(), name)) {
                Some(record) => {
                    lemma_decoded_constant_is_well_formed(record);
                },
                None => {},
            }
        },
        Request::Function(_) => {},
    }
}

/// Reads the request that starts at a position and loads its declaration.
fn load_request(registry: &Registry, tokens: &Vec<Token>, at: usize) -> (out: Result<
    Declaration,
    ApiError,
>)
    requires
        at < tokens.len(),
    ensures
        match out {
            Ok(declaration) => request_at(tokens@, at as int) matches Ok(request) && requested(
                registry.deep_view(),
                request,
            ) == Ok::<_, RegistryErrorView>(declaration.deep_view()),
            Err(error) => match request_at(tokens@, at as int) {
                Err(syntax) => error.deep_view() == ApiErrorView::Syntax(syntax),
                Ok(request) => requested(registry.deep_view(), request) == Err::<
                    DeclarationView,
                    _,
                >(error.deep_view()->Registry_0) && error is Registry,
            },
        },
{
    let wants_function = match &tokens[at] {
        Token::Fn => true,
        Token::Const => false,
        _ => {
            return Err(ApiError::Syntax(RequestError::ExpectedItem { at }));
        },
    };
    if at + 1 >= tokens.len() {
        return Err(ApiError::Syntax(RequestError::ExpectedName { at: at + 1 }));
    }
    let name = match &tokens[at + 1] {
        Token::Ident(name) => name,
        _ => {
            return Err(ApiError::Syntax(RequestError::ExpectedName { at: at + 1 }));
        },
    };
    if at + 2 >= tokens.len() {
        return Err(ApiError::Syntax(RequestError::ExpectedSemicolon { at: at + 2 }));
    }
    match &tokens[at + 2] {
        Token::Semi => {},
        _ => {
            return Err(ApiError::Syntax(RequestError::ExpectedSemicolon { at: at + 2 }));
        },
    }
    if wants_function {
        match Function::load_state(registry, name.as_str()) {
            Ok(function) => Ok(Declaration::Function(function)),
            Err(error) => Err(ApiError::Registry(error)),
        }
    } else {
        match Constant::load_state(registry, name.as_str()) {
            Ok(constant) => Ok(Declaration::Constant(constant)),
            Err(error) => Err(ApiError::Registry(error)),
        }
    }
}

/// Loads the declarations that a list of requests asks for, the functions
/// and the constants each in the order of the requests. The first request
/// that is not written as it should be, or whose declaration cannot be
/// loaded, ends it.
pub fn gather(registry: &Registry, tokens: &Vec<Token>) -> (out: Result<
    (Vec<Function>, Vec<Constant>),
    ApiError,
>)
    ensures
        match out {
            Ok((functions, constants)) => gathered(registry.deep_view(), tokens@, 0) matches Ok(
                declarations,
            ) && functions.deep_view() == functions_of(declarations) && constants.deep_view()
                == constants_of(declarations) && forall|i: int|
                0 <= i < constants.deep_view().len() ==> (#[trigger] constants.deep_view()[
                    i
                ]).well_formed(),
            Err(error) => gathered(registry.deep_view(), tokens@, 0) == Err::<
                Seq<DeclarationView>,
                _,
            >(error.deep_view()),
        },
{
    let ghost entries = registry.deep_view();
    let ghost mut seen: Seq<DeclarationView> = Seq::empty();
    let mut functions: Vec<Function> = Vec::new();
    let mut constants: Vec<Constant> = Vec::new();
    let mut at: usize = 0;
    assert(functions.deep_view() =~= Seq::empty());
    assert(constants.deep_view() =~= Seq::empty());
    while at < tokens.len()
        invariant
            entries == registry.deep_view(),
            functions.deep_view() == functions_of(seen),
            constants.deep_view() == constants_of(seen),
            forall|i: int|
                0 <= i < constants.deep_view().len() ==> (#[trigger] constants.deep_view()[
                    i
                ]).well_formed(),
            gathered(entries, tokens@, 0) == match gathered(entries, tokens@, at as int) {
                Ok(tail) => Ok(seen + tail),
                Err(error) => Err(error),
            },
        decreases tokens.len() - at,
    {
        let declaration = match load_request(registry, tokens, at) {
            Ok(declaration) => declaration,
            Err(error) => {
                return Err(error);
            },
        };
        let ghost added = declaration.deep_view();
        let ghost before_functions = functions.deep_view();
        let ghost before_constants = constants.deep_view();
        proof {
            let next = seen.push(added);
            assert(next.drop_last() =~= seen);
            assert(next.last() == added);
            match gathered(entries, tokens@, at + 3) {
                Ok(tail) => {
                    assert(seen + (seq![added] + tail) =~= next + tail);
                },
                Err(_) => {},
            }
        }
        match declaration {
            Declaration::Function(function) => {
                let ghost view = function.deep_view();
                functions.push(function);
                assert(functions.deep_view() =~= before_functions.push(view));
            },
            Declaration::Constant(constant) => {
                let ghost view = constant.deep_view();
                proof {
                    lemma_requested_is_well_formed(entries, request_at(tokens@, at as int)->Ok_0);
                }
                constants.push(constant);
                assert(constants.deep_view() =~= before_constants.push(view));
            },
        }
        proof {
            seen = seen.push(added);
        }
        at += 3;
    }
    assert(seen + Seq::empty() =~= seen);
    Ok((functions, constants))
}

impl Library {
    /// The library holds what the requests ask for: it is named after the
    /// package, exports the requested declarations, and has the built-in
    /// rules.
    pub open spec fn holds(&self, package: Seq<char>, declarations: Seq<DeclarationView>) -> bool {
        &&& self.type_prefix@ == recased(package, CaseStyle::Pascal)
        &&& self.function_prefix@ == recased(package, CaseStyle::Snake) + "_"@
        &&& self.constant_prefix@ == recased(package, CaseStyle::UpperSnake) + "_"@
        &&& self.functions.deep_view() == functions_of(declarations)
        &&& self.constants.deep_view() == constants_of(declarations)
        &&& self.has_builtin_arg_rules()
        &&& self.has_builtin_return_rules()
    }

    /// Loads the declarations that a list of requests asks for into a library
    /// named after a package.
    pub fn load(registry: &Registry, package: &str, tokens: &Vec<Token>) -> (out: Result<
        Library,
        ApiError,
    >)
        ensures
            match out {
                Ok(library) => gathered(registry.deep_view(), tokens@, 0) matches Ok(declarations)
                    && library.holds(package@, declarations)
                    && library.has_well_formed_constants(),
                Err(error) => gathered(registry.deep_view(), tokens@, 0) == Err::<
                    Seq<DeclarationView>,
                    _,
                >(error.deep_view()),
            },
    {
        let (functions, constants) = match gather(registry, tokens) {
            Ok(gathered) => gathered,
            Err(error) => {
                return Err(error);
            },
        };
        let named = Library::new(package);
        Ok(
            Library {
                type_prefix: named.type_prefix,
                function_prefix: named.function_prefix,
                constant_prefix: named.constant_prefix,
                constants,
                functions,
                arg_converters: named.arg_converters,
                return_converters: named.return_converters,
            },
        )
    }
}

/// Two libraries that hold the same requests generate the same from the same
/// parsed types.
pub proof fn lemma_holders_agree(
    a: &Library,
    b: &Library,
    package: Seq<char>,
    declarations: Seq<DeclarationView>,
    parsed: Seq<ParsedSignature>,
)
    requires
        a.holds(package, declarations),
        b.holds(package, declarations),
    ensures
        a.generated(parsed) == b.generated(parsed),
{
    assert forall|name: Seq<char>, ty: SourceType|
        first_arg(a.arg_converters@, name, ty) == first_arg(b.arg_converters@, name, ty) by {
        lemma_builtin_arg_rules(a, name, ty);
        lemma_builtin_arg_rules(b, name, ty);
    }
    assert forall|ret: ReturnShape|
        first_return(a.return_converters@, ret) == first_return(b.return_converters@, ret) by {
        lemma_builtin_return_rules(a, ret);
        lemma_builtin_return_rules(b, ret);
    }
    lemma_generation_is_determined(a, b, parsed);
}

/// The outcome is what the requested declarations generate, given what the
/// stored types of the requested functions read as: it is what every library
/// generates that holds these declarations under the names of the package and
/// has the built-in rules.
pub open spec fn is_answer(
    out: Result<GeneratedCode, ApiError>,
    package: Seq<char>,
    declarations: Seq<DeclarationView>,
    parsed: Seq<ParsedSignature>,
) -> bool {
    &&& all_fit(parsed, functions_of(declarations))
    &&& forall|library: Library| #[trigger]
        library.holds(package, declarations) ==> match out {
            Ok(code) => library.generated(parsed) == Ok::<_, GenerateErrorView>(code.deep_view()),
            Err(error) => error matches ApiError::Generate(inner) && library.generated(parsed)
                == Err::<GeneratedCodeView, _>(inner.deep_view()),
        }
}

/// Generates the bindings for a list of requests: the declarations are
/// loaded from the registry in the order of the requests, into a library
/// named after the package, and wrapped with the built-in rules. On any error
/// nothing is generated. An error in the requests or in the registry is the
/// one that gathering gives; past that, the stored types are read, and
/// whatever they read as, the outcome is the answer for it.
pub fn api(registry: &Registry, package: &str, tokens: &Vec<Token>) -> (out: Result<
    GeneratedCode,
    ApiError,
>)
    ensures
        match gathered(registry.deep_view(), tokens@, 0) {
            Err(error) => out matches Err(found) && found.deep_view() == error,
            Ok(declarations) => exists|parsed: Seq<ParsedSignature>| #[trigger]
                is_answer(out, package@, declarations, parsed),
        },
{
    let library = match Library::load(registry, package, tokens) {
        Ok(library) => library,
        Err(error) => {
            return Err(error);
        },
    };
    let parsed = library.parse_signatures();
    let out = match library.generate_parsed(&parsed) {
        Ok(code) => Ok(code),
        Err(error) => Err(ApiError::Generate(error)),
    };
    proof {
        let declarations = gathered(registry.deep_view(), tokens@, 0)->Ok_0;
        assert forall|other: Library| #[trigger] other.holds(package@, declarations) implies (
        match out {
            Ok(code) => other.generated(parsed@) == Ok::<_, GenerateErrorView>(code.deep_view()),
            Err(error) => error matches ApiError::Generate(inner) && other.generated(parsed@)
                == Err::<GeneratedCodeView, _>(inner.deep_view()),
        }) by {
            lemma_holders_agree(&library, &other, package@, declarations, parsed@);
        }
        assert(is_answer(out, package@, declarations, parsed@));
    }
    out
}

} // verus!
