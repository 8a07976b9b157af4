//! What holds of the library as a whole.

use crate::api::{gathered, key_at, keys_from, request_at, Request, Token};
use crate::convert::{
    first_arg, first_return, ArgConverter, ConvertArgView, ConvertReturnView, ReturnConverter,
};
use crate::library::{
    lemma_builtin_arg_rules, lemma_builtin_return_rules, return_text, GenerateErrorView, Library,
};
use crate::model::{Constant, Function};
use crate::registry::{key_of, loaded, record_of, RegistryErrorView, State};
use crate::types::{ParseError, ReturnShape, SourceType, TypeKind, TypeShape};
use crate::validate::{checked_function, checked_input, checked_inputs, FnInput, FnItem};
use vstd::prelude::*;

verus! {

/// What was saved under a name is what loading under that name gives,
/// field for field, for every declaration that can be kept: every function,
/// and every constant whose value is well formed.
pub proof fn lemma_load_after_save<T: State>(
    entries: Seq<(Seq<char>, Seq<char>)>,
    name: Seq<char>,
    contents: T::V,
)
    requires
        T::representable(contents),
    ensures
        loaded::<T>(entries.push((key_of(T::kind_name(), name), T::encoded(contents))), name)
            == Ok::<_, RegistryErrorView>(contents),
{
    T::lemma_round_trip(contents);
}

/// Two declarations with the same record are the same declaration.
pub proof fn lemma_records_tell_declarations_apart<T: State>(a: T::V, b: T::V)
    requires
        T::representable(a),
        T::representable(b),
        T::encoded(a) == T::encoded(b),
    ensures
        a == b,
{
    T::lemma_round_trip(a);
    T::lemma_round_trip(b);
}

/// Saving under one key changes nothing under any other key.
pub proof fn lemma_save_keeps_others(
    entries: Seq<(Seq<char>, Seq<char>)>,
    key: Seq<char>,
    record: Seq<char>,
    other: Seq<char>,
)
    requires
        other != key,
    ensures
        record_of(entries.push((key, record)), other) == record_of(entries, other),
{
    assert(entries.push((key, record)).drop_last() =~= entries);
}

/// Of two records saved under one key, the later one is found.
pub proof fn lemma_last_writer_wins(
    entries: Seq<(Seq<char>, Seq<char>)>,
    key: Seq<char>,
    earlier: Seq<char>,
    later: Seq<char>,
)
    ensures
        record_of(entries.push((key, earlier)).push((key, later)), key) == Some(later),
{
}

/// Under a name that was never saved nothing is found, and loading says so
/// with the name.
pub proof fn lemma_missing_is_not_found<T: State>(
    entries: Seq<(Seq<char>, Seq<char>)>,
    name: Seq<char>,
)
    requires
        forall|i: int| 0 <= i < entries.len() ==> entries[i].0 != key_of(T::kind_name(), name),
    ensures
        loaded::<T>(entries, name) == Err::<T::V, _>(RegistryErrorView::NotFound { name }),
{
    lemma_absent_key(entries, key_of(T::kind_name(), name));
}

proof fn lemma_absent_key(entries: Seq<(Seq<char>, Seq<char>)>, key: Seq<char>)
    requires
        forall|i: int| 0 <= i < entries.len() ==> entries[i].0 != key,
    ensures
        record_of(entries, key) is None,
    decreases entries.len(),
{
    if entries.len() > 0 {
        lemma_absent_key(entries.drop_last(), key);
    }
}

/// A function and a constant never share a key, whatever their names.
pub proof fn lemma_kinds_do_not_collide(function: Seq<char>, constant: Seq<char>)
    ensures
        key_of(Function::kind_name(), function) != key_of(Constant::kind_name(), constant),
{
    reveal_strlit("coastal.function");
    reveal_strlit("coastal.constant");
    let a = key_of(Function::kind_name(), function);
    let b = key_of(Constant::kind_name(), constant);
    assert(a[8] == 'f');
    assert(b[8] == 'c');
}

/// Two declarations of one kind share a key only if they share their name.
pub proof fn lemma_keys_tell_names_apart(kind: Seq<char>, a: Seq<char>, b: Seq<char>)
    requires
        key_of(kind, a) == key_of(kind, b),
    ensures
        a == b,
{
    let prefix = kind + "."@;
    assert(key_of(kind, a).skip(prefix.len() as int) =~= a);
    assert(key_of(kind, b).skip(prefix.len() as int) =~= b);
}

/// The first rule that accepts a type decides: where the rules before
/// position `i` decline and the rule at `i` answers, the list answers what
/// that rule answers, whatever the rules after it would say.
pub proof fn lemma_first_rule_wins(
    rules: Seq<Box<dyn ArgConverter>>,
    i: int,
    name: Seq<char>,
    ty: SourceType,
)
    requires
        0 <= i < rules.len(),
        rules[i].converts(name, ty) is Some,
        forall|j: int| 0 <= j < i ==> rules[j].converts(name, ty) is None,
    ensures
        first_arg(rules, name, ty) == rules[i].converts(name, ty),
    decreases i,
{
    if i > 0 {
        assert(rules[0].converts(name, ty) is None);
        assert forall|j: int| 0 <= j < i - 1 implies rules.skip(1)[j].converts(
            name,
            ty,
        ) is None by {
            assert(rules.skip(1)[j] == rules[j + 1]);
        }
        assert(rules.skip(1)[i - 1] == rules[i]);
        lemma_first_rule_wins(rules.skip(1), i - 1, name, ty);
    }
}

/// The first rule that accepts a return type decides.
pub proof fn lemma_first_return_rule_wins(
    rules: Seq<Box<dyn ReturnConverter>>,
    i: int,
    ret: ReturnShape,
)
    requires
        0 <= i < rules.len(),
        rules[i].converts(ret) is Some,
        forall|j: int| 0 <= j < i ==> rules[j].converts(ret) is None,
    ensures
        first_return(rules, ret) == rules[i].converts(ret),
    decreases i,
{
    if i > 0 {
        assert(rules[0].converts(ret) is None);
        assert forall|j: int| 0 <= j < i - 1 implies rules.skip(1)[j].converts(ret) is None by {
            assert(rules.skip(1)[j] == rules[j + 1]);
        }
        assert(rules.skip(1)[i - 1] == rules[i]);
        lemma_first_return_rule_wins(rules.skip(1), i - 1, ret);
    }
}

/// Where every rule declines, the list declines.
pub proof fn lemma_no_rule_no_answer(
    rules: Seq<Box<dyn ArgConverter>>,
    name: Seq<char>,
    ty: SourceType,
)
    requires
        forall|j: int| 0 <= j < rules.len() ==> rules[j].converts(name, ty) is None,
    ensures
        first_arg(rules, name, ty) is None,
    decreases rules.len(),
{
    if rules.len() > 0 {
        assert forall|j: int| 0 <= j < rules.len() - 1 implies rules.skip(1)[j].converts(
            name,
            ty,
        ) is None by {
            assert(rules.skip(1)[j] == rules[j + 1]);
        }
        lemma_no_rule_no_answer(rules.skip(1), name, ty);
    }
}

/// The built-in rules accept no argument but a path that is not qualified:
/// an array, a tuple, a slice, a pointer, a reference, a function pointer,
/// `impl`, `dyn`, `_`, `!` and a macro call are all refused with an error
/// that names the parameter and the type, and so is a qualified path.
pub proof fn lemma_unsupported_argument_is_refused(
    library: &Library,
    name: Seq<char>,
    ty: SourceType,
)
    requires
        library.has_builtin_arg_rules(),
        ty.shape.innermost() is Other || ty.shape.innermost() matches (TypeShape::Path {
            qualified: true,
            ..
        }),
    ensures
        library.arg_outcome(name, ty) == Err::<ConvertArgView, _>(
            GenerateErrorView::Argument { name, ty: ty.text@ },
        ),
{
    lemma_builtin_arg_rules(library, name, ty);
}

/// The built-in rules accept no written return type but `!` and a path that
/// is not qualified: every other shape is refused with an error that gives
/// the type.
pub proof fn lemma_unsupported_return_is_refused(library: &Library, ty: SourceType)
    requires
        library.has_builtin_return_rules(),
        (ty.shape.innermost() matches TypeShape::Other(kind) && kind != TypeKind::Never)
            || ty.shape.innermost() matches (TypeShape::Path { qualified: true, .. }),
    ensures
        library.return_outcome(ReturnShape::Type(ty)) == Err::<ConvertReturnView, _>(
            GenerateErrorView::ReturnType { ty: return_text(ReturnShape::Type(ty)) },
        ),
{
    lemma_builtin_return_rules(library, ReturnShape::Type(ty));
}

/// What becomes of each argument of a list, taken by itself, given what its
/// type read as.
pub open spec fn arg_outcomes(
    library: &Library,
    args: Seq<(Seq<char>, Seq<char>)>,
    types: Seq<Result<SourceType, ParseError>>,
) -> Seq<Result<ConvertArgView, GenerateErrorView>> {
    Seq::new(args.len(), |i: int| library.stored_arg_outcome(args[i].0, args[i].1, types[i]))
}

/// A list with two of its items exchanged.
pub open spec fn exchanged<A>(items: Seq<A>, i: int, j: int) -> Seq<A> {
    items.update(i, items[j]).update(j, items[i])
}

/// The declarations and the call arguments of converted arguments, joined in
/// the order of the list.
pub open spec fn joined(outcomes: Seq<Result<ConvertArgView, GenerateErrorView>>) -> (
    Seq<char>,
    Seq<char>,
)
    decreases outcomes.len(),
{
    if outcomes.len() == 0 {
        (Seq::empty(), Seq::empty())
    } else {
        let (decls, calls) = joined(outcomes.drop_last());
        match outcomes.last() {
            Ok(arg) => (decls + arg.decl, calls + arg.call),
            Err(_) => (decls, calls),
        }
    }
}

/// Where every argument can be converted, the parameters of the wrapper are
/// the converted arguments in the order of the list.
pub proof fn lemma_arguments_keep_their_order(
    library: &Library,
    args: Seq<(Seq<char>, Seq<char>)>,
    types: Seq<Result<SourceType, ParseError>>,
)
    requires
        args.len() == types.len(),
        forall|i: int|
            0 <= i < args.len() ==> (#[trigger] arg_outcomes(library, args, types)[i]) is Ok,
    ensures
        library.args_outcome(args, types) == Ok::<_, GenerateErrorView>(
            joined(arg_outcomes(library, args, types)),
        ),
    decreases args.len(),
{
    if args.len() > 0 {
        let front = args.drop_last();
        let front_types = types.drop_last();
        assert forall|i: int| 0 <= i < front.len() implies (#[trigger] arg_outcomes(
            library,
            front,
            front_types,
        )[i]) is Ok by {
            assert(arg_outcomes(library, args, types)[i] is Ok);
        }
        lemma_arguments_keep_their_order(library, front, front_types);
        assert(arg_outcomes(library, args, types).drop_last() =~= arg_outcomes(
            library,
            front,
            front_types,
        ));
        assert(arg_outcomes(library, args, types).last() is Ok);
    }
}

/// Exchanging two arguments exchanges what becomes of them and changes
/// nothing else: each argument is converted by itself, wherever it stands.
pub proof fn lemma_argument_order(
    library: &Library,
    args: Seq<(Seq<char>, Seq<char>)>,
    types: Seq<Result<SourceType, ParseError>>,
    i: int,
    j: int,
)
    requires
        args.len() == types.len(),
        0 <= i < args.len(),
        0 <= j < args.len(),
    ensures
        arg_outcomes(library, exchanged(args, i, j), exchanged(types, i, j)) == exchanged(
            arg_outcomes(library, args, types),
            i,
            j,
        ),
{
    assert(arg_outcomes(library, exchanged(args, i, j), exchanged(types, i, j)) =~= exchanged(
        arg_outcomes(library, args, types),
        i,
        j,
    ));
}

/// One parameter that is refused refuses the list.
pub proof fn lemma_refused_input_refuses_all(inputs: Seq<FnInput>, i: int)
    requires
        0 <= i < inputs.len(),
        checked_input(inputs[i], i) is Err,
    ensures
        checked_inputs(inputs) is Err,
    decreases inputs.len(),
{
    if i < inputs.len() - 1 {
        lemma_refused_input_refuses_all(inputs.drop_last(), i);
    }
}

/// A function that is `async` or generic, or that has a parameter that is
/// refused (`self`, a pattern, or a type of a kind that is never exported)
/// is not collected.
pub proof fn lemma_unsupported_function_is_refused(item: FnItem, i: int)
    requires
        item.is_async || item.has_generics || (0 <= i < item.inputs@.len() && checked_input(
            item.inputs@[i],
            i,
        ) is Err),
    ensures
        checked_function(item) is Err,
{
    if !item.is_async && !item.has_generics {
        lemma_refused_input_refuses_all(item.inputs@, i);
    }
}

/// The key that the tokens at a position name is among the listed keys.
pub proof fn lemma_key_is_listed(tokens: Seq<Token>, from: int, at: int)
    requires
        0 <= from <= at,
        at + 1 < tokens.len(),
        key_at(tokens, at) is Some,
    ensures
        keys_from(tokens, from).contains(key_at(tokens, at).unwrap()),
    decreases at - from,
{
    let key = key_at(tokens, at).unwrap();
    if from < at {
        lemma_key_is_listed(tokens, from + 1, at);
        let rest = keys_from(tokens, from + 1);
        let i = choose|i: int| 0 <= i < rest.len() && rest[i] == key;
        match key_at(tokens, from) {
            Some(first) => {
                assert((seq![first] + rest)[i + 1] == key);
            },
            None => {},
        }
    } else {
        assert((seq![key] + keys_from(tokens, at + 1))[0] == key);
    }
}

/// The requests are answered from the records under the listed keys alone:
/// two registries that hold the same records under those keys give the same
/// declarations and the same errors.
pub proof fn lemma_listed_records_suffice(
    a: Seq<(Seq<char>, Seq<char>)>,
    b: Seq<(Seq<char>, Seq<char>)>,
    tokens: Seq<Token>,
    at: int,
)
    requires
        0 <= at,
        forall|key: Seq<char>| #[trigger]
            keys_from(tokens, 0).contains(key) ==> record_of(a, key) == record_of(b, key),
    ensures
        gathered(a, tokens, at) == gathered(b, tokens, at),
    decreases tokens.len() - at,
{
    if at < tokens.len() {
        match request_at(tokens, at) {
            Ok(request) => {
                lemma_key_is_listed(tokens, 0, at);
                let key = key_at(tokens, at).unwrap();
                assert(keys_from(tokens, 0).contains(key));
                match request {
                    Request::Function(name) => {
                        assert(key == key_of(Function::kind_name(), name));
                    },
                    Request::Constant(name) => {
                        assert(key == key_of(Constant::kind_name(), name));
                    },
                }
                lemma_listed_records_suffice(a, b, tokens, at + 3);
            },
            Err(_) => {},
        }
    }
}

} // verus!
