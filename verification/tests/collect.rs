use coastal::api::{api, gather, requested_keys, ApiError, RequestError, Token};
use coastal::library::{GenerateError, Library};
use coastal::model::{Constant, ConstantValue, Function};
use coastal::registry::{Registry, RegistryError, State};
use coastal::types::{read_type, SourceType, TypeKind, TypeShape};
use coastal::validate::{
    check_argument, check_input, coast, handle_const, handle_fn, read_constant, validate,
    ConstItem, Declaration, FnInput, FnItem, Item, Literal, Pattern, ValidationError,
};

fn source(ty: &str) -> SourceType {
    read_type(ty).unwrap()
}

fn printed(ty: &str) -> String {
    source(ty).text
}

fn typed(name: &str, ty: &str) -> FnInput {
    FnInput::Typed { pattern: Pattern::Name(name.to_string()), ty: source(ty) }
}

fn add_item() -> FnItem {
    FnItem {
        is_async: false,
        has_generics: false,
        name: "add".to_string(),
        inputs: vec![typed("a", "i32"), typed("b", "i32")],
        output: "-> i32".to_string(),
    }
}

fn constant(ty: &str, value: Literal) -> ConstItem {
    ConstItem { name: "LIMIT".to_string(), ty: source(ty), value: Some(value) }
}

fn integer(digits: &str) -> Literal {
    Literal::Int { digits: digits.to_string() }
}

fn requests(text: &str) -> Vec<Token> {
    text.split_whitespace()
        .map(|word| match word {
            "fn" => Token::Fn,
            "const" => Token::Const,
            ";" => Token::Semi,
            "?" => Token::Other,
            name => Token::Ident(name.to_string()),
        })
        .collect()
}

fn basic() -> Registry {
    let mut registry = Registry::new();
    for (name, value) in [("VERSION_MAJOR", "1"), ("VERSION_MINOR", "0")] {
        let item =
            ConstItem { name: name.to_string(), ty: source("u32"), value: Some(integer(value)) };
        coast(&mut registry, true, &Item::Const(item)).unwrap();
    }
    let version = ConstItem {
        name: "VERSION".to_string(),
        ty: source("&str"),
        value: Some(Literal::Str("1.0".to_string())),
    };
    coast(&mut registry, true, &Item::Const(version)).unwrap();
    coast(&mut registry, true, &Item::Fn(add_item())).unwrap();
    registry
}

#[test]
fn a_plain_function_is_collected() {
    let function = handle_fn(&add_item()).unwrap();
    assert_eq!(
        function,
        Function {
            name: "add".to_string(),
            return_type: "-> i32".to_string(),
            arguments: vec![
                ("a".to_string(), "i32".to_string()),
                ("b".to_string(), "i32".to_string()),
            ],
        }
    );
}

#[test]
fn the_types_of_a_collected_function_are_kept_as_they_are_printed() {
    let mut item = add_item();
    item.inputs = vec![typed("text", "&'static str"), typed("data", "[u8;4]")];
    let function = handle_fn(&item).unwrap();
    assert_eq!(function.arguments[0], ("text".to_string(), printed("&'static str")));
    assert_eq!(function.arguments[1], ("data".to_string(), printed("[u8;4]")));
    assert_eq!(source(&function.arguments[0].1), source("&'static str"));
    assert_eq!(source(&function.arguments[1].1), source("[u8;4]"));
    let by_hand = FnInput::Typed {
        pattern: Pattern::Name("n".to_string()),
        ty: SourceType {
            text: "any text".to_string(),
            shape: TypeShape::Other(TypeKind::Tuple),
        },
    };
    item.inputs = vec![by_hand];
    assert_eq!(
        handle_fn(&item).unwrap().arguments,
        vec![("n".to_string(), "any text".to_string())]
    );
}

#[test]
fn an_async_function_is_refused() {
    let mut item = add_item();
    item.is_async = true;
    item.has_generics = true;
    assert_eq!(handle_fn(&item), Err(ValidationError::AsyncFunction));
}

#[test]
fn a_generic_function_is_refused() {
    let mut item = add_item();
    item.has_generics = true;
    item.inputs.insert(0, FnInput::Receiver);
    assert_eq!(handle_fn(&item), Err(ValidationError::GenericFunction));
}

#[test]
fn a_method_is_refused() {
    let mut item = add_item();
    item.inputs.insert(0, FnInput::Receiver);
    assert_eq!(handle_fn(&item), Err(ValidationError::Receiver { index: 0 }));
}

#[test]
fn a_pattern_parameter_is_refused() {
    let mut item = add_item();
    item.inputs.push(FnInput::Typed { pattern: Pattern::Other, ty: source("(u8, u8)") });
    assert_eq!(handle_fn(&item), Err(ValidationError::PatternArgument { index: 2 }));
}

#[test]
fn parameters_of_kinds_that_are_never_exported_are_refused() {
    let kinds = [
        ("impl Copy", TypeKind::ImplTrait),
        ("_", TypeKind::Infer),
        ("m!()", TypeKind::Macro),
        ("!", TypeKind::Never),
        ("dyn Send", TypeKind::TraitObject),
    ];
    for (ty, kind) in kinds {
        let mut item = add_item();
        item.inputs[1] = typed("b", ty);
        assert_eq!(handle_fn(&item), Err(ValidationError::ArgumentType { index: 1, kind }), "{ty}");
    }
}

#[test]
fn the_first_parameter_at_fault_is_reported() {
    let mut item = add_item();
    item.inputs = vec![
        typed("a", "u8"),
        FnInput::Typed { pattern: Pattern::Other, ty: source("u8") },
        FnInput::Receiver,
        typed("d", "_"),
    ];
    assert_eq!(handle_fn(&item), Err(ValidationError::PatternArgument { index: 1 }));
}

#[test]
fn two_parameters_of_one_name_are_refused() {
    let mut item = add_item();
    item.inputs = vec![typed("a", "u8"), typed("b", "u8"), typed("a", "u16"), typed("b", "u16")];
    assert_eq!(handle_fn(&item), Err(ValidationError::DuplicateArgument { index: 2 }));
}

#[test]
fn each_type_of_constant_asks_for_its_kind_of_literal() {
    let cases = [
        (constant("c_char", Literal::Byte(b'x')), ConstantValue::CChar(b'x')),
        (constant("i8", integer("127")), ConstantValue::I8(127)),
        (constant("i16", integer("32767")), ConstantValue::I16(32767)),
        (constant("i32", integer("2147483647")), ConstantValue::I32(2147483647)),
        (constant("i64", integer("9223372036854775807")), ConstantValue::I64(i64::MAX)),
        (constant("isize", integer("12")), ConstantValue::I64(12)),
        (constant("u8", integer("255")), ConstantValue::U8(255)),
        (constant("u16", integer("65535")), ConstantValue::U16(65535)),
        (constant("u32", integer("1")), ConstantValue::U32(1)),
        (constant("u64", integer("18446744073709551615")), ConstantValue::U64(u64::MAX)),
        (constant("usize", integer("0")), ConstantValue::U64(0)),
        (
            constant("f32", Literal::Float { single: "1.5".to_string(), double: "1.25".to_string() }),
            ConstantValue::F32("1.5".to_string()),
        ),
        (
            constant("f64", Literal::Float { single: "1.5".to_string(), double: "1.25".to_string() }),
            ConstantValue::F64("1.25".to_string()),
        ),
        (constant("&str", Literal::Str("1.0".to_string())), ConstantValue::Str("1.0".to_string())),
        (constant("& str", Literal::Str(String::new())), ConstantValue::Str(String::new())),
        (constant("&[u8]", Literal::ByteStr(vec![1, 2])), ConstantValue::Bytes(vec![1, 2])),
    ];
    for (item, value) in cases {
        assert_eq!(
            handle_const(&item),
            Ok(Constant { name: "LIMIT".to_string(), value }),
            "{}",
            item.ty.text
        );
    }
}

#[test]
fn a_constant_that_is_no_literal_is_refused() {
    let item = ConstItem { name: "LIMIT".to_string(), ty: source("u8"), value: None };
    assert_eq!(handle_const(&item), Err(ValidationError::NotLiteral));
    let item = ConstItem { name: "LIMIT".to_string(), ty: source("[u8]"), value: None };
    assert_eq!(handle_const(&item), Err(ValidationError::NotLiteral));
}

#[test]
fn a_literal_of_another_kind_than_the_type_is_refused() {
    let float = || Literal::Float { single: "1".to_string(), double: "1".to_string() };
    let cases = [
        constant("u8", Literal::Str("1".to_string())),
        constant("u8", float()),
        constant("u8", Literal::Byte(1)),
        constant("c_char", integer("1")),
        constant("f32", integer("1")),
        constant("f64", Literal::Str("1.0".to_string())),
        constant("&str", Literal::ByteStr(vec![1])),
        constant("&[u8]", Literal::Str("a".to_string())),
        constant("bool", Literal::Other),
        constant("u8", Literal::Other),
        constant("char", Literal::Other),
        constant("u128", integer("1")),
        constant("&'static str", Literal::Str("a".to_string())),
        constant("String", Literal::Str("a".to_string())),
        constant("[u8; 1]", Literal::ByteStr(vec![1])),
    ];
    for item in cases {
        let error = handle_const(&item).unwrap_err();
        assert!(matches!(error, ValidationError::ConstantType { .. }), "{}", item.ty.text);
    }
    assert_eq!(
        handle_const(&constant("&'static str", Literal::Str("a".to_string()))),
        Err(ValidationError::ConstantType { ty: printed("&'static str") })
    );
    assert_eq!(
        read_constant("u8 u16", &integer("1")),
        Err(ValidationError::ConstantType { ty: "u8 u16".to_string() })
    );
}

#[test]
fn an_integer_that_does_not_fit_its_type_is_refused() {
    for (ty, digits) in [
        ("i8", "128"),
        ("i16", "32768"),
        ("i32", "2147483648"),
        ("i64", "9223372036854775808"),
        ("isize", "9223372036854775808"),
        ("u8", "256"),
        ("u16", "65536"),
        ("u32", "4294967296"),
        ("u64", "18446744073709551616"),
        ("u8", ""),
        ("u8", "1_0"),
    ] {
        assert_eq!(
            handle_const(&constant(ty, integer(digits))),
            Err(ValidationError::OutOfRange { ty: ty.to_string() }),
            "{ty} {digits}"
        );
    }
}

#[test]
fn only_functions_and_constants_can_be_collected() {
    assert_eq!(validate(true, &Item::Other), Err(ValidationError::UnsupportedItem));
    assert_eq!(
        validate(false, &Item::Fn(add_item())),
        Err(ValidationError::AttributeArguments)
    );
    assert_eq!(validate(false, &Item::Other), Err(ValidationError::AttributeArguments));
    assert!(matches!(validate(true, &Item::Fn(add_item())), Ok(Declaration::Function(_))));
    assert!(matches!(
        validate(true, &Item::Const(constant("u8", integer("1")))),
        Ok(Declaration::Constant(_))
    ));
}

#[test]
fn what_is_collected_is_saved_under_its_name() {
    let registry = basic();
    assert_eq!(registry.entries.len(), 4);
    assert_eq!(registry.entries[3].0, "coastal.function.add");
    assert_eq!(Function::load_state(&registry, "add"), handle_fn(&add_item()).map_err(|_| unreachable!()));
    assert_eq!(
        Constant::load_state(&registry, "VERSION"),
        Ok(Constant { name: "VERSION".to_string(), value: ConstantValue::Str("1.0".to_string()) })
    );
}

#[test]
fn what_is_refused_is_not_saved() {
    let mut registry = basic();
    let before = registry.clone();
    let mut item = add_item();
    item.name = "other".to_string();
    item.is_async = true;
    assert_eq!(coast(&mut registry, true, &Item::Fn(item)), Err(ValidationError::AsyncFunction));
    assert_eq!(coast(&mut registry, true, &Item::Other), Err(ValidationError::UnsupportedItem));
    assert_eq!(
        coast(&mut registry, false, &Item::Fn(add_item())),
        Err(ValidationError::AttributeArguments)
    );
    assert_eq!(registry, before);
}

#[test]
fn the_basic_example_is_generated() {
    let registry = basic();
    let tokens = requests("const VERSION_MAJOR ; const VERSION_MINOR ; const VERSION ; fn add ;");
    let code = api(&registry, "mylib", &tokens).unwrap();
    assert_eq!(
        code.wrappers,
        "mod coastal_wrappers {\n#[no_mangle]\npub extern \"C\" fn mylib_add(a: i32, b: i32, ) -> i32 {\n    super::add(a, b, )\n}\n}\n"
    );
    assert_eq!(
        code.header,
        "#define MYLIB_VERSION_MAJOR 1u\n#define MYLIB_VERSION_MINOR 0u\n#define MYLIB_VERSION \"1.0\"\n"
    );
}

#[test]
fn a_request_for_what_was_never_saved_fails_with_its_name() {
    let registry = basic();
    let tokens = requests("fn add ; fn sub ; const VERSION ;");
    assert_eq!(
        api(&registry, "mylib", &tokens),
        Err(ApiError::Registry(RegistryError::NotFound { name: "sub".to_string() }))
    );
    assert_eq!(
        gather(&registry, &tokens),
        Err(ApiError::Registry(RegistryError::NotFound { name: "sub".to_string() }))
    );
    assert!(Library::load(&registry, "mylib", &tokens).is_err());
    let tokens = requests("const add ;");
    assert_eq!(
        api(&registry, "mylib", &tokens),
        Err(ApiError::Registry(RegistryError::NotFound { name: "add".to_string() }))
    );
}

#[test]
fn the_declarations_are_loaded_in_the_order_of_the_requests() {
    let registry = basic();
    let tokens = requests("const VERSION ; fn add ; const VERSION_MAJOR ; fn add ;");
    let (functions, constants) = gather(&registry, &tokens).unwrap();
    assert_eq!(functions.len(), 2);
    assert_eq!(functions[0].name, "add");
    assert_eq!(constants.len(), 2);
    assert_eq!(constants[0].name, "VERSION");
    assert_eq!(constants[1].name, "VERSION_MAJOR");
    let library = Library::load(&registry, "my lib", &tokens).unwrap();
    assert_eq!(library.functions, functions);
    assert_eq!(library.constants, constants);
    assert_eq!(library.function_prefix, "my_lib_");
    assert_eq!(gather(&registry, &Vec::new()), Ok((Vec::new(), Vec::new())));
}

#[test]
fn requests_that_are_not_written_as_they_should_be_are_refused() {
    let registry = basic();
    let cases = [
        ("add ;", RequestError::ExpectedItem { at: 0 }),
        ("; fn add ;", RequestError::ExpectedItem { at: 0 }),
        ("fn add ; ?", RequestError::ExpectedItem { at: 3 }),
        ("fn", RequestError::ExpectedName { at: 1 }),
        ("fn ;", RequestError::ExpectedName { at: 1 }),
        ("fn fn ;", RequestError::ExpectedName { at: 1 }),
        ("const add ; const ? ;", RequestError::ExpectedName { at: 4 }),
        ("fn add", RequestError::ExpectedSemicolon { at: 2 }),
        ("fn add fn add ;", RequestError::ExpectedSemicolon { at: 2 }),
        ("fn missing", RequestError::ExpectedSemicolon { at: 2 }),
    ];
    for (text, error) in cases {
        let outcome = if text.starts_with("const add") {
            let mut registry = registry.clone();
            Constant { name: "add".to_string(), value: ConstantValue::U8(0) }
                .save_state(&mut registry, "add");
            gather(&registry, &requests(text))
        } else {
            gather(&registry, &requests(text))
        };
        assert_eq!(outcome, Err(ApiError::Syntax(error)), "{text}");
    }
}

#[test]
fn each_request_is_loaded_before_the_next_is_read() {
    let registry = basic();
    assert_eq!(
        gather(&registry, &requests("fn missing ; ?")),
        Err(ApiError::Registry(RegistryError::NotFound { name: "missing".to_string() }))
    );
}

#[test]
fn a_function_that_cannot_be_wrapped_fails_the_generation() {
    let mut registry = basic();
    let mut item = add_item();
    item.name = "view".to_string();
    item.inputs = vec![typed("data", "&[u8]")];
    coast(&mut registry, true, &Item::Fn(item)).unwrap();
    assert_eq!(
        api(&registry, "mylib", &requests("fn add ; fn view ;")),
        Err(ApiError::Generate(GenerateError::Argument {
            name: "data".to_string(),
            ty: printed("&[u8]")
        }))
    );
}

#[test]
fn an_argument_is_kept_with_its_type_token_by_token() {
    assert_eq!(
        check_argument("data", &source("&[u8]"), 4),
        Ok(("data".to_string(), printed("&[u8]")))
    );
    assert_eq!(
        check_argument("data", &source("dyn Send"), 4),
        Err(ValidationError::ArgumentType { index: 4, kind: TypeKind::TraitObject })
    );
    assert_eq!(
        check_argument("data", &source("(dyn Send)"), 4),
        Ok(("data".to_string(), printed("(dyn Send)")))
    );
    let by_hand = SourceType { text: "x  y".to_string(), shape: TypeShape::Other(TypeKind::Never) };
    assert_eq!(
        check_argument("n", &by_hand, 0),
        Err(ValidationError::ArgumentType { index: 0, kind: TypeKind::Never })
    );
    let by_hand = SourceType { text: "x  y".to_string(), shape: TypeShape::Other(TypeKind::Ptr) };
    assert_eq!(check_argument("n", &by_hand, 0), Ok(("n".to_string(), "x  y".to_string())));
    assert_eq!(check_input(&FnInput::Receiver, 2), Err(ValidationError::Receiver { index: 2 }));
    assert_eq!(check_input(&typed("n", "u8"), 2), Ok(("n".to_string(), "u8".to_string())));
}

#[test]
fn the_value_of_a_constant_is_read_from_its_literal() {
    assert_eq!(read_constant("u16", &integer("65535")), Ok(ConstantValue::U16(65535)));
    assert_eq!(
        read_constant("u16", &integer("65536")),
        Err(ValidationError::OutOfRange { ty: "u16".to_string() })
    );
    for ty in ["&str", "& str", " &\tstr\n", "&  s t r"] {
        assert_eq!(
            read_constant(ty, &Literal::Str("a".to_string())),
            Ok(ConstantValue::Str("a".to_string())),
            "{ty:?}"
        );
    }
    for ty in ["&[u8]", "& [u8]", "& [ u8 ]"] {
        assert_eq!(
            read_constant(ty, &Literal::ByteStr(vec![7])),
            Ok(ConstantValue::Bytes(vec![7])),
            "{ty:?}"
        );
    }
    assert_eq!(
        read_constant("& 'a str", &Literal::Str("a".to_string())),
        Err(ValidationError::ConstantType { ty: "& 'a str".to_string() })
    );
    assert_eq!(
        read_constant("&mut str", &Literal::Str("a".to_string())),
        Err(ValidationError::ConstantType { ty: "&mut str".to_string() })
    );
}

#[test]
fn every_error_has_its_diagnostic() {
    let cases = [
        (ValidationError::AttributeArguments, "Coastal attribute macro does not take arguments"),
        (
            ValidationError::UnsupportedItem,
            "#[coast] only supports 'const' and 'fn' items currently",
        ),
        (ValidationError::AsyncFunction, "Coastal does not support async functions"),
        (ValidationError::GenericFunction, "Coastal does not support generic functions"),
        (
            ValidationError::Receiver { index: 0 },
            "Coastal does not yet support associated methods",
        ),
        (
            ValidationError::PatternArgument { index: 1 },
            "Coastal does not support pattern arguments",
        ),
        (
            ValidationError::ArgumentType { index: 1, kind: TypeKind::ImplTrait },
            "Coastal does not support 'impl' arguments",
        ),
        (
            ValidationError::ArgumentType { index: 1, kind: TypeKind::Infer },
            "Coastal does not support inferred argument type",
        ),
        (
            ValidationError::ArgumentType { index: 1, kind: TypeKind::Macro },
            "Coastal does not support macro argument types",
        ),
        (
            ValidationError::ArgumentType { index: 1, kind: TypeKind::Never },
            "Coastal does not support the '!' argument type",
        ),
        (
            ValidationError::ArgumentType { index: 1, kind: TypeKind::TraitObject },
            "Coastal does not support 'dyn' arguments",
        ),
        (
            ValidationError::ArgumentType { index: 1, kind: TypeKind::Tuple },
            "Coastal does not support this argument type",
        ),
        (
            ValidationError::DuplicateArgument { index: 1 },
            "Coastal does not support two arguments of one name",
        ),
        (ValidationError::NotLiteral, "Coastal constants must have a literal value"),
        (
            ValidationError::ConstantType { ty: "bool".to_string() },
            "Coastal constants can only be c_char, int, float, bytes, or string types, not 'bool'",
        ),
        (
            ValidationError::OutOfRange { ty: "u8".to_string() },
            "Coastal constant does not fit the type 'u8'",
        ),
    ];
    for (error, message) in cases {
        assert_eq!(error.message(), message);
    }
    assert_eq!(RequestError::ExpectedItem { at: 0 }.message(), "expected `fn` or `const`");
    assert_eq!(RequestError::ExpectedName { at: 1 }.message(), "expected identifier");
    assert_eq!(RequestError::ExpectedSemicolon { at: 2 }.message(), "expected `;`");
    assert_eq!(
        ApiError::Syntax(RequestError::ExpectedName { at: 1 }).message(),
        "expected identifier"
    );
    assert_eq!(
        ApiError::Registry(RegistryError::NotFound { name: "sub".to_string() }).message(),
        "Coastal could not find the declaration 'sub'"
    );
    assert_eq!(
        ApiError::Generate(GenerateError::ReturnType { ty: "-> [u8]".to_string() }).message(),
        "can't convert return type '-> [u8]'"
    );
}

#[test]
fn a_function_is_well_formed_when_no_name_is_repeated() {
    let function = handle_fn(&add_item()).unwrap();
    assert!(function.is_well_formed());
    let mut repeated = function.clone();
    repeated.arguments.push(("a".to_string(), "u8".to_string()));
    assert!(!repeated.is_well_formed());
    let none = Function { name: "f".to_string(), return_type: String::new(), arguments: Vec::new() };
    assert!(none.is_well_formed());
}

#[test]
fn the_keys_of_the_requested_declarations_are_listed_in_order() {
    assert_eq!(
        requested_keys(&requests("const VERSION ; fn add ; fn add ; fn ; ? const fn x")),
        vec![
            "coastal.constant.VERSION".to_string(),
            "coastal.function.add".to_string(),
            "coastal.function.add".to_string(),
            "coastal.function.x".to_string(),
        ]
    );
    assert!(requested_keys(&Vec::new()).is_empty());
    assert!(requested_keys(&requests("fn")).is_empty());
    assert!(requested_keys(&requests("add ;")).is_empty());
}

#[test]
fn a_float_constant_is_a_number_in_decimal() {
    let float = |single: &str, double: &str| Literal::Float {
        single: single.to_string(),
        double: double.to_string(),
    };
    assert_eq!(
        read_constant("f32", &float("0.1", "0.10000000149")),
        Ok(ConstantValue::F32("0.1".to_string()))
    );
    assert_eq!(
        read_constant("f64", &float("inf", "100000000000000000000")),
        Ok(ConstantValue::F64("100000000000000000000".to_string()))
    );
    for text in ["", "inf", "NaN", "1.", ".5", "1e5", "1\n2", "1.2.3", "1 ", "-", "--1", "1f", "0x1"] {
        assert_eq!(
            read_constant("f32", &float(text, "1")),
            Err(ValidationError::OutOfRange { ty: "f32".to_string() }),
            "{text:?}"
        );
        assert_eq!(
            read_constant("f64", &float("1", text)),
            Err(ValidationError::OutOfRange { ty: "f64".to_string() }),
            "{text:?}"
        );
    }
}
