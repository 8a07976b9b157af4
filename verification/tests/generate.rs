use std::num::NonZeroU32;

use coastal::convert::{
    convert_builtin_arg, convert_builtin_return, convert_path_arg, convert_path_return,
    find_non_zero, find_scalar, TypeRule,
};
use coastal::library::{GenerateError, Library, ParsedSignature};
use coastal::model::{Constant, ConstantValue, Function};
use coastal::text::squeeze;
use coastal::types::{
    read_return, read_type, return_from, ParseError, ReturnShape, SourceType, TypeKind, TypeShape,
};

fn function(name: &str, return_type: &str, arguments: &[(&str, &str)]) -> Function {
    Function {
        name: name.to_string(),
        return_type: return_type.to_string(),
        arguments: arguments.iter().map(|(n, t)| (n.to_string(), t.to_string())).collect(),
    }
}

fn add() -> Function {
    function("add", "i32", &[("a", "i32"), ("b", "i32")])
}

fn mylib() -> Library {
    let mut lib = Library::new("mylib");
    lib.function_prefix = "mylib_".to_string();
    lib.constant_prefix = "MYLIB_".to_string();
    lib
}

fn stub() -> TypeRule {
    TypeRule { source: "i32".to_string(), abi_type: "i64".to_string(), c_type: "long".to_string() }
}

#[test]
fn add_is_wrapped_under_the_prefixed_name() {
    let lib = mylib();
    let text = add().rust_wrapper(&lib).unwrap();
    assert_eq!(
        text,
        "#[no_mangle]\npub extern \"C\" fn mylib_add(a: i32, b: i32, ) -> i32 {\n    super::add(a, b, )\n}\n"
    );
}

#[test]
fn add_has_the_c_signature_of_the_scenario() {
    let lib = mylib();
    let int = read_type("i32").unwrap();
    let a = lib.convert_arg("a", &int).unwrap();
    let b = lib.convert_arg("b", &int).unwrap();
    assert_eq!(a.c_args, vec!["int32_t a".to_string()]);
    assert_eq!(b.c_args, vec!["int32_t b".to_string()]);
    assert_eq!(a.decl, "a: i32, ");
    assert_eq!(a.call, "a, ");
    let ret = lib.convert_return(&read_return("i32").unwrap()).unwrap();
    assert_eq!(ret.c_type, "int32_t");
    assert_eq!(ret.return_type, "i32");
    assert_eq!(ret.before, "");
    assert_eq!(ret.after, "");
}

#[test]
fn the_stored_arrow_form_of_a_return_type_is_read_too() {
    let lib = mylib();
    let arrow = function("add", "-> i32", &[("a", "i32"), ("b", "i32")]);
    assert_eq!(arrow.rust_wrapper(&lib).unwrap(), add().rust_wrapper(&lib).unwrap());
}

#[test]
fn a_function_without_return_value_ends_in_a_statement() {
    let lib = mylib();
    let text = function("tick", "", &[]).rust_wrapper(&lib).unwrap();
    assert_eq!(
        text,
        "#[no_mangle]\npub extern \"C\" fn mylib_tick() -> () {\n    super::tick();\n}\n"
    );
    let ret = convert_builtin_return(&ReturnShape::Default).unwrap();
    assert_eq!(ret.c_type, "void");
    assert_eq!(ret.return_type, "()");
    assert_eq!(ret.after, ";");
}

#[test]
fn a_function_that_never_returns_is_void_in_c() {
    let ret = convert_builtin_return(&read_return("-> !").unwrap()).unwrap();
    assert_eq!(ret.c_type, "void");
    assert_eq!(ret.return_type, "!");
    assert_eq!(ret.after, ";");
    assert_eq!(ret.before, "");
}

#[test]
fn the_module_holds_the_wrappers_in_order() {
    let mut lib = mylib();
    lib.functions.push(add());
    lib.functions.push(function("tick", "", &[]));
    let first = add().rust_wrapper(&lib).unwrap();
    let second = function("tick", "", &[]).rust_wrapper(&lib).unwrap();
    assert_eq!(
        lib.rust_wrapper().unwrap(),
        format!("mod coastal_wrappers {{\n{first}{second}}}\n")
    );
}

#[test]
fn the_header_holds_the_constants_in_order() {
    let mut lib = mylib();
    lib.constants.push(Constant { name: "VERSION_MAJOR".to_string(), value: ConstantValue::U32(1) });
    lib.constants.push(Constant { name: "VERSION_MINOR".to_string(), value: ConstantValue::U32(0) });
    lib.constants
        .push(Constant { name: "VERSION".to_string(), value: ConstantValue::Str("1.0".to_string()) });
    assert_eq!(
        lib.c_header(),
        "#define MYLIB_VERSION_MAJOR 1u\n#define MYLIB_VERSION_MINOR 0u\n#define MYLIB_VERSION \"1.0\"\n"
    );
    let code = lib.generate().unwrap();
    assert_eq!(code.header, lib.c_header());
    assert_eq!(code.wrappers, "mod coastal_wrappers {\n}\n");
}

#[test]
fn generation_twice_gives_the_same_text() {
    let build = || {
        let mut lib = mylib();
        lib.functions.push(add());
        lib.functions.push(function("scale", "-> f64", &[("x", "f64"), ("by", "NonZeroU8")]));
        lib.constants.push(Constant { name: "LIMIT".to_string(), value: ConstantValue::I64(-5) });
        lib
    };
    let first = build().generate().unwrap();
    let second = build().generate().unwrap();
    assert_eq!(first, second);
    assert_eq!(build().generate().unwrap(), first);
}

#[test]
fn exchanging_two_arguments_exchanges_two_parameters() {
    let lib = mylib();
    let forth = function("mix", "", &[("count", "u8"), ("ratio", "f32")]);
    let back = function("mix", "", &[("ratio", "f32"), ("count", "u8")]);
    assert_eq!(
        forth.rust_wrapper(&lib).unwrap(),
        "#[no_mangle]\npub extern \"C\" fn mylib_mix(count: u8, ratio: f32, ) -> () {\n    super::mix(count, ratio, );\n}\n"
    );
    assert_eq!(
        back.rust_wrapper(&lib).unwrap(),
        "#[no_mangle]\npub extern \"C\" fn mylib_mix(ratio: f32, count: u8, ) -> () {\n    super::mix(ratio, count, );\n}\n"
    );
}

#[test]
fn the_first_rule_that_accepts_wins() {
    let int = read_type("i32").unwrap();
    let mut after = mylib();
    after.arg_converters.push(Box::new(stub()));
    assert_eq!(after.convert_arg("a", &int).unwrap().c_args, vec!["int32_t a".to_string()]);
    let mut before = mylib();
    before.arg_converters.insert(0, Box::new(stub()));
    let won = before.convert_arg("a", &int).unwrap();
    assert_eq!(won.c_args, vec!["long a".to_string()]);
    assert_eq!(won.decl, "a: i64, ");
    assert_eq!(won.call, "a, ");
}

#[test]
fn the_first_return_rule_that_accepts_wins() {
    let int = read_return("-> i32").unwrap();
    let mut after = mylib();
    after.return_converters.push(Box::new(stub()));
    assert_eq!(after.convert_return(&int).unwrap().c_type, "int32_t");
    let mut before = mylib();
    before.return_converters.insert(0, Box::new(stub()));
    let won = before.convert_return(&int).unwrap();
    assert_eq!(won.c_type, "long");
    assert_eq!(won.return_type, "i64");
}

#[test]
fn a_later_rule_answers_where_the_earlier_ones_decline() {
    let mut lib = mylib();
    lib.arg_converters.push(Box::new(TypeRule {
        source: "&str".to_string(),
        abi_type: "*const std::ffi::c_char".to_string(),
        c_type: "const char*".to_string(),
    }));
    let text = read_type("&str").unwrap();
    let arg = lib.convert_arg("label", &text).unwrap();
    assert_eq!(arg.decl, "label: *const std::ffi::c_char, ");
    assert_eq!(arg.c_args, vec!["const char* label".to_string()]);
}

#[test]
fn without_rules_nothing_is_converted() {
    let mut lib = mylib();
    lib.arg_converters.clear();
    lib.return_converters.clear();
    let int = read_type("i32").unwrap();
    assert_eq!(
        lib.convert_arg("a", &int).unwrap_err(),
        GenerateError::Argument { name: "a".to_string(), ty: "i32".to_string() }
    );
    assert_eq!(
        lib.convert_return(&ReturnShape::Default).unwrap_err(),
        GenerateError::ReturnType { ty: "".to_string() }
    );
}

#[test]
fn an_array_argument_is_refused() {
    let lib = mylib();
    let error = function("f", "", &[("a", "i32"), ("b", "[u8; 4]")]).rust_wrapper(&lib).unwrap_err();
    let printed = read_type("[u8; 4]").unwrap().text;
    assert_eq!(error.message(), format!("can't convert argument 'b: {printed}'"));
    assert_eq!(error, GenerateError::Argument { name: "b".to_string(), ty: printed });
}

#[test]
fn every_unsupported_argument_shape_is_refused() {
    let lib = mylib();
    let shapes = [
        "[u8; 4]",
        "(u8, u8)",
        "[u8]",
        "*const u8",
        "*mut u8",
        "&u8",
        "&mut u8",
        "&'static str",
        "fn(u8) -> u8",
        "for<'a> fn(&'a u8)",
        "unsafe extern \"C\" fn(u8, ...)",
        "impl Copy",
        "dyn Send",
        "_",
        "!",
        "m!()",
        "<u8 as Into<u16>>::Out",
        "std::ffi::c_char",
        "Vec<u8>",
        "String",
        "(([u8; 2]))",
    ];
    for shape in shapes {
        let error = function("f", "", &[("x", shape)]).rust_wrapper(&lib).unwrap_err();
        assert!(matches!(error, GenerateError::Argument { ref name, .. } if name == "x"), "{shape}");
    }
}

#[test]
fn every_unsupported_return_shape_is_refused() {
    let lib = mylib();
    let shapes = [
        "[u8; 4]",
        "(u8, u8)",
        "[u8]",
        "*const u8",
        "&u8",
        "&'static str",
        "fn(u8) -> u8",
        "impl Copy",
        "dyn Send",
        "_",
        "<u8 as Into<u16>>::Out",
        "Vec<u8>",
    ];
    for shape in shapes {
        let error = function("f", shape, &[]).rust_wrapper(&lib).unwrap_err();
        assert!(matches!(error, GenerateError::ReturnType { .. }), "{shape}");
        let arrow = format!("-> {shape}");
        let error = function("f", &arrow, &[]).rust_wrapper(&lib).unwrap_err();
        assert!(matches!(error, GenerateError::ReturnType { .. }), "{shape}");
    }
    let error = function("f", "-> &u8", &[]).rust_wrapper(&lib).unwrap_err();
    let printed = read_type("&u8").unwrap().text;
    assert_eq!(error.message(), format!("can't convert return type '-> {printed}'"));
    assert_eq!(error, GenerateError::ReturnType { ty: format!("-> {printed}") });
}

#[test]
fn a_type_that_does_not_read_is_a_parse_error() {
    let lib = mylib();
    let error = function("f", "", &[("x", "i32 i32")]).rust_wrapper(&lib).unwrap_err();
    assert!(matches!(error, GenerateError::TypeParse { ref text, .. } if text == "i32 i32"));
    assert!(error.message().starts_with("can't read the type 'i32 i32': "));
    let error = function("f", "-> ->", &[]).rust_wrapper(&lib).unwrap_err();
    assert!(matches!(error, GenerateError::TypeParse { ref text, .. } if text == "-> ->"));
}

#[test]
fn the_first_error_in_order_is_reported() {
    let lib = mylib();
    let error =
        function("f", "[u8]", &[("a", "u8"), ("b", "[u8]"), ("c", "?")]).rust_wrapper(&lib).unwrap_err();
    assert_eq!(
        error,
        GenerateError::Argument { name: "b".to_string(), ty: read_type("[u8]").unwrap().text }
    );
    let mut lib = mylib();
    lib.functions.push(add());
    lib.functions.push(function("g", "", &[("x", "[u8]")]));
    lib.functions.push(function("h", "", &[("y", "?")]));
    assert_eq!(
        lib.rust_wrapper().unwrap_err(),
        GenerateError::Argument { name: "x".to_string(), ty: read_type("[u8]").unwrap().text }
    );
    assert!(lib.generate().is_err());
}

#[test]
fn a_non_zero_argument_is_guarded_at_the_call() {
    let arg = convert_path_arg("count", "NonZeroU32").unwrap();
    assert_eq!(arg.decl, "count: u32, ");
    assert_eq!(
        arg.call,
        "count.try_into().unwrap_or_else(|_| panic!(\"argument 'count' must be non-zero\")), "
    );
    assert_eq!(arg.c_args, vec!["uint32_t count".to_string()]);
    let lib = mylib();
    let text = function("wait", "", &[("count", "NonZeroU32")]).rust_wrapper(&lib).unwrap();
    assert_eq!(
        text,
        "#[no_mangle]\npub extern \"C\" fn mylib_wait(count: u32, ) -> () {\n    super::wait(count.try_into().unwrap_or_else(|_| panic!(\"argument 'count' must be non-zero\")), );\n}\n"
    );
}

#[test]
fn a_non_zero_return_value_is_handed_back_as_a_plain_integer() {
    let ret = convert_path_return("NonZeroI16").unwrap();
    assert_eq!(ret.before, "");
    assert_eq!(ret.after, ".into()");
    assert_eq!(ret.return_type, "i16");
    assert_eq!(ret.c_type, "int16_t");
    let lib = mylib();
    let text = function("level", "-> NonZeroI16", &[]).rust_wrapper(&lib).unwrap();
    assert_eq!(
        text,
        "#[no_mangle]\npub extern \"C\" fn mylib_level() -> i16 {\n    super::level().into()\n}\n"
    );
}

#[test]
fn the_scalar_table_is_complete() {
    let table = [
        ("bool", "bool", "bool"),
        ("i8", "i8", "int8_t"),
        ("i16", "i16", "int16_t"),
        ("i32", "i32", "int32_t"),
        ("i64", "i64", "int64_t"),
        ("u8", "u8", "uint8_t"),
        ("u16", "u16", "uint16_t"),
        ("u32", "u32", "uint32_t"),
        ("u64", "u64", "uint64_t"),
        ("usize", "usize", "size_t"),
        ("isize", "isize", "ssize_t"),
        ("f32", "f32", "float"),
        ("f64", "f64", "double"),
        ("c_char", "std::ffi::c_char", "char"),
        ("c_uchar", "std::ffi::c_uchar", "unsigned char"),
        ("c_schar", "std::ffi::c_schar", "signed char"),
    ];
    for (name, path, c_type) in table {
        assert_eq!(find_scalar(name), Some((path, c_type)));
        assert_eq!(find_non_zero(name), None);
        let arg = convert_path_arg("x", name).unwrap();
        assert_eq!(arg.decl, format!("x: {path}, "));
        assert_eq!(arg.call, "x, ");
        assert_eq!(arg.c_args, vec![format!("{c_type} x")]);
        let ret = convert_path_return(name).unwrap();
        assert_eq!(ret.return_type, path);
        assert_eq!(ret.c_type, c_type);
        assert_eq!(ret.after, "");
    }
    assert_eq!(find_scalar("i128"), None);
    assert_eq!(find_scalar(""), None);
    assert!(convert_path_arg("x", "i128").is_none());
    assert!(convert_path_return("u128").is_none());
}

#[test]
fn the_non_zero_table_is_complete() {
    let table = [
        ("NonZeroI8", "i8", "int8_t"),
        ("NonZeroI16", "i16", "int16_t"),
        ("NonZeroI32", "i32", "int32_t"),
        ("NonZeroI64", "i64", "int64_t"),
        ("NonZeroU8", "u8", "uint8_t"),
        ("NonZeroU16", "u16", "uint16_t"),
        ("NonZeroU32", "u32", "uint32_t"),
        ("NonZeroU64", "u64", "uint64_t"),
        ("NonZeroIsize", "isize", "ssize_t"),
        ("NonZeroUsize", "usize", "size_t"),
    ];
    for (name, raw, c_type) in table {
        assert_eq!(find_non_zero(name), Some((raw, c_type)));
        assert_eq!(find_scalar(name), None);
        let arg = convert_path_arg("x", name).unwrap();
        assert_eq!(arg.decl, format!("x: {raw}, "));
        assert_eq!(arg.c_args, vec![format!("{c_type} x")]);
        let ret = convert_path_return(name).unwrap();
        assert_eq!(ret.return_type, raw);
        assert_eq!(ret.c_type, c_type);
        assert_eq!(ret.after, ".into()");
    }
    assert_eq!(find_non_zero("NonZeroU128"), None);
}

#[test]
fn parentheses_around_a_type_change_nothing() {
    let plain = convert_builtin_arg("x", &read_type("u16").unwrap()).unwrap();
    let nested = convert_builtin_arg("x", &read_type("((u16))").unwrap()).unwrap();
    assert_eq!(plain.decl, nested.decl);
    assert_eq!(plain.call, nested.call);
    assert_eq!(plain.c_args, nested.c_args);
    let ret = convert_builtin_return(&read_return("-> (u16)").unwrap()).unwrap();
    assert_eq!(ret.c_type, "uint16_t");
    let never = convert_builtin_return(&read_return("-> (!)").unwrap()).unwrap();
    assert_eq!(never.return_type, "!");
}

#[test]
fn types_are_read_by_shape() {
    let nested = read_type("((u8))").unwrap();
    match nested.shape {
        TypeShape::Nested(inner) => match *inner {
            TypeShape::Nested(innermost) => assert!(matches!(
                *innermost,
                TypeShape::Path { qualified: false, ref text } if text == "u8"
            )),
            _ => panic!("one pair of parentheses is missing"),
        },
        _ => panic!("the parentheses are missing"),
    }
    assert_eq!(squeeze(&nested.text), "((u8))");
    let kinds = [
        ("[u8; 4]", TypeKind::Array),
        ("fn(u8)", TypeKind::BareFn),
        ("impl Copy", TypeKind::ImplTrait),
        ("_", TypeKind::Infer),
        ("m!()", TypeKind::Macro),
        ("!", TypeKind::Never),
        ("*const u8", TypeKind::Ptr),
        ("&str", TypeKind::Reference),
        ("[u8]", TypeKind::Slice),
        ("dyn Send", TypeKind::TraitObject),
        ("(u8, u8)", TypeKind::Tuple),
    ];
    for (text, kind) in kinds {
        assert!(
            matches!(read_type(text).unwrap().shape, TypeShape::Other(found) if found == kind),
            "{text}"
        );
    }
    assert!(matches!(
        read_type("<T as Trait>::Out").unwrap().shape,
        TypeShape::Path { qualified: true, .. }
    ));
    assert!(matches!(
        read_type("std::ffi::c_char").unwrap().shape,
        TypeShape::Path { qualified: false, ref text } if squeeze(text) == "std::ffi::c_char"
    ));
    assert_eq!(squeeze(&read_type("&str").unwrap().text), "&str");
    assert!(read_type("i32 i32").is_err());
    assert!(read_type("").is_err());
    assert!(!read_type("i32 i32").unwrap_err().message.is_empty());
}

#[test]
fn return_types_are_read_in_both_forms() {
    assert!(matches!(read_return("").unwrap(), ReturnShape::Default));
    assert!(matches!(read_return("  ").unwrap(), ReturnShape::Default));
    match read_return("-> u8").unwrap() {
        ReturnShape::Type(ty) => assert_eq!(ty, read_type("u8").unwrap()),
        ReturnShape::Default => panic!("the type is missing"),
    }
    match read_return("u8").unwrap() {
        ReturnShape::Type(ty) => assert_eq!(ty, read_type("u8").unwrap()),
        ReturnShape::Default => panic!("the type is missing"),
    }
    assert!(read_return("-> u8 u8").is_err());
    assert!(read_return("->").is_err());
}

#[test]
fn the_prefixes_come_from_the_package_name() {
    let lib = Library::new("my-lib");
    assert_eq!(lib.type_prefix, "MyLib");
    assert_eq!(lib.function_prefix, "my_lib_");
    assert_eq!(lib.constant_prefix, "MY_LIB_");
    assert!(lib.functions.is_empty());
    assert!(lib.constants.is_empty());
    assert_eq!(lib.arg_converters.len(), 1);
    assert_eq!(lib.return_converters.len(), 1);
    let text = add().rust_wrapper(&lib).unwrap();
    assert!(text.contains("fn my_lib_add("));
    let fallback = Library::new("package");
    assert_eq!(fallback.function_prefix, "package_");
}

#[test]
fn the_prefixes_are_made_of_the_name_in_three_styles() {
    let lib = Library::with_names("MyLib".to_string(), "my_lib".to_string(), "MY_LIB".to_string());
    assert_eq!(lib.type_prefix, "MyLib");
    assert_eq!(lib.function_prefix, "my_lib_");
    assert_eq!(lib.constant_prefix, "MY_LIB_");
    assert!(lib.functions.is_empty());
    assert!(lib.constants.is_empty());
    let int = read_type("u8").unwrap();
    assert_eq!(lib.convert_arg("n", &int).unwrap().c_args, vec!["uint8_t n".to_string()]);
    assert_eq!(lib.convert_return(&ReturnShape::Default).unwrap().c_type, "void");
}

#[test]
fn the_guard_of_a_non_zero_argument_stops_at_zero() {
    let arg = convert_builtin_arg("count", &read_type("NonZeroU32").unwrap());
    assert!(arg.unwrap().call.starts_with("count.try_into().unwrap_or_else(|_| panic!("));
    let zero: Result<NonZeroU32, _> = 0u32.try_into();
    assert!(zero.is_err());
    let seven: NonZeroU32 = 7u32.try_into().unwrap_or_else(|_| unreachable!());
    assert_eq!(seven.get(), 7);
}

fn path(text: &str) -> SourceType {
    SourceType {
        text: text.to_string(),
        shape: TypeShape::Path { qualified: false, text: text.to_string() },
    }
}

fn unreadable(message: &str) -> ParseError {
    ParseError { message: message.to_string() }
}

#[test]
fn a_wrapper_is_made_of_what_the_types_read_as() {
    let lib = mylib();
    let parsed = ParsedSignature {
        types: vec![Ok(path("i32")), Ok(path("u8"))],
        ret: Ok(ReturnShape::Type(path("i64"))),
    };
    let text = function("add", "anything", &[("a", "any"), ("b", "thing")])
        .wrap_parsed(&lib, &parsed)
        .unwrap();
    assert_eq!(
        text,
        "#[no_mangle]\npub extern \"C\" fn mylib_add(a: i32, b: u8, ) -> i64 {\n    super::add(a, b, )\n}\n"
    );
    let parsed = ParsedSignature { types: Vec::new(), ret: Ok(ReturnShape::Default) };
    assert_eq!(
        function("tick", "", &[]).wrap_parsed(&lib, &parsed).unwrap(),
        "#[no_mangle]\npub extern \"C\" fn mylib_tick() -> () {\n    super::tick();\n}\n"
    );
}

#[test]
fn the_first_type_that_did_not_read_or_convert_decides() {
    let lib = mylib();
    let f = function("f", "ret", &[("a", "first"), ("b", "second"), ("c", "third")]);
    let parsed = ParsedSignature {
        types: vec![Ok(path("i32")), Err(unreadable("no type")), Ok(path("Vec"))],
        ret: Err(unreadable("no return")),
    };
    assert_eq!(
        f.wrap_parsed(&lib, &parsed),
        Err(GenerateError::TypeParse { text: "second".to_string(), message: "no type".to_string() })
    );
    let parsed = ParsedSignature {
        types: vec![Ok(path("i32")), Ok(path("Vec")), Err(unreadable("no type"))],
        ret: Err(unreadable("no return")),
    };
    assert_eq!(
        f.wrap_parsed(&lib, &parsed),
        Err(GenerateError::Argument { name: "b".to_string(), ty: "Vec".to_string() })
    );
    let parsed = ParsedSignature {
        types: vec![Ok(path("i32")), Ok(path("u8")), Ok(path("f32"))],
        ret: Err(unreadable("no return")),
    };
    assert_eq!(
        f.wrap_parsed(&lib, &parsed),
        Err(GenerateError::TypeParse { text: "ret".to_string(), message: "no return".to_string() })
    );
    let parsed = ParsedSignature {
        types: vec![Ok(path("i32")), Ok(path("u8")), Ok(path("f32"))],
        ret: Ok(ReturnShape::Type(path("Vec"))),
    };
    assert_eq!(
        f.wrap_parsed(&lib, &parsed),
        Err(GenerateError::ReturnType { ty: "-> Vec".to_string() })
    );
}

#[test]
fn a_library_is_generated_from_what_its_types_read_as() {
    let mut lib = mylib();
    lib.functions.push(function("one", "x", &[("a", "y")]));
    lib.functions.push(function("two", "x", &[]));
    lib.constants.push(Constant { name: "K".to_string(), value: ConstantValue::F32("2.5".to_string()) });
    assert!(lib.check_constants());
    let parsed = vec![
        ParsedSignature { types: vec![Ok(path("bool"))], ret: Ok(ReturnShape::Default) },
        ParsedSignature { types: Vec::new(), ret: Ok(ReturnShape::Type(path("NonZeroU8"))) },
    ];
    let module = lib.wrap_parsed(&parsed).unwrap();
    assert_eq!(
        module,
        "mod coastal_wrappers {\n#[no_mangle]\npub extern \"C\" fn mylib_one(a: bool, ) -> () {\n    super::one(a, );\n}\n#[no_mangle]\npub extern \"C\" fn mylib_two() -> u8 {\n    super::two().into()\n}\n}\n"
    );
    let code = lib.generate_parsed(&parsed).unwrap();
    assert_eq!(code.wrappers, module);
    assert_eq!(code.header, "#define MYLIB_K 2.5f\n");
    let failing = vec![
        ParsedSignature { types: vec![Ok(path("bool"))], ret: Err(unreadable("bad")) },
        ParsedSignature { types: Vec::new(), ret: Err(unreadable("worse")) },
    ];
    assert_eq!(
        lib.generate_parsed(&failing),
        Err(GenerateError::TypeParse { text: "x".to_string(), message: "bad".to_string() })
    );
}

#[test]
fn the_stored_types_are_read_one_for_each_argument() {
    let f = function("f", "-> u8", &[("a", "i32"), ("b", "i32 i32"), ("c", "[u8]")]);
    let parsed = f.parse_signature();
    assert_eq!(parsed.types.len(), 3);
    assert_eq!(parsed.types[0], read_type("i32"));
    assert!(parsed.types[1].is_err());
    assert_eq!(parsed.types[2], read_type("[u8]"));
    assert_eq!(parsed.ret, read_return("-> u8"));
    let mut lib = mylib();
    lib.functions.push(f);
    lib.functions.push(add());
    let all = lib.parse_signatures();
    assert_eq!(all.len(), 2);
    assert_eq!(all[0], parsed);
    assert_eq!(all[1].types.len(), 2);
}

#[test]
fn a_return_type_is_the_return_part_or_else_the_type() {
    let arrow = || Ok(ReturnShape::Type(path("u8")));
    let ty = || Ok(path("u16"));
    assert_eq!(return_from(arrow(), ty()), arrow());
    assert_eq!(return_from(arrow(), Err(unreadable("t"))), arrow());
    assert_eq!(return_from(Ok(ReturnShape::Default), ty()), Ok(ReturnShape::Default));
    assert_eq!(return_from(Err(unreadable("r")), ty()), Ok(ReturnShape::Type(path("u16"))));
    assert_eq!(return_from(Err(unreadable("r")), Err(unreadable("t"))), Err(unreadable("t")));
}

#[test]
fn a_rule_takes_a_type_by_its_tokens() {
    let rule = TypeRule {
        source: "& 'a  [u8]".to_string(),
        abi_type: "u8".to_string(),
        c_type: "char".to_string(),
    };
    let spaced = |text: &str| SourceType {
        text: text.to_string(),
        shape: TypeShape::Other(TypeKind::Reference),
    };
    assert!(rule.accepts(&spaced("&'a [u8]")));
    assert!(rule.accepts(&spaced("& 'a [ u8 ]")));
    assert!(rule.accepts(&read_type("&'a [u8]").unwrap()));
    assert!(!rule.accepts(&spaced("&'b [u8]")));
    assert!(!rule.accepts(&spaced("&[u8]")));
}

#[test]
fn a_path_goes_by_its_tokens_however_they_are_spaced() {
    let spaced = SourceType {
        text: " u16 ".to_string(),
        shape: TypeShape::Path { qualified: false, text: " u16\t".to_string() },
    };
    let arg = convert_builtin_arg("x", &spaced).unwrap();
    assert_eq!(arg.decl, "x: u16, ");
    assert_eq!(arg.c_args, vec!["uint16_t x".to_string()]);
    let ret = convert_builtin_return(&ReturnShape::Type(spaced)).unwrap();
    assert_eq!(ret.c_type, "uint16_t");
}
