use glu_demangle::formatter::{format_global_name_only, format_global_signature,
    format_global_type_only, format_global_verbose, format_name_only, format_qualified_name,
    format_signature, format_type, format_type_only, format_type_verbose, format_verbose};
use glu_demangle::{demangle, demangle_symbol, format_function, format_global, format_symbol,
    DemangleError, DisplayFormat, GlobalKind, GluFunction, GluGlobal, GluSymbol, GluType};

#[test]
fn signature_render_of_void_function() {
    let sym = demangle_symbol("4main4testFvR").unwrap();
    assert_eq!(
        format_symbol(&sym, DisplayFormat::Signature, false),
        "main::test() -> void"
    );
    assert_eq!(format_symbol(&sym, DisplayFormat::NameOnly, false), "main::test");
}

#[test]
fn signature_render_of_global() {
    let sym = demangle_symbol("4main3fooGsi32").unwrap();
    assert_eq!(
        format_symbol(&sym, DisplayFormat::Signature, false),
        "main::foo [global storage]: i32"
    );
}

#[test]
fn signature_render_of_two_param_function() {
    let sym = demangle_symbol("4math3addFi32i32i32R").unwrap();
    assert_eq!(
        format_symbol(&sym, DisplayFormat::Signature, false),
        "math::add(i32, i32) -> i32"
    );
}

#[test]
fn compact_render_of_function() {
    let sym = demangle_symbol("4math3addFi32i32i32R").unwrap();
    assert_eq!(
        format_symbol(&sym, DisplayFormat::Compact, false),
        "math::add: (i32, i32) -> i32"
    );
}

#[test]
fn compact_render_of_global_matches_signature() {
    let sym = demangle_symbol("4main3fooGsi32").unwrap();
    assert_eq!(
        format_symbol(&sym, DisplayFormat::Compact, false),
        format_symbol(&sym, DisplayFormat::Signature, false)
    );
}

#[test]
fn verbose_render_of_function() {
    let func = demangle("4math3addFi32i32i32R").unwrap();
    assert_eq!(
        format_verbose(&func, false),
        "Function math::add:\n  Type: function taking (signed integer (32 bits), signed integer (32 bits)) returning signed integer (32 bits)"
    );
}

#[test]
fn verbose_render_of_global() {
    let sym = demangle_symbol("4main3fooGai8").unwrap();
    match &sym {
        GluSymbol::Global(global) => {
            assert_eq!(
                format_global_verbose(global, false),
                "Global variable main::foo:\n  Kind: accessor function\n  Type: signed integer (8 bits)"
            );
        },
        _ => panic!("expected global"),
    }
}

#[test]
fn type_only_render() {
    let func = demangle("4math3addFi32i32i32R").unwrap();
    assert_eq!(format_type_only(&func, false), "(i32, i32) -> i32");
    let sym = demangle_symbol("4main3fooGsi32").unwrap();
    match &sym {
        GluSymbol::Global(global) => {
            assert_eq!(format_global_type_only(global, false), "i32");
        },
        _ => panic!("expected global"),
    }
}

#[test]
fn compact_type_forms() {
    assert_eq!(format_type(&GluType::Void, false), "void");
    assert_eq!(format_type(&GluType::Bool, false), "bool");
    assert_eq!(format_type(&GluType::Char, false), "char");
    assert_eq!(format_type(&GluType::Null, false), "null");
    assert_eq!(format_type(&GluType::DynamicArray, false), "[]");
    assert_eq!(format_type(&GluType::Int { signed: true, width: 32 }, false), "i32");
    assert_eq!(format_type(&GluType::Int { signed: false, width: 64 }, false), "u64");
    assert_eq!(format_type(&GluType::Float { width: 32 }, false), "f32");
    let ptr = GluType::Pointer(Box::new(GluType::Int { signed: true, width: 32 }));
    assert_eq!(format_type(&ptr, false), "*i32");
    let arr = GluType::StaticArray {
        size: 10,
        element_type: Box::new(GluType::Int { signed: true, width: 32 }),
    };
    assert_eq!(format_type(&arr, false), "i32[10]");
}

#[test]
fn verbose_type_forms() {
    assert_eq!(format_type_verbose(&GluType::Bool, false), "boolean");
    assert_eq!(format_type_verbose(&GluType::Char, false), "character");
    assert_eq!(format_type_verbose(&GluType::Null, false), "null type");
    assert_eq!(format_type_verbose(&GluType::DynamicArray, false), "dynamic array");
    assert_eq!(
        format_type_verbose(&GluType::Int { signed: true, width: 32 }, false),
        "signed integer (32 bits)"
    );
    assert_eq!(
        format_type_verbose(&GluType::Int { signed: false, width: 64 }, false),
        "unsigned integer (64 bits)"
    );
    assert_eq!(
        format_type_verbose(&GluType::Float { width: 64 }, false),
        "floating point (64 bits)"
    );
    let ptr = GluType::Pointer(Box::new(GluType::Bool));
    assert_eq!(format_type_verbose(&ptr, false), "pointer to boolean");
    let arr = GluType::StaticArray { size: 3, element_type: Box::new(GluType::Char) };
    assert_eq!(format_type_verbose(&arr, false), "array of 3 character");
}

#[test]
fn aggregate_renderings() {
    let ty = GluType::Struct {
        mod_path: vec!["geo".to_string()],
        name: "Point".to_string(),
    };
    assert_eq!(format_type(&ty, false), "geo::Point");
    assert_eq!(format_type(&ty, true), "Point");
    assert_eq!(format_type_verbose(&ty, false), "struct geo::Point");
    assert_eq!(format_type_verbose(&ty, true), "struct Point");
    let en = GluType::Enum { mod_path: vec![], name: "Color".to_string() };
    assert_eq!(format_type_verbose(&en, true), "enum Color");
}

#[test]
fn strip_module_removes_qualification_everywhere() {
    let sym = demangle_symbol("4main4testFvR").unwrap();
    assert_eq!(format_symbol(&sym, DisplayFormat::Signature, true), "test() -> void");
    assert_eq!(format_symbol(&sym, DisplayFormat::Compact, true), "test: () -> void");
    assert_eq!(format_symbol(&sym, DisplayFormat::NameOnly, true), "test");
    assert_eq!(
        format_symbol(&sym, DisplayFormat::Verbose, true),
        "Function test:\n  Type: function taking () returning void"
    );
    let glob = demangle_symbol("4main3fooGsi32").unwrap();
    assert_eq!(
        format_symbol(&glob, DisplayFormat::Signature, true),
        "foo [global storage]: i32"
    );
    assert_eq!(format_symbol(&glob, DisplayFormat::NameOnly, true), "foo");
    // A parameter's aggregate type loses its qualification too.
    let nested = demangle_symbol("1m1fFvT1a1bSR").unwrap();
    assert_eq!(format_symbol(&nested, DisplayFormat::Signature, false), "m::f(a::b) -> void");
    assert_eq!(format_symbol(&nested, DisplayFormat::Signature, true), "f(b) -> void");
}

#[test]
fn qualified_name_with_stripping() {
    let func = GluFunction {
        mod_path: vec!["test".to_string(), "module".to_string()],
        name: "foo".to_string(),
        func_type: GluType::Function { return_type: Box::new(GluType::Void), params: vec![] },
    };
    assert_eq!(format_name_only(&func, false), "test::module::foo");
    assert_eq!(format_name_only(&func, true), "foo");
}

#[test]
fn signature_of_hand_built_function() {
    let func = GluFunction {
        mod_path: vec!["test".to_string()],
        name: "foo".to_string(),
        func_type: GluType::Function {
            return_type: Box::new(GluType::Void),
            params: vec![GluType::Int { signed: true, width: 32 }],
        },
    };
    assert_eq!(format_signature(&func, false), "test::foo(i32) -> void");
    assert_eq!(format_signature(&func, true), "foo(i32) -> void");
}

#[test]
fn dispatch_covers_all_styles() {
    let func = demangle("4math3addFi32i32i32R").unwrap();
    assert_eq!(
        format_function(&func, DisplayFormat::Signature, false),
        format_signature(&func, false)
    );
    assert_eq!(
        format_function(&func, DisplayFormat::NameOnly, false),
        format_name_only(&func, false)
    );
    assert_eq!(
        format_function(&func, DisplayFormat::TypeOnly, false),
        format_type_only(&func, false)
    );
    assert_eq!(
        format_function(&func, DisplayFormat::Verbose, false),
        format_verbose(&func, false)
    );
    let sym = demangle_symbol("4main3fooGsi32").unwrap();
    match &sym {
        GluSymbol::Global(global) => {
            assert_eq!(
                format_global(global, DisplayFormat::Signature, false),
                format_global_signature(global, false)
            );
            assert_eq!(
                format_global(global, DisplayFormat::NameOnly, false),
                format_global_name_only(global, false)
            );
        },
        _ => panic!("expected global"),
    }
}

#[test]
fn qualified_name_helper() {
    let path = vec!["a".to_string(), "b".to_string()];
    assert_eq!(format_qualified_name(&path, "c", false), "a::b::c");
    assert_eq!(format_qualified_name(&path, "c", true), "c");
    let empty: Vec<String> = vec![];
    assert_eq!(format_qualified_name(&empty, "c", false), "::c");
}

#[test]
fn display_format_codes() {
    assert_eq!(DisplayFormat::from_str("signature"), Ok(DisplayFormat::Signature));
    assert_eq!(DisplayFormat::from_str("sig"), Ok(DisplayFormat::Signature));
    assert_eq!(DisplayFormat::from_str("s"), Ok(DisplayFormat::Signature));
    assert_eq!(DisplayFormat::from_str("compact"), Ok(DisplayFormat::Compact));
    assert_eq!(DisplayFormat::from_str("c"), Ok(DisplayFormat::Compact));
    assert_eq!(DisplayFormat::from_str("verbose"), Ok(DisplayFormat::Verbose));
    assert_eq!(DisplayFormat::from_str("v"), Ok(DisplayFormat::Verbose));
    assert_eq!(DisplayFormat::from_str("name"), Ok(DisplayFormat::NameOnly));
    assert_eq!(DisplayFormat::from_str("n"), Ok(DisplayFormat::NameOnly));
    assert_eq!(DisplayFormat::from_str("name-only"), Ok(DisplayFormat::NameOnly));
    assert_eq!(DisplayFormat::from_str("type"), Ok(DisplayFormat::TypeOnly));
    assert_eq!(DisplayFormat::from_str("t"), Ok(DisplayFormat::TypeOnly));
    assert_eq!(DisplayFormat::from_str("type-only"), Ok(DisplayFormat::TypeOnly));
}

#[test]
fn display_format_is_case_insensitive() {
    assert_eq!(DisplayFormat::from_str("SIGNATURE"), Ok(DisplayFormat::Signature));
    assert_eq!(DisplayFormat::from_str("Sig"), Ok(DisplayFormat::Signature));
    assert_eq!(DisplayFormat::from_str("V"), Ok(DisplayFormat::Verbose));
    assert_eq!(DisplayFormat::from_str("NAME-Only"), Ok(DisplayFormat::NameOnly));
}

#[test]
fn display_format_rejects_unknown_codes() {
    assert_eq!(
        DisplayFormat::from_str("bogus"),
        Err(DemangleError::InvalidDisplayFormat("bogus".to_string()))
    );
    assert_eq!(
        DisplayFormat::from_str(""),
        Err(DemangleError::InvalidDisplayFormat("".to_string()))
    );
}

#[test]
fn rendering_is_deterministic() {
    let a = {
        let sym = demangle_symbol("4math3addFi32i32i32R").unwrap();
        format_symbol(&sym, DisplayFormat::Verbose, false)
    };
    let b = {
        let sym = demangle_symbol("4math3addFi32i32i32R").unwrap();
        format_symbol(&sym, DisplayFormat::Verbose, false)
    };
    assert_eq!(a, b);
}

#[test]
fn kind_words_in_both_styles() {
    let kinds = [
        (GlobalKind::Storage, "storage", "storage variable"),
        (GlobalKind::Accessor, "accessor", "accessor function"),
        (GlobalKind::Constructor, "constructor", "constructor"),
        (GlobalKind::Destructor, "destructor", "destructor"),
        (GlobalKind::Init, "init", "initialization function"),
        (GlobalKind::SetBit, "setbit", "set bit"),
    ];
    for (kind, word, phrase) in kinds {
        let global = GluGlobal {
            mod_path: vec!["m".to_string()],
            name: "g".to_string(),
            kind,
            var_type: GluType::Bool,
        };
        assert_eq!(
            format_global_signature(&global, false),
            format!("m::g [global {}]: bool", word)
        );
        assert_eq!(
            format_global_verbose(&global, false),
            format!("Global variable m::g:\n  Kind: {}\n  Type: boolean", phrase)
        );
    }
}
