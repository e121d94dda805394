use glu_demangle::{demangle, demangle_symbol, DemangleError, GlobalKind, GluSymbol, GluType,
    Parser};

#[test]
fn void_function() {
    let result = demangle_symbol("4main4testFvR").unwrap();
    match result {
        GluSymbol::Function(func) => {
            assert_eq!(func.mod_path, vec!["main".to_string()]);
            assert_eq!(func.name, "test");
            if let GluType::Function { return_type, params } = &func.func_type {
                assert_eq!(**return_type, GluType::Void);
                assert_eq!(params.len(), 0);
            } else {
                panic!("expected function type");
            }
        },
        _ => panic!("expected function"),
    }
}

#[test]
fn global_storage() {
    let result = demangle_symbol("4main3fooGsi32").unwrap();
    match result {
        GluSymbol::Global(global) => {
            assert_eq!(global.mod_path, vec!["main".to_string()]);
            assert_eq!(global.name, "foo");
            assert_eq!(global.kind, GlobalKind::Storage);
            assert_eq!(global.var_type, GluType::Int { signed: true, width: 32 });
        },
        _ => panic!("expected global"),
    }
}

#[test]
fn two_int_params() {
    let func = demangle("4math3addFi32i32i32R").unwrap();
    assert_eq!(func.mod_path, vec!["math".to_string()]);
    assert_eq!(func.name, "add");
    if let GluType::Function { return_type, params } = &func.func_type {
        assert_eq!(**return_type, GluType::Int { signed: true, width: 32 });
        assert_eq!(
            params,
            &vec![
                GluType::Int { signed: true, width: 32 },
                GluType::Int { signed: true, width: 32 }
            ]
        );
    } else {
        panic!("expected function type");
    }
}

#[test]
fn empty_input_has_no_name() {
    assert_eq!(demangle_symbol(""), Err(DemangleError::NoSymbolNameFound));
}

#[test]
fn unrecognized_prefix_has_no_name() {
    assert_eq!(
        demangle_symbol("INVALID$4main4testFvR"),
        Err(DemangleError::NoSymbolNameFound)
    );
}

#[test]
fn pointer_return_and_param() {
    let func = demangle("4test3fooFPi32Pi32R").unwrap();
    assert_eq!(func.mod_path, vec!["test".to_string()]);
    assert_eq!(func.name, "foo");
    if let GluType::Function { return_type, params } = &func.func_type {
        assert_eq!(
            **return_type,
            GluType::Pointer(Box::new(GluType::Int { signed: true, width: 32 }))
        );
        assert_eq!(
            params,
            &vec![GluType::Pointer(Box::new(GluType::Int { signed: true, width: 32 }))]
        );
    } else {
        panic!("expected function type");
    }
}

#[test]
fn bare_marker_is_stripped() {
    let func = demangle("$GLU$4main4testFvR").unwrap();
    assert_eq!(func.mod_path, vec!["main".to_string()]);
    assert_eq!(func.name, "test");
}

#[test]
fn underscored_marker_is_stripped() {
    let func = demangle("_$GLU$4main4testFvR").unwrap();
    assert_eq!(func.mod_path, vec!["main".to_string()]);
    assert_eq!(func.name, "test");
}

#[test]
fn nested_module_path() {
    let func = demangle("$GLU$3std2io5printFvR").unwrap();
    assert_eq!(func.mod_path, vec!["std".to_string(), "io".to_string()]);
    assert_eq!(func.name, "print");
}

#[test]
fn trailing_characters_are_ignored() {
    let func = demangle("4main4testFvRtrailing").unwrap();
    assert_eq!(func.name, "test");
}

#[test]
fn parse_string_consumes_exactly() {
    let mut parser = Parser::new("4test");
    let result = parser.parse_string().unwrap();
    assert_eq!(result, "test");
    assert_eq!(parser.pos, 5);
}

#[test]
fn parse_number_stops_at_non_digit() {
    let mut parser = Parser::new("123abc");
    let result = parser.parse_number().unwrap();
    assert_eq!(result, 123);
    assert_eq!(parser.pos, 3);
}

#[test]
fn parse_scalar_types() {
    assert_eq!(Parser::new("v").parse_type().unwrap(), GluType::Void);
    assert_eq!(Parser::new("b").parse_type().unwrap(), GluType::Bool);
    assert_eq!(Parser::new("c").parse_type().unwrap(), GluType::Char);
    assert_eq!(Parser::new("N").parse_type().unwrap(), GluType::Null);
    assert_eq!(Parser::new("D").parse_type().unwrap(), GluType::DynamicArray);
    assert_eq!(
        Parser::new("i32").parse_type().unwrap(),
        GluType::Int { signed: true, width: 32 }
    );
    assert_eq!(
        Parser::new("u64").parse_type().unwrap(),
        GluType::Int { signed: false, width: 64 }
    );
    assert_eq!(Parser::new("f64").parse_type().unwrap(), GluType::Float { width: 64 });
}

#[test]
fn parse_function_type_with_params() {
    let result = Parser::new("Fi32i32vR").parse_type().unwrap();
    if let GluType::Function { return_type, params } = result {
        assert_eq!(*return_type, GluType::Int { signed: true, width: 32 });
        assert_eq!(params.len(), 2);
        assert_eq!(params[0], GluType::Int { signed: true, width: 32 });
        assert_eq!(params[1], GluType::Void);
    } else {
        panic!("expected function type");
    }
}

#[test]
fn parse_static_array() {
    assert_eq!(
        Parser::new("A10i32").parse_type().unwrap(),
        GluType::StaticArray {
            size: 10,
            element_type: Box::new(GluType::Int { signed: true, width: 32 })
        }
    );
}

#[test]
fn parse_named_aggregates() {
    assert_eq!(
        Parser::new("T4main5PointS").parse_type().unwrap(),
        GluType::Struct { mod_path: vec!["main".to_string()], name: "Point".to_string() }
    );
    assert_eq!(
        Parser::new("T5ColorE").parse_type().unwrap(),
        GluType::Enum { mod_path: vec![], name: "Color".to_string() }
    );
}

#[test]
fn truncated_string_body_fails() {
    let mut parser = Parser::new("9ab");
    assert_eq!(parser.parse_string(), Err(DemangleError::StringLengthExceedsInput));
}

#[test]
fn missing_number_fails() {
    let mut parser = Parser::new("abc");
    assert_eq!(parser.parse_number(), Err(DemangleError::ExpectedNumber));
}

#[test]
fn huge_number_fails() {
    let mut parser = Parser::new("99999999999999999999999999");
    assert_eq!(parser.parse_number(), Err(DemangleError::NumberTooLarge));
}

#[test]
fn unknown_type_code_fails() {
    assert_eq!(
        Parser::new("x").parse_type(),
        Err(DemangleError::UnknownTypeCode('x'))
    );
}

#[test]
fn bad_aggregate_kind_fails() {
    assert_eq!(
        Parser::new("T3fooX").parse_type(),
        Err(DemangleError::InvalidTypeKind('X'))
    );
}

#[test]
fn bad_global_kind_fails() {
    assert_eq!(
        demangle_symbol("4main3fooGzi32"),
        Err(DemangleError::InvalidGlobalKind('z'))
    );
}

#[test]
fn bad_discriminator_fails() {
    assert_eq!(
        demangle_symbol("4main3fooXvR"),
        Err(DemangleError::ExpectedFunctionOrGlobalDiscriminator('X'))
    );
}

#[test]
fn global_rejected_where_function_required() {
    assert_eq!(
        demangle("4main3fooGsi32"),
        Err(DemangleError::ExpectedFunctionGotGlobal)
    );
}

#[test]
fn input_exhausted_mid_type_fails() {
    assert_eq!(
        demangle_symbol("4main4testFv"),
        Err(DemangleError::UnexpectedEndOfInput)
    );
    assert_eq!(
        Parser::new("P").parse_type(),
        Err(DemangleError::UnexpectedEndOfInput)
    );
}

#[test]
fn missing_terminator_fails() {
    assert_eq!(
        demangle_symbol("4main4testFvi32"),
        Err(DemangleError::UnexpectedEndOfInput)
    );
}

#[test]
fn width_digits_required() {
    assert_eq!(Parser::new("iR").parse_type(), Err(DemangleError::ExpectedNumber));
}

#[test]
fn width_wraps_at_thirty_two_bits() {
    assert_eq!(
        Parser::new("i4294967296").parse_type().unwrap(),
        GluType::Int { signed: true, width: 0 }
    );
    assert_eq!(
        Parser::new("u4294967297").parse_type().unwrap(),
        GluType::Int { signed: false, width: 1 }
    );
}

#[test]
fn empty_name_component() {
    let result = demangle_symbol("0FvR").unwrap();
    match result {
        GluSymbol::Function(func) => {
            assert_eq!(func.mod_path, Vec::<String>::new());
            assert_eq!(func.name, "");
        },
        _ => panic!("expected function"),
    }
}

#[test]
fn all_parseable_global_kinds() {
    let cases = [
        ("4main1gGsv", GlobalKind::Storage),
        ("4main1gGav", GlobalKind::Accessor),
        ("4main1gGiv", GlobalKind::Init),
        ("4main1gGbv", GlobalKind::SetBit),
    ];
    for (input, kind) in cases {
        match demangle_symbol(input).unwrap() {
            GluSymbol::Global(global) => assert_eq!(global.kind, kind),
            _ => panic!("expected global"),
        }
    }
}

#[test]
fn nested_type_structure() {
    let result = Parser::new("A2Fi8i8RR").parse_type().unwrap();
    assert_eq!(
        result,
        GluType::StaticArray {
            size: 2,
            element_type: Box::new(GluType::Function {
                return_type: Box::new(GluType::Int { signed: true, width: 8 }),
                params: vec![GluType::Int { signed: true, width: 8 }],
            }),
        }
    );
}

#[test]
fn aggregate_with_no_components_keeps_empty_name() {
    assert_eq!(
        Parser::new("TS").parse_type().unwrap(),
        GluType::Struct { mod_path: vec![], name: String::new() }
    );
}

#[test]
fn marker_alone_leaves_nothing_to_decode() {
    assert_eq!(demangle_symbol("_$GLU$"), Err(DemangleError::NoSymbolNameFound));
}
