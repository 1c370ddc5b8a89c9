use hackc_core::emit_property::{
    build_attribute, compile_expr, find_attribute, fold_constant, from_ast, is_known,
    is_reserved, Bop, Diagnostic, Expr, PropertyDecl, Severity, Uop, UserAttribute,
};
use hackc_core::emit_unit::{emit_unit, Declaration};
use hackc_core::flags::{HhasPropertyFlags, PropertyFlag};
use hackc_core::hhas_property::{
    DocComment, HhasAttribute, HhasProperty, Info, InitializerKind, InstrSeq, Instruct,
    TypedValue, Visibility,
};
use hackc_core::namespace_env::{AliasKind, Env};
use hackc_core::syntax::Span;

fn env() -> Env {
    Env::empty(Vec::new(), true, false)
}

fn decl(name: &str) -> PropertyDecl {
    PropertyDecl {
        name: name.to_string(),
        visibility: Visibility::Public,
        is_static: false,
        is_abstract: false,
        is_readonly: false,
        user_attributes: Vec::new(),
        type_hint: None,
        initial_value: None,
        doc_comment: None,
    }
}

fn attribute(name: &str, start: usize) -> UserAttribute {
    UserAttribute {
        name: name.to_string(),
        arguments: Vec::new(),
        span: Span { start, end: start + name.len() },
    }
}

fn call(name: &str, args: Vec<Expr>) -> Expr {
    Expr::Call { name: name.to_string(), args }
}

fn unop(op: Uop, operand: Expr) -> Expr {
    Expr::Unop(op, Box::new(operand))
}

fn binop(op: Bop, lhs: Expr, rhs: Expr) -> Expr {
    Expr::Binop(op, Box::new(lhs), Box::new(rhs))
}

fn property(flags: u16, visibility: Visibility) -> HhasProperty {
    HhasProperty {
        name: "p".to_string(),
        flags: HhasPropertyFlags::from_bits(flags).unwrap(),
        attributes: Vec::new(),
        visibility,
        initial_value: None,
        initializer_instrs: None,
        type_info: Info { user_type: None, type_constraint: None },
        doc_comment: None,
    }
}

#[test]
fn visibility_getters_are_exclusive() {
    let p = property(0, Visibility::Private);
    assert!(p.is_private() && !p.is_protected() && !p.is_public());
    let p = property(0, Visibility::Protected);
    assert!(!p.is_private() && p.is_protected() && !p.is_public());
    let p = property(0, Visibility::Public);
    assert!(!p.is_private() && !p.is_protected() && p.is_public());
}

#[test]
fn each_flag_getter_reads_its_own_bit() {
    let getters: [(u16, fn(&HhasProperty) -> bool); 10] = [
        (1 << 1, HhasProperty::is_static),
        (1 << 2, HhasProperty::is_deep_init),
        (1 << 3, HhasProperty::is_const),
        (1 << 4, HhasProperty::is_lsb),
        (1 << 5, HhasProperty::is_no_bad_redeclare),
        (1 << 6, HhasProperty::has_system_initial),
        (1 << 7, HhasProperty::no_implicit_null),
        (1 << 8, HhasProperty::initial_satisfies_tc),
        (1 << 9, HhasProperty::is_late_init),
        (1 << 10, HhasProperty::is_readonly),
    ];
    for (bit, getter) in getters {
        assert!(getter(&property(bit, Visibility::Public)));
        assert!(!getter(&property(0x7ff & !bit, Visibility::Public)));
        assert!(!getter(&property(0, Visibility::Public)));
        assert!(getter(&property(0x7ff, Visibility::Public)));
    }
    assert!(property(1, Visibility::Public).has_flag(PropertyFlag::IsAbstract));
    assert!(!property(0x7fe, Visibility::Public).has_flag(PropertyFlag::IsAbstract));
}

#[test]
fn constant_initial_value_leaves_no_instructions() {
    // public static int $x = 1;
    let mut d = decl("x");
    d.is_static = true;
    d.type_hint = Some("int".to_string());
    d.initial_value = Some(Expr::Int(1));
    let (p, diagnostics) = from_ast(&env(), &d);
    assert_eq!(p.initial_value, Some(TypedValue::Int(1)));
    assert_eq!(p.initializer_instrs, None);
    assert_eq!(p.initializer_kind(), InitializerKind::Constant);
    assert!(p.is_static() && p.is_public());
    assert!(!p.has_system_initial() && !p.is_deep_init());
    assert_eq!(p.flags.bits(), 1 << 1);
    assert_eq!(p.name, "x");
    assert_eq!(
        p.type_info,
        Info { user_type: Some("int".to_string()), type_constraint: Some("int".to_string()) }
    );
    assert!(diagnostics.is_empty());
}

#[test]
fn non_constant_initial_value_is_compiled() {
    // public int $y = someFunc();
    let mut d = decl("y");
    d.type_hint = Some("int".to_string());
    d.initial_value = Some(call("someFunc", Vec::new()));
    let (p, diagnostics) = from_ast(&env(), &d);
    assert_eq!(p.initial_value, None);
    assert_eq!(
        p.initializer_instrs,
        Some(InstrSeq {
            instrs: vec![
                Instruct::FCallFuncD { num_args: 0, name: "someFunc".to_string() },
                Instruct::InitProp { name: "y".to_string(), is_static: false },
            ]
        })
    );
    assert_eq!(p.initializer_kind(), InitializerKind::Instructions);
    assert!(p.is_deep_init());
    assert!(!p.has_system_initial() && !p.is_static());
    assert_eq!(p.flags.bits(), 1 << 2);
    assert!(diagnostics.is_empty());
}

#[test]
fn static_compiled_initializer_is_not_deep_init() {
    let mut d = decl("z");
    d.is_static = true;
    d.initial_value = Some(call("f", Vec::new()));
    let (p, _) = from_ast(&env(), &d);
    assert!(!p.is_deep_init());
    assert_eq!(
        p.initializer_instrs.unwrap().instrs[1],
        Instruct::InitProp { name: "z".to_string(), is_static: true }
    );
}

#[test]
fn no_initializer_leaves_both_empty() {
    let (p, _) = from_ast(&env(), &decl("n"));
    assert_eq!(p.initial_value, None);
    assert_eq!(p.initializer_instrs, None);
    assert_eq!(p.initializer_kind(), InitializerKind::Absent);
    assert!(p.has_system_initial());
    assert_eq!(p.flags.bits(), 1 << 6);
    assert_eq!(p.type_info, Info { user_type: None, type_constraint: None });
    assert_eq!(p.doc_comment, None);

    let mut late = decl("n");
    late.user_attributes.push(attribute("__LateInit", 0));
    let (p, diagnostics) = from_ast(&env(), &late);
    assert!(p.is_late_init());
    assert!(!p.has_system_initial());
    assert_eq!(p.flags.bits(), 1 << 9);
    assert!(diagnostics.is_empty());
}

#[test]
fn modifiers_and_attributes_set_their_flags() {
    let mut d = decl("m");
    d.visibility = Visibility::Protected;
    d.is_abstract = true;
    d.is_readonly = true;
    d.user_attributes = vec![attribute("__Const", 0), attribute("__LSB", 10)];
    d.initial_value = Some(Expr::Null);
    d.doc_comment = Some("/** m */".to_string());
    let (p, diagnostics) = from_ast(&env(), &d);
    assert!(p.has_flag(PropertyFlag::IsAbstract));
    assert!(p.is_readonly() && p.is_const() && p.is_lsb());
    assert!(!p.is_static() && !p.is_late_init() && !p.is_deep_init() && !p.has_system_initial());
    assert!(!p.is_no_bad_redeclare() && !p.no_implicit_null() && !p.initial_satisfies_tc());
    assert_eq!(p.flags.bits(), 1 | 1 << 3 | 1 << 4 | 1 << 10);
    assert!(p.is_protected());
    assert_eq!(p.initial_value, Some(TypedValue::Null));
    assert_eq!(p.doc_comment, Some(DocComment("/** m */".to_string())));
    assert_eq!(
        p.attributes,
        vec![
            HhasAttribute { name: "__Const".to_string(), arguments: Vec::new() },
            HhasAttribute { name: "__LSB".to_string(), arguments: Vec::new() },
        ]
    );
    assert!(diagnostics.is_empty());
}

#[test]
fn unknown_attribute_is_recorded_and_remarked_on() {
    let mut d = decl("u");
    d.user_attributes = vec![
        attribute("__Const", 2),
        attribute("__Bogus", 12),
        UserAttribute {
            name: "Lib\\Tag".to_string(),
            arguments: vec![TypedValue::Int(3), TypedValue::String("s".to_string())],
            span: Span { start: 22, end: 29 },
        },
        attribute("__", 40),
    ];
    d.initial_value = Some(Expr::Bool(true));
    let env = env().with_alias(AliasKind::Class, "Lib\\Tag", "Vendor\\Lib\\Tag");
    let (p, diagnostics) = from_ast(&env, &d);
    assert_eq!(
        p.attributes,
        vec![
            HhasAttribute { name: "__Const".to_string(), arguments: Vec::new() },
            HhasAttribute { name: "__Bogus".to_string(), arguments: Vec::new() },
            HhasAttribute {
                name: "Vendor\\Lib\\Tag".to_string(),
                arguments: vec![TypedValue::Int(3), TypedValue::String("s".to_string())],
            },
            HhasAttribute { name: "__".to_string(), arguments: Vec::new() },
        ]
    );
    assert_eq!(
        diagnostics,
        vec![
            Diagnostic {
                span: Span { start: 12, end: 19 },
                severity: Severity::Warning,
                message: "unknown attribute __Bogus".to_string(),
            },
            Diagnostic {
                span: Span { start: 40, end: 42 },
                severity: Severity::Warning,
                message: "unknown attribute __".to_string(),
            },
        ]
    );
    assert_eq!(p.initial_value, Some(TypedValue::Bool(true)));
    assert!(p.is_const());
}

#[test]
fn build_attribute_resolves_class_names_only() {
    let env = env().with_namespace(Some("N"));
    let (a, d) = build_attribute(&env, &attribute("Tag", 0));
    assert_eq!(a.name, "N\\Tag");
    assert!(d.is_empty());
    let (a, d) = build_attribute(&env, &attribute("__LateInit", 0));
    assert_eq!(a.name, "__LateInit");
    assert!(d.is_empty());
    let (a, d) = build_attribute(&env, &attribute("_x", 0));
    assert_eq!(a.name, "N\\_x");
    assert!(d.is_empty());
    let (a, d) = build_attribute(&env, &attribute("__lateinit", 5));
    assert_eq!(a.name, "__lateinit");
    assert_eq!(d.len(), 1);
    assert_eq!(d[0].span, Span { start: 5, end: 15 });
}

#[test]
fn fold_constant_knows_literals_only() {
    assert_eq!(fold_constant(&Expr::Null), Some(TypedValue::Null));
    assert_eq!(fold_constant(&Expr::Bool(false)), Some(TypedValue::Bool(false)));
    assert_eq!(fold_constant(&Expr::Int(-9)), Some(TypedValue::Int(-9)));
    assert_eq!(
        fold_constant(&Expr::String("a\\b".to_string())),
        Some(TypedValue::String("a\\b".to_string()))
    );
    assert_eq!(fold_constant(&call("f", vec![Expr::Int(1)])), None);
}

#[test]
fn compile_expr_evaluates_arguments_left_to_right() {
    let env = env().with_namespace(Some("N")).with_alias(AliasKind::Function, "g", "Lib\\g");
    let expr = call(
        "f",
        vec![
            Expr::Int(1),
            call("g", vec![Expr::String("s".to_string()), Expr::Null]),
            Expr::Bool(true),
            Expr::Bool(false),
        ],
    );
    let mut out = vec![Instruct::Null];
    compile_expr(&env, &expr, &mut out);
    assert_eq!(
        out,
        vec![
            Instruct::Null,
            Instruct::Int(1),
            Instruct::String("s".to_string()),
            Instruct::Null,
            Instruct::FCallFuncD { num_args: 2, name: "Lib\\g".to_string() },
            Instruct::True,
            Instruct::False,
            Instruct::FCallFuncD { num_args: 4, name: "N\\f".to_string() },
        ]
    );
}

#[test]
fn type_hint_is_resolved_as_a_class() {
    let mut d = decl("t");
    d.type_hint = Some("C".to_string());
    let env = env().with_namespace(Some("A")).with_alias(AliasKind::Class, "C", "B");
    let (p, _) = from_ast(&env, &d);
    assert_eq!(
        p.type_info,
        Info { user_type: Some("C".to_string()), type_constraint: Some("B".to_string()) }
    );
}

#[test]
fn malformed_statement_does_not_stop_the_file() {
    // namespace A; use B as C; <junk> public C $p; namespace A\D; public C $q = f();
    let mut p = decl("p");
    p.type_hint = Some("C".to_string());
    let mut q = decl("q");
    q.type_hint = Some("C".to_string());
    q.initial_value = Some(call("f", Vec::new()));
    let decls = vec![
        Declaration::Namespace { name: Some("A".to_string()) },
        Declaration::Property(decl("early")),
        Declaration::Use { kind: AliasKind::Class, alias: "C".to_string(), canonical: "B".to_string() },
        Declaration::Malformed { span: Span { start: 30, end: 34 } },
        Declaration::Property(p),
        Declaration::Namespace { name: Some("A\\D".to_string()) },
        Declaration::Property(q),
    ];
    let unit = emit_unit(env(), &decls);
    assert_eq!(
        unit.diagnostics,
        vec![Diagnostic {
            span: Span { start: 30, end: 34 },
            severity: Severity::Error,
            message: "syntax error".to_string(),
        }]
    );
    assert_eq!(unit.properties.len(), 3);
    assert_eq!(unit.properties[0].name, "early");
    assert_eq!(unit.properties[1].name, "p");
    assert_eq!(unit.properties[1].type_info.type_constraint, Some("B".to_string()));
    assert_eq!(unit.properties[2].name, "q");
    assert_eq!(unit.properties[2].type_info.type_constraint, Some("B".to_string()));
    assert_eq!(
        unit.properties[2].initializer_instrs.as_ref().unwrap().instrs[0],
        Instruct::FCallFuncD { num_args: 0, name: "A\\D\\f".to_string() }
    );
    assert_eq!(unit.env.name, Some("A\\D".to_string()));
    assert_eq!(unit.env.resolve(AliasKind::Class, "C"), "B");

    // without the malformed statement the entities are the same
    let mut p = decl("p");
    p.type_hint = Some("C".to_string());
    let without = vec![
        Declaration::Namespace { name: Some("A".to_string()) },
        Declaration::Property(decl("early")),
        Declaration::Use { kind: AliasKind::Class, alias: "C".to_string(), canonical: "B".to_string() },
        Declaration::Property(p),
    ];
    let clean = emit_unit(env(), &without);
    assert!(clean.diagnostics.is_empty());
    assert_eq!(clean.properties.len(), 2);
    assert_eq!(clean.properties[1].type_info, unit.properties[1].type_info);
}

#[test]
fn earlier_declaration_does_not_see_later_alias() {
    let mut before = decl("before");
    before.type_hint = Some("C".to_string());
    let mut after = decl("after");
    after.type_hint = Some("C".to_string());
    let decls = vec![
        Declaration::Property(before),
        Declaration::Use { kind: AliasKind::Class, alias: "C".to_string(), canonical: "B".to_string() },
        Declaration::Property(after),
        Declaration::Namespace { name: None },
    ];
    let unit = emit_unit(env(), &decls);
    assert_eq!(unit.properties[0].type_info.type_constraint, Some("C".to_string()));
    assert_eq!(unit.properties[1].type_info.type_constraint, Some("B".to_string()));
    assert_eq!(unit.env.name, None);
}

#[test]
fn empty_file_gives_empty_unit() {
    let unit = emit_unit(env(), &Vec::new());
    assert!(unit.properties.is_empty());
    assert!(unit.diagnostics.is_empty());
    assert!(unit.env.is_codegen);
}

#[test]
fn fold_constant_applies_operators() {
    assert_eq!(fold_constant(&unop(Uop::Neg, Expr::Int(1))), Some(TypedValue::Int(-1)));
    assert_eq!(fold_constant(&unop(Uop::Neg, Expr::Int(i64::MAX))), Some(TypedValue::Int(i64::MIN + 1)));
    assert_eq!(fold_constant(&unop(Uop::Not, Expr::Bool(true))), Some(TypedValue::Bool(false)));
    assert_eq!(
        fold_constant(&binop(
            Bop::Add,
            Expr::Int(2),
            binop(Bop::Mul, Expr::Int(3), Expr::Int(4))
        )),
        Some(TypedValue::Int(14))
    );
    assert_eq!(
        fold_constant(&binop(Bop::Sub, Expr::Int(7), Expr::Int(10))),
        Some(TypedValue::Int(-3))
    );
    assert_eq!(
        fold_constant(&binop(Bop::Sub, Expr::Int(i64::MIN), Expr::Int(0))),
        Some(TypedValue::Int(i64::MIN))
    );
}

#[test]
fn fold_constant_gives_up_on_overflow_and_wrong_types() {
    assert_eq!(fold_constant(&unop(Uop::Neg, Expr::Int(i64::MIN))), None);
    assert_eq!(fold_constant(&binop(Bop::Add, Expr::Int(i64::MAX), Expr::Int(1))), None);
    assert_eq!(fold_constant(&binop(Bop::Sub, Expr::Int(i64::MIN), Expr::Int(1))), None);
    assert_eq!(fold_constant(&binop(Bop::Mul, Expr::Int(i64::MIN), Expr::Int(-1))), None);
    assert_eq!(fold_constant(&binop(Bop::Mul, Expr::Int(1 << 32), Expr::Int(1 << 31))), None);
    assert_eq!(fold_constant(&unop(Uop::Neg, Expr::Bool(true))), None);
    assert_eq!(fold_constant(&unop(Uop::Not, Expr::Int(1))), None);
    assert_eq!(fold_constant(&unop(Uop::Not, Expr::Null)), None);
    assert_eq!(
        fold_constant(&binop(Bop::Add, Expr::Int(1), Expr::String("a".to_string()))),
        None
    );
    assert_eq!(fold_constant(&binop(Bop::Add, Expr::Int(1), call("f", Vec::new()))), None);
    assert_eq!(fold_constant(&unop(Uop::Neg, call("f", Vec::new()))), None);
    // what lies above a value that is not known is not known either
    assert_eq!(
        fold_constant(&binop(
            Bop::Sub,
            binop(Bop::Add, Expr::Int(i64::MAX), Expr::Int(1)),
            Expr::Int(1)
        )),
        None
    );
}

#[test]
fn overflowing_initial_value_is_compiled() {
    let mut d = decl("big");
    d.initial_value = Some(binop(Bop::Add, Expr::Int(i64::MAX), unop(Uop::Neg, Expr::Int(-1))));
    let (p, _) = from_ast(&env(), &d);
    assert_eq!(p.initial_value, None);
    assert_eq!(
        p.initializer_instrs,
        Some(InstrSeq {
            instrs: vec![
                Instruct::Int(i64::MAX),
                Instruct::Int(-1),
                Instruct::Neg,
                Instruct::Add,
                Instruct::InitProp { name: "big".to_string(), is_static: false },
            ]
        })
    );
    assert!(p.is_deep_init());
}

#[test]
fn folded_operators_leave_no_instructions() {
    let mut d = decl("small");
    d.initial_value = Some(binop(Bop::Mul, unop(Uop::Neg, Expr::Int(6)), Expr::Int(7)));
    let (p, _) = from_ast(&env(), &d);
    assert_eq!(p.initial_value, Some(TypedValue::Int(-42)));
    assert_eq!(p.initializer_instrs, None);
    assert!(!p.is_deep_init());
}

#[test]
fn compile_expr_applies_operators_after_their_operands() {
    let expr = binop(
        Bop::Sub,
        unop(Uop::Not, Expr::Bool(false)),
        binop(Bop::Mul, call("f", Vec::new()), Expr::Int(2)),
    );
    let mut out = Vec::new();
    compile_expr(&env(), &expr, &mut out);
    assert_eq!(
        out,
        vec![
            Instruct::False,
            Instruct::Not,
            Instruct::FCallFuncD { num_args: 0, name: "f".to_string() },
            Instruct::Int(2),
            Instruct::Mul,
            Instruct::Sub,
        ]
    );
    let mut out = Vec::new();
    compile_expr(&env(), &binop(Bop::Add, Expr::Int(1), Expr::Int(2)), &mut out);
    assert_eq!(out, vec![Instruct::Int(1), Instruct::Int(2), Instruct::Add]);
}

#[test]
fn attribute_names_are_told_apart() {
    assert!(is_reserved("__x"));
    assert!(is_reserved("__"));
    assert!(!is_reserved("_"));
    assert!(!is_reserved(""));
    assert!(!is_reserved("_x_"));
    assert!(!is_reserved("x__"));
    assert!(is_known("__Const") && is_known("__LSB") && is_known("__LateInit"));
    assert!(!is_known("__const") && !is_known("Const") && !is_known("") && !is_known("__LSB "));
    let attributes = vec![attribute("__LSB", 0), attribute("Tag", 6)];
    assert!(find_attribute(&attributes, "__LSB"));
    assert!(find_attribute(&attributes, "Tag"));
    assert!(!find_attribute(&attributes, "__Const"));
    assert!(!find_attribute(&Vec::new(), "Tag"));
}

#[test]
fn built_properties_are_well_formed() {
    let mut compiled = decl("c");
    compiled.initial_value = Some(call("f", Vec::new()));
    let mut constant = decl("k");
    constant.initial_value = Some(Expr::Int(1));
    for d in [decl("n"), compiled, constant] {
        let (p, _) = from_ast(&env(), &d);
        assert!(p.is_well_formed());
    }
    let mut both = property(0, Visibility::Public);
    both.initial_value = Some(TypedValue::Null);
    both.initializer_instrs = Some(InstrSeq { instrs: vec![Instruct::Null] });
    assert!(!both.is_well_formed());
    let mut system = property(1 << 6, Visibility::Public);
    assert!(system.is_well_formed());
    system.initial_value = Some(TypedValue::Null);
    assert!(!system.is_well_formed());
    let mut system = property(1 << 6, Visibility::Public);
    system.initializer_instrs = Some(InstrSeq { instrs: Vec::new() });
    assert!(!system.is_well_formed());
    assert_eq!(system.initializer_kind(), InitializerKind::Instructions);
}
