use frey::ast::parser::Parser;
use frey::ast::types::{Declaration, EnumVariantDef, Expr, ExprKind, NodeIdGen, TypeExpr};
use frey::hir::error::ErrorKind;
use frey::hir::lower::Lower;
use frey::hir::types::{EnumDef, EnumVariant, LocalId, StructDef, Ty, TypeVarId};
use frey::lexer::tokenize;

fn lower(lw: &mut Lower, src: &str) -> Result<Ty, ErrorKind> {
    let t = Parser::new(tokenize(src).unwrap()).parse_type().unwrap();
    lw.lower_type(&t).map_err(|e| e.kind)
}

fn with_box_template() -> Lower {
    let mut lw = Lower::new();
    lw.struct_templates.push(StructDef {
        name: "Box".to_string(),
        type_var_ids: vec![TypeVarId(0)],
        fields: vec![("v".to_string(), Ty::TypeVar(TypeVarId(0)))],
    });
    lw
}

#[test]
fn basic_types_lower_to_themselves() {
    let mut lw = Lower::new();
    assert_eq!(lower(&mut lw, "Int"), Ok(Ty::Int));
    assert_eq!(lower(&mut lw, "u8"), Ok(Ty::U8));
    assert_eq!(lower(&mut lw, "*Int"), Ok(Ty::Ptr(Box::new(Ty::Int))));
    assert_eq!(
        lower(&mut lw, "[Int; 3]"),
        Ok(Ty::Array { element: Box::new(Ty::Int), count: 3 })
    );
}

#[test]
fn function_types_lower_to_closures() {
    let mut lw = Lower::new();
    assert_eq!(
        lower(&mut lw, "(Int, u8) -> Int"),
        Ok(Ty::Closure { params: vec![Ty::Int, Ty::U8], return_ty: Box::new(Ty::Int) })
    );
}

#[test]
fn unknown_names_are_errors() {
    let mut lw = Lower::new();
    assert_eq!(lower(&mut lw, "Foo"), Err(ErrorKind::UnknownType { name: "Foo".to_string() }));
    assert_eq!(lower(&mut lw, "Foo<Int>"), Err(ErrorKind::UnknownType { name: "Foo".to_string() }));
}

#[test]
fn type_variables_need_a_scope() {
    let mut lw = Lower::new();
    assert_eq!(
        lower(&mut lw, "$T"),
        Err(ErrorKind::GenericOutsideFunctionSignature { name: "T".to_string() })
    );
    lw.push_type_var_scope();
    assert_eq!(lower(&mut lw, "$T"), Ok(Ty::TypeVar(TypeVarId(0))));
    assert_eq!(lower(&mut lw, "*T"), Ok(Ty::Ptr(Box::new(Ty::TypeVar(TypeVarId(0))))));
    assert_eq!(
        lower(&mut lw, "$T"),
        Err(ErrorKind::GenericAlreadyDefined { name: "T".to_string() })
    );
    assert_eq!(lower(&mut lw, "$U"), Ok(Ty::TypeVar(TypeVarId(1))));
    let popped = lw.pop_type_var_scope();
    assert_eq!(popped.len(), 2);
    assert_eq!(lower(&mut lw, "T"), Err(ErrorKind::UnknownType { name: "T".to_string() }));
}

#[test]
fn declared_type_parameters_resolve() {
    let mut lw = with_box_template();
    lw.push_type_var_scope();
    assert!(lw.declare_type_params(&vec!["K".to_string(), "V".to_string()], Default::default()).is_ok());
    assert_eq!(lower(&mut lw, "V"), Ok(Ty::TypeVar(TypeVarId(1))));
    assert_eq!(
        lw.declare_type_params(&vec!["K".to_string()], Default::default()).map_err(|e| e.kind),
        Err(ErrorKind::GenericAlreadyDefined { name: "K".to_string() })
    );
    assert_eq!(
        lw.declare_type_params(&vec!["Box".to_string()], Default::default()).map_err(|e| e.kind),
        Err(ErrorKind::GenericIsAlsoAStruct { name: "Box".to_string() })
    );
}

#[test]
fn generic_struct_specializes_on_concrete_arguments() {
    let mut lw = with_box_template();
    assert_eq!(lower(&mut lw, "Box<Int>"), Ok(Ty::Struct("Box$Int".to_string())));
    assert_eq!(lw.structs.len(), 1);
    assert_eq!(lw.structs[0].name, "Box$Int");
    assert_eq!(lw.structs[0].fields, vec![("v".to_string(), Ty::Int)]);
    // The second use finds the specialization made by the first.
    assert_eq!(lower(&mut lw, "*Box<Int>"), Ok(Ty::Ptr(Box::new(Ty::Struct("Box$Int".to_string())))));
    assert_eq!(lw.structs.len(), 1);
    assert_eq!(lw.struct_cache.len(), 1);
}

#[test]
fn generic_struct_errors() {
    let mut lw = with_box_template();
    assert_eq!(lower(&mut lw, "Box"), Err(ErrorKind::MissingTypeArguments { name: "Box".to_string() }));
    assert_eq!(
        lower(&mut lw, "Box<Int, u8>"),
        Err(ErrorKind::TypeArgArityMismatch { name: "Box".to_string(), expected: 1, found: 2 })
    );
    lw.structs.push(StructDef { name: "Pt".to_string(), type_var_ids: vec![], fields: vec![] });
    assert_eq!(lower(&mut lw, "Pt"), Ok(Ty::Struct("Pt".to_string())));
    assert_eq!(
        lower(&mut lw, "Pt<Int>"),
        Err(ErrorKind::UnexpectedTypeArguments { name: "Pt".to_string() })
    );
}

#[test]
fn generic_struct_stays_generic_on_type_variables() {
    let mut lw = with_box_template();
    lw.push_type_var_scope();
    assert_eq!(
        lower(&mut lw, "Box<$T>"),
        Ok(Ty::GenericStruct { name: "Box".to_string(), args: vec![Ty::TypeVar(TypeVarId(0))] })
    );
    assert!(lw.structs.is_empty());
}

#[test]
fn nested_generic_arguments_specialize_inside_out() {
    let mut lw = with_box_template();
    assert_eq!(
        lower(&mut lw, "Box<Box<Int> >"),
        Ok(Ty::Struct("Box$Box$Int".to_string()))
    );
    assert_eq!(lw.structs.len(), 2);
    assert_eq!(lw.structs[1].fields, vec![("v".to_string(), Ty::Struct("Box$Int".to_string()))]);
}

#[test]
fn generic_enum_specializes() {
    let mut lw = Lower::new();
    lw.enum_templates.push(EnumDef {
        name: "Option".to_string(),
        type_var_ids: vec![TypeVarId(0)],
        variants: vec![
            EnumVariant { name: "None".to_string(), fields: vec![] },
            EnumVariant { name: "Some".to_string(), fields: vec![Ty::TypeVar(TypeVarId(0))] },
        ],
    });
    assert_eq!(lower(&mut lw, "Option<u8>"), Ok(Ty::Enum("Option$u8".to_string())));
    assert_eq!(lw.enums.len(), 1);
    assert_eq!(lw.enums[0].variants[1].fields, vec![Ty::U8]);
    assert_eq!(lower(&mut lw, "*Option<u8>"), Ok(Ty::Ptr(Box::new(Ty::Enum("Option$u8".to_string())))));
    assert_eq!(lw.enums.len(), 1);
}

#[test]
fn self_growing_specialization_is_refused() {
    // `L<$T>` holding a pointer to `L<L<T>>` would specialize forever.
    let mut lw = Lower::new();
    let tv = Ty::TypeVar(TypeVarId(0));
    let inner = Ty::GenericStruct { name: "L".to_string(), args: vec![tv] };
    let outer = Ty::GenericStruct { name: "L".to_string(), args: vec![inner] };
    lw.struct_templates.push(StructDef {
        name: "L".to_string(),
        type_var_ids: vec![TypeVarId(0)],
        fields: vec![("next".to_string(), Ty::Ptr(Box::new(outer)))],
    });
    assert_eq!(
        lower(&mut lw, "L<Int>"),
        Err(ErrorKind::DirectStructRecursion { name: "L".to_string() })
    );
}

#[test]
fn self_referencing_pointer_field_finds_its_own_specialization() {
    let mut lw = Lower::new();
    let node = Ty::GenericStruct { name: "Node".to_string(), args: vec![Ty::TypeVar(TypeVarId(0))] };
    lw.struct_templates.push(StructDef {
        name: "Node".to_string(),
        type_var_ids: vec![TypeVarId(0)],
        fields: vec![
            ("value".to_string(), Ty::TypeVar(TypeVarId(0))),
            ("next".to_string(), Ty::Ptr(Box::new(node))),
        ],
    });
    assert_eq!(lower(&mut lw, "Node<Int>"), Ok(Ty::Struct("Node$Int".to_string())));
    assert_eq!(
        lw.structs[0].fields,
        vec![
            ("value".to_string(), Ty::Int),
            ("next".to_string(), Ty::Ptr(Box::new(Ty::Struct("Node$Int".to_string())))),
        ]
    );
}

fn program(src: &str) -> Vec<Declaration> {
    Parser::new(tokenize(src).unwrap()).parse_program().unwrap().declarations
}

fn enum_decl(
    ids: &mut NodeIdGen,
    name: &str,
    type_params: &[&str],
    variants: Vec<(&str, Vec<TypeExpr>)>,
) -> Declaration {
    let variants = variants
        .into_iter()
        .map(|(n, fields)| EnumVariantDef { id: ids.fresh(), span: Default::default(), name: n.to_string(), fields })
        .collect();
    Declaration {
        id: ids.fresh(),
        span: Default::default(),
        mutable: false,
        comptime: false,
        name: name.to_string(),
        ty: None,
        value: Expr {
            id: ids.fresh(),
            span: Default::default(),
            kind: ExprKind::EnumDef { type_params: type_params.iter().map(|s| s.to_string()).collect(), variants },
        },
    }
}

fn type_expr(src: &str) -> TypeExpr {
    Parser::new(tokenize(src).unwrap()).parse_type().unwrap()
}

#[test]
fn structs_are_registered_and_their_fields_lowered() {
    let decls = program("let Node = struct { value: Int, next: *Node }; let Box = struct<$T> { v: T };");
    let mut lw = Lower::new();
    assert!(lw.register_types(&decls).is_ok());
    assert_eq!(lw.structs.len(), 1);
    assert_eq!(lw.structs[0].name, "Node");
    assert_eq!(
        lw.structs[0].fields,
        vec![
            ("value".to_string(), Ty::Int),
            ("next".to_string(), Ty::Ptr(Box::new(Ty::Struct("Node".to_string())))),
        ]
    );
    assert_eq!(lw.struct_templates.len(), 1);
    assert_eq!(lw.struct_templates[0].type_var_ids, vec![TypeVarId(0)]);
    assert_eq!(lw.struct_templates[0].fields, vec![("v".to_string(), Ty::TypeVar(TypeVarId(0)))]);
    // The template's scope is closed again.
    assert!(lw.type_var_scopes.is_empty());
    assert_eq!(lower(&mut lw, "Box<Node>"), Ok(Ty::Struct("Box$Node".to_string())));
}

#[test]
fn struct_bodies_may_refer_to_later_structs() {
    let decls = program("let A = struct { b: *B }; let B = struct { a: A };");
    let mut lw = Lower::new();
    assert!(lw.register_types(&decls).is_ok());
    assert_eq!(lw.structs[1].fields, vec![("a".to_string(), Ty::Struct("A".to_string()))]);
}

#[test]
fn struct_holding_itself_is_refused() {
    let decls = program("let Bad = struct { me: Bad };");
    let mut lw = Lower::new();
    assert_eq!(
        lw.register_types(&decls).map_err(|e| e.kind),
        Err(ErrorKind::DirectStructRecursion { name: "Bad".to_string() })
    );
}

#[test]
fn type_names_declared_twice_are_refused() {
    let decls = program("let P = struct { x: Int }; let P = struct { y: Int };");
    let mut lw = Lower::new();
    assert_eq!(
        lw.register_types(&decls).map_err(|e| e.kind),
        Err(ErrorKind::AlreadyDefined { name: "P".to_string() })
    );
}

#[test]
fn unknown_field_types_are_reported() {
    let decls = program("let P = struct { x: Q };");
    let mut lw = Lower::new();
    assert_eq!(
        lw.register_types(&decls).map_err(|e| e.kind),
        Err(ErrorKind::UnknownType { name: "Q".to_string() })
    );
}

#[test]
fn enums_are_registered_with_their_constructors() {
    let mut ids = NodeIdGen::new();
    let decls = vec![
        enum_decl(&mut ids, "Option", &["T"], vec![("None", vec![]), ("Some", vec![type_expr("T")])]),
        enum_decl(&mut ids, "Color", &[], vec![("Red", vec![]), ("Rgb", vec![type_expr("u8"), type_expr("u8")])]),
    ];
    let mut lw = Lower::new();
    assert!(lw.register_types(&decls).is_ok());
    assert_eq!(
        lw.variant_constructors,
        vec![
            ("None".to_string(), "Option".to_string(), 0),
            ("Some".to_string(), "Option".to_string(), 1),
            ("Red".to_string(), "Color".to_string(), 0),
            ("Rgb".to_string(), "Color".to_string(), 1),
        ]
    );
    assert_eq!(lw.enum_templates[0].variants[1].fields, vec![Ty::TypeVar(TypeVarId(0))]);
    assert_eq!(lw.enums[0].variants[1].fields, vec![Ty::U8, Ty::U8]);
    assert_eq!(lower(&mut lw, "Option<Color>"), Ok(Ty::Enum("Option$Color".to_string())));
}

#[test]
fn variants_declared_twice_are_refused() {
    let mut ids = NodeIdGen::new();
    let decls = vec![
        enum_decl(&mut ids, "A", &[], vec![("X", vec![])]),
        enum_decl(&mut ids, "B", &[], vec![("X", vec![])]),
    ];
    let mut lw = Lower::new();
    assert_eq!(
        lw.register_types(&decls).map_err(|e| e.kind),
        Err(ErrorKind::DuplicateVariant { name: "X".to_string(), other_enum: "A".to_string() })
    );
}

#[test]
fn functions_are_preregistered_with_their_signatures() {
    let decls = program("let f = (a: Int, b: *u8) -> Int { a }; let x = 1;");
    let mut lw = Lower::new();
    assert!(lw.pre_register_functions(&decls).is_ok());
    let fty = Ty::Function {
        params: vec![Ty::Int, Ty::Ptr(Box::new(Ty::U8))],
        return_ty: Box::new(Ty::Int),
        varargs: false,
    };
    assert_eq!(lw.bindings.get(&0), Some(&fty));
    assert_eq!(lw.bindings.len(), 1);
    assert_eq!(lw.scopes, vec![vec![("f".to_string(), LocalId(0))]]);
    assert_eq!(lw.overloads, vec![("f".to_string(), vec![LocalId(0)])]);
    assert_eq!(lw.fn_id_by_node.get(&decls[0].id.value()), Some(&LocalId(0)));
    let sig = lw.pending_fn_sigs.get(&0).unwrap();
    assert_eq!(sig.param_tys, vec![Ty::Int, Ty::Ptr(Box::new(Ty::U8))]);
    assert_eq!(sig.return_ty, Ty::Int);
    assert!(lw.type_var_scopes.is_empty());
}

#[test]
fn generic_signatures_keep_their_scope() {
    let decls = program("let g = (x: $T) -> T { x };");
    let mut lw = Lower::new();
    assert!(lw.pre_register_functions(&decls).is_ok());
    let t = Ty::TypeVar(TypeVarId(0));
    assert_eq!(
        lw.bindings.get(&0),
        Some(&Ty::Function { params: vec![Ty::TypeVar(TypeVarId(0))], return_ty: Box::new(t), varargs: false })
    );
    let sig = lw.pending_fn_sigs.get(&0).unwrap();
    assert_eq!(sig.scope, vec![("T".to_string(), TypeVarId(0))]);
    assert!(sig.type_var_ids.is_empty());
    assert_eq!(lw.fn_decl_type_var_ids.get(&0), Some(&vec![]));
    assert!(lw.type_var_scopes.is_empty());
}

#[test]
fn functions_sharing_a_name_form_an_overload_set() {
    let decls = program("let h = (a: Int) { }; let h = (a: u8) { };");
    let mut lw = Lower::new();
    assert!(lw.pre_register_functions(&decls).is_ok());
    assert_eq!(lw.overloads, vec![("h".to_string(), vec![LocalId(0), LocalId(1)])]);
    assert_eq!(
        lw.bindings.get(&1),
        Some(&Ty::Function { params: vec![Ty::U8], return_ty: Box::new(Ty::Unit), varargs: false })
    );
    assert_eq!(lw.scopes[0].len(), 2);
}

#[test]
fn bad_signatures_are_reported_and_their_scope_closed() {
    let decls = program("let k = (x: Q) { };");
    let mut lw = Lower::new();
    assert_eq!(
        lw.pre_register_functions(&decls).map_err(|e| e.kind),
        Err(ErrorKind::UnknownType { name: "Q".to_string() })
    );
    assert!(lw.type_var_scopes.is_empty());
    assert!(lw.bindings.is_empty());
}
