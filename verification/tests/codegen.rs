use frey::codegen::layout::{LayoutDef, TypeLayout};
use frey::hir::types::{EnumDef, EnumVariant, StructDef, Ty};

fn point() -> LayoutDef {
    LayoutDef::Struct(StructDef {
        name: "P".to_string(),
        type_var_ids: Vec::new(),
        fields: vec![("x".to_string(), Ty::I8), ("y".to_string(), Ty::I64)],
    })
}

fn choice() -> LayoutDef {
    LayoutDef::Enum(EnumDef {
        name: "E".to_string(),
        type_var_ids: Vec::new(),
        variants: vec![
            EnumVariant { name: "A".to_string(), fields: Vec::new() },
            EnumVariant { name: "B".to_string(), fields: vec![Ty::I32, Ty::I8] },
        ],
    })
}

#[test]
fn scalar_layouts() {
    let l = TypeLayout::new();
    assert_eq!(l.approx_size_bytes(&Ty::Unit), 1);
    assert_eq!(l.approx_size_bytes(&Ty::U32), 4);
    assert_eq!(l.approx_size_bytes(&Ty::F64), 8);
    assert_eq!(l.approx_size_bytes(&Ty::Ptr(Box::new(Ty::U8))), 8);
    let closure = Ty::Closure { params: vec![Ty::Int], return_ty: Box::new(Ty::Int) };
    assert_eq!(l.approx_size_bytes(&closure), 16);
    assert_eq!(l.align_bytes(&closure), 8);
    assert_eq!(l.align_bytes(&Ty::I8), 1);
    assert_eq!(l.align_bytes(&Ty::Float), 4);
}

#[test]
fn struct_fields_are_padded() {
    let mut l = TypeLayout::new();
    assert!(l.add(point()));
    let p = Ty::Struct("P".to_string());
    assert_eq!(l.align_bytes(&p), 8);
    assert_eq!(l.approx_size_bytes(&p), 16);
    let arr = Ty::Array { element: Box::new(p), count: 2 };
    assert_eq!(l.approx_size_bytes(&arr), 32);
    assert_eq!(l.align_bytes(&arr), 8);
}

#[test]
fn tuples_and_field_lists() {
    let l = TypeLayout::new();
    let t = Ty::Tuple(vec![Ty::U8, Ty::U32]);
    assert_eq!(l.approx_size_bytes(&t), 8);
    assert_eq!(l.align_bytes(&t), 4);
    assert_eq!(l.aligned_fields_size_pub(&vec![Ty::U8, Ty::U8, Ty::I32, Ty::U8]), 12);
    assert_eq!(l.aligned_fields_size_pub(&Vec::new()), 0);
}

#[test]
fn enums_are_tag_plus_largest_payload() {
    let mut l = TypeLayout::new();
    assert!(l.add(choice()));
    let e = Ty::Enum("E".to_string());
    assert_eq!(l.approx_size_bytes(&e), 12);
    assert_eq!(l.align_bytes(&e), 4);
}

#[test]
fn empty_struct_has_size_one() {
    let mut l = TypeLayout::new();
    assert!(l.add(LayoutDef::Struct(StructDef {
        name: "Empty".to_string(),
        type_var_ids: Vec::new(),
        fields: Vec::new(),
    })));
    assert_eq!(l.approx_size_bytes(&Ty::Struct("Empty".to_string())), 1);
    assert_eq!(l.align_bytes(&Ty::Struct("Empty".to_string())), 1);
}

#[test]
fn recursive_layouts_are_refused() {
    let mut l = TypeLayout::new();
    let node = LayoutDef::Struct(StructDef {
        name: "Node".to_string(),
        type_var_ids: Vec::new(),
        fields: vec![("next".to_string(), Ty::Struct("Node".to_string()))],
    });
    assert!(!l.add(node));
    let linked = LayoutDef::Struct(StructDef {
        name: "Node".to_string(),
        type_var_ids: Vec::new(),
        fields: vec![("next".to_string(), Ty::Ptr(Box::new(Ty::Struct("Node".to_string()))))],
    });
    assert!(l.add(linked));
    assert_eq!(l.approx_size_bytes(&Ty::Struct("Node".to_string())), 8);
    assert_eq!(l.len(), 1);
}

fn holder(name: &str, held: &str) -> LayoutDef {
    LayoutDef::Struct(StructDef {
        name: name.to_string(),
        type_var_ids: Vec::new(),
        fields: vec![("h".to_string(), Ty::Struct(held.to_string())), ("t".to_string(), Ty::I8)],
    })
}

#[test]
fn definitions_are_laid_out_in_any_order() {
    let l = match TypeLayout::from_defs(vec![holder("A", "P"), point()]) {
        Ok(l) => l,
        Err(_) => panic!("no cycle here"),
    };
    assert_eq!(l.len(), 2);
    assert_eq!(l.approx_size_bytes(&Ty::Struct("P".to_string())), 16);
    assert_eq!(l.approx_size_bytes(&Ty::Struct("A".to_string())), 24);
}

#[test]
fn definitions_holding_one_another_are_refused() {
    match TypeLayout::from_defs(vec![point(), holder("A", "B"), holder("B", "A")]) {
        Ok(_) => panic!("A and B hold one another"),
        Err(rest) => assert_eq!(rest.len(), 2),
    }
    match TypeLayout::from_defs(vec![holder("S", "S")]) {
        Ok(_) => panic!("S holds itself"),
        Err(rest) => assert_eq!(rest.len(), 1),
    }
}
