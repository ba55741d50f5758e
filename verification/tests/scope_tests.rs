use ztar_rod::ast::{Expression, Identifier, IdentifierOrPointer, Operator};
use ztar_rod::datatype::DataType;
use ztar_rod::priomap::PrioMap;
use ztar_rod::scope::Scope;

#[test]
fn inner_layer_shadows_until_it_is_popped() {
    let mut scope = Scope::new();
    assert_eq!(scope.insert_name("x".to_string(), DataType::Int), None);
    scope.push();
    assert_eq!(scope.lookup_name("x"), Some(&DataType::Int));
    assert_eq!(scope.insert_name("x".to_string(), DataType::Bool), None);
    assert_eq!(scope.lookup_name("x"), Some(&DataType::Bool));
    assert_eq!(scope.lookup_name_depth("x", 0), Some(&DataType::Bool));
    let popped = scope.pop().unwrap();
    assert_eq!(popped, vec![(None, "x".to_string(), DataType::Bool)]);
    assert_eq!(scope.lookup_name("x"), Some(&DataType::Int));
}

#[test]
fn inserting_again_overwrites_and_returns_the_old_type() {
    let mut scope = Scope::new();
    assert_eq!(scope.insert_name("a".to_string(), DataType::Any), None);
    assert_eq!(scope.insert_name("b".to_string(), DataType::Int), None);
    assert_eq!(scope.insert_name("a".to_string(), DataType::Float), Some(DataType::Any));
    assert_eq!(scope.lookup_name("a"), Some(&DataType::Float));
    assert_eq!(scope.insert(None, "a".to_string(), DataType::Bool), Some(DataType::Float));
    assert_eq!(
        scope.insert(Some(7), "c".to_string(), DataType::Fun(vec![])),
        None
    );
    // the order of first insertion is kept
    assert_eq!(
        scope.pop().unwrap(),
        vec![
            (Some(7), "c".to_string(), DataType::Fun(vec![])),
            (None, "a".to_string(), DataType::Bool),
            (None, "b".to_string(), DataType::Int),
        ]
    );
    assert_eq!(scope.depth(), 0);
    assert_eq!(scope.pop(), None);
}

#[test]
fn lookup_depth_counts_layers_from_the_innermost() {
    let mut scope = Scope::new();
    scope.insert_name("deep".to_string(), DataType::Int);
    scope.push();
    scope.push();
    assert_eq!(scope.lookup_name("deep"), Some(&DataType::Int));
    assert_eq!(scope.lookup_name_depth("deep", 0), None);
    assert_eq!(scope.lookup_name_depth("deep", 1), None);
    assert_eq!(scope.lookup_name_depth("deep", 2), Some(&DataType::Int));
    assert_eq!(scope.lookup_name_depth("deep", 9), Some(&DataType::Int));
    assert_eq!(scope.lookup_name("missing"), None);
}

#[test]
fn pointers_resolve_through_their_names() {
    let mut scope = Scope::new();
    scope.insert_ptr(0x8024_0010, "helper".to_string(), DataType::Fun(vec![DataType::Int]));
    scope.push();
    assert_eq!(scope.lookup_ptr(0x8024_0010), Some("helper"));
    assert_eq!(scope.lookup_ptr(0x8024_0014), None);
    let by_ptr = IdentifierOrPointer::Pointer(0x8024_0010);
    assert_eq!(
        by_ptr.lookup(&scope),
        Some(("helper", &DataType::Fun(vec![DataType::Int])))
    );
    let by_name = IdentifierOrPointer::Identifier(Identifier("helper".to_string()));
    assert_eq!(
        by_name.lookup(&scope),
        Some(("helper", &DataType::Fun(vec![DataType::Int])))
    );
    assert_eq!(IdentifierOrPointer::Pointer(1).lookup(&scope), None);
    // the name shadowed by another type in an inner layer
    scope.insert_name("helper".to_string(), DataType::Int);
    assert_eq!(by_ptr.lookup(&scope), Some(("helper", &DataType::Int)));
}

#[test]
fn expression_types() {
    let mut scope = Scope::new();
    scope.insert_name("n".to_string(), DataType::Float);
    scope.insert_name("list".to_string(), DataType::Arr(Box::new(DataType::Bool)));
    let name = |s: &str| Expression::Identifier(Identifier(s.to_string()));
    assert_eq!(Expression::LiteralInt(1).infer_datatype(&scope), DataType::Int);
    assert_eq!(Expression::LiteralBool(true).infer_datatype(&scope), DataType::Bool);
    assert_eq!(name("n").infer_datatype(&scope), DataType::Float);
    assert_eq!(name("other").infer_datatype(&scope), DataType::Any);
    assert_eq!(
        Expression::ArrayIndex(Identifier("list".to_string()), 2).infer_datatype(&scope),
        DataType::Bool
    );
    assert_eq!(
        Expression::ArrayIndex(Identifier("n".to_string()), 2).infer_datatype(&scope),
        DataType::Any
    );
    let op = |op: Operator| Expression::Operation {
        lhs: Box::new(name("n")),
        op,
        rhs: Box::new(Expression::LiteralInt(1)),
    };
    assert_eq!(op(Operator::Add).infer_datatype(&scope), DataType::Float);
    assert_eq!(op(Operator::Mod).infer_datatype(&scope), DataType::Float);
    assert_eq!(op(Operator::Lt).infer_datatype(&scope), DataType::Bool);
    assert_eq!(op(Operator::BitAndZ).infer_datatype(&scope), DataType::Bool);
}

#[test]
fn types_as_text() {
    assert_eq!(DataType::Any.to_text(), "any");
    assert_eq!(DataType::Arr(Box::new(DataType::Int)).to_text(), "[int]");
    assert_eq!(DataType::Fun(vec![]).to_text(), "fun()");
    assert_eq!(
        DataType::Asm(vec![DataType::Int, DataType::Float, DataType::Bool]).to_text(),
        "asm(int, float, bool)"
    );
    assert_eq!(
        DataType::Fun(vec![DataType::Fun(vec![DataType::Any])]).to_text(),
        "fun(fun(any))"
    );
    assert!(DataType::Fun(vec![DataType::Int]).same(&DataType::Fun(vec![DataType::Int])));
    assert!(!DataType::Fun(vec![DataType::Int]).same(&DataType::Asm(vec![DataType::Int])));
    assert!(!DataType::Fun(vec![DataType::Int]).same(&DataType::Fun(vec![])));
    assert_eq!(DataType::Fun(vec![DataType::Int]).clone(), DataType::Fun(vec![DataType::Int]));
}

#[test]
fn layered_map_shadows_and_restores() {
    let mut pm: PrioMap<u64, &str> = PrioMap::new();
    assert_eq!(pm.insert(1, "outer"), None);
    pm.push();
    assert_eq!(pm.lookup(1), Some(&"outer"));
    assert_eq!(pm.insert(1, "inner"), None);
    assert_eq!(pm.insert(1, "inner again"), Some("inner"));
    assert_eq!(pm.lookup(1), Some(&"inner again"));
    assert_eq!(pm.lookup(2), None);
    let top = pm.pop().unwrap();
    assert_eq!(top.len(), 1);
    assert_eq!(pm.lookup(1), Some(&"outer"));
    assert!(pm.pop().is_some());
    assert!(pm.pop().is_none());
}
