use inline_sql::classify::{ClassificationError, QueryType};
use inline_sql::type_expr::{
    type_is_row_stream, type_is_u64, type_is_unit, type_result_err, type_result_ok,
    type_strip_option, type_strip_paren, type_strip_vec, GenericArgument, PathArguments,
    PathSegment, TypeExpr, TypePath,
};

fn seg(ident: &str, arguments: PathArguments) -> PathSegment {
    PathSegment { ident: ident.to_string(), arguments, pos: 0 }
}

fn bare(ident: &str) -> TypeExpr {
    TypeExpr::Path(TypePath { segments: vec![seg(ident, PathArguments::NoArguments)], pos: 0 })
}

fn path(idents: &[&str]) -> TypeExpr {
    TypeExpr::Path(TypePath {
        segments: idents.iter().map(|i| seg(i, PathArguments::NoArguments)).collect(),
        pos: 0,
    })
}

fn generic(idents: &[&str], args: Vec<GenericArgument>) -> TypeExpr {
    let mut segments: Vec<PathSegment> = idents[..idents.len() - 1]
        .iter()
        .map(|i| seg(i, PathArguments::NoArguments))
        .collect();
    segments.push(seg(idents[idents.len() - 1], PathArguments::AngleBracketed(args)));
    TypeExpr::Path(TypePath { segments, pos: 0 })
}

fn targ(t: TypeExpr) -> GenericArgument {
    GenericArgument::TypeArg(Box::new(t))
}

fn unit() -> TypeExpr {
    TypeExpr::Tuple { elems: vec![], pos: 0 }
}

fn result_of(ok: TypeExpr) -> TypeExpr {
    generic(&["Result"], vec![targ(ok), targ(bare("Error"))])
}

fn ident_of(t: &TypeExpr) -> &str {
    match t {
        TypeExpr::Path(p) => p.segments[p.segments.len() - 1].ident.as_str(),
        _ => panic!("expected a path type"),
    }
}

#[test]
fn vec_of_pet_classifies_to_list() {
    let t = result_of(generic(&["Vec"], vec![targ(bare("Pet"))]));
    match QueryType::from_return_type(&t).unwrap() {
        QueryType::List(e) => assert_eq!(ident_of(e), "Pet"),
        _ => panic!("expected the list shape"),
    }
}

#[test]
fn unit_classifies_to_execute() {
    let t = result_of(unit());
    assert!(matches!(QueryType::from_return_type(&t).unwrap(), QueryType::Execute));
}

#[test]
fn u64_classifies_to_count_rows() {
    let t = result_of(bare("u64"));
    assert!(matches!(QueryType::from_return_type(&t).unwrap(), QueryType::CountRows));
}

#[test]
fn option_of_pet_classifies_to_optional() {
    let t = result_of(generic(&["Option"], vec![targ(bare("Pet"))]));
    match QueryType::from_return_type(&t).unwrap() {
        QueryType::Optional(e) => assert_eq!(ident_of(e), "Pet"),
        _ => panic!("expected the optional shape"),
    }
}

#[test]
fn every_stream_spelling_classifies_to_stream() {
    let spellings: Vec<TypeExpr> = vec![
        bare("RowStream"),
        path(&["tokio_postgres", "RowStream"]),
        path(&["", "tokio_postgres", "RowStream"]),
        bare("RowIter"),
        path(&["postgres", "RowIter"]),
        path(&["", "postgres", "RowIter"]),
    ];
    for s in spellings {
        let t = result_of(s);
        assert!(matches!(QueryType::from_return_type(&t).unwrap(), QueryType::Stream));
    }
}

#[test]
fn qualified_vec_spellings_classify_to_list() {
    for idents in [
        &["Vec"][..],
        &["std", "vec", "Vec"][..],
        &["alloc", "vec", "Vec"][..],
        &["", "std", "vec", "Vec"][..],
        &["", "alloc", "vec", "Vec"][..],
    ] {
        let t = result_of(generic(idents, vec![targ(bare("Pet"))]));
        assert!(matches!(QueryType::from_return_type(&t).unwrap(), QueryType::List(_)));
    }
}

#[test]
fn result_with_one_argument_accepted() {
    let t = generic(&["Result"], vec![targ(bare("u64"))]);
    assert!(matches!(QueryType::from_return_type(&t).unwrap(), QueryType::CountRows));
}

#[test]
fn zero_type_arguments_rejected() {
    let t = generic(&["Result"], vec![]);
    assert!(matches!(
        QueryType::from_return_type(&t).unwrap_err(),
        ClassificationError::NotAnErrorUnion { .. }
    ));
}

#[test]
fn three_type_arguments_rejected() {
    let t = generic(
        &["Result"],
        vec![targ(bare("A")), targ(bare("B")), targ(bare("C"))],
    );
    assert!(matches!(
        QueryType::from_return_type(&t).unwrap_err(),
        ClassificationError::NotAnErrorUnion { .. }
    ));
}

#[test]
fn non_result_outer_type_rejected() {
    let t = generic(&["Vec"], vec![targ(bare("Pet"))]);
    assert!(matches!(
        QueryType::from_return_type(&t).unwrap_err(),
        ClassificationError::NotAnErrorUnion { .. }
    ));
}

#[test]
fn bare_non_path_rejected() {
    let t = TypeExpr::Other { pos: 7 };
    let e = QueryType::from_return_type(&t).unwrap_err();
    assert_eq!(e, ClassificationError::NotAnErrorUnion { pos: 7 });
    assert_eq!(e.position(), 7);
}

#[test]
fn unrecognized_success_type_rejected() {
    let t = result_of(bare("String"));
    assert!(matches!(
        QueryType::from_return_type(&t).unwrap_err(),
        ClassificationError::UnsupportedShape { .. }
    ));
}

#[test]
fn alias_note_in_describe() {
    let e = ClassificationError::UnsupportedShape { pos: 0 };
    assert!(e.describe().contains("type alias"));
    let e2 = ClassificationError::NotAnErrorUnion { pos: 0 };
    assert!(e2.describe().contains("Result<_, _>"));
}

#[test]
fn paren_layers_are_stripped() {
    let t = TypeExpr::Paren {
        inner: Box::new(TypeExpr::Grouped { inner: Box::new(unit()), pos: 1 }),
        pos: 0,
    };
    assert!(type_is_unit(&t));
    assert!(matches!(type_strip_paren(&t), TypeExpr::Tuple { .. }));
}

#[test]
fn strip_helpers_on_plain_types() {
    let v = generic(&["Vec"], vec![targ(bare("Pet"))]);
    assert_eq!(ident_of(type_strip_vec(&v).unwrap()), "Pet");
    assert!(type_strip_option(&v).is_none());
    let o = generic(&["Option"], vec![targ(bare("Pet"))]);
    assert_eq!(ident_of(type_strip_option(&o).unwrap()), "Pet");
    assert!(type_strip_vec(&o).is_none());
    assert!(type_is_row_stream(&bare("RowStream")));
    assert!(!type_is_row_stream(&bare("Vec")));
    assert!(type_is_u64(&bare("u64")));
    assert!(!type_is_u64(&path(&["std", "u64"])));
}

#[test]
fn result_ok_and_err_extraction() {
    let t = result_of(bare("u64"));
    assert_eq!(ident_of(type_result_ok(&t).unwrap()), "u64");
    assert_eq!(ident_of(type_result_err(&t).unwrap()), "Error");
    let one = generic(&["Result"], vec![targ(bare("u64"))]);
    assert_eq!(ident_of(type_result_ok(&one).unwrap()), "u64");
    assert!(type_result_err(&one).is_none());
}

#[test]
fn empty_vec_arguments_do_not_match_list() {
    // a growable-list spelling with no type argument is not the list shape
    let t = result_of(generic(&["Vec"], vec![]));
    assert!(matches!(
        QueryType::from_return_type(&t).unwrap_err(),
        ClassificationError::UnsupportedShape { .. }
    ));
}
