use inline_sql::classify::QueryType;
use inline_sql::model::TemplateError;
use inline_sql::plan::{
    plan_function, return_type_err_span, return_type_ok_span, CallKind, Diagnostic,
    ErrorConversion, FunctionSpec, MapperRef, Param, ReturnStrategy, RowConversion,
};
use inline_sql::type_expr::{GenericArgument, PathArguments, PathSegment, TypeExpr, TypePath};
use inline_sql::token::Token;

fn lit(text: &str, pos: usize) -> Token {
    Token::Literal { text: text.to_string(), pos }
}

fn punct(ch: char, pos: usize) -> Token {
    Token::Punct { ch, pos }
}

fn seg(ident: &str, arguments: PathArguments, pos: usize) -> PathSegment {
    PathSegment { ident: ident.to_string(), arguments, pos }
}

fn bare(ident: &str, pos: usize) -> TypeExpr {
    TypeExpr::Path(TypePath { segments: vec![seg(ident, PathArguments::NoArguments, pos)], pos })
}

fn targ(t: TypeExpr) -> GenericArgument {
    GenericArgument::TypeArg(Box::new(t))
}

fn result_of(ok: TypeExpr, err: TypeExpr) -> TypeExpr {
    TypeExpr::Path(TypePath {
        segments: vec![seg("Result", PathArguments::AngleBracketed(vec![targ(ok), targ(err)]), 1)],
        pos: 1,
    })
}

fn param(name: &str, pos: usize) -> Param {
    Param { name: name.to_string(), type_hint: None, pos }
}

fn base_spec() -> FunctionSpec {
    FunctionSpec {
        is_async: true,
        name_pos: 100,
        parameters: vec![param("name", 101), param("species", 102)],
        return_type: Some(result_of(bare("u64", 2), bare("Error", 3))),
        row_mapper: None,
        error_mapper: None,
        template: vec![
            lit("UPDATE", 0),
            lit("pets", 1),
            lit("SET", 2),
            lit("species", 3),
            punct('=', 4),
            punct('#', 5),
            lit("species", 6),
            lit("WHERE", 7),
            lit("name", 8),
            punct('=', 9),
            punct('#', 10),
            lit("name", 11),
        ],
    }
}

#[test]
fn count_rows_plan() {
    let func = base_spec();
    let (plan, diags) = plan_function(&func);
    assert!(diags.is_empty());
    assert!(matches!(plan.shape, QueryType::CountRows));
    assert_eq!(plan.call, CallKind::ExecuteCount);
    assert_eq!(plan.return_kind, ReturnStrategy::AffectedCount);
    assert_eq!(plan.row_conversion, RowConversion::DefaultTryFrom);
    assert_eq!(plan.error_conversion, ErrorConversion::WidenFrom);
    assert_eq!(plan.query.query, "UPDATE pets SET species = $1 WHERE name = $2");
}

#[test]
fn bindings_resolve_by_name_in_slot_order() {
    let func = base_spec();
    let (plan, _) = plan_function(&func);
    assert_eq!(plan.bindings.len(), 2);
    assert_eq!(plan.bindings[0].slot, 1);
    assert_eq!(plan.bindings[0].name, "species");
    assert_eq!(plan.bindings[0].param_index, Some(1));
    assert_eq!(plan.bindings[1].slot, 2);
    assert_eq!(plan.bindings[1].name, "name");
    assert_eq!(plan.bindings[1].param_index, Some(0));
}

#[test]
fn unknown_placeholder_resolves_to_no_parameter() {
    let mut func = base_spec();
    func.parameters = vec![param("species", 101)];
    let (plan, _) = plan_function(&func);
    assert_eq!(plan.bindings[1].name, "name");
    assert_eq!(plan.bindings[1].param_index, None);
}

#[test]
fn mappers_carried_into_plan() {
    let mut func = base_spec();
    func.row_mapper = Some(MapperRef { handle: 4 });
    func.error_mapper = Some(MapperRef { handle: 9 });
    let (plan, _) = plan_function(&func);
    assert_eq!(plan.row_conversion, RowConversion::Mapper(MapperRef { handle: 4 }));
    assert_eq!(plan.error_conversion, ErrorConversion::Mapper(MapperRef { handle: 9 }));
}

#[test]
fn list_shape_streams_and_collects() {
    let mut func = base_spec();
    let vec_pet = TypeExpr::Path(TypePath {
        segments: vec![seg(
            "Vec",
            PathArguments::AngleBracketed(vec![targ(bare("Pet", 5))]),
            4,
        )],
        pos: 4,
    });
    func.return_type = Some(result_of(vec_pet, bare("Error", 6)));
    let (plan, diags) = plan_function(&func);
    assert!(diags.is_empty());
    assert!(matches!(plan.shape, QueryType::List(_)));
    assert_eq!(plan.call, CallKind::QueryStreaming);
    assert_eq!(plan.return_kind, ReturnStrategy::Collected);
}

#[test]
fn stream_shape_returns_raw_handle() {
    let mut func = base_spec();
    func.return_type = Some(result_of(bare("RowStream", 2), bare("Error", 3)));
    let (plan, _) = plan_function(&func);
    assert_eq!(plan.call, CallKind::QueryStreaming);
    assert_eq!(plan.return_kind, ReturnStrategy::StreamHandle);
}

#[test]
fn optional_shape_uses_optional_row_call() {
    let mut func = base_spec();
    let opt_pet = TypeExpr::Path(TypePath {
        segments: vec![seg(
            "Option",
            PathArguments::AngleBracketed(vec![targ(bare("Pet", 5))]),
            4,
        )],
        pos: 4,
    });
    func.return_type = Some(result_of(opt_pet, bare("Error", 6)));
    let (plan, _) = plan_function(&func);
    assert_eq!(plan.call, CallKind::QueryOptionalRow);
    assert_eq!(plan.return_kind, ReturnStrategy::OptionalRow);
}

#[test]
fn missing_return_type_falls_back_to_execute() {
    let mut func = base_spec();
    func.return_type = None;
    let (plan, diags) = plan_function(&func);
    assert!(matches!(plan.shape, QueryType::Execute));
    assert_eq!(plan.call, CallKind::ExecuteCount);
    assert_eq!(plan.return_kind, ReturnStrategy::Unit);
    assert_eq!(diags.len(), 1);
    assert!(matches!(diags[0], Diagnostic::Classification(_)));
}

#[test]
fn template_and_classification_diagnostics_both_surface() {
    let mut func = base_spec();
    func.return_type = Some(bare("String", 42));
    func.template = vec![lit("SELECT", 0), punct('#', 1)];
    let (plan, diags) = plan_function(&func);
    assert_eq!(diags.len(), 2);
    assert_eq!(
        diags[0],
        Diagnostic::Template(TemplateError::ExpectedPlaceholderName { pos: 1 })
    );
    assert!(matches!(diags[1], Diagnostic::Classification(_)));
    // the fallback shape still lets the plan carry the partial query
    assert!(matches!(plan.shape, QueryType::Execute));
    assert_eq!(plan.query.query, "SELECT");
}

#[test]
fn ok_and_err_spans() {
    let func = base_spec();
    // the success type `u64` sits at position 2, the failure type at 3
    assert_eq!(return_type_ok_span(&func), 2);
    assert_eq!(return_type_err_span(&func), 3);
    let mut unnamed = base_spec();
    unnamed.return_type = None;
    assert_eq!(return_type_ok_span(&unnamed), 100);
    assert_eq!(return_type_err_span(&unnamed), 100);
    let mut bad = base_spec();
    bad.return_type = Some(bare("String", 55));
    assert_eq!(return_type_ok_span(&bad), 55);
    assert_eq!(return_type_err_span(&bad), 55);
}

#[test]
fn is_async_is_a_pass_through() {
    let mut func = base_spec();
    func.is_async = false;
    let (sync_query, sync_call) = {
        let (plan, _) = plan_function(&func);
        (plan.query.query, plan.call)
    };
    func.is_async = true;
    let (plan_async, _) = plan_function(&func);
    // the compiler and classifier ignore the flag
    assert_eq!(sync_query, plan_async.query.query);
    assert_eq!(sync_call, plan_async.call);
}
