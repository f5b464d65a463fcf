//! The shape dispatcher and plan builder.
//!
//! Given a compiled query, a classified execution shape and the function's
//! declared surface, the dispatcher builds the execution plan: which
//! database-client call to make, how each placeholder slot binds to a
//! declared parameter, how rows convert to the element type, and how
//! failures convert to the declared failure type.  The plan is data; an
//! external code generator lowers it into calls against the client.

use vstd::prelude::*;

use crate::classify::{
    shape_of, spec_classify, ClassificationError, QueryType, ResultShape,
};
use crate::compile::{compile, Query};
use crate::model::{compile_seq, init_state, joined, TemplateError};
use crate::token::Token;
use crate::type_expr::{
    spec_result_err, spec_result_ok, spec_type_span, type_result_err, type_result_ok, type_span,
    TypeExpr,
};

verus! {

/// An opaque reference to a user-supplied conversion callable.  The core
/// only carries it into the plan; the external code generator resolves it.
#[derive(Clone, Copy, PartialEq, Eq, Structural, Debug)]
pub struct MapperRef {
    /// The front end's handle for the callable.
    pub handle: usize,
}

/// One declared parameter of a query function.
#[derive(Debug)]
pub struct Param {
    /// The parameter's name.
    pub name: String,
    /// The parameter's declared type, where the front end supplies one.
    pub type_hint: Option<TypeExpr>,
    /// The parameter's source position.
    pub pos: usize,
}

/// The declared surface of one query function, supplied by a front end:
/// signature metadata, the template's token sequence, and the optional
/// user-supplied row and error mappers.
#[derive(Debug)]
pub struct FunctionSpec {
    /// Whether the function suspends; the core only passes this through.
    pub is_async: bool,
    /// The source position of the function's name.
    pub name_pos: usize,
    /// The declared parameters, in order.
    pub parameters: Vec<Param>,
    /// The declared return type; a function declared without one cannot
    /// name the error-union wrapper and is rejected.
    pub return_type: Option<TypeExpr>,
    /// The user-supplied row mapper, if any.
    pub row_mapper: Option<MapperRef>,
    /// The user-supplied error mapper, if any.
    pub error_mapper: Option<MapperRef>,
    /// The query template.
    pub template: Vec<Token>,
}

/// One positional binding of the plan: the placeholder slot, the referenced
/// parameter name, and the index of the declared parameter it resolves to,
/// if one of that name exists.
#[derive(Debug)]
pub struct Binding {
    /// The positional slot, starting at 1.
    pub slot: usize,
    /// The referenced parameter name.
    pub name: String,
    /// The index into the declared parameters, resolved by name.
    pub param_index: Option<usize>,
}

/// How a fetched row converts to the element type.
#[derive(Clone, Copy, PartialEq, Eq, Structural, Debug)]
pub enum RowConversion {
    /// Apply the user-supplied row mapper and propagate its result as is.
    Mapper(MapperRef),
    /// Apply the element type's structural conversion capability; its
    /// failure routes through the error conversion.
    DefaultTryFrom,
}

/// How an underlying failure converts to the declared failure type.
#[derive(Clone, Copy, PartialEq, Eq, Structural, Debug)]
pub enum ErrorConversion {
    /// Apply the user-supplied error mapper.
    Mapper(MapperRef),
    /// Apply the automatic widening conversion into the declared failure
    /// type.
    WidenFrom,
}

/// Which database-client operation the plan performs.
#[derive(Clone, Copy, PartialEq, Eq, Structural, Debug)]
pub enum CallKind {
    /// The affected-row-count call.
    ExecuteCount,
    /// The streaming-rows call.
    QueryStreaming,
    /// The optional-row call.
    QueryOptionalRow,
    /// The single-row call.
    QueryOneRow,
}

/// What the generated function returns from the call's outcome.
#[derive(Clone, Copy, PartialEq, Eq, Structural, Debug)]
pub enum ReturnStrategy {
    /// Discard the row count and return unit.
    Unit,
    /// Return the affected-row count itself.
    AffectedCount,
    /// Convert each streamed row and return the collected list.
    Collected,
    /// Convert the row if one was returned and return the optional result.
    OptionalRow,
    /// Convert the one row and return the converted value.
    ConvertedRow,
    /// Return the raw stream handle itself.
    StreamHandle,
}

/// A diagnostic of the whole pass: a template-compiler diagnostic or a
/// classification diagnostic.  One function can surface several.
#[derive(Clone, Copy, PartialEq, Eq, Structural, Debug)]
pub enum Diagnostic {
    /// A diagnostic of the template compiler.
    Template(TemplateError),
    /// A diagnostic of the type classifier.
    Classification(ClassificationError),
}

/// The execution plan of one query function, ready for an external code
/// generator.
#[derive(Debug)]
pub struct ExecutionPlan<'a> {
    /// The compiled query.
    pub query: Query,
    /// The execution shape.
    pub shape: QueryType<'a>,
    /// The positional bindings, in slot order.
    pub bindings: Vec<Binding>,
    /// The row conversion strategy.
    pub row_conversion: RowConversion,
    /// The error conversion strategy.
    pub error_conversion: ErrorConversion,
    /// The database-client operation to perform.
    pub call: CallKind,
    /// What the generated function returns.
    pub return_kind: ReturnStrategy,
}

/// The database-client operation each shape performs.
pub open spec fn spec_call_kind(s: ResultShape) -> CallKind {
    match s {
        ResultShape::Execute => CallKind::ExecuteCount,
        ResultShape::CountRows => CallKind::ExecuteCount,
        ResultShape::List(_) => CallKind::QueryStreaming,
        ResultShape::Optional(_) => CallKind::QueryOptionalRow,
        ResultShape::One(_) => CallKind::QueryOneRow,
        ResultShape::Stream => CallKind::QueryStreaming,
    }
}

/// What the generated function returns for each shape.
pub open spec fn spec_return_strategy(s: ResultShape) -> ReturnStrategy {
    match s {
        ResultShape::Execute => ReturnStrategy::Unit,
        ResultShape::CountRows => ReturnStrategy::AffectedCount,
        ResultShape::List(_) => ReturnStrategy::Collected,
        ResultShape::Optional(_) => ReturnStrategy::OptionalRow,
        ResultShape::One(_) => ReturnStrategy::ConvertedRow,
        ResultShape::Stream => ReturnStrategy::StreamHandle,
    }
}

/// The row conversion strategy: the user mapper where supplied, else the
/// element type's structural conversion capability.
pub open spec fn spec_row_conversion(m: Option<MapperRef>) -> RowConversion {
    match m {
        Some(r) => RowConversion::Mapper(r),
        None => RowConversion::DefaultTryFrom,
    }
}

/// The error conversion strategy: the user mapper where supplied, else the
/// automatic widening conversion.
pub open spec fn spec_error_conversion(m: Option<MapperRef>) -> ErrorConversion {
    match m {
        Some(r) => ErrorConversion::Mapper(r),
        None => ErrorConversion::WidenFrom,
    }
}

/// The index of the first declared parameter named `name`, if one exists.
pub open spec fn spec_param_index(params: Seq<Param>, name: Seq<char>) -> Option<int>
    decreases params.len(),
{
    if params.len() == 0 {
        None
    } else if params[0].name@ == name {
        Some(0int)
    } else {
        match spec_param_index(params.subrange(1, params.len() as int), name) {
            Some(i) => Some(i + 1),
            None => None,
        }
    }
}

/// A first occurrence determines `spec_param_index`.
proof fn lemma_param_index_of_first(params: Seq<Param>, name: Seq<char>, i: int)
    requires
        0 <= i < params.len(),
        params[i].name@ == name,
        forall|j: int| 0 <= j < i ==> (#[trigger] params[j]).name@ != name,
    ensures
        spec_param_index(params, name) == Some(i),
    decreases params.len(),
{
    if params[0].name@ != name {
        let tail = params.subrange(1, params.len() as int);
        lemma_param_index_of_first(tail, name, i - 1);
    }
}

/// With no parameter of that name, `spec_param_index` finds nothing.
proof fn lemma_param_index_none(params: Seq<Param>, name: Seq<char>)
    requires
        forall|j: int| 0 <= j < params.len() ==> (#[trigger] params[j]).name@ != name,
    ensures
        spec_param_index(params, name) is None,
    decreases params.len(),
{
    if params.len() > 0 {
        let tail = params.subrange(1, params.len() as int);
        lemma_param_index_none(tail, name);
    }
}

/// Finds the first declared parameter named `name`.
fn find_param(params: &Vec<Param>, name: &String) -> (r: Option<usize>)
    ensures
        match r {
            Some(i) => i < params@.len() && spec_param_index(params@, name@) == Some(i as int),
            None => spec_param_index(params@, name@) is None,
        },
{
    let mut i: usize = 0;
    while i < params.len()
        invariant
            0 <= i <= params@.len(),
            forall|j: int| 0 <= j < i ==> (#[trigger] params@[j]).name@ != name@,
        decreases params@.len() - i,
    {
        if params[i].name.eq(name) {
            proof {
                lemma_param_index_of_first(params@, name@, i as int);
            }
            return Some(i);
        }
        i = i + 1;
    }
    proof {
        lemma_param_index_none(params@, name@);
    }
    None
}

/// Resolves every placeholder name against the declared parameters, in slot
/// order: binding output is purely positional even though lookup is by name.
fn resolve_bindings(params: &Vec<Param>, placeholders: &Vec<String>) -> (r: Vec<Binding>)
    ensures
        r@.len() == placeholders@.len(),
        forall|i: int|
            0 <= i < r@.len() ==> {
                let b = #[trigger] r@[i];
                &&& b.slot == i + 1
                &&& b.name@ == placeholders@[i]@
                &&& match b.param_index {
                    Some(k) => spec_param_index(params@, placeholders@[i]@) == Some(k as int),
                    None => spec_param_index(params@, placeholders@[i]@) is None,
                }
            },
{
    let mut out: Vec<Binding> = Vec::new();
    let n = placeholders.len();
    let mut i: usize = 0;
    while i < n
        invariant
            0 <= i <= n,
            n == placeholders@.len(),
            out@.len() == i,
            forall|m: int|
                0 <= m < i ==> {
                    let b = #[trigger] out@[m];
                    &&& b.slot == m + 1
                    &&& b.name@ == placeholders@[m]@
                    &&& match b.param_index {
                        Some(k) => spec_param_index(params@, placeholders@[m]@) == Some(
                            k as int,
                        ),
                        None => spec_param_index(params@, placeholders@[m]@) is None,
                    }
                },
        decreases n - i,
    {
        let name = &placeholders[i];
        let param_index = find_param(params, name);
        out.push(Binding { slot: i + 1, name: name.clone(), param_index });
        i = i + 1;
    }
    out
}

/// Builds the execution plan for a classified shape: the per-shape client
/// call and return strategy, the positional bindings resolved by name, and
/// the row and error conversion strategies chosen from the supplied mappers.
pub fn build_plan<'a>(shape: QueryType<'a>, query: Query, func: &FunctionSpec) -> (plan:
    ExecutionPlan<'a>)
    ensures
        plan.query == query,
        plan.shape == shape,
        plan.call == spec_call_kind(shape_of(shape)),
        plan.return_kind == spec_return_strategy(shape_of(shape)),
        plan.row_conversion == spec_row_conversion(func.row_mapper),
        plan.error_conversion == spec_error_conversion(func.error_mapper),
        plan.bindings@.len() == query.placeholders@.len(),
        forall|i: int|
            0 <= i < plan.bindings@.len() ==> {
                let b = #[trigger] plan.bindings@[i];
                &&& b.slot == i + 1
                &&& b.name@ == query.placeholders@[i]@
                &&& match b.param_index {
                    Some(k) => spec_param_index(func.parameters@, query.placeholders@[i]@)
                        == Some(k as int),
                    None => spec_param_index(func.parameters@, query.placeholders@[i]@) is None,
                }
            },
{
    let bindings = resolve_bindings(&func.parameters, &query.placeholders);
    let call = match shape {
        QueryType::Execute => CallKind::ExecuteCount,
        QueryType::CountRows => CallKind::ExecuteCount,
        QueryType::List(_) => CallKind::QueryStreaming,
        QueryType::Optional(_) => CallKind::QueryOptionalRow,
        QueryType::One(_) => CallKind::QueryOneRow,
        QueryType::Stream => CallKind::QueryStreaming,
    };
    let return_kind = match shape {
        QueryType::Execute => ReturnStrategy::Unit,
        QueryType::CountRows => ReturnStrategy::AffectedCount,
        QueryType::List(_) => ReturnStrategy::Collected,
        QueryType::Optional(_) => ReturnStrategy::OptionalRow,
        QueryType::One(_) => ReturnStrategy::ConvertedRow,
        QueryType::Stream => ReturnStrategy::StreamHandle,
    };
    let row_conversion = match func.row_mapper {
        Some(r) => RowConversion::Mapper(r),
        None => RowConversion::DefaultTryFrom,
    };
    let error_conversion = match func.error_mapper {
        Some(r) => ErrorConversion::Mapper(r),
        None => ErrorConversion::WidenFrom,
    };
    ExecutionPlan { query, shape, bindings, row_conversion, error_conversion, call, return_kind }
}

/// The classification outcome of a declared return type, where a function
/// declared without one is rejected at its name.
pub open spec fn spec_classify_return(rt: Option<TypeExpr>, name_pos: usize) -> Result<
    ResultShape,
    ClassificationError,
> {
    match rt {
        None => Err(ClassificationError::NotAnErrorUnion { pos: name_pos }),
        Some(t) => spec_classify(t),
    }
}

/// Plans one query function: compile the template, classify the declared
/// return type, and build the plan, collecting every diagnostic of both
/// passes — template diagnostics first, then the classification diagnostic,
/// none masking another.  When classification fails the plan falls back to
/// the `Execute` shape so that plan construction still completes and the
/// template's diagnostics surface in the same pass; a plan with diagnostics
/// is never handed to an executor.
pub fn plan_function<'a>(func: &'a FunctionSpec) -> (r: (ExecutionPlan<'a>, Vec<Diagnostic>))
    ensures
        ({
            let st = compile_seq(func.template@, init_state());
            let class = spec_classify_return(func.return_type, func.name_pos);
            let shape = match class {
                Ok(s) => s,
                Err(_) => ResultShape::Execute,
            };
            &&& r.1@ == st.errs.map_values(|e| Diagnostic::Template(e)) + (match class {
                Ok(s) => Seq::<Diagnostic>::empty(),
                Err(e) => seq![Diagnostic::Classification(e)],
            })
            &&& shape_of(r.0.shape) == shape
            &&& r.0.query.query@ == joined(st.frags)
            &&& r.0.query.placeholders.deep_view() == st.names
            &&& r.0.call == spec_call_kind(shape)
            &&& r.0.return_kind == spec_return_strategy(shape)
            &&& r.0.row_conversion == spec_row_conversion(func.row_mapper)
            &&& r.0.error_conversion == spec_error_conversion(func.error_mapper)
            &&& r.0.bindings@.len() == st.names.len()
            &&& forall|i: int|
                0 <= i < r.0.bindings@.len() ==> {
                    let b = #[trigger] r.0.bindings@[i];
                    &&& b.slot == i + 1
                    &&& b.name@ == st.names[i]
                    &&& match b.param_index {
                        Some(k) => spec_param_index(func.parameters@, st.names[i]) == Some(
                            k as int,
                        ),
                        None => spec_param_index(func.parameters@, st.names[i]) is None,
                    }
                }
        }),
{
    let (query, template_errs) = compile(&func.template);
    let mut diags: Vec<Diagnostic> = Vec::new();
    let mut i: usize = 0;
    let n = template_errs.len();
    while i < n
        invariant
            0 <= i <= n,
            n == template_errs@.len(),
            diags@.len() == i,
            forall|j: int|
                0 <= j < i ==> #[trigger] diags@[j] == Diagnostic::Template(template_errs@[j]),
        decreases n - i,
    {
        diags.push(Diagnostic::Template(template_errs[i]));
        i = i + 1;
    }
    let ghost st = compile_seq(func.template@, init_state());
    proof {
        assert(diags@ =~= st.errs.map_values(|e| Diagnostic::Template(e)));
    }
    let shape: QueryType<'a> = match &func.return_type {
        None => {
            diags.push(
                Diagnostic::Classification(
                    ClassificationError::NotAnErrorUnion { pos: func.name_pos },
                ),
            );
            QueryType::Execute
        },
        Some(t) => {
            match QueryType::from_return_type(t) {
                Ok(q) => q,
                Err(e) => {
                    diags.push(Diagnostic::Classification(e));
                    QueryType::Execute
                },
            }
        },
    };
    let ghost class = spec_classify_return(func.return_type, func.name_pos);
    proof {
        if class is Ok {
            assert(diags@ =~= st.errs.map_values(|e| Diagnostic::Template(e)));
        } else {
            assert(diags@ =~= st.errs.map_values(|e| Diagnostic::Template(e)) + seq![
                Diagnostic::Classification(class->Err_0),
            ]);
        }
    }
    let plan = build_plan(shape, query, func);
    (plan, diags)
}

/// The position diagnostics about the success type point at: the success
/// type's own where the wrapper yields one, the whole return type's where
/// it does not, and the function name's where no return type is declared.
pub open spec fn spec_return_type_ok_span(func: FunctionSpec) -> usize {
    match func.return_type {
        None => func.name_pos,
        Some(t) => match spec_result_ok(t) {
            Some(ok) => spec_type_span(ok),
            None => spec_type_span(t),
        },
    }
}

/// The position diagnostics about the failure type point at.
pub open spec fn spec_return_type_err_span(func: FunctionSpec) -> usize {
    match func.return_type {
        None => func.name_pos,
        Some(t) => match spec_result_err(t) {
            Some(e) => spec_type_span(e),
            None => spec_type_span(t),
        },
    }
}

/// Returns the position diagnostics about the success type point at.
pub fn return_type_ok_span(func: &FunctionSpec) -> (p: usize)
    ensures
        p == spec_return_type_ok_span(*func),
{
    match &func.return_type {
        None => func.name_pos,
        Some(t) => {
            match type_result_ok(t) {
                Some(ok) => type_span(ok),
                None => type_span(t),
            }
        },
    }
}

/// Returns the position diagnostics about the failure type point at.
pub fn return_type_err_span(func: &FunctionSpec) -> (p: usize)
    ensures
        p == spec_return_type_err_span(*func),
{
    match &func.return_type {
        None => func.name_pos,
        Some(t) => {
            match type_result_err(t) {
                Some(e) => type_span(e),
                None => type_span(t),
            }
        },
    }
}

} // verus!
