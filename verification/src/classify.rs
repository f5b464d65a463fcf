//! The declared-result-type classifier.
//!
//! A query function's declared return type determines its execution shape.
//! The classifier first unwraps the two-variant error-union wrapper
//! (`Result<_, _>`, written out in full — an alias cannot be resolved here),
//! then pattern-matches the success type against the recognized shapes, in
//! this priority order: growable list, optional value, row stream, unit,
//! 64-bit unsigned row count.  Anything else is rejected.

use vstd::prelude::*;

use crate::type_expr::{
    spec_as_path, spec_is_row_stream, spec_is_u64, spec_is_unit, spec_strip_option,
    spec_strip_vec, spec_type_span, type_as_path, type_is_row_stream, type_is_u64, type_is_unit,
    type_own_pos, type_position, type_span, type_strip_option, type_strip_vec, GenericArgument,
    PathArguments, TypeExpr,
};
use crate::text::str_eq;

verus! {

/// An error of the type classifier.  Each carries the source position its
/// diagnostic points at.
#[derive(Clone, Copy, PartialEq, Eq, Structural, Debug)]
pub enum ClassificationError {
    /// The declared return type is not the two-variant error-union wrapper,
    /// or carries the wrong number or kind of arguments.
    NotAnErrorUnion {
        /// The source position the diagnostic points at.
        pos: usize,
    },
    /// The unwrapped success type matches none of the recognized shapes.
    UnsupportedShape {
        /// The source position the diagnostic points at.
        pos: usize,
    },
}

/// The source position a classification error points at.
pub open spec fn class_err_pos(e: ClassificationError) -> usize {
    match e {
        ClassificationError::NotAnErrorUnion { pos } => pos,
        ClassificationError::UnsupportedShape { pos } => pos,
    }
}

impl ClassificationError {
    /// Returns the source position the diagnostic points at.
    pub fn position(&self) -> (p: usize)
        ensures
            p == class_err_pos(*self),
    {
        match self {
            ClassificationError::NotAnErrorUnion { pos } => *pos,
            ClassificationError::UnsupportedShape { pos } => *pos,
        }
    }

    /// Returns the long-form guidance for this diagnostic.
    pub fn describe(&self) -> (r: &'static str)
        ensures
            r@ == describe_text(*self),
    {
        match self {
            ClassificationError::NotAnErrorUnion { .. } => {
                "expected `Result<_, _>`; note: a type alias can not be resolved here, replace the alias with the actual type name"
            },
            ClassificationError::UnsupportedShape { .. } => {
                "expected `()`, `u64`, `Vec<_>`, `Option<_>`, `RowStream` or `RowIter`; note: a type alias can not be resolved here, replace the alias with the actual type name"
            },
        }
    }
}

/// The long-form guidance text of a classification error.
pub open spec fn describe_text(e: ClassificationError) -> Seq<char> {
    match e {
        ClassificationError::NotAnErrorUnion { .. } => {
            "expected `Result<_, _>`; note: a type alias can not be resolved here, replace the alias with the actual type name"@
        },
        ClassificationError::UnsupportedShape { .. } => {
            "expected `()`, `u64`, `Vec<_>`, `Option<_>`, `RowStream` or `RowIter`; note: a type alias can not be resolved here, replace the alias with the actual type name"@
        },
    }
}

/// The execution shape of a query function, derived from its declared
/// return type.  Exactly one shape is selected per function.
///
/// `One` is defined for the plan builder but is produced by no recognized
/// return-type pattern: the classifier reaches only the other five shapes.
/// It is kept as a reserved extension point, not invented a trigger for.
#[derive(Debug)]
pub enum QueryType<'a> {
    /// Run the query, discard the affected-row count, return unit.
    Execute,
    /// Run the query, return the affected-row count.
    CountRows,
    /// Stream the rows, convert each, collect into a growable list.
    List(&'a TypeExpr),
    /// Fetch zero or one row, convert it if present.
    Optional(&'a TypeExpr),
    /// Fetch exactly one row and convert it.
    One(&'a TypeExpr),
    /// Return the raw row stream itself.
    Stream,
}

/// The value-level execution shape a [`QueryType`] stands for.
#[derive(Debug)]
pub enum ResultShape {
    /// Run the query, discard the affected-row count, return unit.
    Execute,
    /// Run the query, return the affected-row count.
    CountRows,
    /// Stream the rows, convert each, collect into a growable list.
    List(TypeExpr),
    /// Fetch zero or one row, convert it if present.
    Optional(TypeExpr),
    /// Fetch exactly one row and convert it.
    One(TypeExpr),
    /// Return the raw row stream itself.
    Stream,
}

/// The value-level shape a borrowed [`QueryType`] stands for.
pub open spec fn shape_of<'a>(q: QueryType<'a>) -> ResultShape {
    match q {
        QueryType::Execute => ResultShape::Execute,
        QueryType::CountRows => ResultShape::CountRows,
        QueryType::List(x) => ResultShape::List(*x),
        QueryType::Optional(x) => ResultShape::Optional(*x),
        QueryType::One(x) => ResultShape::One(*x),
        QueryType::Stream => ResultShape::Stream,
    }
}

/// Unwraps the two-variant error-union wrapper: the type must be (under
/// grouping layers) a path whose last segment is named `Result` and carries
/// one or two angle-bracketed arguments, the first of which is a type — the
/// success type.  Every other outer form is rejected.
pub open spec fn spec_strip_result(t: TypeExpr) -> Result<TypeExpr, ClassificationError> {
    match spec_as_path(t) {
        None => Err(ClassificationError::NotAnErrorUnion { pos: type_own_pos(t) }),
        Some(p) => {
            if p.segments@.len() == 0 {
                Err(ClassificationError::NotAnErrorUnion { pos: p.pos })
            } else {
                let seg = p.segments@.last();
                if seg.ident@ != "Result"@ {
                    Err(ClassificationError::NotAnErrorUnion { pos: seg.pos })
                } else {
                    match seg.arguments {
                        PathArguments::AngleBracketed(args) => {
                            if args@.len() == 0 || args@.len() > 2 {
                                Err(ClassificationError::NotAnErrorUnion { pos: seg.pos })
                            } else {
                                match args@[0] {
                                    GenericArgument::TypeArg(b) => Ok(*b),
                                    GenericArgument::OtherArg { pos } => {
                                        Err(ClassificationError::NotAnErrorUnion { pos })
                                    },
                                }
                            }
                        },
                        _ => Err(ClassificationError::NotAnErrorUnion { pos: seg.pos }),
                    }
                }
            }
        },
    }
}

/// Classifies an unwrapped success type, first match wins: growable list,
/// optional value, recognized row stream, unit, 64-bit unsigned row count;
/// everything else is rejected with the exact accepted set named in the
/// diagnostic.
pub open spec fn spec_classify_success(inner: TypeExpr) -> Result<ResultShape, ClassificationError> {
    if spec_strip_vec(inner) is Some {
        Ok(ResultShape::List(spec_strip_vec(inner)->0))
    } else if spec_strip_option(inner) is Some {
        Ok(ResultShape::Optional(spec_strip_option(inner)->0))
    } else if spec_is_row_stream(inner) {
        Ok(ResultShape::Stream)
    } else if spec_is_unit(inner) {
        Ok(ResultShape::Execute)
    } else if spec_is_u64(inner) {
        Ok(ResultShape::CountRows)
    } else {
        Err(ClassificationError::UnsupportedShape { pos: spec_type_span(inner) })
    }
}

/// Classifies a declared return type: unwrap the error-union wrapper, then
/// pattern-match the success type.
pub open spec fn spec_classify(t: TypeExpr) -> Result<ResultShape, ClassificationError> {
    match spec_strip_result(t) {
        Err(e) => Err(e),
        Ok(inner) => spec_classify_success(inner),
    }
}

/// Unwraps the error-union wrapper and returns the success type, or the
/// rejection diagnostic.
pub fn type_strip_result<'a>(typ: &'a TypeExpr) -> (r: Result<&'a TypeExpr, ClassificationError>)
    ensures
        match r {
            Ok(x) => spec_strip_result(*typ) == Ok::<TypeExpr, ClassificationError>(*x),
            Err(e) => spec_strip_result(*typ) == Err::<TypeExpr, ClassificationError>(e),
        },
{
    let path = match type_as_path(typ) {
        Some(p) => p,
        None => {
            return Err(
                ClassificationError::NotAnErrorUnion { pos: type_position(typ) },
            );
        },
    };
    let n = path.segments.len();
    if n == 0 {
        return Err(ClassificationError::NotAnErrorUnion { pos: path.pos });
    }
    let seg = &path.segments[n - 1];
    if !str_eq(seg.ident.as_str(), "Result") {
        return Err(ClassificationError::NotAnErrorUnion { pos: seg.pos });
    }
    let args = match &seg.arguments {
        PathArguments::AngleBracketed(args) => args,
        _ => {
            return Err(ClassificationError::NotAnErrorUnion { pos: seg.pos });
        },
    };
    if args.len() == 0 || args.len() > 2 {
        return Err(ClassificationError::NotAnErrorUnion { pos: seg.pos });
    }
    match &args[0] {
        GenericArgument::TypeArg(b) => Ok(&**b),
        GenericArgument::OtherArg { pos } => {
            Err(ClassificationError::NotAnErrorUnion { pos: *pos })
        },
    }
}

impl<'a> QueryType<'a> {
    /// Classifies a declared return type into its execution shape.
    ///
    /// The wrapper is unwrapped first; then the success type is matched in
    /// priority order against growable list, optional value, recognized row
    /// stream, unit and 64-bit unsigned row count, and anything else is
    /// rejected with [`ClassificationError::UnsupportedShape`].
    pub fn from_return_type(typ: &'a TypeExpr) -> (r: Result<QueryType<'a>, ClassificationError>)
        ensures
            match r {
                Ok(q) => spec_classify(*typ) == Ok::<ResultShape, ClassificationError>(
                    shape_of(q),
                ),
                Err(e) => spec_classify(*typ) == Err::<ResultShape, ClassificationError>(e),
            },
    {
        let inner = match type_strip_result(typ) {
            Ok(x) => x,
            Err(e) => {
                return Err(e);
            },
        };
        if let Some(elem) = type_strip_vec(inner) {
            Ok(QueryType::List(elem))
        } else if let Some(elem) = type_strip_option(inner) {
            Ok(QueryType::Optional(elem))
        } else if type_is_row_stream(inner) {
            Ok(QueryType::Stream)
        } else if type_is_unit(inner) {
            Ok(QueryType::Execute)
        } else if type_is_u64(inner) {
            Ok(QueryType::CountRows)
        } else {
            Err(ClassificationError::UnsupportedShape { pos: type_span(inner) })
        }
    }
}

} // verus!
