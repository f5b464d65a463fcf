//! The declared-type descriptor and its inspection helpers.
//!
//! A declared result type is modeled as a tree: a path of segments with
//! optional generic arguments, a tuple, a parenthesized or invisibly grouped
//! inner type, or an unrecognized form.  A front end folds the host
//! language's type syntax into this shape; a path written with a leading
//! separator is encoded with an empty leading segment.  Name matching is
//! exact path-segment equality against small fixed candidate sets, never
//! prefix or substring matching.

use vstd::prelude::*;

use crate::text::str_eq;

verus! {

/// A path type: segments separated by the host language's path separator.
#[derive(Debug)]
pub struct TypePath {
    /// The path's segments, in order.
    pub segments: Vec<PathSegment>,
    /// The path's source position.
    pub pos: usize,
}

/// One segment of a path: an identifier with optional generic arguments.
#[derive(Debug)]
pub struct PathSegment {
    /// The segment's identifier.
    pub ident: String,
    /// The segment's generic arguments.
    pub arguments: PathArguments,
    /// The segment's source position.
    pub pos: usize,
}

/// The generic arguments carried by a path segment.
#[derive(Debug)]
pub enum PathArguments {
    /// No arguments at all.
    NoArguments,
    /// Angle-bracketed arguments, as in a generic container type.
    AngleBracketed(Vec<GenericArgument>),
    /// Parenthesized arguments, as in a function-shaped type.
    Parenthesized,
}

/// One generic argument of a path segment.
#[derive(Debug)]
pub enum GenericArgument {
    /// A type argument.
    TypeArg(Box<TypeExpr>),
    /// A non-type argument (a lifetime, a constant, a binding).
    OtherArg {
        /// The argument's source position.
        pos: usize,
    },
}

/// A declared-type descriptor.
#[derive(Debug)]
pub enum TypeExpr {
    /// A path type.
    Path(TypePath),
    /// A tuple type; the empty tuple is the unit type.
    Tuple {
        /// The tuple's element types.
        elems: Vec<TypeExpr>,
        /// The tuple's source position.
        pos: usize,
    },
    /// A parenthesized type.
    Paren {
        /// The inner type.
        inner: Box<TypeExpr>,
        /// The parentheses' source position.
        pos: usize,
    },
    /// An invisibly grouped type, as produced by macro expansion.
    Grouped {
        /// The inner type.
        inner: Box<TypeExpr>,
        /// The group's source position.
        pos: usize,
    },
    /// A type of any other form.
    Other {
        /// The type's source position.
        pos: usize,
    },
}

/// The source position a type descriptor carries.
pub open spec fn type_own_pos(t: TypeExpr) -> usize {
    match t {
        TypeExpr::Path(p) => p.pos,
        TypeExpr::Tuple { pos, .. } => pos,
        TypeExpr::Paren { pos, .. } => pos,
        TypeExpr::Grouped { pos, .. } => pos,
        TypeExpr::Other { pos } => pos,
    }
}

/// `t` with all parenthesized and invisible grouping layers removed.
pub open spec fn spec_strip_paren(t: TypeExpr) -> TypeExpr
    decreases t,
{
    match t {
        TypeExpr::Paren { inner, .. } => spec_strip_paren(*inner),
        TypeExpr::Grouped { inner, .. } => spec_strip_paren(*inner),
        _ => t,
    }
}

/// The path under `t`'s grouping layers, if `t` is a path type.
pub open spec fn spec_as_path(t: TypeExpr) -> Option<TypePath> {
    match spec_strip_paren(t) {
        TypeExpr::Path(p) => Some(p),
        _ => None,
    }
}

/// Whether `p`'s segment identifiers are exactly `comps`, in order.
pub open spec fn spec_path_is(p: TypePath, comps: Seq<Seq<char>>) -> bool {
    &&& p.segments@.len() == comps.len()
    &&& forall|i: int| 0 <= i < comps.len() ==> (#[trigger] p.segments@[i]).ident@ == comps[i]
}

/// Whether `p` matches one of the candidate spellings.
pub open spec fn spec_path_is_one_of(p: TypePath, cands: Seq<Seq<Seq<char>>>) -> bool {
    exists|k: int| 0 <= k < cands.len() && spec_path_is(p, #[trigger] cands[k])
}

/// Strips parenthesized and invisible grouping layers.
pub fn type_strip_paren(typ: &TypeExpr) -> (r: &TypeExpr)
    ensures
        *r == spec_strip_paren(*typ),
    decreases *typ,
{
    match typ {
        TypeExpr::Paren { inner, .. } => type_strip_paren(inner),
        TypeExpr::Grouped { inner, .. } => type_strip_paren(inner),
        _ => typ,
    }
}

/// Returns the path under `typ`'s grouping layers, if `typ` is a path type.
pub fn type_as_path(typ: &TypeExpr) -> (r: Option<&TypePath>)
    ensures
        match r {
            Some(p) => spec_as_path(*typ) == Some(*p),
            None => spec_as_path(*typ) is None,
        },
{
    match type_strip_paren(typ) {
        TypeExpr::Path(p) => Some(p),
        _ => None,
    }
}

/// Returns whether `path`'s segment identifiers are exactly `components`.
pub fn path_is(path: &TypePath, components: &[&str]) -> (b: bool)
    ensures
        b == spec_path_is(*path, components.deep_view()),
{
    let n = path.segments.len();
    if n != components.len() {
        return false;
    }
    let mut i: usize = 0;
    while i < n
        invariant
            0 <= i <= n,
            n == path.segments@.len(),
            n == components.deep_view().len(),
            components.deep_view().len() == components@.len(),
            forall|j: int|
                0 <= j < i ==> (#[trigger] path.segments@[j]).ident@ == components.deep_view()[j],
        decreases n - i,
    {
        proof {
            assert(components.deep_view()[i as int] == components@[i as int]@);
        }
        if !str_eq(path.segments[i].ident.as_str(), components[i]) {
            return false;
        }
        i = i + 1;
    }
    true
}

/// Returns whether `path` matches one of the candidate spellings.
pub fn path_is_one_of(path: &TypePath, candidates: &[&[&str]]) -> (b: bool)
    ensures
        b == spec_path_is_one_of(*path, candidates.deep_view()),
{
    let n = candidates.len();
    let mut k: usize = 0;
    while k < n
        invariant
            0 <= k <= n,
            n == candidates@.len(),
            candidates.deep_view().len() == candidates@.len(),
            forall|m: int| 0 <= m < k ==> !spec_path_is(*path, candidates.deep_view()[m]),
        decreases n - k,
    {
        proof {
            assert(candidates.deep_view()[k as int] == candidates@[k as int].deep_view());
        }
        if path_is(path, candidates[k]) {
            return true;
        }
        k = k + 1;
    }
    false
}

/// The accepted spellings of the growable-list type.
pub open spec fn vec_path_names() -> Seq<Seq<Seq<char>>> {
    seq![
        seq!["Vec"@],
        seq!["std"@, "vec"@, "Vec"@],
        seq!["alloc"@, "vec"@, "Vec"@],
        seq![""@, "std"@, "vec"@, "Vec"@],
        seq![""@, "alloc"@, "vec"@, "Vec"@],
    ]
}

/// The accepted spellings of the optional-value type.
pub open spec fn option_path_names() -> Seq<Seq<Seq<char>>> {
    seq![
        seq!["Option"@],
        seq!["std"@, "option"@, "Option"@],
        seq!["core"@, "option"@, "Option"@],
        seq![""@, "std"@, "option"@, "Option"@],
        seq![""@, "core"@, "option"@, "Option"@],
    ]
}

/// The accepted spellings of the recognized row-stream types.
pub open spec fn row_stream_path_names() -> Seq<Seq<Seq<char>>> {
    seq![
        seq!["RowStream"@],
        seq!["tokio_postgres"@, "RowStream"@],
        seq![""@, "tokio_postgres"@, "RowStream"@],
        seq!["RowIter"@],
        seq!["postgres"@, "RowIter"@],
        seq![""@, "postgres"@, "RowIter"@],
    ]
}

/// The error-union wrapper's generic arguments, if `t` is (under grouping
/// layers) a path whose last segment is the wrapper name `Result` with
/// angle-bracketed arguments.
pub open spec fn spec_result_args(t: TypeExpr) -> Option<Seq<GenericArgument>> {
    match spec_as_path(t) {
        Some(p) => {
            if p.segments@.len() > 0 && p.segments@.last().ident@ == "Result"@ {
                match p.segments@.last().arguments {
                    PathArguments::AngleBracketed(args) => Some(args@),
                    _ => None,
                }
            } else {
                None
            }
        },
        None => None,
    }
}

/// The first argument of `args`, if it is a type argument.
pub open spec fn spec_first_type_arg(args: Seq<GenericArgument>) -> Option<TypeExpr> {
    if args.len() > 0 {
        match args[0] {
            GenericArgument::TypeArg(b) => Some(*b),
            _ => None,
        }
    } else {
        None
    }
}

/// The element type of a container spelled one of `names`: the first type
/// argument of the matched path's last segment.  A matched container with no
/// arguments, or a non-type first argument, yields nothing.
pub open spec fn spec_strip_container(t: TypeExpr, names: Seq<Seq<Seq<char>>>) -> Option<
    TypeExpr,
> {
    match spec_as_path(t) {
        Some(p) => {
            if spec_path_is_one_of(p, names) && p.segments@.len() > 0 {
                match p.segments@.last().arguments {
                    PathArguments::AngleBracketed(args) => spec_first_type_arg(args@),
                    _ => None,
                }
            } else {
                None
            }
        },
        None => None,
    }
}

/// The element type of a growable-list type, if `t` is one.
pub open spec fn spec_strip_vec(t: TypeExpr) -> Option<TypeExpr> {
    spec_strip_container(t, vec_path_names())
}

/// The element type of an optional-value type, if `t` is one.
pub open spec fn spec_strip_option(t: TypeExpr) -> Option<TypeExpr> {
    spec_strip_container(t, option_path_names())
}

/// Whether `t` is one of the recognized row-stream types.
pub open spec fn spec_is_row_stream(t: TypeExpr) -> bool {
    match spec_as_path(t) {
        Some(p) => spec_path_is_one_of(p, row_stream_path_names()),
        None => false,
    }
}

/// Whether `t` is the unit type: an empty tuple under grouping layers.
pub open spec fn spec_is_unit(t: TypeExpr) -> bool {
    match spec_strip_paren(t) {
        TypeExpr::Tuple { elems, .. } => elems@.len() == 0,
        _ => false,
    }
}

/// Whether `t` is the 64-bit unsigned integer type: the bare one-segment
/// path `u64` without arguments.
pub open spec fn spec_is_u64(t: TypeExpr) -> bool {
    match spec_as_path(t) {
        Some(p) => {
            &&& p.segments@.len() == 1
            &&& p.segments@[0].ident@ == "u64"@
            &&& p.segments@[0].arguments is NoArguments
        },
        None => false,
    }
}

/// The position diagnostics about `t` point at: the last path segment's
/// when `t` is a path, the type's own otherwise.
pub open spec fn spec_type_span(t: TypeExpr) -> usize {
    match spec_as_path(t) {
        Some(p) => {
            if p.segments@.len() > 0 {
                p.segments@.last().pos
            } else {
                type_own_pos(t)
            }
        },
        None => type_own_pos(t),
    }
}

/// The success type of the error-union wrapper, if `t` is the wrapper and
/// its first argument is a type.
pub open spec fn spec_result_ok(t: TypeExpr) -> Option<TypeExpr> {
    match spec_result_args(t) {
        Some(args) => spec_first_type_arg(args),
        None => None,
    }
}

/// The failure type of the error-union wrapper, if `t` is the wrapper with
/// exactly two arguments of which the second is a type.
pub open spec fn spec_result_err(t: TypeExpr) -> Option<TypeExpr> {
    match spec_result_args(t) {
        Some(args) => {
            if args.len() == 2 {
                match args[1] {
                    GenericArgument::TypeArg(b) => Some(*b),
                    _ => None,
                }
            } else {
                None
            }
        },
        None => None,
    }
}

/// Returns the error-union wrapper's generic arguments, if `typ` is the
/// wrapper with angle-bracketed arguments.
pub fn type_result_args(typ: &TypeExpr) -> (r: Option<&Vec<GenericArgument>>)
    ensures
        match r {
            Some(args) => spec_result_args(*typ) == Some(args@),
            None => spec_result_args(*typ) is None,
        },
{
    let path = match type_as_path(typ) {
        Some(p) => p,
        None => {
            return None;
        },
    };
    let n = path.segments.len();
    if n == 0 {
        return None;
    }
    let seg = &path.segments[n - 1];
    if !str_eq(seg.ident.as_str(), "Result") {
        return None;
    }
    match &seg.arguments {
        PathArguments::AngleBracketed(args) => Some(args),
        _ => None,
    }
}

/// Returns the first argument of `args`, if it is a type argument.
fn first_type_arg(args: &Vec<GenericArgument>) -> (r: Option<&TypeExpr>)
    ensures
        match r {
            Some(x) => spec_first_type_arg(args@) == Some(*x),
            None => spec_first_type_arg(args@) is None,
        },
{
    if args.len() == 0 {
        return None;
    }
    match &args[0] {
        GenericArgument::TypeArg(b) => Some(&**b),
        _ => None,
    }
}

/// Returns the element type of a growable-list type, if `typ` is one.
pub fn type_strip_vec(typ: &TypeExpr) -> (r: Option<&TypeExpr>)
    ensures
        match r {
            Some(x) => spec_strip_vec(*typ) == Some(*x),
            None => spec_strip_vec(*typ) is None,
        },
{
    let path = match type_as_path(typ) {
        Some(p) => p,
        None => {
            return None;
        },
    };
    let c1: [&str; 1] = ["Vec"];
    let c2: [&str; 3] = ["std", "vec", "Vec"];
    let c3: [&str; 3] = ["alloc", "vec", "Vec"];
    let c4: [&str; 4] = ["", "std", "vec", "Vec"];
    let c5: [&str; 4] = ["", "alloc", "vec", "Vec"];
    let cands: [&[&str]; 5] = [
        c1.as_slice(),
        c2.as_slice(),
        c3.as_slice(),
        c4.as_slice(),
        c5.as_slice(),
    ];
    let cs = cands.as_slice();
    let matched = path_is_one_of(path, cs);
    proof {
        assert(cs.deep_view() =~~= vec_path_names());
    }
    if !matched {
        return None;
    }
    let n = path.segments.len();
    if n == 0 {
        return None;
    }
    match &path.segments[n - 1].arguments {
        PathArguments::AngleBracketed(args) => first_type_arg(args),
        _ => None,
    }
}

/// Returns the element type of an optional-value type, if `typ` is one.
pub fn type_strip_option(typ: &TypeExpr) -> (r: Option<&TypeExpr>)
    ensures
        match r {
            Some(x) => spec_strip_option(*typ) == Some(*x),
            None => spec_strip_option(*typ) is None,
        },
{
    let path = match type_as_path(typ) {
        Some(p) => p,
        None => {
            return None;
        },
    };
    let c1: [&str; 1] = ["Option"];
    let c2: [&str; 3] = ["std", "option", "Option"];
    let c3: [&str; 3] = ["core", "option", "Option"];
    let c4: [&str; 4] = ["", "std", "option", "Option"];
    let c5: [&str; 4] = ["", "core", "option", "Option"];
    let cands: [&[&str]; 5] = [
        c1.as_slice(),
        c2.as_slice(),
        c3.as_slice(),
        c4.as_slice(),
        c5.as_slice(),
    ];
    let cs = cands.as_slice();
    let matched = path_is_one_of(path, cs);
    proof {
        assert(cs.deep_view() =~~= option_path_names());
    }
    if !matched {
        return None;
    }
    let n = path.segments.len();
    if n == 0 {
        return None;
    }
    match &path.segments[n - 1].arguments {
        PathArguments::AngleBracketed(args) => first_type_arg(args),
        _ => None,
    }
}

/// Returns whether `typ` is one of the recognized row-stream types.
pub fn type_is_row_stream(typ: &TypeExpr) -> (b: bool)
    ensures
        b == spec_is_row_stream(*typ),
{
    let path = match type_as_path(typ) {
        Some(p) => p,
        None => {
            return false;
        },
    };
    let c1: [&str; 1] = ["RowStream"];
    let c2: [&str; 2] = ["tokio_postgres", "RowStream"];
    let c3: [&str; 3] = ["", "tokio_postgres", "RowStream"];
    let c4: [&str; 1] = ["RowIter"];
    let c5: [&str; 2] = ["postgres", "RowIter"];
    let c6: [&str; 3] = ["", "postgres", "RowIter"];
    let cands: [&[&str]; 6] = [
        c1.as_slice(),
        c2.as_slice(),
        c3.as_slice(),
        c4.as_slice(),
        c5.as_slice(),
        c6.as_slice(),
    ];
    let cs = cands.as_slice();
    let matched = path_is_one_of(path, cs);
    proof {
        assert(cs.deep_view() =~~= row_stream_path_names());
    }
    matched
}

/// Returns whether `typ` is the unit type.
pub fn type_is_unit(typ: &TypeExpr) -> (b: bool)
    ensures
        b == spec_is_unit(*typ),
{
    match type_strip_paren(typ) {
        TypeExpr::Tuple { elems, .. } => elems.len() == 0,
        _ => false,
    }
}

/// Returns whether `typ` is the 64-bit unsigned integer type.
pub fn type_is_u64(typ: &TypeExpr) -> (b: bool)
    ensures
        b == spec_is_u64(*typ),
{
    let path = match type_as_path(typ) {
        Some(p) => p,
        None => {
            return false;
        },
    };
    if path.segments.len() != 1 {
        return false;
    }
    if !str_eq(path.segments[0].ident.as_str(), "u64") {
        return false;
    }
    match &path.segments[0].arguments {
        PathArguments::NoArguments => true,
        _ => false,
    }
}

/// Returns the position diagnostics about `typ` point at.
pub fn type_span(typ: &TypeExpr) -> (p: usize)
    ensures
        p == spec_type_span(*typ),
{
    let own = type_position(typ);
    match type_as_path(typ) {
        Some(path) => {
            let n = path.segments.len();
            if n > 0 {
                path.segments[n - 1].pos
            } else {
                own
            }
        },
        None => own,
    }
}

/// Returns the source position carried by `typ` itself.
pub fn type_position(typ: &TypeExpr) -> (p: usize)
    ensures
        p == type_own_pos(*typ),
{
    match typ {
        TypeExpr::Path(p) => p.pos,
        TypeExpr::Tuple { pos, .. } => *pos,
        TypeExpr::Paren { pos, .. } => *pos,
        TypeExpr::Grouped { pos, .. } => *pos,
        TypeExpr::Other { pos } => *pos,
    }
}

/// Returns the success type of the error-union wrapper, if any.
pub fn type_result_ok(typ: &TypeExpr) -> (r: Option<&TypeExpr>)
    ensures
        match r {
            Some(x) => spec_result_ok(*typ) == Some(*x),
            None => spec_result_ok(*typ) is None,
        },
{
    match type_result_args(typ) {
        Some(args) => first_type_arg(args),
        None => None,
    }
}

/// Returns the failure type of the error-union wrapper, if any.
pub fn type_result_err(typ: &TypeExpr) -> (r: Option<&TypeExpr>)
    ensures
        match r {
            Some(x) => spec_result_err(*typ) == Some(*x),
            None => spec_result_err(*typ) is None,
        },
{
    let args = match type_result_args(typ) {
        Some(args) => args,
        None => {
            return None;
        },
    };
    if args.len() != 2 {
        return None;
    }
    match &args[1] {
        GenericArgument::TypeArg(b) => Some(&**b),
        _ => None,
    }
}

} // verus!
