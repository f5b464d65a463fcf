//! The mathematical model of template compilation.
//!
//! Compilation of a token sequence is modeled as a fold over the tokens that
//! grows a [`CompileState`]: an append-only sequence of emitted fragments, the
//! parameter names in first-occurrence order, and the diagnostics collected so
//! far.  The executable compiler is verified against [`compile_seq`], and the
//! compiled query text is the space-separated join of the fragment texts.

use vstd::prelude::*;

use crate::text::dec_digits;
use crate::token::{
    close_char_of, is_identifier, is_marker_char, open_char_of, token_pos, Delim, Token,
};

verus! {

/// A diagnostic of the template compiler.
///
/// The compiler never aborts on malformed input: every failure is recorded
/// and compilation continues, so one template can surface several
/// independent diagnostics.  Each carries the source position it points at.
#[derive(Clone, Copy, PartialEq, Eq, Structural, Debug)]
pub enum TemplateError {
    /// A marker character was not followed by exactly one identifier-shaped
    /// atom.  The position is the offending atom's if one was present, else
    /// the marker's own.
    ExpectedPlaceholderName {
        /// The source position the diagnostic points at.
        pos: usize,
    },
    /// A group token without bracket delimiters stood in the template.
    UndelimitedGroup {
        /// The source position of the undelimited group.
        pos: usize,
    },
}

/// The source position a template diagnostic points at.
pub open spec fn template_err_pos(e: TemplateError) -> usize {
    match e {
        TemplateError::ExpectedPlaceholderName { pos } => pos,
        TemplateError::UndelimitedGroup { pos } => pos,
    }
}

/// The wording of a template diagnostic.
pub open spec fn template_err_text(e: TemplateError) -> Seq<char> {
    match e {
        TemplateError::ExpectedPlaceholderName { .. } => "expected placeholder name"@,
        TemplateError::UndelimitedGroup { .. } => {
            "encountered a group without bracket delimiters in the query"@
        },
    }
}

impl TemplateError {
    /// Returns the source position the diagnostic points at.
    pub fn position(&self) -> (p: usize)
        ensures
            p == template_err_pos(*self),
    {
        match self {
            TemplateError::ExpectedPlaceholderName { pos } => *pos,
            TemplateError::UndelimitedGroup { pos } => *pos,
        }
    }

    /// Returns the wording of the diagnostic.
    pub fn describe(&self) -> (r: &'static str)
        ensures
            r@ == template_err_text(*self),
    {
        match self {
            TemplateError::ExpectedPlaceholderName { .. } => "expected placeholder name",
            TemplateError::UndelimitedGroup { .. } => {
                "encountered a group without bracket delimiters in the query"
            },
        }
    }
}

/// One fragment of the compiled query text.
///
/// The compiled text is the join of the fragment texts with single spaces
/// between fragments (and none before the first).
pub enum Frag {
    /// A verbatim text fragment: a literal atom or a punctuation run.
    Text(Seq<char>),
    /// An opening bracket character emitted when a group is entered.
    Open(char),
    /// A closing bracket character emitted when a group is left.
    Close(char),
    /// A positional placeholder standing for a named parameter.
    Param {
        /// The referenced parameter name.
        name: Seq<char>,
        /// The positional slot, starting at 1.
        slot: int,
    },
}

/// The state grown by compiling a template: emitted fragments, parameter
/// names in first-occurrence order, and collected diagnostics.
pub struct CompileState {
    /// The fragments emitted so far, in order.
    pub frags: Seq<Frag>,
    /// The distinct parameter names seen so far, in first-occurrence order;
    /// the name at index `i` is bound to slot `i + 1`.
    pub names: Seq<Seq<char>>,
    /// The diagnostics collected so far, in order of discovery.
    pub errs: Seq<TemplateError>,
}

/// The state compilation starts from: nothing emitted, no names, no errors.
pub open spec fn init_state() -> CompileState {
    CompileState { frags: Seq::empty(), names: Seq::empty(), errs: Seq::empty() }
}

/// `st` with one more fragment.
pub open spec fn push_frag(st: CompileState, f: Frag) -> CompileState {
    CompileState { frags: st.frags.push(f), ..st }
}

/// `st` with one more diagnostic.
pub open spec fn push_err(st: CompileState, e: TemplateError) -> CompileState {
    CompileState { errs: st.errs.push(e), ..st }
}

/// Whether `name` occurs in `names`.
pub open spec fn has_name(names: Seq<Seq<char>>, name: Seq<char>) -> bool {
    exists|i: int| 0 <= i < names.len() && names[i] == name
}

/// The index of the first occurrence of `name` in `names` (meaningful only
/// when `name` occurs).
pub open spec fn name_index(names: Seq<Seq<char>>, name: Seq<char>) -> int
    decreases names.len(),
{
    if names.len() == 0 {
        0
    } else if names[0] == name {
        0
    } else {
        1 + name_index(names.subrange(1, names.len() as int), name)
    }
}

/// A name that occurs in `names` does so at `name_index`, and nowhere
/// earlier.
pub proof fn lemma_name_index_props(names: Seq<Seq<char>>, name: Seq<char>)
    requires
        has_name(names, name),
    ensures
        0 <= name_index(names, name) < names.len(),
        names[name_index(names, name)] == name,
        forall|j: int| 0 <= j < name_index(names, name) ==> names[j] != name,
    decreases names.len(),
{
    if names.len() > 0 && names[0] != name {
        let tail = names.subrange(1, names.len() as int);
        assert(has_name(tail, name)) by {
            let i = choose|i: int| 0 <= i < names.len() && names[i] == name;
            assert(tail[i - 1] == name);
        }
        lemma_name_index_props(tail, name);
        assert forall|j: int| 0 <= j < name_index(names, name) implies names[j] != name by {
            if j > 0 {
                assert(tail[j - 1] == names[j]);
            }
        }
    }
}

/// A first occurrence determines `name_index`.
pub proof fn lemma_name_index_of_first(names: Seq<Seq<char>>, name: Seq<char>, i: int)
    requires
        0 <= i < names.len(),
        names[i] == name,
        forall|j: int| 0 <= j < i ==> names[j] != name,
    ensures
        has_name(names, name),
        name_index(names, name) == i,
    decreases names.len(),
{
    if names[0] != name {
        let tail = names.subrange(1, names.len() as int);
        lemma_name_index_of_first(tail, name, i - 1);
    }
}

/// Appending a further name moves no existing occurrence.
pub proof fn lemma_name_index_push(names: Seq<Seq<char>>, name: Seq<char>, other: Seq<char>)
    requires
        has_name(names, name),
    ensures
        has_name(names.push(other), name),
        name_index(names.push(other), name) == name_index(names, name),
{
    lemma_name_index_props(names, name);
    let i = name_index(names, name);
    assert(names.push(other)[i] == name);
    lemma_name_index_of_first(names.push(other), name, i);
}

/// A fresh name appended at the end is indexed at the old length.
pub proof fn lemma_name_index_append_fresh(names: Seq<Seq<char>>, name: Seq<char>)
    requires
        !has_name(names, name),
    ensures
        has_name(names.push(name), name),
        name_index(names.push(name), name) == names.len(),
{
    assert(names.push(name)[names.len() as int] == name);
    lemma_name_index_of_first(names.push(name), name, names.len() as int);
}

/// Resolves a parameter reference against `st`: a name already seen reuses
/// its slot, a new name is appended and bound to the next free slot.  Either
/// way a placeholder fragment for the resolved slot is emitted.
pub open spec fn intern(st: CompileState, name: Seq<char>) -> CompileState {
    if has_name(st.names, name) {
        push_frag(st, Frag::Param { name, slot: name_index(st.names, name) + 1 })
    } else {
        CompileState {
            frags: st.frags.push(Frag::Param { name, slot: st.names.len() as int + 1 }),
            names: st.names.push(name),
            errs: st.errs,
        }
    }
}

/// The length of the maximal prefix of `s` made of punctuation atoms that do
/// not begin a parameter reference.  Such a prefix is concatenated into one
/// fragment, keeping multi-character operators intact.
pub open spec fn punct_run_len(s: Seq<Token>) -> nat
    decreases s.len(),
{
    if s.len() == 0 {
        0
    } else {
        match s[0] {
            Token::Punct { ch, .. } => {
                if is_marker_char(ch) {
                    0
                } else {
                    1 + punct_run_len(s.subrange(1, s.len() as int))
                }
            },
            _ => 0,
        }
    }
}

/// The characters of the maximal punctuation run at the front of `s`,
/// concatenated in order.
pub open spec fn punct_run_chars(s: Seq<Token>) -> Seq<char>
    decreases s.len(),
{
    if s.len() == 0 {
        Seq::empty()
    } else {
        match s[0] {
            Token::Punct { ch, .. } => {
                if is_marker_char(ch) {
                    Seq::empty()
                } else {
                    seq![ch] + punct_run_chars(s.subrange(1, s.len() as int))
                }
            },
            _ => Seq::empty(),
        }
    }
}

/// The punctuation run at the front of a sequence never extends past its
/// end, and is nonempty exactly when the sequence starts with a punctuation
/// atom that does not begin a parameter reference.
pub proof fn lemma_punct_run_bounds(s: Seq<Token>)
    ensures
        punct_run_len(s) <= s.len(),
        punct_run_len(s) >= 1 <==> s.len() >= 1 && (s[0] matches Token::Punct { ch, .. }
            && !is_marker_char(ch)),
    decreases s.len(),
{
    if s.len() > 0 {
        lemma_punct_run_bounds(s.subrange(1, s.len() as int));
    }
}

/// Compiles the token sequence `s` starting from state `st`.
///
/// One step consumes, in order: a literal atom (emitted verbatim); a
/// pre-lexed parameter marker (resolved via [`intern`]); a group (its
/// opening bracket, its compiled children, its closing bracket — or an
/// [`TemplateError::UndelimitedGroup`] diagnostic, skipping the children, if
/// it has no brackets); a punctuation atom beginning a parameter reference
/// together with the identifier-shaped atom that must follow it (resolved
/// via [`intern`]; a missing or wrong-shaped follower yields an
/// [`TemplateError::ExpectedPlaceholderName`] diagnostic and consumes the
/// marker alone); or a maximal run of other punctuation atoms, concatenated
/// into one fragment.
pub open spec fn compile_seq(s: Seq<Token>, st: CompileState) -> CompileState
    decreases s,
    via compile_seq_decreases
{
    if s.len() == 0 {
        st
    } else {
        let rest = s.subrange(1, s.len() as int);
        match s[0] {
            Token::Literal { text, .. } => compile_seq(rest, push_frag(st, Frag::Text(text@))),
            Token::Marker { name, .. } => compile_seq(rest, intern(st, name@)),
            Token::Group { delim, children, pos } => {
                if delim is Undelimited {
                    compile_seq(rest, push_err(st, TemplateError::UndelimitedGroup { pos }))
                } else {
                    let st1 = push_frag(st, Frag::Open(open_char_of(delim)));
                    let st2 = compile_seq(children@, st1);
                    compile_seq(rest, push_frag(st2, Frag::Close(close_char_of(delim))))
                }
            },
            Token::Punct { ch, pos } => {
                if is_marker_char(ch) {
                    if s.len() >= 2 {
                        match s[1] {
                            Token::Literal { text, .. } => {
                                if is_identifier(text@) {
                                    compile_seq(
                                        s.subrange(2, s.len() as int),
                                        intern(st, text@),
                                    )
                                } else {
                                    compile_seq(
                                        rest,
                                        push_err(
                                            st,
                                            TemplateError::ExpectedPlaceholderName {
                                                pos: token_pos(s[1]),
                                            },
                                        ),
                                    )
                                }
                            },
                            _ => compile_seq(
                                rest,
                                push_err(
                                    st,
                                    TemplateError::ExpectedPlaceholderName {
                                        pos: token_pos(s[1]),
                                    },
                                ),
                            ),
                        }
                    } else {
                        compile_seq(
                            rest,
                            push_err(st, TemplateError::ExpectedPlaceholderName { pos }),
                        )
                    }
                } else {
                    let k = punct_run_len(s);
                    compile_seq(
                        s.subrange(k as int, s.len() as int),
                        push_frag(st, Frag::Text(punct_run_chars(s))),
                    )
                }
            },
        }
    }
}

#[via_fn]
proof fn compile_seq_decreases(s: Seq<Token>, st: CompileState) {
    if s.len() > 0 {
        assert(decreases_to!(s => s[0]));
        lemma_punct_run_bounds(s);
    }
}

/// The text a fragment contributes to the compiled query.
pub open spec fn frag_text(f: Frag) -> Seq<char> {
    match f {
        Frag::Text(t) => t,
        Frag::Open(c) => seq![c],
        Frag::Close(c) => seq![c],
        Frag::Param { slot, .. } => seq!['$'] + dec_digits(slot as nat),
    }
}

/// The compiled query text: the fragment texts joined with exactly one
/// space between consecutive fragments, and none before the first.
pub open spec fn joined(frags: Seq<Frag>) -> Seq<char>
    decreases frags.len(),
{
    if frags.len() == 0 {
        Seq::empty()
    } else if frags.len() == 1 {
        frag_text(frags[0])
    } else {
        joined(frags.drop_last()) + seq![' '] + frag_text(frags.last())
    }
}

/// Appending a fragment appends its text to the joined query, after a
/// single separating space unless it is the first fragment.
pub proof fn lemma_joined_push(frags: Seq<Frag>, f: Frag)
    ensures
        joined(frags.push(f)) == if frags.len() == 0 {
            frag_text(f)
        } else {
            joined(frags) + seq![' '] + frag_text(f)
        },
{
    let g = frags.push(f);
    assert(g.drop_last() =~= frags);
    assert(g.last() == f);
    if frags.len() == 0 {
        assert(g[0] == f);
    }
}

} // verus!
