//! The library's global guarantees, stated and proved over the compilation
//! model: placeholder deduplication, first-occurrence slot ordering, bracket
//! round-tripping, and the classifier's totality on the recognized shapes.

use vstd::prelude::*;

use crate::classify::{spec_classify, spec_strip_result, ClassificationError, ResultShape};
use crate::model::{
    compile_seq, has_name, init_state, intern, lemma_name_index_append_fresh,
    lemma_name_index_of_first, lemma_name_index_props, lemma_name_index_push,
    lemma_punct_run_bounds, name_index, punct_run_chars, punct_run_len, push_err, push_frag,
    CompileState, Frag, TemplateError,
};
use crate::token::{
    close_char_of, is_identifier, is_marker_char, open_char_of, token_pos, Delim, Token,
};
use crate::type_expr::{
    option_path_names, row_stream_path_names, spec_as_path, spec_is_row_stream, spec_is_u64,
    spec_is_unit, spec_path_is, spec_path_is_one_of, spec_strip_option, spec_strip_vec,
    spec_type_span, vec_path_names, TypeExpr, TypePath,
};

verus! {

/// The name a placeholder fragment references.
pub open spec fn param_name(f: Frag) -> Seq<char> {
    f->Param_name
}

/// The slot a placeholder fragment compiled to.
pub open spec fn param_slot(f: Frag) -> int {
    f->Param_slot
}

/// Whether `f` is a placeholder fragment referencing `name`.
pub open spec fn is_param_named(f: Frag, name: Seq<char>) -> bool {
    f matches Frag::Param { name: n, .. } && n == name
}

/// Whether some fragment references `name`.
pub open spec fn has_param(frags: Seq<Frag>, name: Seq<char>) -> bool {
    exists|k: int| 0 <= k < frags.len() && is_param_named(#[trigger] frags[k], name)
}

/// Whether the fragment at `k` is the first placeholder of its name.
pub open spec fn is_first_param(frags: Seq<Frag>, k: int) -> bool {
    &&& 0 <= k < frags.len()
    &&& frags[k] is Param
    &&& forall|j: int| 0 <= j < k ==> !is_param_named(#[trigger] frags[j], param_name(frags[k]))
}

/// The well-formedness the compiler maintains: the parameter names are
/// distinct; every placeholder fragment is bound to slot `i + 1` where `i`
/// indexes its name; every collected name is referenced by some placeholder;
/// and the names stand in first-occurrence order of their placeholders.
pub open spec fn wf_state(st: CompileState) -> bool {
    &&& forall|i: int, j: int| 0 <= i < j < st.names.len() ==> st.names[i] != st.names[j]
    &&& forall|k: int|
        0 <= k < st.frags.len() && (#[trigger] st.frags[k]) is Param ==> has_name(
            st.names,
            param_name(st.frags[k]),
        ) && param_slot(st.frags[k]) == name_index(st.names, param_name(st.frags[k])) + 1
    &&& forall|i: int| 0 <= i < st.names.len() ==> has_param(st.frags, #[trigger] st.names[i])
    &&& forall|k1: int, k2: int|
        is_first_param(st.frags, k1) && is_first_param(st.frags, k2) && k1 < k2 ==> name_index(
            st.names,
            param_name(st.frags[k1]),
        ) < name_index(st.names, param_name(st.frags[k2]))
}

/// The state compilation starts from is well formed.
pub proof fn lemma_wf_init()
    ensures
        wf_state(init_state()),
{
}

/// The first placeholder of a name stays first when a fragment is appended.
proof fn lemma_first_param_push_down(frags: Seq<Frag>, f: Frag, k: int)
    requires
        0 <= k < frags.len(),
        is_first_param(frags.push(f), k),
    ensures
        is_first_param(frags, k),
        param_name(frags[k]) == param_name(frags.push(f)[k]),
{
    assert(frags.push(f)[k] == frags[k]);
    assert forall|j: int| 0 <= j < k implies !is_param_named(
        #[trigger] frags[j],
        param_name(frags[k]),
    ) by {
        assert(frags.push(f)[j] == frags[j]);
        assert(!is_param_named(frags.push(f)[j], param_name(frags.push(f)[k])));
    }
}

/// A referenced name keeps a referencing placeholder when a fragment is
/// appended.
proof fn lemma_has_param_push(frags: Seq<Frag>, f: Frag, name: Seq<char>)
    requires
        has_param(frags, name),
    ensures
        has_param(frags.push(f), name),
{
    let k = choose|k: int| 0 <= k < frags.len() && is_param_named(#[trigger] frags[k], name);
    assert(is_param_named(frags.push(f)[k], name));
}

/// Appending a non-placeholder fragment preserves well-formedness.
proof fn lemma_wf_push_plain(st: CompileState, f: Frag)
    requires
        wf_state(st),
        !(f is Param),
    ensures
        wf_state(push_frag(st, f)),
{
    let st2 = push_frag(st, f);
    assert forall|i: int| 0 <= i < st2.names.len() implies has_param(
        st2.frags,
        #[trigger] st2.names[i],
    ) by {
        assert(has_param(st.frags, st.names[i]));
        lemma_has_param_push(st.frags, f, st.names[i]);
    }
    assert forall|k1: int, k2: int|
        is_first_param(st2.frags, k1) && is_first_param(st2.frags, k2) && k1
            < k2 implies name_index(st2.names, param_name(st2.frags[k1])) < name_index(
        st2.names,
        param_name(st2.frags[k2]),
    ) by {
        assert(st2.frags[k2] is Param);
        assert(k2 < st.frags.len());
        lemma_first_param_push_down(st.frags, f, k1);
        lemma_first_param_push_down(st.frags, f, k2);
    }
}

/// Resolving a parameter reference preserves well-formedness.
proof fn lemma_wf_intern(st: CompileState, name: Seq<char>)
    requires
        wf_state(st),
    ensures
        wf_state(intern(st, name)),
{
    let st2 = intern(st, name);
    if has_name(st.names, name) {
        lemma_name_index_props(st.names, name);
        let newk = st.frags.len() as int;
        let newf = Frag::Param { name, slot: name_index(st.names, name) + 1 };
        assert(st2.frags == st.frags.push(newf));
        assert(is_param_named(st2.frags[newk], name));
        // some earlier placeholder already references the name
        let idx = name_index(st.names, name);
        assert(has_param(st.frags, st.names[idx]));
        assert(st.names[idx] == name);
        assert forall|i: int| 0 <= i < st2.names.len() implies has_param(
            st2.frags,
            #[trigger] st2.names[i],
        ) by {
            assert(has_param(st.frags, st.names[i]));
            lemma_has_param_push(st.frags, newf, st.names[i]);
        }
        assert forall|k1: int, k2: int|
            is_first_param(st2.frags, k1) && is_first_param(st2.frags, k2) && k1
                < k2 implies name_index(st2.names, param_name(st2.frags[k1])) < name_index(
            st2.names,
            param_name(st2.frags[k2]),
        ) by {
            // the appended fragment is not the first of its name
            if k2 == newk {
                let w = choose|k: int|
                    0 <= k < st.frags.len() && is_param_named(#[trigger] st.frags[k], name);
                assert(is_param_named(st2.frags[w], param_name(st2.frags[newk])));
                assert(false);
            } else {
                lemma_first_param_push_down(st.frags, newf, k1);
                lemma_first_param_push_down(st.frags, newf, k2);
            }
        }
    } else {
        let newk = st.frags.len() as int;
        let newf = Frag::Param { name, slot: st.names.len() as int + 1 };
        assert(st2.frags == st.frags.push(newf));
        lemma_name_index_append_fresh(st.names, name);
        // distinctness: the appended name is fresh
        assert forall|i: int, j: int|
            0 <= i < j < st2.names.len() implies st2.names[i] != st2.names[j] by {
            if j == st.names.len() as int {
                assert(st2.names[j] == name);
                assert(!has_name(st.names, name));
                assert(st2.names[i] == st.names[i]);
            }
        }
        // slots of older placeholders are unmoved
        assert forall|k: int|
            0 <= k < st2.frags.len() && (#[trigger] st2.frags[k]) is Param implies has_name(
            st2.names,
            param_name(st2.frags[k]),
        ) && param_slot(st2.frags[k]) == name_index(st2.names, param_name(st2.frags[k]))
            + 1 by {
            if k < st.frags.len() {
                assert(st2.frags[k] == st.frags[k]);
                lemma_name_index_push(st.names, param_name(st.frags[k]), name);
            } else {
                assert(st2.frags[k] == Frag::Param {
                    name,
                    slot: st.names.len() as int + 1,
                });
            }
        }
        // every name is referenced
        assert forall|i: int| 0 <= i < st2.names.len() implies has_param(
            st2.frags,
            #[trigger] st2.names[i],
        ) by {
            if i < st.names.len() {
                assert(has_param(st.frags, st.names[i]));
                lemma_has_param_push(st.frags, newf, st.names[i]);
            } else {
                assert(is_param_named(st2.frags[newk], st2.names[i]));
            }
        }
        // first-occurrence order: the fresh name's first placeholder is last
        assert forall|k1: int, k2: int|
            is_first_param(st2.frags, k1) && is_first_param(st2.frags, k2) && k1
                < k2 implies name_index(st2.names, param_name(st2.frags[k1])) < name_index(
            st2.names,
            param_name(st2.frags[k2]),
        ) by {
            if k2 == newk {
                // k1 references an old name; its index stays below the new one
                lemma_first_param_push_down(st.frags, newf, k1);
                assert(st2.frags[k1] == st.frags[k1]);
                assert(st.frags[k1] is Param);
                assert(has_name(st.names, param_name(st.frags[k1])));
                lemma_name_index_push(st.names, param_name(st.frags[k1]), name);
                lemma_name_index_props(st.names, param_name(st.frags[k1]));
                assert(param_name(st2.frags[k2]) == name);
            } else {
                lemma_first_param_push_down(st.frags, newf, k1);
                lemma_first_param_push_down(st.frags, newf, k2);
                assert(has_name(st.names, param_name(st.frags[k1])));
                assert(has_name(st.names, param_name(st.frags[k2])));
                lemma_name_index_push(st.names, param_name(st.frags[k1]), name);
                lemma_name_index_push(st.names, param_name(st.frags[k2]), name);
            }
        }
    }
}

/// Compilation preserves well-formedness, whatever the template.
pub proof fn lemma_compile_preserves_wf(s: Seq<Token>, st: CompileState)
    requires
        wf_state(st),
    ensures
        wf_state(compile_seq(s, st)),
    decreases s,
{
    if s.len() > 0 {
        let rest = s.subrange(1, s.len() as int);
        match s[0] {
            Token::Literal { text, .. } => {
                lemma_wf_push_plain(st, Frag::Text(text@));
                lemma_compile_preserves_wf(rest, push_frag(st, Frag::Text(text@)));
            },
            Token::Marker { name, .. } => {
                lemma_wf_intern(st, name@);
                lemma_compile_preserves_wf(rest, intern(st, name@));
            },
            Token::Group { delim, children, pos } => {
                if delim is Undelimited {
                    lemma_compile_preserves_wf(
                        rest,
                        push_err(st, TemplateError::UndelimitedGroup { pos }),
                    );
                } else {
                    let st1 = push_frag(st, Frag::Open(open_char_of(delim)));
                    lemma_wf_push_plain(st, Frag::Open(open_char_of(delim)));
                    lemma_compile_preserves_wf(children@, st1);
                    let st2 = compile_seq(children@, st1);
                    lemma_wf_push_plain(st2, Frag::Close(close_char_of(delim)));
                    lemma_compile_preserves_wf(
                        rest,
                        push_frag(st2, Frag::Close(close_char_of(delim))),
                    );
                }
            },
            Token::Punct { ch, pos } => {
                if is_marker_char(ch) {
                    if s.len() >= 2 {
                        match s[1] {
                            Token::Literal { text, .. } => {
                                if is_identifier(text@) {
                                    lemma_wf_intern(st, text@);
                                    lemma_compile_preserves_wf(
                                        s.subrange(2, s.len() as int),
                                        intern(st, text@),
                                    );
                                } else {
                                    lemma_compile_preserves_wf(
                                        rest,
                                        push_err(
                                            st,
                                            TemplateError::ExpectedPlaceholderName {
                                                pos: token_pos(s[1]),
                                            },
                                        ),
                                    );
                                }
                            },
                            _ => {
                                lemma_compile_preserves_wf(
                                    rest,
                                    push_err(
                                        st,
                                        TemplateError::ExpectedPlaceholderName {
                                            pos: token_pos(s[1]),
                                        },
                                    ),
                                );
                            },
                        }
                    } else {
                        lemma_compile_preserves_wf(
                            rest,
                            push_err(
                                st,
                                TemplateError::ExpectedPlaceholderName { pos },
                            ),
                        );
                    }
                } else {
                    lemma_punct_run_bounds(s);
                    let k = punct_run_len(s);
                    lemma_wf_push_plain(st, Frag::Text(punct_run_chars(s)));
                    lemma_compile_preserves_wf(
                        s.subrange(k as int, s.len() as int),
                        push_frag(st, Frag::Text(punct_run_chars(s))),
                    );
                }
            },
        }
    }
}

/// Placeholder deduplication: in any compiled template, two placeholder
/// fragments referencing the same parameter name carry the same slot
/// number; a name referenced at least once stands in the parameter list
/// exactly once; and the parameter list holds no name that no placeholder
/// references.
pub proof fn lemma_placeholder_dedup(tokens: Seq<Token>)
    ensures
        ({
            let st = compile_seq(tokens, init_state());
            &&& forall|k1: int, k2: int|
                0 <= k1 < st.frags.len() && 0 <= k2 < st.frags.len() && (
                #[trigger] st.frags[k1]) is Param && (#[trigger] st.frags[k2]) is Param
                    && param_name(st.frags[k1]) == param_name(st.frags[k2]) ==> param_slot(
                    st.frags[k1],
                ) == param_slot(st.frags[k2])
            &&& forall|k: int|
                0 <= k < st.frags.len() && (#[trigger] st.frags[k]) is Param ==> has_name(
                    st.names,
                    param_name(st.frags[k]),
                )
            &&& forall|i: int, j: int| 0 <= i < j < st.names.len() ==> st.names[i] != st.names[j]
            &&& forall|i: int|
                0 <= i < st.names.len() ==> has_param(st.frags, #[trigger] st.names[i])
            // slot numbers are contiguous from 1: a placeholder of the name
            // at index i carries slot i + 1
            &&& forall|k: int, i: int|
                0 <= k < st.frags.len() && 0 <= i < st.names.len() && is_param_named(
                    #[trigger] st.frags[k],
                    #[trigger] st.names[i],
                ) ==> param_slot(st.frags[k]) == i + 1
        }),
{
    lemma_wf_init();
    lemma_compile_preserves_wf(tokens, init_state());
    let st = compile_seq(tokens, init_state());
    assert forall|k: int, i: int|
        0 <= k < st.frags.len() && 0 <= i < st.names.len() && is_param_named(
            #[trigger] st.frags[k],
            #[trigger] st.names[i],
        ) implies param_slot(st.frags[k]) == i + 1 by {
        lemma_name_index_of_first(st.names, st.names[i], i);
    }
}

/// First-occurrence ordering: in any compiled template, if the first
/// placeholder referencing name `a` stands before the first placeholder
/// referencing name `b`, then `a`'s slot number is smaller than `b`'s.
pub proof fn lemma_first_occurrence_order(tokens: Seq<Token>)
    ensures
        ({
            let st = compile_seq(tokens, init_state());
            forall|k1: int, k2: int|
                is_first_param(st.frags, k1) && is_first_param(st.frags, k2) && k1 < k2
                    ==> param_slot(st.frags[k1]) < param_slot(st.frags[k2])
        }),
{
    lemma_wf_init();
    lemma_compile_preserves_wf(tokens, init_state());
    let st = compile_seq(tokens, init_state());
    assert forall|k1: int, k2: int|
        is_first_param(st.frags, k1) && is_first_param(st.frags, k2) && k1
            < k2 implies param_slot(st.frags[k1]) < param_slot(st.frags[k2]) by {
        assert(st.frags[k1] is Param);
        assert(st.frags[k2] is Param);
    }
}

/// Whether the template references parameter name `p`: a pre-lexed marker
/// of that name, or a marker character followed by an identifier-shaped atom
/// of that name, anywhere in the tree — except inside an undelimited group,
/// whose contents the compiler rejects and skips.
pub open spec fn references(s: Seq<Token>, p: Seq<char>) -> bool
    decreases s,
{
    if s.len() == 0 {
        false
    } else {
        let rest = s.subrange(1, s.len() as int);
        match s[0] {
            Token::Marker { name, .. } => name@ == p || references(rest, p),
            Token::Group { delim, children, .. } => (!(delim is Undelimited) && references(
                children@,
                p,
            )) || references(rest, p),
            Token::Punct { ch, .. } => (is_marker_char(ch) && s.len() >= 2 && (
            s[1] matches Token::Literal { text, .. } && text@ == p && is_identifier(text@)))
                || references(rest, p),
            Token::Literal { .. } => references(rest, p),
        }
    }
}

/// Interning keeps every collected name and collects the interned one.
proof fn lemma_intern_keeps_name(st: CompileState, name: Seq<char>, p: Seq<char>)
    ensures
        has_name(st.names, p) ==> has_name(intern(st, name).names, p),
        has_name(intern(st, name).names, name),
        has_name(intern(st, name).names, p) ==> has_name(st.names, p) || p == name,
{
    let after = intern(st, name).names;
    if has_name(st.names, name) {
        assert(after == st.names);
    } else {
        assert(after == st.names.push(name));
        assert(after[st.names.len() as int] == name);
        if has_name(st.names, p) {
            let i = choose|i: int| 0 <= i < st.names.len() && st.names[i] == p;
            assert(after[i] == p);
        }
        if has_name(after, p) && p != name {
            let i = choose|i: int| 0 <= i < after.len() && after[i] == p;
            assert(st.names[i] == p);
        }
    }
}

/// Skipping a punctuation run changes no reference.
proof fn lemma_punct_run_references(s: Seq<Token>, k: int, p: Seq<char>)
    requires
        0 <= k <= punct_run_len(s),
        punct_run_len(s) <= s.len(),
    ensures
        references(s.subrange(k, s.len() as int), p) == references(s, p),
    decreases k,
{
    if k == 0 {
        assert(s.subrange(0, s.len() as int) =~= s);
    } else {
        lemma_punct_run_bounds(s);
        assert(s.len() >= 1 && (s[0] matches Token::Punct { ch, .. } && !is_marker_char(ch)));
        let rest = s.subrange(1, s.len() as int);
        assert(references(s, p) == references(rest, p));
        lemma_punct_run_bounds(rest);
        assert(punct_run_len(s) == 1 + punct_run_len(rest));
        lemma_punct_run_references(rest, k - 1, p);
        assert(rest.subrange(k - 1, rest.len() as int) =~= s.subrange(k, s.len() as int));
    }
}

/// A name lands in the parameter list exactly when the template references
/// it: compilation collects every referenced name, and nothing else.
proof fn lemma_references_collected(s: Seq<Token>, st: CompileState, p: Seq<char>)
    ensures
        has_name(compile_seq(s, st).names, p) <==> has_name(st.names, p) || references(s, p),
    decreases s,
{
    if s.len() == 0 {
    } else {
        let rest = s.subrange(1, s.len() as int);
        match s[0] {
            Token::Literal { text, .. } => {
                lemma_references_collected(rest, push_frag(st, Frag::Text(text@)), p);
            },
            Token::Marker { name, .. } => {
                lemma_intern_keeps_name(st, name@, p);
                lemma_references_collected(rest, intern(st, name@), p);
            },
            Token::Group { delim, children, pos } => {
                if delim is Undelimited {
                    lemma_references_collected(
                        rest,
                        push_err(st, TemplateError::UndelimitedGroup { pos }),
                        p,
                    );
                } else {
                    let st1 = push_frag(st, Frag::Open(open_char_of(delim)));
                    lemma_references_collected(children@, st1, p);
                    let st2 = compile_seq(children@, st1);
                    lemma_references_collected(
                        rest,
                        push_frag(st2, Frag::Close(close_char_of(delim))),
                        p,
                    );
                }
            },
            Token::Punct { ch, pos } => {
                if is_marker_char(ch) {
                    if s.len() >= 2 {
                        match s[1] {
                            Token::Literal { text, .. } => {
                                if is_identifier(text@) {
                                    let tail = s.subrange(2, s.len() as int);
                                    assert(rest.subrange(1, rest.len() as int) =~= tail);
                                    assert(rest[0] == s[1]);
                                    assert(references(rest, p) == references(tail, p));
                                    lemma_intern_keeps_name(st, text@, p);
                                    lemma_references_collected(tail, intern(st, text@), p);
                                } else {
                                    lemma_references_collected(
                                        rest,
                                        push_err(
                                            st,
                                            TemplateError::ExpectedPlaceholderName {
                                                pos: token_pos(s[1]),
                                            },
                                        ),
                                        p,
                                    );
                                }
                            },
                            _ => {
                                lemma_references_collected(
                                    rest,
                                    push_err(
                                        st,
                                        TemplateError::ExpectedPlaceholderName {
                                            pos: token_pos(s[1]),
                                        },
                                    ),
                                    p,
                                );
                            },
                        }
                    } else {
                        lemma_references_collected(
                            rest,
                            push_err(st, TemplateError::ExpectedPlaceholderName { pos }),
                            p,
                        );
                    }
                } else {
                    lemma_punct_run_bounds(s);
                    let k = punct_run_len(s);
                    lemma_punct_run_references(s, k as int, p);
                    lemma_references_collected(
                        s.subrange(k as int, s.len() as int),
                        push_frag(st, Frag::Text(punct_run_chars(s))),
                        p,
                    );
                }
            },
        }
    }
}

/// A name stands in a compiled template's parameter list exactly when the
/// template references it.
pub proof fn lemma_placeholders_are_references(tokens: Seq<Token>, p: Seq<char>)
    ensures
        has_name(compile_seq(tokens, init_state()).names, p) <==> references(tokens, p),
{
    lemma_references_collected(tokens, init_state(), p);
}

/// Whether every group in the token tree carries bracket delimiters.
pub open spec fn all_delimited(s: Seq<Token>) -> bool
    decreases s,
{
    if s.len() == 0 {
        true
    } else {
        let rest = s.subrange(1, s.len() as int);
        match s[0] {
            Token::Group { delim, children, .. } => {
                &&& !(delim is Undelimited)
                &&& all_delimited(children@)
                &&& all_delimited(rest)
            },
            _ => all_delimited(rest),
        }
    }
}

/// The bracket characters of the token tree, in nesting order: each group
/// contributes its opening bracket, its children's brackets, and its
/// closing bracket.
pub open spec fn delim_trace(s: Seq<Token>) -> Seq<char>
    decreases s,
{
    if s.len() == 0 {
        Seq::empty()
    } else {
        let rest = s.subrange(1, s.len() as int);
        match s[0] {
            Token::Group { delim, children, .. } => {
                if delim is Undelimited {
                    delim_trace(rest)
                } else {
                    seq![open_char_of(delim)] + delim_trace(children@) + seq![
                        close_char_of(delim),
                    ] + delim_trace(rest)
                }
            },
            _ => delim_trace(rest),
        }
    }
}

/// The bracket characters a fragment contributes to the compiled text.
pub open spec fn frag_bracket(f: Frag) -> Seq<char> {
    match f {
        Frag::Open(c) => seq![c],
        Frag::Close(c) => seq![c],
        _ => Seq::empty(),
    }
}

/// The bracket characters of the emitted fragments, in order.
pub open spec fn bracket_trace(frags: Seq<Frag>) -> Seq<char>
    decreases frags.len(),
{
    if frags.len() == 0 {
        Seq::empty()
    } else {
        bracket_trace(frags.drop_last()) + frag_bracket(frags.last())
    }
}

/// Appending a fragment appends its bracket characters to the trace.
proof fn lemma_bracket_trace_push(frags: Seq<Frag>, f: Frag)
    ensures
        bracket_trace(frags.push(f)) == bracket_trace(frags) + frag_bracket(f),
{
    assert(frags.push(f).drop_last() =~= frags);
    assert(frags.push(f).last() == f);
}

/// Compiling a template whose groups are all delimited appends exactly the
/// tree's bracket characters, in nesting order, to the emitted trace.
proof fn lemma_compile_brackets(s: Seq<Token>, st: CompileState)
    requires
        all_delimited(s),
    ensures
        bracket_trace(compile_seq(s, st).frags) == bracket_trace(st.frags) + delim_trace(s),
    decreases s,
{
    if s.len() == 0 {
        assert(bracket_trace(st.frags) + Seq::<char>::empty() =~= bracket_trace(st.frags));
    } else {
        let rest = s.subrange(1, s.len() as int);
        match s[0] {
            Token::Literal { text, .. } => {
                let st1 = push_frag(st, Frag::Text(text@));
                lemma_bracket_trace_push(st.frags, Frag::Text(text@));
                assert(bracket_trace(st1.frags) =~= bracket_trace(st.frags));
                lemma_compile_brackets(rest, st1);
            },
            Token::Marker { name, .. } => {
                let st1 = intern(st, name@);
                lemma_intern_brackets(st, name@);
                lemma_compile_brackets(rest, st1);
            },
            Token::Group { delim, children, pos } => {
                let st1 = push_frag(st, Frag::Open(open_char_of(delim)));
                lemma_bracket_trace_push(st.frags, Frag::Open(open_char_of(delim)));
                lemma_compile_brackets(children@, st1);
                let st2 = compile_seq(children@, st1);
                let st3 = push_frag(st2, Frag::Close(close_char_of(delim)));
                lemma_bracket_trace_push(st2.frags, Frag::Close(close_char_of(delim)));
                lemma_compile_brackets(rest, st3);
                assert(bracket_trace(compile_seq(s, st).frags) =~= bracket_trace(st.frags)
                    + delim_trace(s));
            },
            Token::Punct { ch, pos } => {
                if is_marker_char(ch) {
                    if s.len() >= 2 {
                        match s[1] {
                            Token::Literal { text, .. } => {
                                if is_identifier(text@) {
                                    let tail = s.subrange(2, s.len() as int);
                                    assert(all_delimited(rest));
                                    assert(rest[0] == s[1]);
                                    assert(rest.subrange(1, rest.len() as int) =~= tail);
                                    assert(all_delimited(tail));
                                    assert(delim_trace(s) == delim_trace(rest));
                                    assert(delim_trace(rest) == delim_trace(tail));
                                    lemma_intern_brackets(st, text@);
                                    lemma_compile_brackets(tail, intern(st, text@));
                                } else {
                                    lemma_compile_brackets(
                                        rest,
                                        push_err(
                                            st,
                                            TemplateError::ExpectedPlaceholderName {
                                                pos: token_pos(s[1]),
                                            },
                                        ),
                                    );
                                }
                            },
                            _ => {
                                lemma_compile_brackets(
                                    rest,
                                    push_err(
                                        st,
                                        TemplateError::ExpectedPlaceholderName {
                                            pos: token_pos(s[1]),
                                        },
                                    ),
                                );
                            },
                        }
                    } else {
                        lemma_compile_brackets(
                            rest,
                            push_err(
                                st,
                                TemplateError::ExpectedPlaceholderName { pos },
                            ),
                        );
                    }
                } else {
                    lemma_punct_run_bounds(s);
                    let k = punct_run_len(s);
                    let tail = s.subrange(k as int, s.len() as int);
                    let st1 = push_frag(st, Frag::Text(punct_run_chars(s)));
                    lemma_bracket_trace_push(
                        st.frags,
                        Frag::Text(punct_run_chars(s)),
                    );
                    assert(bracket_trace(st1.frags) =~= bracket_trace(st.frags));
                    lemma_punct_run_trace(s, k as int);
                    lemma_compile_brackets(tail, st1);
                }
            },
        }
    }
}

/// Resolving a parameter reference emits no bracket characters.
proof fn lemma_intern_brackets(st: CompileState, name: Seq<char>)
    ensures
        bracket_trace(intern(st, name).frags) == bracket_trace(st.frags),
{
    let st1 = intern(st, name);
    if has_name(st.names, name) {
        lemma_bracket_trace_push(
            st.frags,
            Frag::Param { name, slot: name_index(st.names, name) + 1 },
        );
    } else {
        lemma_bracket_trace_push(st.frags, Frag::Param { name, slot: st.names.len() as int + 1 });
    }
    assert(bracket_trace(st1.frags) =~= bracket_trace(st.frags));
}

/// A punctuation run contributes no brackets: skipping it keeps the
/// remaining delimiter trace, and keeps every group delimited.
proof fn lemma_punct_run_trace(s: Seq<Token>, k: int)
    requires
        0 <= k <= punct_run_len(s),
        punct_run_len(s) <= s.len(),
        all_delimited(s),
    ensures
        delim_trace(s.subrange(k, s.len() as int)) == delim_trace(s),
        all_delimited(s.subrange(k, s.len() as int)),
    decreases k,
{
    if k == 0 {
        assert(s.subrange(0, s.len() as int) =~= s);
    } else {
        lemma_punct_run_bounds(s);
        assert(s.len() >= 1 && (s[0] matches Token::Punct { ch, .. }
            && !is_marker_char(ch)));
        let rest = s.subrange(1, s.len() as int);
        assert(all_delimited(rest));
        assert(delim_trace(s) == delim_trace(rest));
        lemma_punct_run_bounds(rest);
        assert(punct_run_len(s) == 1 + punct_run_len(rest));
        lemma_punct_run_trace(rest, k - 1);
        assert(rest.subrange(k - 1, rest.len() as int) =~= s.subrange(k, s.len() as int));
    }
}

/// Whether `c` is an opening bracket character.
pub open spec fn is_open_char(c: char) -> bool {
    c == '(' || c == '{' || c == '['
}

/// The closing bracket character matching an opening one.
pub open spec fn matching_close(o: char) -> char {
    if o == '(' {
        ')'
    } else if o == '{' {
        '}'
    } else {
        ']'
    }
}

/// Whether `s` closes, in order, every bracket that `pending` and `s` itself
/// open: each closing character matches the innermost open bracket, and
/// nothing stays open at the end.
pub open spec fn balanced_from(s: Seq<char>, pending: Seq<char>) -> bool
    decreases s.len(),
{
    if s.len() == 0 {
        pending.len() == 0
    } else if is_open_char(s[0]) {
        balanced_from(s.subrange(1, s.len() as int), pending.push(s[0]))
    } else {
        &&& pending.len() > 0
        &&& s[0] == matching_close(pending.last())
        &&& balanced_from(s.subrange(1, s.len() as int), pending.drop_last())
    }
}

/// Whether `s` is a properly matched bracket string.
pub open spec fn balanced(s: Seq<char>) -> bool {
    balanced_from(s, Seq::empty())
}

/// The delimiter trace of a fully delimited token tree closes every bracket
/// it opens: consuming it from any bracket stack leaves the stack unchanged.
proof fn lemma_trace_balanced_from(s: Seq<Token>, rest: Seq<char>, pending: Seq<char>)
    requires
        all_delimited(s),
    ensures
        balanced_from(delim_trace(s) + rest, pending) == balanced_from(rest, pending),
    decreases s,
{
    if s.len() == 0 {
        assert(delim_trace(s) + rest =~= rest);
    } else {
        let tail = s.subrange(1, s.len() as int);
        match s[0] {
            Token::Group { delim, children, .. } => {
                let o = open_char_of(delim);
                let c = close_char_of(delim);
                let x = delim_trace(children@);
                let y = delim_trace(tail);
                assert(delim_trace(s) =~= seq![o] + x + seq![c] + y);
                let whole = delim_trace(s) + rest;
                assert(whole[0] == o);
                assert(is_open_char(o)) by {
                    match delim {
                        Delim::Paren => {},
                        Delim::Brace => {},
                        Delim::Bracket => {},
                        Delim::Undelimited => {},
                    }
                }
                assert(whole.subrange(1, whole.len() as int) =~= x + (seq![c] + (y + rest)));
                lemma_trace_balanced_from(children@, seq![c] + (y + rest), pending.push(o));
                let after_x = seq![c] + (y + rest);
                assert(after_x[0] == c);
                assert(!is_open_char(c) && matching_close(o) == c) by {
                    match delim {
                        Delim::Paren => {},
                        Delim::Brace => {},
                        Delim::Bracket => {},
                        Delim::Undelimited => {},
                    }
                }
                assert(after_x.subrange(1, after_x.len() as int) =~= y + rest);
                assert(pending.push(o).drop_last() =~= pending);
                assert(pending.push(o).last() == o);
                lemma_trace_balanced_from(tail, rest, pending);
            },
            _ => {
                assert(delim_trace(s) =~= delim_trace(tail));
                lemma_trace_balanced_from(tail, rest, pending);
            },
        }
    }
}

/// Round-trip bracket balance: compiling a template whose groups are all
/// delimited emits exactly the template's bracket characters, in the same
/// nesting order, and that bracket string is properly matched.
pub proof fn lemma_round_trip_brackets(tokens: Seq<Token>)
    requires
        all_delimited(tokens),
    ensures
        ({
            let st = compile_seq(tokens, init_state());
            &&& bracket_trace(st.frags) == delim_trace(tokens)
            &&& balanced(delim_trace(tokens))
        }),
{
    lemma_compile_brackets(tokens, init_state());
    let st = compile_seq(tokens, init_state());
    assert(bracket_trace(st.frags) =~= delim_trace(tokens));
    lemma_trace_balanced_from(tokens, Seq::empty(), Seq::empty());
    assert(delim_trace(tokens) + Seq::<char>::empty() =~= delim_trace(tokens));
}

/// Classifier totality: a declared return type whose unwrapped success type
/// is a growable list, an optional value, a recognized row stream, the unit
/// type or the 64-bit unsigned integer type classifies to exactly `List`,
/// `Optional`, `Stream`, `Execute` or `CountRows` respectively — the five
/// patterns are mutually exclusive, and nothing else is produced.
pub proof fn lemma_classifier_totality(t: TypeExpr, inner: TypeExpr)
    requires
        spec_strip_result(t) == Ok::<TypeExpr, ClassificationError>(inner),
    ensures
        spec_strip_vec(inner) matches Some(e) ==> spec_classify(t) == Ok::<
            ResultShape,
            ClassificationError,
        >(ResultShape::List(e)),
        spec_strip_option(inner) matches Some(e) ==> spec_classify(t) == Ok::<
            ResultShape,
            ClassificationError,
        >(ResultShape::Optional(e)),
        spec_is_row_stream(inner) ==> spec_classify(t) == Ok::<
            ResultShape,
            ClassificationError,
        >(ResultShape::Stream),
        spec_is_unit(inner) ==> spec_classify(t) == Ok::<ResultShape, ClassificationError>(
            ResultShape::Execute,
        ),
        spec_is_u64(inner) ==> spec_classify(t) == Ok::<ResultShape, ClassificationError>(
            ResultShape::CountRows,
        ),
{
    lemma_shape_patterns_disjoint(inner);
}

/// A path matching a growable-list spelling ends in the segment `Vec`.
proof fn lemma_vec_last(p: TypePath)
    requires
        spec_path_is_one_of(p, vec_path_names()),
    ensures
        p.segments@.len() > 0,
        p.segments@[p.segments@.len() - 1].ident@ == "Vec"@,
{
    let names = vec_path_names();
    let k = choose|k: int| 0 <= k < names.len() && spec_path_is(p, #[trigger] names[k]);
    assert(names[k].len() > 0 && names[k][names[k].len() - 1] == "Vec"@) by {
        if k == 0 {
        } else if k == 1 {
        } else if k == 2 {
        } else if k == 3 {
        } else {
        }
    }
    assert(p.segments@[p.segments@.len() - 1].ident@ == names[k][names[k].len() - 1]);
}

/// A path matching an optional-value spelling ends in the segment `Option`.
proof fn lemma_option_last(p: TypePath)
    requires
        spec_path_is_one_of(p, option_path_names()),
    ensures
        p.segments@.len() > 0,
        p.segments@[p.segments@.len() - 1].ident@ == "Option"@,
{
    let names = option_path_names();
    let k = choose|k: int| 0 <= k < names.len() && spec_path_is(p, #[trigger] names[k]);
    assert(names[k].len() > 0 && names[k][names[k].len() - 1] == "Option"@) by {
        if k == 0 {
        } else if k == 1 {
        } else if k == 2 {
        } else if k == 3 {
        } else {
        }
    }
    assert(p.segments@[p.segments@.len() - 1].ident@ == names[k][names[k].len() - 1]);
}

/// A path matching a row-stream spelling ends in `RowStream` or `RowIter`.
proof fn lemma_stream_last(p: TypePath)
    requires
        spec_path_is_one_of(p, row_stream_path_names()),
    ensures
        p.segments@.len() > 0,
        p.segments@[p.segments@.len() - 1].ident@ == "RowStream"@ || p.segments@[p.segments@.len()
            - 1].ident@ == "RowIter"@,
{
    let names = row_stream_path_names();
    let k = choose|k: int| 0 <= k < names.len() && spec_path_is(p, #[trigger] names[k]);
    assert(names[k].len() > 0 && (names[k][names[k].len() - 1] == "RowStream"@
        || names[k][names[k].len() - 1] == "RowIter"@)) by {
        if k == 0 {
        } else if k == 1 {
        } else if k == 2 {
        } else if k == 3 {
        } else if k == 4 {
        } else {
        }
    }
    assert(p.segments@[p.segments@.len() - 1].ident@ == names[k][names[k].len() - 1]);
}

/// The five recognized success-type patterns are mutually exclusive.
proof fn lemma_shape_patterns_disjoint(inner: TypeExpr)
    ensures
        spec_strip_vec(inner) is Some ==> spec_strip_option(inner) is None && !spec_is_row_stream(
            inner,
        ) && !spec_is_unit(inner) && !spec_is_u64(inner),
        spec_strip_option(inner) is Some ==> !spec_is_row_stream(inner) && !spec_is_unit(inner)
            && !spec_is_u64(inner),
        spec_is_row_stream(inner) ==> !spec_is_unit(inner) && !spec_is_u64(inner),
        spec_is_unit(inner) ==> !spec_is_u64(inner),
{
    proof_distinct_names();
    match spec_as_path(inner) {
        Some(p) => {
            let last = p.segments@.len() - 1;
            if spec_strip_vec(inner) is Some {
                lemma_vec_last(p);
                if spec_strip_option(inner) is Some {
                    lemma_option_last(p);
                    assert(false);
                }
                if spec_is_row_stream(inner) {
                    lemma_stream_last(p);
                    assert(false);
                }
                if spec_is_u64(inner) {
                    assert(p.segments@[0].ident@ == "u64"@);
                    assert(false);
                }
            }
            if spec_strip_option(inner) is Some {
                lemma_option_last(p);
                if spec_is_row_stream(inner) {
                    lemma_stream_last(p);
                    assert(false);
                }
                if spec_is_u64(inner) {
                    assert(p.segments@[0].ident@ == "u64"@);
                    assert(false);
                }
            }
            if spec_is_row_stream(inner) {
                lemma_stream_last(p);
                if spec_is_u64(inner) {
                    assert(p.segments@[0].ident@ == "u64"@);
                    assert(false);
                }
            }
        },
        None => {},
    }
}

/// The candidate name sets of the recognized container, stream and scalar
/// shapes share no spelling.
proof fn proof_distinct_names()
    ensures
        "Vec"@ != "Option"@,
        "Vec"@ != "RowStream"@,
        "Vec"@ != "RowIter"@,
        "Vec"@ != "u64"@,
        "Option"@ != "RowStream"@,
        "Option"@ != "RowIter"@,
        "Option"@ != "u64"@,
        "RowStream"@ != "u64"@,
        "RowIter"@ != "u64"@,
{
    reveal_strlit("Vec");
    reveal_strlit("Option");
    reveal_strlit("RowStream");
    reveal_strlit("RowIter");
    reveal_strlit("u64");
    assert("Vec"@.len() == 3);
    assert("Option"@.len() == 6);
    assert("RowStream"@.len() == 9);
    assert("RowIter"@.len() == 7);
    assert("u64"@.len() == 3);
    assert("Vec"@[0] == 'V');
    assert("u64"@[0] == 'u');
}

/// Classifier rejection: a declared return type that is not the error-union
/// wrapper is rejected with `NotAnErrorUnion`, and a wrapped success type
/// matching none of the recognized patterns is rejected with
/// `UnsupportedShape` pointing at it — never anything else.
pub proof fn lemma_classifier_rejections(t: TypeExpr)
    ensures
        spec_strip_result(t) matches Err(e) ==> spec_classify(t) == Err::<
            ResultShape,
            ClassificationError,
        >(e) && e is NotAnErrorUnion,
        spec_strip_result(t) matches Ok(inner) ==> ((spec_strip_vec(inner) is None
            && spec_strip_option(inner) is None && !spec_is_row_stream(inner) && !spec_is_unit(
            inner,
        ) && !spec_is_u64(inner)) ==> spec_classify(t) == Err::<
            ResultShape,
            ClassificationError,
        >(ClassificationError::UnsupportedShape { pos: spec_type_span(inner) })),
{
}

} // verus!
