//! The template compiler.
//!
//! [`compile`] walks a token sequence with an explicit stack of open group
//! frames — supporting arbitrary nesting without call-stack recursion — and
//! emits the normalized query text, the deduplicated parameter list and all
//! diagnostics.  Its behaviour is exactly the spec-level fold
//! [`compile_seq`](crate::model::compile_seq).

use vstd::prelude::*;

use crate::model::{
    compile_seq, frag_text, has_name, init_state, intern, joined, lemma_joined_push,
    lemma_name_index_of_first, name_index, punct_run_chars, punct_run_len, push_err, push_frag,
    CompileState, Frag, TemplateError,
};
use crate::text::{dec_digits, push_decimal};
use crate::token::{
    check_identifier, close_char, close_char_of, is_marker_char, marker_char, open_char,
    open_char_of, token_pos, token_position, Delim, Token,
};

verus! {

/// A compiled query template: the normalized query text with positional
/// placeholders, and the referenced parameter names in slot order.
///
/// The name at `placeholders[i]` is bound to the positional placeholder
/// `$i+1` in `query`.  Placeholder numbers are contiguous from 1, assigned
/// in first-occurrence order, and a name referenced several times keeps its
/// original slot, so `placeholders` holds no duplicates.
#[derive(Debug)]
pub struct Query {
    /// The compiled query text.
    pub query: String,
    /// The referenced parameter names, in slot order, each exactly once.
    pub placeholders: Vec<String>,
}

/// One frame of the compiler's explicit walk stack: a borrowed token
/// sequence, the index of the next token to consume, and the delimiter whose
/// closing bracket is owed when the frame is exhausted (`None` only for the
/// root frame).
struct Frame<'a> {
    /// The token sequence this frame walks.
    items: &'a Vec<Token>,
    /// The index of the next token to consume.
    idx: usize,
    /// The delimiter to close when the frame is exhausted.
    close: Option<Delim>,
}

/// The tokens a frame has yet to consume.
spec fn frame_rest<'a>(f: Frame<'a>) -> Seq<Token> {
    f.items@.subrange(f.idx as int, f.items@.len() as int)
}

/// The state reached by compiling everything the stack still owes: each
/// frame's remaining tokens, topmost first, followed by its closing bracket
/// if it owes one.
spec fn finish<'a>(frames: Seq<Frame<'a>>, st: CompileState) -> CompileState
    decreases frames.len(),
{
    if frames.len() == 0 {
        st
    } else {
        let top = frames.last();
        let st1 = compile_seq(frame_rest(top), st);
        let st2 = match top.close {
            Some(d) => push_frag(st1, Frag::Close(close_char_of(d))),
            None => st1,
        };
        finish(frames.drop_last(), st2)
    }
}

/// The size of a token tree: each atom counts one, each group two plus its
/// children, so that entering a group strictly shrinks the pending work.
spec fn size_tok(t: Token) -> nat
    decreases t,
{
    match t {
        Token::Group { children, .. } => 2 + size_seq(children@),
        _ => 1,
    }
}

/// The summed size of a token sequence.
spec fn size_seq(s: Seq<Token>) -> nat
    decreases s,
{
    if s.len() == 0 {
        0
    } else {
        size_tok(s[0]) + size_seq(s.subrange(1, s.len() as int))
    }
}

/// The work the stack still owes: each frame costs one plus the size of its
/// remaining tokens.
spec fn stack_measure<'a>(frames: Seq<Frame<'a>>) -> nat
    decreases frames.len(),
{
    if frames.len() == 0 {
        0
    } else {
        stack_measure(frames.drop_last()) + size_seq(frame_rest(frames.last())) + 1
    }
}

/// Every token has positive size.
proof fn lemma_size_tok_pos(t: Token)
    ensures
        size_tok(t) >= 1,
{
}

/// Unfolds `size_seq` at the front of a nonempty remainder.
proof fn lemma_size_seq_unfold(s: Seq<Token>, i: int)
    requires
        0 <= i < s.len(),
    ensures
        size_seq(s.subrange(i, s.len() as int)) == size_tok(s[i]) + size_seq(
            s.subrange(i + 1, s.len() as int),
        ),
{
    let rest = s.subrange(i, s.len() as int);
    assert(rest[0] == s[i]);
    assert(rest.subrange(1, rest.len() as int) =~= s.subrange(i + 1, s.len() as int));
}

/// Replacing the top frame by one with strictly less pending work strictly
/// shrinks the stack measure.
proof fn lemma_step_measure<'a>(
    stack0: Seq<Frame<'a>>,
    stack1: Seq<Frame<'a>>,
    newtop: Frame<'a>,
)
    requires
        stack0.len() > 0,
        stack1 == stack0.drop_last().push(newtop),
        size_seq(frame_rest(newtop)) < size_seq(frame_rest(stack0.last())),
    ensures
        stack_measure(stack1) < stack_measure(stack0),
{
    assert(stack1.drop_last() =~= stack0.drop_last());
    assert(stack1.last() == newtop);
}

/// Replacing the top frame of a stack preserves `finish` when the
/// replacement stands for the same remaining compilation.
proof fn lemma_finish_step<'a>(
    frames: Seq<Frame<'a>>,
    top2: Frame<'a>,
    st: CompileState,
    st2: CompileState,
)
    requires
        frames.len() > 0,
        compile_seq(frame_rest(frames.last()), st) == compile_seq(frame_rest(top2), st2),
        frames.last().close == top2.close,
    ensures
        finish(frames, st) == finish(frames.drop_last().push(top2), st2),
{
    let g = frames.drop_last().push(top2);
    assert(g.drop_last() =~= frames.drop_last());
    assert(g.last() == top2);
}

/// Starts a fragment: pushes the single separating space before every
/// fragment but the first.
fn start_frag(query: &mut String, started: &mut bool)
    ensures
        *final(started),
        final(query)@ == if *old(started) {
            old(query)@ + seq![' ']
        } else {
            old(query)@
        },
{
    if *started {
        query.push(' ');
    } else {
        *started = true;
    }
}

/// Emits one fragment of verbatim text.
fn emit_str(query: &mut String, started: &mut bool, text: &str)
    ensures
        *final(started),
        final(query)@ == old(query)@ + (if *old(started) {
            seq![' ']
        } else {
            Seq::<char>::empty()
        }) + text@,
{
    start_frag(query, started);
    query.append(text);
    proof {
        assert(query@ =~= old(query)@ + (if *old(started) {
            seq![' ']
        } else {
            Seq::<char>::empty()
        }) + text@);
    }
}

/// Emits one fragment made of a single character.
fn emit_char(query: &mut String, started: &mut bool, c: char)
    ensures
        *final(started),
        final(query)@ == old(query)@ + (if *old(started) {
            seq![' ']
        } else {
            Seq::<char>::empty()
        }) + seq![c],
{
    start_frag(query, started);
    query.push(c);
    proof {
        assert(query@ =~= old(query)@ + (if *old(started) {
            seq![' ']
        } else {
            Seq::<char>::empty()
        }) + seq![c]);
    }
}

/// Finds the slot index already bound to `name`, if any: the first position
/// in `names` holding `name`.
fn find_name(names: &Vec<String>, name: &String) -> (r: Option<usize>)
    ensures
        match r {
            Some(i) => {
                &&& i < names@.len()
                &&& has_name(names.deep_view(), name@)
                &&& i as int == name_index(names.deep_view(), name@)
            },
            None => !has_name(names.deep_view(), name@),
        },
{
    let ghost dv = names.deep_view();
    let mut i: usize = 0;
    while i < names.len()
        invariant
            0 <= i <= names@.len(),
            dv == names.deep_view(),
            dv.len() == names@.len(),
            forall|j: int| 0 <= j < i ==> dv[j] != name@,
        decreases names@.len() - i,
    {
        proof {
            assert(dv[i as int] == names@[i as int]@);
        }
        if names[i].eq(name) {
            proof {
                lemma_name_index_of_first(dv, name@, i as int);
            }
            return Some(i);
        }
        i = i + 1;
    }
    None
}

/// Emits the placeholder fragment for a parameter reference, binding the
/// name to its first-occurrence slot: a name already in `names` reuses its
/// slot, a new name is appended and bound to the next free slot.
fn intern_param(query: &mut String, started: &mut bool, names: &mut Vec<String>, name: &String)
    ensures
        *final(started),
        ({
            let dv = old(names).deep_view();
            let slot: int = if has_name(dv, name@) {
                name_index(dv, name@) + 1
            } else {
                dv.len() as int + 1
            };
            &&& final(names).deep_view() == if has_name(dv, name@) {
                dv
            } else {
                dv.push(name@)
            }
            &&& final(query)@ == old(query)@ + (if *old(started) {
                seq![' ']
            } else {
                Seq::<char>::empty()
            }) + seq!['$'] + dec_digits(slot as nat)
        }),
{
    let ghost dv = names.deep_view();
    let slot: usize = match find_name(names, name) {
        Some(i) => {
            let n = names.len();
            proof {
                assert(i < n);
            }
            i + 1
        },
        None => {
            names.push(name.clone());
            proof {
                assert(names.deep_view() =~= dv.push(name@));
            }
            names.len()
        },
    };
    start_frag(query, started);
    query.push('$');
    push_decimal(query, slot);
    proof {
        assert(query@ =~= old(query)@ + (if *old(started) {
            seq![' ']
        } else {
            Seq::<char>::empty()
        }) + seq!['$'] + dec_digits(slot as nat));
    }
}

/// Returns whether the token at `j` continues a punctuation run: it exists,
/// is a punctuation atom, and does not begin a parameter reference.
fn run_continues(items: &Vec<Token>, j: usize) -> (b: bool)
    requires
        j <= items@.len(),
    ensures
        b == (j < items@.len() && (items@[j as int] matches Token::Punct { ch, .. }
            && !is_marker_char(ch))),
{
    if j == items.len() {
        return false;
    }
    match &items[j] {
        Token::Punct { ch, .. } => !marker_char(*ch),
        _ => false,
    }
}

/// Compiles a query template.
///
/// Walks the token tree with an explicit stack of open-group frames and
/// returns the compiled query together with every diagnostic found: the
/// first error does not mask later ones, and a template with diagnostics
/// still yields its partial compilation.  The result is exactly what the
/// spec-level fold [`compile_seq`] states: the query text is the join of the
/// emitted fragments, the placeholder list is the distinct referenced names
/// in first-occurrence order, and the diagnostics come in discovery order.
pub fn compile(tokens: &Vec<Token>) -> (r: (Query, Vec<TemplateError>))
    ensures
        ({
            let st = compile_seq(tokens@, init_state());
            &&& r.0.query@ == joined(st.frags)
            &&& r.0.placeholders.deep_view() == st.names
            &&& r.1@ == st.errs
        }),
{
    let ghost target = compile_seq(tokens@, init_state());
    let mut stack: Vec<Frame> = Vec::new();
    stack.push(Frame { items: tokens, idx: 0, close: None });
    let mut query = String::new();
    let mut names: Vec<String> = Vec::new();
    let mut errs: Vec<TemplateError> = Vec::new();
    let mut started = false;
    let ghost mut model = init_state();

    proof {
        assert(stack@.len() == 1);
        assert(stack@.drop_last() =~= Seq::<Frame>::empty());
        assert(frame_rest(stack@.last()) =~= tokens@);
        assert(compile_seq(frame_rest(stack@.last()), model) == target);
        assert(finish(Seq::<Frame>::empty(), target) == target);
        assert(finish(stack@, model) == target);
    }

    while stack.len() != 0
        invariant
            forall|k: int|
                0 <= k < stack@.len() ==> (#[trigger] stack@[k]).idx <= stack@[k].items@.len(),
            forall|k: int|
                0 <= k < stack@.len() ==> ((#[trigger] stack@[k]).close matches Some(d) ==> d
                    != Delim::Undelimited),
            finish(stack@, model) == target,
            query@ == joined(model.frags),
            names.deep_view() == model.names,
            errs@ == model.errs,
            started <==> model.frags.len() > 0,
        decreases stack_measure(stack@),
    {
        let ghost stack0 = stack@;
        let ghost model0 = model;
        let mut frame = stack.pop().unwrap();
        proof {
            assert(stack@ =~= stack0.drop_last());
            assert(frame == stack0.last());
        }
        let items = frame.items;
        let n_items = items.len();
        let i = frame.idx;
        if i == n_items {
            // The frame is exhausted: emit the owed closing bracket, if any,
            // and drop the frame.
            proof {
                assert(frame_rest(stack0.last()) =~= Seq::<Token>::empty());
            }
            match frame.close {
                Some(d) => {
                    let c = match close_char(&d) {
                        Some(c) => c,
                        None => {
                            proof {
                                assert(false);
                            }
                            ')'
                        },
                    };
                    emit_char(&mut query, &mut started, c);
                    proof {
                        model = push_frag(model0, Frag::Close(close_char_of(d)));
                        lemma_joined_push(model0.frags, Frag::Close(close_char_of(d)));
                    }
                },
                None => {},
            }
            proof {
                assert(stack_measure(stack0) == stack_measure(stack@) + size_seq(
                    frame_rest(stack0.last()),
                ) + 1);
                assert(size_seq(frame_rest(stack0.last())) == 0);
            }
        } else {
            let ghost rest_old = frame_rest(stack0.last());
            proof {
                assert(rest_old.len() == items@.len() - i);
                assert(rest_old[0] == items@[i as int]);
                assert(rest_old.subrange(1, rest_old.len() as int) =~= items@.subrange(
                    i as int + 1,
                    items@.len() as int,
                ));
                lemma_size_seq_unfold(items@, i as int);
                lemma_size_tok_pos(items@[i as int]);
            }
            match &items[i] {
                Token::Literal { text, .. } => {
                    emit_str(&mut query, &mut started, text.as_str());
                    frame.idx = i + 1;
                    stack.push(frame);
                    proof {
                        model = push_frag(model0, Frag::Text(text@));
                        lemma_joined_push(model0.frags, Frag::Text(text@));
                        let newtop = stack@.last();
                        assert(frame_rest(newtop) =~= rest_old.subrange(
                            1,
                            rest_old.len() as int,
                        ));
                        lemma_finish_step(stack0, newtop, model0, model);
                        assert(stack@ =~= stack0.drop_last().push(newtop));
                        assert(size_seq(frame_rest(newtop)) < size_seq(rest_old));
                        lemma_step_measure(stack0, stack@, newtop);
                    }
                },
                Token::Marker { name, .. } => {
                    intern_param(&mut query, &mut started, &mut names, name);
                    frame.idx = i + 1;
                    stack.push(frame);
                    proof {
                        let ghost slot: int = if has_name(model0.names, name@) {
                            name_index(model0.names, name@) + 1
                        } else {
                            model0.names.len() as int + 1
                        };
                        model = intern(model0, name@);
                        assert(model.frags == model0.frags.push(
                            Frag::Param { name: name@, slot },
                        ));
                        lemma_joined_push(model0.frags, Frag::Param { name: name@, slot });
                        let newtop = stack@.last();
                        assert(frame_rest(newtop) =~= rest_old.subrange(
                            1,
                            rest_old.len() as int,
                        ));
                        lemma_finish_step(stack0, newtop, model0, model);
                        assert(stack@ =~= stack0.drop_last().push(newtop));
                        assert(size_seq(frame_rest(newtop)) < size_seq(rest_old));
                        lemma_step_measure(stack0, stack@, newtop);
                    }
                },
                Token::Group { delim, children, pos } => {
                    match open_char(delim) {
                        None => {
                            errs.push(TemplateError::UndelimitedGroup { pos: *pos });
                            frame.idx = i + 1;
                            stack.push(frame);
                            proof {
                                model = push_err(
                                    model0,
                                    TemplateError::UndelimitedGroup { pos: *pos },
                                );
                                let newtop = stack@.last();
                                assert(frame_rest(newtop) =~= rest_old.subrange(
                                    1,
                                    rest_old.len() as int,
                                ));
                                lemma_finish_step(stack0, newtop, model0, model);
                                assert(stack@ =~= stack0.drop_last().push(newtop));
                                assert(size_seq(frame_rest(newtop)) < size_seq(rest_old));
                                lemma_step_measure(stack0, stack@, newtop);
                            }
                        },
                        Some(oc) => {
                            emit_char(&mut query, &mut started, oc);
                            frame.idx = i + 1;
                            let parent = frame;
                            stack.push(parent);
                            stack.push(Frame { items: children, idx: 0, close: Some(*delim) });
                            proof {
                                model = push_frag(model0, Frag::Open(open_char_of(*delim)));
                                lemma_joined_push(model0.frags, Frag::Open(open_char_of(*delim)));
                                let child = stack@.last();
                                let par = stack@[stack@.len() - 2];
                                assert(stack@.drop_last() =~= stack0.drop_last().push(par));
                                assert(stack@.drop_last().drop_last() =~= stack0.drop_last());
                                assert(frame_rest(child) =~= children@);
                                assert(frame_rest(par) =~= rest_old.subrange(
                                    1,
                                    rest_old.len() as int,
                                ));
                                let after_children = push_frag(
                                    compile_seq(children@, model),
                                    Frag::Close(close_char_of(*delim)),
                                );
                                assert(compile_seq(rest_old, model0) == compile_seq(
                                    frame_rest(par),
                                    after_children,
                                ));
                                assert(finish(stack@, model) == finish(
                                    stack@.drop_last(),
                                    after_children,
                                ));
                                lemma_finish_step(stack0, par, model0, after_children);
                                // termination: the group token weighs two more
                                // than the child frame it becomes
                                assert(stack_measure(stack@) == stack_measure(stack@.drop_last())
                                    + size_seq(children@) + 1);
                                assert(stack_measure(stack@.drop_last()) == stack_measure(
                                    stack0.drop_last(),
                                ) + size_seq(frame_rest(par)) + 1);
                                assert(stack_measure(stack0) == stack_measure(stack0.drop_last())
                                    + size_seq(rest_old) + 1);
                                assert(size_tok(items@[i as int]) == 2 + size_seq(children@));
                            }
                        },
                    }
                },
                Token::Punct { ch, pos } => {
                    if marker_char(*ch) {
                        if i + 1 < n_items {
                            proof {
                                assert(rest_old[1] == items@[i as int + 1]);
                                assert(rest_old.subrange(2, rest_old.len() as int)
                                    =~= items@.subrange(i as int + 2, items@.len() as int));
                                lemma_size_seq_unfold(items@, i as int + 1);
                                lemma_size_tok_pos(items@[i as int + 1]);
                            }
                            let next_tok = &items[i + 1];
                            let accepted = match next_tok {
                                Token::Literal { text, .. } => check_identifier(text.as_str()),
                                _ => false,
                            };
                            if accepted {
                                match next_tok {
                                    Token::Literal { text, .. } => {
                                        intern_param(&mut query, &mut started, &mut names, text);
                                        frame.idx = i + 2;
                                        stack.push(frame);
                                        proof {
                                            let ghost slot: int = if has_name(
                                                model0.names,
                                                text@,
                                            ) {
                                                name_index(model0.names, text@) + 1
                                            } else {
                                                model0.names.len() as int + 1
                                            };
                                            model = intern(model0, text@);
                                            assert(model.frags == model0.frags.push(
                                                Frag::Param { name: text@, slot },
                                            ));
                                            lemma_joined_push(
                                                model0.frags,
                                                Frag::Param { name: text@, slot },
                                            );
                                            let newtop = stack@.last();
                                            assert(frame_rest(newtop) =~= rest_old.subrange(
                                                2,
                                                rest_old.len() as int,
                                            ));
                                            lemma_finish_step(stack0, newtop, model0, model);
                                            assert(stack@ =~= stack0.drop_last().push(newtop));
                                            assert(size_seq(frame_rest(newtop)) < size_seq(rest_old));
                                            lemma_step_measure(stack0, stack@, newtop);
                                        }
                                    },
                                    _ => {
                                        proof {
                                            assert(false);
                                        }
                                    },
                                }
                            } else {
                                errs.push(
                                    TemplateError::ExpectedPlaceholderName {
                                        pos: token_position(next_tok),
                                    },
                                );
                                frame.idx = i + 1;
                                stack.push(frame);
                                proof {
                                    model = push_err(
                                        model0,
                                        TemplateError::ExpectedPlaceholderName {
                                            pos: token_pos(items@[i as int + 1]),
                                        },
                                    );
                                    let newtop = stack@.last();
                                    assert(frame_rest(newtop) =~= rest_old.subrange(
                                        1,
                                        rest_old.len() as int,
                                    ));
                                    lemma_finish_step(stack0, newtop, model0, model);
                                    assert(stack@ =~= stack0.drop_last().push(newtop));
                                    assert(size_seq(frame_rest(newtop)) < size_seq(rest_old));
                                    lemma_step_measure(stack0, stack@, newtop);
                                }
                            }
                        } else {
                            errs.push(TemplateError::ExpectedPlaceholderName { pos: *pos });
                            frame.idx = i + 1;
                            stack.push(frame);
                            proof {
                                model = push_err(
                                    model0,
                                    TemplateError::ExpectedPlaceholderName { pos: *pos },
                                );
                                let newtop = stack@.last();
                                assert(frame_rest(newtop) =~= rest_old.subrange(
                                    1,
                                    rest_old.len() as int,
                                ));
                                lemma_finish_step(stack0, newtop, model0, model);
                                assert(stack@ =~= stack0.drop_last().push(newtop));
                                assert(size_seq(frame_rest(newtop)) < size_seq(rest_old));
                                lemma_step_measure(stack0, stack@, newtop);
                            }
                        }
                    } else {
                        // Gather the maximal punctuation run into one fragment.
                        let mut run = String::new();
                        run.push(*ch);
                        let mut j = i + 1;
                        proof {
                            assert(run@ =~= seq![*ch]);
                            assert(punct_run_chars(rest_old) == seq![*ch] + punct_run_chars(
                                items@.subrange(i as int + 1, items@.len() as int),
                            ));
                            assert(punct_run_len(rest_old) == 1 + punct_run_len(
                                items@.subrange(i as int + 1, items@.len() as int),
                            ));
                        }
                        while run_continues(items, j)
                            invariant
                                i < j <= items@.len(),
                                items@.len() == n_items,
                                punct_run_chars(
                                    items@.subrange(i as int, items@.len() as int),
                                ) == run@ + punct_run_chars(
                                    items@.subrange(j as int, items@.len() as int),
                                ),
                                punct_run_len(items@.subrange(i as int, items@.len() as int))
                                    == (j - i) + punct_run_len(
                                    items@.subrange(j as int, items@.len() as int),
                                ),
                                size_seq(items@.subrange(i as int, items@.len() as int)) == (j
                                    - i) + size_seq(
                                    items@.subrange(j as int, items@.len() as int),
                                ),
                            decreases items@.len() - j,
                        {
                            match &items[j] {
                                Token::Punct { ch: c2, .. } => {
                                    proof {
                                        let before = items@.subrange(
                                            j as int,
                                            items@.len() as int,
                                        );
                                        let after = items@.subrange(
                                            j as int + 1,
                                            items@.len() as int,
                                        );
                                        assert(before[0] == items@[j as int]);
                                        assert(before.subrange(1, before.len() as int)
                                            =~= after);
                                        assert(punct_run_chars(before) == seq![*c2]
                                            + punct_run_chars(after));
                                        assert(punct_run_len(before) == 1 + punct_run_len(
                                            after,
                                        ));
                                        lemma_size_seq_unfold(items@, j as int);
                                        assert(run@.push(*c2) + punct_run_chars(after)
                                            =~= run@ + punct_run_chars(before));
                                    }
                                    run.push(*c2);
                                    j = j + 1;
                                },
                                _ => {
                                    proof {
                                        assert(false);
                                    }
                                },
                            }
                        }
                        proof {
                            let tail = items@.subrange(j as int, items@.len() as int);
                            assert(punct_run_len(tail) == 0);
                            assert(punct_run_chars(tail) =~= Seq::<char>::empty());
                            assert(punct_run_chars(rest_old) =~= run@);
                            assert(punct_run_len(rest_old) == j - i);
                        }
                        emit_str(&mut query, &mut started, run.as_str());
                        frame.idx = j;
                        stack.push(frame);
                        proof {
                            model = push_frag(model0, Frag::Text(punct_run_chars(rest_old)));
                            lemma_joined_push(
                                model0.frags,
                                Frag::Text(punct_run_chars(rest_old)),
                            );
                            let newtop = stack@.last();
                            assert(frame_rest(newtop) =~= rest_old.subrange(
                                punct_run_len(rest_old) as int,
                                rest_old.len() as int,
                            ));
                            lemma_finish_step(stack0, newtop, model0, model);
                            assert(stack@ =~= stack0.drop_last().push(newtop));
                            assert(size_seq(frame_rest(newtop)) < size_seq(rest_old));
                            lemma_step_measure(stack0, stack@, newtop);
                        }
                    }
                },
            }
        }
    }
    proof {
        assert(finish(stack@, model) == model);
    }
    (Query { query, placeholders: names }, errs)
}

impl Query {
    /// Compiles a query template, returning the compiled query if the
    /// template is well formed and the first diagnostic otherwise.
    ///
    /// [`compile`] reports every diagnostic; this convenience form offers
    /// the simpler surface of one error per template.
    pub fn from_tokens(tokens: &Vec<Token>) -> (r: Result<Query, TemplateError>)
        ensures
            ({
                let st = compile_seq(tokens@, init_state());
                &&& st.errs.len() == 0 <==> r is Ok
                &&& r matches Ok(q) ==> q.query@ == joined(st.frags) && q.placeholders.deep_view()
                    == st.names
                &&& r matches Err(e) ==> e == st.errs[0]
            }),
    {
        let (q, errs) = compile(tokens);
        if errs.len() == 0 {
            Ok(q)
        } else {
            Err(errs[0])
        }
    }
}

} // verus!
