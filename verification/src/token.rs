//! The token model of a query template.
//!
//! A template is a sequence of tokens: literal atoms (keywords, identifiers,
//! number or string literals), single-character punctuation atoms, bracketed
//! groups holding a nested token sequence, and named parameter markers.  A
//! front end lexes the host language's token stream into this shape; the
//! compiler reads it and nothing else.  Every token carries an opaque source
//! position that diagnostics point at.

use vstd::prelude::*;

verus! {

/// The delimiter kind of a group token.
///
/// A group without brackets (`Undelimited`) can occur in a lexed token
/// stream, but it is invalid input to the template compiler.
#[derive(Clone, Copy, PartialEq, Eq, Structural, Debug)]
pub enum Delim {
    /// `(` ... `)`
    Paren,
    /// `{` ... `}`
    Brace,
    /// `[` ... `]`
    Bracket,
    /// A group with no bracket characters.
    Undelimited,
}

/// One token of a query template.
#[derive(Debug)]
pub enum Token {
    /// A literal atom: a keyword, an identifier, a number or string literal.
    Literal {
        /// The atom's text.
        text: String,
        /// The atom's source position.
        pos: usize,
    },
    /// A single punctuation character.
    Punct {
        /// The punctuation character.
        ch: char,
        /// The atom's source position.
        pos: usize,
    },
    /// A bracketed group of nested tokens.
    Group {
        /// The delimiter kind of the group.
        delim: Delim,
        /// The tokens inside the group.
        children: Vec<Token>,
        /// The group's source position.
        pos: usize,
    },
    /// A pre-lexed parameter marker referencing a parameter by name.
    Marker {
        /// The referenced parameter name.
        name: String,
        /// The marker's source position.
        pos: usize,
    },
}

/// The source position a token carries.
pub open spec fn token_pos(t: Token) -> usize {
    match t {
        Token::Literal { pos, .. } => pos,
        Token::Punct { pos, .. } => pos,
        Token::Group { pos, .. } => pos,
        Token::Marker { pos, .. } => pos,
    }
}

/// Whether `c` begins a parameter reference in a template.
pub open spec fn is_marker_char(c: char) -> bool {
    c == '#' || c == '$'
}

/// Whether `c` may begin an identifier.
pub open spec fn is_ident_start(c: char) -> bool {
    ||| 'a' <= c && c <= 'z'
    ||| 'A' <= c && c <= 'Z'
    ||| c == '_'
}

/// Whether `c` may continue an identifier.
pub open spec fn is_ident_continue(c: char) -> bool {
    is_ident_start(c) || ('0' <= c && c <= '9')
}

/// Whether `s` is shaped like an identifier: nonempty, starting with a
/// letter or underscore, continuing with letters, digits or underscores.
pub open spec fn is_identifier(s: Seq<char>) -> bool {
    &&& s.len() > 0
    &&& is_ident_start(s[0])
    &&& forall|i: int| 1 <= i < s.len() ==> is_ident_continue(#[trigger] s[i])
}

/// The opening bracket character of a delimiter kind.
///
/// An undelimited group has no brackets; the compiler rejects it before
/// asking for one, so that case maps to an arbitrary placeholder character.
pub open spec fn open_char_of(d: Delim) -> char {
    match d {
        Delim::Paren => '(',
        Delim::Brace => '{',
        Delim::Bracket => '[',
        Delim::Undelimited => '(',
    }
}

/// The closing bracket character of a delimiter kind.
pub open spec fn close_char_of(d: Delim) -> char {
    match d {
        Delim::Paren => ')',
        Delim::Brace => '}',
        Delim::Bracket => ']',
        Delim::Undelimited => ')',
    }
}

/// Returns whether `c` begins a parameter reference.
pub fn marker_char(c: char) -> (b: bool)
    ensures
        b == is_marker_char(c),
{
    c == '#' || c == '$'
}

/// Returns whether `s` is shaped like an identifier.
pub fn check_identifier(s: &str) -> (b: bool)
    ensures
        b == is_identifier(s@),
{
    let n = s.unicode_len();
    if n == 0 {
        return false;
    }
    let c0 = s.get_char(0);
    if !(('a' <= c0 && c0 <= 'z') || ('A' <= c0 && c0 <= 'Z') || c0 == '_') {
        return false;
    }
    let mut i: usize = 1;
    while i < n
        invariant
            1 <= i <= n,
            n == s@.len(),
            is_ident_start(s@[0]),
            forall|j: int| 1 <= j < i ==> is_ident_continue(#[trigger] s@[j]),
        decreases n - i,
    {
        let c = s.get_char(i);
        if !(('a' <= c && c <= 'z') || ('A' <= c && c <= 'Z') || c == '_' || ('0' <= c && c
            <= '9')) {
            return false;
        }
        i = i + 1;
    }
    true
}

/// Returns the source position carried by `t`.
pub fn token_position(t: &Token) -> (p: usize)
    ensures
        p == token_pos(*t),
{
    match t {
        Token::Literal { pos, .. } => *pos,
        Token::Punct { pos, .. } => *pos,
        Token::Group { pos, .. } => *pos,
        Token::Marker { pos, .. } => *pos,
    }
}

/// Returns the opening bracket character of a bracketed delimiter kind,
/// or `None` for an undelimited group.
pub fn open_char(delim: &Delim) -> (r: Option<char>)
    ensures
        r is Some <==> *delim != Delim::Undelimited,
        r is Some ==> r->0 == open_char_of(*delim),
{
    match delim {
        Delim::Paren => Some('('),
        Delim::Brace => Some('{'),
        Delim::Bracket => Some('['),
        Delim::Undelimited => None,
    }
}

/// Returns the closing bracket character of a bracketed delimiter kind,
/// or `None` for an undelimited group.
pub fn close_char(delim: &Delim) -> (r: Option<char>)
    ensures
        r is Some <==> *delim != Delim::Undelimited,
        r is Some ==> r->0 == close_char_of(*delim),
{
    match delim {
        Delim::Paren => Some(')'),
        Delim::Brace => Some('}'),
        Delim::Bracket => Some(']'),
        Delim::Undelimited => None,
    }
}

} // verus!
