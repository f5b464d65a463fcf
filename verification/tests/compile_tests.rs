use inline_sql::compile::{compile, Query};
use inline_sql::model::TemplateError;
use inline_sql::token::{Delim, Token};

fn lit(text: &str, pos: usize) -> Token {
    Token::Literal { text: text.to_string(), pos }
}

fn punct(ch: char, pos: usize) -> Token {
    Token::Punct { ch, pos }
}

fn group(delim: Delim, children: Vec<Token>, pos: usize) -> Token {
    Token::Group { delim, children, pos }
}

fn marker(name: &str, pos: usize) -> Token {
    Token::Marker { name: name.to_string(), pos }
}

fn names(q: &Query) -> Vec<&str> {
    q.placeholders.iter().map(|s| s.as_str()).collect()
}

#[test]
fn select_with_one_placeholder() {
    let tokens = vec![
        lit("SELECT", 0),
        punct('*', 1),
        lit("FROM", 2),
        lit("pets", 3),
        lit("WHERE", 4),
        lit("name", 5),
        punct('=', 6),
        punct('#', 7),
        lit("name", 8),
    ];
    let (q, errs) = compile(&tokens);
    assert_eq!(q.query, "SELECT * FROM pets WHERE name = $1");
    assert_eq!(names(&q), vec!["name"]);
    assert!(errs.is_empty());
}

#[test]
fn insert_with_bracket_group_reproduced() {
    let tokens = vec![
        lit("INSERT", 0),
        lit("INTO", 1),
        lit("pets", 2),
        group(
            Delim::Paren,
            vec![punct('#', 4), lit("name", 5), punct(',', 6), punct('#', 7), lit("species", 8)],
            3,
        ),
    ];
    let (q, errs) = compile(&tokens);
    assert_eq!(q.query, "INSERT INTO pets ( $1 , $2 )");
    assert_eq!(names(&q), vec!["name", "species"]);
    assert!(errs.is_empty());
}

#[test]
fn insert_full_template() {
    let tokens = vec![
        lit("INSERT", 0),
        lit("INTO", 1),
        lit("pets", 2),
        group(
            Delim::Paren,
            vec![lit("name", 4), punct(',', 5), lit("species", 6)],
            3,
        ),
        lit("VALUES", 7),
        group(
            Delim::Paren,
            vec![punct('#', 9), lit("name", 10), punct(',', 11), punct('#', 12), lit(
                "species", 13,
            )],
            8,
        ),
    ];
    let (q, errs) = compile(&tokens);
    assert_eq!(q.query, "INSERT INTO pets ( name , species ) VALUES ( $1 , $2 )");
    assert_eq!(names(&q), vec!["name", "species"]);
    assert!(errs.is_empty());
}

#[test]
fn repeated_placeholder_reuses_slot() {
    let tokens = vec![
        punct('#', 0),
        lit("name", 1),
        punct('=', 2),
        punct('#', 3),
        lit("name", 4),
    ];
    let (q, errs) = compile(&tokens);
    assert_eq!(q.query, "$1 = $1");
    assert_eq!(names(&q), vec!["name"]);
    assert!(errs.is_empty());
}

#[test]
fn first_occurrence_orders_slots() {
    let tokens = vec![
        punct('#', 0),
        lit("b", 1),
        punct('#', 2),
        lit("a", 3),
        punct('#', 4),
        lit("b", 5),
    ];
    let (q, errs) = compile(&tokens);
    assert_eq!(q.query, "$1 $2 $1");
    assert_eq!(names(&q), vec!["b", "a"]);
    assert!(errs.is_empty());
}

#[test]
fn dollar_marker_accepted() {
    let tokens = vec![lit("WHERE", 0), lit("x", 1), punct('=', 2), punct('$', 3), lit("x", 4)];
    let (q, errs) = compile(&tokens);
    assert_eq!(q.query, "WHERE x = $1");
    assert_eq!(names(&q), vec!["x"]);
    assert!(errs.is_empty());
}

#[test]
fn prelexed_marker_token() {
    let tokens = vec![lit("WHERE", 0), lit("id", 1), punct('=', 2), marker("id", 3)];
    let (q, errs) = compile(&tokens);
    assert_eq!(q.query, "WHERE id = $1");
    assert_eq!(names(&q), vec!["id"]);
    assert!(errs.is_empty());
}

#[test]
fn multi_char_operator_kept_whole() {
    let tokens = vec![lit("a", 0), punct('<', 1), punct('=', 2), lit("b", 3)];
    let (q, errs) = compile(&tokens);
    assert_eq!(q.query, "a <= b");
    assert!(errs.is_empty());
}

#[test]
fn punct_run_stops_before_marker() {
    let tokens = vec![
        lit("x", 0),
        punct('<', 1),
        punct('=', 2),
        punct('#', 3),
        lit("y", 4),
    ];
    let (q, errs) = compile(&tokens);
    assert_eq!(q.query, "x <= $1");
    assert_eq!(names(&q), vec!["y"]);
    assert!(errs.is_empty());
}

#[test]
fn nested_groups_balance() {
    let tokens = vec![group(
        Delim::Brace,
        vec![group(Delim::Bracket, vec![group(Delim::Paren, vec![], 2)], 1)],
        0,
    )];
    let (q, errs) = compile(&tokens);
    assert_eq!(q.query, "{ [ ( ) ] }");
    assert!(errs.is_empty());
    assert!(q.placeholders.is_empty());
}

#[test]
fn empty_template() {
    let tokens: Vec<Token> = vec![];
    let (q, errs) = compile(&tokens);
    assert_eq!(q.query, "");
    assert!(q.placeholders.is_empty());
    assert!(errs.is_empty());
}

#[test]
fn eleven_placeholders_render_two_digit_slots() {
    let mut tokens = Vec::new();
    let base = ["p0", "p1", "p2", "p3", "p4", "p5", "p6", "p7", "p8", "p9", "p10"];
    for (i, name) in base.iter().enumerate() {
        tokens.push(punct('#', 2 * i));
        tokens.push(lit(name, 2 * i + 1));
    }
    let (q, errs) = compile(&tokens);
    assert_eq!(q.query, "$1 $2 $3 $4 $5 $6 $7 $8 $9 $10 $11");
    assert_eq!(q.placeholders.len(), 11);
    assert!(errs.is_empty());
}

#[test]
fn undelimited_group_rejected() {
    let tokens = vec![lit("a", 0), group(Delim::Undelimited, vec![lit("b", 2)], 1)];
    let (q, errs) = compile(&tokens);
    // the group's children are skipped in recovery
    assert_eq!(q.query, "a");
    assert_eq!(errs, vec![TemplateError::UndelimitedGroup { pos: 1 }]);
}

#[test]
fn marker_at_end_of_input() {
    let tokens = vec![lit("a", 0), punct('#', 1)];
    let (q, errs) = compile(&tokens);
    assert_eq!(q.query, "a");
    assert_eq!(errs, vec![TemplateError::ExpectedPlaceholderName { pos: 1 }]);
}

#[test]
fn marker_before_wrong_atom_points_at_it() {
    let tokens = vec![punct('#', 0), lit("123", 1)];
    let (q, errs) = compile(&tokens);
    // recovery continues: the number still compiles as a literal
    assert_eq!(q.query, "123");
    assert_eq!(errs, vec![TemplateError::ExpectedPlaceholderName { pos: 1 }]);
}

#[test]
fn marker_at_group_end_scoped_to_group() {
    let tokens = vec![group(Delim::Paren, vec![lit("x", 1), punct('#', 2)], 0), lit("y", 3)];
    let (q, errs) = compile(&tokens);
    // the lookahead does not escape the group: the marker fails even
    // though a literal follows the group
    assert_eq!(q.query, "( x ) y");
    assert_eq!(errs, vec![TemplateError::ExpectedPlaceholderName { pos: 2 }]);
}

#[test]
fn multiple_errors_all_collected() {
    let tokens = vec![
        punct('#', 0),
        lit("1", 1),
        group(Delim::Undelimited, vec![], 2),
        punct('$', 3),
    ];
    let (_, errs) = compile(&tokens);
    assert_eq!(
        errs,
        vec![
            TemplateError::ExpectedPlaceholderName { pos: 1 },
            TemplateError::UndelimitedGroup { pos: 2 },
            TemplateError::ExpectedPlaceholderName { pos: 3 },
        ]
    );
}

#[test]
fn marker_inside_undelimited_group_collects_nothing() {
    let tokens = vec![group(Delim::Undelimited, vec![punct('#', 1), lit("x", 2)], 0)];
    let (q, errs) = compile(&tokens);
    // the rejected group's contents are skipped, so nothing is referenced
    assert_eq!(q.query, "");
    assert!(q.placeholders.is_empty());
    assert_eq!(errs, vec![TemplateError::UndelimitedGroup { pos: 0 }]);
}

#[test]
fn template_error_accessors() {
    let e = TemplateError::ExpectedPlaceholderName { pos: 9 };
    assert_eq!(e.position(), 9);
    assert!(e.describe().contains("placeholder name"));
    let g = TemplateError::UndelimitedGroup { pos: 3 };
    assert_eq!(g.position(), 3);
    assert!(g.describe().contains("bracket"));
}

#[test]
fn underscore_identifier_accepted() {
    let tokens = vec![punct('#', 0), lit("_x9", 1)];
    let (q, errs) = compile(&tokens);
    assert_eq!(q.query, "$1");
    assert_eq!(names(&q), vec!["_x9"]);
    assert!(errs.is_empty());
}

#[test]
fn from_tokens_ok_on_clean_template() {
    let tokens = vec![lit("DELETE", 0), lit("FROM", 1), lit("pets", 2)];
    let q = Query::from_tokens(&tokens).unwrap();
    assert_eq!(q.query, "DELETE FROM pets");
}

#[test]
fn from_tokens_reports_first_error() {
    let tokens = vec![punct('#', 0), group(Delim::Undelimited, vec![], 5)];
    let err = Query::from_tokens(&tokens).unwrap_err();
    assert_eq!(err, TemplateError::ExpectedPlaceholderName { pos: 5 });
}
