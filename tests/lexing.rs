use lcl::lexer::errors::LexingError;
use lcl::lexer::tokenize;
use lcl::lexer::tokens::{tokenize_word, TargetType, TokenType};

fn kinds(src: &str) -> Vec<TokenType> {
    tokenize(src, "<test>").unwrap().into_iter().map(|t| t.ttype).collect()
}

#[test]
fn signed_literals() {
    assert_eq!(kinds("!-5 +7 -12"), vec![
        TokenType::Push(TargetType::Integer(-5)),
        TokenType::Push(TargetType::Integer(7)),
        TokenType::Push(TargetType::Integer(-12)),
    ]);
}

#[test]
fn integer_range_edges() {
    assert_eq!(kinds("-9223372036854775808 9223372036854775807"), vec![
        TokenType::Push(TargetType::Integer(i64::MIN)),
        TokenType::Push(TargetType::Integer(i64::MAX)),
    ]);
    assert!(matches!(tokenize("9223372036854775808", "<test>").unwrap_err().error, LexingError::Syntax(_)));
}

#[test]
fn names_and_keywords() {
    assert_eq!(kinds("_x1 inline fn été"), vec![
        TokenType::Identifier("_x1".to_string()),
        TokenType::Inline,
        TokenType::Function,
        TokenType::Identifier("été".to_string()),
    ]);
}

#[test]
fn numeric_letter_is_not_a_name() {
    let e = tokenize("Ⅻ", "<test>").unwrap_err();
    assert!(matches!(e.error, LexingError::ParsingIdentifier(ref s) if s == "Ⅻ"));
}

#[test]
fn register_index_errors() {
    let e = tokenize("1 !rx", "<test>").unwrap_err();
    assert!(matches!(e.error, LexingError::RegisterIndex(ref s) if s == "x"));
    assert_eq!(e.loc.col, 3);
    assert_eq!(e.message(), "\tx\n\t^\nRegisterIndexError: invalid register index at <test>:1:3");
    assert_eq!(kinds("!r+2 @r7"), vec![
        TokenType::Push(TargetType::Register(2)),
        TokenType::Pop(TargetType::Register(7)),
    ]);
}

#[test]
fn syntax_error_message() {
    let e = tokenize("+-", "f.lcl").unwrap_err();
    assert_eq!(e.message(), "\t+-\n\t^\nSyntaxError: invalid syntax at f.lcl:1:1");
}

#[test]
fn token_locations() {
    let tokens = tokenize("1  2\n  3 // note\n4", "<test>").unwrap();
    let places: Vec<(usize, usize, usize)> = tokens.iter().map(|t| (t.loc.row, t.loc.col, t.loc.idx)).collect();
    assert_eq!(places, vec![(1, 1, 0), (1, 4, 3), (2, 1, 7), (3, 1, 17)]);
    assert_eq!(tokens[0].loc.file, "<test>");
}

#[test]
fn comment_edges() {
    assert_eq!(kinds("/*/ 12"), vec![TokenType::Push(TargetType::Integer(12))]);
    assert_eq!(kinds("1 /* never closed"), vec![TokenType::Push(TargetType::Integer(1))]);
    assert_eq!(kinds("// only a comment"), vec![]);
    assert_eq!(kinds(""), vec![]);
}

#[test]
fn word_length_counts_bytes() {
    let (t, n) = tokenize_word("été").unwrap();
    assert_eq!(t, TokenType::Identifier("été".to_string()));
    assert_eq!(n, 5);
}

#[test]
fn locations_count_bytes() {
    let tokens = tokenize("\u{a0}+ été 1\n2", "<test>").unwrap();
    let places: Vec<(usize, usize, usize)> = tokens.iter().map(|t| (t.loc.row, t.loc.col, t.loc.idx)).collect();
    assert_eq!(places, vec![(1, 3, 2), (1, 5, 4), (1, 11, 10), (2, 1, 12)]);
    let e = tokenize("\u{a0}+ été 1\n€", "<test>").unwrap_err();
    assert_eq!((e.loc.row, e.loc.col, e.loc.idx), (2, 1, 12));
    let e = tokenize("é +-", "<test>").unwrap_err();
    assert_eq!(e.loc.col, 4);
    assert_eq!(e.loc.idx, 3);
}

#[test]
fn parse_through_from_str() {
    let t: TokenType = "while".parse().unwrap();
    assert_eq!(t, TokenType::While);
}
