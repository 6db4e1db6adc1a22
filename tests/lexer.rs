use lcl::lexer::tokenize;
use lcl::lexer::tokens::{TargetType, TokenType};

fn kinds(src: &str) -> Vec<TokenType> {
    tokenize(src, "<test>").unwrap().into_iter().map(|t| t.ttype).collect()
}

#[test]
fn tokenize_single_integer() {
    assert_eq!(
        kinds("32"),
        vec![TokenType::Push(TargetType::Integer(32))]
    );
}

#[test]
fn tokenize_plus() {
    assert_eq!(
        kinds("+"),
        vec![TokenType::Plus]
    );
}

#[test]
fn tokenize_minus() {
    assert_eq!(
        kinds("-"),
        vec![TokenType::Minus]
    );
}

#[test]
fn tokenize_dot() {
    assert_eq!(
        kinds("."),
        vec![TokenType::Dot]
    );
}

#[test]
fn tokenize_greater() {
    assert_eq!(
        kinds(">"),
        vec![TokenType::Greater]
    );
}

#[test]
fn tokenize_less() {
    assert_eq!(
        kinds("<"),
        vec![TokenType::Less]
    );
}

#[test]
fn tokenize_equal() {
    assert_eq!(
        kinds("="),
        vec![TokenType::Equal]
    );
}

#[test]
fn tokenize_notequal() {
    assert_eq!(
        kinds("!="),
        vec![TokenType::NotEqual]
    );
}

#[test]
fn tokenize_if() {
    assert_eq!(
        kinds("if"),
        vec![TokenType::If]
    );
}

#[test]
fn tokenize_else() {
    assert_eq!(
        kinds("else"),
        vec![TokenType::Else]
    );
}

#[test]
fn tokenize_end() {
    assert_eq!(
        kinds("end"),
        vec![TokenType::End]
    );
}

#[test]
fn tokenize_while() {
    assert_eq!(
        kinds("while"),
        vec![TokenType::While]
    );
}

#[test]
fn tokenize_do() {
    assert_eq!(
        kinds("do"),
        vec![TokenType::Do]
    );
}

#[test]
fn tokenize_mem() {
    assert_eq!(
        kinds("mem"),
        vec![TokenType::Mem]
    );
}

#[test]
fn tokenize_pop_to_memory() {
    assert_eq!(
        kinds("@"),
        vec![TokenType::Pop(TargetType::Memory)]
    );
}

#[test]
fn tokenize_push_from_memory() {
    assert_eq!(
        kinds("!"),
        vec![TokenType::Push(TargetType::Memory)]
    );
}

#[test]
fn tokenize_push_integer() {
    assert_eq!(
        kinds("!1"),
        vec![TokenType::Push(TargetType::Integer(1))]
    );
}

#[test]
fn tokenize_pop_to_register() {
    assert_eq!(
        kinds("@r1"),
        vec![TokenType::Pop(TargetType::Register(1))]
    );
}

#[test]
fn tokenize_push_from_register() {
    assert_eq!(
        kinds("!r1"),
        vec![TokenType::Push(TargetType::Register(1))]
    );
}

#[test]
fn tokenize_single_word_identifier() {
    assert_eq!(
        kinds("test"),
        vec![TokenType::Identifier("test".to_string())]
    );
}

#[test]
fn tokenize_long_identifier() {
    assert_eq!(
        kinds("test_test"),
        vec![TokenType::Identifier("test_test".to_string())]
    );
}

#[test]
fn tokenize_underscore_identifier() {
    assert_eq!(
        kinds("_test"),
        vec![TokenType::Identifier("_test".to_string())]
    );
}

#[test]
fn tokenize_program() {
    assert_eq!(
        kinds("12 123 + - . test"),
        vec![
        TokenType::Push(TargetType::Integer(12)),
        TokenType::Push(TargetType::Integer(123)),
        TokenType::Plus,
        TokenType::Minus,
        TokenType::Dot,
        TokenType::Identifier("test".to_string()),
    ]
    );
}

#[test]
fn tokenize_multiple_spaces_program() {
    assert_eq!(
        kinds("   12     123 + - .      test   "),
        vec![
        TokenType::Push(TargetType::Integer(12)),
        TokenType::Push(TargetType::Integer(123)),
        TokenType::Plus,
        TokenType::Minus,
        TokenType::Dot,
        TokenType::Identifier("test".to_string()),
    ]
    );
}

#[test]
fn tokenize_tabbed_program() {
    assert_eq!(
        kinds("\t12\t123\t+\t-\t.\ttest\t"),
        vec![
        TokenType::Push(TargetType::Integer(12)),
        TokenType::Push(TargetType::Integer(123)),
        TokenType::Plus,
        TokenType::Minus,
        TokenType::Dot,
        TokenType::Identifier("test".to_string()),
    ]
    );
}

#[test]
fn tokenize_multiple_lines_program() {
    assert_eq!(
        kinds("12 123 + - . test\n12 123 + - . test"),
        vec![
        TokenType::Push(TargetType::Integer(12)),
        TokenType::Push(TargetType::Integer(123)),
        TokenType::Plus,
        TokenType::Minus,
        TokenType::Dot,
        TokenType::Identifier("test".to_string()),
        TokenType::Push(TargetType::Integer(12)),
        TokenType::Push(TargetType::Integer(123)),
        TokenType::Plus,
        TokenType::Minus,
        TokenType::Dot,
        TokenType::Identifier("test".to_string()),
    ]
    );
}

#[test]
fn tokenize_if_else_program() {
    assert_eq!(
        kinds("1 if 2 else 3 end"),
        vec![
        TokenType::Push(TargetType::Integer(1)),
        TokenType::If,
        TokenType::Push(TargetType::Integer(2)),
        TokenType::Else,
        TokenType::Push(TargetType::Integer(3)),
        TokenType::End,
    ]
    );
}

#[test]
fn tokenize_while_program() {
    assert_eq!(
        kinds("while 1 do 2 . end"),
        vec![
        TokenType::While,
        TokenType::Push(TargetType::Integer(1)),
        TokenType::Do,
        TokenType::Push(TargetType::Integer(2)),
        TokenType::Dot,
        TokenType::End,
    ]
    );
}

#[test]
fn tokenize_memory_program() {
    assert_eq!(
        kinds("mem 1 @ mem ! ."),
        vec![
        TokenType::Mem,
        TokenType::Push(TargetType::Integer(1)),
        TokenType::Pop(TargetType::Memory),
        TokenType::Mem,
        TokenType::Push(TargetType::Memory),
        TokenType::Dot,
    ]
    );
}

#[test]
fn tokenize_single_line_comment1() {
    assert_eq!(
        kinds("12 // comment"),
        vec![TokenType::Push(TargetType::Integer(12))]
    );
}

#[test]
fn tokenize_single_line_comment2() {
    assert_eq!(
        kinds("12 /* comment */"),
        vec![TokenType::Push(TargetType::Integer(12))]
    );
}

#[test]
fn tokenize_multiple_lines_comment1() {
    assert_eq!(
        kinds("12 // comment\n12 // comment"),
        vec![
        TokenType::Push(TargetType::Integer(12)), TokenType::Push(TargetType::Integer(12))
    ]
    );
}

#[test]
fn tokenize_multiple_lines_comment2() {
    assert_eq!(
        kinds("/* comment\ncomment */ 12"),
        vec![TokenType::Push(TargetType::Integer(12))]
    );
}

#[test]
fn tokenize_invalid_operator() {
    assert!(tokenize("+-", "<test>").is_err());
}

#[test]
fn tokenize_invalid_identifier() {
    assert!(tokenize(".test", "<test>").is_err());
}

#[test]
fn tokenize_invalid_number() {
    assert!(tokenize("32asd", "<test>").is_err());
}

#[test]
fn tokenize_inavlid_pop() {
    assert!(tokenize("@1", "<test>").is_err());
}

#[test]
fn tokenize_inavlid_pop_register_1() {
    assert!(tokenize("@ra1", "<test>").is_err());
}

#[test]
fn tokenize_inavlid_pop_register_2() {
    assert!(tokenize("@r1a", "<test>").is_err());
}

#[test]
fn tokenize_inavlid_push_register_1() {
    assert!(tokenize("!ra1", "<test>").is_err());
}

#[test]
fn tokenize_inavlid_push_register_2() {
    assert!(tokenize("!r1a", "<test>").is_err());
}
