use lcl::compiler::capture::Capture;
use lcl::compiler::rules::ErrorKind;
use lcl::compiler::{get_register, translate, Compiler};
use lcl::lexer::tokenize;
use lcl::lexer::tokens::{TargetType, Token, TokenType};
use lcl::location::Location;

fn compile(src: &str) -> Result<String, lcl::compiler::CompileError> {
    translate(&tokenize(src, "<test>").unwrap())
}

fn kind_of(src: &str) -> ErrorKind {
    compile(src).unwrap_err().kind
}

#[test]
fn balanced_program_translates() {
    let text = compile("1 if 2 . else 3 . end 0 while dup 3 < do 1 + end fn f do 1 . end f").unwrap();
    assert!(text.starts_with("global _start\nsection .text\nprint:\n"));
    assert!(text.contains("_start:\n"));
    assert!(text.ends_with("section .bss\n\tmem resq 262144\n"));
}

#[test]
fn open_block_at_end_is_structural() {
    let e = compile("1 if 2 .").unwrap_err();
    assert_eq!(e.kind, ErrorKind::UnclosedBlock);
    assert_eq!(e.loc.col, 3);
    let e = compile("0 while 1 do").unwrap_err();
    assert_eq!(e.kind, ErrorKind::UnclosedBlock);
    assert_eq!(e.loc.col, 3);
}

#[test]
fn open_definition_at_end_is_structural() {
    let e = compile("1 . fn f a do a").unwrap_err();
    assert_eq!(e.kind, ErrorKind::UnclosedFunction);
    assert_eq!(e.loc.col, 5);
}

#[test]
fn else_inside_loop_is_rejected() {
    assert_eq!(kind_of("while 1 do else end"), ErrorKind::UnexpectedElse);
}

#[test]
fn do_after_function_header_is_rejected() {
    assert_eq!(kind_of("fn f do do end"), ErrorKind::UnexpectedDo);
}

#[test]
fn undefined_name_is_reported_with_its_place() {
    let e = compile("1 2\n  nope").unwrap_err();
    assert_eq!(e.kind, ErrorKind::Undefined);
    assert_eq!(e.subject, "nope");
    assert_eq!(e.message(), "CompilationError: nope is not defined at <test>:2:1");
}

#[test]
fn calling_a_function_inside_its_own_body_is_undefined() {
    assert_eq!(kind_of("fn f do f end"), ErrorKind::Undefined);
}

#[test]
fn multiply_divide_modulo_fail() {
    assert_eq!(kind_of("2 3 * ."), ErrorKind::Unimplemented);
    assert_eq!(kind_of("6 3 / ."), ErrorKind::Unimplemented);
    assert_eq!(kind_of("7 3 % ."), ErrorKind::Unimplemented);
    assert_eq!(kind_of("fn f do 2 3 * end"), ErrorKind::Unimplemented);
    assert_eq!(compile("1 * 2").unwrap_err().message(), "CompilationError: unimplemented operation at <test>:1:3");
}

#[test]
fn first_failure_wins() {
    assert_eq!(kind_of("else *"), ErrorKind::UnexpectedElse);
    assert_eq!(kind_of("* else"), ErrorKind::Unimplemented);
}

#[test]
fn invalid_register_index() {
    let e = compile("1 @r5").unwrap_err();
    assert_eq!(e.kind, ErrorKind::InvalidRegister);
    assert_eq!(e.subject, "5");
    assert_eq!(e.message(), "CompilationError: invalid register index 5 at <test>:1:3");
    assert_eq!(kind_of("!r0"), ErrorKind::InvalidRegister);
}

#[test]
fn register_names() {
    assert_eq!(get_register(1), Some("rax"));
    assert_eq!(get_register(2), Some("rbx"));
    assert_eq!(get_register(3), Some("rcx"));
    assert_eq!(get_register(4), Some("rdx"));
    assert_eq!(get_register(0), None);
    assert_eq!(get_register(5), None);
}

#[test]
fn pop_to_immediate_is_rejected() {
    let program = vec![Token { ttype: TokenType::Pop(TargetType::Integer(3)), loc: Location::default() }];
    let e = translate(&program).unwrap_err();
    assert_eq!(e.kind, ErrorKind::PopImmediate);
    assert_eq!(e.message(), "CompilationError: cannot pop from immediate integer value at :1:1");
}

#[test]
fn literal_code_is_exact() {
    let text = compile("!-5 .").unwrap();
    assert!(text.contains("_start:\n\t; Push -5\n\tmov  rax, -5\n\tpush rax\n\t; Dot\n\tpop  rdi\n\tcall print\n\n\tmov rax, 60\n"));
}

#[test]
fn labels_follow_token_positions() {
    let text = compile("1 if 2 . else 3 . end").unwrap();
    assert!(text.contains("\tjz e1\n"));
    assert!(text.contains("\tjmp e4\ne1:\n"));
    assert!(text.contains("e4:\n"));
    let text = compile("0 while 1 do end").unwrap();
    assert!(text.contains("l1:\n"));
    assert!(text.contains("\tjz e1\n"));
    assert!(text.contains("\tjmp l1\ne1:\n"));
}

#[test]
fn callable_function_has_frame_and_return() {
    let text = compile("fn add a b do a b + end 3 2 add .").unwrap();
    assert!(text.contains("add:\n\tpush rbp\n\tmov rbp, rsp\n"));
    assert!(text.contains("\t; Push a\n\tmov rax, [rbp + 16]\n\tpush rax\n"));
    assert!(text.contains("\t; Push b\n\tmov rax, [rbp + 24]\n\tpush rax\n"));
    assert!(text.contains("\n\tpop rax\n\tmov rsp, rbp\n\tpop rbp\n\tret\n"));
    assert!(text.contains("\t; Call add\n\tcall add\n\tadd rsp, 16\n\tpush rax\n"));
}

#[test]
fn function_without_value_is_not_returning() {
    let text = compile("fn test do 1 . end test").unwrap();
    assert!(text.contains("test:\n\tpush rbp\n\tmov rbp, rsp\n\t; Push 1\n\tmov  rax, 1\n\tpush rax\n\t; Dot\n\tpop  rdi\n\tcall print\n\tmov rsp, rbp\n\tpop rbp\n\tret\n"));
    assert!(text.contains("\tcall test\n\tadd rsp, 0\n"));
    assert!(!text.contains("\tadd rsp, 0\n\tpush rax\n"));
}

#[test]
fn inline_function_is_spliced() {
    let text = compile("inline two do 2 end two two + .").unwrap();
    assert!(!text.contains("two:"));
    assert_eq!(text.matches("\t; Inline call two\n\t; Push 2\n\tmov  rax, 2\n\tpush rax\n").count(), 2);
}

#[test]
fn redefinition_takes_the_place_of_the_earlier() {
    let text = compile("fn f do 1 . end fn f do 2 . end f").unwrap();
    assert_eq!(text.matches("f:\n").count(), 1);
    assert!(text.contains("f:\n\tpush rbp\n\tmov rbp, rsp\n\t; Push 2\n"));
}

#[test]
fn nested_definition_marker_is_ignored() {
    let text = compile("fn f do fn 1 . end f").unwrap();
    assert!(text.contains("f:\n\tpush rbp\n\tmov rbp, rsp\n\t; Push 1\n"));
}

#[test]
fn memory_capacity_is_configurable() {
    let tokens = tokenize("1 .", "<test>").unwrap();
    let mut compiler = Compiler::with_mem_capacity(16);
    let text = compiler.translate_tokens(&tokens).unwrap();
    assert!(text.ends_with("\tmem resq 16\n"));
}

#[test]
fn empty_program_translates() {
    let text = compile("").unwrap();
    assert!(text.contains("ret\n_start:\n\n\tmov rax, 60\n"));
}

#[test]
fn inline_capture_keeps_returning() {
    let mut c = Capture::new(Location::default(), true);
    c.set_name("two");
    c.end_header();
    c.push_asm("\t; Push 2\n\tmov  rax, 2\n\tpush rax\n", true);
    let text = c.get_source();
    assert_eq!(text, "\t; Push 2\n\tmov  rax, 2\n\tpush rax\n");
    assert!(!c.is_returning());
    assert!(c.ends_with_push());
    let mut f = Capture::new(Location::default(), false);
    f.set_name("two");
    f.end_header();
    f.push_asm("\t; Push 2\n\tmov  rax, 2\n\tpush rax\n", true);
    f.get_source();
    assert!(f.is_returning());
}

#[test]
fn function_table_after_translation() {
    let tokens = tokenize("fn add a b do a b + end fn test do 1 . end 3 2 add . test", "<test>").unwrap();
    let mut compiler = Compiler::new();
    compiler.translate_tokens(&tokens).unwrap();
    let table: Vec<(String, usize, bool, bool)> = compiler
        .functions()
        .iter()
        .map(|f| (f.name.clone(), f.size, f.returning, f.inline))
        .collect();
    assert_eq!(table, vec![
        ("add".to_string(), 16, true, false),
        ("test".to_string(), 0, false, false),
    ]);
}
