use lcl::lexer::tokenize;
use lcl::repl::{EvalError, Outcome, Repl, Stack, Unsupported};
use lcl::scanner::defs::{Token, TokenName};
use lcl::scanner::scan::Scanner;

fn eval_line(repl: &mut Repl, line: &str) -> Vec<Result<Outcome, EvalError>> {
    tokenize(line, "<stdin>").unwrap().into_iter().map(|t| repl.eval(t)).collect()
}

#[test]
fn shell_arithmetic_and_print() {
    let mut repl = Repl::new(">> ");
    let out = eval_line(&mut repl, "2 2 + . 5 2 - . 1 2 < . 2 2 != .");
    let printed: Vec<i64> = out.into_iter().filter_map(|r| match r {
        Ok(Outcome::Print(v)) => Some(v),
        _ => None,
    }).collect();
    assert_eq!(printed, vec![4, 3, 1, 0]);
}

#[test]
fn shell_memory() {
    let mut repl = Repl::new(">> ");
    let out = eval_line(&mut repl, "mem 7 @ mem ! .");
    assert_eq!(out.last().unwrap(), &Ok(Outcome::Print(7)));
    let out = eval_line(&mut repl, "-1 !");
    assert_eq!(out.last().unwrap(), &Err(EvalError::BadAddress));
}

#[test]
fn shell_empty_stack() {
    let mut repl = Repl::new(">> ");
    let out = eval_line(&mut repl, "1 +");
    assert_eq!(out[1], Err(EvalError::EmptyStack));
    assert_eq!(EvalError::EmptyStack.message(), "StackError: stack is empty");
}

#[test]
fn shell_unsupported() {
    let mut repl = Repl::new(">> ");
    let out = eval_line(&mut repl, "x if while fn !r1");
    assert_eq!(out, vec![
        Ok(Outcome::Notice(Unsupported::Identifiers)),
        Ok(Outcome::Notice(Unsupported::ControlFlow)),
        Ok(Outcome::Notice(Unsupported::Loops)),
        Ok(Outcome::Notice(Unsupported::Functions)),
        Ok(Outcome::Notice(Unsupported::Registers)),
    ]);
    assert_eq!(eval_line(&mut repl, "1 2 *")[2], Err(EvalError::Unimplemented));
    assert_eq!(repl.prompt(), ">> ");
}

#[test]
fn stack_order() {
    let mut s = Stack::new();
    s.push(1);
    s.push(2);
    assert_eq!(s.pop(), Ok(2));
    assert_eq!(s.pop(), Ok(1));
    assert_eq!(s.pop(), Err(EvalError::EmptyStack));
}

#[test]
fn scanner_reads_arithmetic() {
    let mut scanner = Scanner::new(" 12 +\n 3*/".to_string());
    let mut token = Token::new();
    let mut seen = Vec::new();
    while scanner.scan(&mut token).unwrap() {
        seen.push((token.token_name, token.int_value));
    }
    assert_eq!(seen, vec![
        (TokenName::INTLIT, 12),
        (TokenName::PLUS, 12),
        (TokenName::INTLIT, 3),
        (TokenName::STAR, 3),
        (TokenName::SLASH, 3),
    ]);
    assert_eq!(TokenName::INTLIT.value(), "intlit");
}

#[test]
fn scanner_rejects_unknown_character() {
    let mut scanner = Scanner::new("1 x".to_string());
    let mut token = Token::new();
    assert_eq!(scanner.scan(&mut token).unwrap(), true);
    let e = scanner.scan(&mut token).unwrap_err();
    assert_eq!(e.found, 'x');
    assert_eq!(e.pos, 3);
    assert_eq!(e.line, 1);
}
