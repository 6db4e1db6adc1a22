use std::collections::HashMap;

use lcl::compiler::rules::ErrorKind;
use lcl::compiler::{translate, CompileError};
use lcl::lexer::tokenize;

const STACK_TOP: i64 = 0x7fff_0000;
const MEM_BASE: i64 = 0x1000_0000;

fn compile(src: &str) -> Result<String, CompileError> {
    let tokens = tokenize(src, "<test>").unwrap();
    translate(&tokens)
}

fn reg_index(name: &str) -> Option<usize> {
    ["rax", "rbx", "rcx", "rdx", "rdi", "rsp", "rbp"].iter().position(|r| *r == name)
}

/// Runs the program text from `_start` on a small model of the machine and
/// returns what it printed. Only the instructions the generator emits are known.
fn run(text: &str) -> String {
    let lines: Vec<&str> = text.lines().map(|l| l.trim()).collect();
    let mut labels: HashMap<String, usize> = HashMap::new();
    for (i, l) in lines.iter().enumerate() {
        if let Some(name) = l.strip_suffix(':') {
            labels.insert(name.to_string(), i);
        }
    }
    let mut regs = [0i64; 7];
    regs[5] = STACK_TOP;
    let mut memory: HashMap<i64, i64> = HashMap::new();
    let mut out = String::new();
    let mut order = std::cmp::Ordering::Equal;
    let mut zero = false;
    let mut pc = labels["_start"] + 1;
    let mut steps = 0;
    loop {
        steps += 1;
        assert!(steps < 1_000_000, "program does not stop");
        let line = lines[pc];
        pc += 1;
        let code = line.split(';').next().unwrap().trim();
        if code.is_empty() || code.ends_with(':') {
            continue;
        }
        let (op, rest) = match code.find(char::is_whitespace) {
            Some(i) => (&code[..i], code[i..].trim()),
            None => (code, ""),
        };
        let args: Vec<&str> = if rest.is_empty() { vec![] } else { rest.split(',').map(|a| a.trim()).collect() };
        let value = |a: &str, regs: &[i64; 7], memory: &HashMap<i64, i64>| -> i64 {
            if let Some(r) = reg_index(a) {
                regs[r]
            } else if a == "mem" {
                MEM_BASE
            } else if let Some(inner) = a.strip_prefix('[').and_then(|x| x.strip_suffix(']')) {
                let addr = if let Some((base, off)) = inner.split_once('+') {
                    regs[reg_index(base.trim()).unwrap()] + off.trim().parse::<i64>().unwrap()
                } else {
                    regs[reg_index(inner.trim()).unwrap()]
                };
                *memory.get(&addr).unwrap_or(&0)
            } else {
                a.parse::<i64>().unwrap()
            }
        };
        match op {
            "mov" => {
                let v = value(args[1], &regs, &memory);
                if let Some(inner) = args[0].strip_prefix('[').and_then(|x| x.strip_suffix(']')) {
                    memory.insert(regs[reg_index(inner).unwrap()], v);
                } else {
                    regs[reg_index(args[0]).unwrap()] = v;
                }
            }
            "push" => {
                let v = value(args[0], &regs, &memory);
                regs[5] -= 8;
                memory.insert(regs[5], v);
            }
            "pop" => {
                let v = *memory.get(&regs[5]).unwrap_or(&0);
                regs[5] += 8;
                regs[reg_index(args[0]).unwrap()] = v;
            }
            "add" => {
                let r = reg_index(args[0]).unwrap();
                regs[r] = regs[r].wrapping_add(value(args[1], &regs, &memory));
            }
            "sub" => {
                let r = reg_index(args[0]).unwrap();
                regs[r] = regs[r].wrapping_sub(value(args[1], &regs, &memory));
            }
            "xor" => {
                let r = reg_index(args[0]).unwrap();
                regs[r] ^= value(args[1], &regs, &memory);
            }
            "cmp" => {
                let a = value(args[0], &regs, &memory);
                let b = value(args[1], &regs, &memory);
                order = a.cmp(&b);
            }
            "cmovl" | "cmovg" | "cmove" | "cmovne" => {
                let take = match op {
                    "cmovl" => order.is_lt(),
                    "cmovg" => order.is_gt(),
                    "cmove" => order.is_eq(),
                    _ => order.is_ne(),
                };
                if take {
                    regs[reg_index(args[0]).unwrap()] = value(args[1], &regs, &memory);
                }
            }
            "test" => {
                zero = value(args[0], &regs, &memory) == 0;
            }
            "jz" => {
                if zero {
                    pc = labels[args[0]];
                }
            }
            "jmp" => pc = labels[args[0]],
            "call" => {
                if args[0] == "print" {
                    out.push_str(&format!("{}\n", regs[4] as u64));
                } else {
                    regs[5] -= 8;
                    memory.insert(regs[5], pc as i64);
                    pc = labels[args[0]];
                }
            }
            "ret" => {
                let back = *memory.get(&regs[5]).unwrap();
                regs[5] += 8;
                pc = back as usize;
            }
            "syscall" => {
                assert_eq!(regs[0], 60);
                return out;
            }
            other => panic!("unknown instruction {}", other),
        }
    }
}

fn prints(src: &str) -> String {
    run(&compile(src).unwrap())
}

fn fails_with(src: &str) -> ErrorKind {
    match compile(src) {
        Ok(_) => panic!("{:?} should fail", src),
        Err(e) => e.kind,
    }
}

#[test]
fn compile_push_int() {
    assert_eq!(prints("!1 ."), "1\n");
}

#[test]
fn compile_registers() {
    assert_eq!(prints("1 @r1 !r1 ."), "1\n");
}

#[test]
fn compile_plus() {
    assert_eq!(prints("2 2 + ."), "4\n");
}

#[test]
fn compile_minus() {
    assert_eq!(prints("5 2 - ."), "3\n");
}

#[test]
fn compile_less_true() {
    assert_eq!(prints("1 2 < ."), "1\n");
}

#[test]
fn compile_greater_true() {
    assert_eq!(prints("2 1 > ."), "1\n");
}

#[test]
fn compile_equal_true() {
    assert_eq!(prints("2 2 = ."), "1\n");
}

#[test]
fn compile_not_equal_true() {
    assert_eq!(prints("2 3 != ."), "1\n");
}

#[test]
fn compile_less_false() {
    assert_eq!(prints("2 1 < ."), "0\n");
}

#[test]
fn compile_greater_false() {
    assert_eq!(prints("1 2 > ."), "0\n");
}

#[test]
fn compile_equal_false() {
    assert_eq!(prints("2 3 = ."), "0\n");
}

#[test]
fn compile_not_equal_false() {
    assert_eq!(prints("2 2 != ."), "0\n");
}

#[test]
fn compile_dup() {
    assert_eq!(prints("1 dup . ."), "1\n1\n");
}

#[test]
fn compile_drop() {
    assert_eq!(prints("1 2 drop ."), "1\n");
}

#[test]
fn compile_swap() {
    assert_eq!(prints("1 2 swap . ."), "1\n2\n");
}

#[test]
fn compile_over() {
    assert_eq!(prints("1 2 over . . ."), "1\n2\n1\n");
}

#[test]
fn compile_rot() {
    assert_eq!(prints("1 2 3 rot . . ."), "1\n3\n2\n");
}

#[test]
fn compile_memory_1() {
    assert_eq!(prints("mem 1 @ mem ! ."), "1\n");
}

#[test]
fn compile_memory_2() {
    assert_eq!(prints("mem 8 + 2 @ mem 8 + ! ."), "2\n");
}

#[test]
fn compile_if() {
    assert_eq!(prints("2 2 = if\n    1 .\nend"), "1\n");
}

#[test]
fn compile_else() {
    assert_eq!(prints("2 2 != if\n    1 .\nelse\n    2 .\nend"), "2\n");
}

#[test]
fn compile_while() {
    assert_eq!(
        prints("0\nwhile dup 10 < do\n    dup .\n    1 +\nend"),
        "0\n1\n2\n3\n4\n5\n6\n7\n8\n9\n"
    );
}

#[test]
fn compile_function_without_args() {
    assert_eq!(prints("fn test do\n    1 .\nend\ntest"), "1\n");
}

#[test]
fn compile_function_with_args() {
    assert_eq!(prints("fn add a b do\n    a b +\nend\n3 2 add ."), "5\n");
}

#[test]
fn unexpected_else() {
    assert_eq!(fails_with("1 2 3 else 1 2 3"), ErrorKind::UnexpectedElse);
}

#[test]
fn unexpected_do() {
    assert_eq!(fails_with("1 2 3 do 1 2 3"), ErrorKind::UnexpectedDo);
}

#[test]
fn unexpected_end_of_block() {
    assert_eq!(fails_with("1 2 3 end 1 2 3"), ErrorKind::UnexpectedEnd);
}

#[test]
fn not_defined() {
    assert_eq!(fails_with("asd"), ErrorKind::Undefined);
}

#[test]
fn unfinished_function() {
    assert_eq!(fails_with("fn test do"), ErrorKind::UnclosedFunction);
}

#[test]
fn inline_with_branches_used_twice() {
    let text = compile("inline pick do if 1 . else 2 . end end 1 pick 0 pick").unwrap();
    assert!(!text.contains('\u{85}'));
    assert!(text.contains("\tjz e3_12\n"));
    assert!(text.contains("\tjz e3_14\n"));
    assert_eq!(run(&text), "1\n2\n");
}

#[test]
fn inline_inside_inline_gets_labels_per_splice() {
    let text = compile("inline a do if 1 . end end inline b do a 0 a end 1 b 1 b").unwrap();
    assert!(!text.contains('\u{85}'));
    assert!(text.contains("e3_11_16:\n"));
    assert!(text.contains("e3_13_18:\n"));
    assert_eq!(run(&text), "1\n1\n");
}
