use vstd::prelude::*;

use crate::compiler::capture::{
    distinct_locals, frame_operand, header_text, footer_text, lemma_set_local_distinct,
    local_offset, name_or_empty, set_local, CaptureView, BASE_OFFSET, SLOT,
};
use crate::lexer::tokens::{TargetType, Token, TokenType};
use crate::location::{location_text, LocationView};
use crate::text::{dec, dec_int};

verus! {

/// The kind of block an open marker stands for.
#[derive(Clone, Copy, PartialEq, Eq, Structural, Debug)]
pub enum MarkerKind {
    If,
    Else,
    While,
}

/// An open block: the position of the token that opened it, which also names
/// its labels, and what kind of block it is.
#[derive(Clone, Copy, Debug)]
pub struct Marker {
    pub idx: usize,
    pub kind: MarkerKind,
}

/// A completed function as plain values.
pub struct FunctionView {
    pub name: Seq<char>,
    pub source: Seq<char>,
    pub size: nat,
    pub returning: bool,
    pub pushes: bool,
    pub inline: bool,
}

/// What makes translation fail.
#[derive(Clone, Copy, PartialEq, Eq, Structural, Debug)]
pub enum ErrorKind {
    UnexpectedElse,
    UnexpectedDo,
    UnexpectedEnd,
    UnclosedBlock,
    UnclosedFunction,
    Undefined,
    InvalidRegister,
    PopImmediate,
    Unimplemented,
}

impl ErrorKind {
    /// Blocks and definitions that do not match up.
    pub open spec fn is_structural(self) -> bool {
        match self {
            ErrorKind::UnexpectedElse | ErrorKind::UnexpectedDo | ErrorKind::UnexpectedEnd
            | ErrorKind::UnclosedBlock | ErrorKind::UnclosedFunction => true,
            _ => false,
        }
    }
}

/// A failure as plain values: its kind, where it happened, and the word it
/// concerns (an undefined name, a register index), empty for the others.
pub struct ErrorView {
    pub kind: ErrorKind,
    pub loc: LocationView,
    pub subject: Seq<char>,
}

/// The generator's state between two tokens.
pub struct GenState {
    pub markers: Seq<Marker>,
    pub capture: Option<CaptureView>,
    pub functions: Seq<FunctionView>,
}

/// The state before the first token.
pub open spec fn initial_state() -> GenState {
    GenState { markers: Seq::empty(), capture: None, functions: Seq::empty() }
}

/// Index of the first function named `name` at or after position `i`.
pub open spec fn find_function(fs: Seq<FunctionView>, name: Seq<char>, i: int) -> Option<int>
    decreases fs.len() - i,
{
    if i < 0 || i >= fs.len() {
        None
    } else if fs[i].name == name {
        Some(i)
    } else {
        find_function(fs, name, i + 1)
    }
}

/// The function named `name`, if it is defined.
pub open spec fn lookup(fs: Seq<FunctionView>, name: Seq<char>) -> Option<FunctionView> {
    match find_function(fs, name, 0) {
        Some(i) => Some(fs[i]),
        None => None,
    }
}

/// The table with `f` installed: it takes the place of a function of the same
/// name, or comes last.
pub open spec fn install(fs: Seq<FunctionView>, f: FunctionView) -> Seq<FunctionView> {
    match find_function(fs, f.name, 0) {
        Some(i) => fs.update(i, f),
        None => fs.push(f),
    }
}

/// The names of the logical registers 1 to 4.
pub open spec fn register_text(r: nat) -> Option<Seq<char>> {
    if r == 1 {
        Some("rax"@)
    } else if r == 2 {
        Some("rbx"@)
    } else if r == 3 {
        Some("rcx"@)
    } else if r == 4 {
        Some("rdx"@)
    } else {
        None
    }
}

/// Stack words that are never names of functions or locals.
pub open spec fn is_shuffle_word(w: Seq<char>) -> bool {
    w == "dup"@ || w == "drop"@ || w == "swap"@ || w == "over"@ || w == "rot"@
}

/// The code of a stack word, and whether it ends by pushing.
pub open spec fn shuffle_code(w: Seq<char>) -> (Seq<char>, bool) {
    if w == "dup"@ {
        (DUP_CODE@, true)
    } else if w == "drop"@ {
        (DROP_CODE@, false)
    } else if w == "swap"@ {
        (SWAP_CODE@, true)
    } else if w == "over"@ {
        (OVER_CODE@, true)
    } else {
        (ROT_CODE@, true)
    }
}

/// Fixed code of the operators, stack words and memory access. Binary
/// operators pop the right operand first; comparisons leave 1 or 0.
pub const PLUS_CODE: &'static str = "\t; Plus\n\tpop  rax\n\tpop  rbx\n\tadd  rax, rbx\n\tpush rax\n";
pub const MINUS_CODE: &'static str = "\t; Minus\n\tpop  rax\n\tpop  rbx\n\tsub  rbx, rax\n\tpush rbx\n";
pub const DOT_CODE: &'static str = "\t; Dot\n\tpop  rdi\n\tcall print\n";
pub const LESS_CODE: &'static str = "\t; Less\n\tmov rcx, 0\n\tmov rdx, 1\n\tpop rbx\n\tpop rax\n\tcmp rax, rbx\n\tcmovl rcx, rdx\n\tpush rcx\n";
pub const GREATER_CODE: &'static str = "\t; Greater\n\tmov rcx, 0\n\tmov rdx, 1\n\tpop rbx\n\tpop rax\n\tcmp rax, rbx\n\tcmovg rcx, rdx\n\tpush rcx\n";
pub const EQUAL_CODE: &'static str = "\t; Equal\n\tmov rcx, 0\n\tmov rdx, 1\n\tpop rax\n\tpop rbx\n\tcmp rax, rbx\n\tcmove rcx, rdx\n\tpush rcx\n";
pub const NOT_EQUAL_CODE: &'static str = "\t; NotEqual\n\tmov rcx, 0\n\tmov rdx, 1\n\tpop rax\n\tpop rbx\n\tcmp rax, rbx\n\tcmovne rcx, rdx\n\tpush rcx\n";
pub const DUP_CODE: &'static str = "\t; DUP\n\tpop rax\n\tpush rax\n\tpush rax\n";
pub const DROP_CODE: &'static str = "\t; DROP\n\tpop rax\n\txor rax, rax\n";
pub const SWAP_CODE: &'static str = "\t; SWAP\n\tpop rax\n\tpop rbx\n\tpush rax\n\tpush rbx\n";
pub const OVER_CODE: &'static str = "\t; OVER\n\tpop rax\n\tpop rbx\n\tpush rbx\n\tpush rax\n\tpush rbx\n";
pub const ROT_CODE: &'static str = "\t; ROT\n\tpop rax\n\tpop rbx\n\tpop rcx\n\tpush rbx\n\tpush rax\n\tpush rcx\n";
pub const MEM_CODE: &'static str = "\t; MEM\n\tpush mem\n";
pub const LOAD_CODE: &'static str = "\t; Load\n\tpop rax\n\txor rbx, rbx\n\tmov rbx, [rax]\n\tpush rbx\n";
pub const STORE_CODE: &'static str = "\t; Store\n\tpop rax\n\tpop rbx\n\tmov [rbx], rax\n";

/// The character that follows each label number written inside an inline
/// definition. It is white space, so no word of a program holds it; each
/// splice of the body replaces it with a suffix of its own.
pub const LABEL_MARK: char = '\u{85}';

/// `LABEL_MARK` as text.
pub const LABEL_MARK_TEXT: &'static str = "\u{85}";

/// Whether labels written now belong to an inline definition.
pub open spec fn scoped(s: GenState) -> bool {
    s.capture is Some && s.capture->Some_0.inline
}

/// The mark written after label numbers in an inline definition.
pub open spec fn mark_text(scoped: bool) -> Seq<char> {
    if scoped {
        LABEL_MARK_TEXT@
    } else {
        Seq::empty()
    }
}

/// The number part of the label of token `i`.
pub open spec fn label(i: nat, scoped: bool) -> Seq<char> {
    dec(i) + mark_text(scoped)
}

/// Pops the condition and skips to the end of the block when it is zero.
pub open spec fn if_code(i: nat, sc: bool) -> Seq<char> {
    "\t; If\n\tpop rax\n\ttest rax, rax\n\tjz e"@ + label(i, sc) + "\n"@
}

/// Leaves the true branch for the end of the else branch, then starts the
/// else branch at the label the condition jumps to.
pub open spec fn else_code(i: nat, m: nat, sc: bool) -> Seq<char> {
    "\tjmp e"@ + label(i, sc) + "\ne"@ + label(m, sc) + ":\n"@
}

/// The label a loop comes back to.
pub open spec fn while_code(i: nat, sc: bool) -> Seq<char> {
    "\t; While:start of loop condition\nl"@ + label(i, sc) + ":\n"@
}

/// Pops the loop condition and leaves the loop when it is zero.
pub open spec fn do_code(m: nat, sc: bool) -> Seq<char> {
    "\t; Do:end of loop condition\n\tpop rax\n\ttest rax, rax\n\tjz e"@ + label(m, sc) + "\n"@
}

/// Closes a block: a loop jumps back to its start before its end label.
pub open spec fn end_code(m: Marker, sc: bool) -> Seq<char> {
    if m.kind == MarkerKind::While {
        "\tjmp l"@ + label(m.idx as nat, sc) + "\ne"@ + label(m.idx as nat, sc) + ":\n"@
    } else {
        "e"@ + label(m.idx as nat, sc) + ":\n"@
    }
}

/// `body` with each label mark replaced by `with`.
pub open spec fn relabel(body: Seq<char>, with: Seq<char>) -> Seq<char>
    decreases body.len(),
{
    if body.len() == 0 {
        Seq::empty()
    } else {
        relabel(body.drop_last(), with) + if body.last() == LABEL_MARK {
            with
        } else {
            seq![body.last()]
        }
    }
}

/// Pushes the local `name` kept at `offset` in the frame.
pub open spec fn local_code(name: Seq<char>, offset: nat) -> Seq<char> {
    "\t; Push "@ + name + "\n\tmov rax, "@ + frame_operand(offset) + "\n\tpush rax\n"@
}

/// Calls a function, drops its arguments, and pushes what it returns.
pub open spec fn call_code(name: Seq<char>, size: nat, returning: bool) -> Seq<char> {
    "\t; Call "@ + name + "\n\tcall "@ + name + "\n\tadd rsp, "@ + dec(size) + "\n"@ + if returning {
        "\tpush rax\n"@
    } else {
        Seq::empty()
    }
}

/// Splices the body of an inline function at token `site`: its labels get
/// the suffix `_site`, so each splice has labels of its own; inside another
/// inline definition they keep a mark for that one's splices.
pub open spec fn inline_code(name: Seq<char>, source: Seq<char>, site: nat, sc: bool) -> Seq<char> {
    "\t; Inline call "@ + name + "\n"@ + relabel(source, "_"@ + dec(site) + mark_text(sc))
}

/// Pushes the literal `n`.
pub open spec fn push_int_code(n: int) -> Seq<char> {
    "\t; Push "@ + dec_int(n) + "\n\tmov  rax, "@ + dec_int(n) + "\n\tpush rax\n"@
}

/// Pushes the value of register `r`.
pub open spec fn push_reg_code(r: Seq<char>) -> Seq<char> {
    "\t; Push "@ + r + "\n\tpush "@ + r + "\n"@
}

/// Pops the top of the stack into register `r`.
pub open spec fn pop_reg_code(r: Seq<char>) -> Seq<char> {
    "\t; Pop "@ + r + "\n\tpop "@ + r + "\n"@
}

/// A failure at token `t`.
pub open spec fn fail_at(kind: ErrorKind, t: Token) -> ErrorView {
    ErrorView { kind, loc: t.loc@, subject: Seq::empty() }
}

/// The function a closed capture becomes.
pub open spec fn completed(c: CaptureView) -> FunctionView {
    FunctionView {
        name: name_or_empty(c.name),
        source: header_text(name_or_empty(c.name), c.inline) + c.source + footer_text(
            c.inline,
            c.ends_with_push,
        ),
        size: (c.offset - BASE_OFFSET) as nat,
        returning: if c.inline { c.returning } else { c.ends_with_push },
        pushes: c.ends_with_push,
        inline: c.inline,
    }
}

/// A new capture opened at token `t`.
pub open spec fn opened(t: Token, inline: bool) -> CaptureView {
    CaptureView {
        name: None,
        locals: Seq::empty(),
        source: Seq::empty(),
        offset: BASE_OFFSET as nat,
        inline,
        returning: false,
        initializing: true,
        ends_with_push: false,
        loc: t.loc@,
    }
}

/// What an identifier does.
pub open spec fn identifier_step(s: GenState, t: Token, w: Seq<char>, i: nat) -> Result<(GenState, Seq<char>, bool), ErrorView> {
    if is_shuffle_word(w) {
        Ok((s, shuffle_code(w).0, shuffle_code(w).1))
    } else {
        match s.capture {
            Some(c) if c.name is None => Ok(
                (GenState { capture: Some(CaptureView { name: Some(w), ..c }), ..s }, Seq::empty(), false),
            ),
            Some(c) if c.initializing => Ok(
                (
                    GenState {
                        capture: Some(
                            CaptureView {
                                offset: (c.offset + SLOT) as nat,
                                locals: set_local(c.locals, w, (c.offset + SLOT) as nat),
                                ..c
                            },
                        ),
                        ..s
                    },
                    Seq::empty(),
                    false,
                ),
            ),
            Some(c) if local_offset(c.locals, w) is Some => Ok(
                (s, local_code(w, local_offset(c.locals, w)->0), true),
            ),
            _ => match lookup(s.functions, w) {
                Some(f) => if f.inline {
                    Ok((s, inline_code(w, f.source, i, scoped(s)), f.pushes))
                } else {
                    Ok((s, call_code(w, f.size, f.returning), f.returning))
                },
                None => Err(ErrorView { kind: ErrorKind::Undefined, loc: t.loc@, subject: w }),
            },
        }
    }
}

/// What a push or pop through a register does.
pub open spec fn register_step(s: GenState, t: Token, r: usize, push: bool) -> Result<(GenState, Seq<char>, bool), ErrorView> {
    match register_text(r as nat) {
        Some(reg) => if push {
            Ok((s, push_reg_code(reg), true))
        } else {
            Ok((s, pop_reg_code(reg), false))
        },
        None => Err(ErrorView { kind: ErrorKind::InvalidRegister, loc: t.loc@, subject: dec(r as nat) }),
    }
}

/// What token `i` of `prog` does in state `s`: the next state, the code it
/// emits, and whether that code ends by pushing; or why translation fails.
pub open spec fn step(s: GenState, prog: Seq<Token>, i: int) -> Result<(GenState, Seq<char>, bool), ErrorView> {
    let t = prog[i];
    match t.ttype {
        TokenType::Plus => Ok((s, PLUS_CODE@, true)),
        TokenType::Minus => Ok((s, MINUS_CODE@, true)),
        TokenType::Dot => Ok((s, DOT_CODE@, false)),
        TokenType::Less => Ok((s, LESS_CODE@, true)),
        TokenType::Greater => Ok((s, GREATER_CODE@, true)),
        TokenType::Equal => Ok((s, EQUAL_CODE@, true)),
        TokenType::NotEqual => Ok((s, NOT_EQUAL_CODE@, true)),
        TokenType::If => Ok(
            (
                GenState { markers: s.markers.push(Marker { idx: i as usize, kind: MarkerKind::If }), ..s },
                if_code(i as nat, scoped(s)),
                false,
            ),
        ),
        TokenType::Else => if s.markers.len() > 0 && s.markers.last().kind != MarkerKind::While {
            Ok(
                (
                    GenState {
                        markers: s.markers.drop_last().push(Marker { idx: i as usize, kind: MarkerKind::Else }),
                        ..s
                    },
                    else_code(i as nat, s.markers.last().idx as nat, scoped(s)),
                    false,
                ),
            )
        } else {
            Err(fail_at(ErrorKind::UnexpectedElse, t))
        },
        TokenType::While => Ok(
            (
                GenState { markers: s.markers.push(Marker { idx: i as usize, kind: MarkerKind::While }), ..s },
                while_code(i as nat, scoped(s)),
                false,
            ),
        ),
        TokenType::Do => if s.markers.len() > 0 {
            Ok((s, do_code(s.markers.last().idx as nat, scoped(s)), false))
        } else {
            match s.capture {
                Some(c) if c.initializing => Ok(
                    (GenState { capture: Some(CaptureView { initializing: false, ..c }), ..s }, Seq::empty(), false),
                ),
                _ => Err(fail_at(ErrorKind::UnexpectedDo, t)),
            }
        },
        TokenType::End => if s.markers.len() > 0 {
            Ok((GenState { markers: s.markers.drop_last(), ..s }, end_code(s.markers.last(), scoped(s)), false))
        } else {
            match s.capture {
                Some(c) => Ok(
                    (
                        GenState { capture: None, functions: install(s.functions, completed(c)), ..s },
                        Seq::empty(),
                        false,
                    ),
                ),
                None => Err(fail_at(ErrorKind::UnexpectedEnd, t)),
            }
        },
        TokenType::Identifier(w) => identifier_step(s, t, w@, i as nat),
        TokenType::Mem => Ok((s, MEM_CODE@, true)),
        TokenType::Push(TargetType::Integer(n)) => Ok((s, push_int_code(n as int), true)),
        TokenType::Push(TargetType::Memory) => Ok((s, LOAD_CODE@, true)),
        TokenType::Push(TargetType::Register(r)) => register_step(s, t, r, true),
        TokenType::Pop(TargetType::Memory) => Ok((s, STORE_CODE@, false)),
        TokenType::Pop(TargetType::Register(r)) => register_step(s, t, r, false),
        TokenType::Pop(TargetType::Integer(_)) => Err(fail_at(ErrorKind::PopImmediate, t)),
        TokenType::Function => if s.capture is None {
            Ok((GenState { capture: Some(opened(t, false)), ..s }, Seq::empty(), false))
        } else {
            Ok((s, Seq::empty(), false))
        },
        TokenType::Inline => if s.capture is None {
            Ok((GenState { capture: Some(opened(t, true)), ..s }, Seq::empty(), false))
        } else {
            Ok((s, Seq::empty(), false))
        },
        TokenType::Multiply | TokenType::Divide | TokenType::Mod => Err(
            fail_at(ErrorKind::Unimplemented, t),
        ),
    }
}

/// The state and the entry body after some tokens.
pub struct Pass {
    pub state: GenState,
    pub body: Seq<char>,
}

/// Code goes to the open capture if there is one after the token, else to
/// the entry body.
pub open spec fn absorb(p: Pass, s: GenState, code: Seq<char>, pushes: bool) -> Pass {
    match s.capture {
        Some(c) => Pass {
            state: GenState {
                capture: Some(
                    CaptureView {
                        source: c.source + code,
                        ends_with_push: if code.len() > 0 { pushes } else { c.ends_with_push },
                        ..c
                    },
                ),
                ..s
            },
            body: p.body,
        },
        None => Pass { state: s, body: p.body + code },
    }
}

/// The result of the first `n` tokens of `prog`, from state `s0`.
pub open spec fn pass(s0: GenState, prog: Seq<Token>, n: nat) -> Result<Pass, ErrorView>
    decreases n,
{
    if n == 0 {
        Ok(Pass { state: s0, body: Seq::empty() })
    } else {
        match pass(s0, prog, (n - 1) as nat) {
            Err(e) => Err(e),
            Ok(p) => match step(p.state, prog, n - 1) {
                Err(e) => Err(e),
                Ok(r) => Ok(absorb(p, r.0, r.1, r.2)),
            },
        }
    }
}

/// Label, routine and entry point before the program: the entry point, the
/// routine that prints a number in decimal, then the callable functions.
pub const PRELUDE: &'static str = "global _start\nsection .text\nprint:\n\tsub     rsp, 40\n\tmov     rsi, rdi\n\tmov     r10, -3689348814741910323\n\tmov     BYTE [rsp+19], 10\n\tlea     rcx, [rsp+18]\n\tlea     r8, [rsp+20]\n.L2:\n\tmov     rax, rsi\n\tmov     r9, r8\n\tmul     r10\n\tmov     rax, rsi\n\tsub     r9, rcx\n\tshr     rdx, 3\n\tlea     rdi, [rdx+rdx*4]\n\tadd     rdi, rdi\n\tsub     rax, rdi\n\tadd     eax, 48\n\tmov     BYTE [rcx], al\n\tmov     rax, rsi\n\tmov     rsi, rdx\n\tmov     rdx, rcx\n\tsub     rcx, 1\n\tcmp     rax, 9\n\tja      .L2\n\tsub     rdx, r8\n\tmov     edi, 1\n\txor     eax, eax\n\tlea     rsi, [rsp+20+rdx]\n\tmov     rdx, r9\n\tmov     rax, 1\n\tsyscall\n\tadd     rsp, 40\n\tret\n";

/// The process exit and the start of the scratch memory declaration.
pub const EXIT_CODE: &'static str = "\tmov rax, 60\n\tmov rdi, 0\n\tsyscall\n\tret\nsection .bss\n\tmem resq ";

/// The bodies of the callable functions among the first `n`, each followed by
/// a line break; inline functions have no body of their own.
pub open spec fn function_bodies(fs: Seq<FunctionView>, n: nat) -> Seq<char>
    decreases n,
{
    if n == 0 || n > fs.len() {
        Seq::empty()
    } else if fs[n - 1].inline {
        function_bodies(fs, (n - 1) as nat)
    } else {
        function_bodies(fs, (n - 1) as nat) + fs[n - 1].source + "\n"@
    }
}

/// Everything before the entry body.
pub open spec fn headers_text(fs: Seq<FunctionView>) -> Seq<char> {
    PRELUDE@ + function_bodies(fs, fs.len()) + "_start:\n"@
}

/// Everything after the entry body: exit, and `capacity` zeroed words.
pub open spec fn footers_text(capacity: nat) -> Seq<char> {
    EXIT_CODE@ + dec(capacity) + "\n"@
}

/// The whole output for functions `fs` and entry body `body`.
pub open spec fn program_text(fs: Seq<FunctionView>, body: Seq<char>, capacity: nat) -> Seq<char> {
    headers_text(fs) + body + "\n"@ + footers_text(capacity)
}

/// The translation of `prog` from state `s0`: the program text, or the first
/// failure; a block or a definition still open at the end is a failure too.
pub open spec fn translation(s0: GenState, prog: Seq<Token>, capacity: nat) -> Result<Seq<char>, ErrorView> {
    match pass(s0, prog, prog.len()) {
        Err(e) => Err(e),
        Ok(p) => if p.state.markers.len() > 0 {
            Err(fail_at(ErrorKind::UnclosedBlock, prog[p.state.markers.last().idx as int]))
        } else {
            match p.state.capture {
                Some(c) => Err(ErrorView { kind: ErrorKind::UnclosedFunction, loc: c.loc, subject: Seq::empty() }),
                None => Ok(program_text(p.state.functions, p.body, capacity)),
            }
        },
    }
}

/// Once translation has failed, more tokens give the same failure.
pub proof fn lemma_failure_persists(s0: GenState, prog: Seq<Token>, k: nat, m: nat)
    requires
        pass(s0, prog, k) is Err,
        k <= m,
    ensures
        pass(s0, prog, m) == pass(s0, prog, k),
    decreases m - k,
{
    if k < m {
        lemma_failure_persists(s0, prog, k, (m - 1) as nat);
    }
}

/// A failure at token `i`, after the tokens before it were accepted, is the
/// outcome of the whole translation.
pub proof fn lemma_failure_at(s0: GenState, prog: Seq<Token>, i: int, capacity: nat)
    requires
        0 <= i < prog.len(),
        pass(s0, prog, i as nat) is Ok,
        step(pass(s0, prog, i as nat)->Ok_0.state, prog, i) is Err,
    ensures
        translation(s0, prog, capacity) == Err::<Seq<char>, ErrorView>(
            step(pass(s0, prog, i as nat)->Ok_0.state, prog, i)->Err_0,
        ),
{
    lemma_failure_persists(s0, prog, (i + 1) as nat, prog.len());
}

/// A translation succeeds only with no block and no definition open after the
/// last token. When every token is accepted but a block is still open, it
/// fails at the innermost open block; else, with a definition still open, it
/// fails at that definition. Both are structural errors.
pub proof fn lemma_success_leaves_nothing_open(s0: GenState, prog: Seq<Token>, capacity: nat)
    ensures
        translation(s0, prog, capacity) is Ok ==> {
            &&& pass(s0, prog, prog.len()) is Ok
            &&& pass(s0, prog, prog.len())->Ok_0.state.markers.len() == 0
            &&& pass(s0, prog, prog.len())->Ok_0.state.capture is None
        },
        pass(s0, prog, prog.len()) is Ok && pass(s0, prog, prog.len())->Ok_0.state.markers.len() > 0
            ==> translation(s0, prog, capacity) == Err::<Seq<char>, ErrorView>(
            fail_at(
                ErrorKind::UnclosedBlock,
                prog[pass(s0, prog, prog.len())->Ok_0.state.markers.last().idx as int],
            ),
        ),
        pass(s0, prog, prog.len()) is Ok && pass(s0, prog, prog.len())->Ok_0.state.markers.len() == 0
            && pass(s0, prog, prog.len())->Ok_0.state.capture is Some ==> translation(s0, prog, capacity)
            == Err::<Seq<char>, ErrorView>(
            ErrorView {
                kind: ErrorKind::UnclosedFunction,
                loc: pass(s0, prog, prog.len())->Ok_0.state.capture->Some_0.loc,
                subject: Seq::empty(),
            },
        ),
        translation(s0, prog, capacity) is Err && pass(s0, prog, prog.len()) is Ok ==> translation(
            s0,
            prog,
            capacity,
        )->Err_0.kind.is_structural(),
{
}

/// Whether token `t` is acceptable in state `s`: an `else` needs an open `if`
/// or `else` block; a `do` an open block or a definition header; an `end` an
/// open block or definition; a name must be a stack word, part of a header
/// being read, a declared local or a defined function; registers are 1 to 4;
/// nothing pops into a literal; there is no multiplication, division or remainder.
pub open spec fn acceptable(s: GenState, t: Token) -> bool {
    match t.ttype {
        TokenType::Else => s.markers.len() > 0 && s.markers.last().kind != MarkerKind::While,
        TokenType::Do => s.markers.len() > 0 || (s.capture is Some && s.capture->Some_0.initializing),
        TokenType::End => s.markers.len() > 0 || s.capture is Some,
        TokenType::Identifier(w) => is_shuffle_word(w@) || (s.capture is Some && (s.capture->Some_0.name is None
            || s.capture->Some_0.initializing || local_offset(s.capture->Some_0.locals, w@) is Some))
            || lookup(s.functions, w@) is Some,
        TokenType::Push(TargetType::Register(r)) => 1 <= r <= 4,
        TokenType::Pop(TargetType::Register(r)) => 1 <= r <= 4,
        TokenType::Pop(TargetType::Integer(_)) => false,
        TokenType::Multiply | TokenType::Divide | TokenType::Mod => false,
        _ => true,
    }
}

/// A token fails exactly when it is not acceptable.
pub proof fn lemma_step_ok_iff_acceptable(s: GenState, prog: Seq<Token>, i: int)
    requires
        0 <= i < prog.len(),
    ensures
        step(s, prog, i) is Ok <==> acceptable(s, prog[i]),
{
}

/// A well-formed program from `s0`: every token is acceptable in the state the
/// tokens before it leave, and at the end no block and no definition is open.
pub open spec fn well_formed(s0: GenState, prog: Seq<Token>) -> bool {
    &&& forall|i: int|
        0 <= i < prog.len() && #[trigger] pass(s0, prog, i as nat) is Ok ==> acceptable(
            pass(s0, prog, i as nat)->Ok_0.state,
            prog[i],
        )
    &&& pass(s0, prog, prog.len()) is Ok ==> pass(s0, prog, prog.len())->Ok_0.state.markers.len() == 0
        && pass(s0, prog, prog.len())->Ok_0.state.capture is None
}

proof fn lemma_well_formed_passes(s0: GenState, prog: Seq<Token>, n: nat)
    requires
        well_formed(s0, prog),
        n <= prog.len(),
    ensures
        pass(s0, prog, n) is Ok,
    decreases n,
{
    if n > 0 {
        lemma_well_formed_passes(s0, prog, (n - 1) as nat);
        let p = pass(s0, prog, (n - 1) as nat)->Ok_0;
        lemma_step_ok_iff_acceptable(p.state, prog, n - 1);
    }
}

/// A well-formed program translates: the result is the program text built
/// from the functions and entry body the pass produces.
pub proof fn lemma_well_formed_translates(s0: GenState, prog: Seq<Token>, capacity: nat)
    requires
        well_formed(s0, prog),
    ensures
        translation(s0, prog, capacity) is Ok,
        translation(s0, prog, capacity) == Ok::<Seq<char>, ErrorView>(
            program_text(
                pass(s0, prog, prog.len())->Ok_0.state.functions,
                pass(s0, prog, prog.len())->Ok_0.body,
                capacity,
            ),
        ),
{
    lemma_well_formed_passes(s0, prog, prog.len());
}

/// An `else` with no open `if` or `else` block aborts translation.
pub proof fn lemma_stray_else(s0: GenState, prog: Seq<Token>, i: int, capacity: nat)
    requires
        0 <= i < prog.len(),
        prog[i].ttype is Else,
        pass(s0, prog, i as nat) is Ok,
        pass(s0, prog, i as nat)->Ok_0.state.markers.len() == 0,
    ensures
        translation(s0, prog, capacity) == Err::<Seq<char>, ErrorView>(fail_at(ErrorKind::UnexpectedElse, prog[i])),
{
    lemma_failure_at(s0, prog, i, capacity);
}

/// A `do` with no open block, outside the header of a definition, aborts
/// translation.
pub proof fn lemma_stray_do(s0: GenState, prog: Seq<Token>, i: int, capacity: nat)
    requires
        0 <= i < prog.len(),
        prog[i].ttype is Do,
        pass(s0, prog, i as nat) is Ok,
        pass(s0, prog, i as nat)->Ok_0.state.markers.len() == 0,
        match pass(s0, prog, i as nat)->Ok_0.state.capture {
            Some(c) => !c.initializing,
            None => true,
        },
    ensures
        translation(s0, prog, capacity) == Err::<Seq<char>, ErrorView>(fail_at(ErrorKind::UnexpectedDo, prog[i])),
{
    lemma_failure_at(s0, prog, i, capacity);
}

/// An `end` with no open block and no open definition aborts translation.
pub proof fn lemma_stray_end(s0: GenState, prog: Seq<Token>, i: int, capacity: nat)
    requires
        0 <= i < prog.len(),
        prog[i].ttype is End,
        pass(s0, prog, i as nat) is Ok,
        pass(s0, prog, i as nat)->Ok_0.state.markers.len() == 0,
        pass(s0, prog, i as nat)->Ok_0.state.capture is None,
    ensures
        translation(s0, prog, capacity) == Err::<Seq<char>, ErrorView>(fail_at(ErrorKind::UnexpectedEnd, prog[i])),
{
    lemma_failure_at(s0, prog, i, capacity);
}

/// Outside a definition, a name that is neither a stack word nor a defined
/// function aborts translation, naming it.
pub proof fn lemma_undefined_name(s0: GenState, prog: Seq<Token>, i: int, capacity: nat)
    requires
        0 <= i < prog.len(),
        prog[i].ttype is Identifier,
        !is_shuffle_word(prog[i].ttype->Identifier_0@),
        pass(s0, prog, i as nat) is Ok,
        pass(s0, prog, i as nat)->Ok_0.state.capture is None,
        lookup(pass(s0, prog, i as nat)->Ok_0.state.functions, prog[i].ttype->Identifier_0@) is None,
    ensures
        translation(s0, prog, capacity) == Err::<Seq<char>, ErrorView>(
            ErrorView { kind: ErrorKind::Undefined, loc: prog[i].loc@, subject: prog[i].ttype->Identifier_0@ },
        ),
{
    lemma_failure_at(s0, prog, i, capacity);
}

/// Multiplication, division and remainder always abort translation, at the
/// first of them reached.
pub proof fn lemma_unimplemented_operation(s0: GenState, prog: Seq<Token>, i: int, capacity: nat)
    requires
        0 <= i < prog.len(),
        prog[i].ttype is Multiply || prog[i].ttype is Divide || prog[i].ttype is Mod,
        pass(s0, prog, i as nat) is Ok,
    ensures
        translation(s0, prog, capacity) == Err::<Seq<char>, ErrorView>(fail_at(ErrorKind::Unimplemented, prog[i])),
{
    lemma_failure_at(s0, prog, i, capacity);
}

/// A program holding a multiplication, division or remainder anywhere never
/// translates.
pub proof fn lemma_unimplemented_anywhere(s0: GenState, prog: Seq<Token>, i: int, capacity: nat)
    requires
        0 <= i < prog.len(),
        prog[i].ttype is Multiply || prog[i].ttype is Divide || prog[i].ttype is Mod,
    ensures
        translation(s0, prog, capacity) is Err,
{
    if pass(s0, prog, i as nat) is Ok {
        lemma_unimplemented_operation(s0, prog, i, capacity);
    } else {
        lemma_failure_persists(s0, prog, i as nat, prog.len());
    }
}

/// The message that reports a failure.
pub open spec fn message_text(e: ErrorView) -> Seq<char> {
    "CompilationError: "@ + match e.kind {
        ErrorKind::UnexpectedElse => "unexpected `else`"@,
        ErrorKind::UnexpectedDo => "unexpected `do`"@,
        ErrorKind::UnexpectedEnd => "unexpected end of block"@,
        ErrorKind::UnclosedBlock => "not enclosed block"@,
        ErrorKind::UnclosedFunction => "not enclosed function"@,
        ErrorKind::Undefined => e.subject + " is not defined"@,
        ErrorKind::InvalidRegister => "invalid register index "@ + e.subject,
        ErrorKind::PopImmediate => "cannot pop from immediate integer value"@,
        ErrorKind::Unimplemented => "unimplemented operation"@,
    } + " at "@ + location_text(e.loc)
}

/// Empty, or ending in a line break: code that joins others as whole lines.
pub open spec fn whole_lines(s: Seq<char>) -> bool {
    s.len() == 0 || s.last() == '\n'
}

/// No two functions of the table share a name.
pub open spec fn distinct_functions(fs: Seq<FunctionView>) -> bool {
    forall|i: int, j: int|
        0 <= i < fs.len() && 0 <= j < fs.len() && i != j ==> #[trigger] fs[i].name != #[trigger] fs[j].name
}

/// The generator's state is in order: names in the table and among the
/// locals of an open capture are distinct, and every stored body is whole lines.
pub open spec fn tidy(s: GenState) -> bool {
    &&& distinct_functions(s.functions)
    &&& forall|k: int| 0 <= k < s.functions.len() ==> whole_lines(#[trigger] s.functions[k].source)
    &&& match s.capture {
        Some(c) => whole_lines(c.source) && distinct_locals(c.locals),
        None => true,
    }
}

proof fn lemma_lines_concat(a: Seq<char>, b: Seq<char>)
    requires
        whole_lines(a) || b.len() > 0,
        whole_lines(b),
    ensures
        whole_lines(a + b),
{
    if b.len() == 0 {
        assert(a + b =~= a);
    } else {
        assert((a + b).last() == b.last());
    }
}

/// What `find_function` finds has that name; when it finds none, no function
/// from `i` on has it.
proof fn lemma_find_function(fs: Seq<FunctionView>, name: Seq<char>, i: int)
    requires
        0 <= i,
    ensures
        match find_function(fs, name, i) {
            Some(j) => i <= j < fs.len() && fs[j].name == name,
            None => forall|k: int| i <= k < fs.len() ==> #[trigger] fs[k].name != name,
        },
    decreases fs.len() - i,
{
    if i < fs.len() && fs[i].name != name {
        lemma_find_function(fs, name, i + 1);
    }
}

/// Installing a function keeps names distinct and bodies whole lines.
proof fn lemma_install_tidy(fs: Seq<FunctionView>, f: FunctionView)
    requires
        distinct_functions(fs),
        forall|k: int| 0 <= k < fs.len() ==> whole_lines(#[trigger] fs[k].source),
        whole_lines(f.source),
    ensures
        distinct_functions(install(fs, f)),
        forall|k: int| 0 <= k < install(fs, f).len() ==> whole_lines(#[trigger] install(fs, f)[k].source),
{
    lemma_find_function(fs, f.name, 0);
    let r = install(fs, f);
    assert forall|i: int, j: int| 0 <= i < r.len() && 0 <= j < r.len() && i != j implies #[trigger] r[i].name
        != #[trigger] r[j].name by {
        if i < fs.len() && j < fs.len() {
            assert(r[i].name == fs[i].name && r[j].name == fs[j].name);
        }
    }
}

proof fn lemma_relabel_lines(body: Seq<char>, with: Seq<char>)
    requires
        whole_lines(body),
    ensures
        whole_lines(relabel(body, with)),
{
    if body.len() > 0 {
        assert(relabel(body, with).last() == '\n');
    }
}

/// The fixed code texts are whole lines.
proof fn lemma_fixed_codes()
    ensures
        whole_lines(PLUS_CODE@),
        whole_lines(MINUS_CODE@),
        whole_lines(DOT_CODE@),
        whole_lines(LESS_CODE@),
        whole_lines(GREATER_CODE@),
        whole_lines(EQUAL_CODE@),
        whole_lines(NOT_EQUAL_CODE@),
        whole_lines(DUP_CODE@),
        whole_lines(DROP_CODE@),
        whole_lines(SWAP_CODE@),
        whole_lines(OVER_CODE@),
        whole_lines(ROT_CODE@),
        whole_lines(MEM_CODE@),
        whole_lines(LOAD_CODE@),
        whole_lines(STORE_CODE@),
        ("\n"@).last() == '\n',
        (":\n"@).last() == '\n',
        ("\n\tpush rax\n"@).last() == '\n',
        ("\tpush rax\n"@).last() == '\n',
        ("\tmov rsp, rbp\n\tpop rbp\n\tret\n"@).last() == '\n',
        ("\n"@).len() > 0 && (":\n"@).len() > 0 && ("\n\tpush rax\n"@).len() > 0 && ("\tpush rax\n"@).len() > 0
            && ("\tmov rsp, rbp\n\tpop rbp\n\tret\n"@).len() > 0,
{
    reveal_strlit("\t; Plus\n\tpop  rax\n\tpop  rbx\n\tadd  rax, rbx\n\tpush rax\n");
    reveal_strlit("\t; Minus\n\tpop  rax\n\tpop  rbx\n\tsub  rbx, rax\n\tpush rbx\n");
    reveal_strlit("\t; Dot\n\tpop  rdi\n\tcall print\n");
    reveal_strlit("\t; Less\n\tmov rcx, 0\n\tmov rdx, 1\n\tpop rbx\n\tpop rax\n\tcmp rax, rbx\n\tcmovl rcx, rdx\n\tpush rcx\n");
    reveal_strlit("\t; Greater\n\tmov rcx, 0\n\tmov rdx, 1\n\tpop rbx\n\tpop rax\n\tcmp rax, rbx\n\tcmovg rcx, rdx\n\tpush rcx\n");
    reveal_strlit("\t; Equal\n\tmov rcx, 0\n\tmov rdx, 1\n\tpop rax\n\tpop rbx\n\tcmp rax, rbx\n\tcmove rcx, rdx\n\tpush rcx\n");
    reveal_strlit("\t; NotEqual\n\tmov rcx, 0\n\tmov rdx, 1\n\tpop rax\n\tpop rbx\n\tcmp rax, rbx\n\tcmovne rcx, rdx\n\tpush rcx\n");
    reveal_strlit("\t; DUP\n\tpop rax\n\tpush rax\n\tpush rax\n");
    reveal_strlit("\t; DROP\n\tpop rax\n\txor rax, rax\n");
    reveal_strlit("\t; SWAP\n\tpop rax\n\tpop rbx\n\tpush rax\n\tpush rbx\n");
    reveal_strlit("\t; OVER\n\tpop rax\n\tpop rbx\n\tpush rbx\n\tpush rax\n\tpush rbx\n");
    reveal_strlit("\t; ROT\n\tpop rax\n\tpop rbx\n\tpop rcx\n\tpush rbx\n\tpush rax\n\tpush rcx\n");
    reveal_strlit("\t; MEM\n\tpush mem\n");
    reveal_strlit("\t; Load\n\tpop rax\n\txor rbx, rbx\n\tmov rbx, [rax]\n\tpush rbx\n");
    reveal_strlit("\t; Store\n\tpop rax\n\tpop rbx\n\tmov [rbx], rax\n");
    reveal_strlit("\n");
    reveal_strlit(":\n");
    reveal_strlit("\n\tpush rax\n");
    reveal_strlit("\tpush rax\n");
    reveal_strlit("\tmov rsp, rbp\n\tpop rbp\n\tret\n");
}

/// Each token keeps the state in order and emits whole lines.
pub proof fn lemma_step_tidy(s: GenState, prog: Seq<Token>, i: int)
    requires
        0 <= i < prog.len(),
        tidy(s),
        step(s, prog, i) is Ok,
    ensures
        tidy(step(s, prog, i)->Ok_0.0),
        whole_lines(step(s, prog, i)->Ok_0.1),
{
    lemma_fixed_codes();
    let r = step(s, prog, i)->Ok_0;
    let t = prog[i];
    match t.ttype {
        TokenType::End => {
            if s.markers.len() == 0 {
                let c = s.capture->Some_0;
                let f = completed(c);
                if c.inline {
                    assert(f.source =~= c.source);
                } else {
                    lemma_lines_concat(
                        header_text(name_or_empty(c.name), c.inline) + c.source,
                        footer_text(c.inline, c.ends_with_push),
                    );
                }
                lemma_install_tidy(s.functions, f);
            }
        },
        TokenType::Identifier(w) => {
            if !is_shuffle_word(w@) {
                match s.capture {
                    Some(c) => {
                        if c.name is Some && c.initializing {
                            lemma_set_local_distinct(c.locals, w@, (c.offset + SLOT) as nat);
                        }
                    },
                    None => {},
                }
                lemma_find_function(s.functions, w@, 0);
                match lookup(s.functions, w@) {
                    Some(f) => {
                        if f.inline {
                            let k = find_function(s.functions, w@, 0)->Some_0;
                            assert(whole_lines(s.functions[k].source));
                            let with = "_"@ + dec(i as nat) + mark_text(scoped(s));
                            lemma_relabel_lines(f.source, with);
                            lemma_lines_concat("\t; Inline call "@ + w@ + "\n"@, relabel(f.source, with));
                        }
                    },
                    None => {},
                }
            }
        },
        TokenType::Function | TokenType::Inline => {
            if s.capture is None {
                assert(distinct_locals(Seq::<(Seq<char>, nat)>::empty()));
            }
        },
        _ => {},
    }
}

/// Code taken into the state keeps it in order.
pub proof fn lemma_absorb_tidy(p: Pass, s: GenState, code: Seq<char>, pushes: bool)
    requires
        tidy(s),
        whole_lines(code),
    ensures
        tidy(absorb(p, s, code, pushes).state),
{
    match s.capture {
        Some(c) => lemma_lines_concat(c.source, code),
        None => {},
    }
}

} // verus!
