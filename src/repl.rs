use vstd::prelude::*;

use crate::lexer::tokens::{TargetType, Token, TokenKind, TokenType};

verus! {

/// Words of memory the interactive shell provides.
pub const MEMORY_WORDS: usize = 262144;

/// The values of the interactive shell, last pushed last.
pub struct Stack(Vec<i64>);

impl View for Stack {
    type V = Seq<i64>;

    closed spec fn view(&self) -> Seq<i64> {
        self.0@
    }
}

impl Stack {
    /// An empty stack.
    pub fn new() -> (r: Stack)
        ensures
            r@ == Seq::<i64>::empty(),
    {
        Stack(Vec::new())
    }

    /// Takes the last value pushed, or fails on an empty stack.
    pub fn pop(&mut self) -> (r: Result<i64, EvalError>)
        ensures
            old(self)@.len() == 0 ==> r == Err::<i64, EvalError>(EvalError::EmptyStack) && final(self)@
                == old(self)@,
            old(self)@.len() > 0 ==> r == Ok::<i64, EvalError>(old(self)@.last()) && final(self)@
                == old(self)@.drop_last(),
    {
        match self.0.pop() {
            Some(v) => Ok(v),
            None => Err(EvalError::EmptyStack),
        }
    }

    /// Pushes a value.
    pub fn push(&mut self, v: i64)
        ensures
            final(self)@ == old(self)@.push(v),
    {
        self.0.push(v);
    }
}

/// Why the shell could not evaluate a token.
#[derive(Clone, Copy, PartialEq, Eq, Structural, Debug)]
pub enum EvalError {
    EmptyStack,
    BadAddress,
    Unimplemented,
}

impl EvalError {
    /// The message that reports this failure.
    pub fn message(&self) -> (r: &'static str)
        ensures
            r@ == match *self {
                EvalError::EmptyStack => "StackError: stack is empty"@,
                EvalError::BadAddress => "MemoryError: address out of range"@,
                EvalError::Unimplemented => "UnimplementedError: operation is not implemented"@,
            },
    {
        match self {
            EvalError::EmptyStack => "StackError: stack is empty",
            EvalError::BadAddress => "MemoryError: address out of range",
            EvalError::Unimplemented => "UnimplementedError: operation is not implemented",
        }
    }
}

/// What a token the shell does not support is reported as.
#[derive(Clone, Copy, PartialEq, Eq, Structural, Debug)]
pub enum Unsupported {
    Identifiers,
    ControlFlow,
    Loops,
    Registers,
    PopImmediate,
    Functions,
}

impl Unsupported {
    /// The notice written for this token.
    pub fn message(&self) -> (r: &'static str)
        ensures
            r@ == match *self {
                Unsupported::Identifiers => "identifiers are not supported in the interactive shell"@,
                Unsupported::ControlFlow => "control flow is not supported in the interactive shell"@,
                Unsupported::Loops => "loops are not supported in the interactive shell"@,
                Unsupported::Registers => "registers are not available in the interactive shell"@,
                Unsupported::PopImmediate => "pop to immediate integer value is not allowed"@,
                Unsupported::Functions => "functions are not supported in the interactive shell"@,
            },
    {
        match self {
            Unsupported::Identifiers => "identifiers are not supported in the interactive shell",
            Unsupported::ControlFlow => "control flow is not supported in the interactive shell",
            Unsupported::Loops => "loops are not supported in the interactive shell",
            Unsupported::Registers => "registers are not available in the interactive shell",
            Unsupported::PopImmediate => "pop to immediate integer value is not allowed",
            Unsupported::Functions => "functions are not supported in the interactive shell",
        }
    }
}

/// What evaluating one token asks the shell to write.
#[derive(Clone, Copy, PartialEq, Eq, Structural, Debug)]
pub enum Outcome {
    Silent,
    Print(i64),
    Notice(Unsupported),
}

/// Stack and memory of the shell as plain values.
pub struct Machine {
    pub stack: Seq<i64>,
    pub memory: Seq<i64>,
}

/// Pops `b` then `a` (the one pushed last is the right operand) and pushes `f(a, b)`;
/// an empty stack fails after the values there were taken.
pub open spec fn binary(m: Machine, f: spec_fn(i64, i64) -> i64) -> (Machine, Result<Outcome, EvalError>) {
    if m.stack.len() == 0 {
        (m, Err(EvalError::EmptyStack))
    } else if m.stack.len() == 1 {
        (Machine { stack: Seq::empty(), ..m }, Err(EvalError::EmptyStack))
    } else {
        let b = m.stack.last();
        let a = m.stack.drop_last().last();
        (Machine { stack: m.stack.drop_last().drop_last().push(f(a, b)), ..m }, Ok(Outcome::Silent))
    }
}

/// A truth value as the shell pushes it.
pub open spec fn flag(b: bool) -> i64 {
    if b {
        1
    } else {
        0
    }
}

/// Whether `a` is an address in `memory`.
pub open spec fn in_memory(memory: Seq<i64>, a: i64) -> bool {
    0 <= a < memory.len()
}

/// What the shell does with one token: the machine after it, and what to
/// write, or why it failed.
pub open spec fn eval_step(m: Machine, op: TokenKind) -> (Machine, Result<Outcome, EvalError>) {
    match op {
        TokenKind::Plus => binary(m, |a: i64, b: i64| a.wrapping_add(b)),
        TokenKind::Minus => binary(m, |a: i64, b: i64| a.wrapping_sub(b)),
        TokenKind::Less => binary(m, |a: i64, b: i64| flag(a < b)),
        TokenKind::Greater => binary(m, |a: i64, b: i64| flag(a > b)),
        TokenKind::Equal => binary(m, |a: i64, b: i64| flag(a == b)),
        TokenKind::NotEqual => binary(m, |a: i64, b: i64| flag(a != b)),
        TokenKind::Dot => if m.stack.len() == 0 {
            (m, Err(EvalError::EmptyStack))
        } else {
            (Machine { stack: m.stack.drop_last(), ..m }, Ok(Outcome::Print(m.stack.last())))
        },
        TokenKind::Identifier(_) => (m, Ok(Outcome::Notice(Unsupported::Identifiers))),
        TokenKind::If | TokenKind::Else | TokenKind::End => (m, Ok(Outcome::Notice(Unsupported::ControlFlow))),
        TokenKind::While | TokenKind::Do => (m, Ok(Outcome::Notice(Unsupported::Loops))),
        TokenKind::Function | TokenKind::Inline => (m, Ok(Outcome::Notice(Unsupported::Functions))),
        TokenKind::Mem => (Machine { stack: m.stack.push(0), ..m }, Ok(Outcome::Silent)),
        TokenKind::Push(TargetType::Integer(v)) => (Machine { stack: m.stack.push(v), ..m }, Ok(Outcome::Silent)),
        TokenKind::Push(TargetType::Register(_)) => (m, Ok(Outcome::Notice(Unsupported::Registers))),
        TokenKind::Push(TargetType::Memory) => if m.stack.len() == 0 {
            (m, Err(EvalError::EmptyStack))
        } else if !in_memory(m.memory, m.stack.last()) {
            (Machine { stack: m.stack.drop_last(), ..m }, Err(EvalError::BadAddress))
        } else {
            (
                Machine { stack: m.stack.drop_last().push(m.memory[m.stack.last() as int]), ..m },
                Ok(Outcome::Silent),
            )
        },
        TokenKind::Pop(TargetType::Integer(_)) => (m, Ok(Outcome::Notice(Unsupported::PopImmediate))),
        TokenKind::Pop(TargetType::Register(_)) => (m, Ok(Outcome::Notice(Unsupported::Registers))),
        TokenKind::Pop(TargetType::Memory) => if m.stack.len() < 2 {
            (Machine { stack: Seq::empty(), ..m }, Err(EvalError::EmptyStack))
        } else {
            let v = m.stack.last();
            let a = m.stack.drop_last().last();
            if !in_memory(m.memory, a) {
                (Machine { stack: m.stack.drop_last().drop_last(), ..m }, Err(EvalError::BadAddress))
            } else {
                (
                    Machine { stack: m.stack.drop_last().drop_last(), memory: m.memory.update(a as int, v) },
                    Ok(Outcome::Silent),
                )
            }
        },
        TokenKind::Multiply | TokenKind::Divide | TokenKind::Mod => (m, Err(EvalError::Unimplemented)),
    }
}

/// The interactive shell's evaluator: a stack of values and a fixed memory.
pub struct Repl {
    stack: Stack,
    prompt: String,
    memory: Vec<i64>,
}

impl View for Repl {
    type V = Machine;

    closed spec fn view(&self) -> Machine {
        Machine { stack: self.stack@, memory: self.memory@ }
    }
}

impl Repl {
    /// The prompt as plain text.
    pub closed spec fn prompt_text(&self) -> Seq<char> {
        self.prompt@
    }

    /// A shell with an empty stack, zeroed memory, and the given prompt.
    pub fn new(prompt: &str) -> (r: Repl)
        ensures
            r@.stack == Seq::<i64>::empty(),
            r@.memory == Seq::new(MEMORY_WORDS as nat, |i: int| 0i64),
            r.prompt_text() == prompt@,
    {
        let mut memory: Vec<i64> = Vec::new();
        let mut i: usize = 0;
        while i < MEMORY_WORDS
            invariant
                i <= MEMORY_WORDS,
                memory@ == Seq::new(i as nat, |k: int| 0i64),
            decreases MEMORY_WORDS - i,
        {
            memory.push(0);
            i = i + 1;
            assert(memory@ =~= Seq::new(i as nat, |k: int| 0i64));
        }
        Repl { stack: Stack::new(), prompt: prompt.to_owned(), memory }
    }

    /// The prompt shown before each line.
    pub fn prompt(&self) -> (r: &String)
        ensures
            r@ == self.prompt_text(),
    {
        &self.prompt
    }

    fn binary(&mut self, f: u8) -> (r: Result<Outcome, EvalError>)
        requires
            f < 6,
        ensures
            (final(self)@, r) == binary(
                old(self)@,
                if f == 0 {
                    |a: i64, b: i64| a.wrapping_add(b)
                } else if f == 1 {
                    |a: i64, b: i64| a.wrapping_sub(b)
                } else if f == 2 {
                    |a: i64, b: i64| flag(a < b)
                } else if f == 3 {
                    |a: i64, b: i64| flag(a > b)
                } else if f == 4 {
                    |a: i64, b: i64| flag(a == b)
                } else {
                    |a: i64, b: i64| flag(a != b)
                },
            ),
            final(self).prompt_text() == old(self).prompt_text(),
    {
        let b = match self.stack.pop() {
            Ok(v) => v,
            Err(e) => return Err(e),
        };
        let a = match self.stack.pop() {
            Ok(v) => v,
            Err(e) => {
                assert(self@.stack =~= Seq::<i64>::empty());
                return Err(e);
            },
        };
        let v = if f == 0 {
            a.wrapping_add(b)
        } else if f == 1 {
            a.wrapping_sub(b)
        } else if f == 2 {
            if a < b { 1 } else { 0 }
        } else if f == 3 {
            if a > b { 1 } else { 0 }
        } else if f == 4 {
            if a == b { 1 } else { 0 }
        } else {
            if a != b { 1 } else { 0 }
        };
        self.stack.push(v);
        Ok(Outcome::Silent)
    }

    /// Evaluates one token against the stack and memory, as `eval_step` says.
    pub fn eval(&mut self, op: Token) -> (r: Result<Outcome, EvalError>)
        ensures
            (final(self)@, r) == eval_step(old(self)@, op.ttype@),
            final(self).prompt_text() == old(self).prompt_text(),
    {
        match op.ttype {
            TokenType::Plus => self.binary(0),
            TokenType::Minus => self.binary(1),
            TokenType::Less => self.binary(2),
            TokenType::Greater => self.binary(3),
            TokenType::Equal => self.binary(4),
            TokenType::NotEqual => self.binary(5),
            TokenType::Dot => match self.stack.pop() {
                Ok(v) => Ok(Outcome::Print(v)),
                Err(e) => Err(e),
            },
            TokenType::Identifier(_) => Ok(Outcome::Notice(Unsupported::Identifiers)),
            TokenType::If | TokenType::Else | TokenType::End => Ok(Outcome::Notice(Unsupported::ControlFlow)),
            TokenType::While | TokenType::Do => Ok(Outcome::Notice(Unsupported::Loops)),
            TokenType::Function | TokenType::Inline => Ok(Outcome::Notice(Unsupported::Functions)),
            TokenType::Mem => {
                self.stack.push(0);
                Ok(Outcome::Silent)
            },
            TokenType::Push(TargetType::Integer(v)) => {
                self.stack.push(v);
                Ok(Outcome::Silent)
            },
            TokenType::Push(TargetType::Register(_)) => Ok(Outcome::Notice(Unsupported::Registers)),
            TokenType::Push(TargetType::Memory) => {
                let a = match self.stack.pop() {
                    Ok(v) => v,
                    Err(e) => return Err(e),
                };
                if a < 0 || a as u64 >= self.memory.len() as u64 {
                    return Err(EvalError::BadAddress);
                }
                let v = self.memory[a as usize];
                self.stack.push(v);
                Ok(Outcome::Silent)
            },
            TokenType::Pop(TargetType::Integer(_)) => Ok(Outcome::Notice(Unsupported::PopImmediate)),
            TokenType::Pop(TargetType::Register(_)) => Ok(Outcome::Notice(Unsupported::Registers)),
            TokenType::Pop(TargetType::Memory) => {
                let v = match self.stack.pop() {
                    Ok(v) => v,
                    Err(e) => {
                        assert(self@.stack =~= Seq::<i64>::empty());
                        return Err(e);
                    },
                };
                let a = match self.stack.pop() {
                    Ok(v) => v,
                    Err(e) => {
                        assert(self@.stack =~= Seq::<i64>::empty());
                        return Err(e);
                    },
                };
                if a < 0 || a as u64 >= self.memory.len() as u64 {
                    return Err(EvalError::BadAddress);
                }
                self.memory.set(a as usize, v);
                Ok(Outcome::Silent)
            },
            TokenType::Multiply | TokenType::Divide | TokenType::Mod => Err(EvalError::Unimplemented),
        }
    }
}

} // verus!
