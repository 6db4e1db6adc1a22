use vstd::prelude::*;

pub mod capture;
pub mod rules;

use crate::compiler::capture::{offsets_within, Capture, BASE_OFFSET, SLOT};
use crate::compiler::rules::{
    completed, fail_at, find_function, footers_text, function_bodies, headers_text,
    identifier_step, initial_state, install, pass, program_text, register_step, register_text,
    step, translation, ErrorKind, ErrorView, FunctionView, GenState, Marker, MarkerKind, Pass,
    DOT_CODE, DROP_CODE, DUP_CODE, EQUAL_CODE, EXIT_CODE, GREATER_CODE, LESS_CODE, LOAD_CODE,
    MEM_CODE, MINUS_CODE, NOT_EQUAL_CODE, OVER_CODE, PLUS_CODE, PRELUDE, ROT_CODE, STORE_CODE,
    SWAP_CODE,
};
use crate::lexer::tokens::{TargetType, Token, TokenType};
use crate::location::Location;
use crate::lexer::chars::chars_of;
use crate::text::{dec, dec_string, push_char, push_dec, push_dec_signed, same_text};

verus! {

/// Words of scratch memory reserved when nothing else is asked for.
pub const DEFAULT_MEM_CAPACITY: usize = 262144;

/// Tokens beyond this count are not accepted: frame offsets must stay in range.
pub const MAX_TOKENS: usize = usize::MAX / 16;

/// A completed function definition: its name, its compiled body, the bytes
/// its locals take, whether a call leaves a value (callable functions only),
/// whether its body ends by pushing, and whether it is spliced inline.
#[derive(Debug)]
pub struct FunctionDef {
    pub name: String,
    pub source: String,
    pub size: usize,
    pub returning: bool,
    pub pushes: bool,
    pub inline: bool,
}

impl View for FunctionDef {
    type V = FunctionView;

    open spec fn view(&self) -> FunctionView {
        FunctionView {
            name: self.name@,
            source: self.source@,
            size: self.size as nat,
            returning: self.returning,
            pushes: self.pushes,
            inline: self.inline,
        }
    }
}

/// Why translation failed, where, and the word concerned if any.
#[derive(Debug)]
pub struct CompileError {
    pub kind: ErrorKind,
    pub loc: Location,
    pub subject: String,
}

impl View for CompileError {
    type V = ErrorView;

    open spec fn view(&self) -> ErrorView {
        ErrorView { kind: self.kind, loc: self.loc@, subject: self.subject@ }
    }
}

impl CompileError {
    /// The message that reports this failure.
    pub fn message(&self) -> (r: String)
        ensures
            r@ == rules::message_text(self@),
    {
        let mut r = String::from_str("CompilationError: ");
        match self.kind {
            ErrorKind::UnexpectedElse => r.append("unexpected `else`"),
            ErrorKind::UnexpectedDo => r.append("unexpected `do`"),
            ErrorKind::UnexpectedEnd => r.append("unexpected end of block"),
            ErrorKind::UnclosedBlock => r.append("not enclosed block"),
            ErrorKind::UnclosedFunction => r.append("not enclosed function"),
            ErrorKind::Undefined => {
                r.append(self.subject.as_str());
                r.append(" is not defined");
            },
            ErrorKind::InvalidRegister => {
                r.append("invalid register index ");
                r.append(self.subject.as_str());
            },
            ErrorKind::PopImmediate => r.append("cannot pop from immediate integer value"),
            ErrorKind::Unimplemented => r.append("unimplemented operation"),
        }
        r.append(" at ");
        let place = self.loc.describe();
        r.append(place.as_str());
        assert(r@ =~= rules::message_text(self@));
        r
    }
}

/// The generator's bookkeeping stays within bounds after `n` tokens: open
/// blocks were opened before, and an open capture has at most one slot per token.
pub open spec fn bounded(s: GenState, n: nat) -> bool {
    &&& forall|k: int| 0 <= k < s.markers.len() ==> #[trigger] s.markers[k].idx < n
    &&& match s.capture {
        Some(c) => c.offset >= BASE_OFFSET && offsets_within(c.locals, c.offset) && c.offset
            <= BASE_OFFSET + SLOT * n,
        None => true,
    }
}

proof fn lemma_set_local_within(locals: Seq<(Seq<char>, nat)>, name: Seq<char>, old_top: nat, top: nat)
    requires
        offsets_within(locals, old_top),
        old_top <= top,
    ensures
        offsets_within(capture::set_local(locals, name, top), top),
{
    capture::lemma_find_local(locals, name, 0);
    let r = capture::set_local(locals, name, top);
    assert forall|k: int| 0 <= k < r.len() implies #[trigger] r[k].1 <= top by {
        match capture::find_local(locals, name, 0) {
            Some(j) => {
                if k != j {
                    assert(locals[k].1 <= old_top);
                }
            },
            None => {
                if k < locals.len() {
                    assert(locals[k].1 <= old_top);
                }
            },
        }
    }
}

/// One more token keeps the generator's bookkeeping within bounds.
proof fn lemma_step_bounded(s: GenState, prog: Seq<Token>, i: int)
    requires
        0 <= i < prog.len(),
        bounded(s, i as nat),
        step(s, prog, i) is Ok,
    ensures
        bounded(step(s, prog, i)->Ok_0.0, (i + 1) as nat),
{
    let t = step(s, prog, i)->Ok_0.0;
    assert forall|k: int| 0 <= k < t.markers.len() implies #[trigger] t.markers[k].idx < i + 1 by {
        if k < s.markers.len() {
            assert(s.markers[k].idx < i);
        }
    }
    match s.capture {
        Some(c) => {
            if t.capture is Some && t.capture->Some_0.offset != c.offset {
                lemma_set_local_within(c.locals, prog[i].ttype->Identifier_0@, c.offset, (c.offset + SLOT) as nat);
            }
        },
        None => {
            if t.capture is Some {
                assert(offsets_within(t.capture->Some_0.locals, t.capture->Some_0.offset));
            }
        },
    }
}

/// Translates `program` with a fresh generator and the default memory size.
pub fn translate(program: &[Token]) -> (r: Result<String, CompileError>)
    requires
        program@.len() <= MAX_TOKENS,
    ensures
        match translation(initial_state(), program@, DEFAULT_MEM_CAPACITY as nat) {
            Ok(text) => r is Ok && r->Ok_0@ == text,
            Err(e) => r is Err && r->Err_0@ == e,
        },
{
    let mut compiler = Compiler::new();
    compiler.translate_tokens(program)
}

/// The single-pass code generator.
pub struct Compiler {
    markers: Vec<Marker>,
    mem_capacity: usize,
    functions: Vec<FunctionDef>,
    capture: Option<Capture>,
}

impl View for Compiler {
    type V = GenState;

    closed spec fn view(&self) -> GenState {
        GenState {
            markers: self.markers@,
            capture: match self.capture {
                Some(c) => Some(c@),
                None => None,
            },
            functions: self.functions@.map_values(|f: FunctionDef| f@),
        }
    }
}

/// The executable result `r` and state `after` are what `expected` says.
pub open spec fn emits(
    r: Result<(String, bool), CompileError>,
    expected: Result<(GenState, Seq<char>, bool), ErrorView>,
    after: GenState,
) -> bool {
    match expected {
        Ok(x) => r is Ok && r->Ok_0.0@ == x.1 && r->Ok_0.1 == x.2 && after == x.0,
        Err(e) => r is Err && r->Err_0@ == e,
    }
}

/// The name of logical register `idx`, for indices 1 to 4.
pub fn get_register(idx: usize) -> (r: Option<&'static str>)
    ensures
        match register_text(idx as nat) {
            Some(t) => r is Some && r->Some_0@ == t,
            None => r is None,
        },
{
    if idx == 1 {
        Some("rax")
    } else if idx == 2 {
        Some("rbx")
    } else if idx == 3 {
        Some("rcx")
    } else if idx == 4 {
        Some("rdx")
    } else {
        None
    }
}

/// Appends the number part of the label of token `i`.
fn push_label(code: &mut String, i: usize, scoped: bool)
    ensures
        final(code)@ == old(code)@ + rules::label(i as nat, scoped),
{
    push_dec(code, i as u64);
    if scoped {
        code.append(rules::LABEL_MARK_TEXT);
    }
    assert(final(code)@ =~= old(code)@ + rules::label(i as nat, scoped));
}

/// `body` with each label mark replaced by `with`.
fn relabel(body: &str, with: &str) -> (r: String)
    ensures
        r@ == rules::relabel(body@, with@),
{
    let cs = chars_of(body);
    let mut r = String::new();
    let mut i: usize = 0;
    assert(cs@.subrange(0, 0) =~= Seq::<char>::empty());
    while i < cs.len()
        invariant
            i <= cs@.len(),
            r@ == rules::relabel(cs@.subrange(0, i as int), with@),
        decreases cs@.len() - i,
    {
        assert(cs@.subrange(0, i + 1).drop_last() =~= cs@.subrange(0, i as int));
        if cs[i] == rules::LABEL_MARK {
            r.append(with);
        } else {
            push_char(&mut r, cs[i]);
        }
        i = i + 1;
    }
    assert(cs@.subrange(0, cs@.len() as int) =~= cs@);
    r
}

fn code_of(text: &str, pushes: bool) -> (r: Result<(String, bool), CompileError>)
    ensures
        r is Ok && r->Ok_0.0@ == text@ && r->Ok_0.1 == pushes,
{
    Ok((String::from_str(text), pushes))
}

fn nothing() -> (r: Result<(String, bool), CompileError>)
    ensures
        r is Ok && r->Ok_0.0@ == Seq::<char>::empty() && r->Ok_0.1 == false,
{
    Ok((String::new(), false))
}

fn error_at(kind: ErrorKind, token: &Token) -> (r: CompileError)
    ensures
        r@ == fail_at(kind, *token),
{
    CompileError { kind, loc: token.loc.clone(), subject: String::new() }
}

impl Compiler {
    /// Words of scratch memory the program reserves.
    pub closed spec fn capacity(&self) -> nat {
        self.mem_capacity as nat
    }

    /// A generator with nothing open, no functions, and the default memory size.
    pub fn new() -> (r: Compiler)
        ensures
            r@ == initial_state(),
            r.capacity() == DEFAULT_MEM_CAPACITY,
    {
        Compiler::with_mem_capacity(DEFAULT_MEM_CAPACITY)
    }

    /// A generator with nothing open, no functions, and `capacity` words of memory.
    pub fn with_mem_capacity(capacity: usize) -> (r: Compiler)
        ensures
            r@ == initial_state(),
            r.capacity() == capacity,
    {
        let r = Compiler { markers: Vec::new(), mem_capacity: capacity, functions: Vec::new(), capture: None };
        assert(r@.markers =~= Seq::empty());
        assert(r@.functions =~= Seq::empty());
        r
    }

    /// The completed functions, in the order they were first defined.
    pub fn functions(&self) -> (r: &Vec<FunctionDef>)
        ensures
            r@.map_values(|f: FunctionDef| f@) == self@.functions,
    {
        &self.functions
    }

    fn scoped(&self) -> (r: bool)
        ensures
            r == rules::scoped(self@),
    {
        match &self.capture {
            Some(c) => c.is_inline(),
            None => false,
        }
    }

    fn find_function(&self, name: &str) -> (r: Option<usize>)
        ensures
            match r {
                Some(i) => i < self@.functions.len() && find_function(self@.functions, name@, 0) == Some(i as int),
                None => find_function(self@.functions, name@, 0) is None,
            },
    {
        let mut i: usize = 0;
        while i < self.functions.len()
            invariant
                i <= self@.functions.len(),
                self@.functions.len() == self.functions@.len(),
                find_function(self@.functions, name@, 0) == find_function(self@.functions, name@, i as int),
            decreases self.functions@.len() - i,
        {
            if same_text(self.functions[i].name.as_str(), name) {
                return Some(i);
            }
            i = i + 1;
        }
        None
    }

    fn install_function(&mut self, f: FunctionDef)
        ensures
            final(self)@ == (GenState { functions: install(old(self)@.functions, f@), ..old(self)@ }),
            final(self).capacity() == old(self).capacity(),
    {
        let ghost fv = f@;
        match self.find_function(f.name.as_str()) {
            Some(i) => {
                self.functions.set(i, f);
            },
            None => {
                self.functions.push(f);
            },
        }
        assert(self@.functions =~= install(old(self)@.functions, fv));
    }

    /// Translates token `idx` of `program`, which is `token`: the code it
    /// emits and whether that code ends by pushing, with the state updated as
    /// the rule for its kind says; or the failure it causes.
    pub fn token_to_asm(&mut self, token: &Token, idx: usize, program: &[Token]) -> (res: Result<(String, bool), CompileError>)
        requires
            idx < program@.len(),
            *token == program@[idx as int],
            bounded(old(self)@, idx as nat),
            rules::tidy(old(self)@),
            idx < MAX_TOKENS,
        ensures
            emits(res, step(old(self)@, program@, idx as int), final(self)@),
            res is Ok ==> rules::whole_lines(res->Ok_0.0@) && rules::tidy(final(self)@),
            res is Err ==> final(self)@ == old(self)@,
            final(self).capacity() == old(self).capacity(),
    {
        proof {
            if step(old(self)@, program@, idx as int) is Ok {
                rules::lemma_step_tidy(old(self)@, program@, idx as int);
            }
        }
        let scoped = self.scoped();
        match &token.ttype {
            TokenType::Plus => code_of(PLUS_CODE, true),
            TokenType::Minus => code_of(MINUS_CODE, true),
            TokenType::Dot => code_of(DOT_CODE, false),
            TokenType::Less => code_of(LESS_CODE, true),
            TokenType::Greater => code_of(GREATER_CODE, true),
            TokenType::Equal => code_of(EQUAL_CODE, true),
            TokenType::NotEqual => code_of(NOT_EQUAL_CODE, true),
            TokenType::If => {
                self.markers.push(Marker { idx, kind: MarkerKind::If });
                let mut code = String::from_str("\t; If\n\tpop rax\n\ttest rax, rax\n\tjz e");
                push_label(&mut code, idx, scoped);
                code.append("\n");
                assert(code@ =~= rules::if_code(idx as nat, scoped));
                Ok((code, false))
            },
            TokenType::Else => {
                if self.markers.len() > 0 {
                    let top = self.markers[self.markers.len() - 1];
                    match top.kind {
                        MarkerKind::While => Err(error_at(ErrorKind::UnexpectedElse, token)),
                        _ => {
                            self.markers.pop();
                            self.markers.push(Marker { idx, kind: MarkerKind::Else });
                            let mut code = String::from_str("\tjmp e");
                            push_label(&mut code, idx, scoped);
                            code.append("\ne");
                            push_label(&mut code, top.idx, scoped);
                            code.append(":\n");
                            assert(code@ =~= rules::else_code(idx as nat, top.idx as nat, scoped));
                            assert(self@.markers =~= old(self)@.markers.drop_last().push(
                                Marker { idx: idx, kind: MarkerKind::Else },
                            ));
                            Ok((code, false))
                        },
                    }
                } else {
                    Err(error_at(ErrorKind::UnexpectedElse, token))
                }
            },
            TokenType::While => {
                self.markers.push(Marker { idx, kind: MarkerKind::While });
                let mut code = String::from_str("\t; While:start of loop condition\nl");
                push_label(&mut code, idx, scoped);
                code.append(":\n");
                assert(code@ =~= rules::while_code(idx as nat, scoped));
                Ok((code, false))
            },
            TokenType::Do => {
                if self.markers.len() > 0 {
                    let top = self.markers[self.markers.len() - 1];
                    let mut code = String::from_str("\t; Do:end of loop condition\n\tpop rax\n\ttest rax, rax\n\tjz e");
                    push_label(&mut code, top.idx, scoped);
                    code.append("\n");
                    assert(code@ =~= rules::do_code(top.idx as nat, scoped));
                    Ok((code, false))
                } else if self.capture.is_some() {
                    let mut c = self.capture.take().unwrap();
                    if c.is_initializing() {
                        c.end_header();
                        self.capture = Some(c);
                        nothing()
                    } else {
                        self.capture = Some(c);
                        Err(error_at(ErrorKind::UnexpectedDo, token))
                    }
                } else {
                    Err(error_at(ErrorKind::UnexpectedDo, token))
                }
            },
            TokenType::End => {
                if self.markers.len() > 0 {
                    let top = self.markers.pop().unwrap();
                    let mut code = String::new();
                    match top.kind {
                        MarkerKind::While => {
                            code.append("\tjmp l");
                            push_label(&mut code, top.idx, scoped);
                            code.append("\ne");
                            push_label(&mut code, top.idx, scoped);
                            code.append(":\n");
                        },
                        _ => {
                            code.append("e");
                            push_label(&mut code, top.idx, scoped);
                            code.append(":\n");
                        },
                    }
                    assert(code@ =~= rules::end_code(top, scoped));
                    assert(self@.markers =~= old(self)@.markers.drop_last());
                    Ok((code, false))
                } else if self.capture.is_some() {
                    let mut c = self.capture.take().unwrap();
                    let source = c.get_source();
                    let def = FunctionDef {
                        name: c.get_name().to_owned(),
                        source,
                        size: c.last_offset(),
                        returning: c.is_returning(),
                        pushes: c.ends_with_push(),
                        inline: c.is_inline(),
                    };
                    assert(def@ == completed(old(self)@.capture->Some_0));
                    self.install_function(def);
                    nothing()
                } else {
                    Err(error_at(ErrorKind::UnexpectedEnd, token))
                }
            },
            TokenType::Identifier(name) => self.identifier_to_asm(token, name.as_str(), idx),
            TokenType::Mem => code_of(MEM_CODE, true),
            TokenType::Push(TargetType::Integer(n)) => {
                let mut code = String::from_str("\t; Push ");
                push_dec_signed(&mut code, *n);
                code.append("\n\tmov  rax, ");
                push_dec_signed(&mut code, *n);
                code.append("\n\tpush rax\n");
                assert(code@ =~= rules::push_int_code(*n as int));
                Ok((code, true))
            },
            TokenType::Push(TargetType::Memory) => code_of(LOAD_CODE, true),
            TokenType::Push(TargetType::Register(r)) => self.register_to_asm(token, *r, true),
            TokenType::Pop(TargetType::Memory) => code_of(STORE_CODE, false),
            TokenType::Pop(TargetType::Register(r)) => self.register_to_asm(token, *r, false),
            TokenType::Pop(TargetType::Integer(_)) => Err(error_at(ErrorKind::PopImmediate, token)),
            TokenType::Function => {
                if self.capture.is_none() {
                    self.capture = Some(Capture::new(token.loc.clone(), false));
                }
                nothing()
            },
            TokenType::Inline => {
                if self.capture.is_none() {
                    self.capture = Some(Capture::new(token.loc.clone(), true));
                }
                nothing()
            },
            TokenType::Multiply | TokenType::Divide | TokenType::Mod => Err(
                error_at(ErrorKind::Unimplemented, token),
            ),
        }
    }

    /// Everything before the entry body: the prelude, the body of each
    /// callable function, and the entry label.
    pub fn headers(&self) -> (r: String)
        ensures
            r@ == headers_text(self@.functions),
    {
        let mut out = String::from_str(PRELUDE);
        let mut i: usize = 0;
        while i < self.functions.len()
            invariant
                i <= self.functions@.len(),
                self@.functions.len() == self.functions@.len(),
                out@ == PRELUDE@ + function_bodies(self@.functions, i as nat),
            decreases self.functions@.len() - i,
        {
            let f = &self.functions[i];
            if !f.inline {
                out.append(f.source.as_str());
                out.append("\n");
            }
            assert(out@ =~= PRELUDE@ + function_bodies(self@.functions, (i + 1) as nat));
            i = i + 1;
        }
        out.append("_start:\n");
        assert(out@ =~= headers_text(self@.functions));
        out
    }

    /// Everything after the entry body: the process exit and the zeroed
    /// scratch memory.
    pub fn footers(&self) -> (r: String)
        ensures
            r@ == footers_text(self.capacity()),
    {
        let mut out = String::from_str(EXIT_CODE);
        push_dec(&mut out, self.mem_capacity as u64);
        out.append("\n");
        assert(out@ =~= footers_text(self.capacity()));
        out
    }

    /// Translates the whole program in one pass: the program text, or the
    /// first failure, a block or definition left open at the end included.
    pub fn translate_tokens(&mut self, program: &[Token]) -> (r: Result<String, CompileError>)
        requires
            bounded(old(self)@, 0),
            rules::tidy(old(self)@),
            program@.len() <= MAX_TOKENS,
        ensures
            match translation(old(self)@, program@, old(self).capacity()) {
                Ok(text) => r is Ok && r->Ok_0@ == text,
                Err(e) => r is Err && r->Err_0@ == e,
            },
            r is Ok ==> final(self)@ == pass(old(self)@, program@, program@.len())->Ok_0.state,
            r is Ok ==> final(self)@.markers.len() == 0 && final(self)@.capture is None,
            r is Ok ==> bounded(final(self)@, 0) && rules::tidy(final(self)@),
            final(self).capacity() == old(self).capacity(),
    {
        let ghost s0 = self@;
        let mut body = String::new();
        let mut idx: usize = 0;
        assert(body@ =~= Seq::empty());
        while idx < program.len()
            invariant
                idx <= program@.len(),
                program@.len() <= MAX_TOKENS,
                s0 == old(self)@,
                pass(s0, program@, idx as nat) is Ok,
                pass(s0, program@, idx as nat)->Ok_0.state == self@,
                pass(s0, program@, idx as nat)->Ok_0.body == body@,
                bounded(self@, idx as nat),
                rules::tidy(self@),
                self.capacity() == old(self).capacity(),
            decreases program@.len() - idx,
        {
            let ghost before = self@;
            let (code, pushes) = match self.token_to_asm(&program[idx], idx, program) {
                Ok(x) => x,
                Err(e) => {
                    proof {
                        assert(pass(s0, program@, (idx + 1) as nat) == Err::<Pass, ErrorView>(e@));
                        rules::lemma_failure_persists(s0, program@, (idx + 1) as nat, program@.len());
                        assert(translation(s0, program@, old(self).capacity()) == Err::<Seq<char>, ErrorView>(e@));
                    }
                    return Err(e);
                },
            };
            proof {
                lemma_step_bounded(before, program@, idx as int);
                rules::lemma_absorb_tidy(
                    pass(s0, program@, idx as nat)->Ok_0,
                    self@,
                    code@,
                    pushes,
                );
            }
            if self.capture.is_some() {
                let mut c = self.capture.take().unwrap();
                c.push_asm(code.as_str(), pushes);
                self.capture = Some(c);
            } else {
                body.append(code.as_str());
            }
            idx = idx + 1;
        }
        if self.markers.len() > 0 {
            let top = self.markers[self.markers.len() - 1];
            return Err(error_at(ErrorKind::UnclosedBlock, &program[top.idx]));
        }
        if self.capture.is_some() {
            let c = self.capture.take().unwrap();
            return Err(CompileError { kind: ErrorKind::UnclosedFunction, loc: c.location().clone(), subject: String::new() });
        }
        let mut out = self.headers();
        out.append(body.as_str());
        out.append("\n");
        let tail = self.footers();
        out.append(tail.as_str());
        assert(out@ =~= program_text(self@.functions, body@, self.capacity()));
        Ok(out)
    }

    fn register_to_asm(&self, token: &Token, r: usize, push: bool) -> (res: Result<(String, bool), CompileError>)
        ensures
            emits(res, register_step(self@, *token, r, push), self@),
    {
        match get_register(r) {
            Some(reg) => {
                let mut code = String::from_str(if push { "\t; Push " } else { "\t; Pop " });
                code.append(reg);
                code.append(if push { "\n\tpush " } else { "\n\tpop " });
                code.append(reg);
                code.append("\n");
                assert(code@ =~= if push { rules::push_reg_code(reg@) } else { rules::pop_reg_code(reg@) });
                Ok((code, push))
            },
            None => Err(CompileError { kind: ErrorKind::InvalidRegister, loc: token.loc.clone(), subject: dec_string(r as u64) }),
        }
    }

    fn identifier_to_asm(&mut self, token: &Token, name: &str, site: usize) -> (res: Result<(String, bool), CompileError>)
        requires
            bounded(old(self)@, site as nat),
            rules::tidy(old(self)@),
            site < MAX_TOKENS,
        ensures
            emits(res, identifier_step(old(self)@, *token, name@, site as nat), final(self)@),
            res is Err ==> final(self)@ == old(self)@,
            final(self).capacity() == old(self).capacity(),
    {
        if same_text(name, "dup") {
            return code_of(DUP_CODE, true);
        }
        if same_text(name, "drop") {
            return code_of(DROP_CODE, false);
        }
        if same_text(name, "swap") {
            return code_of(SWAP_CODE, true);
        }
        if same_text(name, "over") {
            return code_of(OVER_CODE, true);
        }
        if same_text(name, "rot") {
            return code_of(ROT_CODE, true);
        }
        if self.capture.is_some() {
            let mut c = self.capture.take().unwrap();
            if !c.has_name() {
                c.set_name(name);
                self.capture = Some(c);
                return nothing();
            }
            if c.is_initializing() {
                c.add_local_var(name);
                self.capture = Some(c);
                return nothing();
            }
            if c.has_local_var(name) {
                let operand = c.get_local_var(name);
                let mut code = String::from_str("\t; Push ");
                code.append(name);
                code.append("\n\tmov rax, ");
                code.append(operand.as_str());
                code.append("\n\tpush rax\n");
                self.capture = Some(c);
                assert(code@ =~= rules::local_code(name@, capture::local_offset(c@.locals, name@)->0));
                return Ok((code, true));
            }
            self.capture = Some(c);
        }
        match self.find_function(name) {
            Some(i) => {
                let f = &self.functions[i];
                let mut code = String::new();
                if f.inline {
                    code.append("\t; Inline call ");
                    code.append(name);
                    code.append("\n");
                    let mut with = String::from_str("_");
                    push_dec(&mut with, site as u64);
                    if self.scoped() {
                        with.append(rules::LABEL_MARK_TEXT);
                    }
                    assert(with@ =~= "_"@ + dec(site as nat) + rules::mark_text(rules::scoped(self@)));
                    let spliced = relabel(f.source.as_str(), with.as_str());
                    code.append(spliced.as_str());
                    assert(code@ =~= rules::inline_code(name@, f.source@, site as nat, rules::scoped(self@)));
                    return Ok((code, f.pushes));
                } else {
                    code.append("\t; Call ");
                    code.append(name);
                    code.append("\n\tcall ");
                    code.append(name);
                    code.append("\n\tadd rsp, ");
                    push_dec(&mut code, f.size as u64);
                    code.append("\n");
                    if f.returning {
                        code.append("\tpush rax\n");
                    }
                    assert(code@ =~= rules::call_code(name@, f.size as nat, f.returning));
                }
                Ok((code, f.returning))
            },
            None => Err(CompileError { kind: ErrorKind::Undefined, loc: token.loc.clone(), subject: name.to_owned() }),
        }
    }
}

} // verus!
