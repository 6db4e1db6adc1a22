use vstd::prelude::*;

pub mod chars;
pub mod errors;
pub mod tokens;

use crate::lexer::chars::{byte_len, chars_of, count_bytes, is_whitespace, lemma_byte_len, white_space};
use crate::lexer::errors::{LexErrorView, LexingError, LocatedError};
use crate::lexer::tokens::{tokenize_word, word_kind, Token, TokenKind};
use crate::location::{Location, LocationView};
use crate::text::text_of;

verus! {

/// A reading position: index of the next character, its offset in bytes,
/// and its row and column (the column counted in bytes).
pub struct Cursor {
    pub pos: nat,
    pub idx: nat,
    pub row: nat,
    pub col: nat,
}

/// Length of the longest run from `p` of characters whose being white space is `ws`.
pub open spec fn run(data: Seq<char>, p: int, ws: bool) -> nat
    decreases data.len() - p,
{
    if 0 <= p < data.len() && white_space(data[p]) == ws {
        1 + run(data, p + 1, ws)
    } else {
        0
    }
}

/// Line breaks among `data[a..b]`.
pub open spec fn newlines(data: Seq<char>, a: int, b: int) -> nat
    decreases b - a,
{
    if b <= a {
        0
    } else {
        newlines(data, a, b - 1) + if data[b - 1] == '\n' { 1nat } else { 0nat }
    }
}

/// Whether `pat` stands in `data` at `q`.
pub open spec fn starts_at(data: Seq<char>, q: int, pat: Seq<char>) -> bool {
    0 <= q && q + pat.len() <= data.len() && data.subrange(q, q + pat.len()) == pat
}

/// The first position from `q` at which `close` stands, or the end.
pub open spec fn comment_stop(data: Seq<char>, close: Seq<char>, q: int) -> int
    decreases data.len() - q,
{
    if q >= data.len() || starts_at(data, q, close) {
        q
    } else {
        comment_stop(data, close, q + 1)
    }
}

/// The comment that starts at `p`, if any: the characters it takes and the
/// line breaks among them. A `//` comment runs through the next line break,
/// a `/*` comment through the next `*/` that starts after its first character;
/// either runs to the end when nothing closes it.
pub open spec fn comment_at(data: Seq<char>, p: int) -> (nat, nat) {
    let close = if starts_at(data, p, seq!['/', '/']) {
        seq!['\n']
    } else {
        seq!['*', '/']
    };
    if starts_at(data, p, seq!['/', '/']) || starts_at(data, p, seq!['/', '*']) {
        let stop = comment_stop(data, close, p + 1);
        if stop < data.len() {
            ((stop + close.len() - p) as nat, newlines(data, p + 1, stop + 1))
        } else {
            ((data.len() - p) as nat, newlines(data, p + 1, data.len() as int))
        }
    } else {
        (0, 0)
    }
}

/// Moving over `len` characters of `data` holding `nl` line breaks: offset
/// and column grow by their bytes, or the column goes back to 1 on a later
/// row when there are line breaks.
pub open spec fn jump(data: Seq<char>, c: Cursor, len: nat, nl: nat) -> Cursor {
    let bytes = byte_len(data, c.pos as int, (c.pos + len) as int);
    if nl == 0 {
        Cursor { pos: c.pos + len, idx: c.idx + bytes, row: c.row, col: c.col + bytes }
    } else {
        Cursor { pos: c.pos + len, idx: c.idx + bytes, row: c.row + nl, col: 1 }
    }
}

/// Where reading resumes after the comments and white space at `c`.
pub open spec fn skip_from(data: Seq<char>, c: Cursor) -> Cursor
    decreases data.len() - c.pos,
{
    if c.pos >= data.len() {
        c
    } else {
        let com = comment_at(data, c.pos as int);
        let c1 = jump(data, c, com.0, com.1);
        let w = run(data, c1.pos as int, true);
        let c2 = jump(data, c1, w, newlines(data, c1.pos as int, (c1.pos + w) as int));
        if com.0 + w == 0 || c2.pos > data.len() {
            c2
        } else {
            skip_from(data, c2)
        }
    }
}

/// The location a cursor stands for in file `file`.
pub open spec fn at(c: Cursor, file: Seq<char>) -> LocationView {
    LocationView { col: c.col, row: c.row, idx: c.idx, file }
}

/// One step of reading from `c`: the cursor after it, and the token read with
/// where it starts, nothing at the end of the text, or a failure and where.
pub open spec fn lex_next(data: Seq<char>, c: Cursor) -> (Cursor, Result<Option<(TokenKind, Cursor)>, (Cursor, LexErrorView)>) {
    let s = skip_from(data, c);
    if s.pos >= data.len() {
        (s, Ok(None))
    } else {
        let n = run(data, s.pos as int, false);
        if n == 0 {
            (s, Err((s, LexErrorView::UnexpectedEOF)))
        } else {
            match word_kind(data.subrange(s.pos as int, (s.pos + n) as int)) {
                Ok(k) => {
                    let bytes = byte_len(data, s.pos as int, (s.pos + n) as int);
                    (Cursor { pos: s.pos + n, idx: s.idx + bytes, row: s.row, col: s.col + bytes }, Ok(Some((k, s))))
                },
                Err(e) => (s, Err((s, e))),
            }
        }
    }
}

/// All tokens from `c` to the end, each with where it starts, or the first failure.
pub open spec fn lex_all(data: Seq<char>, c: Cursor) -> Result<Seq<(TokenKind, Cursor)>, (Cursor, LexErrorView)>
    decreases data.len() - c.pos,
{
    let (after, r) = lex_next(data, c);
    match r {
        Err(e) => Err(e),
        Ok(None) => Ok(Seq::empty()),
        Ok(Some(t)) => if after.pos <= c.pos || after.pos > data.len() {
            Ok(Seq::empty())
        } else {
            match lex_all(data, after) {
                Ok(rest) => Ok(seq![t] + rest),
                Err(e) => Err(e),
            }
        },
    }
}

proof fn lemma_skip_advances(data: Seq<char>, c: Cursor)
    ensures
        skip_from(data, c).pos >= c.pos,
    decreases data.len() - c.pos,
{
    if c.pos < data.len() {
        let com = comment_at(data, c.pos as int);
        let c1 = jump(data, c, com.0, com.1);
        let w = run(data, c1.pos as int, true);
        let c2 = jump(data, c1, w, newlines(data, c1.pos as int, (c1.pos + w) as int));
        if !(com.0 + w == 0 || c2.pos > data.len()) {
            lemma_skip_advances(data, c2);
        }
    }
}

proof fn lemma_run_exact(data: Seq<char>, p: int, n: int, ws: bool)
    requires
        0 <= p,
        0 <= n,
        p + n <= data.len(),
        forall|k: int| p <= k < p + n ==> white_space(#[trigger] data[k]) == ws,
        p + n == data.len() || white_space(data[p + n]) != ws,
    ensures
        run(data, p, ws) == n,
    decreases n,
{
    if n > 0 {
        lemma_run_exact(data, p + 1, n - 1, ws);
    }
}

proof fn lemma_newlines_bound(data: Seq<char>, a: int, b: int)
    ensures
        newlines(data, a, b) <= if b <= a { 0 } else { b - a },
    decreases b - a,
{
    if b > a {
        lemma_newlines_bound(data, a, b - 1);
    }
}

/// Counts the line breaks among `data[a..b]`.
fn count_newlines(data: &[char], a: usize, b: usize) -> (r: usize)
    requires
        a <= b <= data@.len(),
    ensures
        r == newlines(data@, a as int, b as int),
{
    let mut i: usize = a;
    let mut r: usize = 0;
    while i < b
        invariant
            a <= i <= b,
            b <= data@.len(),
            r == newlines(data@, a as int, i as int),
        decreases b - i,
    {
        proof {
            lemma_newlines_bound(data@, a as int, i as int);
        }
        if data[i] == '\n' {
            r = r + 1;
        }
        i = i + 1;
    }
    r
}

/// The longest prefix of `data[from..]` whose characters all meet
/// `condition`: its length, or `NoMatch` when it is empty.
pub fn fetch_while<F: Fn(char) -> bool>(data: &[char], from: usize, condition: F) -> (r: Result<usize, LexingError>)
    requires
        from <= data@.len(),
        forall|c: char| #[trigger] condition.requires((c,)),
    ensures
        match r {
            Ok(n) => {
                &&& n > 0
                &&& from + n <= data@.len()
                &&& forall|k: int| from <= k < from + n ==> condition.ensures((#[trigger] data@[k],), true)
                &&& from + n < data@.len() ==> condition.ensures((data@[from + n],), false)
            },
            Err(e) => e@ == LexErrorView::NoMatch && (from == data@.len() || condition.ensures(
                (data@[from as int],),
                false,
            )),
        },
{
    let mut i: usize = from;
    let mut going = true;
    while going && i < data.len()
        invariant
            from <= i <= data@.len(),
            forall|c: char| #[trigger] condition.requires((c,)),
            forall|k: int| from <= k < i ==> condition.ensures((#[trigger] data@[k],), true),
            !going ==> i < data@.len() && condition.ensures((data@[i as int],), false),
        decreases data@.len() - i + if going { 1int } else { 0int },
    {
        if condition(data[i]) {
            i = i + 1;
        } else {
            going = false;
        }
    }
    if i == from {
        Err(LexingError::NoMatch)
    } else {
        Ok(i - from)
    }
}

/// The white space at `p`: the characters it takes and the line breaks among them.
pub fn skip_whitespace(data: &[char], p: usize) -> (r: (usize, usize))
    requires
        p <= data@.len(),
    ensures
        r.0 == run(data@, p as int, true),
        r.1 == newlines(data@, p as int, p + r.0),
        p + r.0 <= data@.len(),
{
    // Reading the length tells the verifier it fits in a `usize`.
    let _len = data.len();
    let found = fetch_while(data, p, |c: char| -> (b: bool) ensures b == white_space(c) { is_whitespace(c) });
    let n: usize = match found {
        Ok(n) => n,
        Err(_) => 0,
    };
    proof {
        lemma_run_exact(data@, p as int, n as int, true);
    }
    (n, count_newlines(data, p, p + n))
}

/// The text that closes a line comment, or a block comment.
pub open spec fn closing(line: bool) -> Seq<char> {
    if line {
        seq!['\n']
    } else {
        seq!['*', '/']
    }
}

fn closes_at(data: &[char], q: usize, line: bool) -> (r: bool)
    requires
        q < data@.len(),
    ensures
        r == starts_at(data@, q as int, closing(line)),
{
    let len = data.len();
    let r = if line {
        data[q] == '\n'
    } else {
        len - q >= 2 && data[q] == '*' && data[q + 1] == '/'
    };
    proof {
        let pat = closing(line);
        if q + pat.len() <= len {
            if r {
                assert(data@.subrange(q as int, q + pat.len()) =~= pat);
            } else {
                assert(data@.subrange(q as int, q + pat.len())[0] != pat[0] || data@.subrange(
                    q as int,
                    q + pat.len(),
                )[1] != pat[1]);
            }
        }
    }
    r
}

/// The comment at `p`, if any: the characters it takes and the line breaks
/// among them, as `comment_at` says.
pub fn skip_comments(data: &[char], p: usize) -> (r: (usize, usize))
    requires
        p <= data@.len(),
    ensures
        r.0 == comment_at(data@, p as int).0,
        r.1 == comment_at(data@, p as int).1,
        p + r.0 <= data@.len(),
        r.1 <= r.0,
{
    let len = data.len();
    let line = len - p >= 2 && data[p] == '/' && data[p + 1] == '/';
    let block = len - p >= 2 && data[p] == '/' && data[p + 1] == '*';
    proof {
        if len - p >= 2 {
            let w = data@.subrange(p as int, p + 2);
            assert(w[0] == data@[p as int] && w[1] == data@[p + 1]);
            if line {
                assert(w =~= seq!['/', '/']);
            }
            if block {
                assert(w =~= seq!['/', '*']);
            }
            if seq!['/', '/'] == w {
                assert(seq!['/', '/'][1] == w[1]);
            }
            if seq!['/', '*'] == w {
                assert(seq!['/', '*'][1] == w[1]);
            }
        }
    }
    assert(line == starts_at(data@, p as int, seq!['/', '/']));
    assert(block == starts_at(data@, p as int, seq!['/', '*']));
    if !line && !block {
        return (0, 0);
    }
    let ghost close = closing(line);
    let mut q: usize = p + 1;
    while q < len && !closes_at(data, q, line)
        invariant
            p + 1 <= q <= len,
            len == data@.len(),
            close == closing(line),
            comment_stop(data@, close, p + 1) == comment_stop(data@, close, q as int),
        decreases len - q,
    {
        assert(!starts_at(data@, q as int, close));
        q = q + 1;
    }
    proof {
        if q < len {
            assert(starts_at(data@, q as int, close));
        }
        lemma_newlines_bound(data@, p + 1, q + 1);
        lemma_newlines_bound(data@, p + 1, len as int);
    }
    if q < len {
        let close_len: usize = if line { 1 } else { 2 };
        (q + close_len - p, count_newlines(data, p + 1, q + 1))
    } else {
        (len - p, count_newlines(data, p + 1, len))
    }
}

/// Reads tokens from a text.
pub struct Lexer {
    loc: Location,
    pos: usize,
    chars: Vec<char>,
}

impl Lexer {
    /// The text being read.
    pub closed spec fn data(&self) -> Seq<char> {
        self.chars@
    }

    /// Where reading stands.
    pub closed spec fn cursor(&self) -> Cursor {
        Cursor {
            pos: self.pos as nat,
            idx: self.loc.idx as nat,
            row: self.loc.row as nat,
            col: self.loc.col as nat,
        }
    }

    /// The name of the file being read.
    pub closed spec fn file(&self) -> Seq<char> {
        self.loc.file@
    }

    pub closed spec fn wf(&self) -> bool {
        &&& 4 * self.chars@.len() < usize::MAX
        &&& self.pos <= self.chars@.len()
        &&& self.loc.idx == byte_len(self.chars@, 0, self.pos as int)
        &&& self.loc.col <= self.loc.idx + 1
        &&& self.loc.row <= self.loc.idx + 1
    }

    /// A lexer at the start of `src`, which comes from the file named `file`.
    pub fn new(src: &str, file: &str) -> (r: Lexer)
        requires
            4 * src@.len() < usize::MAX,
        ensures
            r.wf(),
            r.data() == src@,
            r.cursor() == (Cursor { pos: 0, idx: 0, row: 1, col: 1 }),
            r.file() == file@,
    {
        Lexer { chars: chars_of(src), pos: 0, loc: Location::start(file) }
    }

    fn jump(&mut self, len: usize, newlines: usize)
        requires
            old(self).wf(),
            old(self).pos + len <= old(self).chars@.len(),
            newlines <= len,
        ensures
            final(self).wf(),
            final(self).cursor() == jump(old(self).data(), old(self).cursor(), len as nat, newlines as nat),
            final(self).data() == old(self).data(),
            final(self).file() == old(self).file(),
    {
        let bytes = count_bytes(self.chars.as_slice(), self.pos, self.pos + len);
        proof {
            lemma_byte_len(self.chars@, 0, self.pos as int, self.pos + len);
            lemma_byte_len(self.chars@, 0, self.pos + len, self.chars@.len() as int);
            chars::lemma_byte_len_bounds(self.chars@, self.pos as int, self.pos + len);
        }
        self.pos = self.pos + len;
        self.loc.idx = self.loc.idx + bytes;
        if newlines == 0 {
            self.loc.col = self.loc.col + bytes;
        } else {
            self.loc.col = 1;
            self.loc.row = self.loc.row + newlines;
        }
    }

    /// Moves over the comments and white space ahead.
    pub fn skip(&mut self)
        requires
            old(self).wf(),
        ensures
            final(self).wf(),
            final(self).cursor() == skip_from(old(self).data(), old(self).cursor()),
            final(self).data() == old(self).data(),
            final(self).file() == old(self).file(),
    {
        loop
            invariant
                self.wf(),
                self.data() == old(self).data(),
                self.file() == old(self).file(),
                skip_from(self.data(), self.cursor()) == skip_from(old(self).data(), old(self).cursor()),
            ensures
                self.wf(),
                self.data() == old(self).data(),
                self.file() == old(self).file(),
                self.cursor() == skip_from(old(self).data(), old(self).cursor()),
            decreases self.chars@.len() - self.pos,
        {
            let ghost before = self.cursor();
            let (comments, lines) = skip_comments(self.chars.as_slice(), self.pos);
            self.jump(comments, lines);
            let (spaces, lines) = skip_whitespace(self.chars.as_slice(), self.pos);
            proof {
                lemma_newlines_bound(self.chars@, self.pos as int, self.pos + spaces);
            }
            self.jump(spaces, lines);
            if comments + spaces == 0 {
                assert(self.cursor() == before);
                assert(skip_from(self.data(), before) == before);
                break;
            }
            assert(skip_from(self.data(), before) == skip_from(self.data(), self.cursor()));
        }
    }

    /// The next token, `None` at the end of the text, or a failure and where.
    pub fn next_token(&mut self) -> (r: Result<Option<Token>, LocatedError>)
        requires
            old(self).wf(),
        ensures
            final(self).wf(),
            final(self).data() == old(self).data(),
            final(self).file() == old(self).file(),
            ({
                let (after, expected) = lex_next(old(self).data(), old(self).cursor());
                match expected {
                    Ok(None) => r is Ok && r->Ok_0 is None && final(self).cursor() == after,
                    Ok(Some((k, start))) => r is Ok && r->Ok_0 is Some && r->Ok_0->Some_0.ttype@ == k
                        && r->Ok_0->Some_0.loc@ == at(start, old(self).file()) && final(self).cursor() == after,
                    Err((where_, e)) => r is Err && r->Err_0.error@ == e && r->Err_0.loc@ == at(where_, old(self).file()),
                }
            }),
    {
        self.skip();
        let len = self.chars.len();
        if self.pos >= len {
            return Ok(None);
        }
        let start = self.pos;
        let found = fetch_while(self.chars.as_slice(), start, |c: char| -> (b: bool) ensures b == !white_space(c) { !is_whitespace(c) });
        let n: usize = match found {
            Ok(n) => n,
            Err(_) => {
                proof {
                    lemma_run_exact(self.chars@, start as int, 0, false);
                }
                return Err(LocatedError::new(self.loc.clone(), LexingError::UnexpectedEOF));
            },
        };
        proof {
            lemma_run_exact(self.chars@, start as int, n as int, false);
        }
        let word = text_of(self.chars.as_slice(), start, start + n);
        let ttype = match tokenize_word(word.as_str()) {
            Ok(r) => r.0,
            Err(e) => return Err(LocatedError::new(self.loc.clone(), e)),
        };
        let result = Some(Token { ttype, loc: self.loc.clone() });
        let bytes = count_bytes(self.chars.as_slice(), start, start + n);
        proof {
            lemma_byte_len(self.chars@, 0, start as int, start + n);
            lemma_byte_len(self.chars@, 0, start + n, self.chars@.len() as int);
        }
        self.pos = start + n;
        self.loc.idx = self.loc.idx + bytes;
        self.loc.col = self.loc.col + bytes;
        Ok(result)
    }
}

/// Every token of `src`, read from the file named `file`, or the first failure.
pub fn tokenize(src: &str, file: &str) -> (r: Result<Vec<Token>, LocatedError>)
    requires
        4 * src@.len() < usize::MAX,
    ensures
        match lex_all(src@, Cursor { pos: 0, idx: 0, row: 1, col: 1 }) {
            Ok(ts) => r is Ok && r->Ok_0@.len() == ts.len() && forall|k: int|
                0 <= k < ts.len() ==> (#[trigger] r->Ok_0@[k]).ttype@ == ts[k].0 && r->Ok_0@[k].loc@
                    == at(ts[k].1, file@),
            Err((where_, e)) => r is Err && r->Err_0.error@ == e && r->Err_0.loc@ == at(where_, file@),
        },
{
    let mut lexer = Lexer::new(src, file);
    let mut program: Vec<Token> = Vec::new();
    let ghost start = lexer.cursor();
    let ghost mut done: Seq<(TokenKind, Cursor)> = Seq::empty();
    loop
        invariant
            lexer.wf(),
            lexer.data() == src@,
            lexer.file() == file@,
            start == (Cursor { pos: 0, idx: 0, row: 1, col: 1 }),
            program@.len() == done.len(),
            forall|k: int|
                0 <= k < done.len() ==> (#[trigger] program@[k]).ttype@ == done[k].0 && program@[k].loc@
                    == at(done[k].1, file@),
            lex_all(src@, start) == match lex_all(src@, lexer.cursor()) {
                Ok(rest) => Ok(done + rest),
                Err(e) => Err::<Seq<(TokenKind, Cursor)>, (Cursor, LexErrorView)>(e),
            },
        ensures
            program@.len() == done.len(),
            forall|k: int|
                0 <= k < done.len() ==> (#[trigger] program@[k]).ttype@ == done[k].0 && program@[k].loc@
                    == at(done[k].1, file@),
            lex_all(src@, start) == Ok::<Seq<(TokenKind, Cursor)>, (Cursor, LexErrorView)>(done),
        decreases lexer.data().len() - lexer.cursor().pos,
    {
        let ghost before = lexer.cursor();
        proof {
            lemma_skip_advances(src@, before);
        }
        match lexer.next_token() {
            Ok(Some(t)) => {
                proof {
                    let item = lex_next(src@, before).1->Ok_0->Some_0;
                    match lex_all(src@, lexer.cursor()) {
                        Ok(rest) => {
                            assert(done.push(item) + rest =~= done + (seq![item] + rest));
                        },
                        Err(_) => {},
                    }
                    done = done.push(item);
                }
                program.push(t);
            },
            Ok(None) => {
                assert(lex_all(src@, before) == Ok::<Seq<(TokenKind, Cursor)>, (Cursor, LexErrorView)>(Seq::empty()));
                assert(done + Seq::<(TokenKind, Cursor)>::empty() =~= done);
                break;
            },
            Err(e) => {
                assert(lex_all(src@, before) == Err::<Seq<(TokenKind, Cursor)>, (Cursor, LexErrorView)>(lex_next(src@, before).1->Err_0));
                return Err(e);
            },
        }
    }
    Ok(program)
}

} // verus!
