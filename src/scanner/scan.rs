use vstd::prelude::*;
use vstd::utf8::encode_utf8;

use crate::scanner::defs::{Token, TokenName};
use crate::scanner::file::{File, FileView};

verus! {

/// The characters a scanner has still to give: one put back, if any, then the
/// unread bytes as characters. Past them it gives `'\0'`.
pub open spec fn remaining(pending: Option<char>, f: FileView) -> Seq<char> {
    let unread = f.bytes.subrange(f.carry as int, f.bytes.len() as int).map_values(|b: u8| b as char);
    match pending {
        Some(c) => seq![c] + unread,
        None => unread,
    }
}

/// The characters the scanner skips between tokens.
pub open spec fn blank(c: char) -> bool {
    c == ' ' || c == '\t' || c == '\n' || c == '\r' || c == '\x0C'
}

/// The ASCII digits.
pub open spec fn decimal(c: char) -> bool {
    '0' <= c && c <= '9'
}

/// Number of blank characters at the start of `s`.
pub open spec fn blank_run(s: Seq<char>) -> nat
    decreases s.len(),
{
    if s.len() > 0 && blank(s[0]) {
        1 + blank_run(s.drop_first())
    } else {
        0
    }
}

/// Number of decimal digits at the start of `s`.
pub open spec fn digit_run(s: Seq<char>) -> nat
    decreases s.len(),
{
    if s.len() > 0 && decimal(s[0]) {
        1 + digit_run(s.drop_first())
    } else {
        0
    }
}

proof fn lemma_blank_run(s: Seq<char>, k: int)
    requires
        0 <= k <= s.len(),
        forall|j: int| 0 <= j < k ==> blank(#[trigger] s[j]),
        k == s.len() || !blank(s[k]),
    ensures
        blank_run(s) == k,
    decreases k,
{
    if k > 0 {
        assert forall|j: int| 0 <= j < k - 1 implies blank(#[trigger] s.drop_first()[j]) by {
            assert(s.drop_first()[j] == s[j + 1]);
        }
        lemma_blank_run(s.drop_first(), k - 1);
    }
}

proof fn lemma_digit_run(s: Seq<char>, k: int)
    requires
        0 <= k <= s.len(),
        forall|j: int| 0 <= j < k ==> decimal(#[trigger] s[j]),
        k == s.len() || !decimal(s[k]),
    ensures
        digit_run(s) == k,
    decreases k,
{
    if k > 0 {
        assert forall|j: int| 0 <= j < k - 1 implies decimal(#[trigger] s.drop_first()[j]) by {
            assert(s.drop_first()[j] == s[j + 1]);
        }
        lemma_digit_run(s.drop_first(), k - 1);
    }
}

/// The value of the digits `s`, with 32-bit wrap-around.
pub open spec fn wrapped_value(s: Seq<char>) -> i32
    decreases s.len(),
{
    if s.len() == 0 {
        0
    } else {
        wrapped_value(s.drop_last()).wrapping_mul(10).wrapping_add((s.last() as u32 - '0' as u32) as i32)
    }
}

/// A character the scanner does not know, and where it was met.
#[derive(Debug)]
pub struct ScanError {
    pub found: char,
    pub pos: u64,
    pub line: i64,
}

/// Reads arithmetic tokens from a text.
pub struct Scanner {
    source_file: File,
    putback: Option<char>,
}

impl Scanner {
    pub closed spec fn wf(&self) -> bool {
        self.source_file.wf()
    }

    /// What the scanner has still to give.
    pub closed spec fn rest(&self) -> Seq<char> {
        remaining(self.putback, self.source_file@)
    }

    /// A scanner at the start of `source`.
    pub fn new(source: String) -> (r: Scanner)
        ensures
            r.wf(),
            r.rest() == encode_utf8(source@).map_values(|b: u8| b as char),
    {
        let r = Scanner { source_file: File::new(source), putback: None };
        assert(r.rest() =~= r.source_file@.bytes.map_values(|b: u8| b as char));
        r
    }

    /// The next character, or `'\0'` when there is none.
    pub fn next(&mut self) -> (r: char)
        requires
            old(self).wf(),
        ensures
            final(self).wf(),
            old(self).rest().len() == 0 ==> r == '\0' && final(self).rest().len() == 0,
            old(self).rest().len() > 0 ==> r == old(self).rest()[0] && final(self).rest()
                == old(self).rest().drop_first(),
    {
        if self.putback.is_some() {
            let c = self.putback.unwrap();
            self.putback = None;
            assert(self.rest() =~= old(self).rest().drop_first());
            return c;
        }
        let c = self.source_file.getc();
        proof {
            let o = old(self).rest();
            let n = self.rest();
            if o.len() > 0 {
                assert forall|i: int| 0 <= i < n.len() implies n[i] == o.drop_first()[i] by {
                    assert(n[i] == self.source_file@.bytes[self.source_file@.carry + i] as char);
                    assert(o[i + 1] == old(self).source_file@.bytes[old(self).source_file@.carry + i + 1] as char);
                }
                assert(n =~= o.drop_first());
            } else {
                assert(n =~= o);
            }
        }
        c
    }

    /// The first character that is not blank, or `'\0'` at the end.
    pub fn skip(&mut self) -> (r: char)
        requires
            old(self).wf(),
        ensures
            final(self).wf(),
            ({
                let k = blank_run(old(self).rest());
                if k < old(self).rest().len() {
                    r == old(self).rest()[k as int] && final(self).rest() == old(self).rest().subrange(
                        (k + 1) as int,
                        old(self).rest().len() as int,
                    )
                } else {
                    r == '\0' && final(self).rest().len() == 0
                }
            }),
    {
        let ghost start = self.rest();
        let ghost mut k: int = 0;
        let mut c = self.next();
        proof {
            if start.len() > 0 {
                assert(start.drop_first() =~= start.subrange(1, start.len() as int));
            }
        }
        while c == ' ' || c == '\t' || c == '\n' || c == '\r' || c == '\x0C'
            invariant
                self.wf(),
                0 <= k <= start.len(),
                forall|j: int| 0 <= j < k ==> blank(#[trigger] start[j]),
                k < start.len() ==> c == start[k] && self.rest() == start.subrange(k + 1, start.len() as int),
                k == start.len() ==> c == '\0' && self.rest().len() == 0,
            decreases start.len() - k,
        {
            let ghost before = self.rest();
            c = self.next();
            proof {
                k = k + 1;
                if k < start.len() {
                    assert(before.drop_first() =~= start.subrange(k + 1, start.len() as int));
                }
            }
        }
        proof {
            lemma_blank_run(start, k);
        }
        c
    }

    /// Reads the digits that start with `c` and go on in what is left; the
    /// first character after them is put back.
    pub fn scanint(&mut self, c: char) -> (r: i32)
        requires
            old(self).wf(),
            decimal(c),
        ensures
            final(self).wf(),
            r == wrapped_value((seq![c] + old(self).rest()).subrange(0, digit_run(seq![c] + old(self).rest()) as int)),
    {
        let ghost all = seq![c] + self.rest();
        let ghost mut k: int = 0;
        let mut value: i32 = 0;
        let mut d = c;
        while '0' <= d && d <= '9'
            invariant
                self.wf(),
                0 <= k <= all.len(),
                forall|j: int| 0 <= j < k ==> decimal(#[trigger] all[j]),
                value == wrapped_value(all.subrange(0, k)),
                k < all.len() ==> d == all[k] && self.rest() == all.subrange(k + 1, all.len() as int),
                k == all.len() ==> d == '\0' && self.rest().len() == 0,
            decreases all.len() - k,
        {
            assert(all.subrange(0, k + 1).drop_last() =~= all.subrange(0, k));
            value = value.wrapping_mul(10).wrapping_add((d as u32 - '0' as u32) as i32);
            let ghost before = self.rest();
            d = self.next();
            proof {
                k = k + 1;
                if k < all.len() {
                    assert(before.drop_first() =~= all.subrange(k + 1, all.len() as int));
                }
            }
        }
        proof {
            lemma_digit_run(all, k);
        }
        self.putback = Some(d);
        value
    }

    /// Reads the next token into `token`: `false` at the end of the text, an
    /// error for a character that starts no token.
    pub fn scan(&mut self, token: &mut Token) -> (r: Result<bool, ScanError>)
        requires
            old(self).wf(),
        ensures
            final(self).wf(),
            ({
                let s = old(self).rest();
                let k = blank_run(s);
                let c = if k < s.len() { s[k as int] } else { '\0' };
                let after = s.subrange((k + 1) as int, s.len() as int);
                if c == '+' {
                    r == Ok::<bool, ScanError>(true) && final(token).token_name == TokenName::PLUS && final(token).int_value == old(token).int_value
                } else if c == '-' {
                    r == Ok::<bool, ScanError>(true) && final(token).token_name == TokenName::MINUS && final(token).int_value == old(token).int_value
                } else if c == '*' {
                    r == Ok::<bool, ScanError>(true) && final(token).token_name == TokenName::STAR && final(token).int_value == old(token).int_value
                } else if c == '/' {
                    r == Ok::<bool, ScanError>(true) && final(token).token_name == TokenName::SLASH && final(token).int_value == old(token).int_value
                } else if c == '\0' {
                    r == Ok::<bool, ScanError>(false) && *final(token) == *old(token)
                } else if decimal(c) {
                    &&& r == Ok::<bool, ScanError>(true)
                    &&& final(token).token_name == TokenName::INTLIT
                    &&& final(token).int_value == wrapped_value(
                        (seq![c] + after).subrange(0, digit_run(seq![c] + after) as int),
                    )
                } else {
                    r is Err && r->Err_0.found == c && *final(token) == *old(token)
                }
            }),
    {
        let c = self.skip();
        if c == '+' {
            token.token_name = TokenName::PLUS;
            Ok(true)
        } else if c == '-' {
            token.token_name = TokenName::MINUS;
            Ok(true)
        } else if c == '*' {
            token.token_name = TokenName::STAR;
            Ok(true)
        } else if c == '/' {
            token.token_name = TokenName::SLASH;
            Ok(true)
        } else if c == '\0' {
            Ok(false)
        } else if '0' <= c && c <= '9' {
            token.int_value = self.scanint(c);
            token.token_name = TokenName::INTLIT;
            Ok(true)
        } else {
            Err(ScanError {
                found: c,
                pos: self.source_file.verbose_carry(),
                line: self.source_file.verbose_line(),
            })
        }
    }
}

} // verus!
