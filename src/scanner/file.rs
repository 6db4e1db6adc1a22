use vstd::prelude::*;
use vstd::utf8::encode_utf8;

verus! {

/// A source text read byte by byte, counting the line breaks read.
#[derive(Debug)]
pub struct File {
    source: Vec<u8>,
    carry: usize,
    line: i32,
}

/// A file as plain values: its bytes, how many were read, and the line breaks among them.
pub struct FileView {
    pub bytes: Seq<u8>,
    pub carry: nat,
    pub line: int,
}

impl View for File {
    type V = FileView;

    closed spec fn view(&self) -> FileView {
        FileView { bytes: self.source@, carry: self.carry as nat, line: self.line as int }
    }
}

impl File {
    pub open spec fn wf(&self) -> bool {
        &&& self@.carry <= self@.bytes.len()
        &&& 0 <= self@.line
    }

    /// A file over the text `source`, with nothing read.
    pub fn new(source: String) -> (r: File)
        ensures
            r.wf(),
            r@.bytes == encode_utf8(source@),
            r@.carry == 0,
            r@.line == 0,
    {
        let bytes = source.as_str().as_bytes_vec();
        File { source: bytes, carry: 0, line: 0 }
    }

    /// The next byte as a character, or `'\0'` past the end; a line break
    /// read counts one more line, up to the largest count an `i32` holds.
    pub fn getc(&mut self) -> (r: char)
        requires
            old(self).wf(),
        ensures
            final(self).wf(),
            final(self)@.bytes == old(self)@.bytes,
            old(self)@.carry >= old(self)@.bytes.len() ==> r == '\0' && final(self)@ == old(self)@,
            old(self)@.carry < old(self)@.bytes.len() ==> {
                &&& r == old(self)@.bytes[old(self)@.carry as int] as char
                &&& final(self)@.carry == old(self)@.carry + 1
                &&& final(self)@.line == if r == '\n' && old(self)@.line < i32::MAX {
                    old(self)@.line + 1
                } else {
                    old(self)@.line
                }
            },
    {
        if self.source.len() <= self.carry {
            return '\0';
        }
        let c = self.source[self.carry] as char;
        if c == '\n' && self.line < i32::MAX {
            self.line = self.line + 1;
        }
        self.carry = self.carry + 1;
        c
    }

    /// Line breaks read so far.
    pub fn line(&self) -> (r: i32)
        ensures
            r as int == self@.line,
    {
        self.line
    }

    /// Bytes read so far.
    pub fn carry(&self) -> (r: usize)
        ensures
            r as nat == self@.carry,
    {
        self.carry
    }

    /// The line being read, counted from 1.
    pub fn verbose_line(&self) -> (r: i64)
        ensures
            r as int == self@.line + 1,
    {
        self.line as i64 + 1
    }

    /// Bytes read so far, as a position in a message.
    pub fn verbose_carry(&self) -> (r: u64)
        ensures
            r as nat == self@.carry,
    {
        self.carry as u64
    }
}

} // verus!
