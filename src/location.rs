use vstd::prelude::*;

use crate::text::{dec, push_dec};

verus! {

/// A location as plain values.
pub struct LocationView {
    pub col: nat,
    pub row: nat,
    pub idx: nat,
    pub file: Seq<char>,
}

/// A position in a source text: one-based row and column, zero-based offset
/// in characters, and the name of the file.
#[derive(Debug)]
pub struct Location {
    pub col: usize,
    pub row: usize,
    pub idx: usize,
    pub file: String,
}

impl View for Location {
    type V = LocationView;

    open spec fn view(&self) -> LocationView {
        LocationView { col: self.col as nat, row: self.row as nat, idx: self.idx as nat, file: self.file@ }
    }
}

impl Clone for Location {
    fn clone(&self) -> (r: Location)
        ensures
            r@ == self@,
    {
        Location { col: self.col, row: self.row, idx: self.idx, file: self.file.clone() }
    }
}

impl Default for Location {
    /// The start of an unnamed text: row 1, column 1, offset 0.
    fn default() -> (r: Location)
        ensures
            r@ == (LocationView { col: 1, row: 1, idx: 0, file: Seq::empty() }),
    {
        Location { col: 1, row: 1, idx: 0, file: String::new() }
    }
}

/// How a location reads in a message: `file:row:col`.
pub open spec fn location_text(l: LocationView) -> Seq<char> {
    l.file + ":"@ + dec(l.row) + ":"@ + dec(l.col)
}

impl Location {
    /// The start of the file named `file`: row 1, column 1, offset 0.
    pub fn start(file: &str) -> (r: Location)
        ensures
            r@ == (LocationView { col: 1, row: 1, idx: 0, file: file@ }),
    {
        Location { col: 1, row: 1, idx: 0, file: file.to_owned() }
    }

    /// The location as it stands in a message.
    pub fn describe(&self) -> (r: String)
        ensures
            r@ == location_text(self@),
    {
        let mut r = self.file.clone();
        r.append(":");
        push_dec(&mut r, self.row as u64);
        r.append(":");
        push_dec(&mut r, self.col as u64);
        assert(r@ =~= location_text(self@));
        r
    }
}

} // verus!
