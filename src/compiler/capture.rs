use vstd::prelude::*;

use crate::location::{Location, LocationView};
use crate::text::{dec, push_dec, same_text};

verus! {

/// Frame offset of the saved base pointer; the first local sits one slot above it.
pub const BASE_OFFSET: usize = 8;

/// Size in bytes of one frame slot.
pub const SLOT: usize = 8;

/// What a capture holds, as plain values.
pub struct CaptureView {
    pub name: Option<Seq<char>>,
    pub locals: Seq<(Seq<char>, nat)>,
    pub source: Seq<char>,
    pub offset: nat,
    pub inline: bool,
    pub returning: bool,
    pub initializing: bool,
    pub ends_with_push: bool,
    pub loc: LocationView,
}

/// Index of the first local named `name` at or after position `i`.
pub open spec fn find_local(locals: Seq<(Seq<char>, nat)>, name: Seq<char>, i: int) -> Option<int>
    decreases locals.len() - i,
{
    if i < 0 || i >= locals.len() {
        None
    } else if locals[i].0 == name {
        Some(i)
    } else {
        find_local(locals, name, i + 1)
    }
}

/// The frame offset recorded for `name`, if it is declared.
pub open spec fn local_offset(locals: Seq<(Seq<char>, nat)>, name: Seq<char>) -> Option<nat> {
    match find_local(locals, name, 0) {
        Some(i) => Some(locals[i].1),
        None => None,
    }
}

/// Records `name` at `offset`, replacing an earlier record of the same name.
pub open spec fn set_local(locals: Seq<(Seq<char>, nat)>, name: Seq<char>, offset: nat) -> Seq<(Seq<char>, nat)> {
    match find_local(locals, name, 0) {
        Some(i) => locals.update(i, (name, offset)),
        None => locals.push((name, offset)),
    }
}

/// No two locals share a name.
pub open spec fn distinct_locals(locals: Seq<(Seq<char>, nat)>) -> bool {
    forall|i: int, j: int|
        0 <= i < locals.len() && 0 <= j < locals.len() && i != j ==> #[trigger] locals[i].0
            != #[trigger] locals[j].0
}

/// What `find_local` finds has that name; when it finds none, no local from
/// `i` on has it.
pub proof fn lemma_find_local(locals: Seq<(Seq<char>, nat)>, name: Seq<char>, i: int)
    requires
        0 <= i,
    ensures
        match find_local(locals, name, i) {
            Some(j) => i <= j < locals.len() && locals[j].0 == name,
            None => forall|k: int| i <= k < locals.len() ==> #[trigger] locals[k].0 != name,
        },
    decreases locals.len() - i,
{
    if i < locals.len() && locals[i].0 != name {
        lemma_find_local(locals, name, i + 1);
    }
}

/// Recording a local keeps names distinct.
pub proof fn lemma_set_local_distinct(locals: Seq<(Seq<char>, nat)>, name: Seq<char>, offset: nat)
    requires
        distinct_locals(locals),
    ensures
        distinct_locals(set_local(locals, name, offset)),
{
    lemma_find_local(locals, name, 0);
    let r = set_local(locals, name, offset);
    assert forall|i: int, j: int| 0 <= i < r.len() && 0 <= j < r.len() && i != j implies #[trigger] r[i].0
        != #[trigger] r[j].0 by {
        if i < locals.len() && j < locals.len() {
            assert(r[i].0 == locals[i].0 && r[j].0 == locals[j].0);
        }
    }
}

/// Every recorded offset is at most `top`.
pub open spec fn offsets_within(locals: Seq<(Seq<char>, nat)>, top: nat) -> bool {
    forall|i: int| 0 <= i < locals.len() ==> #[trigger] locals[i].1 <= top
}

/// The operand text that reads the frame slot at `offset`.
pub open spec fn frame_operand(offset: nat) -> Seq<char> {
    "[rbp + "@ + dec(offset) + "]"@
}

/// The label and frame set-up that open a callable function.
pub open spec fn header_text(name: Seq<char>, inline: bool) -> Seq<char> {
    if inline {
        Seq::empty()
    } else {
        name + ":\n\tpush rbp\n\tmov rbp, rsp\n"@
    }
}

/// The frame tear-down that closes a callable function; a value left on the
/// stack by the body is first moved into the return register.
pub open spec fn footer_text(inline: bool, returning: bool) -> Seq<char> {
    if inline {
        Seq::empty()
    } else if returning {
        "\n\tpop rax\n"@ + "\tmov rsp, rbp\n\tpop rbp\n\tret\n"@
    } else {
        "\tmov rsp, rbp\n\tpop rbp\n\tret\n"@
    }
}

/// A name, or the empty text when there is none.
pub open spec fn name_or_empty(name: Option<Seq<char>>) -> Seq<char> {
    match name {
        Some(n) => n,
        None => Seq::empty(),
    }
}

/// The accumulating definition of one function.
pub struct Capture {
    name: Option<String>,
    local_variables: Vec<(String, usize)>,
    source: String,
    offset: usize,
    ends_with_push: bool,
    loc: Location,
    inline: bool,
    returning: bool,
    initializing: bool,
}

impl View for Capture {
    type V = CaptureView;

    closed spec fn view(&self) -> CaptureView {
        CaptureView {
            name: match self.name {
                Some(s) => Some(s@),
                None => None,
            },
            locals: self.local_variables@.map_values(|p: (String, usize)| (p.0@, p.1 as nat)),
            source: self.source@,
            offset: self.offset as nat,
            inline: self.inline,
            returning: self.returning,
            initializing: self.initializing,
            ends_with_push: self.ends_with_push,
            loc: self.loc@,
        }
    }
}

impl Capture {
    /// Every recorded offset lies between the first slot and the current one.
    pub open spec fn wf(&self) -> bool {
        &&& self@.offset >= BASE_OFFSET
        &&& offsets_within(self@.locals, self@.offset)
        &&& distinct_locals(self@.locals)
    }

    /// A new capture: no name, no locals, an empty body, in its header phase.
    pub fn new(loc: Location, inline: bool) -> (r: Capture)
        ensures
            r.wf(),
            r@ == (CaptureView {
                name: None,
                locals: Seq::empty(),
                source: Seq::empty(),
                offset: BASE_OFFSET as nat,
                inline,
                returning: false,
                initializing: true,
                ends_with_push: false,
                loc: loc@,
            }),
    {
        let r = Capture {
            loc,
            inline,
            name: None,
            local_variables: Vec::new(),
            offset: BASE_OFFSET,
            ends_with_push: false,
            initializing: true,
            returning: false,
            source: String::new(),
        };
        assert(r@.locals =~= Seq::empty());
        r
    }

    fn find(&self, name: &str) -> (r: Option<usize>)
        ensures
            match r {
                Some(i) => i < self@.locals.len() && find_local(self@.locals, name@, 0) == Some(i as int),
                None => find_local(self@.locals, name@, 0) is None,
            },
    {
        let mut i: usize = 0;
        while i < self.local_variables.len()
            invariant
                i <= self.local_variables@.len(),
                find_local(self@.locals, name@, 0) == find_local(self@.locals, name@, i as int),
            decreases self.local_variables@.len() - i,
        {
            if same_text(self.local_variables[i].0.as_str(), name) {
                return Some(i);
            }
            i = i + 1;
        }
        None
    }

    /// In the header phase, declares one more local in the next frame slot;
    /// a name declared again moves to the new slot. Later it does nothing.
    pub fn add_local_var(&mut self, name: &str)
        requires
            old(self).wf(),
            old(self)@.offset + SLOT <= usize::MAX,
        ensures
            final(self).wf(),
            old(self)@.initializing ==> final(self)@ == (CaptureView {
                offset: (old(self)@.offset + SLOT) as nat,
                locals: set_local(old(self)@.locals, name@, (old(self)@.offset + SLOT) as nat),
                ..old(self)@
            }),
            !old(self)@.initializing ==> final(self)@ == old(self)@,
    {
        if self.initializing {
            self.offset = self.offset + SLOT;
            let entry = (name.to_owned(), self.offset);
            match self.find(name) {
                Some(i) => {
                    self.local_variables.set(i, entry);
                },
                None => {
                    self.local_variables.push(entry);
                },
            }
            assert(self@.locals =~= set_local(old(self)@.locals, name@, (old(self)@.offset + SLOT) as nat));
            proof {
                lemma_set_local_distinct(old(self)@.locals, name@, (old(self)@.offset + SLOT) as nat);
            }
        }
    }

    /// Whether `name` is a declared local.
    pub fn has_local_var(&self, name: &str) -> (r: bool)
        ensures
            r == (local_offset(self@.locals, name@) is Some),
    {
        self.find(name).is_some()
    }

    /// The frame operand of the declared local `name`.
    pub fn get_local_var(&self, name: &str) -> (r: String)
        requires
            local_offset(self@.locals, name@) is Some,
        ensures
            r@ == frame_operand(local_offset(self@.locals, name@)->0),
    {
        let i = self.find(name).unwrap();
        let offset = self.local_variables[i].1;
        let mut r = String::from_str("[rbp + ");
        push_dec(&mut r, offset as u64);
        r.append("]");
        r
    }

    /// The offset of the highest slot in use, counted from the first local's
    /// base: the number of bytes the locals take.
    pub fn last_offset(&self) -> (r: usize)
        requires
            self.wf(),
        ensures
            r == self@.offset - BASE_OFFSET,
    {
        self.offset - BASE_OFFSET
    }

    /// Appends generated code to the body; `pushes` reports whether that code
    /// ends by pushing a value. Empty code leaves the report of the code before.
    pub fn push_asm(&mut self, code: &str, pushes: bool)
        ensures
            final(self)@ == (CaptureView {
                source: old(self)@.source + code@,
                ends_with_push: if code@.len() > 0 { pushes } else { old(self)@.ends_with_push },
                ..old(self)@
            }),
            final(self).wf() == old(self).wf(),
    {
        self.source.append(code);
        if !code.is_empty() {
            self.ends_with_push = pushes;
        }
    }

    /// Completes the definition: a callable function gets its label, frame
    /// set-up and tear-down around the body; an inline one is the bare body.
    /// A callable function returns a value when its body ends by pushing one;
    /// an inline one keeps its `returning` flag as it was.
    pub fn get_source(&mut self) -> (r: String)
        ensures
            r@ == header_text(name_or_empty(old(self)@.name), old(self)@.inline) + old(self)@.source
                + footer_text(old(self)@.inline, old(self)@.ends_with_push),
            final(self)@ == (CaptureView {
                returning: if old(self)@.inline { old(self)@.returning } else { old(self)@.ends_with_push },
                ..old(self)@
            }),
            final(self).wf() == old(self).wf(),
    {
        if !self.inline {
            self.returning = self.ends_with_push;
        }
        let mut r = String::new();
        if !self.inline {
            r.append(self.get_name());
            r.append(":\n\tpush rbp\n\tmov rbp, rsp\n");
        }
        r.append(self.source.as_str());
        if !self.inline {
            if self.ends_with_push {
                r.append("\n\tpop rax\n");
            }
            r.append("\tmov rsp, rbp\n\tpop rbp\n\tret\n");
        }
        assert(r@ =~= header_text(name_or_empty(old(self)@.name), old(self)@.inline)
            + old(self)@.source + footer_text(old(self)@.inline, old(self)@.ends_with_push));
        r
    }

    /// The name, or the empty text while none is set.
    pub fn get_name(&self) -> (r: &str)
        ensures
            r@ == name_or_empty(self@.name),
    {
        proof {
            reveal_strlit("");
        }
        match &self.name {
            Some(n) => n.as_str(),
            None => "",
        }
    }

    /// Where the definition starts.
    pub fn location(&self) -> (r: &Location)
        ensures
            r@ == self@.loc,
    {
        &self.loc
    }

    /// Whether the function is spliced into its callers.
    pub fn is_inline(&self) -> (r: bool)
        ensures
            r == self@.inline,
    {
        self.inline
    }

    /// Whether the function hands a value back; known once it is complete.
    pub fn is_returning(&self) -> (r: bool)
        ensures
            r == self@.returning,
    {
        self.returning
    }

    /// Whether the body so far ends by pushing a value.
    pub fn ends_with_push(&self) -> (r: bool)
        ensures
            r == self@.ends_with_push,
    {
        self.ends_with_push
    }

    /// Whether locals are still being declared.
    pub fn is_initializing(&self) -> (r: bool)
        ensures
            r == self@.initializing,
    {
        self.initializing
    }

    /// Ends the header: what follows is the body.
    pub fn end_header(&mut self)
        ensures
            final(self)@ == (CaptureView { initializing: false, ..old(self)@ }),
            final(self).wf() == old(self).wf(),
    {
        self.initializing = false;
    }

    /// Sets the function's name.
    pub fn set_name(&mut self, name: &str)
        ensures
            final(self)@ == (CaptureView { name: Some(name@), ..old(self)@ }),
            final(self).wf() == old(self).wf(),
    {
        self.name = Some(name.to_owned());
    }

    /// Whether a name is set.
    pub fn has_name(&self) -> (r: bool)
        ensures
            r == (self@.name is Some),
    {
        self.name.is_some()
    }
}

} // verus!
