//! Parsed programs: the flat command stack, the per-line view, the
//! argument-range index, and a cursor over the stack.

use vstd::prelude::*;

use crate::code::{code_like, copy_gcode, ArgGroups, ArgRange, GCode, GCodeLine};
use crate::parser::{
    code_model, collect_stack, lemma_flat_models, line_is, parse_lines, spec_code_count,
    spec_doc_codes, spec_flat_codes, spec_line_count, spec_parse_line, spec_split_lines,
};

verus! {

/// A parsed program: its command stack, line view, argument index, and
/// a half-open selection whose end is the cursor.
#[derive(Debug)]
pub struct GCodeProgram {
    pub stack: Vec<GCode>,
    pub arg_groups: ArgGroups,
    pub lines: Vec<GCodeLine>,
    pub selection: (usize, usize),
}

impl GCodeProgram {
    /// The selection is an ordered window into the stack, and the index
    /// is well formed and reflects the lines.
    pub open spec fn wf(self) -> bool {
        &&& self.selection.0 <= self.selection.1 <= self.stack@.len()
        &&& self.arg_groups.wf()
        &&& self.arg_groups.models(self.lines@)
    }

    /// Parse a document: one `GCodeLine` per text line carrying exactly
    /// what the line grammar reads, the commands flattened in reading
    /// order (the stack's contents are the document's commands), the
    /// argument index built over the lines, and the selection empty at
    /// the start.
    pub fn new(src: &[u8]) -> (r: Self)
        ensures
            r.wf(),
            r.lines@.len() == spec_line_count(src@),
            r.lines@.len() == spec_split_lines(src@).len(),
            forall|k: int|
                0 <= k < r.lines@.len() ==> line_is(
                    #[trigger] r.lines@[k],
                    spec_parse_line(spec_split_lines(src@)[k]),
                ),
            r.stack@.len() == spec_code_count(r.lines@),
            r.stack@.len() == spec_doc_codes(src@).len(),
            forall|k: int|
                0 <= k < r.stack@.len() ==> code_model(#[trigger] r.stack@[k]) == spec_doc_codes(
                    src@,
                )[k],
            r.selection == (0usize, 0usize),
    {
        let lines = parse_lines(src);
        let stack = collect_stack(&lines);
        proof {
            let ms = spec_split_lines(src@).map_values(|t: Seq<u8>| spec_parse_line(t));
            lemma_flat_models(lines@, ms);
            assert forall|k: int|
                0 <= k < stack@.len() implies code_model(#[trigger] stack@[k]) == spec_doc_codes(
                src@,
            )[k] by {
                assert(code_like(stack@[k], spec_flat_codes(lines@)[k]));
                assert(code_model(stack@[k]) =~= code_model(spec_flat_codes(lines@)[k]));
                assert(spec_flat_codes(lines@).map_values(|g: GCode| code_model(g))[k]
                    == code_model(spec_flat_codes(lines@)[k]));
            }
        }
        let arg_groups = ArgGroups::new(&lines);
        GCodeProgram { stack, arg_groups, lines, selection: (0, 0) }
    }

    /// The cursor: the end of the selection.
    pub fn cursor(&self) -> (r: usize)
        ensures
            r == self.selection.1,
    {
        self.selection.1
    }

    /// The flat command stack.
    pub fn stack(&self) -> (r: &Vec<GCode>)
        ensures
            r == &self.stack,
    {
        &self.stack
    }

    /// The per-line view.
    pub fn lines(&self) -> (r: &Vec<GCodeLine>)
        ensures
            r == &self.lines,
    {
        &self.lines
    }

    /// The selection window.
    pub fn selection(&self) -> (r: (usize, usize))
        ensures
            r == self.selection,
    {
        self.selection
    }

    /// The argument-range index.
    pub fn arg_groups(&self) -> (r: &ArgGroups)
        ensures
            r == &self.arg_groups,
    {
        &self.arg_groups
    }

    /// The line under the cursor, if the cursor is on one.
    pub fn current_line(&self) -> (r: Option<&GCodeLine>)
        ensures
            match r {
                Some(line) => self.selection.1 < self.lines@.len() && line == &self.lines@[
                    self.selection.1 as int
                ],
                None => self.selection.1 >= self.lines@.len(),
            },
    {
        if self.selection.1 < self.lines.len() {
            Some(&self.lines[self.selection.1])
        } else {
            None
        }
    }

    /// The argument spans active at the cursor's line: exactly the
    /// bucket entries that contain it, as `ArgGroups::get` returns them.
    pub fn current_arg_group(&self) -> (r: Vec<ArgRange>)
        requires
            self.wf(),
        ensures
            forall|k: int|
                0 <= k < r@.len() ==> (#[trigger] r@[k]).spec_contains(self.selection.1 as int)
                    && self.arg_groups.in_some_bucket(r@[k]),
            forall|l: int, m: int|
                0 <= l < 26 && 0 <= m < self.arg_groups.buckets@[l]@.len() && (
                #[trigger] self.arg_groups.buckets@[l]@[m]).spec_contains(self.selection.1 as int)
                    ==> r@.contains(self.arg_groups.buckets@[l]@[m]),
    {
        self.arg_groups.get(self.selection.1)
    }

    /// The commands before the cursor, in order: the stack's prefix up
    /// to the cursor.
    pub fn executed(&self) -> (r: Vec<GCode>)
        requires
            self.wf(),
        ensures
            r@.len() == self.selection.1,
            forall|k: int|
                0 <= k < r@.len() ==> code_like(#[trigger] r@[k], self.stack@[k]),
    {
        let mut out: Vec<GCode> = Vec::new();
        let mut i: usize = 0;
        while i < self.selection.1
            invariant
                0 <= i <= self.selection.1 <= self.stack@.len(),
                out@.len() == i,
                forall|k: int| 0 <= k < i ==> code_like(#[trigger] out@[k], self.stack@[k]),
            decreases self.selection.1 - i,
        {
            out.push(copy_gcode(&self.stack[i]));
            i = i + 1;
        }
        out
    }

    /// The commands at and after the cursor, in order: the stack's
    /// suffix from the cursor on.
    pub fn remaining(&self) -> (r: Vec<GCode>)
        requires
            self.wf(),
        ensures
            r@.len() == self.stack@.len() - self.selection.1,
            forall|k: int|
                0 <= k < r@.len() ==> code_like(
                    #[trigger] r@[k],
                    self.stack@[self.selection.1 + k],
                ),
    {
        let mut out: Vec<GCode> = Vec::new();
        let mut i: usize = self.selection.1;
        while i < self.stack.len()
            invariant
                self.selection.1 <= i <= self.stack@.len(),
                out@.len() == i - self.selection.1,
                forall|k: int|
                    0 <= k < out@.len() ==> code_like(
                        #[trigger] out@[k],
                        self.stack@[self.selection.1 + k],
                    ),
            decreases self.stack@.len() - i,
        {
            out.push(copy_gcode(&self.stack[i]));
            i = i + 1;
        }
        out
    }

    /// Mutable access to the selection window.
    pub fn selection_mut(&mut self) -> (r: &mut (usize, usize))
        ensures
            *r == old(self).selection,
            final(self).stack == old(self).stack,
            final(self).lines == old(self).lines,
            final(self).arg_groups == old(self).arg_groups,
            final(self).selection == *final(r),
    {
        &mut self.selection
    }

    /// Move the cursor one command forward; at the end of the stack the
    /// cursor stays and the call reports the boundary.
    pub fn advance(&mut self) -> (r: Option<usize>)
        requires
            old(self).wf(),
        ensures
            final(self).wf(),
            final(self).stack == old(self).stack,
            final(self).lines == old(self).lines,
            final(self).arg_groups == old(self).arg_groups,
            final(self).selection.0 == old(self).selection.0,
            match r {
                Some(c) => old(self).selection.1 < old(self).stack@.len() && c == old(self).selection.1 + 1 && final(self).selection.1 == c,
                None => old(self).selection.1 == old(self).stack@.len() && final(self).selection.1
                    == old(self).selection.1,
            },
    {
        if self.selection.1 < self.stack.len() {
            self.selection.1 = self.selection.1 + 1;
            Some(self.selection.1)
        } else {
            None
        }
    }

    /// Move the cursor one command back; at the start of the selection
    /// the cursor stays and the call reports the boundary.
    pub fn rewind(&mut self) -> (r: Option<usize>)
        requires
            old(self).wf(),
        ensures
            final(self).wf(),
            final(self).stack == old(self).stack,
            final(self).lines == old(self).lines,
            final(self).arg_groups == old(self).arg_groups,
            final(self).selection.0 == old(self).selection.0,
            match r {
                Some(c) => old(self).selection.1 > old(self).selection.0 && c == old(self).selection.1 - 1 && final(self).selection.1 == c,
                None => old(self).selection.1 == old(self).selection.0 && final(self).selection.1
                    == old(self).selection.1,
            },
    {
        if self.selection.1 > self.selection.0 {
            self.selection.1 = self.selection.1 - 1;
            Some(self.selection.1)
        } else {
            None
        }
    }
}

/// A flat command stack with a wrapping cursor.
#[derive(Debug, Clone)]
pub struct GCodeStack {
    pub cursor: usize,
    pub stack: Vec<GCode>,
}

impl GCodeStack {
    /// The cursor addresses a command whenever any exists, and rests at
    /// zero over an empty stack.
    pub open spec fn wf(self) -> bool {
        &&& self.stack@.len() > 0 ==> (self.cursor as int) < self.stack@.len()
        &&& self.stack@.len() == 0 ==> self.cursor == 0
    }

    /// The cursor's position.
    pub open spec fn spec_cursor(self) -> int {
        self.cursor as int
    }

    /// The commands on the stack.
    pub open spec fn spec_stack(self) -> Seq<GCode> {
        self.stack@
    }

    /// Parse a document into a stack holding exactly the document's
    /// commands, with the cursor at the start.
    pub fn new(src: &[u8]) -> (r: Self)
        ensures
            r.wf(),
            r.spec_cursor() == 0,
            r.spec_stack().len() == spec_doc_codes(src@).len(),
            forall|k: int|
                0 <= k < r.spec_stack().len() ==> code_model(#[trigger] r.spec_stack()[k])
                    == spec_doc_codes(src@)[k],
    {
        let program = GCodeProgram::new(src);
        GCodeStack { cursor: 0, stack: program.stack }
    }

    /// Read-only cursor.
    pub fn cursor(&self) -> (r: usize)
        ensures
            r == self.spec_cursor(),
    {
        self.cursor
    }

    /// Mutable cursor reference.
    fn cursor_mut(&mut self) -> (r: &mut usize)
        ensures
            *r == old(self).cursor,
            final(self).stack == old(self).stack,
            final(self).cursor == *final(r),
    {
        &mut self.cursor
    }

    /// Read-only stack.
    fn stack(&self) -> (r: &Vec<GCode>)
        ensures
            r == &self.stack,
    {
        &self.stack
    }

    /// How many commands are on the stack.
    pub fn len(&self) -> (r: usize)
        ensures
            r == self.spec_stack().len(),
    {
        self.stack.len()
    }

    /// The command under the cursor, if any.
    pub fn current(&self) -> (r: Option<&GCode>)
        ensures
            match r {
                Some(g) => (self.cursor as int) < self.spec_stack().len() && g == &self.spec_stack()[
                    self.cursor as int
                ],
                None => self.cursor as int >= self.spec_stack().len(),
            },
    {
        if self.cursor < self.stack.len() {
            Some(&self.stack[self.cursor])
        } else {
            None
        }
    }

    /// The commands up to the cursor, in order: the stack's prefix.
    pub fn current_execution(&self) -> (r: Vec<GCode>)
        requires
            self.wf(),
        ensures
            r@.len() == self.spec_cursor(),
            forall|k: int|
                0 <= k < r@.len() ==> code_like(#[trigger] r@[k], self.spec_stack()[k]),
    {
        let mut out: Vec<GCode> = Vec::new();
        let mut i: usize = 0;
        while i < self.cursor
            invariant
                0 <= i <= self.cursor,
                self.wf(),
                (self.cursor as int) <= self.stack@.len(),
                out@.len() == i,
                forall|k: int| 0 <= k < i ==> code_like(#[trigger] out@[k], self.stack@[k]),
            decreases self.cursor - i,
        {
            out.push(copy_gcode(&self.stack[i]));
            i = i + 1;
        }
        out
    }

    /// Move the cursor forward, wrapping to the first command.
    pub fn advance(&mut self)
        requires
            old(self).wf(),
        ensures
            final(self).wf(),
            final(self).stack == old(self).stack,
            old(self).stack@.len() == 0 ==> final(self).cursor == old(self).cursor,
            old(self).stack@.len() > 0 ==> final(self).cursor as int == (old(self).cursor + 1) % (
            old(self).stack@.len() as int),
    {
        if self.stack.len() > 0 {
            self.cursor = (self.cursor + 1) % self.stack.len();
        }
    }

    /// Move the cursor backward, stopping at the first command.
    pub fn rewind(&mut self)
        requires
            old(self).wf(),
        ensures
            final(self).wf(),
            final(self).stack == old(self).stack,
            old(self).stack@.len() == 0 ==> final(self).cursor == old(self).cursor,
            old(self).stack@.len() > 0 && old(self).cursor > 0 ==> final(self).cursor == old(self).cursor - 1,
            old(self).stack@.len() > 0 && old(self).cursor == 0 ==> final(self).cursor == 0,
    {
        if self.stack.len() > 0 && self.cursor > 0 {
            self.cursor = self.cursor - 1;
        }
    }
}

} // verus!
