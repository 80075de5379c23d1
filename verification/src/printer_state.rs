//! Printer state folded from firmware text lines.
//!
//! A trimmed line is matched in order: a firmware error (`Error` at a
//! word start, followed by a colon or space) is recorded verbatim; an
//! `ok` acknowledgement marks the printer ready; otherwise temperature,
//! position and fan reports (which may share one line) update exactly
//! the slots their tokens name, the last token naming a slot winning.

use vstd::prelude::*;

use crate::parser::{digit_run, scan_digits, scan_number_at, spec_digits_sat, spec_number_at};

verus! {

/// One tool's reported axis state: temperatures in thousandths of a
/// degree C, positions in micrometres.
#[derive(Debug, Clone, Copy, PartialEq, Eq, Structural)]
pub struct ToolState {
    pub temp_mc: i64,
    pub target_mc: i64,
    pub pwm: u8,
    pub x_um: i64,
    pub y_um: i64,
    pub z_um: i64,
    pub e_um: i64,
}

/// The readings of a tool nobody has reported yet: all zero.
pub open spec fn spec_default_tool() -> ToolState {
    ToolState { temp_mc: 0, target_mc: 0, pwm: 0, x_um: 0, y_um: 0, z_um: 0, e_um: 0 }
}

impl Default for ToolState {
    /// All readings zero.
    fn default() -> (r: Self)
        ensures
            r == spec_default_tool(),
    {
        ToolState { temp_mc: 0, target_mc: 0, pwm: 0, x_um: 0, y_um: 0, z_um: 0, e_um: 0 }
    }
}

/// The printer as the firmware reports it: tools by index, the bed, the
/// fan, readiness, and the last error line.
#[derive(Debug)]
pub struct PrinterState {
    pub tools: Vec<(u64, ToolState)>,
    pub bed: ToolState,
    pub fan_speed: u8,
    pub ready: bool,
    pub last_error: Option<Vec<u8>>,
}

/// Tool indices are unique: the table is a map.
pub open spec fn tools_unique(tools: Seq<(u64, ToolState)>) -> bool {
    forall|i: int, j: int|
        0 <= i < j < tools.len() ==> (#[trigger] tools[i]).0 != (#[trigger] tools[j]).0
}

/// The map the tool table stands for: the state stored under an index.
pub open spec fn tool_model(tools: Seq<(u64, ToolState)>, idx: int) -> Option<ToolState>
    decreases tools.len(),
{
    if tools.len() == 0 {
        None
    } else if tools[0].0 == idx {
        Some(tools[0].1)
    } else {
        tool_model(tools.skip(1), idx)
    }
}

/// A lookup that walks past a key-distinct prefix to a match reads the
/// matched entry.
proof fn lemma_tool_model_found(tools: Seq<(u64, ToolState)>, k: int, idx: int)
    requires
        0 <= k < tools.len(),
        tools[k].0 == idx,
        forall|m: int| 0 <= m < k ==> (#[trigger] tools[m]).0 != idx,
    ensures
        tool_model(tools, idx) == Some(tools[k].1),
    decreases k,
{
    if k > 0 {
        assert(tools.skip(1)[k - 1] == tools[k]);
        assert forall|m: int| 0 <= m < k - 1 implies (#[trigger] tools.skip(1)[m]).0 != idx by {
            assert(tools.skip(1)[m] == tools[m + 1]);
        }
        lemma_tool_model_found(tools.skip(1), k - 1, idx);
    }
}

/// A lookup over a table without the key reads nothing.
proof fn lemma_tool_model_missing(tools: Seq<(u64, ToolState)>, idx: int)
    requires
        forall|m: int| 0 <= m < tools.len() ==> (#[trigger] tools[m]).0 != idx,
    ensures
        tool_model(tools, idx) is None,
    decreases tools.len(),
{
    if tools.len() > 0 {
        assert forall|m: int|
            0 <= m < tools.skip(1).len() implies (#[trigger] tools.skip(1)[m]).0 != idx by {
            assert(tools.skip(1)[m] == tools[m + 1]);
        }
        lemma_tool_model_missing(tools.skip(1), idx);
    }
}

/// Overwriting the sole entry of a key rewrites that key's value and no
/// other.
proof fn lemma_tool_model_update(tools: Seq<(u64, ToolState)>, k: int, idx: u64, t: ToolState)
    requires
        0 <= k < tools.len(),
        tools[k].0 == idx,
        forall|m: int| 0 <= m < k ==> (#[trigger] tools[m]).0 != idx,
    ensures
        tool_model(tools.update(k, (idx, t)), idx as int) == Some(t),
        forall|j: int|
            j != idx ==> #[trigger] tool_model(tools.update(k, (idx, t)), j) == tool_model(
                tools,
                j,
            ),
    decreases k,
{
    let up = tools.update(k, (idx, t));
    if k == 0 {
        assert(up[0] == (idx, t));
        assert(up.skip(1) =~= tools.skip(1));
        assert forall|j: int|
            j != idx implies #[trigger] tool_model(up, j) == tool_model(tools, j) by {
            assert(tool_model(up, j) == tool_model(up.skip(1), j));
            assert(tool_model(tools, j) == tool_model(tools.skip(1), j));
        }
    } else {
        assert(up[0] == tools[0]);
        assert(up.skip(1) =~= tools.skip(1).update(k - 1, (idx, t)));
        assert(tools.skip(1)[k - 1] == tools[k]);
        assert forall|m: int| 0 <= m < k - 1 implies (#[trigger] tools.skip(1)[m]).0 != idx by {
            assert(tools.skip(1)[m] == tools[m + 1]);
        }
        lemma_tool_model_update(tools.skip(1), k - 1, idx, t);
        assert(tools[0].0 != idx);
        assert forall|j: int|
            j != idx implies #[trigger] tool_model(up, j) == tool_model(tools, j) by {
            if j == tools[0].0 {
                assert(tool_model(up, j) == Some(up[0].1));
                assert(tool_model(tools, j) == Some(tools[0].1));
            } else {
                assert(tool_model(up, j) == tool_model(up.skip(1), j));
                assert(tool_model(tools, j) == tool_model(tools.skip(1), j));
                assert(tool_model(up.skip(1), j) == tool_model(tools.skip(1), j));
            }
        }
    }
}

/// Appending a new key adds that key's value and no other.
proof fn lemma_tool_model_push(tools: Seq<(u64, ToolState)>, idx: u64, t: ToolState)
    requires
        forall|m: int| 0 <= m < tools.len() ==> (#[trigger] tools[m]).0 != idx,
    ensures
        tool_model(tools.push((idx, t)), idx as int) == Some(t),
        forall|j: int|
            j != idx ==> #[trigger] tool_model(tools.push((idx, t)), j) == tool_model(tools, j),
    decreases tools.len(),
{
    let up = tools.push((idx, t));
    if tools.len() == 0 {
        assert(up[0] == (idx, t));
        assert(up.skip(1) =~= Seq::<(u64, ToolState)>::empty());
        assert forall|j: int|
            j != idx implies #[trigger] tool_model(up, j) == tool_model(tools, j) by {
            assert(tool_model(up, j) == tool_model(up.skip(1), j));
        }
    } else {
        assert(up[0] == tools[0]);
        assert(up.skip(1) =~= tools.skip(1).push((idx, t)));
        assert forall|m: int|
            0 <= m < tools.skip(1).len() implies (#[trigger] tools.skip(1)[m]).0 != idx by {
            assert(tools.skip(1)[m] == tools[m + 1]);
        }
        lemma_tool_model_push(tools.skip(1), idx, t);
        assert(tools[0].0 != idx);
        assert forall|j: int|
            j != idx implies #[trigger] tool_model(up, j) == tool_model(tools, j) by {
            if j == tools[0].0 {
                assert(tool_model(up, j) == Some(up[0].1));
                assert(tool_model(tools, j) == Some(tools[0].1));
            } else {
                assert(tool_model(up, j) == tool_model(up.skip(1), j));
                assert(tool_model(tools, j) == tool_model(tools.skip(1), j));
                assert(tool_model(up.skip(1), j) == tool_model(tools.skip(1), j));
            }
        }
    }
}

impl PrinterState {
    pub open spec fn wf(self) -> bool {
        tools_unique(self.tools@)
    }

    /// The reported state of tool `idx`, if the firmware mentioned it.
    pub fn tool(&self, idx: u64) -> (r: Option<&ToolState>)
        ensures
            match r {
                Some(t) => tool_model(self.tools@, idx as int) == Some(*t),
                None => tool_model(self.tools@, idx as int) is None,
            },
    {
        let mut k: usize = 0;
        while k < self.tools.len()
            invariant
                0 <= k <= self.tools@.len(),
                forall|m: int| 0 <= m < k ==> (#[trigger] self.tools@[m]).0 != idx,
            decreases self.tools@.len() - k,
        {
            if self.tools[k].0 == idx {
                proof {
                    lemma_tool_model_found(self.tools@, k as int, idx as int);
                }
                return Some(&self.tools[k].1);
            }
            k = k + 1;
        }
        proof {
            lemma_tool_model_missing(self.tools@, idx as int);
        }
        None
    }

    /// Store `t` under `idx`, replacing the entry or appending a new
    /// one; in the map this rewrites `idx` and nothing else.
    fn upsert_tool(&mut self, idx: u64, t: ToolState)
        requires
            old(self).wf(),
        ensures
            final(self).wf(),
            final(self).bed == old(self).bed,
            final(self).fan_speed == old(self).fan_speed,
            final(self).ready == old(self).ready,
            final(self).last_error == old(self).last_error,
            tool_model(final(self).tools@, idx as int) == Some(t),
            forall|j: int|
                j != idx ==> #[trigger] tool_model(final(self).tools@, j) == tool_model(
                    old(self).tools@,
                    j,
                ),
    {
        let mut k: usize = 0;
        while k < self.tools.len()
            invariant
                0 <= k <= self.tools@.len(),
                self == old(self),
                old(self).wf(),
                forall|m: int| 0 <= m < k ==> (#[trigger] self.tools@[m]).0 != idx,
            decreases self.tools@.len() - k,
        {
            if self.tools[k].0 == idx {
                let ghost pre = self.tools@;
                self.tools.set(k, (idx, t));
                proof {
                    assert(self.tools@ =~= pre.update(k as int, (idx, t)));
                    assert(tools_unique(pre));
                    assert(pre[k as int].0 == idx);
                    lemma_tool_model_update(pre, k as int, idx, t);
                    assert forall|a: int, b: int|
                        0 <= a < b < self.tools@.len() implies (#[trigger] self.tools@[a]).0 != (
                    #[trigger] self.tools@[b]).0 by {
                        assert(self.tools@[a].0 == pre[a].0);
                        assert(self.tools@[b].0 == pre[b].0);
                        assert(pre[a].0 != pre[b].0);
                    }
                }
                return ;
            }
            k = k + 1;
        }
        let ghost pre = self.tools@;
        self.tools.push((idx, t));
        proof {
            assert(self.tools@ =~= pre.push((idx, t)));
            lemma_tool_model_push(pre, idx, t);
            assert forall|a: int, b: int|
                0 <= a < b < self.tools@.len() implies (#[trigger] self.tools@[a]).0 != (
            #[trigger] self.tools@[b]).0 by {
                if b < self.tools@.len() - 1 {
                    assert(pre[a].0 != pre[b].0);
                } else {
                    assert(self.tools@[a] == pre[a]);
                    assert(pre[a].0 != idx);
                }
            }
        }
    }

    /// The tool's current state, or a default when not yet reported.
    fn tool_or_default(&self, idx: u64) -> (r: ToolState)
        ensures
            r == (match tool_model(self.tools@, idx as int) {
                Some(t) => t,
                None => spec_default_tool(),
            }),
    {
        match self.tool(idx) {
            Some(t) => *t,
            None => ToolState::default(),
        }
    }
}

impl Default for PrinterState {
    /// No tools reported, everything cold, not ready, no error.
    fn default() -> (r: Self)
        ensures
            r.wf(),
            r.tools@.len() == 0,
            r.bed == spec_default_tool(),
            r.fan_speed == 0,
            r.ready == false,
            r.last_error is None,
    {
        PrinterState {
            tools: Vec::new(),
            bed: ToolState::default(),
            fan_speed: 0,
            ready: false,
            last_error: None,
        }
    }
}

/// Position `p` starts a token: the line's start, or right after a
/// space or tab.
pub open spec fn spec_tok_start(s: Seq<u8>, p: int) -> bool {
    p == 0 || s[p - 1] == 32 || s[p - 1] == 9
}

/// The line carries a firmware error: the word `Error` at a token
/// start, followed by a colon or a space.
pub open spec fn spec_has_error(s: Seq<u8>) -> bool {
    exists|i: int|
        0 <= i && i + 6 <= s.len() && spec_tok_start(s, i) && (#[trigger] s[i]) == 69 && s[i + 1]
            == 114 && s[i + 2] == 114 && s[i + 3] == 111 && s[i + 4] == 114 && (s[i + 5] == 58 || s[
            i + 5
        ] == 32)
}

/// The byte sequence begins with `ok`.
pub open spec fn spec_starts_ok(s: Seq<u8>) -> bool {
    s.len() >= 2 && s[0] == 111 && s[1] == 107
}

/// Does the line report a firmware error?
pub fn line_has_error(line: &[u8]) -> (r: bool)
    ensures
        r == spec_has_error(line@),
{
    if line.len() < 6 {
        return false;
    }
    let last = line.len() - 6;
    let mut i: usize = 0;
    while i <= last
        invariant
            0 <= i <= last + 1,
            last == line@.len() - 6,
            forall|m: int|
                0 <= m < i && m + 6 <= line@.len() ==> !(spec_tok_start(line@, m) && (
                #[trigger] line@[m]) == 69 && line@[m + 1] == 114 && line@[m + 2] == 114 && line@[m
                    + 3] == 111 && line@[m + 4] == 114 && (line@[m + 5] == 58 || line@[m + 5]
                    == 32)),
        decreases last + 1 - i,
    {
        let at_start = i == 0 || line[i - 1] == 32 || line[i - 1] == 9;
        if at_start && line[i] == 69 && line[i + 1] == 114 && line[i + 2] == 114 && line[i + 3]
            == 111 && line[i + 4] == 114 && (line[i + 5] == 58 || line[i + 5] == 32) {
            return true;
        }
        i = i + 1;
    }
    false
}

/// `needle` occurs at position `p` of `s`.
pub open spec fn spec_match_at(s: Seq<u8>, needle: Seq<u8>, p: int) -> bool {
    0 <= p && p + needle.len() <= s.len() && (forall|t: int|
        0 <= t < needle.len() ==> s[p + t] == needle[t])
}

/// The first occurrence of `needle` at or after `i`, if any.
pub open spec fn spec_first_match(s: Seq<u8>, needle: Seq<u8>, i: int) -> Option<int>
    decreases s.len() - i,
{
    if needle.len() == 0 || i < 0 || i + needle.len() > s.len() {
        None
    } else if spec_match_at(s, needle, i) {
        Some(i)
    } else {
        spec_first_match(s, needle, i + 1)
    }
}

/// `needle` occurs somewhere in `s`.
pub open spec fn spec_has_sub(s: Seq<u8>, needle: Seq<u8>) -> bool {
    exists|p: int| spec_match_at(s, needle, p)
}

/// A match preceded only by mismatches is the first match.
proof fn lemma_first_match_from(s: Seq<u8>, needle: Seq<u8>, i: int, p: int)
    requires
        needle.len() >= 1,
        0 <= i <= p,
        spec_match_at(s, needle, p),
        forall|q: int| i <= q < p ==> !spec_match_at(s, needle, q),
    ensures
        spec_first_match(s, needle, i) == Some(p),
    decreases p - i,
{
    if i < p {
        lemma_first_match_from(s, needle, i + 1, p);
    }
}

/// With no match anywhere there is no first match.
proof fn lemma_no_first_match(s: Seq<u8>, needle: Seq<u8>, i: int)
    requires
        0 <= i,
        forall|q: int| !spec_match_at(s, needle, q),
    ensures
        spec_first_match(s, needle, i) is None,
    decreases s.len() - i,
{
    if !(needle.len() == 0 || i + needle.len() > s.len()) {
        lemma_no_first_match(s, needle, i + 1);
    }
}

/// Find the first occurrence of `needle` in `line`: `Some` returns it,
/// `None` means it occurs nowhere.
fn find_sub(line: &[u8], needle: &[u8]) -> (r: Option<usize>)
    requires
        needle@.len() >= 1,
    ensures
        match r {
            Some(p) => spec_match_at(line@, needle@, p as int) && spec_first_match(
                line@,
                needle@,
                0,
            ) == Some(p as int),
            None => !spec_has_sub(line@, needle@) && spec_first_match(line@, needle@, 0) is None,
        },
{
    if line.len() < needle.len() {
        proof {
            assert forall|p: int| !spec_match_at(line@, needle@, p) by {};
            lemma_no_first_match(line@, needle@, 0);
        }
        return None;
    }
    let last = line.len() - needle.len();
    let mut i: usize = 0;
    while i <= last
        invariant
            0 <= i <= last + 1,
            needle@.len() >= 1,
            line@.len() <= usize::MAX,
            last == line@.len() - needle@.len(),
            forall|q: int| 0 <= q < i ==> !spec_match_at(line@, needle@, q),
        decreases last + 1 - i,
    {
        let mut m: usize = 0;
        let mut all = true;
        while m < needle.len()
            invariant
                0 <= m <= needle@.len(),
                i + needle@.len() <= line@.len(),
                line@.len() <= usize::MAX,
                all ==> forall|t: int| 0 <= t < m ==> line@[i + t] == needle@[t],
                !all ==> !spec_match_at(line@, needle@, i as int),
            decreases needle@.len() - m,
        {
            if line[i + m] != needle[m] {
                proof {
                    assert(line@[i + m] != needle@[m as int]);
                    assert(!spec_match_at(line@, needle@, i as int));
                }
                all = false;
            }
            m = m + 1;
        }
        if all {
            proof {
                assert(spec_match_at(line@, needle@, i as int));
                lemma_first_match_from(line@, needle@, 0, i as int);
            }
            return Some(i);
        }
        i = i + 1;
    }
    proof {
        assert forall|p: int| !spec_match_at(line@, needle@, p) by {
            if 0 <= p <= last {
                assert(!spec_match_at(line@, needle@, p));
            }
        }
        lemma_no_first_match(line@, needle@, 0);
    }
    None
}

/// Parse the decimal number at `line[i..]`, in thousandths, exactly as
/// `spec_number_at` reads it.
fn parse_value_e3(line: &[u8], i: usize) -> (r: Option<(i64, usize)>)
    requires
        i <= line@.len(),
    ensures
        match r {
            Some(v) => i < v.1 <= line@.len() && -crate::parser::VALUE_SAT_E3 <= v.0
                <= crate::parser::VALUE_SAT_E3 && spec_number_at(line@, i as int) == Some(
                (v.0 as int, v.1 as int),
            ),
            None => spec_number_at(line@, i as int) is None,
        },
{
    scan_number_at(line, i)
}

/// The first index at or after `i` that is not a space or tab.
pub open spec fn spec_skip_ws(s: Seq<u8>, i: int) -> int
    decreases s.len() - i,
{
    if 0 <= i < s.len() && (s[i] == 32 || s[i] == 9) {
        spec_skip_ws(s, i + 1)
    } else {
        i
    }
}

/// Walk past spaces and tabs.
fn skip_ws(line: &[u8], i: usize) -> (r: usize)
    requires
        i <= line@.len(),
    ensures
        i <= r <= line@.len(),
        r == spec_skip_ws(line@, i as int),
    decreases line@.len() - i,
{
    if i < line.len() && (line[i] == 32 || line[i] == 9) {
        skip_ws(line, i + 1)
    } else {
        i
    }
}

/// The `cur/tgt` temperature pair at `i`: a number, an optionally
/// space-framed slash, and a second number, both in thousandths.
pub open spec fn spec_temp_pair_at(s: Seq<u8>, i: int) -> Option<(int, int)> {
    match spec_number_at(s, i) {
        Some((cur, next)) => {
            let j = spec_skip_ws(s, next);
            if j < s.len() && s[j] == 47 {
                let k = spec_skip_ws(s, j + 1);
                match spec_number_at(s, k) {
                    Some((tgt, _)) => Some((cur, tgt)),
                    None => None,
                }
            } else {
                None
            }
        },
        None => None,
    }
}

/// Parse a `cur/tgt` pair of decimal temperatures, exactly as
/// `spec_temp_pair_at` reads it.
pub fn parse_temp_pair(line: &[u8], i: usize) -> (r: Option<(i64, i64)>)
    requires
        i <= line@.len(),
    ensures
        match r {
            Some(v) => spec_temp_pair_at(line@, i as int) == Some((v.0 as int, v.1 as int))
                && -crate::parser::VALUE_SAT_E3 <= v.0 <= crate::parser::VALUE_SAT_E3
                && -crate::parser::VALUE_SAT_E3 <= v.1 <= crate::parser::VALUE_SAT_E3,
            None => spec_temp_pair_at(line@, i as int) is None,
        },
{
    match parse_value_e3(line, i) {
        Some((cur, next)) => {
            let j = skip_ws(line, next);
            if j < line.len() && line[j] == 47 {
                let k = skip_ws(line, j + 1);
                match parse_value_e3(line, k) {
                    Some((tgt, _)) => Some((cur, tgt)),
                    None => None,
                }
            } else {
                // a bare current reading keeps the slot's target
                None
            }
        },
        None => None,
    }
}

/// The `T` token at `p`: index digits (saturating), a colon, and a
/// temperature pair.
pub open spec fn spec_t_token(s: Seq<u8>, p: int) -> Option<(int, int, int)> {
    if 0 <= p < s.len() && spec_tok_start(s, p) && s[p] == 84 {
        let run = digit_run(s, p + 1);
        let c = p + 1 + run.len();
        if c < s.len() && s[c] == 58 {
            match spec_temp_pair_at(s, c + 1) {
                Some((cur, tgt)) => Some((spec_digits_sat(run, 0), cur, tgt)),
                None => None,
            }
        } else {
            None
        }
    } else {
        None
    }
}

/// The `B:` token at `p`: a temperature pair for the bed.
pub open spec fn spec_b_token(s: Seq<u8>, p: int) -> Option<(int, int)> {
    if 0 <= p && p + 1 < s.len() && spec_tok_start(s, p) && s[p] == 66 && s[p + 1] == 58 {
        spec_temp_pair_at(s, p + 2)
    } else {
        None
    }
}

/// The bed state once the first `i` positions of a temperature report
/// were read: each `B:` token overwrites the bed temperatures.
pub open spec fn spec_bed_after(s: Seq<u8>, i: int, base: ToolState) -> ToolState
    decreases i,
{
    if i <= 0 {
        base
    } else {
        let prev = spec_bed_after(s, i - 1, base);
        match spec_b_token(s, i - 1) {
            Some((cur, tgt)) => ToolState { temp_mc: cur as i64, target_mc: tgt as i64, ..prev },
            None => prev,
        }
    }
}

/// Tool `idx`'s map entry once the first `i` positions of a temperature
/// report were read: each `T` token with this index overwrites its
/// temperatures, creating the slot from defaults if absent.
pub open spec fn spec_tool_after(s: Seq<u8>, i: int, idx: int, base: Option<ToolState>) -> Option<
    ToolState,
>
    decreases i,
{
    if i <= 0 {
        base
    } else {
        let prev = spec_tool_after(s, i - 1, idx, base);
        match spec_t_token(s, i - 1) {
            Some((tix, cur, tgt)) => if tix == idx {
                let b = match prev {
                    Some(x) => x,
                    None => spec_default_tool(),
                };
                Some(ToolState { temp_mc: cur as i64, target_mc: tgt as i64, ..b })
            } else {
                prev
            },
            None => prev,
        }
    }
}

/// The position token at `p`: an `X:`/`Y:`/`Z:`/`E:` axis letter at a
/// token start whose suffix parses as a number.
pub open spec fn spec_pos_token(s: Seq<u8>, p: int) -> Option<(u8, int)> {
    if 0 <= p && p + 1 < s.len() && spec_tok_start(s, p) && s[p + 1] == 58 && (s[p] == 88 || s[p]
        == 89 || s[p] == 90 || s[p] == 69) {
        match spec_number_at(s, p + 2) {
            Some((v, _)) => Some((s[p], v)),
            None => None,
        }
    } else {
        None
    }
}

/// Tool 0's axis readings once the first `i` positions of a position
/// report were read: each axis token overwrites its coordinate.
pub open spec fn spec_pos_after(s: Seq<u8>, i: int, base: ToolState) -> ToolState
    decreases i,
{
    if i <= 0 {
        base
    } else {
        let prev = spec_pos_after(s, i - 1, base);
        match spec_pos_token(s, i - 1) {
            Some((c, v)) => if c == 88 {
                ToolState { x_um: v as i64, ..prev }
            } else if c == 89 {
                ToolState { y_um: v as i64, ..prev }
            } else if c == 90 {
                ToolState { z_um: v as i64, ..prev }
            } else {
                ToolState { e_um: v as i64, ..prev }
            },
            None => prev,
        }
    }
}

/// The line is a position report: it contains `X:`, `Y:` and `Z:`.
pub open spec fn spec_has_xyz(s: Seq<u8>) -> bool {
    &&& spec_has_sub(s, seq![88u8, 58u8])
    &&& spec_has_sub(s, seq![89u8, 58u8])
    &&& spec_has_sub(s, seq![90u8, 58u8])
}

/// The fan speed a line commands: with `FAN` present somewhere and the
/// number after the first `speed:` a whole byte, that byte; otherwise
/// the old speed.
pub open spec fn spec_fan_after(s: Seq<u8>, old_fan: u8) -> int {
    if spec_has_sub(s, seq![70u8, 65u8, 78u8]) {
        match spec_first_match(s, seq![115u8, 112u8, 101u8, 101u8, 100u8, 58u8], 0) {
            Some(p) => match spec_number_at(s, p + 6) {
                Some((v, _)) => if 0 <= v <= 255_000 && v % 1000 == 0 {
                    v / 1000
                } else {
                    old_fan as int
                },
                None => old_fan as int,
            },
            None => old_fan as int,
        }
    } else {
        old_fan as int
    }
}

impl PrinterState {
    /// Fold one trimmed firmware line into the state.
    ///
    /// Recognition order: a line carrying a firmware error records it
    /// verbatim and changes nothing else; a line starting with `ok`
    /// marks the printer ready and changes nothing else; any other line
    /// applies its temperature, position and fan reports, in that
    /// order, touching only the slots their tokens name.
    pub fn update_from_line(&mut self, line: &[u8])
        requires
            old(self).wf(),
        ensures
            final(self).wf(),
            spec_has_error(line@) ==> (final(self).last_error is Some)
                && final(self).last_error.unwrap()@ == line@
                && final(self).ready == old(self).ready
                && final(self).tools@ == old(self).tools@
                && final(self).bed == old(self).bed
                && final(self).fan_speed == old(self).fan_speed,
            !spec_has_error(line@) && spec_starts_ok(line@) ==> final(self).ready == true
                && final(self).last_error == old(self).last_error
                && final(self).tools@ == old(self).tools@
                && final(self).bed == old(self).bed
                && final(self).fan_speed == old(self).fan_speed,
            !spec_has_error(line@) && !spec_starts_ok(line@) && line@.len() > 0 ==> final(self).ready == old(self).ready && final(self).last_error == old(self).last_error
                && spec_reports_applied(line@, *old(self), *final(self)),
            line@.len() == 0 ==> final(self).tools@ == old(self).tools@ && final(self).bed == old(self).bed && final(self).fan_speed == old(self).fan_speed && final(self).ready == old(self).ready && final(self).last_error == old(self).last_error,
    {
        if line.len() == 0 {
            return ;
        }
        if line_has_error(line) {
            let mut copy: Vec<u8> = Vec::new();
            let mut k: usize = 0;
            while k < line.len()
                invariant
                    0 <= k <= line@.len(),
                    copy@ == line@.take(k as int),
                decreases line@.len() - k,
            {
                copy.push(line[k]);
                proof {
                    assert(line@.take(k + 1) =~= line@.take(k as int).push(line@[k as int]));
                }
                k = k + 1;
            }
            proof {
                assert(line@.take(line@.len() as int) =~= line@);
            }
            self.last_error = Some(copy);
            return ;
        }
        if line.len() >= 2 && line[0] == 111 && line[1] == 107 {
            self.ready = true;
            return ;
        }
        self.scan_reports(line);
    }

    /// Rules three to five: temperature, position and fan reports, which
    /// may share one line, applied in that order.
    fn scan_reports(&mut self, line: &[u8])
        requires
            old(self).wf(),
        ensures
            final(self).wf(),
            final(self).ready == old(self).ready,
            final(self).last_error == old(self).last_error,
            spec_reports_applied(line@, *old(self), *final(self)),
    {
        self.parse_temperature_report(line);
        self.parse_position_report(line);
        self.parse_fan_report(line);
    }

    /// `T<idx>:cur/tgt`, `T:cur/tgt` and `B:cur/tgt` tokens update
    /// exactly the heater slots they name; a malformed pair leaves its
    /// slot unchanged, and the last token of a slot wins.
    #[verifier::rlimit(100)]
    #[verifier::spinoff_prover]
    pub fn parse_temperature_report(&mut self, line: &[u8])
        requires
            old(self).wf(),
        ensures
            final(self).wf(),
            final(self).ready == old(self).ready,
            final(self).last_error == old(self).last_error,
            final(self).fan_speed == old(self).fan_speed,
            final(self).bed == spec_bed_after(line@, line@.len() as int, old(self).bed),
            forall|idx: int|
                #[trigger] tool_model(final(self).tools@, idx) == spec_tool_after(
                    line@,
                    line@.len() as int,
                    idx,
                    tool_model(old(self).tools@, idx),
                ),
    {
        let mut i: usize = 0;
        while i < line.len()
            invariant
                0 <= i <= line@.len(),
                self.wf(),
                self.ready == old(self).ready,
                self.last_error == old(self).last_error,
                self.fan_speed == old(self).fan_speed,
                self.bed == spec_bed_after(line@, i as int, old(self).bed),
                forall|idx: int|
                    #[trigger] tool_model(self.tools@, idx) == spec_tool_after(
                        line@,
                        i as int,
                        idx,
                        tool_model(old(self).tools@, idx),
                    ),
            decreases line@.len() - i,
        {
            let c = line[i];
            let at_start = i == 0 || line[i - 1] == 32 || line[i - 1] == 9;
            proof {
                assert(at_start == spec_tok_start(line@, i as int));
            }
            if at_start && c == 84 {
                // T token: index digits, a colon, then the pair
                proof {
                    assert(digit_run(line@, i + 1).len() >= 0);
                }
                let (idxv, j) = scan_digits(line, i + 1, 0);
                let idx = idxv as u64;
                if j < line.len() && line[j] == 58 {
                    match parse_temp_pair(line, j + 1) {
                        Some((cur, tgt)) => {
                            let mut t = self.tool_or_default(idx);
                            t.temp_mc = cur;
                            t.target_mc = tgt;
                            self.upsert_tool(idx, t);
                            proof {
                                assert(spec_t_token(line@, i as int) == Some(
                                    (idx as int, cur as int, tgt as int),
                                ));
                            }
                        },
                        None => {
                            proof {
                                assert(spec_t_token(line@, i as int) is None);
                            }
                        },
                    }
                } else {
                    proof {
                        assert(spec_t_token(line@, i as int) is None);
                    }
                }
                proof {
                    assert(spec_b_token(line@, i as int) is None);
                    lemma_temp_step(line@, i as int);
                }
                i = i + 1;
            } else if at_start && c == 66 && i + 1 < line.len() && line[i + 1] == 58 {
                // B: bed temperatures
                match parse_temp_pair(line, i + 2) {
                    Some((cur, tgt)) => {
                        self.bed.temp_mc = cur;
                        self.bed.target_mc = tgt;
                        proof {
                            assert(spec_b_token(line@, i as int) == Some((cur as int, tgt as int)));
                        }
                    },
                    None => {
                        proof {
                            assert(spec_b_token(line@, i as int) is None);
                        }
                    },
                }
                proof {
                    assert(spec_t_token(line@, i as int) is None);
                    lemma_temp_step(line@, i as int);
                }
                i = i + 1;
            } else {
                proof {
                    assert(spec_t_token(line@, i as int) is None);
                    assert(spec_b_token(line@, i as int) is None);
                    lemma_temp_step(line@, i as int);
                }
                i = i + 1;
            }
        }
    }

    /// With `X:`, `Y:` and `Z:` all present, each axis token assigns
    /// tool 0's coordinate, the last token of an axis winning; without
    /// them the line is no position report and nothing changes.
    #[verifier::rlimit(100)]
    #[verifier::spinoff_prover]
    pub fn parse_position_report(&mut self, line: &[u8])
        requires
            old(self).wf(),
        ensures
            final(self).wf(),
            final(self).ready == old(self).ready,
            final(self).last_error == old(self).last_error,
            final(self).fan_speed == old(self).fan_speed,
            final(self).bed == old(self).bed,
            !spec_has_xyz(line@) ==> final(self).tools@ == old(self).tools@,
            spec_has_xyz(line@) ==> tool_model(final(self).tools@, 0) == Some(
                spec_pos_after(
                    line@,
                    line@.len() as int,
                    match tool_model(old(self).tools@, 0) {
                        Some(t) => t,
                        None => spec_default_tool(),
                    },
                ),
            ) && (forall|j: int|
                j != 0 ==> #[trigger] tool_model(final(self).tools@, j) == tool_model(
                    old(self).tools@,
                    j,
                )),
    {
        let x_needle = [88u8, 58u8];
        let y_needle = [89u8, 58u8];
        let z_needle = [90u8, 58u8];
        proof {
            assert(x_needle@ =~= seq![88u8, 58u8]);
            assert(y_needle@ =~= seq![89u8, 58u8]);
            assert(z_needle@ =~= seq![90u8, 58u8]);
        }
        let has_x = find_sub(line, x_needle.as_slice()).is_some();
        let has_y = find_sub(line, y_needle.as_slice()).is_some();
        let has_z = find_sub(line, z_needle.as_slice()).is_some();
        if !(has_x && has_y && has_z) {
            proof {
                assert(!spec_has_xyz(line@));
            }
            return ;
        }
        proof {
            assert(spec_has_xyz(line@));
        }
        let ghost base = match tool_model(old(self).tools@, 0) {
            Some(t) => t,
            None => spec_default_tool(),
        };
        let mut t = self.tool_or_default(0);
        let n = line.len();
        let mut i: usize = 0;
        while 1 < n && i < n - 1
            invariant
                0 <= i <= line@.len(),
                n == line@.len(),
                t == spec_pos_after(line@, i as int, base),
            decreases line@.len() - i,
        {
            let c = line[i];
            let at_start = i == 0 || line[i - 1] == 32 || line[i - 1] == 9;
            proof {
                assert(at_start == spec_tok_start(line@, i as int));
            }
            if at_start && line[i + 1] == 58 && (c == 88 || c == 89 || c == 90 || c == 69) {
                match parse_value_e3(line, i + 2) {
                    Some((v, _)) => {
                        proof {
                            assert(spec_pos_token(line@, i as int) == Some((c, v as int)));
                        }
                        if c == 88 {
                            t.x_um = v;
                        } else if c == 89 {
                            t.y_um = v;
                        } else if c == 90 {
                            t.z_um = v;
                        } else {
                            t.e_um = v;
                        }
                    },
                    None => {
                        proof {
                            assert(spec_pos_token(line@, i as int) is None);
                        }
                    },
                }
            } else {
                proof {
                    assert(spec_pos_token(line@, i as int) is None);
                }
            }
            proof {
                lemma_pos_step(line@, i as int);
            }
            i = i + 1;
        }
        proof {
            if n >= 1 {
                assert(spec_pos_token(line@, n - 1) is None);
                lemma_pos_step(line@, n - 1);
            }
            assert(t == spec_pos_after(line@, line@.len() as int, base));
        }
        self.upsert_tool(0, t);
    }

    /// A line naming `FAN` sets the fan to the whole byte written after
    /// the first `speed:`; anything else leaves the speed alone.
    pub fn parse_fan_report(&mut self, line: &[u8])
        requires
            old(self).wf(),
        ensures
            final(self).wf(),
            final(self).ready == old(self).ready,
            final(self).last_error == old(self).last_error,
            final(self).tools@ == old(self).tools@,
            final(self).bed == old(self).bed,
            final(self).fan_speed == spec_fan_after(line@, old(self).fan_speed),
    {
        let fan_needle = [70u8, 65u8, 78u8];
        let speed_needle = [115u8, 112u8, 101u8, 101u8, 100u8, 58u8];
        proof {
            assert(fan_needle@ =~= seq![70u8, 65u8, 78u8]);
            assert(speed_needle@ =~= seq![115u8, 112u8, 101u8, 101u8, 100u8, 58u8]);
        }
        let has_fan = find_sub(line, fan_needle.as_slice()).is_some();
        let speed_at = find_sub(line, speed_needle.as_slice());
        if !has_fan {
            return ;
        }
        let n = line.len();
        match speed_at {
            Some(p) => {
                proof {
                    assert(speed_needle@.len() == 6);
                    assert(p + 6 <= n);
                }
                match parse_value_e3(line, p + 6) {
                    Some((v, _)) => {
                        if v >= 0 && v <= 255_000 && v % 1000 == 0 {
                            self.fan_speed = (v / 1000) as u8;
                        }
                    },
                    None => {},
                }
            },
            None => {},
        }
    }
}

/// The joint effect of the three report rules on one line: the bed
/// follows its temperature tokens, every tool its `T` tokens, tool 0
/// additionally its position tokens when the line is a position report,
/// and the fan its `speed:` command.
pub open spec fn spec_reports_applied(s: Seq<u8>, pre: PrinterState, post: PrinterState) -> bool {
    &&& post.bed == spec_bed_after(s, s.len() as int, pre.bed)
    &&& post.fan_speed == spec_fan_after(s, pre.fan_speed)
    &&& forall|j: int|
        j != 0 ==> #[trigger] tool_model(post.tools@, j) == spec_tool_after(
            s,
            s.len() as int,
            j,
            tool_model(pre.tools@, j),
        )
    &&& {
        let t0 = spec_tool_after(s, s.len() as int, 0, tool_model(pre.tools@, 0));
        if spec_has_xyz(s) {
            tool_model(post.tools@, 0) == Some(
                spec_pos_after(
                    s,
                    s.len() as int,
                    match t0 {
                        Some(t) => t,
                        None => spec_default_tool(),
                    },
                ),
            )
        } else {
            tool_model(post.tools@, 0) == t0
        }
    }
}

/// Unfolding the temperature folds one position at the end.
proof fn lemma_temp_step(s: Seq<u8>, i: int)
    requires
        0 <= i,
    ensures
        forall|base: ToolState|
            #[trigger] spec_bed_after(s, i + 1, base) == (match spec_b_token(s, i) {
                Some((cur, tgt)) => ToolState {
                    temp_mc: cur as i64,
                    target_mc: tgt as i64,
                    ..spec_bed_after(s, i, base)
                },
                None => spec_bed_after(s, i, base),
            }),
        forall|idx: int, base: Option<ToolState>|
            #[trigger] spec_tool_after(s, i + 1, idx, base) == (match spec_t_token(s, i) {
                Some((tix, cur, tgt)) => if tix == idx {
                    Some(
                        ToolState {
                            temp_mc: cur as i64,
                            target_mc: tgt as i64,
                            ..(match spec_tool_after(s, i, idx, base) {
                                Some(x) => x,
                                None => spec_default_tool(),
                            })
                        },
                    )
                } else {
                    spec_tool_after(s, i, idx, base)
                },
                None => spec_tool_after(s, i, idx, base),
            }),
{
}

/// Unfolding the position fold one position at the end.
proof fn lemma_pos_step(s: Seq<u8>, i: int)
    requires
        0 <= i,
    ensures
        forall|base: ToolState|
            #[trigger] spec_pos_after(s, i + 1, base) == (match spec_pos_token(s, i) {
                Some((c, v)) => if c == 88 {
                    ToolState { x_um: v as i64, ..spec_pos_after(s, i, base) }
                } else if c == 89 {
                    ToolState { y_um: v as i64, ..spec_pos_after(s, i, base) }
                } else if c == 90 {
                    ToolState { z_um: v as i64, ..spec_pos_after(s, i, base) }
                } else {
                    ToolState { e_um: v as i64, ..spec_pos_after(s, i, base) }
                },
                None => spec_pos_after(s, i, base),
            }),
{
}

} // verus!
