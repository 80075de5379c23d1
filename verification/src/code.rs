//! The G-code command model: words, commands, lines, and the per-letter
//! argument-range index.
//!
//! `ArgGroups` keeps, for every letter A-Z, the maximal spans of
//! consecutive commanded lines on which that letter's argument value is
//! stable.  Its buckets are sorted by span start and never overlap, and a
//! lookup returns exactly the spans that contain a line.

use vstd::prelude::*;

verus! {

/// Command class of a G-code: the leading letter.
#[derive(Debug, Clone, Copy, PartialEq, Eq, Structural)]
pub enum Mnemonic {
    /// `G` codes: motion and modal state.
    General,
    /// `M` codes: machine functions.
    Miscellaneous,
    /// `O` codes: program numbers.
    ProgramNumber,
    /// `T` codes: tool selection.
    ToolChange,
}

/// One `letter = value` argument; the value is held in thousandths.
#[derive(Debug, Clone, Copy, PartialEq, Eq, Structural)]
pub struct Word {
    /// ASCII letter as written in the program.
    pub letter: u8,
    /// Fixed-point value, in thousandths of the program's unit.
    pub value_e3: i64,
}

/// A parsed command: mnemonic, major and minor number, and arguments.
#[derive(Debug, Clone)]
pub struct GCode {
    pub mnemonic: Mnemonic,
    pub major: u32,
    pub minor: u32,
    pub arguments: Vec<Word>,
}

/// Uppercase an ASCII letter; other bytes come back unchanged.
pub open spec fn spec_upper(c: u8) -> u8 {
    if 97 <= c <= 122 {
        (c - 32) as u8
    } else {
        c
    }
}

impl GCode {
    /// The value of the first argument whose letter matches `letter`,
    /// compared without regard to case.
    pub open spec fn spec_value_for(self, letter: u8) -> Option<i64> {
        Self::spec_value_in(self.arguments@, letter)
    }

    /// First match of `letter` in a word sequence, case-insensitive.
    pub open spec fn spec_value_in(ws: Seq<Word>, letter: u8) -> Option<i64>
        decreases ws.len(),
    {
        if ws.len() == 0 {
            None
        } else if spec_upper(ws[0].letter) == spec_upper(letter) {
            Some(ws[0].value_e3)
        } else {
            Self::spec_value_in(ws.skip(1), letter)
        }
    }

    /// Look up an argument by letter, ignoring case.
    pub fn value_for(&self, letter: u8) -> (r: Option<i64>)
        ensures
            r == self.spec_value_for(letter),
    {
        let mut i: usize = 0;
        let target = upper(letter);
        proof {
            assert(self.arguments@.skip(0) =~= self.arguments@);
        }
        while i < self.arguments.len()
            invariant
                0 <= i <= self.arguments@.len(),
                target == spec_upper(letter),
                Self::spec_value_in(self.arguments@, letter) == Self::spec_value_in(
                    self.arguments@.skip(i as int),
                    letter,
                ),
            decreases self.arguments@.len() - i,
        {
            let w = self.arguments[i];
            proof {
                assert(self.arguments@.skip(i as int)[0] == self.arguments@[i as int]);
                assert(self.arguments@.skip(i as int).skip(1) =~= self.arguments@.skip(i + 1));
            }
            if upper(w.letter) == target {
                return Some(w.value_e3);
            }
            i = i + 1;
        }
        proof {
            assert(self.arguments@.skip(i as int).len() == 0);
        }
        None
    }
}

/// Two commands carry the same content: equal header and equal
/// argument words.
pub open spec fn code_like(a: GCode, b: GCode) -> bool {
    &&& a.mnemonic == b.mnemonic
    &&& a.major == b.major
    &&& a.minor == b.minor
    &&& a.arguments@ == b.arguments@
}

/// Deep copy of one command.
pub fn copy_gcode(g: &GCode) -> (r: GCode)
    ensures
        code_like(r, *g),
        r.mnemonic == g.mnemonic,
        r.major == g.major,
        r.minor == g.minor,
        r.arguments@ == g.arguments@,
{
    let mut arguments: Vec<Word> = Vec::new();
    let mut i: usize = 0;
    while i < g.arguments.len()
        invariant
            0 <= i <= g.arguments@.len(),
            arguments@ == g.arguments@.take(i as int),
        decreases g.arguments@.len() - i,
    {
        arguments.push(g.arguments[i]);
        proof {
            assert(g.arguments@.take(i + 1) =~= g.arguments@.take(i as int).push(
                g.arguments@[i as int],
            ));
        }
        i = i + 1;
    }
    proof {
        assert(g.arguments@.take(g.arguments@.len() as int) =~= g.arguments@);
    }
    GCode { mnemonic: g.mnemonic, major: g.major, minor: g.minor, arguments }
}

/// Uppercase an ASCII letter; other bytes come back unchanged.
pub fn upper(c: u8) -> (r: u8)
    ensures
        r == spec_upper(c),
{
    if 97 <= c && c <= 122 {
        c - 32
    } else {
        c
    }
}

/// One line of a program's text: blank, or a commanded line that carries
/// zero or more codes and zero or more comments.
#[derive(Debug, Clone)]
pub enum GCodeLine {
    Empty,
    Command { gcodes: Vec<GCode>, comments: Vec<Vec<u8>> },
}

/// A maximal span of lines `[start, end)` on which one letter's argument
/// value is stable, together with that argument.
#[derive(Debug, Clone, Copy, PartialEq, Eq, Structural)]
pub struct ArgRange {
    pub start: usize,
    pub end: usize,
    pub word: Word,
}

impl ArgRange {
    pub fn new(start: usize, end: usize, word: Word) -> (r: Self)
        ensures
            r == (ArgRange { start, end, word }),
    {
        ArgRange { start, end, word }
    }

    /// The half-open line span of this entry.
    pub fn range(&self) -> (r: (usize, usize))
        ensures
            r.0 == self.start,
            r.1 == self.end,
    {
        (self.start, self.end)
    }

    /// The stable argument of this entry.
    pub fn argument(&self) -> (r: Word)
        ensures
            r == self.word,
    {
        self.word
    }

    /// True when the span contains `line`.
    pub open spec fn spec_contains(self, line: int) -> bool {
        self.start <= line < self.end
    }
}

/// Bucket index of a word's letter, or -1 for a byte outside A-Z/a-z.
pub open spec fn word_bucket(w: Word) -> int {
    if 65 <= spec_upper(w.letter) <= 90 {
        spec_upper(w.letter) - 65
    } else {
        -1
    }
}

/// Advance the active run of one letter by one argument word: an equal
/// word continues the run, a different one starts a new run at `line_no`.
pub open spec fn step_word(acc: Option<(int, Word)>, w: Word, line_no: int) -> Option<(int, Word)> {
    match acc {
        Some((s, pw)) => if pw == w {
            acc
        } else {
            Some((line_no, w))
        },
        None => Some((line_no, w)),
    }
}

/// Fold every word of bucket `l` in `ws` onto the active run.
pub open spec fn fold_words(
    acc: Option<(int, Word)>,
    ws: Seq<Word>,
    l: int,
    line_no: int,
) -> Option<(int, Word)>
    decreases ws.len(),
{
    if ws.len() == 0 {
        acc
    } else {
        let acc2 = if word_bucket(ws[0]) == l {
            step_word(acc, ws[0], line_no)
        } else {
            acc
        };
        fold_words(acc2, ws.skip(1), l, line_no)
    }
}

/// Fold the argument lists of every code on a line.
pub open spec fn fold_groups(
    acc: Option<(int, Word)>,
    gs: Seq<Seq<Word>>,
    l: int,
    line_no: int,
) -> Option<(int, Word)>
    decreases gs.len(),
{
    if gs.len() == 0 {
        acc
    } else {
        fold_groups(fold_words(acc, gs[0], l, line_no), gs.skip(1), l, line_no)
    }
}

/// The argument lists a line contributes to the index.
pub open spec fn line_groups(line: GCodeLine) -> Seq<Seq<Word>> {
    match line {
        GCodeLine::Empty => Seq::empty(),
        GCodeLine::Command { gcodes, .. } => gcodes@.map_values(|g: GCode| g.arguments@),
    }
}

/// The active run of bucket `l` after the first `i` lines were read.
pub open spec fn active_after(lines: Seq<GCodeLine>, l: int, i: int) -> Option<(int, Word)>
    decreases i,
{
    if i <= 0 {
        None
    } else {
        fold_groups(active_after(lines, l, i - 1), line_groups(lines[i - 1]), l, i - 1)
    }
}

/// The run that governs bucket `l` at line `j`: the one active once line
/// `j` has been read.
pub open spec fn run_of(lines: Seq<GCodeLine>, l: int, j: int) -> Option<(int, Word)> {
    active_after(lines, l, j + 1)
}

/// A word fold either leaves the active run unchanged or starts a run on
/// the line being read.
proof fn lemma_fold_words_shape(acc: Option<(int, Word)>, ws: Seq<Word>, l: int, n: int)
    ensures
        fold_words(acc, ws, l, n) == acc || exists|w: Word|
            fold_words(acc, ws, l, n) == Some((n, w)),
    decreases ws.len(),
{
    if ws.len() > 0 {
        let acc2 = if word_bucket(ws[0]) == l {
            step_word(acc, ws[0], n)
        } else {
            acc
        };
        lemma_fold_words_shape(acc2, ws.skip(1), l, n);
    }
}

/// A line fold either leaves the active run unchanged or starts a run on
/// the line being read.
proof fn lemma_fold_groups_shape(acc: Option<(int, Word)>, gs: Seq<Seq<Word>>, l: int, n: int)
    ensures
        fold_groups(acc, gs, l, n) == acc || exists|w: Word|
            fold_groups(acc, gs, l, n) == Some((n, w)),
    decreases gs.len(),
{
    if gs.len() > 0 {
        lemma_fold_words_shape(acc, gs[0], l, n);
        let acc2 = fold_words(acc, gs[0], l, n);
        lemma_fold_groups_shape(acc2, gs.skip(1), l, n);
    }
}

/// A run that is active later and began before `t1` was already active at
/// `t1`: runs change only at the line that starts them.
proof fn lemma_active_stable(lines: Seq<GCodeLine>, l: int, s: int, w: Word, t1: int, t2: int)
    requires
        0 <= t1 <= t2,
        active_after(lines, l, t2) == Some((s, w)),
        s < t1,
    ensures
        active_after(lines, l, t1) == Some((s, w)),
    decreases t2 - t1,
{
    if t1 < t2 {
        lemma_fold_groups_shape(active_after(lines, l, t2 - 1), line_groups(lines[t2 - 1]), l, t2 - 1);
        assert(active_after(lines, l, t2 - 1) == Some((s, w)));
        lemma_active_stable(lines, l, s, w, t1, t2 - 1);
    }
}

/// Before any run has started, none was ever active.
proof fn lemma_active_none_before(lines: Seq<GCodeLine>, l: int, t1: int, t2: int)
    requires
        0 <= t1 <= t2,
        active_after(lines, l, t2) is None,
    ensures
        active_after(lines, l, t1) is None,
    decreases t2 - t1,
{
    if t1 < t2 {
        lemma_fold_groups_shape(active_after(lines, l, t2 - 1), line_groups(lines[t2 - 1]), l, t2 - 1);
        assert(active_after(lines, l, t2 - 1) is None);
        lemma_active_none_before(lines, l, t1, t2 - 1);
    }
}

/// Unfolding a word fold one element at the end.
proof fn lemma_fold_words_push(acc: Option<(int, Word)>, ws: Seq<Word>, x: Word, l: int, n: int)
    ensures
        fold_words(acc, ws.push(x), l, n) == (if word_bucket(x) == l {
            step_word(fold_words(acc, ws, l, n), x, n)
        } else {
            fold_words(acc, ws, l, n)
        }),
    decreases ws.len(),
{
    let p = ws.push(x);
    if ws.len() == 0 {
        assert(p.len() == 1);
        assert(p[0] == x);
        let acc2 = if word_bucket(x) == l {
            step_word(acc, x, n)
        } else {
            acc
        };
        assert(fold_words(acc, p, l, n) == fold_words(acc2, p.skip(1), l, n));
        assert(p.skip(1) =~= Seq::<Word>::empty());
        assert(fold_words(acc2, p.skip(1), l, n) == acc2);
        assert(fold_words(acc, ws, l, n) == acc);
    } else {
        assert(p[0] == ws[0]);
        let acc2 = if word_bucket(ws[0]) == l {
            step_word(acc, ws[0], n)
        } else {
            acc
        };
        assert(fold_words(acc, p, l, n) == fold_words(acc2, p.skip(1), l, n));
        assert(p.skip(1) =~= ws.skip(1).push(x));
        lemma_fold_words_push(acc2, ws.skip(1), x, l, n);
        assert(fold_words(acc, ws, l, n) == fold_words(acc2, ws.skip(1), l, n));
    }
}

/// Unfolding a line fold one argument list at the end.
proof fn lemma_fold_groups_push(
    acc: Option<(int, Word)>,
    gs: Seq<Seq<Word>>,
    x: Seq<Word>,
    l: int,
    n: int,
)
    ensures
        fold_groups(acc, gs.push(x), l, n) == fold_words(fold_groups(acc, gs, l, n), x, l, n),
    decreases gs.len(),
{
    let p = gs.push(x);
    if gs.len() == 0 {
        assert(p.len() == 1);
        assert(p[0] == x);
        assert(fold_groups(acc, p, l, n) == fold_groups(fold_words(acc, x, l, n), p.skip(1), l, n));
        assert(p.skip(1) =~= Seq::<Seq<Word>>::empty());
        assert(fold_groups(fold_words(acc, x, l, n), p.skip(1), l, n) == fold_words(acc, x, l, n));
        assert(fold_groups(acc, gs, l, n) == acc);
    } else {
        assert(p[0] == gs[0]);
        let acc2 = fold_words(acc, gs[0], l, n);
        assert(fold_groups(acc, p, l, n) == fold_groups(acc2, p.skip(1), l, n));
        assert(p.skip(1) =~= gs.skip(1).push(x));
        lemma_fold_groups_push(acc2, gs.skip(1), x, l, n);
        assert(fold_groups(acc, gs, l, n) == fold_groups(acc2, gs.skip(1), l, n));
    }
}

/// The mathematical view of the builder's open-run slot.
pub open spec fn active_view(a: Option<(usize, Word)>) -> Option<(int, Word)> {
    match a {
        Some((s, w)) => Some((s as int, w)),
        None => None,
    }
}

/// A finished bucket: well formed, bounded by the document, and in full
/// agreement with the run model.
pub open spec fn bucket_built(b: Seq<ArgRange>, lines: Seq<GCodeLine>, l: int) -> bool {
    &&& bucket_wf(b, l)
    &&& bucket_bounded(b, lines.len() as int)
    &&& forall|j: int| 0 <= j < lines.len() ==> #[trigger] bucket_matches_run(b, lines, l, j)
}

/// One bucket agrees with the run model at line `j`: an entry contains
/// `j` exactly when a run governs it, and then carries that run's start
/// and word.
pub open spec fn bucket_matches_run(b: Seq<ArgRange>, lines: Seq<GCodeLine>, l: int, j: int) -> bool {
    match run_of(lines, l, j) {
        Some(sw) => exists|k: int|
            0 <= k < b.len() && (#[trigger] b[k]).spec_contains(j) && b[k].start == sw.0
                && b[k].word == sw.1,
        None => forall|k: int| 0 <= k < b.len() ==> !(#[trigger] b[k]).spec_contains(j),
    }
}

/// Builder invariant between lines: the open run, if any, began on an
/// earlier line; the bucket holds exactly the closed runs before it.
pub open spec fn closed_runs_ok(
    b: Seq<ArgRange>,
    a: Option<(usize, Word)>,
    lines: Seq<GCodeLine>,
    l: int,
    i: int,
) -> bool {
    match a {
        Some((s, w)) => s < i && word_bucket(w) == l && bucket_bounded(b, s as int) && (forall|
            j: int,
        |
            0 <= j < s ==> bucket_matches_run(b, lines, l, j)),
        None => b.len() == 0,
    }
}

/// Builder invariant within a line: as between lines, except that the
/// open run may have begun on the line being read.
pub open spec fn open_runs_ok(
    b: Seq<ArgRange>,
    a: Option<(usize, Word)>,
    lines: Seq<GCodeLine>,
    l: int,
    i: int,
) -> bool {
    match a {
        Some((s, w)) => s <= i && word_bucket(w) == l && bucket_bounded(b, s as int) && (forall|
            j: int,
        |
            0 <= j < s ==> bucket_matches_run(b, lines, l, j)),
        None => b.len() == 0,
    }
}

/// A run seen open part-way through line `i` that began on an earlier
/// line was the run active when the line began.
proof fn lemma_run_was_active(
    acc0: Option<(int, Word)>,
    mid0: Option<(int, Word)>,
    s: int,
    w: Word,
    gs: Seq<Seq<Word>>,
    ws: Seq<Word>,
    l: int,
    i: int,
    gi: int,
    wi: int,
)
    requires
        0 <= gi <= gs.len(),
        0 <= wi <= ws.len(),
        mid0 == fold_groups(acc0, gs.take(gi), l, i),
        fold_words(mid0, ws.take(wi), l, i) == Some((s, w)),
        s < i,
    ensures
        acc0 == Some((s, w)),
{
    lemma_fold_groups_shape(acc0, gs.take(gi), l, i);
    lemma_fold_words_shape(mid0, ws.take(wi), l, i);
}

/// If no run is open part-way through line `i`, none was ever active.
proof fn lemma_never_active(
    acc0: Option<(int, Word)>,
    mid0: Option<(int, Word)>,
    lines: Seq<GCodeLine>,
    gs: Seq<Seq<Word>>,
    ws: Seq<Word>,
    l: int,
    i: int,
    gi: int,
    wi: int,
)
    requires
        0 <= gi <= gs.len(),
        0 <= wi <= ws.len(),
        acc0 == active_after(lines, l, i),
        mid0 == fold_groups(acc0, gs.take(gi), l, i),
        fold_words(mid0, ws.take(wi), l, i) is None,
        0 <= i,
    ensures
        forall|j: int| 0 <= j < i ==> run_of(lines, l, j) is None,
{
    lemma_fold_groups_shape(acc0, gs.take(gi), l, i);
    lemma_fold_words_shape(mid0, ws.take(wi), l, i);
    assert(active_after(lines, l, i) is None);
    assert forall|j: int| 0 <= j < i implies run_of(lines, l, j) is None by {
        lemma_active_none_before(lines, l, j + 1, i);
    }
}

/// Closing the run `(s, w)` at line `end_i` keeps the bucket well formed
/// and makes it cover every line before `end_i` according to the model.
proof fn lemma_close_run_covers(
    b: Seq<ArgRange>,
    lines: Seq<GCodeLine>,
    l: int,
    s: usize,
    w: Word,
    end_i: usize,
)
    requires
        s < end_i,
        active_after(lines, l, end_i as int) == Some((s as int, w)),
        word_bucket(w) == l,
        bucket_wf(b, l),
        bucket_bounded(b, s as int),
        forall|j: int| 0 <= j < s ==> bucket_matches_run(b, lines, l, j),
    ensures
        bucket_wf(b.push(ArgRange { start: s, end: end_i, word: w }), l),
        bucket_bounded(b.push(ArgRange { start: s, end: end_i, word: w }), end_i as int),
        forall|j: int|
            0 <= j < end_i ==> bucket_matches_run(
                b.push(ArgRange { start: s, end: end_i, word: w }),
                lines,
                l,
                j,
            ),
{
    let e = ArgRange { start: s, end: end_i, word: w };
    let b2 = b.push(e);
    assert(b2[b.len() as int] == e);
    assert forall|k: int| 0 <= k < b2.len() implies (#[trigger] b2[k]).start < b2[k].end
        && word_bucket(b2[k].word) == l by {
        if k < b.len() {
            assert(b2[k] == b[k]);
        }
    }
    assert forall|k: int| 0 <= k && k + 1 < b2.len() implies (#[trigger] b2[k]).end <= b2[
        k + 1
    ].start by {
        if k + 1 < b.len() {
            assert(b2[k] == b[k] && b2[k + 1] == b[k + 1]);
        } else {
            assert(b2[k] == b[k] && b2[k + 1] == e);
        }
    }
    assert forall|j: int| 0 <= j < end_i implies bucket_matches_run(b2, lines, l, j) by {
        if j < s {
            assert(bucket_matches_run(b, lines, l, j));
            match run_of(lines, l, j) {
                Some(sw) => {
                    let k = choose|k: int|
                        0 <= k < b.len() && (#[trigger] b[k]).spec_contains(j) && b[k].start == sw.0
                            && b[k].word == sw.1;
                    assert(b2[k].spec_contains(j));
                },
                None => {
                    assert forall|k: int| 0 <= k < b2.len() implies !(
                    #[trigger] b2[k]).spec_contains(j) by {
                        if k < b.len() {
                            assert(!b[k].spec_contains(j));
                        }
                    }
                },
            }
        } else {
            lemma_active_stable(lines, l, s as int, w, j + 1, end_i as int);
            assert(run_of(lines, l, j) == Some((s as int, w)));
            assert(b2[b.len() as int].spec_contains(j));
        }
    }
}

/// A bucket is well formed for letter `l`: spans are non-empty, belong to
/// the letter, and are strictly ordered without overlap.
pub open spec fn bucket_wf(b: Seq<ArgRange>, l: int) -> bool {
    &&& forall|k: int|
        0 <= k < b.len() ==> (#[trigger] b[k]).start < b[k].end && word_bucket(b[k].word) == l
    &&& forall|k: int| 0 <= k && k + 1 < b.len() ==> (#[trigger] b[k]).end <= b[k + 1].start
}

/// Every span of a bucket ends at or before line `n`.
pub open spec fn bucket_bounded(b: Seq<ArgRange>, n: int) -> bool {
    forall|k: int| 0 <= k < b.len() ==> (#[trigger] b[k]).end <= n
}

/// The per-letter argument-range index: 26 sorted buckets.
#[derive(Debug, Clone)]
pub struct ArgGroups {
    pub buckets: Vec<Vec<ArgRange>>,
}

impl ArgGroups {
    /// There are 26 buckets, each well formed for its letter.
    pub open spec fn wf(self) -> bool {
        &&& self.buckets@.len() == 26
        &&& forall|l: int| 0 <= l < 26 ==> bucket_wf((#[trigger] self.buckets@[l])@, l)
    }

    /// Every span of every bucket ends at or before line `n`.
    pub open spec fn bounded(self, n: int) -> bool {
        forall|l: int| 0 <= l < 26 ==> bucket_bounded((#[trigger] self.buckets@[l])@, n)
    }

    /// The entry is held by one of the buckets.
    pub open spec fn in_some_bucket(self, e: ArgRange) -> bool {
        exists|l: int, m: int|
            0 <= l < 26 && 0 <= m < self.buckets@[l]@.len() && (#[trigger] self.buckets@[l]@[m])
                == e
    }

    /// Bucket `l` holds an entry containing line `j`.
    pub open spec fn covers(self, l: int, j: int) -> bool {
        exists|k: int|
            0 <= k < self.buckets@[l]@.len() && (#[trigger] self.buckets@[l]@[k]).spec_contains(j)
    }

    /// The index reflects the run structure of `lines`: a bucket entry
    /// contains line `j` exactly when some command at or before `j`
    /// supplied that letter, and the entry then carries the start and
    /// word of the most recent unbroken run.
    pub open spec fn models(self, lines: Seq<GCodeLine>) -> bool {
        forall|l: int, j: int|
            0 <= l < 26 && 0 <= j < lines.len() ==> #[trigger] self.entry_matches_run(lines, l, j)
    }

    /// At one (letter, line) point: coverage agrees with the run model.
    pub open spec fn entry_matches_run(self, lines: Seq<GCodeLine>, l: int, j: int) -> bool {
        match run_of(lines, l, j) {
            Some((s, w)) => exists|k: int|
                0 <= k < self.buckets@[l]@.len() && (#[trigger] self.buckets@[l]@[k]).spec_contains(
                    j,
                ) && self.buckets@[l]@[k].start == s && self.buckets@[l]@[k].word == w,
            None => !self.covers(l, j),
        }
    }

    /// Build the index in one sweep per letter, keeping each bucket
    /// sorted as it grows.
    #[verifier::rlimit(100)]
    pub fn new(lines: &Vec<GCodeLine>) -> (r: ArgGroups)
        ensures
            r.wf(),
            r.bounded(lines@.len() as int),
            r.models(lines@),
    {
        let mut buckets: Vec<Vec<ArgRange>> = Vec::new();
        let mut l: usize = 0;
        while l < 26
            invariant
                0 <= l <= 26,
                buckets@.len() == l,
                forall|t: int| 0 <= t < l ==> #[trigger] bucket_built(buckets@[t]@, lines@, t),
            decreases 26 - l,
        {
            let b = Self::build_bucket(lines, l);
            buckets.push(b);
            l = l + 1;
        }
        let r = ArgGroups { buckets };
        proof {
            assert forall|t: int| 0 <= t < 26 implies bucket_wf((#[trigger] r.buckets@[t])@, t)
                && bucket_bounded(r.buckets@[t]@, lines@.len() as int) by {
                assert(bucket_built(r.buckets@[t]@, lines@, t));
            }
            assert forall|t: int, j: int|
                0 <= t < 26 && 0 <= j < lines@.len() implies #[trigger] r.entry_matches_run(
                lines@,
                t,
                j,
            ) by {
                assert(bucket_built(r.buckets@[t]@, lines@, t));
                assert(bucket_matches_run(r.buckets@[t]@, lines@, t, j));
            }
        }
        r
    }

    /// One letter's sweep: fold every commanded line's words of that
    /// letter over the active run, closing a span whenever the value
    /// changes, and flush the open run at the end of the document.
    #[verifier::rlimit(100)]
    fn build_bucket(lines: &Vec<GCodeLine>, l: usize) -> (b: Vec<ArgRange>)
        requires
            l < 26,
        ensures
            bucket_built(b@, lines@, l as int),
    {
        let ghost ll = l as int;
        let n = lines.len();
        let mut bucket: Vec<ArgRange> = Vec::new();
        let mut active: Option<(usize, Word)> = None;
        let mut i: usize = 0;
        while i < n
            invariant
                l < 26,
                ll == l as int,
                0 <= i <= n == lines@.len(),
                bucket_wf(bucket@, ll),
                active_view(active) == active_after(lines@, ll, i as int),
                closed_runs_ok(bucket@, active, lines@, ll, i as int),
            decreases n - i,
        {
            match &lines[i] {
                GCodeLine::Empty => {
                    proof {
                        assert(line_groups(lines@[i as int]) =~= Seq::<Seq<Word>>::empty());
                        assert(active_after(lines@, ll, i + 1) == fold_groups(
                            active_after(lines@, ll, i as int),
                            line_groups(lines@[i as int]),
                            ll,
                            i as int,
                        ));
                    }
                },
                GCodeLine::Command { gcodes, .. } => {
                    let ghost acc0 = active_after(lines@, ll, i as int);
                    let ghost gs = line_groups(lines@[i as int]);
                    let mut gi: usize = 0;
                    proof {
                        assert(gs.take(0) =~= Seq::<Seq<Word>>::empty());
                    }
                    while gi < gcodes.len()
                        invariant
                            l < 26,
                            ll == l as int,
                            0 <= i < n == lines@.len(),
                            0 <= gi <= gcodes@.len(),
                            lines@[i as int] matches GCodeLine::Command { gcodes: g2, .. } && g2@
                                == gcodes@,
                            gs == line_groups(lines@[i as int]),
                            acc0 == active_after(lines@, ll, i as int),
                            bucket_wf(bucket@, ll),
                            active_view(active) == fold_groups(acc0, gs.take(gi as int), ll, i as int),
                            open_runs_ok(bucket@, active, lines@, ll, i as int),
                        decreases gcodes@.len() - gi,
                    {
                        let ghost mid0 = fold_groups(acc0, gs.take(gi as int), ll, i as int);
                        let words = &gcodes[gi].arguments;
                        let mut wi: usize = 0;
                        proof {
                            assert(gs[gi as int] == gcodes@[gi as int].arguments@);
                            assert(words@.take(0) =~= Seq::<Word>::empty());
                        }
                        while wi < words.len()
                            invariant
                                l < 26,
                                ll == l as int,
                                0 <= i < lines@.len(),
                                0 <= wi <= words@.len(),
                                words@ == gs[gi as int],
                                0 <= gi < gs.len(),
                                acc0 == active_after(lines@, ll, i as int),
                                mid0 == fold_groups(acc0, gs.take(gi as int), ll, i as int),
                                bucket_wf(bucket@, ll),
                                active_view(active) == fold_words(
                                    mid0,
                                    words@.take(wi as int),
                                    ll,
                                    i as int,
                                ),
                                open_runs_ok(bucket@, active, lines@, ll, i as int),
                            decreases words@.len() - wi,
                        {
                            let w = words[wi];
                            proof {
                                assert(words@.take(wi + 1) =~= words@.take(wi as int).push(
                                    words@[wi as int],
                                ));
                                lemma_fold_words_push(
                                    mid0,
                                    words@.take(wi as int),
                                    words@[wi as int],
                                    ll,
                                    i as int,
                                );
                            }
                            let wb = upper(w.letter);
                            if 65 <= wb && wb <= 90 && (wb - 65) as usize == l {
                                proof {
                                    assert(word_bucket(w) == ll);
                                }
                                match active {
                                    Some((s, aw)) => {
                                        if aw == w {
                                            // the run continues unchanged
                                        } else {
                                            if s < i {
                                                proof {
                                                    lemma_run_was_active(
                                                        acc0,
                                                        mid0,
                                                        s as int,
                                                        aw,
                                                        gs,
                                                        words@,
                                                        ll,
                                                        i as int,
                                                        gi as int,
                                                        wi as int,
                                                    );
                                                    lemma_close_run_covers(
                                                        bucket@,
                                                        lines@,
                                                        ll,
                                                        s,
                                                        aw,
                                                        i,
                                                    );
                                                }
                                                bucket.push(ArgRange { start: s, end: i, word: aw });
                                            }
                                            active = Some((i, w));
                                        }
                                    },
                                    None => {
                                        proof {
                                            lemma_never_active(
                                                acc0,
                                                mid0,
                                                lines@,
                                                gs,
                                                words@,
                                                ll,
                                                i as int,
                                                gi as int,
                                                wi as int,
                                            );
                                        }
                                        active = Some((i, w));
                                    },
                                }
                            } else {
                                proof {
                                    assert(word_bucket(w) != ll);
                                }
                            }
                            wi = wi + 1;
                        }
                        proof {
                            assert(words@.take(words@.len() as int) =~= words@);
                            assert(gs.take(gi + 1) =~= gs.take(gi as int).push(gs[gi as int]));
                            lemma_fold_groups_push(acc0, gs.take(gi as int), gs[gi as int], ll, i as int);
                        }
                        gi = gi + 1;
                    }
                    proof {
                        assert(gs.take(gs.len() as int) =~= gs);
                        assert(active_after(lines@, ll, i + 1) == fold_groups(
                            acc0,
                            line_groups(lines@[i as int]),
                            ll,
                            i as int,
                        ));
                    }
                },
            }
            i = i + 1;
        }
        // close the run still open at the end of the document
        match active {
            Some((s, w)) => {
                proof {
                    lemma_close_run_covers(bucket@, lines@, ll, s, w, n);
                }
                bucket.push(ArgRange { start: s, end: n, word: w });
            },
            None => {
                proof {
                    assert forall|j: int| 0 <= j < lines@.len() implies bucket_matches_run(
                        bucket@,
                        lines@,
                        ll,
                        j,
                    ) by {
                        lemma_active_none_before(lines@, ll, j + 1, n as int);
                    }
                }
            },
        }
        bucket
    }

    /// Number of buckets; always 26.
    pub fn len(&self) -> (r: usize)
        requires
            self.buckets@.len() == 26,
        ensures
            r == 26,
    {
        self.buckets.len()
    }

    /// All 26 buckets.
    pub fn buckets(&self) -> (r: &Vec<Vec<ArgRange>>)
        ensures
            r == &self.buckets,
    {
        &self.buckets
    }

    /// Read a bucket by index.
    pub fn bucket(&self, l: usize) -> (r: &Vec<ArgRange>)
        requires
            l < self.buckets@.len(),
        ensures
            r == self.buckets@[l as int],
    {
        &self.buckets[l]
    }

    /// All argument spans active at `line`: for each letter, the bucket
    /// entry containing the line, if one does.
    #[verifier::rlimit(100)]
    #[verifier::spinoff_prover]
    pub fn get(&self, line: usize) -> (r: Vec<ArgRange>)
        requires
            self.wf(),
        ensures
            forall|k: int|
                0 <= k < r@.len() ==> (#[trigger] r@[k]).spec_contains(line as int)
                    && self.in_some_bucket(r@[k]),
            forall|l: int, m: int|
                0 <= l < 26 && 0 <= m < self.buckets@[l]@.len() && (
                #[trigger] self.buckets@[l]@[m]).spec_contains(line as int) ==> r@.contains(
                    self.buckets@[l]@[m],
                ),
    {
        let mut out: Vec<ArgRange> = Vec::new();
        let mut l: usize = 0;
        while l < 26
            invariant
                0 <= l <= 26,
                self.wf(),
                forall|k: int|
                    0 <= k < out@.len() ==> (#[trigger] out@[k]).spec_contains(line as int)
                        && self.in_some_bucket(out@[k]),
                forall|li: int, m: int|
                    0 <= li < l && 0 <= m < self.buckets@[li]@.len() && (
                    #[trigger] self.buckets@[li]@[m]).spec_contains(line as int) ==> out@.contains(
                        self.buckets@[li]@[m],
                    ),
            decreases 26 - l,
        {
            let ghost old_out = out@;
            let bucket = &self.buckets[l];
            match Self::find_containing(bucket, line, Ghost(l as int)) {
                Some(idx) => {
                    let entry = bucket[idx];
                    out.push(entry);
                    proof {
                        assert(self.buckets@[l as int]@[idx as int] == entry);
                        assert(self.in_some_bucket(entry));
                        assert(out@ == old_out.push(entry));
                        assert forall|li: int, m: int|
                            0 <= li < l + 1 && 0 <= m < self.buckets@[li]@.len() && (
                            #[trigger] self.buckets@[li]@[m]).spec_contains(
                                line as int,
                            ) implies out@.contains(self.buckets@[li]@[m]) by {
                            if li < l {
                                assert(old_out.contains(self.buckets@[li]@[m]));
                                let w = choose|k: int|
                                    0 <= k < old_out.len() && old_out[k] == self.buckets@[li]@[m];
                                assert(out@[w] == self.buckets@[li]@[m]);
                            } else {
                                lemma_contained_entry_unique(
                                    self.buckets@[l as int]@,
                                    l as int,
                                    line as int,
                                    idx as int,
                                    m,
                                );
                                assert(out@[out@.len() - 1] == self.buckets@[li]@[m]);
                            }
                        }
                    }
                },
                None => {},
            }
            l = l + 1;
        }
        out
    }

    /// Binary search for the entry containing `line` in a sorted bucket:
    /// the last entry whose start is at or before the line, tested for
    /// containment.
    fn find_containing(bucket: &Vec<ArgRange>, line: usize, Ghost(l): Ghost<int>) -> (r: Option<
        usize,
    >)
        requires
            bucket_wf(bucket@, l),
        ensures
            match r {
                Some(idx) => idx < bucket@.len() && bucket@[idx as int].spec_contains(line as int),
                None => forall|m: int|
                    0 <= m < bucket@.len() ==> !(#[trigger] bucket@[m]).spec_contains(line as int),
            },
    {
        if bucket.len() == 0 {
            return None;
        }
        // lo counts entries known to start at or before the line
        let mut lo: usize = 0;
        let mut hi: usize = bucket.len();
        while lo < hi
            invariant
                0 <= lo <= hi <= bucket@.len(),
                bucket_wf(bucket@, l),
                forall|m: int| 0 <= m < lo ==> (#[trigger] bucket@[m]).start <= line,
                forall|m: int| hi <= m < bucket@.len() ==> (#[trigger] bucket@[m]).start > line,
            decreases hi - lo,
        {
            let mid = lo + (hi - lo) / 2;
            if bucket[mid].start <= line {
                proof {
                    assert forall|m: int| 0 <= m < mid + 1 implies (#[trigger] bucket@[m]).start
                        <= line by {
                        if m < mid {
                            lemma_bucket_order(bucket@, l, m, mid as int);
                        }
                    }
                }
                lo = mid + 1;
            } else {
                proof {
                    assert forall|m: int| mid <= m < bucket@.len() implies (
                    #[trigger] bucket@[m]).start > line by {
                        if mid < m {
                            lemma_bucket_order(bucket@, l, mid as int, m);
                        }
                    }
                }
                hi = mid;
            }
        }
        if lo == 0 {
            return None;
        }
        let cand = lo - 1;
        if bucket[cand].end > line {
            Some(cand)
        } else {
            proof {
                lemma_sorted_bucket_only_candidate(bucket@, l, line as int, cand as int);
            }
            None
        }
    }
}

/// In a well-formed bucket at most one entry contains a line, so an entry
/// containing it equals the found one.
proof fn lemma_contained_entry_unique(b: Seq<ArgRange>, l: int, line: int, i: int, j: int)
    requires
        bucket_wf(b, l),
        0 <= i < b.len(),
        0 <= j < b.len(),
        b[i].spec_contains(line),
        b[j].spec_contains(line),
    ensures
        i == j,
{
    if i < j {
        lemma_bucket_order(b, l, i, j);
    } else if j < i {
        lemma_bucket_order(b, l, j, i);
    }
}

/// In a sorted bucket, once the last entry starting at or before a line
/// fails to contain it, no entry does.
proof fn lemma_sorted_bucket_only_candidate(b: Seq<ArgRange>, l: int, line: int, cand: int)
    requires
        bucket_wf(b, l),
        0 <= cand < b.len(),
        b[cand].start <= line,
        b[cand].end <= line,
        forall|m: int| cand < m < b.len() ==> (#[trigger] b[m]).start > line,
    ensures
        forall|m: int| 0 <= m < b.len() ==> !(#[trigger] b[m]).spec_contains(line),
{
    assert forall|m: int| 0 <= m < b.len() implies !(#[trigger] b[m]).spec_contains(line) by {
        if m < cand {
            lemma_bucket_order(b, l, m, cand);
        }
    }
}

/// Entries of a well-formed bucket are ordered: an earlier entry ends at
/// or before a later one starts.
proof fn lemma_bucket_order(b: Seq<ArgRange>, l: int, i: int, j: int)
    requires
        bucket_wf(b, l),
        0 <= i < j < b.len(),
    ensures
        b[i].end <= b[j].start,
    decreases j - i,
{
    if i + 1 < j {
        lemma_bucket_order(b, l, i + 1, j);
    }
}

} // verus!
