//! The G-code text grammar: bytes to lines of commands and comments.
//!
//! A document is newline-separated lines; each text line yields exactly
//! one `GCodeLine`.  Within a line, `;` opens a comment to the end of
//! the line and `(...)` encloses an inline comment; a letter followed by
//! a number is a word; `G`, `M`, `O` and `T` words open a command, other
//! words attach to the open command as arguments.  Numbers carry an
//! optional sign and up to three decimal places, read in thousandths.

use vstd::prelude::*;

use crate::code::{code_like, copy_gcode, upper, GCode, GCodeLine, Mnemonic, Word};

verus! {

/// Saturation bound of parsed fixed-point values, in thousandths.
pub const VALUE_SAT_E3: i64 = 1_000_000_000_000_000;

/// One plus the number of newline bytes: how many text lines a document
/// has.
pub open spec fn spec_line_count(s: Seq<u8>) -> int
    decreases s.len(),
{
    if s.len() == 0 {
        1
    } else {
        (if s[0] == 10 {
            1int
        } else {
            0int
        }) + spec_line_count(s.skip(1))
    }
}

/// Value of a digit run, most significant first, saturating.
pub open spec fn spec_digits_sat(s: Seq<u8>, acc: int) -> int
    decreases s.len(),
{
    if s.len() == 0 {
        acc
    } else {
        let d = s[0] - 48;
        let next = if acc * 10 + d > VALUE_SAT_E3 {
            VALUE_SAT_E3 as int
        } else {
            acc * 10 + d
        };
        spec_digits_sat(s.skip(1), next)
    }
}

/// True for ASCII `0`..`9`.
pub open spec fn spec_is_digit(c: u8) -> bool {
    48 <= c <= 57
}

/// Read a run of digits starting at `i`, saturating at `VALUE_SAT_E3`;
/// returns the value and the first index past the run.
pub fn scan_digits(line: &[u8], i: usize, acc: i64) -> (r: (i64, usize))
    requires
        i <= line@.len(),
        0 <= acc <= VALUE_SAT_E3,
    ensures
        i <= r.1 <= line@.len(),
        0 <= r.0 <= VALUE_SAT_E3,
        r.0 == spec_digits_sat(digit_run(line@, i as int), acc as int),
        r.1 == i + digit_run(line@, i as int).len(),
        r.1 < line@.len() ==> !spec_is_digit(line@[r.1 as int]),
    decreases line@.len() - i,
{
    if i < line.len() && 48 <= line[i] && line[i] <= 57 {
        let d = (line[i] - 48) as i64;
        let t = acc * 10 + d;
        let next = if t > VALUE_SAT_E3 {
            VALUE_SAT_E3
        } else {
            t
        };
        proof {
            assert(digit_run(line@, i as int) =~= seq![line@[i as int]] + digit_run(
                line@,
                i + 1,
            ));
            assert((seq![line@[i as int]] + digit_run(line@, i + 1)).skip(1) =~= digit_run(
                line@,
                i + 1,
            ));
        }
        scan_digits(line, i + 1, next)
    } else {
        proof {
            assert(digit_run(line@, i as int) =~= Seq::<u8>::empty());
        }
        (acc, i)
    }
}

/// The maximal digit run of `s` starting at `i`.
pub open spec fn digit_run(s: Seq<u8>, i: int) -> Seq<u8>
    decreases s.len() - i,
{
    if 0 <= i < s.len() && spec_is_digit(s[i]) {
        seq![s[i]] + digit_run(s, i + 1)
    } else {
        Seq::empty()
    }
}

/// Sign of a number at `i`: whether negative, and where digits begin.
pub open spec fn spec_sign_at(s: Seq<u8>, i: int) -> (bool, int) {
    if 0 <= i < s.len() && (s[i] == 43 || s[i] == 45) {
        (s[i] == 45, i + 1)
    } else {
        (false, i)
    }
}

/// Thousandths carried by a fractional digit run whose first digit sits
/// `k` places after the decimal point; only the first three count.
pub open spec fn spec_frac_at(run: Seq<u8>, k: int) -> int
    decreases run.len(),
{
    if run.len() == 0 {
        0
    } else {
        (if k == 0 {
            (run[0] - 48) * 100
        } else if k == 1 {
            (run[0] - 48) * 10
        } else if k == 2 {
            run[0] - 48
        } else {
            0int
        }) + spec_frac_at(run.skip(1), k + 1)
    }
}

/// The number written at `i`: an optional sign, an integer digit run,
/// and optionally a point with fractional digits (the first three
/// counted, all consumed).  The value is in thousandths, saturated at
/// `VALUE_SAT_E3`; paired with the first index past the number.  `None`
/// when no digit follows the optional sign.
pub open spec fn spec_number_at(s: Seq<u8>, i: int) -> Option<(int, int)> {
    let (neg, j) = spec_sign_at(s, i);
    if j < s.len() && spec_is_digit(s[j]) {
        let ip = spec_digits_sat(digit_run(s, j), 0);
        let j2 = j + digit_run(s, j).len();
        let frac = j2 < s.len() && s[j2] == 46;
        let mag = if ip >= VALUE_SAT_E3 / 1000 {
            VALUE_SAT_E3 as int
        } else if frac {
            ip * 1000 + spec_frac_at(digit_run(s, j2 + 1), 0)
        } else {
            ip * 1000
        };
        let end = if frac {
            j2 + 1 + digit_run(s, j2 + 1).len()
        } else {
            j2
        };
        Some(((if neg { -mag } else { mag }), end))
    } else {
        None
    }
}

/// Read a fractional digit run from `i`, `k` digits already counted:
/// accumulate the first three digits' weighted value and consume the
/// whole run.
fn scan_frac(line: &[u8], i: usize, k: usize, acc: i64) -> (r: (i64, usize))
    requires
        i <= line@.len(),
        k <= i,
        0 <= acc <= 999,
        k == 0 ==> acc == 0,
        k == 1 ==> acc <= 900,
        k == 2 ==> acc <= 990,
    ensures
        i <= r.1 <= line@.len(),
        0 <= r.0 <= 999,
        r.0 == acc + spec_frac_at(digit_run(line@, i as int), k as int),
        r.1 == i + digit_run(line@, i as int).len(),
    decreases line@.len() - i,
{
    if i < line.len() && 48 <= line[i] && line[i] <= 57 {
        let d = (line[i] - 48) as i64;
        let acc2 = if k == 0 {
            d * 100
        } else if k == 1 {
            acc + d * 10
        } else if k == 2 {
            acc + d
        } else {
            acc
        };
        proof {
            assert(digit_run(line@, i as int) =~= seq![line@[i as int]] + digit_run(
                line@,
                i + 1,
            ));
            assert((seq![line@[i as int]] + digit_run(line@, i + 1)).skip(1) =~= digit_run(
                line@,
                i + 1,
            ));
        }
        scan_frac(line, i + 1, k + 1, acc2)
    } else {
        proof {
            assert(digit_run(line@, i as int) =~= Seq::<u8>::empty());
        }
        (acc, i)
    }
}

/// Read the signed decimal number at `i`, exactly as `spec_number_at`
/// describes it.
pub fn scan_number_at(line: &[u8], i: usize) -> (r: Option<(i64, usize)>)
    requires
        i <= line@.len(),
    ensures
        match r {
            Some(v) => i < v.1 <= line@.len() && -VALUE_SAT_E3 <= v.0 <= VALUE_SAT_E3
                && spec_number_at(line@, i as int) == Some((v.0 as int, v.1 as int)),
            None => spec_number_at(line@, i as int) is None,
        },
{
    let mut j = i;
    let mut neg = false;
    if j < line.len() && (line[j] == 43 || line[j] == 45) {
        neg = line[j] == 45;
        j = j + 1;
    }
    if j >= line.len() || !(48 <= line[j] && line[j] <= 57) {
        return None;
    }
    proof {
        assert(digit_run(line@, j as int).len() >= 1);
    }
    let (int_part, j2) = scan_digits(line, j, 0);
    let (mag, end) = if j2 < line.len() && line[j2] == 46 {
        let (fr, e) = scan_frac(line, j2 + 1, 0, 0);
        if int_part >= VALUE_SAT_E3 / 1000 {
            (VALUE_SAT_E3, e)
        } else {
            (int_part * 1000 + fr, e)
        }
    } else {
        if int_part >= VALUE_SAT_E3 / 1000 {
            (VALUE_SAT_E3, j2)
        } else {
            (int_part * 1000, j2)
        }
    };
    if neg {
        Some((-mag, end))
    } else {
        Some((mag, end))
    }
}

/// True for an ASCII letter.
pub open spec fn spec_is_letter(c: u8) -> bool {
    (65 <= c <= 90) || (97 <= c <= 122)
}

/// The content of one command, with its argument list as a sequence.
#[verifier::ext_equal]
pub ghost struct CodeModel {
    pub mnemonic: Mnemonic,
    pub major: u32,
    pub minor: u32,
    pub arguments: Seq<Word>,
}

/// The content a command value carries.
pub open spec fn code_model(g: GCode) -> CodeModel {
    CodeModel { mnemonic: g.mnemonic, major: g.major, minor: g.minor, arguments: g.arguments@ }
}

/// The content of one parsed line: its commands and comment texts in
/// reading order.
#[verifier::ext_equal]
pub ghost struct LineModel {
    pub gcodes: Seq<CodeModel>,
    pub comments: Seq<Seq<u8>>,
}

/// The content of the scanner's open command, if one is open.
pub open spec fn cur_model(c: Option<GCode>) -> Option<CodeModel> {
    match c {
        Some(g) => Some(code_model(g)),
        None => None,
    }
}

/// A `GCodeLine` carries exactly this content: `Empty` stands for no
/// commands and no comments.
pub open spec fn line_is(l: GCodeLine, m: LineModel) -> bool {
    match l {
        GCodeLine::Empty => m.gcodes.len() == 0 && m.comments.len() == 0,
        GCodeLine::Command { gcodes, comments } => m.gcodes.len() + m.comments.len() > 0
            && gcodes@.map_values(|g: GCode| code_model(g)) == m.gcodes && comments@.map_values(
            |c: Vec<u8>| c@,
        ) == m.comments,
    }
}

/// The index of the first `)` at or after `i`, or the line's end.
pub open spec fn spec_close_paren(s: Seq<u8>, i: int) -> int
    decreases s.len() - i,
{
    if 0 <= i < s.len() && s[i] != 41 {
        spec_close_paren(s, i + 1)
    } else {
        i
    }
}

/// An advance that always moves right and never past the end, as every
/// scanner step does.
pub open spec fn spec_adv(len: int, i: int, n: int) -> int {
    if n > len {
        len
    } else if n > i {
        n
    } else {
        i + 1
    }
}

/// The mnemonic of a command letter (already uppercased).
pub open spec fn spec_mnemonic_of(letter: u8) -> Mnemonic {
    if letter == 71 {
        Mnemonic::General
    } else if letter == 77 {
        Mnemonic::Miscellaneous
    } else if letter == 79 {
        Mnemonic::ProgramNumber
    } else {
        Mnemonic::ToolChange
    }
}

/// The major number a command word's value denotes.
pub open spec fn spec_major_of(value: int) -> u32 {
    if value >= 4_000_000_000_000 {
        999_999u32
    } else if value < 0 {
        0u32
    } else {
        (value / 1000) as u32
    }
}

/// The minor number a command word's value denotes.
pub open spec fn spec_minor_of(value: int) -> u32 {
    if value < 0 {
        0u32
    } else {
        (value % 1000) as u32
    }
}

/// The line grammar, one scanner step per position: `;` opens a comment
/// to the end of the line, `(` up to the matching `)`; a letter with a
/// number is a word, a `G`/`M`/`O`/`T` word closing the open command and
/// opening a new one, any other word joining the open command; all else
/// is skipped.  At the end the open command closes.
pub open spec fn spec_scan_line(
    s: Seq<u8>,
    i: int,
    acc: LineModel,
    current: Option<CodeModel>,
) -> LineModel
    decreases s.len() - i,
{
    if i < 0 || i >= s.len() {
        match current {
            Some(g) => LineModel { gcodes: acc.gcodes.push(g), comments: acc.comments },
            None => acc,
        }
    } else {
        let c = s[i];
        if c == 59 {
            let text = s.subrange(i + 1, s.len() as int);
            spec_scan_line(
                s,
                s.len() as int,
                LineModel { gcodes: acc.gcodes, comments: acc.comments.push(text) },
                current,
            )
        } else if c == 40 {
            let j = spec_close_paren(s, i + 1);
            let text = s.subrange(i + 1, if j > s.len() { s.len() as int } else { j });
            let next = if j < s.len() {
                j + 1
            } else {
                j
            };
            spec_scan_line(
                s,
                spec_adv(s.len() as int, i, next),
                LineModel { gcodes: acc.gcodes, comments: acc.comments.push(text) },
                current,
            )
        } else if spec_is_letter(c) {
            let letter = crate::code::spec_upper(c);
            match spec_number_at(s, i + 1) {
                Some((value, next)) => {
                    if letter == 71 || letter == 77 || letter == 79 || letter == 84 {
                        let acc2 = match current {
                            Some(g) => LineModel {
                                gcodes: acc.gcodes.push(g),
                                comments: acc.comments,
                            },
                            None => acc,
                        };
                        spec_scan_line(
                            s,
                            spec_adv(s.len() as int, i, next),
                            acc2,
                            Some(
                                CodeModel {
                                    mnemonic: spec_mnemonic_of(letter),
                                    major: spec_major_of(value),
                                    minor: spec_minor_of(value),
                                    arguments: Seq::empty(),
                                },
                            ),
                        )
                    } else {
                        match current {
                            Some(g) => spec_scan_line(
                                s,
                                spec_adv(s.len() as int, i, next),
                                acc,
                                Some(
                                    CodeModel {
                                        arguments: g.arguments.push(
                                            Word { letter, value_e3: value as i64 },
                                        ),
                                        ..g
                                    },
                                ),
                            ),
                            None => spec_scan_line(s, spec_adv(s.len() as int, i, next), acc, None),
                        }
                    }
                },
                None => spec_scan_line(s, i + 1, acc, current),
            }
        } else {
            spec_scan_line(s, i + 1, acc, current)
        }
    }
}

/// What a whole text line parses to.
pub open spec fn spec_parse_line(s: Seq<u8>) -> LineModel {
    spec_scan_line(
        s,
        0,
        LineModel { gcodes: Seq::empty(), comments: Seq::empty() },
        None,
    )
}

/// A scan of `[a, j)` that saw no `)` and stopped at one (or the end)
/// pins the close position.
proof fn lemma_close_paren_at(s: Seq<u8>, a: int, j: int)
    requires
        0 <= a <= j <= s.len(),
        forall|m: int| a <= m < j ==> s[m] != 41,
        j == s.len() || s[j] == 41,
    ensures
        spec_close_paren(s, a) == j,
    decreases j - a,
{
    if a < j {
        lemma_close_paren_at(s, a + 1, j);
    }
}

/// Parse one text line (without its newline) into a `GCodeLine`,
/// carrying exactly the commands and comments `spec_parse_line` reads:
/// a line with neither is `Empty`.
#[verifier::rlimit(100)]
#[verifier::spinoff_prover]
pub fn parse_line(line: &[u8]) -> (r: GCodeLine)
    ensures
        line_is(r, spec_parse_line(line@)),
{
    let ghost s = line@;
    let ghost init = LineModel { gcodes: Seq::empty(), comments: Seq::empty() };
    let mut gcodes: Vec<GCode> = Vec::new();
    let mut comments: Vec<Vec<u8>> = Vec::new();
    let mut current: Option<GCode> = None;
    let mut i: usize = 0;
    proof {
        assert(gcodes@.map_values(|g: GCode| code_model(g)) =~= init.gcodes);
        assert(comments@.map_values(|c: Vec<u8>| c@) =~= init.comments);
        assert(LineModel {
            gcodes: gcodes@.map_values(|g: GCode| code_model(g)),
            comments: comments@.map_values(|c: Vec<u8>| c@),
        } =~= init);
    }
    while i < line.len()
        invariant
            0 <= i <= s.len(),
            s == line@,
            spec_scan_line(
                s,
                i as int,
                LineModel {
                    gcodes: gcodes@.map_values(|g: GCode| code_model(g)),
                    comments: comments@.map_values(|c: Vec<u8>| c@),
                },
                cur_model(current),
            ) == spec_parse_line(s),
        decreases s.len() - i,
    {
        let ghost acc0 = LineModel {
            gcodes: gcodes@.map_values(|g: GCode| code_model(g)),
            comments: comments@.map_values(|c: Vec<u8>| c@),
        };
        let ghost cur0: Option<CodeModel> = cur_model(current);
        let c = line[i];
        if c == 59 {
            // ';' comment to end of line
            let mut text: Vec<u8> = Vec::new();
            let mut j = i + 1;
            proof {
                assert(text@ =~= s.subrange(i + 1, j as int));
            }
            while j < line.len()
                invariant
                    i + 1 <= j <= s.len(),
                    s == line@,
                    text@ == s.subrange(i + 1, j as int),
                decreases s.len() - j,
            {
                text.push(line[j]);
                proof {
                    assert(s.subrange(i + 1, j + 1) =~= s.subrange(i + 1, j as int).push(
                        s[j as int],
                    ));
                }
                j = j + 1;
            }
            let ghost tg = text@;
            comments.push(text);
            proof {
                assert(comments@.map_values(|c2: Vec<u8>| c2@) =~= acc0.comments.push(tg));
                assert(spec_scan_line(s, i as int, acc0, cur0) == spec_scan_line(
                    s,
                    s.len() as int,
                    LineModel { gcodes: acc0.gcodes, comments: acc0.comments.push(tg) },
                    cur0,
                ));
            }
            i = line.len();
        } else if c == 40 {
            // '(' inline comment up to ')'
            let mut text: Vec<u8> = Vec::new();
            let mut j = i + 1;
            proof {
                assert(text@ =~= s.subrange(i + 1, j as int));
            }
            while j < line.len() && line[j] != 41
                invariant
                    i + 1 <= j <= s.len(),
                    s == line@,
                    text@ == s.subrange(i + 1, j as int),
                    forall|m: int| i + 1 <= m < j ==> s[m] != 41,
                decreases s.len() - j,
            {
                text.push(line[j]);
                proof {
                    assert(s.subrange(i + 1, j + 1) =~= s.subrange(i + 1, j as int).push(
                        s[j as int],
                    ));
                }
                j = j + 1;
            }
            proof {
                lemma_close_paren_at(s, i + 1, j as int);
            }
            let ghost tg = text@;
            comments.push(text);
            let next = if j < line.len() {
                j + 1
            } else {
                j
            };
            proof {
                assert(comments@.map_values(|c2: Vec<u8>| c2@) =~= acc0.comments.push(tg));
                assert(spec_adv(s.len() as int, i as int, next as int) == next as int);
                assert(spec_scan_line(s, i as int, acc0, cur0) == spec_scan_line(
                    s,
                    next as int,
                    LineModel { gcodes: acc0.gcodes, comments: acc0.comments.push(tg) },
                    cur0,
                ));
            }
            i = next;
        } else if (65 <= c && c <= 90) || (97 <= c && c <= 122) {
            let letter = upper(c);
            match scan_number_at(line, i + 1) {
                Some((value, next)) => {
                    proof {
                        assert(spec_adv(s.len() as int, i as int, next as int) == next as int);
                    }
                    if letter == 71 || letter == 77 || letter == 79 || letter == 84 {
                        // G, M, O, T: a command word opens a new command
                        let ghost acc2 = match cur0 {
                            Some(g) => LineModel {
                                gcodes: acc0.gcodes.push(g),
                                comments: acc0.comments,
                            },
                            None => acc0,
                        };
                        match current {
                            Some(g) => {
                                let ghost gm = code_model(g);
                                gcodes.push(g);
                                proof {
                                    assert(gcodes@.map_values(|g2: GCode| code_model(g2))
                                        =~= acc0.gcodes.push(gm));
                                }
                            },
                            None => {},
                        }
                        let mnemonic = if letter == 71 {
                            Mnemonic::General
                        } else if letter == 77 {
                            Mnemonic::Miscellaneous
                        } else if letter == 79 {
                            Mnemonic::ProgramNumber
                        } else {
                            Mnemonic::ToolChange
                        };
                        let major: u32 = if value >= 4_000_000_000_000 {
                            999_999
                        } else if value < 0 {
                            0
                        } else {
                            (value / 1000) as u32
                        };
                        let minor: u32 = if value < 0 {
                            0
                        } else {
                            (value % 1000) as u32
                        };
                        let fresh = GCode { mnemonic, major, minor, arguments: Vec::new() };
                        proof {
                            assert(code_model(fresh) =~= CodeModel {
                                mnemonic: spec_mnemonic_of(letter),
                                major: spec_major_of(value as int),
                                minor: spec_minor_of(value as int),
                                arguments: Seq::empty(),
                            });
                            assert(spec_scan_line(s, i as int, acc0, cur0) == spec_scan_line(
                                s,
                                next as int,
                                acc2,
                                Some(code_model(fresh)),
                            ));
                        }
                        current = Some(fresh);
                    } else {
                        // an argument word joins the open command
                        match current {
                            Some(mut g) => {
                                let ghost gm = code_model(g);
                                g.arguments.push(Word { letter, value_e3: value });
                                proof {
                                    assert(code_model(g) =~= CodeModel {
                                        arguments: gm.arguments.push(
                                            Word { letter, value_e3: value },
                                        ),
                                        ..gm
                                    });
                                    assert(spec_scan_line(s, i as int, acc0, cur0)
                                        == spec_scan_line(
                                        s,
                                        next as int,
                                        acc0,
                                        Some(code_model(g)),
                                    ));
                                }
                                current = Some(g);
                            },
                            None => {
                                proof {
                                    assert(spec_scan_line(s, i as int, acc0, cur0)
                                        == spec_scan_line(s, next as int, acc0, cur0));
                                }
                            },
                        }
                    }
                    i = next;
                },
                None => {
                    proof {
                        assert(spec_scan_line(s, i as int, acc0, cur0) == spec_scan_line(
                            s,
                            i + 1,
                            acc0,
                            cur0,
                        ));
                    }
                    i = i + 1;
                },
            }
        } else {
            proof {
                assert(spec_scan_line(s, i as int, acc0, cur0) == spec_scan_line(
                    s,
                    i + 1,
                    acc0,
                    cur0,
                ));
            }
            i = i + 1;
        }
    }
    let ghost accf = LineModel {
        gcodes: gcodes@.map_values(|g: GCode| code_model(g)),
        comments: comments@.map_values(|c: Vec<u8>| c@),
    };
    match current {
        Some(g) => {
            let ghost gm = code_model(g);
            gcodes.push(g);
            proof {
                assert(gcodes@.map_values(|g2: GCode| code_model(g2)) =~= accf.gcodes.push(gm));
                assert(spec_parse_line(s) =~= LineModel {
                    gcodes: accf.gcodes.push(gm),
                    comments: accf.comments,
                });
            }
        },
        None => {
            proof {
                assert(spec_parse_line(s) =~= accf);
            }
        },
    }
    if gcodes.len() == 0 && comments.len() == 0 {
        GCodeLine::Empty
    } else {
        GCodeLine::Command { gcodes, comments }
    }
}

/// A text line as the framer normalises it: carriage returns become
/// spaces.
pub open spec fn spec_norm(s: Seq<u8>) -> Seq<u8> {
    s.map_values(|b: u8| if b == 13 { 32u8 } else { b })
}

/// The first newline at or after `i`, or the document's end.
pub open spec fn spec_find_nl(s: Seq<u8>, i: int) -> int
    decreases s.len() - i,
{
    if 0 <= i < s.len() && s[i] != 10 {
        spec_find_nl(s, i + 1)
    } else {
        i
    }
}

/// The document's text lines: split on newline bytes, each line
/// normalised.
pub open spec fn spec_split_lines(s: Seq<u8>) -> Seq<Seq<u8>>
    decreases s.len(),
{
    let k0 = spec_find_nl(s, 0);
    let k = if 0 <= k0 <= s.len() {
        k0
    } else {
        s.len() as int
    };
    if k >= s.len() {
        seq![spec_norm(s)]
    } else {
        seq![spec_norm(s.subrange(0, k))] + spec_split_lines(s.subrange(k + 1, s.len() as int))
    }
}

/// A scan of `[a, k)` that saw no newline and stopped at one (or the
/// end) pins the newline position.
proof fn lemma_find_nl_at(s: Seq<u8>, a: int, k: int)
    requires
        0 <= a <= k <= s.len(),
        forall|m: int| a <= m < k ==> s[m] != 10,
        k == s.len() || s[k] == 10,
    ensures
        spec_find_nl(s, a) == k,
    decreases k - a,
{
    if a < k {
        lemma_find_nl_at(s, a + 1, k);
    }
}

/// Splitting off the first line at a known newline (or taking the whole
/// document when none remains).
proof fn lemma_split_head(s: Seq<u8>, k: int)
    requires
        0 <= k <= s.len(),
        forall|m: int| 0 <= m < k ==> s[m] != 10,
        k == s.len() || s[k] == 10,
    ensures
        k < s.len() ==> spec_split_lines(s) == seq![spec_norm(s.subrange(0, k))]
            + spec_split_lines(s.subrange(k + 1, s.len() as int)),
        k == s.len() ==> spec_split_lines(s) == seq![spec_norm(s)],
{
    lemma_find_nl_at(s, 0, k);
}

/// Split a document on newline bytes and parse each line: one
/// `GCodeLine` per text line, carrying exactly what `spec_parse_line`
/// reads from it.
#[verifier::rlimit(100)]
#[verifier::spinoff_prover]
pub fn parse_lines(src: &[u8]) -> (r: Vec<GCodeLine>)
    ensures
        r@.len() == spec_line_count(src@),
        r@.len() == spec_split_lines(src@).len(),
        forall|k: int|
            0 <= k < r@.len() ==> line_is(
                #[trigger] r@[k],
                spec_parse_line(spec_split_lines(src@)[k]),
            ),
{
    let ghost s = src@;
    let mut out: Vec<GCodeLine> = Vec::new();
    let mut start: usize = 0;
    let mut i: usize = 0;
    proof {
        lemma_line_count_rest(s, 0);
        assert(s.skip(0) =~= s);
        assert(s.subrange(0, s.len() as int) =~= s);
    }
    while i < src.len()
        invariant
            0 <= start <= i <= s.len(),
            s == src@,
            out@.len() + spec_line_count(s.skip(i as int)) == spec_line_count(s),
            out@.len() + spec_split_lines(s.subrange(start as int, s.len() as int)).len()
                == spec_split_lines(s).len(),
            forall|k: int|
                0 <= k < out@.len() ==> line_is(
                    #[trigger] out@[k],
                    spec_parse_line(spec_split_lines(s)[k]),
                ),
            forall|k: int|
                out@.len() <= k < spec_split_lines(s).len() ==> spec_split_lines(s)[k]
                    == spec_split_lines(s.subrange(start as int, s.len() as int))[k - out@.len()],
            forall|m: int| start <= m < i ==> s[m] != 10,
        decreases s.len() - i,
    {
        proof {
            assert(s.skip(i as int)[0] == s[i as int]);
            assert(s.skip(i as int).skip(1) =~= s.skip(i + 1));
        }
        if src[i] == 10 {
            let ghost rest = s.subrange(start as int, s.len() as int);
            proof {
                assert forall|m: int| 0 <= m < i - start implies rest[m] != 10 by {
                    assert(rest[m] == s[start + m]);
                }
                assert(rest[i - start] == s[i as int]);
                lemma_split_head(rest, i - start);
                assert(rest.subrange(0, i - start) =~= s.subrange(start as int, i as int));
                assert(rest.subrange(i - start + 1, rest.len() as int) =~= s.subrange(
                    i + 1,
                    s.len() as int,
                ));
            }
            let mut line: Vec<u8> = Vec::new();
            let mut j = start;
            proof {
                assert(line@ =~= spec_norm(s.subrange(start as int, j as int)));
            }
            while j < i
                invariant
                    start <= j <= i <= s.len(),
                    s == src@,
                    line@ == spec_norm(s.subrange(start as int, j as int)),
                decreases i - j,
            {
                let b = src[j];
                line.push(if b == 13 {
                    32
                } else {
                    b
                });
                proof {
                    assert(s.subrange(start as int, j + 1) =~= s.subrange(
                        start as int,
                        j as int,
                    ).push(s[j as int]));
                    assert(spec_norm(s.subrange(start as int, j + 1)) =~= spec_norm(
                        s.subrange(start as int, j as int),
                    ).push(
                        if s[j as int] == 13 {
                            32u8
                        } else {
                            s[j as int]
                        },
                    ));
                }
                j = j + 1;
            }
            let parsed = parse_line(line.as_slice());
            out.push(parsed);
            start = i + 1;
        }
        i = i + 1;
    }
    let ghost rest = s.subrange(start as int, s.len() as int);
    proof {
        assert forall|m: int| 0 <= m < rest.len() implies rest[m] != 10 by {
            assert(rest[m] == s[start + m]);
        }
        lemma_split_head(rest, rest.len() as int);
        assert(s.skip(s.len() as int) =~= Seq::<u8>::empty());
    }
    let mut tail: Vec<u8> = Vec::new();
    let mut j = start;
    proof {
        assert(tail@ =~= spec_norm(s.subrange(start as int, j as int)));
    }
    while j < src.len()
        invariant
            start <= j <= s.len(),
            s == src@,
            tail@ == spec_norm(s.subrange(start as int, j as int)),
        decreases s.len() - j,
    {
        let b = src[j];
        tail.push(if b == 13 {
            32
        } else {
            b
        });
        proof {
            assert(s.subrange(start as int, j + 1) =~= s.subrange(start as int, j as int).push(
                s[j as int],
            ));
            assert(spec_norm(s.subrange(start as int, j + 1)) =~= spec_norm(
                s.subrange(start as int, j as int),
            ).push(
                if s[j as int] == 13 {
                    32u8
                } else {
                    s[j as int]
                },
            ));
        }
        j = j + 1;
    }
    let parsed = parse_line(tail.as_slice());
    out.push(parsed);
    out
}

/// The line count of an empty rest is one.
proof fn lemma_line_count_rest(s: Seq<u8>, i: int)
    requires
        0 <= i <= s.len(),
    ensures
        spec_line_count(s.skip(i)) >= 1,
    decreases s.len() - i,
{
    if i < s.len() {
        assert(s.skip(i).skip(1) =~= s.skip(i + 1));
        lemma_line_count_rest(s, i + 1);
    } else {
        assert(s.skip(i) =~= Seq::<u8>::empty());
    }
}

/// The commands a line sequence carries, flattened in reading order.
pub open spec fn spec_flat_codes(lines: Seq<GCodeLine>) -> Seq<GCode>
    decreases lines.len(),
{
    if lines.len() == 0 {
        Seq::empty()
    } else {
        spec_flat_codes(lines.drop_last()) + (match lines.last() {
            GCodeLine::Empty => Seq::<GCode>::empty(),
            GCodeLine::Command { gcodes, .. } => gcodes@,
        })
    }
}

/// Unfolding the flattening one line at the end.
proof fn lemma_flat_push(lines: Seq<GCodeLine>, line: GCodeLine)
    ensures
        spec_flat_codes(lines.push(line)) == spec_flat_codes(lines) + (match line {
            GCodeLine::Empty => Seq::<GCode>::empty(),
            GCodeLine::Command { gcodes, .. } => gcodes@,
        }),
{
    assert(lines.push(line).drop_last() =~= lines);
    assert(lines.push(line).last() == line);
}

/// The flattening carries one command per counted command.
pub proof fn lemma_flat_len(lines: Seq<GCodeLine>)
    ensures
        spec_flat_codes(lines).len() == spec_code_count(lines),
    decreases lines.len(),
{
    if lines.len() > 0 {
        lemma_flat_len(lines.drop_last());
    }
}

/// Flatten a document's commands in reading order: the stack is the
/// concatenation of the lines' command lists.
#[verifier::rlimit(100)]
pub fn collect_stack(lines: &Vec<GCodeLine>) -> (r: Vec<GCode>)
    ensures
        r@.len() == spec_code_count(lines@),
        r@.len() == spec_flat_codes(lines@).len(),
        forall|k: int|
            0 <= k < r@.len() ==> code_like(#[trigger] r@[k], spec_flat_codes(lines@)[k]),
{
    let mut out: Vec<GCode> = Vec::new();
    let mut i: usize = 0;
    proof {
        assert(lines@.take(0) =~= Seq::<GCodeLine>::empty());
        lemma_flat_len(lines@.take(0));
    }
    while i < lines.len()
        invariant
            0 <= i <= lines@.len(),
            out@.len() == spec_code_count(lines@.take(i as int)),
            out@.len() == spec_flat_codes(lines@.take(i as int)).len(),
            forall|k: int|
                0 <= k < out@.len() ==> code_like(
                    #[trigger] out@[k],
                    spec_flat_codes(lines@.take(i as int))[k],
                ),
        decreases lines@.len() - i,
    {
        let ghost pre = lines@.take(i as int);
        let ghost preflat = spec_flat_codes(pre);
        proof {
            assert(lines@.take(i + 1) =~= pre.push(lines@[i as int]));
            lemma_code_count_push(pre, lines@[i as int]);
            lemma_flat_push(pre, lines@[i as int]);
            lemma_flat_len(lines@.take(i + 1));
        }
        match &lines[i] {
            GCodeLine::Empty => {
                proof {
                    assert(spec_flat_codes(lines@.take(i + 1)) =~= preflat);
                }
            },
            GCodeLine::Command { gcodes, .. } => {
                let mut k: usize = 0;
                while k < gcodes.len()
                    invariant
                        0 <= k <= gcodes@.len(),
                        lines@[i as int] matches GCodeLine::Command { gcodes: g2, .. } && g2@
                            == gcodes@,
                        preflat == spec_flat_codes(lines@.take(i as int)),
                        spec_flat_codes(lines@.take(i + 1)) == preflat + gcodes@,
                        out@.len() == preflat.len() + k,
                        forall|m: int|
                            0 <= m < out@.len() ==> code_like(
                                #[trigger] out@[m],
                                spec_flat_codes(lines@.take(i + 1))[m],
                            ),
                    decreases gcodes@.len() - k,
                {
                    proof {
                        assert(spec_flat_codes(lines@.take(i + 1))[preflat.len() + k]
                            == gcodes@[k as int]);
                    }
                    out.push(copy_gcode(&gcodes[k]));
                    k = k + 1;
                }
            },
        }
        i = i + 1;
    }
    proof {
        assert(lines@.take(lines@.len() as int) =~= lines@);
    }
    out
}

/// Number of commands across a line sequence.
pub open spec fn spec_code_count(lines: Seq<GCodeLine>) -> int
    decreases lines.len(),
{
    if lines.len() == 0 {
        0
    } else {
        spec_code_count(lines.drop_last()) + (match lines.last() {
            GCodeLine::Empty => 0int,
            GCodeLine::Command { gcodes, .. } => gcodes@.len() as int,
        })
    }
}

/// The commands of a sequence of line contents, concatenated.
pub open spec fn spec_cat_models(ms: Seq<LineModel>) -> Seq<CodeModel>
    decreases ms.len(),
{
    if ms.len() == 0 {
        Seq::empty()
    } else {
        spec_cat_models(ms.drop_last()) + ms.last().gcodes
    }
}

/// The command contents of a whole document: split it into lines, read
/// each, and concatenate their commands.
pub open spec fn spec_doc_codes(src: Seq<u8>) -> Seq<CodeModel> {
    spec_cat_models(spec_split_lines(src).map_values(|t: Seq<u8>| spec_parse_line(t)))
}

/// Lines that carry the given contents flatten to those contents'
/// commands.
pub proof fn lemma_flat_models(lines: Seq<GCodeLine>, ms: Seq<LineModel>)
    requires
        lines.len() == ms.len(),
        forall|k: int| 0 <= k < lines.len() ==> line_is(#[trigger] lines[k], ms[k]),
    ensures
        spec_flat_codes(lines).map_values(|g: GCode| code_model(g)) == spec_cat_models(ms),
    decreases lines.len(),
{
    if lines.len() == 0 {
        assert(spec_flat_codes(lines).map_values(|g: GCode| code_model(g)) =~= spec_cat_models(
            ms,
        ));
    } else {
        assert forall|k: int|
            0 <= k < lines.drop_last().len() implies line_is(
            #[trigger] lines.drop_last()[k],
            ms.drop_last()[k],
        ) by {
            assert(lines.drop_last()[k] == lines[k]);
            assert(ms.drop_last()[k] == ms[k]);
        }
        lemma_flat_models(lines.drop_last(), ms.drop_last());
        assert(line_is(lines.last(), ms.last()));
        let tailcodes = match lines.last() {
            GCodeLine::Empty => Seq::<GCode>::empty(),
            GCodeLine::Command { gcodes, .. } => gcodes@,
        };
        assert(tailcodes.map_values(|g: GCode| code_model(g)) =~= ms.last().gcodes);
        assert((spec_flat_codes(lines.drop_last()) + tailcodes).map_values(
            |g: GCode| code_model(g),
        ) =~= spec_flat_codes(lines.drop_last()).map_values(|g: GCode| code_model(g))
            + tailcodes.map_values(|g: GCode| code_model(g)));
    }
}

/// Unfolding the command count one line at the end.
proof fn lemma_code_count_push(lines: Seq<GCodeLine>, line: GCodeLine)
    ensures
        spec_code_count(lines.push(line)) == spec_code_count(lines) + (match line {
            GCodeLine::Empty => 0int,
            GCodeLine::Command { gcodes, .. } => gcodes@.len() as int,
        }),
{
    assert(lines.push(line).drop_last() =~= lines);
    assert(lines.push(line).last() == line);
}

} // verus!
