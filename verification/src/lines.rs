//! Line handling: splitting a document into lines, classifying each line as
//! timestamp / blank / sequence number / dialogue, localizing the digits of
//! dialogue lines, and rejoining the lines with single newlines.
use vstd::prelude::*;

use crate::chars::{
    is_ascii_digit, is_whitespace, localize_digit, localize_digits_seq,
};

verus! {

/// The classification of one line, decided in this order: timestamp first,
/// then blank, then sequence number, and dialogue for everything else.
#[derive(Clone, Copy, PartialEq, Eq, Structural, Debug)]
pub enum LineKind {
    Timestamp,
    Blank,
    SequenceNumber,
    Dialogue,
}

/// Whether `l` holds a `HH:MM:SS,mmm` group starting at index `at`
/// (two-digit hours, minutes and seconds, three-digit milliseconds).
pub open spec fn is_clock_group(l: Seq<char>, at: int) -> bool {
    &&& 0 <= at
    &&& at + 12 <= l.len()
    &&& is_ascii_digit(l[at])
    &&& is_ascii_digit(l[at + 1])
    &&& l[at + 2] == ':'
    &&& is_ascii_digit(l[at + 3])
    &&& is_ascii_digit(l[at + 4])
    &&& l[at + 5] == ':'
    &&& is_ascii_digit(l[at + 6])
    &&& is_ascii_digit(l[at + 7])
    &&& l[at + 8] == ','
    &&& is_ascii_digit(l[at + 9])
    &&& is_ascii_digit(l[at + 10])
    &&& is_ascii_digit(l[at + 11])
}

/// Whether `l` is a timestamp line: exactly two clock groups joined by the
/// arrow token `-->` with a single space on each side.
pub open spec fn is_timestamp(l: Seq<char>) -> bool {
    &&& l.len() == 29
    &&& is_clock_group(l, 0)
    &&& l[12] == ' '
    &&& l[13] == '-'
    &&& l[14] == '-'
    &&& l[15] == '>'
    &&& l[16] == ' '
    &&& is_clock_group(l, 17)
}

/// Whether `l` is blank: nothing but whitespace (an empty line included).
pub open spec fn is_blank(l: Seq<char>) -> bool {
    forall|i: int| 0 <= i < l.len() ==> is_whitespace(#[trigger] l[i])
}

/// Whether `l` is a bare sequence-number line: one or more ASCII digits and
/// nothing else.
pub open spec fn is_sequence_number(l: Seq<char>) -> bool {
    l.len() > 0 && forall|i: int| 0 <= i < l.len() ==> is_ascii_digit(#[trigger] l[i])
}

/// The classification of `l`, first match in the fixed order winning.
pub open spec fn line_kind(l: Seq<char>) -> LineKind {
    if is_timestamp(l) {
        LineKind::Timestamp
    } else if is_blank(l) {
        LineKind::Blank
    } else if is_sequence_number(l) {
        LineKind::SequenceNumber
    } else {
        LineKind::Dialogue
    }
}

/// The rewrite of one line: digits are localized on a dialogue line; a
/// timestamp, blank, or sequence-number line is kept as it is.
pub open spec fn fix_line(l: Seq<char>) -> Seq<char> {
    if line_kind(l) is Dialogue {
        localize_digits_seq(l)
    } else {
        l
    }
}

/// Every line of `ls` rewritten by `fix_line`, in order.
pub open spec fn fix_lines(ls: Seq<Seq<char>>) -> Seq<Seq<char>> {
    Seq::new(ls.len(), |i: int| fix_line(ls[i]))
}

/// A line with one trailing carriage return removed, as line splitting does
/// when the line ends in `\r\n`.
pub open spec fn strip_cr(l: Seq<char>) -> Seq<char> {
    if l.len() > 0 && l[l.len() - 1] == '\r' {
        l.drop_last()
    } else {
        l
    }
}

/// Line splitting, carrying the partial line `cur` gathered so far: a
/// newline ends the current line (with a `\r` just before it stripped), and
/// a last line is emitted only if it is nonempty, so a trailing newline adds
/// no empty line.
pub open spec fn split_acc(cur: Seq<char>, s: Seq<char>) -> Seq<Seq<char>>
    decreases s.len(),
{
    if s.len() == 0 {
        if cur.len() == 0 {
            Seq::empty()
        } else {
            seq![cur]
        }
    } else if s[0] == '\n' {
        seq![strip_cr(cur)] + split_acc(Seq::empty(), s.skip(1))
    } else {
        split_acc(cur.push(s[0]), s.skip(1))
    }
}

/// The lines of `s`, split on newline boundaries.
pub open spec fn split_lines(s: Seq<char>) -> Seq<Seq<char>> {
    split_acc(Seq::empty(), s)
}

/// The tail of a join: each further line preceded by one newline.
pub open spec fn join_rest(ls: Seq<Seq<char>>) -> Seq<char>
    decreases ls.len(),
{
    if ls.len() == 0 {
        Seq::empty()
    } else {
        seq!['\n'] + ls[0] + join_rest(ls.skip(1))
    }
}

/// The lines of `ls` rejoined with a single newline between neighbours: a
/// document of N lines gets N - 1 separators.
pub open spec fn join_lines(ls: Seq<Seq<char>>) -> Seq<char> {
    if ls.len() == 0 {
        Seq::empty()
    } else {
        ls[0] + join_rest(ls.skip(1))
    }
}

/// Decides whether `l` is a timestamp line.
fn check_timestamp(l: &Vec<char>) -> (b: bool)
    ensures
        b == is_timestamp(l@),
{
    if l.len() != 29 {
        return false;
    }
    let arrow = l[12] == ' ' && l[13] == '-' && l[14] == '-' && l[15] == '>' && l[16] == ' ';
    if !arrow {
        return false;
    }
    check_clock_group(l, 0) && check_clock_group(l, 17)
}

/// Decides whether `l` holds a clock group at index `at`.
fn check_clock_group(l: &Vec<char>, at: usize) -> (b: bool)
    requires
        at + 12 <= l.len(),
    ensures
        b == is_clock_group(l@, at as int),
{
    check_digit(l[at]) && check_digit(l[at + 1]) && l[at + 2] == ':' && check_digit(l[at + 3])
        && check_digit(l[at + 4]) && l[at + 5] == ':' && check_digit(l[at + 6]) && check_digit(
        l[at + 7],
    ) && l[at + 8] == ',' && check_digit(l[at + 9]) && check_digit(l[at + 10]) && check_digit(
        l[at + 11],
    )
}

/// Decides whether `c` is an ASCII digit.
fn check_digit(c: char) -> (b: bool)
    ensures
        b == is_ascii_digit(c),
{
    '0' <= c && c <= '9'
}

/// Decides whether `c` is Unicode whitespace.
fn check_whitespace(c: char) -> (b: bool)
    ensures
        b == is_whitespace(c),
{
    ('\u{0009}' <= c && c <= '\u{000d}') || c == ' ' || c == '\u{0085}' || c == '\u{00a0}'
        || c == '\u{1680}' || ('\u{2000}' <= c && c <= '\u{200a}') || c == '\u{2028}'
        || c == '\u{2029}' || c == '\u{202f}' || c == '\u{205f}' || c == '\u{3000}'
}

/// Decides whether `l` is blank.
fn check_blank(l: &Vec<char>) -> (b: bool)
    ensures
        b == is_blank(l@),
{
    let mut i: usize = 0;
    while i < l.len()
        invariant
            i <= l.len(),
            forall|k: int| 0 <= k < i ==> is_whitespace(#[trigger] l@[k]),
        decreases l.len() - i,
    {
        if !check_whitespace(l[i]) {
            return false;
        }
        i += 1;
    }
    true
}

/// Decides whether `l` is a bare sequence-number line.
fn check_sequence_number(l: &Vec<char>) -> (b: bool)
    ensures
        b == is_sequence_number(l@),
{
    if l.len() == 0 {
        return false;
    }
    let mut i: usize = 0;
    while i < l.len()
        invariant
            i <= l.len(),
            forall|k: int| 0 <= k < i ==> is_ascii_digit(#[trigger] l@[k]),
        decreases l.len() - i,
    {
        if !check_digit(l[i]) {
            return false;
        }
        i += 1;
    }
    true
}

/// Classifies one line, trying the four shapes in their fixed order.
pub fn classify(l: &Vec<char>) -> (k: LineKind)
    ensures
        k == line_kind(l@),
{
    if check_timestamp(l) {
        LineKind::Timestamp
    } else if check_blank(l) {
        LineKind::Blank
    } else if check_sequence_number(l) {
        LineKind::SequenceNumber
    } else {
        LineKind::Dialogue
    }
}

/// Rewrites one line: localizes the digits of a dialogue line and keeps any
/// other line as it is.
pub fn fix_line_exec(l: Vec<char>) -> (r: Vec<char>)
    ensures
        r@ == fix_line(l@),
{
    match classify(&l) {
        LineKind::Dialogue => {
            let mut r: Vec<char> = Vec::new();
            let mut i: usize = 0;
            while i < l.len()
                invariant
                    i <= l.len(),
                    r@ == localize_digits_seq(l@.take(i as int)),
                decreases l.len() - i,
            {
                r.push(localize_digit_exec(l[i]));
                i += 1;
                proof {
                    assert(r@ =~= localize_digits_seq(l@.take(i as int)));
                }
            }
            proof {
                assert(l@.take(l@.len() as int) =~= l@);
            }
            r
        },
        _ => l,
    }
}

/// Looks `c` up in the digit table.
fn localize_digit_exec(c: char) -> (r: char)
    ensures
        r == localize_digit(c),
{
    if c == '0' {
        '\u{06f0}'
    } else if c == '1' {
        '\u{06f1}'
    } else if c == '2' {
        '\u{06f2}'
    } else if c == '3' {
        '\u{06f3}'
    } else if c == '4' {
        '\u{06f4}'
    } else if c == '5' {
        '\u{06f5}'
    } else if c == '6' {
        '\u{06f6}'
    } else if c == '7' {
        '\u{06f7}'
    } else if c == '8' {
        '\u{06f8}'
    } else if c == '9' {
        '\u{06f9}'
    } else {
        c
    }
}

/// Splits `v` into its lines on newline boundaries.
pub fn split_into_lines(v: &Vec<char>) -> (ls: Vec<Vec<char>>)
    ensures
        ls.deep_view() == split_lines(v@),
{
    let mut ls: Vec<Vec<char>> = Vec::new();
    let mut cur: Vec<char> = Vec::new();
    let mut i: usize = 0;
    proof {
        assert(v@.skip(0) =~= v@);
        assert(ls.deep_view() + split_acc(cur@, v@) =~= split_acc(cur@, v@));
    }
    while i < v.len()
        invariant
            i <= v.len(),
            split_lines(v@) == ls.deep_view() + split_acc(cur@, v@.skip(i as int)),
        decreases v.len() - i,
    {
        let ghost pre = v@.skip(i as int);
        let ghost old_ls = ls.deep_view();
        let c = v[i];
        proof {
            assert(pre[0] == v@[i as int]);
            assert(pre.skip(1) =~= v@.skip(i as int + 1));
        }
        if c == '\n' {
            if cur.len() > 0 && cur[cur.len() - 1] == '\r' {
                let ghost full = cur@;
                cur.pop();
                proof {
                    assert(cur@ =~= strip_cr(full));
                }
            }
            ls.push(cur);
            cur = Vec::new();
            proof {
                assert(ls.deep_view() =~~= old_ls.push(ls@[ls@.len() - 1]@));
                assert(ls.deep_view() + split_acc(cur@, v@.skip(i as int + 1)) =~~= old_ls + (seq![
                    ls@[ls@.len() - 1]@,
                ] + split_acc(Seq::<char>::empty(), pre.skip(1))));
            }
        } else {
            cur.push(c);
        }
        i += 1;
    }
    proof {
        assert(v@.skip(v@.len() as int) =~= Seq::<char>::empty());
    }
    if cur.len() > 0 {
        let ghost old_ls = ls.deep_view();
        ls.push(cur);
        proof {
            assert(ls.deep_view() =~~= old_ls.push(ls@[ls@.len() - 1]@));
            assert(split_lines(v@) =~~= ls.deep_view());
        }
    } else {
        proof {
            assert(split_lines(v@) =~~= ls.deep_view());
        }
    }
    ls
}

/// Appends the characters of `src` to `dst`.
fn append_chars(dst: &mut Vec<char>, src: &Vec<char>)
    ensures
        final(dst)@ == old(dst)@ + src@,
{
    let mut j: usize = 0;
    proof {
        assert(dst@ =~= old(dst)@ + src@.take(0));
    }
    while j < src.len()
        invariant
            j <= src.len(),
            dst@ == old(dst)@ + src@.take(j as int),
        decreases src.len() - j,
    {
        dst.push(src[j]);
        j += 1;
        proof {
            assert(dst@ =~= old(dst)@ + src@.take(j as int));
        }
    }
    proof {
        assert(src@.take(src@.len() as int) =~= src@);
    }
}

/// Rejoins `ls` with a single newline between neighbouring lines.
pub fn join_into_text(ls: &Vec<Vec<char>>) -> (r: Vec<char>)
    ensures
        r@ == join_lines(ls.deep_view()),
{
    let mut r: Vec<char> = Vec::new();
    if ls.len() == 0 {
        return r;
    }
    append_chars(&mut r, &ls[0]);
    let mut i: usize = 1;
    proof {
        assert(r@ + join_rest(ls.deep_view().skip(1)) =~= join_lines(ls.deep_view()));
    }
    while i < ls.len()
        invariant
            1 <= i <= ls.len(),
            join_lines(ls.deep_view()) == r@ + join_rest(ls.deep_view().skip(i as int)),
        decreases ls.len() - i,
    {
        let ghost pre = ls.deep_view().skip(i as int);
        proof {
            assert(pre[0] == ls.deep_view()[i as int]);
            assert(pre.skip(1) =~= ls.deep_view().skip(i as int + 1));
        }
        r.push('\n');
        append_chars(&mut r, &ls[i]);
        proof {
            assert(ls@[i as int]@ == ls.deep_view()[i as int]);
            assert(r@ + join_rest(ls.deep_view().skip(i as int + 1)) =~= join_lines(
                ls.deep_view(),
            ));
        }
        i += 1;
    }
    proof {
        assert(ls.deep_view().skip(ls@.len() as int) =~= Seq::<Seq<char>>::empty());
        assert(r@ =~= join_lines(ls.deep_view()));
    }
    r
}

/// Rewrites every line of `ls`.
pub fn fix_all_lines(ls: Vec<Vec<char>>) -> (r: Vec<Vec<char>>)
    ensures
        r.deep_view() == fix_lines(ls.deep_view()),
{
    let ghost orig = ls.deep_view();
    let mut ls = ls;
    let mut r: Vec<Vec<char>> = Vec::new();
    let mut i: usize = 0;
    proof {
        assert(r.deep_view() =~~= fix_lines(orig.take(0)));
    }
    while i < ls.len()
        invariant
            i <= ls.len(),
            ls.deep_view() == orig,
            r.deep_view() == fix_lines(orig.take(i as int)),
        decreases ls.len() - i,
    {
        let ghost old_r = r.deep_view();
        let line = ls[i].clone();
        proof {
            assert(line@ =~~= orig[i as int]);
        }
        r.push(fix_line_exec(line));
        i += 1;
        proof {
            assert(r.deep_view() =~~= old_r.push(r@[r@.len() - 1]@));
            assert(r.deep_view() =~~= fix_lines(orig.take(i as int)));
        }
    }
    proof {
        assert(orig.take(orig.len() as int) =~= orig);
    }
    r
}

} // verus!
