//! The stated laws of the rewriter, with their supporting lemmas: lines that
//! are not dialogue pass through unchanged, digit localization touches
//! exactly the ASCII digits, line count is preserved, and the pipeline is
//! idempotent on its own output.
use vstd::prelude::*;

use crate::chars::{
    arabic_kaf, arabic_yeh, is_ascii_digit, is_persian_digit, is_whitespace, localize_digit,
    localize_digits_seq,
};
use crate::lines::{
    fix_line, is_blank, is_sequence_number, is_timestamp, join_lines, join_rest, line_kind,
    split_acc, split_lines, strip_cr,
};
use crate::pattern::{contains_pat, has_match_at, remove_pat};

verus! {

/// Pass-through, one line: a line not classified as dialogue is kept
/// character for character.
pub proof fn lemma_pass_through_line(l: Seq<char>)
    requires
        !(line_kind(l) is Dialogue),
    ensures
        fix_line(l) == l,
{
}

/// Pass-through, whole document: every emitted line whose source line was
/// classified as timestamp, blank, or sequence number equals that source
/// line.
pub proof fn lemma_pass_through(s: Seq<char>, j: int)
    requires
        0 <= j < crate::lines::split_lines(crate::global_pass(s)).len(),
        !(line_kind(crate::lines::split_lines(crate::global_pass(s))[j]) is Dialogue),
    ensures
        crate::fixed_lines(s)[j] == crate::lines::split_lines(crate::global_pass(s))[j],
{
}

/// Digit-mapping totality: on a dialogue line every ASCII digit becomes its
/// glyph from the fixed table and every other character is kept, position
/// by position.
pub proof fn lemma_digit_localization(l: Seq<char>)
    requires
        line_kind(l) is Dialogue,
    ensures
        fix_line(l).len() == l.len(),
        forall|i: int|
            0 <= i < l.len() && is_ascii_digit(#[trigger] l[i]) ==> fix_line(l)[i]
                == localize_digit(l[i]) && fix_line(l)[i] != l[i],
        forall|i: int|
            0 <= i < l.len() && !is_ascii_digit(#[trigger] l[i]) ==> fix_line(l)[i] == l[i],
{
}

/// The per-line rewrite never changes a line's length.
pub proof fn lemma_fix_line_len(l: Seq<char>)
    ensures
        fix_line(l).len() == l.len(),
{
}

/// A character found in a subrange is found in the whole sequence.
proof fn lemma_subrange_contains(s: Seq<char>, a: int, b: int, c: char)
    requires
        0 <= a <= b <= s.len(),
        s.subrange(a, b).contains(c),
    ensures
        s.contains(c),
{
    let i = choose|i: int| 0 <= i < s.subrange(a, b).len() && s.subrange(a, b)[i] == c;
    assert(s[a + i] == c);
}

/// Removing a pattern from a sequence that holds no occurrence of it
/// changes nothing.
pub proof fn lemma_remove_pat_id(s: Seq<char>, p: Seq<char>)
    requires
        p.len() > 0,
        !contains_pat(s, p),
    ensures
        remove_pat(s, p) == s,
    decreases s.len(),
{
    if s.len() == 0 {
    } else {
        if p.len() <= s.len() && s.subrange(0, p.len() as int) == p {
            assert(has_match_at(s, p, 0));
        }
        assert(!contains_pat(s.subrange(1, s.len() as int), p)) by {
            if contains_pat(s.subrange(1, s.len() as int), p) {
                let i = choose|i: int| has_match_at(s.subrange(1, s.len() as int), p, i);
                assert(s.subrange(1, s.len() as int).subrange(i, i + p.len() as int) =~= s
                    .subrange(i + 1, i + 1 + p.len() as int));
                assert(has_match_at(s, p, i + 1));
            }
        }
        lemma_remove_pat_id(s.subrange(1, s.len() as int), p);
        assert(seq![s[0]] + s.subrange(1, s.len() as int) =~= s);
    }
}

/// Pattern removal adds no character: a character absent from the input is
/// absent from the result.
pub proof fn lemma_remove_pat_no_char(s: Seq<char>, p: Seq<char>, c: char)
    requires
        !s.contains(c),
    ensures
        !remove_pat(s, p).contains(c),
    decreases s.len(),
{
    if s.len() == 0 || p.len() == 0 {
    } else if p.len() <= s.len() && s.subrange(0, p.len() as int) == p {
        assert(!s.subrange(p.len() as int, s.len() as int).contains(c)) by {
            if s.subrange(p.len() as int, s.len() as int).contains(c) {
                lemma_subrange_contains(s, p.len() as int, s.len() as int, c);
            }
        }
        lemma_remove_pat_no_char(s.subrange(p.len() as int, s.len() as int), p, c);
    } else {
        assert(!s.subrange(1, s.len() as int).contains(c)) by {
            if s.subrange(1, s.len() as int).contains(c) {
                lemma_subrange_contains(s, 1, s.len() as int, c);
            }
        }
        lemma_remove_pat_no_char(s.subrange(1, s.len() as int), p, c);
        assert(s[0] != c);
        assert(forall|i: int|
            0 <= i < remove_pat(s, p).len() ==> #[trigger] remove_pat(s, p)[i] != c);
    }
}

/// Removing a one-character pattern removes every occurrence of that
/// character.
pub proof fn lemma_remove_single_char_all(s: Seq<char>, c: char)
    ensures
        !remove_pat(s, seq![c]).contains(c),
    decreases s.len(),
{
    let p = seq![c];
    if s.len() == 0 {
    } else if s.subrange(0, 1) == p {
        lemma_remove_single_char_all(s.subrange(1, s.len() as int), c);
    } else {
        assert(s.subrange(0, 1) =~= seq![s[0]]);
        assert(s[0] != c);
        lemma_remove_single_char_all(s.subrange(1, s.len() as int), c);
        assert(forall|i: int|
            0 <= i < remove_pat(s, p).len() ==> #[trigger] remove_pat(s, p)[i] != c);
    }
}

/// A sequence without a character holds no occurrence of it as a
/// one-character pattern.
pub proof fn lemma_no_char_no_single_pat(s: Seq<char>, c: char)
    requires
        !s.contains(c),
    ensures
        !contains_pat(s, seq![c]),
{
    if contains_pat(s, seq![c]) {
        let i = choose|i: int| has_match_at(s, seq![c], i);
        assert(s.subrange(i, i + 1)[0] == c);
        assert(s[i] == c);
    }
}

/// Splitting walks a newline-free prefix straight into the partial line.
proof fn lemma_split_acc_append(cur: Seq<char>, l: Seq<char>, t: Seq<char>)
    requires
        !l.contains('\n'),
    ensures
        split_acc(cur, l + t) == split_acc(cur + l, t),
    decreases l.len(),
{
    if l.len() == 0 {
        assert(l + t =~= t);
        assert(cur + l =~= cur);
    } else {
        assert((l + t)[0] == l[0]);
        assert(l[0] != '\n');
        assert((l + t).skip(1) =~= l.skip(1) + t);
        assert(!l.skip(1).contains('\n')) by {
            if l.skip(1).contains('\n') {
                let i = choose|i: int| 0 <= i < l.skip(1).len() && l.skip(1)[i] == '\n';
                assert(l[i + 1] == '\n');
            }
        }
        lemma_split_acc_append(cur.push(l[0]), l.skip(1), t);
        assert(cur.push(l[0]) + l.skip(1) =~= cur + l);
    }
}

/// Every line that splitting produces is free of newlines, as long as the
/// partial line carried in is.
proof fn lemma_split_acc_no_newline(cur: Seq<char>, s: Seq<char>)
    requires
        !cur.contains('\n'),
    ensures
        forall|j: int|
            0 <= j < split_acc(cur, s).len() ==> !(#[trigger] split_acc(cur, s)[j]).contains(
                '\n',
            ),
    decreases s.len(),
{
    if s.len() == 0 {
        assert forall|j: int| 0 <= j < split_acc(cur, s).len() implies !(
        #[trigger] split_acc(cur, s)[j]).contains('\n') by {
            assert(split_acc(cur, s)[j] == cur);
        }
    } else if s[0] == '\n' {
        assert(!strip_cr(cur).contains('\n')) by {
            if strip_cr(cur).contains('\n') {
                let i = choose|i: int| 0 <= i < strip_cr(cur).len() && strip_cr(cur)[i] == '\n';
                assert(cur[i] == '\n');
            }
        }
        lemma_split_acc_no_newline(Seq::empty(), s.skip(1));
        let rest = split_acc(Seq::empty(), s.skip(1));
        assert forall|j: int| 0 <= j < split_acc(cur, s).len() implies !(
        #[trigger] split_acc(cur, s)[j]).contains('\n') by {
            if j > 0 {
                assert(split_acc(cur, s)[j] == rest[j - 1]);
            }
        }
    } else {
        assert(!cur.push(s[0]).contains('\n')) by {
            if cur.push(s[0]).contains('\n') {
                let i = choose|i: int| 0 <= i < cur.push(s[0]).len() && cur.push(s[0])[i] == '\n';
                if i < cur.len() {
                    assert(cur[i] == '\n');
                }
            }
        }
        lemma_split_acc_no_newline(cur.push(s[0]), s.skip(1));
        assert forall|j: int| 0 <= j < split_acc(cur, s).len() implies !(
        #[trigger] split_acc(cur, s)[j]).contains('\n') by {
            assert(split_acc(cur, s)[j] == split_acc(cur.push(s[0]), s.skip(1))[j]);
        }
    }
}

/// The lines of a document are free of newlines.
pub proof fn lemma_split_lines_no_newline(s: Seq<char>)
    ensures
        forall|j: int|
            0 <= j < split_lines(s).len() ==> !(#[trigger] split_lines(s)[j]).contains('\n'),
{
    lemma_split_acc_no_newline(Seq::empty(), s);
}

/// Rejoined lines split back into exactly those lines, as long as no line
/// holds a newline, no line but the last ends in a carriage return, and the
/// last line is nonempty.
pub proof fn lemma_split_join(ls: Seq<Seq<char>>)
    requires
        forall|j: int| 0 <= j < ls.len() ==> !(#[trigger] ls[j]).contains('\n'),
        forall|j: int|
            0 <= j < ls.len() - 1 ==> !((#[trigger] ls[j]).len() > 0 && ls[j][ls[j].len() - 1]
                == '\r'),
        ls.len() > 0 ==> ls[ls.len() - 1].len() > 0,
    ensures
        split_lines(join_lines(ls)) == ls,
    decreases ls.len(),
{
    if ls.len() == 0 {
    } else if ls.len() == 1 {
        assert(join_lines(ls) =~= ls[0] + Seq::<char>::empty());
        lemma_split_acc_append(Seq::empty(), ls[0], Seq::empty());
        assert(Seq::<char>::empty() + ls[0] =~= ls[0]);
        assert(split_lines(join_lines(ls)) =~= ls);
    } else {
        let tail = ls.skip(1);
        assert(join_rest(tail) =~= seq!['\n'] + join_lines(tail)) by {
            assert(tail[0] == ls[1]);
            assert(join_lines(tail) =~= tail[0] + join_rest(tail.skip(1)));
            assert(seq!['\n'] + (tail[0] + join_rest(tail.skip(1))) =~= seq!['\n'] + tail[0]
                + join_rest(tail.skip(1)));
        }
        assert(join_lines(ls) =~= ls[0] + (seq!['\n'] + join_lines(tail)));
        lemma_split_acc_append(Seq::empty(), ls[0], seq!['\n'] + join_lines(tail));
        assert(Seq::<char>::empty() + ls[0] =~= ls[0]);
        assert((seq!['\n'] + join_lines(tail))[0] == '\n');
        assert((seq!['\n'] + join_lines(tail)).skip(1) =~= join_lines(tail));
        assert(strip_cr(ls[0]) == ls[0]);
        assert(forall|j: int| 0 <= j < tail.len() ==> tail[j] == ls[j + 1]);
        lemma_split_join(tail);
        assert(split_lines(join_lines(ls)) =~= seq![ls[0]] + tail);
        assert(seq![ls[0]] + tail =~= ls);
    }
}

/// Rejoined lines split back into the same number of lines, as long as no
/// line holds a newline and the last line is nonempty; trailing carriage
/// returns may change a line's content on the round trip, never the count.
pub proof fn lemma_split_join_len(ls: Seq<Seq<char>>)
    requires
        forall|j: int| 0 <= j < ls.len() ==> !(#[trigger] ls[j]).contains('\n'),
        ls.len() > 0 ==> ls[ls.len() - 1].len() > 0,
    ensures
        split_lines(join_lines(ls)).len() == ls.len(),
    decreases ls.len(),
{
    if ls.len() == 0 {
    } else if ls.len() == 1 {
        assert(join_lines(ls) =~= ls[0] + Seq::<char>::empty());
        lemma_split_acc_append(Seq::empty(), ls[0], Seq::empty());
        assert(Seq::<char>::empty() + ls[0] =~= ls[0]);
    } else {
        let tail = ls.skip(1);
        assert(join_rest(tail) =~= seq!['\n'] + join_lines(tail)) by {
            assert(tail[0] == ls[1]);
            assert(join_lines(tail) =~= tail[0] + join_rest(tail.skip(1)));
        }
        assert(join_lines(ls) =~= ls[0] + (seq!['\n'] + join_lines(tail)));
        lemma_split_acc_append(Seq::empty(), ls[0], seq!['\n'] + join_lines(tail));
        assert(Seq::<char>::empty() + ls[0] =~= ls[0]);
        assert((seq!['\n'] + join_lines(tail))[0] == '\n');
        assert((seq!['\n'] + join_lines(tail)).skip(1) =~= join_lines(tail));
        assert(forall|j: int| 0 <= j < tail.len() ==> tail[j] == ls[j + 1]);
        lemma_split_join_len(tail);
    }
}

/// Splitting invents no character: one absent from the partial line and the
/// rest of the document is absent from every line.
proof fn lemma_split_acc_no_char(cur: Seq<char>, s: Seq<char>, c: char)
    requires
        !cur.contains(c),
        !s.contains(c),
    ensures
        forall|j: int|
            0 <= j < split_acc(cur, s).len() ==> !(#[trigger] split_acc(cur, s)[j]).contains(c),
    decreases s.len(),
{
    if s.len() == 0 {
        assert forall|j: int| 0 <= j < split_acc(cur, s).len() implies !(
        #[trigger] split_acc(cur, s)[j]).contains(c) by {
            assert(split_acc(cur, s)[j] == cur);
        }
    } else {
        assert(s[0] != c);
        assert(!s.skip(1).contains(c)) by {
            if s.skip(1).contains(c) {
                let i = choose|i: int| 0 <= i < s.skip(1).len() && s.skip(1)[i] == c;
                assert(s[i + 1] == c);
            }
        }
        if s[0] == '\n' {
            assert(!strip_cr(cur).contains(c)) by {
                if strip_cr(cur).contains(c) {
                    let i = choose|i: int| 0 <= i < strip_cr(cur).len() && strip_cr(cur)[i] == c;
                    assert(cur[i] == c);
                }
            }
            lemma_split_acc_no_char(Seq::empty(), s.skip(1), c);
            let rest = split_acc(Seq::empty(), s.skip(1));
            assert forall|j: int| 0 <= j < split_acc(cur, s).len() implies !(
            #[trigger] split_acc(cur, s)[j]).contains(c) by {
                if j > 0 {
                    assert(split_acc(cur, s)[j] == rest[j - 1]);
                }
            }
        } else {
            assert(!cur.push(s[0]).contains(c)) by {
                if cur.push(s[0]).contains(c) {
                    let i = choose|i: int|
                        0 <= i < cur.push(s[0]).len() && cur.push(s[0])[i] == c;
                    if i < cur.len() {
                        assert(cur[i] == c);
                    }
                }
            }
            lemma_split_acc_no_char(cur.push(s[0]), s.skip(1), c);
            assert forall|j: int| 0 <= j < split_acc(cur, s).len() implies !(
            #[trigger] split_acc(cur, s)[j]).contains(c) by {
                assert(split_acc(cur, s)[j] == split_acc(cur.push(s[0]), s.skip(1))[j]);
            }
        }
    }
}

/// Joining invents no character but the newline separator.
proof fn lemma_join_no_char(ls: Seq<Seq<char>>, c: char)
    requires
        c != '\n',
        forall|j: int| 0 <= j < ls.len() ==> !(#[trigger] ls[j]).contains(c),
    ensures
        !join_lines(ls).contains(c),
        !join_rest(ls).contains(c),
    decreases ls.len(),
{
    if ls.len() == 0 {
    } else {
        assert(forall|j: int| 0 <= j < ls.skip(1).len() ==> ls.skip(1)[j] == ls[j + 1]);
        lemma_join_no_char(ls.skip(1), c);
        assert(!(ls[0] + join_rest(ls.skip(1))).contains(c)) by {
            if (ls[0] + join_rest(ls.skip(1))).contains(c) {
                let i = choose|i: int|
                    0 <= i < (ls[0] + join_rest(ls.skip(1))).len() && (ls[0] + join_rest(
                        ls.skip(1),
                    ))[i] == c;
                if i < ls[0].len() {
                    assert(ls[0][i] == c);
                } else {
                    assert(join_rest(ls.skip(1))[i - ls[0].len()] == c);
                }
            }
        }
        assert(!(seq!['\n'] + ls[0] + join_rest(ls.skip(1))).contains(c)) by {
            if (seq!['\n'] + ls[0] + join_rest(ls.skip(1))).contains(c) {
                let i = choose|i: int|
                    0 <= i < (seq!['\n'] + ls[0] + join_rest(ls.skip(1))).len() && (seq!['\n']
                        + ls[0] + join_rest(ls.skip(1)))[i] == c;
                if i >= 1 {
                    assert((ls[0] + join_rest(ls.skip(1)))[i - 1] == c);
                }
            }
        }
    }
}

/// The per-line rewrite invents no character beyond the Persian digit
/// glyphs.
proof fn lemma_fix_line_no_char(l: Seq<char>, c: char)
    requires
        !l.contains(c),
        !is_persian_digit(c),
    ensures
        !fix_line(l).contains(c),
{
    if line_kind(l) is Dialogue {
        if fix_line(l).contains(c) {
            let i = choose|i: int| 0 <= i < fix_line(l).len() && fix_line(l)[i] == c;
            assert(localize_digit(l[i]) == c);
            assert(l[i] == c);
        }
    }
}

/// After the document-wide stages no Arabic yeh or kaf variant, no ASCII
/// question mark, and no right-to-left embedding mark is left.
pub proof fn lemma_global_pass_chars(s: Seq<char>)
    ensures
        !crate::global_pass(s).contains(arabic_yeh()),
        !crate::global_pass(s).contains(arabic_kaf()),
        !crate::global_pass(s).contains('?'),
        !crate::global_pass(s).contains(crate::chars::rtl_embedding()),
{
    let u0 = remove_pat(remove_pat(s, crate::open_tag()), crate::close_tag());
    let u1 = crate::chars::normalize_seq(u0);
    let u2 = crate::chars::convert_question_marks_seq(u1);
    assert(!u1.contains(arabic_yeh())) by {
        if u1.contains(arabic_yeh()) {
            let i = choose|i: int| 0 <= i < u1.len() && u1[i] == arabic_yeh();
            assert(crate::chars::normalize_char(u0[i]) == arabic_yeh());
        }
    }
    assert(!u1.contains(arabic_kaf())) by {
        if u1.contains(arabic_kaf()) {
            let i = choose|i: int| 0 <= i < u1.len() && u1[i] == arabic_kaf();
            assert(crate::chars::normalize_char(u0[i]) == arabic_kaf());
        }
    }
    assert(!u2.contains('?')) by {
        if u2.contains('?') {
            let i = choose|i: int| 0 <= i < u2.len() && u2[i] == '?';
            assert(crate::chars::convert_question_mark(u1[i]) == '?');
        }
    }
    assert(!u2.contains(arabic_yeh())) by {
        if u2.contains(arabic_yeh()) {
            let i = choose|i: int| 0 <= i < u2.len() && u2[i] == arabic_yeh();
            assert(u1[i] == arabic_yeh());
        }
    }
    assert(!u2.contains(arabic_kaf())) by {
        if u2.contains(arabic_kaf()) {
            let i = choose|i: int| 0 <= i < u2.len() && u2[i] == arabic_kaf();
            assert(u1[i] == arabic_kaf());
        }
    }
    lemma_remove_single_char_all(u2, crate::chars::rtl_embedding());
    assert(crate::rtl_mark() =~= seq![crate::chars::rtl_embedding()]);
    lemma_remove_pat_no_char(u2, crate::rtl_mark(), arabic_yeh());
    lemma_remove_pat_no_char(u2, crate::rtl_mark(), arabic_kaf());
    lemma_remove_pat_no_char(u2, crate::rtl_mark(), '?');
}

/// A character absent after the document-wide stages, not a Persian digit
/// and not the newline, is absent from the final text.
proof fn lemma_fix_text_no_char(s: Seq<char>, c: char)
    requires
        !crate::global_pass(s).contains(c),
        !is_persian_digit(c),
        c != '\n',
    ensures
        !crate::fix_text(s).contains(c),
{
    let u = crate::global_pass(s);
    let ls = split_lines(u);
    let fl = crate::fixed_lines(s);
    lemma_split_acc_no_char(Seq::empty(), u, c);
    assert forall|j: int| 0 <= j < fl.len() implies !(#[trigger] fl[j]).contains(c) by {
        assert(fl[j] == fix_line(ls[j]));
        lemma_fix_line_no_char(ls[j], c);
    }
    lemma_join_no_char(fl, c);
}

/// The final text never holds an Arabic yeh or kaf variant, an ASCII
/// question mark, or a right-to-left embedding mark: each substitution's
/// own output never re-triggers it.
pub proof fn lemma_fix_text_chars(s: Seq<char>)
    ensures
        !crate::fix_text(s).contains(arabic_yeh()),
        !crate::fix_text(s).contains(arabic_kaf()),
        !crate::fix_text(s).contains('?'),
        !crate::fix_text(s).contains(crate::chars::rtl_embedding()),
{
    lemma_global_pass_chars(s);
    lemma_fix_text_no_char(s, arabic_yeh());
    lemma_fix_text_no_char(s, arabic_kaf());
    lemma_fix_text_no_char(s, '?');
    lemma_fix_text_no_char(s, crate::chars::rtl_embedding());
}

/// The per-line rewrite is idempotent: localizing the digits of a dialogue
/// line leaves a line that is still dialogue and has no ASCII digit left.
pub proof fn lemma_fix_line_idempotent(l: Seq<char>)
    ensures
        fix_line(fix_line(l)) == fix_line(l),
{
    if line_kind(l) is Dialogue {
        let m = localize_digits_seq(l);
        assert(!is_timestamp(m)) by {
            if is_timestamp(m) {
                assert(is_ascii_digit(m[0]));
                assert(m[0] == localize_digit(l[0]));
            }
        }
        assert(!is_blank(m)) by {
            assert(!is_blank(l));
            let i = choose|i: int| 0 <= i < l.len() && !is_whitespace(l[i]);
            assert(m[i] == localize_digit(l[i]));
            assert(!is_whitespace(m[i]));
        }
        assert(!is_sequence_number(m)) by {
            if is_sequence_number(m) {
                assert(is_ascii_digit(m[0]));
                assert(m[0] == localize_digit(l[0]));
            }
        }
        assert(fix_line(m) =~= m) by {
            assert(line_kind(m) is Dialogue);
            assert forall|i: int| 0 <= i < m.len() implies localize_digits_seq(m)[i] == m[i] by {
                assert(m[i] == localize_digit(l[i]));
            }
        }
    }
}

/// Whether a split of `ls`'s rejoin gives back exactly `ls`: no line but
/// the last may end in a carriage return (rejoining would turn it into a
/// `\r\n` ending that a second split strips), and the last line must be
/// nonempty (a rejoin keeps no trailing newline).
pub open spec fn rejoinable(ls: Seq<Seq<char>>) -> bool {
    &&& forall|j: int|
        0 <= j < ls.len() - 1 ==> !((#[trigger] ls[j]).len() > 0 && ls[j][ls[j].len() - 1]
            == '\r')
    &&& ls.len() > 0 ==> ls[ls.len() - 1].len() > 0
}

/// Idempotence: running the pipeline on its own output changes nothing, as
/// long as that output holds no leftover italic tag (removal can uncover
/// one, as in `<\u{202b}i>`) and its lines rejoin cleanly (see
/// `rejoinable`; `a\n\n` loses its trailing empty line). No substitution
/// re-triggers on its own output, so no further condition is needed.
pub proof fn lemma_fix_idempotent(s: Seq<char>)
    requires
        !contains_pat(crate::fix_text(s), crate::open_tag()),
        !contains_pat(crate::fix_text(s), crate::close_tag()),
        rejoinable(crate::fixed_lines(s)),
    ensures
        crate::fix_text(crate::fix_text(s)) == crate::fix_text(s),
{
    let t = crate::fix_text(s);
    let u = crate::global_pass(s);
    let ls = split_lines(u);
    let fl = crate::fixed_lines(s);
    assert forall|j: int| 0 <= j < fl.len() implies !(#[trigger] fl[j]).contains('\n') by {
        assert(fl[j] == fix_line(ls[j]));
        lemma_split_lines_no_newline(u);
        lemma_fix_line_no_char(ls[j], '\n');
    }
    lemma_split_join(fl);
    assert(split_lines(t) == fl);
    lemma_fix_text_chars(s);
    assert(remove_pat(remove_pat(t, crate::open_tag()), crate::close_tag()) == t) by {
        lemma_remove_pat_id(t, crate::open_tag());
        lemma_remove_pat_id(t, crate::close_tag());
    }
    assert(crate::chars::normalize_seq(t) =~= t) by {
        assert forall|i: int| 0 <= i < t.len() implies crate::chars::normalize_char(t[i])
            == t[i] by {
            if t[i] == arabic_yeh() || t[i] == arabic_kaf() {
                assert(t.contains(t[i]));
            }
        }
    }
    assert(crate::chars::convert_question_marks_seq(t) =~= t) by {
        assert forall|i: int| 0 <= i < t.len() implies crate::chars::convert_question_mark(t[i])
            == t[i] by {
            if t[i] == '?' {
                assert(t.contains(t[i]));
            }
        }
    }
    assert(remove_pat(t, crate::rtl_mark()) == t) by {
        assert(crate::rtl_mark() =~= seq![crate::chars::rtl_embedding()]);
        lemma_no_char_no_single_pat(t, crate::chars::rtl_embedding());
        lemma_remove_pat_id(t, crate::rtl_mark());
    }
    assert(crate::global_pass(t) == t);
    assert(crate::fixed_lines(t) =~= fl) by {
        assert forall|j: int| 0 <= j < fl.len() implies crate::lines::fix_lines(fl)[j]
            == fl[j] by {
            assert(fl[j] == fix_line(ls[j]));
            lemma_fix_line_idempotent(ls[j]);
        }
    }
}

/// Line-count preservation: the output has as many lines as the input, as
/// long as the document-wide removals do not swallow a whole trailing line
/// (as they do in `a\n<i>`) and the last line does not come out empty (as
/// in `a\n\n`, whose rejoin keeps no trailing newline).
pub proof fn lemma_line_count(s: Seq<char>)
    requires
        split_lines(crate::global_pass(s)).len() == split_lines(s).len(),
        split_lines(crate::global_pass(s)).len() > 0 ==> split_lines(crate::global_pass(s))[
            split_lines(crate::global_pass(s)).len() - 1].len() > 0,
    ensures
        split_lines(crate::fix_text(s)).len() == split_lines(s).len(),
{
    let u = crate::global_pass(s);
    let ls = split_lines(u);
    let fl = crate::fixed_lines(s);
    assert forall|j: int| 0 <= j < fl.len() implies !(#[trigger] fl[j]).contains('\n') by {
        assert(fl[j] == fix_line(ls[j]));
        lemma_split_lines_no_newline(u);
        lemma_fix_line_no_char(ls[j], '\n');
    }
    if fl.len() > 0 {
        assert(fl[fl.len() - 1] == fix_line(ls[ls.len() - 1]));
        lemma_fix_line_len(ls[ls.len() - 1]);
    }
    lemma_split_join_len(fl);
}

} // verus!


