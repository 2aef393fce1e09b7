//! Character-level substitutions: the fixed tables that the rewrite pipeline
//! applies over a whole document or over a single dialogue line.
use vstd::prelude::*;

verus! {

/// The Arabic yeh variant that is rewritten to the Persian yeh.
pub open spec fn arabic_yeh() -> char {
    '\u{064a}'
}

/// The Persian yeh.
pub open spec fn persian_yeh() -> char {
    '\u{06cc}'
}

/// The Arabic kaf variant that is rewritten to the Persian kaf.
pub open spec fn arabic_kaf() -> char {
    '\u{0643}'
}

/// The Persian kaf.
pub open spec fn persian_kaf() -> char {
    '\u{06a9}'
}

/// The Persian/Arabic question mark that replaces the ASCII one.
pub open spec fn persian_question_mark() -> char {
    '\u{061f}'
}

/// The Unicode Right-to-Left Embedding control character.
pub open spec fn rtl_embedding() -> char {
    '\u{202b}'
}

/// Character normalization: the two Arabic-script variants are mapped to
/// their Persian forms; every other character is kept.
pub open spec fn normalize_char(c: char) -> char {
    if c == arabic_yeh() {
        persian_yeh()
    } else if c == arabic_kaf() {
        persian_kaf()
    } else {
        c
    }
}

/// Question-mark conversion: the ASCII question mark becomes the Persian
/// one; every other character is kept.
pub open spec fn convert_question_mark(c: char) -> char {
    if c == '?' {
        persian_question_mark()
    } else {
        c
    }
}

/// Whether `c` is an ASCII decimal digit.
pub open spec fn is_ascii_digit(c: char) -> bool {
    '0' <= c && c <= '9'
}

/// The fixed digit table: each ASCII digit maps to the Persian digit glyph
/// of the same value; every other character is kept.
pub open spec fn localize_digit(c: char) -> char {
    if c == '0' {
        '\u{06f0}'
    } else if c == '1' {
        '\u{06f1}'
    } else if c == '2' {
        '\u{06f2}'
    } else if c == '3' {
        '\u{06f3}'
    } else if c == '4' {
        '\u{06f4}'
    } else if c == '5' {
        '\u{06f5}'
    } else if c == '6' {
        '\u{06f6}'
    } else if c == '7' {
        '\u{06f7}'
    } else if c == '8' {
        '\u{06f8}'
    } else if c == '9' {
        '\u{06f9}'
    } else {
        c
    }
}

/// Whether `c` is one of the ten Persian digit glyphs of the digit table.
pub open spec fn is_persian_digit(c: char) -> bool {
    '\u{06f0}' <= c && c <= '\u{06f9}'
}

/// Whether `c` has the Unicode `White_Space` property, the set that
/// `str::trim` strips.
pub open spec fn is_whitespace(c: char) -> bool {
    ('\u{0009}' <= c && c <= '\u{000d}') || c == ' ' || c == '\u{0085}' || c == '\u{00a0}'
        || c == '\u{1680}' || ('\u{2000}' <= c && c <= '\u{200a}') || c == '\u{2028}'
        || c == '\u{2029}' || c == '\u{202f}' || c == '\u{205f}' || c == '\u{3000}'
}

/// A sequence with character normalization applied at every position.
pub open spec fn normalize_seq(s: Seq<char>) -> Seq<char> {
    Seq::new(s.len(), |i: int| normalize_char(s[i]))
}

/// A sequence with question-mark conversion applied at every position.
pub open spec fn convert_question_marks_seq(s: Seq<char>) -> Seq<char> {
    Seq::new(s.len(), |i: int| convert_question_mark(s[i]))
}

/// A sequence with digit localization applied at every position.
pub open spec fn localize_digits_seq(s: Seq<char>) -> Seq<char> {
    Seq::new(s.len(), |i: int| localize_digit(s[i]))
}

/// Applies `normalize_char` to every character of `v`.
pub fn normalize_chars(v: &Vec<char>) -> (r: Vec<char>)
    ensures
        r@ == normalize_seq(v@),
{
    let mut r: Vec<char> = Vec::new();
    let mut i: usize = 0;
    while i < v.len()
        invariant
            i <= v.len(),
            r@ == normalize_seq(v@.take(i as int)),
        decreases v.len() - i,
    {
        let c = v[i];
        if c == '\u{064a}' {
            r.push('\u{06cc}');
        } else if c == '\u{0643}' {
            r.push('\u{06a9}');
        } else {
            r.push(c);
        }
        i += 1;
        proof {
            assert(r@ =~= normalize_seq(v@.take(i as int)));
        }
    }
    proof {
        assert(v@.take(v@.len() as int) =~= v@);
    }
    r
}

/// Applies `convert_question_mark` to every character of `v`.
pub fn convert_question_marks(v: &Vec<char>) -> (r: Vec<char>)
    ensures
        r@ == convert_question_marks_seq(v@),
{
    let mut r: Vec<char> = Vec::new();
    let mut i: usize = 0;
    while i < v.len()
        invariant
            i <= v.len(),
            r@ == convert_question_marks_seq(v@.take(i as int)),
        decreases v.len() - i,
    {
        let c = v[i];
        if c == '?' {
            r.push('\u{061f}');
        } else {
            r.push(c);
        }
        i += 1;
        proof {
            assert(r@ =~= convert_question_marks_seq(v@.take(i as int)));
        }
    }
    proof {
        assert(v@.take(v@.len() as int) =~= v@);
    }
    r
}

} // verus!
