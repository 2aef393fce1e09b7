//! Normalization of SRT subtitle text for Persian display: strips italic
//! markup, normalizes Arabic character variants to their Persian forms,
//! converts the question mark, removes the right-to-left embedding mark, and
//! localizes ASCII digits on dialogue lines while leaving timestamp, blank,
//! and sequence-number lines untouched.
#![verifier::loop_isolation(false)]

use vstd::prelude::*;
use vstd::string::StrSliceExecFns;

pub mod chars;
pub mod lines;
pub mod pattern;
pub mod props;

use crate::chars::{convert_question_marks, convert_question_marks_seq, normalize_chars, normalize_seq};
use crate::lines::{fix_all_lines, fix_lines, join_into_text, join_lines, split_into_lines, split_lines};
use crate::pattern::{remove_pat, remove_pattern};

verus! {

/// The italic opening tag.
pub open spec fn open_tag() -> Seq<char> {
    seq!['<', 'i', '>']
}

/// The italic closing tag.
pub open spec fn close_tag() -> Seq<char> {
    seq!['<', '/', 'i', '>']
}

/// The right-to-left embedding mark, as a one-character pattern.
pub open spec fn rtl_mark() -> Seq<char> {
    seq![crate::chars::rtl_embedding()]
}

/// The document-wide stages, in their fixed order: italic tags removed,
/// character variants normalized, question marks converted, and the
/// right-to-left embedding mark deleted.
pub open spec fn global_pass(s: Seq<char>) -> Seq<char> {
    remove_pat(
        convert_question_marks_seq(
            normalize_seq(remove_pat(remove_pat(s, open_tag()), close_tag())),
        ),
        rtl_mark(),
    )
}

/// The lines the rewriter emits: the document after the global stages,
/// split into lines, each rewritten by `fix_line`.
pub open spec fn fixed_lines(s: Seq<char>) -> Seq<Seq<char>> {
    fix_lines(split_lines(global_pass(s)))
}

/// The whole rewrite: the global stages, then per-line digit localization,
/// the lines rejoined with single newlines.
pub open spec fn fix_text(s: Seq<char>) -> Seq<char> {
    join_lines(fixed_lines(s))
}

/// The characters of `s`, gathered into a vector.
fn chars_of(s: &str) -> (v: Vec<char>)
    ensures
        v@ == s@,
{
    let n: usize = s.unicode_len();
    let mut v: Vec<char> = Vec::new();
    let mut i: usize = 0;
    while i < n
        invariant
            i <= n,
            n == s@.len(),
            v@ == s@.take(i as int),
        decreases n - i,
    {
        v.push(s.get_char(i));
        i += 1;
        proof {
            assert(v@ =~= s@.take(i as int));
        }
    }
    proof {
        assert(s@.take(s@.len() as int) =~= s@);
    }
    v
}

/// Relies on `String::from_iter` over `Iterator::copied` of the slice
/// iterator: collecting characters yields the string of exactly those
/// characters, in order.
#[verifier::external_body]
fn string_from_chars(v: &Vec<char>) -> (s: String)
    ensures
        s@ == v@,
{
    v.iter().copied().collect()
}

/// A subtitle document: the full text of an SRT file.
pub struct Subtitle {
    contents: String,
}

impl View for Subtitle {
    type V = Seq<char>;

    closed spec fn view(&self) -> Seq<char> {
        self.contents@
    }
}

impl Subtitle {
    /// Wraps the raw text of a subtitle file.
    pub fn new(contents: String) -> (s: Self)
        ensures
            s@ == contents@,
    {
        Self { contents }
    }

    /// Applies the whole fix pipeline and returns the corrected text. The
    /// operation is total: every input produces the rewrite that `fix_text`
    /// describes.
    pub fn fix(self) -> (r: String)
        ensures
            r@ == fix_text(self@),
    {
        let v = chars_of(self.contents.as_str());
        let mut open_pat: Vec<char> = Vec::new();
        open_pat.push('<');
        open_pat.push('i');
        open_pat.push('>');
        let mut close_pat: Vec<char> = Vec::new();
        close_pat.push('<');
        close_pat.push('/');
        close_pat.push('i');
        close_pat.push('>');
        let mut rtl_pat: Vec<char> = Vec::new();
        rtl_pat.push('\u{202b}');
        proof {
            assert(open_pat@ =~= open_tag());
            assert(close_pat@ =~= close_tag());
            assert(rtl_pat@ =~= rtl_mark());
        }
        let v = remove_pattern(&v, &open_pat);
        let v = remove_pattern(&v, &close_pat);
        let v = normalize_chars(&v);
        let v = convert_question_marks(&v);
        let v = remove_pattern(&v, &rtl_pat);
        let ls = split_into_lines(&v);
        let ls = fix_all_lines(ls);
        let out = join_into_text(&ls);
        string_from_chars(&out)
    }
}

} // verus!
