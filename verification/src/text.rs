//! Character-level text helpers shared by the vocabulary and the
//! detokenizer: piece display, space trimming, and the few character
//! classifications the digit-spacing heuristic needs.

use vstd::prelude::*;
use vstd::string::StrSliceExecFns;
use vstd::string::StringExecFns;

verus! {

/// The SentencePiece word-boundary marker U+2581.
pub open spec fn boundary_char() -> char {
    '\u{2581}'
}

/// What `String::from_utf8_lossy` decodes a byte sequence to. The result is
/// a function of the bytes alone.
pub uninterp spec fn lossy_decode(bytes: Seq<u8>) -> Seq<char>;

/// Relies on `String::from_utf8_lossy`: decodes bytes as UTF-8, substituting
/// U+FFFD for invalid sequences; the result depends on the bytes alone.
#[verifier::external_body]
pub fn bytes_to_string_lossy(bytes: &[u8]) -> (r: String)
    ensures
        r@ == lossy_decode(bytes@),
{
    String::from_utf8_lossy(bytes).into_owned()
}

/// Relies on `String::push`: appends one character at the end.
#[verifier::external_body]
pub fn push_char(s: &mut String, c: char)
    ensures
        final(s)@ == old(s)@.push(c),
{
    s.push(c);
}

/// Whether `char::is_alphabetic` holds of a character (the Unicode
/// `Alphabetic` property); a function of the character alone.
pub uninterp spec fn alpha(c: char) -> bool;

/// Relies on `char::is_alphabetic`: tests the Unicode `Alphabetic` property.
pub assume_specification[ char::is_alphabetic ](c: char) -> (r: bool)
    ensures
        r == alpha(c),
;

/// An ASCII decimal digit.
pub open spec fn is_digit_char(c: char) -> bool {
    48 <= c as u32 <= 57
}

/// Tests whether a character is an ASCII decimal digit.
pub fn digit_char(c: char) -> (r: bool)
    ensures
        r == is_digit_char(c),
{
    let u = c as u32;
    48 <= u && u <= 57
}

/// A piece's display text: a leading word-boundary marker becomes one ASCII
/// space, the rest of the piece is kept verbatim.
pub open spec fn piece_display(p: Seq<char>) -> Seq<char> {
    if p.len() > 0 && p[0] == boundary_char() {
        seq![' '] + p.subrange(1, p.len() as int)
    } else {
        p
    }
}

/// Renders a piece for display, replacing a leading word-boundary marker
/// with a space.
pub fn display_piece(p: &String) -> (r: String)
    ensures
        r@ == piece_display(p@),
{
    let s = p.as_str();
    let n = s.unicode_len();
    if n > 0 && s.get_char(0) == '\u{2581}' {
        let mut out = String::new();
        push_char(&mut out, ' ');
        out.append(s.substring_char(1, n));
        proof {
            assert(out@ =~= piece_display(p@));
        }
        out
    } else {
        let r = s.to_owned();
        r
    }
}

/// The sequence with its leading ASCII spaces removed.
pub open spec fn trim_leading_spaces(s: Seq<char>) -> Seq<char>
    decreases s.len(),
{
    if s.len() > 0 && s[0] == ' ' {
        trim_leading_spaces(s.subrange(1, s.len() as int))
    } else {
        s
    }
}

/// The sequence with its trailing ASCII spaces removed.
pub open spec fn trim_trailing_spaces(s: Seq<char>) -> Seq<char>
    decreases s.len(),
{
    if s.len() > 0 && s[s.len() - 1] == ' ' {
        trim_trailing_spaces(s.subrange(0, s.len() - 1))
    } else {
        s
    }
}

/// Both trims applied: no leading and no trailing ASCII spaces remain.
pub open spec fn trim_spaces(s: Seq<char>) -> Seq<char> {
    trim_trailing_spaces(trim_leading_spaces(s))
}

/// Dropping leading spaces reaches the first non-space position.
proof fn lemma_trim_leading_at(s: Seq<char>, i: int)
    requires
        0 <= i <= s.len(),
        forall|j: int| 0 <= j < i ==> s[j] == ' ',
        i < s.len() ==> s[i] != ' ',
    ensures
        trim_leading_spaces(s) == s.subrange(i, s.len() as int),
    decreases i,
{
    if i == 0 {
        if s.len() > 0 && s[0] == ' ' {
            assert(false);
        }
        assert(s.subrange(0, s.len() as int) =~= s);
    } else {
        let t = s.subrange(1, s.len() as int);
        lemma_trim_leading_at(t, i - 1);
        assert(t.subrange(i - 1, t.len() as int) =~= s.subrange(i, s.len() as int));
    }
}

/// Dropping trailing spaces reaches the last non-space position.
proof fn lemma_trim_trailing_at(s: Seq<char>, i: int)
    requires
        0 <= i <= s.len(),
        forall|j: int| i <= j < s.len() ==> s[j] == ' ',
        i > 0 ==> s[i - 1] != ' ',
    ensures
        trim_trailing_spaces(s) == s.subrange(0, i),
    decreases s.len() - i,
{
    if i == s.len() {
        if s.len() > 0 && s[s.len() - 1] == ' ' {
            assert(false);
        }
        assert(s.subrange(0, s.len() as int) =~= s);
    } else {
        let t = s.subrange(0, s.len() - 1);
        lemma_trim_trailing_at(t, i);
        assert(t.subrange(0, i) =~= s.subrange(0, i));
    }
}

/// Removes leading ASCII spaces.
pub fn trim_start_spaces(s: &String) -> (r: String)
    ensures
        r@ == trim_leading_spaces(s@),
{
    let st = s.as_str();
    let n = st.unicode_len();
    let mut i: usize = 0;
    while i < n && st.get_char(i) == ' '
        invariant
            0 <= i <= n,
            n == s@.len(),
            st@ == s@,
            forall|j: int| 0 <= j < i ==> s@[j] == ' ',
        decreases n - i,
    {
        i = i + 1;
    }
    proof {
        lemma_trim_leading_at(s@, i as int);
    }
    let r = st.substring_char(i, n).to_owned();
    r
}

/// Removes leading and trailing ASCII spaces.
pub fn trim_both_spaces(s: &String) -> (r: String)
    ensures
        r@ == trim_spaces(s@),
{
    let lead = trim_start_spaces(s);
    let st = lead.as_str();
    let n = st.unicode_len();
    let mut i: usize = n;
    while i > 0 && st.get_char(i - 1) == ' '
        invariant
            0 <= i <= n,
            n == lead@.len(),
            st@ == lead@,
            forall|j: int| i <= j < n ==> lead@[j] == ' ',
        decreases i,
    {
        i = i - 1;
    }
    proof {
        lemma_trim_trailing_at(lead@, i as int);
    }
    let r = st.substring_char(0, i).to_owned();
    r
}

} // verus!
