//! Text: looking for a word, lower case, numbers and columns.
use vstd::prelude::*;
use vstd::string::{StrSliceExecFns, StringExecFns};

verus! {

/// Whether `needle` stands in `text` from place `at` on.
pub open spec fn stands_at(text: Seq<char>, needle: Seq<char>, at: int) -> bool {
    &&& 0 <= at
    &&& at + needle.len() <= text.len()
    &&& text.subrange(at, at + needle.len()) == needle
}

/// Whether `needle` stands somewhere in `text`.
pub open spec fn has_word(text: Seq<char>, needle: Seq<char>) -> bool {
    exists|at: int| #[trigger] stands_at(text, needle, at)
}

/// Whether `needle` stands in `text` from place `at` on.
fn matches_at(text: &str, needle: &str, at: usize, len: usize) -> (res: bool)
    requires
        len == needle@.len(),
        at + len <= text@.len(),
        at + len <= usize::MAX,
    ensures
        res == stands_at(text@, needle@, at as int),
{
    let mut i: usize = 0;
    while i < len
        invariant
            i <= len,
            len == needle@.len(),
            at + len <= text@.len(),
            at + len <= usize::MAX,
            forall|j: int| 0 <= j < i ==> text@[at + j] == needle@[j],
        decreases len - i,
    {
        if text.get_char(at + i) != needle.get_char(i) {
            assert(text@.subrange(at as int, at + len)[i as int] != needle@[i as int]);
            return false;
        }
        i = i + 1;
    }
    assert(text@.subrange(at as int, at + len) =~= needle@);
    true
}

/// Whether `needle` stands somewhere in `text`.
pub fn contains(text: &str, needle: &str) -> (res: bool)
    ensures
        res == has_word(text@, needle@),
{
    let total: usize = text.unicode_len();
    let len: usize = needle.unicode_len();
    if len > total {
        assert forall|at: int| !(#[trigger] stands_at(text@, needle@, at)) by {}
        return false;
    }
    let mut at: usize = 0;
    while at <= total - len
        invariant
            at <= total - len + 1,
            total == text@.len(),
            len == needle@.len(),
            len <= total,
            forall|k: int| 0 <= k < at ==> !(#[trigger] stands_at(text@, needle@, k)),
        decreases total - len + 1 - at,
    {
        if matches_at(text, needle, at, len) {
            return true;
        }
        if at == total - len {
            assert forall|k: int| !(#[trigger] stands_at(text@, needle@, k)) by {
                if 0 <= k && k + len <= total {
                    assert(k <= at);
                }
            }
            return false;
        }
        at = at + 1;
    }
    false
}

/// What `str::to_lowercase` gives for a text.
pub uninterp spec fn lower_case(text: Seq<char>) -> Seq<char>;

/// `str::to_lowercase`: the text in lower case. Nothing is claimed of it but that it depends on
/// the text alone; the mapping is Unicode's.
#[verifier::external_body]
pub(crate) fn to_lower_case(text: &str) -> (res: String)
    ensures
        res@ == lower_case(text@),
{
    text.to_lowercase()
}

/// The text of a decimal digit.
pub open spec fn digit_text(digit: int) -> Seq<char> {
    "0123456789"@.subrange(digit, digit + 1)
}

/// A number in decimal digits.
pub open spec fn decimal_text(n: nat) -> Seq<char>
    decreases n,
{
    if n < 10 {
        digit_text(n as int)
    } else {
        decimal_text(n / 10) + digit_text((n % 10) as int)
    }
}

/// A number in decimal digits.
pub fn decimal(n: u64) -> (res: String)
    ensures
        res@ == decimal_text(n as nat),
    decreases n,
{
    proof {
        reveal_strlit("0123456789");
    }
    let last: usize = (n % 10) as usize;
    let digit = "0123456789".substring_char(last, last + 1);
    if n < 10 {
        digit.to_string()
    } else {
        let mut res = decimal(n / 10);
        res.append(digit);
        res
    }
}

/// Whether `a` comes before `b` in the order of texts: by their first characters that differ, and
/// a text before those that it begins.
pub open spec fn comes_before(a: Seq<char>, b: Seq<char>) -> bool
    decreases a.len(),
{
    if b.len() == 0 {
        false
    } else if a.len() == 0 {
        true
    } else if a[0] == b[0] {
        comes_before(a.skip(1), b.skip(1))
    } else {
        (a[0] as u32) < (b[0] as u32)
    }
}

/// `n` spaces.
pub open spec fn spaces(n: int) -> Seq<char> {
    Seq::new(
        if n > 0 {
            n as nat
        } else {
            0
        },
        |i: int| ' ',
    )
}

/// A text at the left of a column of the given width; a wider text stays as it is.
pub open spec fn left_in(text: Seq<char>, width: int) -> Seq<char> {
    text + spaces(width - text.len())
}

/// A text at the right of a column of the given width; a wider text stays as it is.
pub open spec fn right_in(text: Seq<char>, width: int) -> Seq<char> {
    spaces(width - text.len()) + text
}

/// The spaces that fill a column of the given width behind `len` characters.
fn fill(len: usize, width: usize) -> (res: String)
    ensures
        res@ == spaces(width - len),
{
    let mut res = String::new();
    let mut at: usize = len;
    assert(res@ =~= spaces(0));
    while at < width
        invariant
            len <= at,
            len < width ==> at <= width,
            width <= len ==> at == len,
            res@ == spaces(at - len),
        decreases width - at,
    {
        proof {
            reveal_strlit(" ");
        }
        res.append(" ");
        at = at + 1;
        assert(res@ =~= spaces(at - len));
    }
    assert(res@ =~= spaces(width - len));
    res
}

/// A text at the left of a column of the given width.
pub fn align_left(text: &str, width: usize) -> (res: String)
    ensures
        res@ == left_in(text@, width as int),
{
    let mut res = text.to_string();
    let gap = fill(text.unicode_len(), width);
    res.append(gap.as_str());
    res
}

/// A text at the right of a column of the given width.
pub fn align_right(text: &str, width: usize) -> (res: String)
    ensures
        res@ == right_in(text@, width as int),
{
    let mut res = fill(text.unicode_len(), width);
    res.append(text);
    res
}

} // verus!
