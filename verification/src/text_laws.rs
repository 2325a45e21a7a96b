//! What holds of words, numbers and columns in every text.
use crate::text::{comes_before, decimal_text, digit_text, has_word, left_in, right_in, stands_at};
use vstd::prelude::*;

verus! {

/// A word stands in a text exactly if the text is something, the word, and something.
pub proof fn law_words_are_found_wherever_they_stand(text: Seq<char>, word: Seq<char>)
    ensures
        has_word(text, word) <==> exists|before: Seq<char>, after: Seq<char>|
            text == #[trigger] (before + word + after),
{
    if has_word(text, word) {
        let at = choose|at: int| #[trigger] stands_at(text, word, at);
        let before = text.take(at);
        let after = text.skip(at + word.len());
        assert forall|i: int| 0 <= i < text.len() implies text[i] == (before + word + after)[i] by {
            if at <= i < at + word.len() {
                assert(text.subrange(at, at + word.len())[i - at] == word[i - at]);
            }
        }
        assert(text =~= before + word + after);
    }
    if exists|before: Seq<char>, after: Seq<char>| text == #[trigger] (before + word + after) {
        let (before, after) = choose|before: Seq<char>, after: Seq<char>|
            text == #[trigger] (before + word + after);
        let at = before.len() as int;
        assert(text.subrange(at, at + word.len()) =~= word);
        assert(stands_at(text, word, at));
    }
}

/// The number that decimal digits stand for.
pub open spec fn number_of(digits: Seq<char>) -> int
    decreases digits.len(),
{
    if digits.len() == 0 {
        0
    } else {
        10 * number_of(digits.drop_last()) + (digits.last() as int - '0' as int)
    }
}

/// The digits of a number are digits, stand for the number, and begin with 0 only if the number
/// is 0.
pub proof fn law_numbers_are_written_in_their_digits(n: nat)
    ensures
        decimal_text(n).len() > 0,
        forall|i: int|
            0 <= i < decimal_text(n).len() ==> '0' as int <= (#[trigger] decimal_text(n)[i]) as int
                <= '9' as int,
        number_of(decimal_text(n)) == n,
        decimal_text(n)[0] == '0' <==> n == 0,
        n == 0 ==> decimal_text(n).len() == 1,
    decreases n,
{
    reveal_strlit("0123456789");
    let last = digit_text((n % 10) as int);
    assert(last.len() == 1);
    assert(last[0] as int == '0' as int + n % 10);
    let text = decimal_text(n);
    if n < 10 {
        assert(text =~= last);
        assert(text.drop_last() =~= Seq::<char>::empty());
        assert(number_of(text.drop_last()) == 0);
    } else {
        law_numbers_are_written_in_their_digits(n / 10);
        assert(text.drop_last() =~= decimal_text(n / 10));
        assert(text.last() == last[0]);
        assert forall|i: int| 0 <= i < text.len() implies '0' as int <= (#[trigger] text[i]) as int
            <= '9' as int by {
            if i < decimal_text(n / 10).len() {
                assert(text[i] == decimal_text(n / 10)[i]);
            }
        }
        assert(text[0] == decimal_text(n / 10)[0]);
    }
}

/// A text at the left of a column is the text and then spaces up to the width, and one at the
/// right is spaces and then the text; a text as wide as the column or wider stays as it is.
pub proof fn law_columns_are_filled_with_spaces(text: Seq<char>, width: int, i: int)
    ensures
        text.len() <= width ==> left_in(text, width).len() == width,
        text.len() <= width ==> right_in(text, width).len() == width,
        width <= text.len() ==> left_in(text, width) == text,
        width <= text.len() ==> right_in(text, width) == text,
        0 <= i < text.len() ==> left_in(text, width)[i] == text[i],
        text.len() <= i < width ==> left_in(text, width)[i] == ' ',
        0 <= i < width - text.len() ==> right_in(text, width)[i] == ' ',
        text.len() <= width && width - text.len() <= i < width ==> right_in(text, width)[i]
            == text[i - (width - text.len())],
{
    if width <= text.len() {
        assert(left_in(text, width) =~= text);
        assert(right_in(text, width) =~= text);
    }
}

/// Texts are ordered by the first characters in which they differ, and a text stands before those
/// that go on behind it.
pub proof fn law_the_first_difference_decides(a: Seq<char>, b: Seq<char>, at: int)
    requires
        0 <= at <= a.len(),
        at <= b.len(),
        forall|i: int| 0 <= i < at ==> #[trigger] a[i] == b[i],
    ensures
        at < a.len() && at < b.len() && a[at] != b[at] ==> (comes_before(a, b) <==> (a[at] as u32)
            < (b[at] as u32)),
        at == a.len() ==> (comes_before(a, b) <==> a.len() < b.len()),
        at == b.len() ==> !comes_before(a, b),
    decreases at,
{
    if at > 0 {
        assert(a[0] == b[0]);
        assert forall|i: int| 0 <= i < at - 1 implies #[trigger] a.skip(1)[i] == b.skip(1)[i] by {
            assert(a[i + 1] == b[i + 1]);
        }
        law_the_first_difference_decides(a.skip(1), b.skip(1), at - 1);
        if at < a.len() && at < b.len() {
            assert(a.skip(1)[at - 1] == a[at]);
            assert(b.skip(1)[at - 1] == b[at]);
        }
    }
}

} // verus!
