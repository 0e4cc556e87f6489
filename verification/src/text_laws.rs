//! What holds of the text primitives and of decimal numerals.

use vstd::prelude::*;
use crate::decimal;
use crate::text;

verus! {

/// The white space characters by their code points.
pub proof fn white_space_by_code_point(c: char)
    ensures
        text::is_white_space(c) <==> {
            let code = c as u32;
            ||| 9 <= code <= 13
            ||| code == 32
            ||| code == 133
            ||| code == 160
            ||| code == 5760
            ||| 8192 <= code <= 8202
            ||| code == 8232
            ||| code == 8233
            ||| code == 8239
            ||| code == 8287
            ||| code == 12288
        },
{
}

/// The classes of ASCII characters by their code points.
pub proof fn character_classes_by_code_point(c: char)
    ensures
        text::is_digit(c) <==> 48 <= c as u32 <= 57,
        text::is_ascii_upper(c) <==> 65 <= c as u32 <= 90,
        text::is_ascii_lower(c) <==> 97 <= c as u32 <= 122,
        text::is_alphanumeric(c) <==> 48 <= c as u32 <= 57 || 65 <= c as u32 <= 90 || 97 <= c as u32
            <= 122,
        text::is_word(c) <==> c == '_' || 48 <= c as u32 <= 57 || 65 <= c as u32 <= 90 || 97
            <= c as u32 <= 122,
{
}

/// Lower case moves the ASCII capitals by 32 code points and leaves every other
/// character as it is, at every position of a text.
pub proof fn lower_case_moves_capitals(s: Seq<char>)
    ensures
        text::lower_all(s).len() == s.len(),
        forall|i: int|
            0 <= i < s.len() ==> {
                let c = s[i];
                let low = #[trigger] text::lower_all(s)[i];
                &&& 65 <= c as u32 <= 90 ==> low as u32 == c as u32 + 32
                &&& !(65 <= c as u32 <= 90) ==> low == c
            },
{
    assert forall|i: int| 0 <= i < s.len() implies {
        let c = s[i];
        let low = #[trigger] text::lower_all(s)[i];
        &&& 65 <= c as u32 <= 90 ==> low as u32 == c as u32 + 32
        &&& !(65 <= c as u32 <= 90) ==> low == c
    } by {
        lower_case_moves_a_capital(s[i]);
    }
}

/// Lower case moves the ASCII capitals by 32 code points and leaves every other
/// character as it is.
pub proof fn lower_case_moves_a_capital(c: char)
    ensures
        65 <= c as u32 <= 90 ==> text::lower(c) as u32 == c as u32 + 32,
        !(65 <= c as u32 <= 90) ==> text::lower(c) == c,
{
    if 65 <= c as u32 <= 90 {
        let code = c as u8;
        assert(code as u32 == c as u32);
        let low = ((c as u8) + 32) as char;
        assert(low as u32 == c as u32 + 32);
    }
}

/// `s` is white space from its first character to its last.
pub open spec fn is_blank(s: Seq<char>) -> bool {
    forall|i: int| 0 <= i < s.len() ==> text::is_white_space(#[trigger] s[i])
}

/// Trimming takes the white space off both ends, however much there is, and keeps
/// all that stands between.
pub proof fn trimming_keeps_what_stands_between(
    before: Seq<char>,
    kept: Seq<char>,
    behind: Seq<char>,
)
    requires
        is_blank(before),
        is_blank(behind),
        kept.len() > 0,
        !text::is_white_space(kept[0]),
        !text::is_white_space(kept[kept.len() - 1]),
    ensures
        text::trim(before + kept + behind) == kept,
{
    lemma_trim_start(before, kept + behind);
    assert(before + kept + behind =~= before + (kept + behind));
    assert((kept + behind)[0] == kept[0]);
    lemma_trim_end(kept, behind);
}

proof fn lemma_trim_start(before: Seq<char>, rest: Seq<char>)
    requires
        is_blank(before),
        rest.len() == 0 || !text::is_white_space(rest[0]),
    ensures
        text::trim_start(before + rest) == rest,
    decreases before.len(),
{
    let all = before + rest;
    if before.len() > 0 {
        assert(all[0] == before[0]);
        let fewer = before.drop_first();
        assert forall|i: int| 0 <= i < fewer.len() implies text::is_white_space(
            #[trigger] fewer[i],
        ) by {
            assert(fewer[i] == before[i + 1]);
        }
        lemma_trim_start(fewer, rest);
        assert(all.drop_first() =~= fewer + rest);
    } else {
        assert(all =~= rest);
    }
}

proof fn lemma_trim_end(rest: Seq<char>, behind: Seq<char>)
    requires
        is_blank(behind),
        rest.len() == 0 || !text::is_white_space(rest[rest.len() - 1]),
    ensures
        text::trim_end(rest + behind) == rest,
    decreases behind.len(),
{
    let all = rest + behind;
    if behind.len() > 0 {
        assert(all.last() == behind[behind.len() - 1]);
        let fewer = behind.drop_last();
        assert forall|i: int| 0 <= i < fewer.len() implies text::is_white_space(
            #[trigger] fewer[i],
        ) by {
            assert(fewer[i] == behind[i]);
        }
        lemma_trim_end(rest, fewer);
        assert(all.drop_last() =~= rest + fewer);
    } else {
        assert(all =~= rest);
    }
}

/// Trimming leaves nothing of white space alone.
pub proof fn trimming_leaves_nothing_of_white_space(s: Seq<char>)
    requires
        is_blank(s),
    ensures
        text::trim(s).len() == 0,
{
    lemma_trim_start(s, Seq::empty());
    assert(s + Seq::<char>::empty() =~= s);
}

/// Every text is white space, what trimming keeps of it, and white space again, and
/// what is kept neither begins nor ends with white space.
pub proof fn trimming_splits_a_text(s: Seq<char>) -> (parts: (Seq<char>, Seq<char>))
    ensures
        is_blank(parts.0),
        is_blank(parts.1),
        s == parts.0 + text::trim(s) + parts.1,
        text::trim(s).len() > 0 ==> !text::is_white_space(text::trim(s)[0])
            && !text::is_white_space(text::trim(s).last()),
{
    let before = lemma_start_split(s);
    let rest = text::trim_start(s);
    let behind = lemma_end_split(rest);
    let kept = text::trim(s);
    assert(s =~= before + kept + behind);
    if kept.len() > 0 {
        assert(rest[0] == kept[0]);
    }
    (before, behind)
}

proof fn lemma_start_split(s: Seq<char>) -> (before: Seq<char>)
    ensures
        is_blank(before),
        s == before + text::trim_start(s),
        text::trim_start(s).len() > 0 ==> !text::is_white_space(text::trim_start(s)[0]),
    decreases s.len(),
{
    if s.len() > 0 && text::is_white_space(s[0]) {
        let fewer = lemma_start_split(s.drop_first());
        let before = seq![s[0]] + fewer;
        let rest = s.drop_first();
        assert(text::trim_start(s) == text::trim_start(rest));
        assert(s =~= seq![s[0]] + rest);
        assert(seq![s[0]] + (fewer + text::trim_start(rest)) =~= before + text::trim_start(rest));
        assert forall|i: int| 0 <= i < before.len() implies text::is_white_space(
            #[trigger] before[i],
        ) by {
            if i > 0 {
                assert(before[i] == fewer[i - 1]);
            }
        }
        before
    } else {
        assert(s =~= Seq::<char>::empty() + s);
        Seq::empty()
    }
}

proof fn lemma_end_split(s: Seq<char>) -> (behind: Seq<char>)
    ensures
        is_blank(behind),
        s == text::trim_end(s) + behind,
        text::trim_end(s).len() > 0 ==> !text::is_white_space(text::trim_end(s).last()),
    decreases s.len(),
{
    if s.len() > 0 && text::is_white_space(s.last()) {
        let fewer = lemma_end_split(s.drop_last());
        let behind = fewer.push(s.last());
        let rest = s.drop_last();
        assert(text::trim_end(s) == text::trim_end(rest));
        assert(s =~= rest.push(s.last()));
        assert((text::trim_end(rest) + fewer).push(s.last()) =~= text::trim_end(rest) + behind);
        assert forall|i: int| 0 <= i < behind.len() implies text::is_white_space(
            #[trigger] behind[i],
        ) by {
            if i < fewer.len() {
                assert(behind[i] == fewer[i]);
            }
        }
        behind
    } else {
        assert(s =~= s + Seq::<char>::empty());
        Seq::empty()
    }
}

/// A text that is put between any two others is found there.
pub proof fn what_stands_in_a_text_is_found(
    before: Seq<char>,
    pattern: Seq<char>,
    behind: Seq<char>,
)
    ensures
        text::contains(before + pattern + behind, pattern),
        text::occurs_at(before + pattern + behind, pattern, before.len() as int),
{
    let all = before + pattern + behind;
    let at = before.len() as int;
    assert(all.subrange(at, at + pattern.len()) =~= pattern);
    assert(text::occurs_at(all, pattern, at));
}

/// Where a text is found, it stands between two others.
pub proof fn what_is_found_stands_in_the_text(s: Seq<char>, pattern: Seq<char>) -> (parts: (
    Seq<char>,
    Seq<char>,
))
    requires
        text::contains(s, pattern),
    ensures
        s == parts.0 + pattern + parts.1,
{
    let at = choose|at: int| text::occurs_at(s, pattern, at);
    assert(text::occurs_at(s, pattern, at));
    let before = s.take(at);
    let behind = s.skip(at + pattern.len());
    assert(s =~= before + pattern + behind) by {
        let found = s.subrange(at, at + pattern.len());
        assert forall|i: int| 0 <= i < s.len() implies s[i] == (before + pattern + behind)[i] by {
            if at <= i < at + pattern.len() {
                assert(found[i - at] == pattern[i - at]);
            }
        }
    }
    (before, behind)
}

/// A text that is short enough is kept whole. Of a longer one exactly the first
/// `max` characters are kept, and an ellipsis tells that something was left out.
pub proof fn bounding_keeps_the_first_characters(s: Seq<char>, max: nat)
    ensures
        s.len() <= max ==> text::bounded_text(s, max) == s,
        s.len() > max ==> {
            let kept = text::bounded_text(s, max);
            &&& kept.len() == max + 1
            &&& kept.last() as u32 == 0x2026
            &&& forall|i: int| 0 <= i < max ==> #[trigger] kept[i] == s[i]
        },
{
}

/// A single digit writes its value.
pub proof fn a_digit_writes_its_value(c: char)
    requires
        48 <= c as u32 <= 57,
    ensures
        decimal::count_value(seq![c]) == Some((c as u32 - 48) as usize),
{
    let s = seq![c];
    assert(decimal::unsigned_part(s) == s);
    assert(s.drop_last() =~= Seq::<char>::empty());
    assert(decimal::digits_value(s.drop_last()) == 0);
    assert(decimal::digits_value(s) == (c as nat - 48) as nat);
}

/// A digit behind a count makes ten times the count and the digit, as long as that
/// can be held. Whatever else stands behind a count, it is none any more.
pub proof fn a_digit_more_makes_ten_times_as_much(s: Seq<char>, c: char)
    requires
        decimal::count_value(s) is Some,
    ensures
        ({
            let count = decimal::count_value(s)->Some_0;
            let digit = c as u32 - 48;
            &&& 48 <= c as u32 <= 57 && count * 10 + digit <= usize::MAX ==> decimal::count_value(
                s.push(c),
            ) == Some((count * 10 + digit) as usize)
            &&& 48 <= c as u32 <= 57 && count * 10 + digit > usize::MAX ==> decimal::count_value(
                s.push(c),
            ) is None
            &&& !(48 <= c as u32 <= 57) ==> decimal::count_value(s.push(c)) is None
        }),
{
    let digits = decimal::unsigned_part(s);
    let longer = decimal::unsigned_part(s.push(c));
    assert(longer =~= digits.push(c));
    assert(longer.drop_last() =~= digits);
    assert forall|i: int| 0 <= i < digits.len() implies text::is_digit(#[trigger] digits[i])
        && longer[i] == digits[i] by {}
    assert(longer[digits.len() as int] == c);
    if 48 <= c as u32 <= 57 {
        assert(decimal::all_digits(longer));
        assert(decimal::digits_value(longer) == decimal::digits_value(digits) * 10 + (c as nat - 48)
            as nat);
    } else {
        assert(!text::is_digit(longer[digits.len() as int]));
        assert(!decimal::all_digits(longer));
    }
}

/// What begins with something that is neither a digit nor a plus sign is no count.
/// Neither is nothing, nor a plus sign alone, nor one with a second behind it.
pub proof fn other_texts_are_no_counts(s: Seq<char>)
    ensures
        s.len() == 0 ==> decimal::count_value(s) is None,
        s.len() > 0 && s[0] != '+' && !(48 <= s[0] as u32 <= 57) ==> decimal::count_value(s)
            is None,
        s.len() == 1 && s[0] == '+' ==> decimal::count_value(s) is None,
        s.len() > 1 && s[0] == '+' && s[1] == '+' ==> decimal::count_value(s) is None,
        s.len() > 0 && s[0] == '+' && !(s.len() > 1 && s[1] == '+') ==> decimal::count_value(s)
            == decimal::count_value(s.drop_first()),
{
    let digits = decimal::unsigned_part(s);
    if s.len() > 0 && s[0] != '+' && !(48 <= s[0] as u32 <= 57) {
        assert(!text::is_digit(digits[0]));
    }
    if s.len() > 1 && s[0] == '+' && s[1] == '+' {
        assert(digits[0] == '+');
        assert(!text::is_digit(digits[0]));
    }
}

/// A numeral is made of digits, begins with a zero only where it is that of zero, and
/// reads back as its number.
pub proof fn numerals_are_the_shortest(n: nat)
    ensures
        ({
            let s = decimal::numeral(n);
            &&& s.len() > 0
            &&& forall|i: int| 0 <= i < s.len() ==> 48 <= (#[trigger] s[i]) as u32 <= 57
            &&& n > 0 ==> s[0] != '0'
            &&& n < 10 ==> s.len() == 1
            &&& n <= usize::MAX ==> decimal::count_value(s) == Some(n as usize)
        }),
    decreases n,
{
    let s = decimal::numeral(n);
    if n <= usize::MAX {
        decimal::numeral_reads_back(n as usize);
    }
    if n >= 10 {
        numerals_are_the_shortest(n / 10);
        let front = decimal::numeral(n / 10);
        assert forall|i: int| 0 <= i < s.len() implies 48 <= (#[trigger] s[i]) as u32 <= 57 by {
            if i < front.len() {
                assert(s[i] == front[i]);
            }
        }
        assert(s[0] == front[0]);
    }
}

}
