//! What holds of texts, whatever they are.

use vstd::prelude::*;
use crate::text::ascii_lower;
use crate::text::borrowed_text;
use crate::text::decimal;
use crate::text::equal_ignoring_case;
use crate::text::is_before;
use crate::text::is_digit;
use crate::text::is_white_space;
use crate::text::joined;
use crate::text::nonblank;
use crate::text::number;
use crate::text::owned_text;
use crate::text::parsed_i64;
use crate::text::signed_decimal;
use crate::text::split;
use crate::text::text_result;
use crate::text::texts;
use crate::text::trimmed;
use crate::text::trimmed_end;
use crate::text::trimmed_start;

verus! {

/// Whether a text holds white space alone.
pub open spec fn is_blank(s: Seq<char>) -> bool {
    forall|i: int| 0 <= i < s.len() ==> is_white_space(#[trigger] s[i])
}

/// Trimming takes away white space alone: what was there in front and behind was blank.
pub proof fn trimming_takes_white_space_alone(s: Seq<char>)
    ensures
        exists|front: Seq<char>, back: Seq<char>|
            #[trigger] is_blank(front) && #[trigger] is_blank(back) && s == front + trimmed(s)
                + back,
        exists|front: Seq<char>| #[trigger] is_blank(front) && s == front + trimmed_start(s),
        trimmed_start(s).len() > 0 ==> !is_white_space(trimmed_start(s)[0]),
        trimmed(s).len() > 0 ==> !is_white_space(trimmed(s)[0]) && !is_white_space(
            trimmed(s).last(),
        ),
{
    crate::text::lemma_trimmed_ends(s);
    let front = lemma_start(s);
    let back = lemma_end(trimmed_start(s));
    assert(s =~= front + trimmed(s) + back);
    assert(is_blank(front) && is_blank(back) && s == front + trimmed(s) + back);
}

proof fn lemma_start(s: Seq<char>) -> (front: Seq<char>)
    ensures
        is_blank(front),
        s == front + trimmed_start(s),
        trimmed_start(s).len() > 0 ==> !is_white_space(trimmed_start(s)[0]),
    decreases s.len(),
{
    if s.len() > 0 && is_white_space(s[0]) {
        let rest = lemma_start(s.drop_first());
        let front = seq![s[0]] + rest;
        assert(s =~= seq![s[0]] + s.drop_first());
        assert(front + trimmed_start(s) =~= seq![s[0]] + (rest + trimmed_start(s)));
        front
    } else {
        assert(s =~= Seq::<char>::empty() + s);
        Seq::empty()
    }
}

proof fn lemma_end(s: Seq<char>) -> (back: Seq<char>)
    ensures
        is_blank(back),
        s == trimmed_end(s) + back,
    decreases s.len(),
{
    if s.len() > 0 && is_white_space(s.last()) {
        let rest = lemma_end(s.drop_last());
        let back = rest.push(s.last());
        assert(s =~= s.drop_last().push(s.last()));
        assert(trimmed_end(s) + back =~= (trimmed_end(s) + rest).push(s.last()));
        back
    } else {
        assert(s =~= s + Seq::<char>::empty());
        Seq::empty()
    }
}

/// The characters that stand for the numbers from zero to nine.
pub open spec fn numerals() -> Seq<char> {
    "0123456789"@
}

/// What decimal digits add up to, each place being worth ten times the one behind it.
pub open spec fn worth(digits: Seq<char>) -> nat
    decreases digits.len(),
{
    if digits.len() == 0 {
        0
    } else {
        10 * worth(digits.drop_last()) + numerals().index_of(digits.last()) as nat
    }
}

/// Whether a text is one or more decimal digits.
pub open spec fn is_numeral(s: Seq<char>) -> bool {
    s.len() > 0 && forall|i: int| 0 <= i < s.len() ==> numerals().contains(#[trigger] s[i])
}

proof fn lemma_numeral(d: nat)
    requires
        d < 10,
    ensures
        numerals()[d as int] == (48 + d) as u8 as char,
        numerals().index_of((48 + d) as u8 as char) == d,
        numerals().contains((48 + d) as u8 as char),
{
    reveal_strlit("0123456789");
    let c = (48 + d) as u8 as char;
    assert(numerals()[d as int] == c);
    assert(numerals().no_duplicates());
    let i = numerals().index_of(c);
    assert(0 <= i < numerals().len() && numerals()[i] == c);
}

proof fn lemma_digit(c: char)
    ensures
        is_digit(c) <==> numerals().contains(c),
        is_digit(c) ==> numerals().index_of(c) == c as int - 48,
{
    reveal_strlit("0123456789");
    if is_digit(c) {
        let d = (c as int - 48) as nat;
        lemma_numeral(d);
        assert((48 + d) as u8 as char == c);
    }
}

/// A number in decimal is made of digits, has no zero in front, and adds up to the number.
pub proof fn decimals_add_up(n: nat)
    ensures
        is_numeral(decimal(n)),
        worth(decimal(n)) == n,
        decimal(n)[0] == '0' ==> n == 0,
    decreases n,
{
    if n < 10 {
        lemma_numeral(n);
        assert(decimal(n).drop_last() =~= Seq::<char>::empty());
        assert(worth(decimal(n).drop_last()) == 0);
    } else {
        decimals_add_up(n / 10);
        lemma_numeral(n % 10);
        assert(decimal(n).drop_last() =~= decimal(n / 10));
        assert forall|i: int| 0 <= i < decimal(n).len() implies numerals().contains(
            #[trigger] decimal(n)[i],
        ) by {
            if i < decimal(n / 10).len() {
                assert(decimal(n)[i] == decimal(n / 10)[i]);
            }
        }
    }
}

/// Different numbers have different decimals.
pub proof fn decimals_tell_numbers_apart(m: nat, n: nat)
    requires
        decimal(m) == decimal(n),
    ensures
        m == n,
{
    decimals_add_up(m);
    decimals_add_up(n);
}

proof fn lemma_number_is_worth(digits: Seq<char>)
    requires
        forall|i: int| 0 <= i < digits.len() ==> is_digit(#[trigger] digits[i]),
    ensures
        number(digits) == worth(digits),
    decreases digits.len(),
{
    if digits.len() > 0 {
        assert forall|i: int| 0 <= i < digits.drop_last().len() implies is_digit(
            #[trigger] digits.drop_last()[i],
        ) by {
            assert(digits[i] == digits.drop_last()[i]);
        }
        lemma_number_is_worth(digits.drop_last());
        lemma_digit(digits.last());
    }
}

proof fn lemma_numerals_are_digits(s: Seq<char>)
    ensures
        is_numeral(s) <==> s.len() > 0 && forall|i: int|
            0 <= i < s.len() ==> is_digit(#[trigger] s[i]),
{
    assert forall|i: int| 0 <= i < s.len() implies is_digit(s[i]) == numerals().contains(
        #[trigger] s[i],
    ) by {
        lemma_digit(s[i]);
    }
    if is_numeral(s) {
        assert forall|i: int| 0 <= i < s.len() implies is_digit(#[trigger] s[i]) by {
            assert(numerals().contains(s[i]));
        }
    }
}

/// A text is read as a number exactly where it is digits with at most one sign in front, and the
/// number fits; it is then what the digits add up to, with that sign.
pub proof fn numbers_are_read_by_their_digits(digits: Seq<char>)
    requires
        is_numeral(digits),
    ensures
        worth(digits) <= i64::MAX ==> parsed_i64(digits) == Some(worth(digits) as i64),
        worth(digits) <= i64::MAX ==> parsed_i64(seq!['+'] + digits) == Some(worth(digits) as i64),
        worth(digits) <= i64::MAX + 1 ==> parsed_i64(seq!['-'] + digits) == Some(
            (-(worth(digits) as int)) as i64,
        ),
        worth(digits) > i64::MAX ==> parsed_i64(digits) is None && parsed_i64(
            seq!['+'] + digits,
        ) is None,
        worth(digits) > i64::MAX + 1 ==> parsed_i64(seq!['-'] + digits) is None,
{
    lemma_numerals_are_digits(digits);
    lemma_number_is_worth(digits);
    assert((seq!['+'] + digits).drop_first() =~= digits);
    assert((seq!['-'] + digits).drop_first() =~= digits);
    assert(is_digit(digits[0]));
}

/// What is not digits with at most one sign in front is read as no number.
pub proof fn nothing_else_is_a_number(s: Seq<char>)
    requires
        !is_numeral(s),
        s.len() > 0 && (s[0] == '+' || s[0] == '-') ==> !is_numeral(s.drop_first()),
    ensures
        parsed_i64(s) is None,
{
    lemma_numerals_are_digits(s);
    lemma_numerals_are_digits(s.drop_first());
}

/// A signed number in decimal reads back as the number.
pub proof fn signed_decimals_read_back(n: i64)
    ensures
        parsed_i64(signed_decimal(n as int)) == Some(n),
{
    let magnitude: nat = if n < 0 {
        (-(n as int)) as nat
    } else {
        n as nat
    };
    decimals_add_up(magnitude);
    numbers_are_read_by_their_digits(decimal(magnitude));
}

/// Whether two characters are the same, or the two cases of one ASCII letter.
pub open spec fn is_same_letter(a: char, b: char) -> bool {
    ||| a == b
    ||| 'A' <= a <= 'Z' && b as int == a as int + 32
    ||| 'A' <= b <= 'Z' && a as int == b as int + 32
}

/// Two texts are equal without their case exactly where they are so letter by letter.
pub proof fn case_alone_is_ignored(a: Seq<char>, b: Seq<char>)
    ensures
        equal_ignoring_case(a, b) <==> a.len() == b.len() && forall|i: int|
            0 <= i < a.len() ==> is_same_letter(a[i], #[trigger] b[i]),
{
    assert forall|x: char, y: char|
        is_same_letter(x, y) <==> #[trigger] ascii_lower(x) == #[trigger] ascii_lower(y) by {
        if 'A' <= x <= 'Z' {
            assert(ascii_lower(x) as int == x as int + 32);
        }
        if 'A' <= y <= 'Z' {
            assert(ascii_lower(y) as int == y as int + 32);
        }
    }
    if equal_ignoring_case(a, b) {
        assert forall|i: int| 0 <= i < a.len() implies is_same_letter(a[i], #[trigger] b[i]) by {
            assert(ascii_lower(a[i]) == ascii_lower(b[i]));
        }
    }
}

/// Of two texts with a common beginning, the one stands first that ends there, or else the one
/// whose next character has the lower code.
pub proof fn the_first_difference_decides(
    common: Seq<char>,
    a: char,
    rest_a: Seq<char>,
    b: char,
    rest_b: Seq<char>,
)
    ensures
        is_before(common, common + seq![b] + rest_b),
        !is_before(common + seq![a] + rest_a, common),
        a != b ==> is_before(common + seq![a] + rest_a, common + seq![b] + rest_b) == (a < b),
    decreases common.len(),
{
    let x = common + seq![a] + rest_a;
    let y = common + seq![b] + rest_b;
    if common.len() > 0 {
        the_first_difference_decides(common.drop_first(), a, rest_a, b, rest_b);
        assert(x.drop_first() =~= common.drop_first() + seq![a] + rest_a);
        assert(y.drop_first() =~= common.drop_first() + seq![b] + rest_b);
    }
}

/// The parts of a text hold no separator, and put together with it they give the text back.
pub proof fn parts_make_up_the_text(s: Seq<char>, sep: char)
    ensures
        split(s, sep).len() > 0,
        forall|i: int| 0 <= i < split(s, sep).len() ==> !(#[trigger] split(s, sep)[i]).contains(sep),
        joined(split(s, sep), seq![sep]) == s,
    decreases s.len(),
{
    let parts = split(s, sep);
    if s.len() > 0 {
        parts_make_up_the_text(s.drop_last(), sep);
        let head = split(s.drop_last(), sep);
        if s.last() == sep {
            assert(parts.drop_last() =~= head);
            assert(joined(parts, seq![sep]) =~= s);
        } else {
            let grown = head.last().push(s.last());
            assert(!grown.contains(sep)) by {
                assert(!head[head.len() - 1].contains(sep));
                assert forall|i: int| 0 <= i < grown.len() implies grown[i] != sep by {
                    if i < head.last().len() {
                        assert(head.last()[i] == grown[i]);
                    }
                }
            }
            assert forall|i: int| 0 <= i < parts.len() implies !(#[trigger] parts[i]).contains(
                sep,
            ) by {
                if i < head.len() - 1 {
                    assert(parts[i] == head[i]);
                }
            }
            assert(s =~= s.drop_last().push(s.last()));
            if head.len() > 1 {
                let before = joined(head.drop_last(), seq![sep]) + seq![sep];
                assert(parts.drop_last() =~= head.drop_last());
                assert(joined(parts, seq![sep]) == before + grown);
                assert(before + grown =~= (before + head.last()).push(s.last()));
            } else {
                assert(parts =~= seq![grown]);
            }
        }
    } else {
        assert(parts[0].len() == 0);
        assert(joined(parts, seq![sep]) =~= s);
    }
}

/// Lists are joined part by part: nothing gives nothing, one part gives itself, and two lists give
/// what each gives, with the separator between them.
pub proof fn joining_goes_part_by_part(
    a: Seq<Seq<char>>,
    b: Seq<Seq<char>>,
    part: Seq<char>,
    sep: Seq<char>,
)
    ensures
        joined(Seq::empty(), sep).len() == 0,
        joined(seq![part], sep) == part,
        a.len() > 0 && b.len() > 0 ==> joined(a + b, sep) == joined(a, sep) + sep + joined(b, sep),
    decreases b.len(),
{
    if a.len() > 0 && b.len() > 0 {
        let both = a + b;
        if b.len() == 1 {
            assert(both.drop_last() =~= a);
        } else {
            joining_goes_part_by_part(a, b.drop_last(), part, sep);
            assert(both.drop_last() =~= a + b.drop_last());
            assert(joined(both, sep) =~= joined(a, sep) + sep + joined(b, sep));
        }
    }
}

/// Blank parts are passed over and the others trimmed, each by itself and in order.
pub proof fn blank_parts_are_passed_over(a: Seq<Seq<char>>, b: Seq<Seq<char>>, part: Seq<char>)
    ensures
        nonblank(Seq::empty()).len() == 0,
        is_blank(part) ==> nonblank(seq![part]).len() == 0,
        !is_blank(part) ==> nonblank(seq![part]) == seq![trimmed(part)],
        nonblank(a + b) == nonblank(a) + nonblank(b),
    decreases b.len(),
{
    assert(seq![part].drop_last() =~= Seq::<Seq<char>>::empty());
    assert(nonblank(seq![part].drop_last()) =~= Seq::<Seq<char>>::empty());
    assert(seq![part].last() == part);
    lemma_blank_trims_away(part);
    assert(!is_blank(part) ==> nonblank(seq![part]) =~= seq![trimmed(part)]);
    if b.len() == 0 {
        assert(a + b =~= a);
        assert(nonblank(a) + nonblank(b) =~= nonblank(a));
    } else {
        blank_parts_are_passed_over(a, b.drop_last(), part);
        assert((a + b).drop_last() =~= a + b.drop_last());
        assert(nonblank(a + b) =~= nonblank(a) + nonblank(b));
    }
}

/// A blank text trims to nothing, and nothing else does.
pub proof fn lemma_blank_trims_away(s: Seq<char>)
    ensures
        trimmed(s).len() == 0 <==> is_blank(s),
{
    trimming_takes_white_space_alone(s);
    let (front, back) = choose|front: Seq<char>, back: Seq<char>|
        #[trigger] is_blank(front) && #[trigger] is_blank(back) && s == front + trimmed(s) + back;
    if trimmed(s).len() == 0 {
        assert forall|i: int| 0 <= i < s.len() implies is_white_space(#[trigger] s[i]) by {
            if i < front.len() {
                assert(s[i] == front[i]);
            } else {
                assert(s[i] == back[i - front.len()]);
            }
        }
    } else {
        assert(s[front.len() as int] == trimmed(s)[0]);
    }
}

/// The views of texts leave nothing out.
pub proof fn texts_are_viewed_whole(
    list: Seq<String>,
    owned: Option<String>,
    borrowed: Option<&str>,
    out: Result<String, String>,
)
    ensures
        texts(list).len() == list.len(),
        forall|i: int| 0 <= i < list.len() ==> #[trigger] texts(list)[i] == list[i]@,
        owned is Some <==> owned_text(owned) is Some,
        owned matches Some(s) ==> owned_text(owned) == Some(s@),
        borrowed is Some <==> borrowed_text(borrowed) is Some,
        borrowed matches Some(s) ==> borrowed_text(borrowed) == Some(s@),
        out matches Ok(s) ==> text_result(out) == Ok::<Seq<char>, Seq<char>>(s@),
        out matches Err(s) ==> text_result(out) == Err::<Seq<char>, Seq<char>>(s@),
{
}

} // verus!
