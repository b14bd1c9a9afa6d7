//! What holds of masked messages.

use vstd::prelude::*;
use crate::redaction::mask;
use crate::redaction::occurs;
use crate::redaction::occurs_at;
use crate::redaction::redacted;
use crate::redaction::replaced;
use crate::redaction::with_sensitive;
use crate::text::trimmed;

verus! {

/// A text occurs at a place exactly where the characters from there on are its own.
pub proof fn occurrences_are_letter_for_letter(s: Seq<char>, pattern: Seq<char>, at: int)
    ensures
        occurs_at(s, pattern, at) <==> {
            &&& 0 <= at
            &&& at + pattern.len() <= s.len()
            &&& forall|i: int| 0 <= i < pattern.len() ==> s[at + i] == #[trigger] pattern[i]
        },
        occurs_at(s, pattern, at) ==> occurs(s, pattern),
{
    if occurs_at(s, pattern, at) {
        assert forall|i: int| 0 <= i < pattern.len() implies s[at + i] == #[trigger] pattern[i] by {
            assert(s.skip(at).take(pattern.len() as int)[i] == s[at + i]);
        }
    } else if 0 <= at && at + pattern.len() <= s.len() {
        if forall|i: int| 0 <= i < pattern.len() ==> s[at + i] == #[trigger] pattern[i] {
            assert(s.skip(at).take(pattern.len() as int) =~= pattern);
        }
    }
}

/// What stands in front of the first occurrence of a pattern stays, the occurrence gives way to
/// the replacement, and what stands behind it is treated likewise.
pub proof fn the_first_occurrence_gives_way(
    front: Seq<char>,
    pattern: Seq<char>,
    back: Seq<char>,
    with: Seq<char>,
)
    requires
        pattern.len() > 0,
        forall|at: int|
            0 <= at < front.len() ==> !#[trigger] occurs_at(front + pattern + back, pattern, at),
    ensures
        replaced(front + pattern + back, pattern, with) == front + with + replaced(
            back,
            pattern,
            with,
        ),
    decreases front.len(),
{
    let s = front + pattern + back;
    if front.len() == 0 {
        assert(s.take(pattern.len() as int) =~= pattern);
        assert(s.skip(pattern.len() as int) =~= back);
        assert(front + with =~= with);
    } else {
        assert(!occurs_at(s, pattern, 0));
        assert(s.skip(0) =~= s);
        let rest = front.drop_first();
        assert(s.drop_first() =~= rest + pattern + back);
        assert forall|at: int| 0 <= at < rest.len() implies !#[trigger] occurs_at(
            rest + pattern + back,
            pattern,
            at,
        ) by {
            assert(!occurs_at(s, pattern, at + 1));
            assert(s.skip(at + 1) =~= (rest + pattern + back).skip(at));
        }
        the_first_occurrence_gives_way(rest, pattern, back, with);
        assert(replaced(s, pattern, with) =~= front + with + replaced(back, pattern, with));
    }
}

/// A text without the pattern stays as it is.
pub proof fn texts_without_the_pattern_stay(s: Seq<char>, pattern: Seq<char>, with: Seq<char>)
    requires
        !occurs(s, pattern),
    ensures
        replaced(s, pattern, with) == s,
    decreases s.len(),
{
    if pattern.len() > 0 && s.len() > 0 {
        assert(s.skip(0) =~= s);
        assert(!occurs_at(s, pattern, 0));
        let rest = s.drop_first();
        assert forall|at: int| !#[trigger] occurs_at(rest, pattern, at) by {
            if 0 <= at <= rest.len() {
                assert(rest.skip(at) =~= s.skip(at + 1));
                assert(!occurs_at(s, pattern, at + 1));
            }
        }
        texts_without_the_pattern_stay(rest, pattern, with);
        assert(seq![s[0]] + rest =~= s);
    }
}

/// Secrets are masked one after the other: nothing to mask leaves the message alone, one secret
/// gives way to four stars, and of two lists the second works on what the first left.
pub proof fn secrets_are_masked_in_turn(
    message: Seq<char>,
    secret: Seq<char>,
    some: Seq<Seq<char>>,
    more: Seq<Seq<char>>,
)
    ensures
        redacted(message, Seq::empty()) == message,
        secret.len() > 0 ==> redacted(message, seq![secret]) == replaced(message, secret, "****"@),
        secret.len() == 0 ==> redacted(message, seq![secret]) == message,
        redacted(message, some + more) == redacted(redacted(message, some), more),
    decreases more.len(),
{
    assert(seq![secret].drop_last() =~= Seq::<Seq<char>>::empty());
    assert(redacted(message, seq![secret].drop_last()) == message);
    if more.len() == 0 {
        assert(some + more =~= some);
    } else {
        secrets_are_masked_in_turn(message, secret, some, more.drop_last());
        assert((some + more).drop_last() =~= some + more.drop_last());
    }
}

/// The values to mask only ever grow, by the trimmed value at most, and hold it afterwards unless
/// it is blank.
pub proof fn sensitive_values_are_kept(values: Seq<Seq<char>>, value: Seq<char>)
    ensures
        with_sensitive(values, None) == values,
        trimmed(value).len() == 0 ==> with_sensitive(values, Some(value)) == values,
        values.contains(trimmed(value)) ==> with_sensitive(values, Some(value)) == values,
        trimmed(value).len() > 0 && !values.contains(trimmed(value)) ==> with_sensitive(
            values,
            Some(value),
        ) == values + seq![trimmed(value)],
{
    assert(values.push(trimmed(value)) =~= values + seq![trimmed(value)]);
}

/// The mask is four stars.
pub proof fn the_mask_is_four_stars()
    ensures
        mask() == seq!['*', '*', '*', '*'],
{
    reveal_strlit("****");
    assert(mask() =~= seq!['*', '*', '*', '*']);
}

} // verus!
