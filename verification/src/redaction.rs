//! Masking secrets in messages.

use vstd::prelude::*;
use crate::text::borrowed_text;
use crate::text::chars_of;
use crate::text::same_text;
use crate::text::texts;
use crate::text::trim;
use crate::text::trimmed;

verus! {

/// Whether `s` begins with `pattern`.
pub open spec fn starts_with(s: Seq<char>, pattern: Seq<char>) -> bool {
    pattern.len() <= s.len() && s.take(pattern.len() as int) == pattern
}

/// Whether `pattern` occurs in `s`.
pub open spec fn occurs(s: Seq<char>, pattern: Seq<char>) -> bool {
    exists|i: int| #[trigger] occurs_at(s, pattern, i)
}

/// Whether `pattern` occurs in `s` at the position `i`.
pub open spec fn occurs_at(s: Seq<char>, pattern: Seq<char>, i: int) -> bool {
    0 <= i <= s.len() && starts_with(s.skip(i), pattern)
}

/// `s` with every occurrence of `pattern`, found from left to right and without overlap, replaced.
pub open spec fn replaced(s: Seq<char>, pattern: Seq<char>, with: Seq<char>) -> Seq<char>
    recommends
        pattern.len() > 0,
    decreases s.len(),
{
    if pattern.len() == 0 || s.len() == 0 {
        s
    } else if starts_with(s, pattern) {
        with + replaced(s.skip(pattern.len() as int), pattern, with)
    } else {
        seq![s[0]] + replaced(s.drop_first(), pattern, with)
    }
}

/// What stands in a message in place of a secret.
pub open spec fn mask() -> Seq<char> {
    "****"@
}

/// `message` with each of the secrets masked, one after the other; an empty secret is passed over.
pub open spec fn redacted(message: Seq<char>, secrets: Seq<Seq<char>>) -> Seq<char>
    decreases secrets.len(),
{
    if secrets.len() == 0 {
        message
    } else {
        let so_far = redacted(message, secrets.drop_last());
        if secrets.last().len() == 0 {
            so_far
        } else {
            replaced(so_far, secrets.last(), mask())
        }
    }
}

fn matches_at(chars: &Vec<char>, pattern: &Vec<char>, at: usize) -> (yes: bool)
    requires
        at <= chars@.len(),
    ensures
        yes == starts_with(chars@.skip(at as int), pattern@),
{
    if pattern.len() > chars.len() - at {
        return false;
    }
    let mut j: usize = 0;
    while j < pattern.len()
        invariant
            j <= pattern@.len(),
            at + pattern.len() <= chars.len(),
            forall|k: int| 0 <= k < j ==> chars@[at + k] == #[trigger] pattern@[k],
        decreases pattern@.len() - j,
    {
        if chars[at + j] != pattern[j] {
            assert(chars@.skip(at as int).take(pattern@.len() as int)[j as int] != pattern@[j as int]);
            return false;
        }
        j += 1;
    }
    assert(chars@.skip(at as int).take(pattern@.len() as int) =~= pattern@);
    true
}

/// `s` with every occurrence of `pattern`, found from left to right and without overlap, replaced.
pub fn replace(s: &str, pattern: &str, with: &str) -> (out: String)
    requires
        pattern@.len() > 0,
    ensures
        out@ == replaced(s@, pattern@, with@),
{
    let chars = chars_of(s);
    let wanted = chars_of(pattern);
    let mut out = String::new();
    let mut i: usize = 0;
    assert(chars@.skip(0) =~= s@);
    assert(out@ + replaced(chars@.skip(0), pattern@, with@) =~= replaced(s@, pattern@, with@));
    while i < chars.len()
        invariant
            i <= chars@.len(),
            wanted@ == pattern@,
            pattern@.len() > 0,
            out@ + replaced(chars@.skip(i as int), pattern@, with@) == replaced(
                s@,
                pattern@,
                with@,
            ),
        decreases chars@.len() - i,
    {
        let ghost rest = chars@.skip(i as int);
        let ghost was = out@;
        if matches_at(&chars, &wanted, i) {
            out.push_str(with);
            i += wanted.len();
            assert(rest.skip(pattern@.len() as int) =~= chars@.skip(i as int));
        } else {
            out.push(chars[i]);
            i += 1;
            assert(rest.drop_first() =~= chars@.skip(i as int));
        }
        assert(out@ + replaced(chars@.skip(i as int), pattern@, with@) =~= was + replaced(
            rest,
            pattern@,
            with@,
        ));
    }
    assert(chars@.skip(i as int) =~= Seq::<char>::empty());
    assert(out@ + Seq::<char>::empty() =~= out@);
    out
}

/// `message` with each of the secrets masked.
pub fn redact_all(message: &str, secrets: &Vec<String>) -> (out: String)
    ensures
        out@ == redacted(message@, texts(secrets@)),
{
    let mut out = message.to_string();
    let mut i: usize = 0;
    while i < secrets.len()
        invariant
            i <= secrets@.len(),
            out@ == redacted(message@, texts(secrets@).take(i as int)),
        decreases secrets@.len() - i,
    {
        assert(texts(secrets@).take(i + 1).drop_last() =~= texts(secrets@).take(i as int));
        let secret = secrets[i].as_str();
        if !secret.is_empty() {
            out = replace(out.as_str(), secret, "****");
        }
        i += 1;
    }
    assert(texts(secrets@).take(i as int) =~= texts(secrets@));
    out
}

/// The values to mask after `value` has been handed in: trimmed, it comes last, unless it is
/// missing, blank or among them already.
pub open spec fn with_sensitive(values: Seq<Seq<char>>, value: Option<Seq<char>>) -> Seq<Seq<char>> {
    match value {
        Some(v) => if trimmed(v).len() == 0 || values.contains(trimmed(v)) {
            values
        } else {
            values.push(trimmed(v))
        },
        None => values,
    }
}

/// Adds a value to those that are to be masked.
pub fn push_sensitive(values: &mut Vec<String>, value: Option<&str>)
    ensures
        texts(final(values)@) == with_sensitive(texts(old(values)@), borrowed_text(value)),
{
    if let Some(text) = value {
        let kept = trim(text);
        if kept.as_str().is_empty() {
            return ;
        }
        let mut i: usize = 0;
        while i < values.len()
            invariant
                i <= values@.len(),
                values@ == old(values)@,
                value == Some(text),
                kept@ == trimmed(text@),
                forall|j: int| 0 <= j < i ==> (#[trigger] values@[j])@ != kept@,
            decreases values@.len() - i,
        {
            if same_text(values[i].as_str(), kept.as_str()) {
                assert(texts(values@)[i as int] == kept@);
                return ;
            }
            i += 1;
        }
        assert(!texts(values@).contains(kept@));
        values.push(kept);
        assert(texts(values@) =~= texts(old(values)@).push(kept@));
    }
}

/// Whether a text cannot come about where a replacement is put: it neither begins nor ends with a
/// character of the replacement, and does not hold it.
pub open spec fn stands_out(s: Seq<char>, with: Seq<char>) -> bool {
    &&& s.len() > 0
    &&& !with.contains(s[0])
    &&& !with.contains(s.last())
    &&& !occurs(s, with)
}

/// A beginning of the replaced text that neither ends with a character of the replacement nor
/// holds it was a beginning of the text before.
proof fn lemma_replaced_prefix(
    s: Seq<char>,
    pattern: Seq<char>,
    with: Seq<char>,
    prefix: Seq<char>,
)
    requires
        with.len() > 0,
        prefix.len() > 0 ==> !with.contains(prefix.last()),
        !occurs(prefix, with),
        starts_with(replaced(s, pattern, with), prefix),
    ensures
        starts_with(s, prefix),
    decreases s.len(),
{
    let out = replaced(s, pattern, with);
    if prefix.len() == 0 {
        assert(s.take(0) =~= prefix);
    } else if pattern.len() == 0 || s.len() == 0 {
    } else if starts_with(s, pattern) {
        let last = prefix.len() - 1;
        assert(out.take(prefix.len() as int)[last] == prefix[last]);
        if prefix.len() <= with.len() {
            assert(with[last] == prefix.last());
        } else {
            assert forall|i: int| 0 <= i < with.len() implies prefix[i] == with[i] by {
                assert(out.take(prefix.len() as int)[i] == prefix[i]);
            }
            assert(prefix.skip(0).take(with.len() as int) =~= with);
            assert(occurs_at(prefix, with, 0));
        }
        assert(false);
    } else {
        let tail = replaced(s.drop_first(), pattern, with);
        let rest = prefix.drop_first();
        assert(out.take(prefix.len() as int)[0] == prefix[0]);
        assert(tail.take(prefix.len() - 1) =~= out.take(prefix.len() as int).drop_first());
        assert forall|i: int| !#[trigger] occurs_at(rest, with, i) by {
            if 0 <= i <= rest.len() {
                assert(rest.skip(i) =~= prefix.skip(i + 1));
                assert(!occurs_at(prefix, with, i + 1));
            }
        }
        lemma_replaced_prefix(s.drop_first(), pattern, with, rest);
        assert forall|i: int| 0 <= i < prefix.len() implies #[trigger] s.take(
            prefix.len() as int,
        )[i] == prefix[i] by {
            if i > 0 {
                assert(s.drop_first().take(prefix.len() - 1)[i - 1] == rest[i - 1]);
            }
        }
        assert(s.take(prefix.len() as int) =~= prefix);
    }
}

/// Replacing one pattern brings no occurrence of another text into being, where that text stands
/// out from the replacement.
proof fn lemma_replaced_adds_none(
    s: Seq<char>,
    pattern: Seq<char>,
    with: Seq<char>,
    other: Seq<char>,
)
    requires
        with.len() > 0,
        stands_out(other, with),
        other == pattern || !occurs(s, other),
    ensures
        !occurs(replaced(s, pattern, with), other),
    decreases s.len(),
{
    let out = replaced(s, pattern, with);
    if pattern.len() == 0 {
    } else if s.len() == 0 {
        assert forall|i: int| !#[trigger] occurs_at(out, other, i) by {}
    } else if starts_with(s, pattern) {
        let rest = s.skip(pattern.len() as int);
        let tail = replaced(rest, pattern, with);
        if other != pattern {
            assert forall|i: int| !#[trigger] occurs_at(rest, other, i) by {
                if 0 <= i <= rest.len() {
                    assert(rest.skip(i) =~= s.skip(i + pattern.len()));
                    assert(!occurs_at(s, other, i + pattern.len()));
                }
            }
        }
        lemma_replaced_adds_none(rest, pattern, with, other);
        assert forall|i: int| !#[trigger] occurs_at(out, other, i) by {
            if 0 <= i <= out.len() {
                if i < with.len() {
                    if starts_with(out.skip(i), other) {
                        assert(out.skip(i).take(other.len() as int)[0] == with[i]);
                        assert(with.contains(other[0]));
                    }
                } else {
                    assert(out.skip(i) =~= tail.skip(i - with.len()));
                    assert(!occurs_at(tail, other, i - with.len()));
                }
            }
        }
    } else {
        let rest = s.drop_first();
        let tail = replaced(rest, pattern, with);
        if other != pattern {
            assert forall|i: int| !#[trigger] occurs_at(rest, other, i) by {
                if 0 <= i <= rest.len() {
                    assert(rest.skip(i) =~= s.skip(i + 1));
                    assert(!occurs_at(s, other, i + 1));
                }
            }
        }
        lemma_replaced_adds_none(rest, pattern, with, other);
        assert forall|i: int| !#[trigger] occurs_at(out, other, i) by {
            if i == 0 {
                assert(out.skip(0) =~= out);
                if starts_with(out, other) {
                    lemma_replaced_prefix(s, pattern, with, other);
                    assert(s.skip(0) =~= s);
                    assert(other != pattern ==> occurs_at(s, other, 0));
                }
            } else if 0 < i <= out.len() {
                assert(out.skip(i) =~= tail.skip(i - 1));
                assert(!occurs_at(tail, other, i - 1));
            }
        }
    }
}

/// No secret is left in a redacted message, if it stands out from the mask.
pub proof fn redacted_hides_secrets(message: Seq<char>, secrets: Seq<Seq<char>>, i: int)
    requires
        0 <= i < secrets.len(),
        stands_out(secrets[i], mask()),
    ensures
        !occurs(redacted(message, secrets), secrets[i]),
    decreases secrets.len(),
{
    reveal_strlit("****");
    let so_far = redacted(message, secrets.drop_last());
    if i < secrets.len() - 1 {
        redacted_hides_secrets(message, secrets.drop_last(), i);
    }
    if secrets.last().len() > 0 {
        lemma_replaced_adds_none(so_far, secrets.last(), mask(), secrets[i]);
    }
}

/// A message in which no secret occurs is left as it is; an empty secret, which is passed over,
/// does not count.
pub proof fn redacted_keeps_clean_messages(message: Seq<char>, secrets: Seq<Seq<char>>)
    requires
        forall|i: int|
            0 <= i < secrets.len() && (#[trigger] secrets[i]).len() > 0 ==> !occurs(
                message,
                secrets[i],
            ),
    ensures
        redacted(message, secrets) == message,
    decreases secrets.len(),
{
    if secrets.len() > 0 {
        let rest = secrets.drop_last();
        assert forall|i: int| 0 <= i < rest.len() && (#[trigger] rest[i]).len() > 0 implies !occurs(
            message,
            rest[i],
        ) by {
            assert(rest[i] == secrets[i]);
        }
        redacted_keeps_clean_messages(message, rest);
        if secrets.last().len() > 0 {
            lemma_replaced_without_occurrence(message, secrets.last(), mask());
        }
    }
}

proof fn lemma_replaced_without_occurrence(s: Seq<char>, pattern: Seq<char>, with: Seq<char>)
    requires
        !occurs(s, pattern),
    ensures
        replaced(s, pattern, with) == s,
    decreases s.len(),
{
    if pattern.len() > 0 && s.len() > 0 {
        assert(s.skip(0) =~= s);
        assert(!occurs_at(s, pattern, 0));
        assert forall|i: int| !#[trigger] occurs_at(s.drop_first(), pattern, i) by {
            if 0 <= i <= s.drop_first().len() {
                assert(s.drop_first().skip(i) =~= s.skip(i + 1));
                assert(!occurs_at(s, pattern, i + 1));
            }
        }
        lemma_replaced_without_occurrence(s.drop_first(), pattern, with);
        assert(seq![s[0]] + s.drop_first() =~= s);
    }
}

/// The values to mask stay distinct and hold no blank one.
pub proof fn sensitive_values_stay_distinct(values: Seq<Seq<char>>, value: Option<Seq<char>>)
    requires
        values.no_duplicates(),
        forall|i: int| 0 <= i < values.len() ==> (#[trigger] values[i]).len() > 0,
    ensures
        with_sensitive(values, value).no_duplicates(),
        forall|i: int|
            0 <= i < with_sensitive(values, value).len() ==> (#[trigger] with_sensitive(
                values,
                value,
            )[i]).len() > 0,
{
}

} // verus!
