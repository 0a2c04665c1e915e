//! What holds of texts that are taken apart, searched and put together.

use vstd::prelude::*;
use crate::text::{
    contains_text, decimal, decimal_text, digit, end_trimmed, is_text_at, is_white_space,
    lemma_split_len, lemma_without_text, parts_between, remove_text, replace_text, replaced, split,
    split_by_text, split_text, start_trimmed, text_at, trim_text, two_digit_text, views,
};

verus! {

/// The number that a text of digits is the notation of.
pub open spec fn value_of(s: Seq<char>) -> int
    decreases s.len(),
{
    if s.len() == 0 {
        0
    } else {
        value_of(s.drop_last()) * 10 + (s.last() as int - 48)
    }
}

/// All characters are decimal digits.
pub open spec fn all_digits(s: Seq<char>) -> bool {
    forall|i: int| 0 <= i < s.len() ==> 48 <= #[trigger] (s[i] as int) <= 57
}

/// Decimal notation stands for its number.
pub proof fn lemma_decimal(n: nat)
    ensures
        value_of(decimal(n)) == n,
        all_digits(decimal(n)),
        decimal(n).len() >= 1,
        n >= 10 ==> decimal(n).len() >= 2,
        n < 10 ==> decimal(n).len() == 1,
        10 <= n < 100 ==> decimal(n).len() == 2,
        n > 0 ==> decimal(n)[0] != '0',
    decreases n,
{
    reveal_with_fuel(value_of, 2);
    reveal_with_fuel(decimal, 2);
    if n < 10 {
        assert(decimal(n).drop_last() =~= Seq::<char>::empty());
    } else {
        lemma_decimal(n / 10);
        assert(decimal(n).drop_last() =~= decimal(n / 10));
    }
}

/// The notation of a number stands for the number, in digits and without a zero to start with.
pub proof fn law_a_number_is_written_in_digits(n: u128, r: String)
    requires
        call_ensures(decimal_text, (n,), r),
    ensures
        value_of(r@) == n,
        all_digits(r@),
        r@.len() > 0,
        n > 0 ==> r@[0] != '0',
        n == 0 ==> r@.len() == 1,
{
    lemma_decimal(n as nat);
}

/// The padded notation of a number stands for the number and has two digits or more, the second of
/// which is the first that counts where there are just two of them needed.
pub proof fn law_a_padded_number_has_two_digits(n: u128, r: String)
    requires
        call_ensures(two_digit_text, (n,), r),
    ensures
        value_of(r@) == n,
        all_digits(r@),
        r@.len() >= 2,
        n < 100 ==> r@.len() == 2,
        n >= 100 ==> r@[0] != '0',
{
    lemma_decimal(n as nat);
    if n < 10 {
        let d = decimal(n as nat);
        reveal_with_fuel(value_of, 3);
        assert(r@.drop_last() =~= seq!['0']);
        assert(r@.drop_last().drop_last() =~= Seq::<char>::empty());
        assert(d.drop_last() =~= Seq::<char>::empty());
        assert(r@.last() == d.last());
    }
}

/// Texts one behind the other, with `sep` between any two.
pub open spec fn joined_by(parts: Seq<Seq<char>>, sep: Seq<char>) -> Seq<char>
    decreases parts.len(),
{
    if parts.len() == 0 {
        Seq::empty()
    } else if parts.len() == 1 {
        parts[0]
    } else {
        joined_by(parts.drop_last(), sep) + sep + parts.last()
    }
}

proof fn lemma_joined_last(parts: Seq<Seq<char>>, sep: Seq<char>, c: char)
    requires
        parts.len() > 0,
    ensures
        joined_by(parts.drop_last().push(parts.last().push(c)), sep) == joined_by(parts, sep).push(
            c,
        ),
{
    let longer = parts.drop_last().push(parts.last().push(c));
    assert(longer.drop_last() =~= parts.drop_last());
    assert(joined_by(longer, sep) =~= joined_by(parts, sep).push(c));
}

proof fn lemma_split_joins(s: Seq<char>, sep: char)
    ensures
        joined_by(split(s, sep), seq![sep]) == s,
        forall|i: int, j: int|
            0 <= i < split(s, sep).len() && 0 <= j < split(s, sep)[i].len()
                ==> #[trigger] split(s, sep)[i][j] != sep,
    decreases s.len(),
{
    lemma_split_len(s, sep);
    if s.len() > 0 {
        let front = s.drop_last();
        let parts = split(front, sep);
        lemma_split_joins(front, sep);
        lemma_split_len(front, sep);
        let all = split(s, sep);
        if s.last() == sep {
            assert(all.drop_last() =~= parts);
            assert(joined_by(all, seq![sep]) =~= s);
        } else {
            lemma_joined_last(parts, seq![sep], s.last());
            assert(joined_by(all, seq![sep]) =~= s);
            assert forall|i: int, j: int| 0 <= i < all.len() && 0 <= j < all[i].len() implies
                #[trigger] all[i][j] != sep by {
                if i < parts.len() - 1 {
                    assert(parts[i][j] != sep);
                } else if j < parts.last().len() {
                    assert(parts[parts.len() - 1][j] != sep);
                }
            }
        }
    } else {
        assert(joined_by(split(s, sep), seq![sep]) =~= s);
    }
}

/// A text that is split loses nothing: its parts, with the character between them, are the text,
/// and no part holds the character.
pub proof fn law_split_parts_make_up_the_text(s: &str, sep: char, r: Vec<String>)
    requires
        call_ensures(split_text, (s, sep), r),
    ensures
        r@.len() > 0,
        joined_by(views(r@), seq![sep]) == s@,
        forall|i: int, j: int|
            0 <= i < r@.len() && 0 <= j < r@[i]@.len() ==> #[trigger] r@[i]@[j] != sep,
{
    lemma_split_joins(s@, sep);
    lemma_split_len(s@, sep);
    assert forall|i: int, j: int| 0 <= i < r@.len() && 0 <= j < r@[i]@.len() implies
        #[trigger] r@[i]@[j] != sep by {
        assert(views(r@)[i] == r@[i]@);
        assert(split(s@, sep)[i][j] != sep);
    }
}

/// A pattern stands at a place where its characters do.
pub proof fn law_a_pattern_stands_where_its_characters_do(
    s: &Vec<char>,
    at: usize,
    pattern: &Vec<char>,
    r: bool,
)
    requires
        call_ensures(is_text_at, (s, at, pattern), r),
    ensures
        r <==> at + pattern@.len() <= s@.len() && forall|i: int|
            0 <= i < pattern@.len() ==> s@[at + i] == #[trigger] pattern@[i],
{
    let all = forall|i: int| 0 <= i < pattern@.len() ==> s@[at + i] == #[trigger] pattern@[i];
    if at + pattern@.len() <= s@.len() {
        let part = s@.subrange(at as int, at + pattern@.len());
        if all {
            assert(part =~= pattern@);
        }
        if r {
            assert forall|i: int| 0 <= i < pattern@.len() implies s@[at + i]
                == #[trigger] pattern@[i] by {
                assert(part[i] == pattern@[i]);
            }
        }
    }
}

proof fn lemma_replaced_skips(s: Seq<char>, pattern: Seq<char>, by: Seq<char>, from: int, to: int)
    requires
        pattern.len() > 0,
        0 <= from <= to <= s.len(),
        forall|k: int| from <= k < to ==> !#[trigger] text_at(s, k, pattern),
    ensures
        replaced(s, pattern, by, from) == s.subrange(from, to) + replaced(s, pattern, by, to),
    decreases to - from,
{
    if from < to {
        lemma_replaced_skips(s, pattern, by, from + 1, to);
        assert(!text_at(s, from, pattern));
        assert(s.subrange(from, to) =~= seq![s[from]] + s.subrange(from + 1, to));
        assert(replaced(s, pattern, by, from) =~= s.subrange(from, to) + replaced(
            s,
            pattern,
            by,
            to,
        ));
    } else {
        assert(replaced(s, pattern, by, from) =~= s.subrange(from, to) + replaced(
            s,
            pattern,
            by,
            to,
        ));
    }
}

proof fn lemma_replaced_suffix(s: Seq<char>, t: Seq<char>, pattern: Seq<char>, by: Seq<char>, at: int)
    requires
        pattern.len() > 0,
        t.len() <= s.len(),
        t == s.skip(s.len() - t.len()),
        0 <= at <= t.len(),
    ensures
        replaced(s, pattern, by, s.len() - t.len() + at) == replaced(t, pattern, by, at),
    decreases t.len() - at,
{
    let d = s.len() - t.len();
    if at < t.len() {
        assert(text_at(s, d + at, pattern) == text_at(t, at, pattern)) by {
            if at + pattern.len() <= t.len() {
                assert(s.subrange(d + at, d + at + pattern.len()) =~= t.subrange(
                    at,
                    at + pattern.len(),
                ));
            }
        }
        if text_at(t, at, pattern) {
            lemma_replaced_suffix(s, t, pattern, by, at + pattern.len());
        } else {
            lemma_replaced_suffix(s, t, pattern, by, at + 1);
        }
    }
}

/// A text in which a pattern does not occur is not changed by replacing it.
pub proof fn law_nothing_to_replace_changes_nothing(s: &str, pattern: &str, by: &str, r: String)
    requires
        call_ensures(replace_text, (s, pattern, by), r),
        pattern@.len() > 0,
        forall|k: int| 0 <= k < s@.len() ==> !#[trigger] text_at(s@, k, pattern@),
    ensures
        r@ == s@,
{
    lemma_replaced_skips(s@, pattern@, by@, 0, s@.len() as int);
    assert(s@.subrange(0, s@.len() as int) + Seq::<char>::empty() =~= s@);
}

/// The first occurrence of a pattern is replaced, what stands before it is kept, and what comes
/// behind it is as it is when it is replaced in on its own.
pub proof fn law_an_occurrence_is_replaced(
    s: &str,
    before: Seq<char>,
    after: &str,
    pattern: &str,
    by: &str,
    r: String,
    rest: String,
)
    requires
        call_ensures(replace_text, (s, pattern, by), r),
        call_ensures(replace_text, (after, pattern, by), rest),
        pattern@.len() > 0,
        s@ == before + pattern@ + after@,
        forall|k: int| 0 <= k < before.len() ==> !#[trigger] text_at(s@, k, pattern@),
    ensures
        r@ == before + by@ + rest@,
{
    let at = before.len() as int;
    lemma_replaced_skips(s@, pattern@, by@, 0, at);
    assert(s@.subrange(0, at) =~= before);
    assert(s@.subrange(at, at + pattern@.len()) =~= pattern@);
    assert(text_at(s@, at, pattern@));
    assert(after@ =~= s@.skip(s@.len() - after@.len()));
    lemma_replaced_suffix(s@, after@, pattern@, by@, 0);
    assert(r@ =~= before + by@ + rest@);
}

/// A list holds a text where one of its items is that text.
pub proof fn law_a_text_is_found_among_others(list: &Vec<String>, wanted: &str, r: bool)
    requires
        call_ensures(contains_text, (list, wanted), r),
    ensures
        r <==> exists|k: int| 0 <= k < list@.len() && (#[trigger] list@[k])@ == wanted@,
{
    if r {
        let k = choose|k: int| 0 <= k < views(list@).len() && views(list@)[k] == wanted@;
        assert(list@[k]@ == wanted@);
    }
    if exists|k: int| 0 <= k < list@.len() && (#[trigger] list@[k])@ == wanted@ {
        let k = choose|k: int| 0 <= k < list@.len() && (#[trigger] list@[k])@ == wanted@;
        assert(views(list@)[k] == wanted@);
    }
}

/// A text that is removed from a list is gone, and every other is still there.
pub proof fn law_a_removed_text_is_gone(list: &mut Vec<String>, gone: &str, other: Seq<char>)
    requires
        call_ensures(remove_text, (list, gone), ()),
    ensures
        !views(final(list)@).contains(gone@),
        other != gone@ ==> (views(final(list)@).contains(other) <==> views(old(list)@).contains(
            other,
        )),
{
    lemma_without_text(views(old(list)@), gone@);
}

/// All characters are white space.
pub open spec fn all_white(s: Seq<char>) -> bool {
    forall|i: int| 0 <= i < s.len() ==> is_white_space(#[trigger] s[i])
}

/// What trimming the start takes off is white, and what is left starts with no white space.
pub proof fn lemma_start_trimmed(s: Seq<char>)
    ensures
        start_trimmed(s).len() <= s.len(),
        start_trimmed(s) == s.skip(s.len() - start_trimmed(s).len()),
        all_white(s.take(s.len() - start_trimmed(s).len())),
        start_trimmed(s).len() > 0 ==> !is_white_space(start_trimmed(s)[0]),
    decreases s.len(),
{
    if s.len() == 0 || !is_white_space(s[0]) {
        assert(s.skip(0) =~= s);
    } else {
        let rest = s.drop_first();
        lemma_start_trimmed(rest);
        let t = start_trimmed(rest);
        assert(s.skip(s.len() - t.len()) =~= rest.skip(rest.len() - t.len()));
        let lead = s.take(s.len() - t.len());
        assert forall|i: int| 0 <= i < lead.len() implies is_white_space(#[trigger] lead[i]) by {
            if i > 0 {
                assert(rest.take(rest.len() - t.len())[i - 1] == lead[i]);
            }
        }
    }
}

/// What trimming the end takes off is white, and what is left ends with no white space.
pub proof fn lemma_end_trimmed(s: Seq<char>)
    ensures
        end_trimmed(s).len() <= s.len(),
        end_trimmed(s) == s.take(end_trimmed(s).len() as int),
        all_white(s.skip(end_trimmed(s).len() as int)),
        end_trimmed(s).len() > 0 ==> !is_white_space(end_trimmed(s).last()),
    decreases s.len(),
{
    if s.len() == 0 || !is_white_space(s.last()) {
        assert(s.take(s.len() as int) =~= s);
    } else {
        let rest = s.drop_last();
        lemma_end_trimmed(rest);
        let t = end_trimmed(rest);
        assert(s.take(t.len() as int) =~= rest.take(t.len() as int));
        let tail = s.skip(t.len() as int);
        assert forall|i: int| 0 <= i < tail.len() implies is_white_space(#[trigger] tail[i]) by {
            if i < tail.len() - 1 {
                assert(rest.skip(t.len() as int)[i] == tail[i]);
            }
        }
    }
}

/// A trimmed text lacks white space at both ends and nothing else: what was taken off is white.
pub proof fn law_trimming_takes_off_white_space(s: &str, r: String)
    requires
        call_ensures(trim_text, (s,), r),
    ensures
        r@.len() > 0 ==> !is_white_space(r@[0]) && !is_white_space(r@.last()),
        exists|lead: int|
            #![trigger s@.take(lead)]
            0 <= lead && lead + r@.len() <= s@.len() && r@ == s@.subrange(lead, lead + r@.len())
                && all_white(s@.take(lead)) && all_white(s@.skip(lead + r@.len())),
{
    let t = start_trimmed(s@);
    lemma_start_trimmed(s@);
    lemma_end_trimmed(t);
    let lead = s@.len() - t.len();
    assert(r@ =~= s@.subrange(lead, lead + r@.len()));
    assert(s@.skip(lead + r@.len()) =~= t.skip(r@.len() as int));
    assert(all_white(s@.take(lead)));
    if r@.len() > 0 {
        assert(r@[0] == t[0]);
    }
}

proof fn lemma_joined_first(first: Seq<char>, rest: Seq<Seq<char>>, sep: Seq<char>)
    requires
        rest.len() > 0,
    ensures
        joined_by(seq![first] + rest, sep) == first + sep + joined_by(rest, sep),
    decreases rest.len(),
{
    let all = seq![first] + rest;
    assert(all.drop_last() =~= seq![first] + rest.drop_last());
    assert(all.last() == rest.last());
    if rest.len() == 1 {
        assert(all.drop_last() =~= seq![first]);
        assert(joined_by(seq![first], sep) == first);
        assert(joined_by(rest, sep) == rest[0]);
        assert(joined_by(all, sep) =~= first + sep + joined_by(rest, sep));
    } else {
        lemma_joined_first(first, rest.drop_last(), sep);
        assert(joined_by(all, sep) =~= first + sep + joined_by(rest, sep));
    }
}

proof fn lemma_parts_join(s: Seq<char>, pattern: Seq<char>, start: int, at: int)
    requires
        pattern.len() > 0,
        0 <= start <= at,
        start <= s.len(),
    ensures
        parts_between(s, pattern, start, at).len() > 0,
        joined_by(parts_between(s, pattern, start, at), pattern) == s.skip(start),
    decreases s.len() - at,
{
    if at + pattern.len() <= s.len() {
        if text_at(s, at, pattern) {
            let next = at + pattern.len();
            lemma_parts_join(s, pattern, next, next);
            lemma_joined_first(
                s.subrange(start, at),
                parts_between(s, pattern, next, next),
                pattern,
            );
            assert(s.skip(start) =~= s.subrange(start, at) + pattern + s.skip(next)) by {
                assert(s.subrange(at, next) =~= pattern);
                assert forall|i: int| 0 <= i < pattern.len() implies s[at + i] == pattern[i] by {
                    assert(s.subrange(at, next)[i] == pattern[i]);
                }
            }
        } else {
            lemma_parts_join(s, pattern, start, at + 1);
        }
    }
}

/// A text that is split by a pattern loses nothing: its parts, with the pattern between them, are
/// the text.
pub proof fn law_parts_between_patterns_make_up_the_text(s: &str, pattern: &str, r: Vec<String>)
    requires
        call_ensures(split_by_text, (s, pattern), r),
        pattern@.len() > 0,
    ensures
        r@.len() > 0,
        joined_by(views(r@), pattern@) == s@,
{
    lemma_parts_join(s@, pattern@, 0, 0);
    assert(s@.skip(0) =~= s@);
}

proof fn lemma_parts_of_whole(s: Seq<char>, pattern: Seq<char>, start: int, at: int)
    requires
        0 <= start <= at,
        forall|k: int| at <= k && k + pattern.len() <= s.len() ==> !#[trigger] text_at(s, k, pattern),
    ensures
        parts_between(s, pattern, start, at) == seq![s.skip(start)],
    decreases s.len() - at,
{
    if pattern.len() > 0 && at + pattern.len() <= s.len() {
        assert(!text_at(s, at, pattern));
        lemma_parts_of_whole(s, pattern, start, at + 1);
    }
}

/// A text in which a pattern does not occur is its only part.
pub proof fn law_a_text_without_pattern_is_one_part(s: &str, pattern: &str, r: Vec<String>)
    requires
        call_ensures(split_by_text, (s, pattern), r),
        pattern@.len() > 0,
        forall|k: int|
            0 <= k && k + pattern@.len() <= s@.len() ==> !#[trigger] text_at(s@, k, pattern@),
    ensures
        r@.len() == 1,
        r@[0]@ == s@,
{
    lemma_parts_of_whole(s@, pattern@, 0, 0);
    assert(s@.skip(0) =~= s@);
    assert(views(r@).len() == r@.len());
    assert(views(r@)[0] == r@[0]@);
}

} // verus!
