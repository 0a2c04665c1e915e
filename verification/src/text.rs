//! Texts: decimal numbers, joining, searching and trimming.

use vstd::prelude::*;

verus! {

/// `String::push` appends one character.
pub assume_specification[ String::push ](s: &mut String, c: char)
    ensures
        final(s)@ == old(s)@.push(c),
;

/// An owned copy of a text.
pub fn owned(s: &str) -> (r: String)
    ensures
        r@ == s@,
{
    s.to_owned()
}

/// The digit of a number below ten.
pub open spec fn digit(n: nat) -> char {
    (('0' as nat) + n) as char
}

/// The decimal notation of a number.
pub open spec fn decimal(n: nat) -> Seq<char>
    decreases n,
{
    if n < 10 {
        seq![digit(n)]
    } else {
        decimal(n / 10).push(digit(n % 10))
    }
}

fn push_decimal(s: &mut String, n: u128)
    ensures
        final(s)@ == old(s)@ + decimal(n as nat),
    decreases n,
{
    if n >= 10 {
        push_decimal(s, n / 10);
    }
    let ghost before = s@;
    let last: u8 = (n % 10) as u8;
    s.push((48u8 + last) as char);
    proof {
        assert(s@ == before.push(digit(n as nat % 10)));
        if n >= 10 {
            assert(old(s)@ + decimal(n as nat) =~= before.push(digit(n as nat % 10)));
        } else {
            assert(old(s)@ + decimal(n as nat) =~= before.push(digit(n as nat % 10)));
        }
    }
}

/// The decimal notation of a number.
pub fn decimal_text(n: u128) -> (r: String)
    ensures
        r@ == decimal(n as nat),
{
    let mut s = String::new();
    push_decimal(&mut s, n);
    assert(s@ =~= decimal(n as nat));
    s
}

/// The decimal notation with a zero in front of a single digit.
pub open spec fn two_digits(n: nat) -> Seq<char> {
    if n < 10 {
        seq!['0'] + decimal(n)
    } else {
        decimal(n)
    }
}

/// The decimal notation with a zero in front of a single digit.
pub fn two_digit_text(n: u128) -> (r: String)
    ensures
        r@ == two_digits(n as nat),
{
    let mut s = String::new();
    if n < 10 {
        s.push('0');
    }
    push_decimal(&mut s, n);
    assert(s@ =~= two_digits(n as nat));
    s
}

/// The texts of a list.
pub open spec fn views(parts: Seq<String>) -> Seq<Seq<char>> {
    Seq::new(parts.len(), |i: int| parts[i]@)
}

/// The parts of `s` between the characters `sep`; one more than there are such characters.
pub open spec fn split(s: Seq<char>, sep: char) -> Seq<Seq<char>>
    decreases s.len(),
{
    if s.len() == 0 {
        seq![Seq::empty()]
    } else {
        let parts = split(s.drop_last(), sep);
        if s.last() == sep {
            parts.push(Seq::empty())
        } else {
            parts.drop_last().push(parts.last().push(s.last()))
        }
    }
}

/// A text has at least one part.
pub proof fn lemma_split_len(s: Seq<char>, sep: char)
    ensures
        split(s, sep).len() >= 1,
    decreases s.len(),
{
    if s.len() > 0 {
        lemma_split_len(s.drop_last(), sep);
    }
}

/// The parts of a text between the characters `sep`.
pub fn split_text(s: &str, sep: char) -> (r: Vec<String>)
    ensures
        views(r@) == split(s@, sep),
{
    let mut parts: Vec<String> = Vec::new();
    let mut current = String::new();
    for c in it: s.chars()
        invariant
            it.seq() == s@,
            views(parts@).push(current@) == split(s@.take(it.index()), sep),
    {
        let ghost done = s@.take(it.index());
        let ghost before = views(parts@);
        let ghost piece = current@;
        assert(s@.take(it.index() + 1).drop_last() =~= done);
        if c == sep {
            parts.push(current);
            current = String::new();
            assert(views(parts@) =~= before.push(piece));
        } else {
            current.push(c);
            assert(split(done, sep).drop_last() =~= before);
        }
    }
    assert(s@.take(s@.len() as int) =~= s@);
    let ghost before = views(parts@);
    let ghost piece = current@;
    parts.push(current);
    assert(views(parts@) =~= before.push(piece));
    parts
}

/// The characters of a text.
pub fn chars_of(s: &str) -> (r: Vec<char>)
    ensures
        r@ == s@,
{
    let mut chars: Vec<char> = Vec::new();
    for c in it: s.chars()
        invariant
            it.seq() == s@,
            chars@ == s@.take(it.index()),
    {
        chars.push(c);
        assert(chars@ =~= s@.take(it.index() + 1));
    }
    assert(s@.take(s@.len() as int) =~= s@);
    chars
}

/// `pattern` stands in `s` at `at`.
pub open spec fn text_at(s: Seq<char>, at: int, pattern: Seq<char>) -> bool {
    at + pattern.len() <= s.len() && s.subrange(at, at + pattern.len()) == pattern
}

/// Whether `pattern` stands in `s` at `at`.
pub fn is_text_at(s: &Vec<char>, at: usize, pattern: &Vec<char>) -> (r: bool)
    ensures
        r == text_at(s@, at as int, pattern@),
{
    let total: usize = s.len();
    let count: usize = pattern.len();
    if at > total || count > total - at {
        return false;
    }
    for i in 0..count
        invariant
            total == s@.len(),
            count == pattern@.len(),
            at + count <= total,
            forall|j: int| 0 <= j < i ==> s@[at + j] == #[trigger] pattern@[j],
    {
        if s[at + i] != pattern[i] {
            assert(s@.subrange(at as int, at + count)[i as int] != pattern@[i as int]);
            return false;
        }
    }
    assert(s@.subrange(at as int, at + count) =~= pattern@);
    true
}

/// The text from `at` on, with each occurrence of `pattern`, from left to right, written as `by`.
pub open spec fn replaced(s: Seq<char>, pattern: Seq<char>, by: Seq<char>, at: int) -> Seq<char>
    decreases s.len() - at,
{
    if at >= s.len() || pattern.len() == 0 {
        Seq::empty()
    } else if text_at(s, at, pattern) {
        by + replaced(s, pattern, by, at + pattern.len())
    } else {
        seq![s[at]] + replaced(s, pattern, by, at + 1)
    }
}

/// The text with each occurrence of `pattern` written as `by`.
pub fn replace_text(s: &str, pattern: &str, by: &str) -> (r: String)
    requires
        pattern@.len() > 0,
    ensures
        r@ == replaced(s@, pattern@, by@, 0),
{
    let chars = chars_of(s);
    let wanted = chars_of(pattern);
    let total: usize = chars.len();
    let step: usize = wanted.len();
    let mut r = String::new();
    let mut at: usize = 0;
    while at < total
        invariant
            chars@ == s@,
            wanted@ == pattern@,
            total == chars@.len(),
            step == wanted@.len(),
            step > 0,
            at <= total,
            r@ + replaced(s@, pattern@, by@, at as int) == replaced(s@, pattern@, by@, 0),
        decreases total - at,
    {
        let ghost before = r@;
        let ghost from = at as int;
        if is_text_at(&chars, at, &wanted) {
            r.append(by);
            at += step;
            assert(before + replaced(s@, pattern@, by@, from) =~= r@ + replaced(
                s@,
                pattern@,
                by@,
                at as int,
            ));
        } else {
            r.push(chars[at]);
            at += 1;
            assert(before + replaced(s@, pattern@, by@, from) =~= r@ + replaced(
                s@,
                pattern@,
                by@,
                at as int,
            ));
        }
    }
    assert(r@ + Seq::<char>::empty() =~= r@);
    r
}

/// Whether a list holds a text.
pub fn contains_text(list: &Vec<String>, wanted: &str) -> (r: bool)
    ensures
        r == views(list@).contains(wanted@),
{
    let text = owned(wanted);
    for i in 0..list.len()
        invariant
            text@ == wanted@,
            forall|j: int| 0 <= j < i ==> (#[trigger] views(list@)[j]) != wanted@,
    {
        if list[i] == text {
            assert(views(list@)[i as int] == wanted@);
            return true;
        }
    }
    assert(!views(list@).contains(wanted@)) by {
        if views(list@).contains(wanted@) {
            let k = choose|k: int| 0 <= k < views(list@).len() && views(list@)[k] == wanted@;
            assert(views(list@)[k] != wanted@);
        }
    }
    false
}

/// The list without a text.
pub open spec fn without_text(list: Seq<Seq<char>>, gone: Seq<char>) -> Seq<Seq<char>>
    decreases list.len(),
{
    if list.len() == 0 {
        Seq::empty()
    } else if list.last() == gone {
        without_text(list.drop_last(), gone)
    } else {
        without_text(list.drop_last(), gone).push(list.last())
    }
}

/// Removes a text from a list.
pub fn remove_text(list: &mut Vec<String>, gone: &str)
    ensures
        views(final(list)@) == without_text(views(old(list)@), gone@),
{
    let text = owned(gone);
    let total: usize = list.len();
    let mut kept: Vec<String> = Vec::new();
    assert(views(kept@) =~= without_text(views(list@).take(0), gone@));
    for i in 0..total
        invariant
            total == list@.len(),
            list@ == old(list)@,
            text@ == gone@,
            views(kept@) == without_text(views(list@).take(i as int), gone@),
    {
        assert(views(list@).take(i + 1).drop_last() =~= views(list@).take(i as int));
        let ghost before = views(kept@);
        if list[i] != text {
            kept.push(list[i].clone());
            assert(views(kept@) =~= before.push(list@[i as int]@));
        }
    }
    assert(views(list@).take(total as int) =~= views(list@));
    *list = kept;
}

/// A copy of a list of texts.
pub fn copy_texts(list: &Vec<String>) -> (r: Vec<String>)
    ensures
        views(r@) == views(list@),
{
    let mut r: Vec<String> = Vec::new();
    for i in 0..list.len()
        invariant
            r@.len() == i,
            forall|j: int| 0 <= j < i ==> (#[trigger] r@[j])@ == list@[j]@,
    {
        r.push(list[i].clone());
    }
    assert(views(r@) =~= views(list@));
    r
}

/// What a list holds after a text is removed: all else, and no text twice where none was.
pub proof fn lemma_without_text(list: Seq<Seq<char>>, gone: Seq<char>)
    ensures
        forall|t: Seq<char>|
            #[trigger] without_text(list, gone).contains(t) <==> list.contains(t) && t != gone,
        list.no_duplicates() ==> without_text(list, gone).no_duplicates(),
        without_text(list, gone).len() <= list.len(),
    decreases list.len(),
{
    if list.len() > 0 {
        let front = list.drop_last();
        let kept = without_text(front, gone);
        lemma_without_text(front, gone);
        let all = without_text(list, gone);
        assert forall|t: Seq<char>| #[trigger] all.contains(t) <==> list.contains(t) && t != gone by {
            if list.contains(t) {
                let k = choose|k: int| 0 <= k < list.len() && list[k] == t;
                if k < front.len() {
                    assert(front[k] == t);
                }
            }
            if front.contains(t) {
                let k = choose|k: int| 0 <= k < front.len() && front[k] == t;
                assert(list[k] == t);
            }
            if list.last() != gone {
                assert(all[kept.len() as int] == list.last());
                if kept.contains(t) {
                    let k = choose|k: int| 0 <= k < kept.len() && kept[k] == t;
                    assert(all[k] == t);
                }
                if all.contains(t) {
                    let k = choose|k: int| 0 <= k < all.len() && all[k] == t;
                    if k < kept.len() {
                        assert(kept[k] == t);
                    } else {
                        assert(list[list.len() - 1] == t);
                    }
                }
            }
        }
        if list.no_duplicates() {
            assert(front.no_duplicates());
            if list.last() != gone {
                assert forall|i: int, j: int|
                    0 <= i < all.len() && 0 <= j < all.len() && i != j implies all[i] != all[j] by {
                    if i < kept.len() && j < kept.len() {
                        assert(kept[i] != kept[j]);
                    } else {
                        let k = if i < kept.len() {
                            i
                        } else {
                            j
                        };
                        assert(kept.contains(kept[k]));
                        assert(front.contains(kept[k]));
                        let x = choose|x: int| 0 <= x < front.len() && front[x] == kept[k];
                        assert(list[x] != list[list.len() - 1]);
                    }
                }
            }
        }
    }
}

/// The character has the Unicode property `White_Space`.
pub uninterp spec fn is_white_space(c: char) -> bool;

/// `char::is_whitespace` tells the Unicode property `White_Space`. Among the ASCII characters
/// these are the space and the five controls from the tab to the carriage return.
pub assume_specification[ char::is_whitespace ](c: char) -> (r: bool)
    ensures
        r == is_white_space(c),
        (c as int) < 128 ==> r == (c == ' ' || 9 <= c as int <= 13),
;

/// A text that may be missing, as a sequence.
pub open spec fn text_view(text: Option<String>) -> Option<Seq<char>> {
    match text {
        Some(text) => Some(text@),
        None => None,
    }
}

/// A text without the white space at its start.
pub open spec fn start_trimmed(s: Seq<char>) -> Seq<char>
    decreases s.len(),
{
    if s.len() == 0 || !is_white_space(s[0]) {
        s
    } else {
        start_trimmed(s.drop_first())
    }
}

/// A text without the white space at its end.
pub open spec fn end_trimmed(s: Seq<char>) -> Seq<char>
    decreases s.len(),
{
    if s.len() == 0 || !is_white_space(s.last()) {
        s
    } else {
        end_trimmed(s.drop_last())
    }
}

/// A text without the white space at its start and end.
pub open spec fn trimmed(s: Seq<char>) -> Seq<char> {
    end_trimmed(start_trimmed(s))
}

/// The text of characters.
pub fn text_of(chars: &Vec<char>, from: usize, to: usize) -> (r: String)
    requires
        from <= to <= chars@.len(),
    ensures
        r@ == chars@.subrange(from as int, to as int),
{
    let mut r = String::new();
    let mut i: usize = from;
    while i < to
        invariant
            from <= i <= to <= chars@.len(),
            r@ == chars@.subrange(from as int, i as int),
        decreases to - i,
    {
        r.push(chars[i]);
        i += 1;
        assert(r@ =~= chars@.subrange(from as int, i as int));
    }
    r
}

/// A text without the white space at its start and end.
pub fn trim_text(s: &str) -> (r: String)
    ensures
        r@ == trimmed(s@),
{
    let chars = chars_of(s);
    let total: usize = chars.len();
    let mut from: usize = 0;
    assert(chars@.skip(0) =~= chars@);
    while from < total && chars[from].is_whitespace()
        invariant
            total == chars@.len(),
            from <= total,
            start_trimmed(chars@.skip(from as int)) == start_trimmed(chars@),
        decreases total - from,
    {
        assert(chars@.skip(from as int).drop_first() =~= chars@.skip(from + 1));
        from += 1;
    }
    let ghost rest = chars@.skip(from as int);
    assert(start_trimmed(chars@) == rest);
    let mut to: usize = total;
    assert(chars@.subrange(from as int, to as int) =~= rest);
    while to > from && chars[to - 1].is_whitespace()
        invariant
            from <= to <= total,
            total == chars@.len(),
            end_trimmed(chars@.subrange(from as int, to as int)) == end_trimmed(rest),
        decreases to,
    {
        assert(chars@.subrange(from as int, to as int).drop_last() =~= chars@.subrange(
            from as int,
            to - 1,
        ));
        to -= 1;
    }
    text_of(&chars, from, to)
}

/// The lower-case form of an ASCII letter, and any other character itself.
pub open spec fn ascii_lower(c: char) -> char {
    if 'A' <= c && c <= 'Z' {
        (c as int + 32) as char
    } else {
        c
    }
}

/// Two texts are equal but for the case of ASCII letters.
pub open spec fn equal_ignoring_case(a: Seq<char>, b: Seq<char>) -> bool {
    a.len() == b.len() && forall|i: int|
        0 <= i < a.len() ==> ascii_lower(#[trigger] a[i]) == ascii_lower(b[i])
}

/// The parts of `s` from `start` on that stand between the occurrences of `pattern`, which is
/// looked for from `at` on.
pub open spec fn parts_between(s: Seq<char>, pattern: Seq<char>, start: int, at: int) -> Seq<
    Seq<char>,
>
    decreases s.len() - at,
{
    if at < start || start < 0 || pattern.len() == 0 || at + pattern.len() > s.len() {
        seq![s.skip(start)]
    } else if text_at(s, at, pattern) {
        seq![s.subrange(start, at)] + parts_between(
            s,
            pattern,
            at + pattern.len(),
            at + pattern.len(),
        )
    } else {
        parts_between(s, pattern, start, at + 1)
    }
}

/// The parts of `s` between the occurrences of `pattern`, from left to right.
pub fn split_by_text(s: &str, pattern: &str) -> (r: Vec<String>)
    requires
        pattern@.len() > 0,
    ensures
        views(r@) == parts_between(s@, pattern@, 0, 0),
{
    let chars = chars_of(s);
    let wanted = chars_of(pattern);
    let total: usize = chars.len();
    let step: usize = wanted.len();
    let mut parts: Vec<String> = Vec::new();
    let mut start: usize = 0;
    let mut at: usize = 0;
    assert(views(parts@) + parts_between(s@, pattern@, 0, 0) =~= parts_between(s@, pattern@, 0, 0));
    while at <= total && step <= total - at
        invariant
            chars@ == s@,
            wanted@ == pattern@,
            total == chars.len(),
            step == wanted.len(),
            step > 0,
            start <= at,
            start <= total,
            views(parts@) + parts_between(s@, pattern@, start as int, at as int) == parts_between(
                s@,
                pattern@,
                0,
                0,
            ),
        decreases total + 1 - at,
    {
        if is_text_at(&chars, at, &wanted) {
            let part = text_of(&chars, start, at);
            let ghost before = parts@;
            let ghost rest = parts_between(s@, pattern@, at + step, at + step);
            parts.push(part);
            assert(views(parts@) =~= views(before).push(part@));
            assert(views(before) + (seq![part@] + rest) =~= views(parts@) + rest);
            at = at + step;
            start = at;
        } else {
            at = at + 1;
        }
    }
    let last = text_of(&chars, start, total);
    let ghost before = parts@;
    assert(last@ =~= s@.skip(start as int));
    parts.push(last);
    assert(views(parts@) =~= views(before) + seq![last@]);
    parts
}

} // verus!
