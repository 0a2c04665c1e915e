//! Plain text from the descriptions of the catalogue, which come as HTML.

use vstd::prelude::*;
use crate::sequences::{first_match, lemma_first_match, lemma_no_match};
use crate::text::{
    ascii_lower, end_trimmed, equal_ignoring_case, is_white_space, start_trimmed, text_of,
    text_view, trim_text, trimmed,
};

verus! {

/// A text with its HTML character references written out.
pub uninterp spec fn entities_decoded(text: Seq<char>) -> Seq<char>;

/// `html_escape::decode_html_entities`: the text with the character references written out.
/// Which references there are is left to the crate; a text without an ampersand has none.
#[verifier::external_body]
fn decode_entities(text: &str) -> (r: String)
    ensures
        r@ == entities_decoded(text@),
        !text@.contains('&') ==> r@ == text@,
{
    html_escape::decode_html_entities(text).into_owned()
}

/// A scan of HTML: the text so far, the tag that is read, and whether one is.
pub struct HtmlScan {
    pub data: Seq<char>,
    pub tag: Seq<char>,
    pub inside: bool,
}

/// A character that divides the words of a tag.
pub open spec fn divides() -> spec_fn(char) -> bool {
    |c: char| is_white_space(c) || c == '/'
}

/// A character of a word of a tag.
pub open spec fn is_word_char() -> spec_fn(char) -> bool {
    |c: char| !(is_white_space(c) || c == '/')
}

/// The first word of a tag.
pub open spec fn tag_name(tag: Seq<char>) -> Seq<char> {
    match first_match(tag, is_word_char()) {
        None => Seq::empty(),
        Some(start) => match first_match(tag.skip(start), divides()) {
            Some(n) => tag.subrange(start, start + n),
            None => tag.skip(start),
        },
    }
}

/// A tag that starts a new line.
pub open spec fn breaks_line(tag: Seq<char>) -> bool {
    equal_ignoring_case(tag_name(tag), seq!['b', 'r']) || equal_ignoring_case(
        tag_name(tag),
        seq!['p'],
    )
}

/// The text ends in an empty line.
pub open spec fn ends_in_empty_line(data: Seq<char>) -> bool {
    data.len() >= 2 && data[data.len() - 1] == '\n' && data[data.len() - 2] == '\n'
}

/// The scan after one more character.
pub open spec fn scan_step(scan: HtmlScan, c: char) -> HtmlScan {
    if c == '<' {
        HtmlScan { data: scan.data, tag: Seq::empty(), inside: true }
    } else if c == '>' {
        HtmlScan {
            data: if breaks_line(scan.tag) && !ends_in_empty_line(scan.data) {
                scan.data.push('\n')
            } else {
                scan.data
            },
            tag: scan.tag,
            inside: false,
        }
    } else if scan.inside {
        HtmlScan { data: scan.data, tag: scan.tag.push(c), inside: true }
    } else {
        HtmlScan { data: scan.data.push(c), tag: scan.tag, inside: false }
    }
}

/// The scan of a text.
pub open spec fn scanned(text: Seq<char>) -> HtmlScan
    decreases text.len(),
{
    if text.len() == 0 {
        HtmlScan { data: Seq::empty(), tag: Seq::empty(), inside: false }
    } else {
        scan_step(scanned(text.drop_last()), text.last())
    }
}

/// A text, where it is not empty.
pub open spec fn where_any(text: Seq<char>) -> Option<Seq<char>> {
    if text.len() == 0 {
        None
    } else {
        Some(text)
    }
}

/// The plain text of a description: without tags, with a line break for each `br` and `p` but no
/// more than one empty line, trimmed and with the character references written out. There is
/// none where nothing is left.
pub open spec fn plain_text(source: Option<Seq<char>>) -> Option<Seq<char>> {
    match source {
        None => None,
        Some(text) => if trimmed(text).len() == 0 {
            None
        } else {
            where_any(entities_decoded(trimmed(scanned(text).data)))
        },
    }
}

/// The lower-case form of an ASCII letter, and any other character itself.
fn lower_char(c: char) -> (r: char)
    ensures
        r == ascii_lower(c),
{
    if 'A' <= c && c <= 'Z' {
        ((c as u8) + 32) as char
    } else {
        c
    }
}

/// Whether a tag starts a new line.
fn is_break(tag: &Vec<char>) -> (r: bool)
    ensures
        r == breaks_line(tag@),
{
    let total: usize = tag.len();
    let mut start: usize = 0;
    while start < total && (tag[start].is_whitespace() || tag[start] == '/')
        invariant
            total == tag@.len(),
            start <= total,
            forall|j: int| 0 <= j < start ==> !is_word_char()(#[trigger] tag@[j]),
        decreases total - start,
    {
        start += 1;
    }
    if start == total {
        proof {
            lemma_no_match(tag@, is_word_char());
            assert(tag_name(tag@).len() == 0);
        }
        return false;
    }
    proof {
        lemma_first_match(tag@, is_word_char(), start as int);
    }
    let ghost tail = tag@.skip(start as int);
    let mut end: usize = start;
    while end < total && !(tag[end].is_whitespace() || tag[end] == '/')
        invariant
            total == tag@.len(),
            start <= end <= total,
            tail == tag@.skip(start as int),
            forall|j: int| 0 <= j < end - start ==> !divides()(#[trigger] tail[j]),
        decreases total - end,
    {
        assert(tail[end - start] == tag@[end as int]);
        end += 1;
    }
    let ghost name = tag_name(tag@);
    proof {
        if end < total {
            assert(tail[end - start] == tag@[end as int]);
            lemma_first_match(tail, divides(), end - start);
        } else {
            lemma_no_match(tail, divides());
        }
        assert(name =~= tag@.subrange(start as int, end as int));
    }
    let len: usize = end - start;
    if len == 1 {
        let c: char = lower_char(tag[start]);
        assert(name[0] == tag@[start as int]);
        assert(ascii_lower('p') == 'p');
        assert(equal_ignoring_case(name, seq!['p']) == (c == 'p'));
        return c == 'p';
    }
    if len == 2 {
        let b: char = lower_char(tag[start]);
        let r: char = lower_char(tag[start + 1]);
        assert(name[0] == tag@[start as int] && name[1] == tag@[start + 1]);
        assert(ascii_lower('b') == 'b' && ascii_lower('r') == 'r');
        let both: bool = b == 'b' && r == 'r';
        assert(equal_ignoring_case(name, seq!['b', 'r']) == both) by {
            let word = seq!['b', 'r'];
            if both {
                assert forall|i: int| 0 <= i < name.len() implies ascii_lower(#[trigger] name[i])
                    == ascii_lower(word[i]) by {
                    if i == 0 {
                    } else {
                        assert(i == 1);
                    }
                }
            } else {
                if equal_ignoring_case(name, word) {
                    assert(ascii_lower(name[0]) == ascii_lower(word[0]));
                    assert(ascii_lower(name[1]) == ascii_lower(word[1]));
                }
            }
        }
        return both;
    }
    false
}

/// The text of an HTML source, trimmed; character references stay as they are.
pub fn strip_tags(text: &str) -> (r: String)
    ensures
        r@ == trimmed(scanned(text@).data),
{
    let mut data: Vec<char> = Vec::new();
    let mut tag: Vec<char> = Vec::new();
    let mut inside: bool = false;
    for c in it: text.chars()
        invariant
            it.seq() == text@,
            data@ == scanned(text@.take(it.index())).data,
            tag@ == scanned(text@.take(it.index())).tag,
            inside == scanned(text@.take(it.index())).inside,
    {
        let ghost next = text@.take(it.index() + 1);
        assert(next.drop_last() =~= text@.take(it.index()) && next.last() == c);
        if c == '<' {
            inside = true;
            tag = Vec::new();
        } else if c == '>' {
            inside = false;
            let total: usize = data.len();
            if is_break(&tag) && !(total >= 2 && data[total - 1] == '\n' && data[total - 2]
                == '\n') {
                data.push('\n');
            }
        } else if inside {
            tag.push(c);
        } else {
            data.push(c);
        }
        assert(tag@ =~= scanned(next).tag);
    }
    assert(text@.take(text@.len() as int) =~= text@);
    let plain = text_of(&data, 0, data.len());
    assert(plain@ =~= data@);
    trim_text(plain.as_str())
}

/// The text, where it is not empty.
pub fn non_empty(text: String) -> (r: Option<String>)
    ensures
        text_view(r) == where_any(text@),
{
    if text.as_str().is_empty() {
        None
    } else {
        Some(text)
    }
}

pub fn sanitize_html(source: Option<String>) -> (r: Option<String>)
    ensures
        text_view(r) == plain_text(text_view(source)),
        source matches Some(text) ==> !text@.contains('&') ==> text_view(r) == if trimmed(
            text@,
        ).len() == 0 {
            None
        } else {
            where_any(trimmed(scanned(text@).data))
        },
{
    let source = match source {
        Some(source) => source,
        None => return None,
    };
    proof {
        lemma_no_reference_is_made(source@);
    }
    if trim_text(source.as_str()).as_str().is_empty() {
        return None;
    }
    non_empty(decode_entities(strip_tags(source.as_str()).as_str()))
}

/// Trimming brings no character in.
proof fn lemma_trimmed_is_part(s: Seq<char>, c: char)
    ensures
        trimmed(s).contains(c) ==> s.contains(c),
{
    lemma_start_trimmed_is_part(s, c);
    lemma_end_trimmed_is_part(start_trimmed(s), c);
}

proof fn lemma_start_trimmed_is_part(s: Seq<char>, c: char)
    ensures
        start_trimmed(s).contains(c) ==> s.contains(c),
    decreases s.len(),
{
    if s.len() > 0 {
        lemma_start_trimmed_is_part(s.drop_first(), c);
        if s.drop_first().contains(c) {
            let i = choose|i: int| 0 <= i < s.drop_first().len() && s.drop_first()[i] == c;
            assert(s[i + 1] == c);
        }
    }
}

proof fn lemma_end_trimmed_is_part(s: Seq<char>, c: char)
    ensures
        end_trimmed(s).contains(c) ==> s.contains(c),
    decreases s.len(),
{
    if s.len() > 0 {
        lemma_end_trimmed_is_part(s.drop_last(), c);
        if s.drop_last().contains(c) {
            let i = choose|i: int| 0 <= i < s.drop_last().len() && s.drop_last()[i] == c;
            assert(s[i] == c);
        }
    }
}

/// But for line breaks, the text of a source holds only characters of the source.
proof fn lemma_scanned_is_part(text: Seq<char>, c: char)
    requires
        c != '\n',
    ensures
        scanned(text).data.contains(c) ==> text.contains(c),
    decreases text.len(),
{
    if text.len() > 0 {
        let front = text.drop_last();
        lemma_scanned_is_part(front, c);
        let data = scanned(text).data;
        if data.contains(c) {
            let i = choose|i: int| 0 <= i < data.len() && data[i] == c;
            if i < scanned(front).data.len() {
                assert(scanned(front).data[i] == c);
                let k = choose|k: int| 0 <= k < front.len() && front[k] == c;
                assert(text[k] == c);
            } else {
                assert(text[text.len() - 1] == c);
            }
        }
    }
}

/// The text of a source without an ampersand has none.
proof fn lemma_no_reference_is_made(text: Seq<char>)
    ensures
        !text.contains('&') ==> !trimmed(scanned(text).data).contains('&'),
{
    lemma_scanned_is_part(text, '&');
    lemma_trimmed_is_part(scanned(text).data, '&');
}

/// A text without angle brackets is its own text.
pub proof fn law_text_without_tags_is_kept(text: Seq<char>)
    requires
        !text.contains('<'),
        !text.contains('>'),
    ensures
        scanned(text).data == text,
        !scanned(text).inside,
    decreases text.len(),
{
    if text.len() > 0 {
        let front = text.drop_last();
        assert(!front.contains('<') && !front.contains('>')) by {
            assert forall|i: int| 0 <= i < front.len() implies front[i] != '<' && front[i]
                != '>' by {
                assert(text.contains(text[i]));
            }
        }
        law_text_without_tags_is_kept(front);
        assert(text.contains(text[text.len() - 1]));
        assert(front.push(text.last()) =~= text);
    } else {
        assert(scanned(text).data =~= text);
    }
}

/// No angle bracket of the source gets into the text.
pub proof fn law_no_tag_is_left(text: Seq<char>)
    ensures
        forall|i: int|
            0 <= i < scanned(text).data.len() ==> (#[trigger] scanned(text).data[i]) != '<'
                && scanned(text).data[i] != '>',
    decreases text.len(),
{
    if text.len() > 0 {
        law_no_tag_is_left(text.drop_last());
        let before = scanned(text.drop_last()).data;
        let after = scanned(text).data;
        assert forall|i: int| 0 <= i < after.len() implies (#[trigger] after[i]) != '<' && after[i]
            != '>' by {
            if i < before.len() {
                assert(after[i] == before[i]);
            }
        }
    }
}

/// Three line breaks stand one behind the other at `i`.
pub open spec fn breaks_thrice(data: Seq<char>, i: int) -> bool {
    0 <= i && i + 2 < data.len() && data[i] == '\n' && data[i + 1] == '\n' && data[i + 2] == '\n'
}

/// Tags leave no more than one empty line: where the source holds no line break of its own, no
/// three of them follow each other in its text.
pub proof fn law_tags_leave_one_empty_line(text: Seq<char>)
    requires
        !text.contains('\n'),
    ensures
        forall|i: int| !#[trigger] breaks_thrice(scanned(text).data, i),
    decreases text.len(),
{
    if text.len() > 0 {
        let front = text.drop_last();
        assert(!front.contains('\n')) by {
            assert forall|i: int| 0 <= i < front.len() implies front[i] != '\n' by {
                assert(text.contains(text[i]));
            }
        }
        law_tags_leave_one_empty_line(front);
        assert(text.contains(text[text.len() - 1]));
        let before = scanned(front).data;
        let after = scanned(text).data;
        assert forall|i: int| !#[trigger] breaks_thrice(after, i) by {
            assert(!breaks_thrice(before, i));
        }
    }
}

} // verus!
