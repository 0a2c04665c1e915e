//! The track that is playing, on the whole screen: how big its title can be written.

use vstd::prelude::*;
use crate::models::Status;
use crate::text::{chars_of, decimal, decimal_text, is_white_space, owned, text_of, text_view, views};

verus! {

/// How a big character is composed.
#[derive(Clone, Copy, Debug, PartialEq, Eq, Structural)]
pub enum PixelSize {
    HalfHeight,
    Sextant,
}

/// A size of big text, with the columns and rows of a character.
#[derive(Clone, Copy, Debug, PartialEq, Eq, Structural)]
pub struct BigTextSize {
    pub pixel_size: PixelSize,
    pub char_width: u16,
    pub char_height: u16,
}

/// The columns between the cover and the text.
pub const IMAGE_INFO_GAP: u16 = 6;

/// The big characters that are kept free for the icon before a title.
pub const ICON_CHARS: u16 = 2;

/// The sizes of a title, the largest first.
pub open spec fn title_steps() -> Seq<BigTextSize> {
    seq![
        BigTextSize { pixel_size: PixelSize::HalfHeight, char_width: 8, char_height: 4 },
        BigTextSize { pixel_size: PixelSize::Sextant, char_width: 4, char_height: 3 },
    ]
}

/// The one size of what the title is part of.
pub open spec fn entity_steps() -> Seq<BigTextSize> {
    seq![BigTextSize { pixel_size: PixelSize::Sextant, char_width: 4, char_height: 3 }]
}

/// The sizes of a title.
pub fn title_sizes() -> (r: Vec<BigTextSize>)
    ensures
        r@ == title_steps(),
{
    let mut sizes: Vec<BigTextSize> = Vec::new();
    sizes.push(BigTextSize { pixel_size: PixelSize::HalfHeight, char_width: 8, char_height: 4 });
    sizes.push(BigTextSize { pixel_size: PixelSize::Sextant, char_width: 4, char_height: 3 });
    sizes
}

/// The sizes of what the title is part of.
pub fn entity_sizes() -> (r: Vec<BigTextSize>)
    ensures
        r@ == entity_steps(),
{
    let mut sizes: Vec<BigTextSize> = Vec::new();
    sizes.push(BigTextSize { pixel_size: PixelSize::Sextant, char_width: 4, char_height: 3 });
    sizes
}

/// The words of a text: its longest parts without white space, in order.
pub open spec fn words(s: Seq<char>) -> Seq<Seq<char>>
    decreases s.len(),
{
    if s.len() == 0 {
        Seq::empty()
    } else {
        let before = words(s.drop_last());
        if is_white_space(s.last()) {
            before
        } else if s.len() == 1 || is_white_space(s[s.len() - 2]) {
            before.push(seq![s.last()])
        } else {
            before.update(before.len() - 1, before.last().push(s.last()))
        }
    }
}

/// Words on lines: a word goes on the last line where it fits behind a space, else on a new one.
pub open spec fn lines_of(all: Seq<Seq<char>>, max_chars: int) -> Seq<Seq<char>>
    decreases all.len(),
{
    if all.len() == 0 {
        Seq::empty()
    } else {
        let before = lines_of(all.drop_last(), max_chars);
        if before.len() == 0 || before.last().len() + 1 + all.last().len() > max_chars {
            before.push(all.last())
        } else {
            before.update(before.len() - 1, before.last() + seq![' '] + all.last())
        }
    }
}

/// A text on lines: as it is where it fits on one, else word by word.
pub open spec fn wrapped(s: Seq<char>, max_chars: int) -> Seq<Seq<char>> {
    if s.len() <= max_chars {
        seq![s]
    } else {
        lines_of(words(s), max_chars)
    }
}

proof fn lemma_words(s: Seq<char>)
    ensures
        s.len() > 0 && !is_white_space(s.last()) ==> words(s).len() > 0,
        forall|i: int| 0 <= i < words(s).len() ==> (#[trigger] words(s)[i]).len() > 0,
        forall|i: int, j: int|
            0 <= i < words(s).len() && 0 <= j < words(s)[i].len() ==> !is_white_space(
                #[trigger] words(s)[i][j],
            ),
        words(s).len() <= s.len(),
    decreases s.len(),
{
    if s.len() > 0 {
        lemma_words(s.drop_last());
        let before = words(s.drop_last());
        if !is_white_space(s.last()) && s.len() > 1 && !is_white_space(s[s.len() - 2]) {
            assert(s.drop_last().last() == s[s.len() - 2]);
            assert(before.len() > 0);
            let at = before.len() - 1;
            assert forall|i: int, j: int|
                0 <= i < words(s).len() && 0 <= j < words(s)[i].len() implies !is_white_space(
                #[trigger] words(s)[i][j],
            ) by {
                if i == at {
                    assert(words(s)[i] == before[at].push(s.last()));
                    if j < before[at].len() {
                        assert(words(s)[i][j] == before[at][j]);
                    }
                } else {
                    assert(words(s)[i] == before[i]);
                    assert(words(s)[i][j] == before[i][j]);
                }
            }
        } else if !is_white_space(s.last()) {
            assert forall|i: int, j: int|
                0 <= i < words(s).len() && 0 <= j < words(s)[i].len() implies !is_white_space(
                #[trigger] words(s)[i][j],
            ) by {
                if i < before.len() {
                    assert(words(s)[i] == before[i]);
                    assert(words(s)[i][j] == before[i][j]);
                }
            }
        }
    }
}

/// The words of a text.
pub fn split_words(s: &str) -> (r: Vec<String>)
    ensures
        views(r@) == words(s@),
{
    let chars = chars_of(s);
    let total: usize = chars.len();
    let mut all: Vec<String> = Vec::new();
    let mut start: usize = 0;
    let mut i: usize = 0;
    assert(views(all@) =~= words(chars@.take(0)));
    while i < total
        invariant
            chars@ == s@,
            total == chars@.len(),
            start <= i <= total,
            forall|k: int| start <= k < i ==> !is_white_space(#[trigger] chars@[k]),
            start == 0 || is_white_space(chars@[start - 1]),
            words(chars@.take(i as int)) == if start < i {
                views(all@).push(chars@.subrange(start as int, i as int))
            } else {
                views(all@)
            },
        decreases total - i,
    {
        let ghost so_far = chars@.take(i + 1);
        assert(so_far.drop_last() =~= chars@.take(i as int));
        assert(so_far.last() == chars@[i as int]);
        if chars[i].is_whitespace() {
            if start < i {
                let word = text_of(&chars, start, i);
                let ghost before = all@;
                all.push(word);
                assert(views(all@) =~= views(before).push(word@));
            }
            start = i + 1;
        } else {
            if start < i {
                assert(so_far[so_far.len() - 2] == chars@[i - 1]);
                let ghost part = chars@.subrange(start as int, i as int);
                assert(part.push(chars@[i as int]) =~= chars@.subrange(start as int, i + 1));
                let ghost before = views(all@).push(part);
                assert(before.update(before.len() - 1, part.push(chars@[i as int])) =~= views(
                    all@,
                ).push(chars@.subrange(start as int, i + 1)));
            } else {
                assert(i == 0 || so_far[so_far.len() - 2] == chars@[i - 1]);
                assert(seq![chars@[i as int]] =~= chars@.subrange(start as int, i + 1));
            }
        }
        i = i + 1;
    }
    assert(chars@.take(total as int) =~= chars@);
    if start < total {
        let word = text_of(&chars, start, total);
        let ghost before = all@;
        all.push(word);
        assert(views(all@) =~= views(before).push(word@));
    }
    all
}

/// The number of characters of a text.
fn count_chars(s: &str) -> (r: usize)
    ensures
        r == s@.len(),
{
    chars_of(s).len()
}

/// Breaks a text into lines.
pub fn wrap_big_text(text: &str, max_chars: u16) -> (r: Vec<String>)
    ensures
        views(r@) == wrapped(text@, max_chars as int),
{
    let mut lines: Vec<String> = Vec::new();
    if count_chars(text) <= max_chars as usize {
        lines.push(owned(text));
        assert(views(lines@) =~= seq![text@]);
        return lines;
    }
    let all = split_words(text);
    let ghost parts = views(all@);
    proof {
        lemma_words(text@);
    }
    let mut current = String::new();
    assert(views(lines@) =~= lines_of(parts.take(0), max_chars as int));
    for i in 0..all.len()
        invariant
            parts == views(all@),
            parts == words(text@),
            forall|k: int| 0 <= k < parts.len() ==> (#[trigger] parts[k]).len() > 0,
            current@.len() == 0 <==> i == 0,
            i == 0 ==> lines@.len() == 0,
            lines_of(parts.take(i as int), max_chars as int) == if i == 0 {
                views(lines@)
            } else {
                views(lines@).push(current@)
            },
    {
        let word: &String = &all[i];
        let ghost so_far = parts.take(i + 1);
        assert(so_far.drop_last() =~= parts.take(i as int));
        assert(so_far.last() == word@);
        assert(parts[i as int] == word@);
        let ghost before = lines_of(parts.take(i as int), max_chars as int);
        if i > 0 {
            let needed: usize = count_chars(&current).saturating_add(1).saturating_add(
                count_chars(word),
            );
            if needed > max_chars as usize {
                let ghost done = lines@;
                lines.push(current);
                assert(views(lines@) =~= views(done).push(before.last()));
                assert(views(lines@) =~= before);
                current = word.clone();
            } else {
                let spaced = current.as_str().to_owned().concat(" ");
                proof {
                    reveal_strlit(" ");
                    assert(" "@ =~= seq![' ']);
                }
                current = spaced.concat(word);
                assert(before.update(before.len() - 1, current@) =~= views(lines@).push(current@));
            }
        } else {
            assert(before.len() == 0);
            current = word.clone();
            assert(views(lines@).push(current@) =~= before.push(word@));
        }
    }
    assert(parts.take(parts.len() as int) =~= parts);
    if all.len() > 0 {
        let ghost done = lines@;
        let ghost last = current@;
        lines.push(current);
        assert(views(lines@) =~= views(done).push(last));
    }
    lines
}

/// Lines with a space between each two.
pub open spec fn spaced(parts: Seq<Seq<char>>) -> Seq<char>
    decreases parts.len(),
{
    if parts.len() == 0 {
        Seq::empty()
    } else if parts.len() == 1 {
        parts[0]
    } else {
        spaced(parts.drop_last()) + seq![' '] + parts.last()
    }
}

/// No word is split and none is lost: the lines with spaces between them are the words with
/// spaces between them.
pub proof fn law_wrapping_splits_no_word(all: Seq<Seq<char>>, max_chars: int)
    ensures
        spaced(lines_of(all, max_chars)) == spaced(all),
        lines_of(all, max_chars).len() == 0 <==> all.len() == 0,
    decreases all.len(),
{
    if all.len() > 0 {
        law_wrapping_splits_no_word(all.drop_last(), max_chars);
        let before = lines_of(all.drop_last(), max_chars);
        let after = lines_of(all, max_chars);
        let word = all.last();
        if before.len() == 0 {
            assert(all =~= seq![word]);
            assert(after =~= seq![word]);
        } else if before.last().len() + 1 + word.len() > max_chars {
            assert(after.drop_last() =~= before);
        } else if before.len() == 1 {
            assert(after =~= seq![before[0] + seq![' '] + word]);
        } else {
            assert(after.drop_last() =~= before.drop_last());
            assert(spaced(after) =~= spaced(before) + seq![' '] + word);
        }
    }
}

/// A line is no longer than it may be, unless it is one word that is.
pub proof fn law_lines_respect_the_width(all: Seq<Seq<char>>, max_chars: int, i: int)
    requires
        0 <= i < lines_of(all, max_chars).len(),
    ensures
        lines_of(all, max_chars)[i].len() <= max_chars || all.contains(lines_of(all, max_chars)[i]),
    decreases all.len(),
{
    let before = lines_of(all.drop_last(), max_chars);
    let after = lines_of(all, max_chars);
    if i < before.len() - 1 || (i < before.len() && after.len() > before.len()) {
        law_lines_respect_the_width(all.drop_last(), max_chars, i);
        assert(after[i] == before[i]);
        if all.drop_last().contains(before[i]) {
            let k = choose|k: int| 0 <= k < all.drop_last().len() && all.drop_last()[k] == before[i];
            assert(all[k] == before[i]);
        }
    } else if after.len() > before.len() {
        assert(after[i] == all[all.len() - 1]);
    }
}

/// The words of lines, in order.
pub open spec fn words_on(breaking: Seq<Seq<Seq<char>>>) -> Seq<Seq<char>>
    decreases breaking.len(),
{
    if breaking.len() == 0 {
        Seq::empty()
    } else {
        words_on(breaking.drop_last()) + breaking.last()
    }
}

/// A way to break words into lines: each line has a word, and where it has more than one it is no
/// longer than it may be.
pub open spec fn is_breaking(
    breaking: Seq<Seq<Seq<char>>>,
    all: Seq<Seq<char>>,
    max_chars: int,
) -> bool {
    &&& words_on(breaking) == all
    &&& forall|i: int|
        0 <= i < breaking.len() ==> (#[trigger] breaking[i]).len() > 0 && (breaking[i].len() == 1
            || spaced(breaking[i]).len() <= max_chars)
}

/// Of two ways to break words, that of `lines_of` has fewer lines, or as many and a last one that
/// is no longer.
proof fn lemma_greedy(breaking: Seq<Seq<Seq<char>>>, all: Seq<Seq<char>>, max_chars: int)
    requires
        is_breaking(breaking, all, max_chars),
    ensures
        ({
            let lines = lines_of(all, max_chars);
            ||| lines.len() < breaking.len()
            ||| lines.len() == breaking.len() && (lines.len() > 0 ==> lines.last().len() <= spaced(
                breaking.last(),
            ).len())
        }),
    decreases all.len(),
{
    if breaking.len() > 0 {
        let group = breaking.last();
        let rest = breaking.drop_last();
        let word = group.last();
        assert(breaking[breaking.len() - 1].len() > 0);
        assert(all.last() == word);
        law_wrapping_splits_no_word(all.drop_last(), max_chars);
        if group.len() == 1 {
            assert(all.drop_last() =~= words_on(rest));
            assert forall|i: int| 0 <= i < rest.len() implies (#[trigger] rest[i]).len() > 0 && (
            rest[i].len() == 1 || spaced(rest[i]).len() <= max_chars) by {
                assert(rest[i] == breaking[i]);
            }
            lemma_greedy(rest, all.drop_last(), max_chars);
        } else {
            let shorter = rest.push(group.drop_last());
            assert(shorter.drop_last() =~= rest);
            assert(all.drop_last() =~= words_on(shorter));
            assert(spaced(group) == spaced(group.drop_last()) + seq![' '] + word);
            assert forall|i: int| 0 <= i < shorter.len() implies (#[trigger] shorter[i]).len() > 0
                && (shorter[i].len() == 1 || spaced(shorter[i]).len() <= max_chars) by {
                if i < rest.len() {
                    assert(shorter[i] == breaking[i]);
                }
            }
            lemma_greedy(shorter, all.drop_last(), max_chars);
        }
    } else {
        assert(all =~= Seq::empty());
    }
}

/// Wrapping uses the fewest lines: no other way to break the words into lines that are not too
/// long, but for a word that is, needs fewer.
pub proof fn law_wrapping_uses_the_fewest_lines(
    breaking: Seq<Seq<Seq<char>>>,
    all: Seq<Seq<char>>,
    max_chars: int,
)
    requires
        is_breaking(breaking, all, max_chars),
    ensures
        lines_of(all, max_chars).len() <= breaking.len(),
{
    lemma_greedy(breaking, all, max_chars);
}

/// A wrapped text has no more lines than any way to break its words has.
pub proof fn law_a_wrapped_text_has_the_fewest_lines(
    breaking: Seq<Seq<Seq<char>>>,
    text: Seq<char>,
    max_chars: int,
)
    requires
        is_breaking(breaking, words(text), max_chars),
        breaking.len() > 0,
    ensures
        wrapped(text, max_chars).len() <= breaking.len(),
{
    law_wrapping_uses_the_fewest_lines(breaking, words(text), max_chars);
}

/// The icon of a status.
pub open spec fn icon(status: Status) -> Seq<char> {
    match status {
        Status::Playing => ">"@,
        Status::Paused => "||"@,
        Status::Buffering => "~"@,
    }
}

pub fn status_icon(status: Status) -> (r: &'static str)
    ensures
        r@ == icon(status),
{
    match status {
        Status::Playing => ">",
        Status::Paused => "||",
        Status::Buffering => "~",
    }
}

/// A text of at most `max_chars` characters, the last of them an ellipsis where it was cut.
pub open spec fn ellipsized(text: Seq<char>, max_chars: int) -> Seq<char> {
    if text.len() <= max_chars {
        text
    } else if max_chars == 0 {
        "…"@
    } else {
        text.take(max_chars - 1) + "…"@
    }
}

pub fn ellipsize(text: &str, max_chars: u16) -> (r: String)
    ensures
        r@ == ellipsized(text@, max_chars as int),
{
    let chars = chars_of(text);
    let most: usize = max_chars as usize;
    if chars.len() <= most {
        return owned(text);
    }
    let kept = text_of(&chars, 0, most.saturating_sub(1));
    let r = kept.concat("…");
    assert(r@ =~= ellipsized(text@, max_chars as int));
    r
}

/// A text as it is written: big, on lines, or plain.
#[derive(Debug, PartialEq)]
pub enum FittedText {
    Big { size: BigTextSize, lines: Vec<String> },
    Plain(String),
}

/// What a text looks like.
pub enum FittedView {
    Big { size: BigTextSize, lines: Seq<Seq<char>> },
    Plain { text: Seq<char> },
}

impl View for FittedText {
    type V = FittedView;

    open spec fn view(&self) -> FittedView {
        match self {
            FittedText::Big { size, lines } => FittedView::Big { size: *size, lines: views(lines@) },
            FittedText::Plain(text) => FittedView::Plain { text: text@ },
        }
    }
}

/// The number of lines, as far as sixteen bits hold it.
pub open spec fn line_count(lines: Seq<Seq<char>>) -> int {
    lines.len() as int % 0x1_0000
}

/// The characters of the longest line.
pub open spec fn longest(lines: Seq<Seq<char>>) -> int
    decreases lines.len(),
{
    if lines.len() == 0 {
        0
    } else {
        let before = longest(lines.drop_last());
        if lines.last().len() > before {
            lines.last().len() as int
        } else {
            before
        }
    }
}

impl FittedView {
    /// The rows of a text.
    pub open spec fn rows(self) -> int {
        match self {
            FittedView::Big { size, lines } => line_count(lines) * size.char_height,
            FittedView::Plain { text } => 1,
        }
    }

    /// The columns of a text.
    pub open spec fn columns(self) -> int {
        match self {
            FittedView::Big { size, lines } => (longest(lines) % 0x1_0000) * size.char_width,
            FittedView::Plain { text } => text.len() as int % 0x1_0000,
        }
    }
}

/// A length in sixteen bits.
fn low_bits(n: usize) -> (r: u16)
    ensures
        r == n as int % 0x1_0000,
{
    (n % 0x1_0000) as u16
}

impl FittedText {
    pub fn height(&self) -> (r: u16)
        requires
            self@.rows() <= u16::MAX,
        ensures
            r == self@.rows(),
    {
        match self {
            FittedText::Big { size, lines } => {
                proof {
                    assert(views(lines@).len() == lines@.len());
                }
                let count: u16 = low_bits(lines.len());
                proof {
                    assert(count * size.char_height == size.char_height * count) by (
                    nonlinear_arith);
                }
                size.char_height * count
            },
            FittedText::Plain(_) => 1,
        }
    }

    pub fn width(&self) -> (r: u16)
        requires
            self@.columns() <= u16::MAX,
        ensures
            r == self@.columns(),
    {
        match self {
            FittedText::Big { size, lines } => {
                let mut most: usize = 0;
                let ghost all = views(lines@);
                for i in 0..lines.len()
                    invariant
                        all == views(lines@),
                        most == longest(all.take(i as int)),
                {
                    let count: usize = count_chars(&lines[i]);
                    assert(all.take(i + 1).drop_last() =~= all.take(i as int));
                    if count > most {
                        most = count;
                    }
                }
                assert(all.take(all.len() as int) =~= all);
                low_bits(most) * size.char_width
            },
            FittedText::Plain(text) => low_bits(count_chars(text)),
        }
    }
}

/// The big characters that fit on a line, beside those that are kept free.
pub open spec fn room_for(max_width: int, size: BigTextSize, reserved: int) -> int {
    let all = max_width / size.char_width as int;
    if all > reserved {
        all - reserved
    } else {
        0
    }
}

/// A text fits in a size: no line is too long and there are not too many.
pub open spec fn fits(
    text: Seq<char>,
    size: BigTextSize,
    max_width: int,
    max_height: int,
    reserved: int,
) -> bool {
    let room = room_for(max_width, size, reserved);
    let lines = wrapped(text, room);
    &&& room > 0
    &&& forall|i: int| 0 <= i < lines.len() ==> (#[trigger] lines[i]).len() <= room
    &&& line_count(lines) * size.char_height <= max_height
}

/// The heights that are computed on the way to a size that fits are numbers of sixteen bits.
pub open spec fn heights_fit(
    text: Seq<char>,
    sizes: Seq<BigTextSize>,
    max_width: int,
    max_height: int,
    reserved: int,
    from: int,
) -> bool
    decreases sizes.len() - from,
{
    if from < 0 || from >= sizes.len() {
        true
    } else {
        let size = sizes[from];
        let room = room_for(max_width, size, reserved);
        &&& size.char_width > 0
        &&& room > 0 ==> line_count(wrapped(text, room)) * size.char_height <= u16::MAX
        &&& fits(text, size, max_width, max_height, reserved) || heights_fit(
            text,
            sizes,
            max_width,
            max_height,
            reserved,
            from + 1,
        )
    }
}

/// Whether the heights on the way to a size that fits can be computed.
pub fn can_fit_text(
    text: &str,
    max_width: u16,
    max_height: u16,
    sizes: &[BigTextSize],
    reserved_chars: u16,
) -> (r: bool)
    ensures
        r == heights_fit(
            text@,
            sizes@,
            max_width as int,
            max_height as int,
            reserved_chars as int,
            0,
        ),
{
    let ghost w = max_width as int;
    let ghost h = max_height as int;
    let ghost k = reserved_chars as int;
    let mut i: usize = 0;
    while i < sizes.len()
        invariant
            i <= sizes@.len(),
            w == max_width,
            h == max_height,
            k == reserved_chars,
            heights_fit(text@, sizes@, w, h, k, 0) == heights_fit(text@, sizes@, w, h, k, i as int),
        decreases sizes@.len() - i,
    {
        let size: BigTextSize = sizes[i];
        if size.char_width == 0 {
            return false;
        }
        let max_chars: u16 = (max_width / size.char_width).saturating_sub(reserved_chars);
        assert(max_chars == room_for(w, size, k));
        if max_chars > 0 {
            let lines = wrap_big_text(text, max_chars);
            let ghost all = views(lines@);
            assert(line_count(all) == lines.len() as int % 0x1_0000);
            let count: u16 = low_bits(lines.len());
            match count.checked_mul(size.char_height) {
                Some(height) => {
                    let width: bool = lines_are_within(&lines, max_chars);
                    if width && height <= max_height {
                        assert(fits(text@, size, w, h, k));
                        return true;
                    }
                    assert(!fits(text@, size, w, h, k));
                },
                None => {
                    return false;
                },
            }
        }
        i = i + 1;
    }
    true
}

/// Whether no line is too long.
fn lines_are_within(lines: &Vec<String>, max_chars: u16) -> (r: bool)
    ensures
        r <==> forall|n: int|
            0 <= n < lines@.len() ==> (#[trigger] views(lines@)[n]).len() <= max_chars,
{
    let ghost all = views(lines@);
    let mut within = true;
    for j in 0..lines.len()
        invariant
            all == views(lines@),
            within <==> forall|n: int| 0 <= n < j ==> (#[trigger] all[n]).len() <= max_chars,
    {
        assert(all[j as int] == lines@[j as int]@);
        if count_chars(&lines[j]) > max_chars as usize {
            within = false;
        }
    }
    within
}

/// A text in the first of the sizes in which it fits, else plain and cut.
pub open spec fn fitted(
    text: Seq<char>,
    sizes: Seq<BigTextSize>,
    max_width: int,
    max_height: int,
    reserved: int,
    from: int,
) -> FittedView
    decreases sizes.len() - from,
{
    if from < 0 || from >= sizes.len() {
        FittedView::Plain { text: ellipsized(text, max_width) }
    } else if fits(text, sizes[from], max_width, max_height, reserved) {
        FittedView::Big {
            size: sizes[from],
            lines: wrapped(text, room_for(max_width, sizes[from], reserved)),
        }
    } else {
        fitted(text, sizes, max_width, max_height, reserved, from + 1)
    }
}

/// Writes a text as big as it fits.
pub fn fit_text(
    text: &str,
    max_width: u16,
    max_height: u16,
    sizes: &[BigTextSize],
    reserved_chars: u16,
) -> (r: FittedText)
    requires
        heights_fit(
            text@,
            sizes@,
            max_width as int,
            max_height as int,
            reserved_chars as int,
            0,
        ),
    ensures
        r@ == fitted(
            text@,
            sizes@,
            max_width as int,
            max_height as int,
            reserved_chars as int,
            0,
        ),
{
    let ghost w = max_width as int;
    let ghost h = max_height as int;
    let ghost k = reserved_chars as int;
    let mut i: usize = 0;
    while i < sizes.len()
        invariant
            i <= sizes@.len(),
            w == max_width,
            h == max_height,
            k == reserved_chars,
            heights_fit(text@, sizes@, w, h, k, i as int),
            fitted(text@, sizes@, w, h, k, 0) == fitted(text@, sizes@, w, h, k, i as int),
        decreases sizes@.len() - i,
    {
        let size: BigTextSize = sizes[i];
        let max_chars: u16 = (max_width / size.char_width).saturating_sub(reserved_chars);
        assert(max_chars == room_for(w, size, k));
        if max_chars > 0 {
            let lines = wrap_big_text(text, max_chars);
            let ghost all = views(lines@);
            let fits_width = lines_are_within(&lines, max_chars);
            assert(line_count(all) == lines.len() as int % 0x1_0000);
            let fits_height = low_bits(lines.len()) * size.char_height <= max_height;
            if fits_width && fits_height {
                assert(fits(text@, size, w, h, k));
                return FittedText::Big { size, lines };
            }
            assert(!fits(text@, size, w, h, k));
        }
        i = i + 1;
    }
    FittedText::Plain(ellipsize(text, max_width))
}

/// A big text never gets higher or wider than it may be. A plain one is no longer than its width,
/// which is at least that of the ellipsis.
pub proof fn law_a_fitted_text_fits(
    text: Seq<char>,
    sizes: Seq<BigTextSize>,
    max_width: int,
    max_height: int,
    reserved: int,
)
    requires
        max_height >= 0,
    ensures
        match fitted(text, sizes, max_width, max_height, reserved, 0) {
            FittedView::Big { size, lines } => line_count(lines) * size.char_height <= max_height
                && sizes.contains(size) && forall|i: int|
                0 <= i < lines.len() ==> (#[trigger] lines[i]).len() <= room_for(
                    max_width,
                    size,
                    reserved,
                ),
            FittedView::Plain { text: plain } => plain == ellipsized(text, max_width) && (max_width
                >= 1 ==> plain.len() <= max_width),
        },
{
    lemma_fitted(text, sizes, max_width, max_height, reserved, 0);
    reveal_strlit("…");
}

proof fn lemma_fitted(
    text: Seq<char>,
    sizes: Seq<BigTextSize>,
    max_width: int,
    max_height: int,
    reserved: int,
    from: int,
)
    requires
        0 <= from,
    ensures
        match fitted(text, sizes, max_width, max_height, reserved, from) {
            FittedView::Big { size, lines } => line_count(lines) * size.char_height <= max_height
                && sizes.contains(size) && forall|i: int|
                0 <= i < lines.len() ==> (#[trigger] lines[i]).len() <= room_for(
                    max_width,
                    size,
                    reserved,
                ),
            FittedView::Plain { text: plain } => plain == ellipsized(text, max_width),
        },
    decreases sizes.len() - from,
{
    if from < sizes.len() && !fits(text, sizes[from], max_width, max_height, reserved) {
        lemma_fitted(text, sizes, max_width, max_height, reserved, from + 1);
    }
}

/// The most columns and rows that the cover is given.
pub fn cover_bounds(width: u16, height: u16) -> (r: (u16, u16))
    requires
        width * 2 <= u16::MAX,
        height * 9 <= u16::MAX,
    ensures
        r.0 == width as int * 2 / 5,
        r.1 == height as int * 9 / 10,
{
    (width * 2 / 5, height * 9 / 10)
}

/// The columns of the text beside a cover: as many as the cover has, at least fifty, and no more
/// than are left.
pub fn info_width(cover_width: u16, area_width: u16) -> (r: u16)
    requires
        cover_width + IMAGE_INFO_GAP <= u16::MAX,
    ensures
        ({
            let wanted = if cover_width < 50 {
                50
            } else {
                cover_width as int
            };
            let left = if area_width > cover_width + IMAGE_INFO_GAP {
                area_width - (cover_width + IMAGE_INFO_GAP)
            } else {
                0
            };
            r == if wanted < left {
                wanted
            } else {
                left
            }
        }),
{
    let wanted: u16 = if cover_width < 50 {
        50
    } else {
        cover_width
    };
    let left: u16 = area_width.saturating_sub(cover_width + IMAGE_INFO_GAP);
    if wanted < left {
        wanted
    } else {
        left
    }
}

/// The rows of the text beside a cover: its first row, and how many there are.
pub fn info_rows(cover_y: u16, cover_height: u16) -> (r: (u16, u16))
    requires
        cover_y < u16::MAX,
    ensures
        r.0 == cover_y + 1,
        r.1 == if cover_height > 2 {
            cover_height - 2
        } else {
            0
        },
{
    (cover_y + 1, cover_height.saturating_sub(2))
}

/// What is written, and on how many rows.
pub struct InfoPlan {
    pub entity: Option<FittedText>,
    pub entity_height: u16,
    pub top_spacer: u16,
    pub title: FittedText,
    pub title_height: u16,
}

/// What is written of what the title is part of.
pub open spec fn entity_view(
    entity: Option<Seq<char>>,
    width: int,
    height: int,
) -> Option<FittedView> {
    match entity {
        Some(text) => Some(fitted(text, entity_steps(), width, height / 4, 0, 0)),
        None => None,
    }
}

/// The rows of what the title is part of.
pub open spec fn entity_rows(entity: Option<FittedView>) -> int {
    match entity {
        Some(view) => view.rows(),
        None => 0,
    }
}

/// The rows that are left to the title.
pub open spec fn title_budget(height: int, entity_height: int) -> int {
    if height > entity_height + 6 {
        height - (entity_height + 6)
    } else {
        0
    }
}

/// The free rows above a title that stands in the middle.
pub open spec fn spacer(height: int, entity_height: int, title_height: int) -> int {
    let left = height / 2 - (entity_height + 3) - title_height / 2;
    if left > 0 {
        left
    } else {
        0
    }
}

/// The rows of the texts of an area can be computed.
pub open spec fn can_be_planned(
    entity: Option<Seq<char>>,
    title: Seq<char>,
    width: int,
    height: int,
) -> bool {
    let above = entity_rows(entity_view(entity, width, height));
    &&& entity matches Some(text) ==> heights_fit(text, entity_steps(), width, height / 4, 0, 0)
    &&& heights_fit(
        title,
        title_steps(),
        width,
        title_budget(height, above),
        ICON_CHARS as int,
        0,
    )
}

/// Whether the rows of the texts of an area can be computed.
pub fn can_plan(entity_title: &Option<String>, title: &str, width: u16, height: u16) -> (r: bool)
    ensures
        r == can_be_planned(text_view(*entity_title), title@, width as int, height as int),
{
    let small = entity_sizes();
    let big = title_sizes();
    let entity_height: u16 = match entity_title {
        Some(text) => {
            if !can_fit_text(text, width, height / 4, small.as_slice(), 0) {
                return false;
            }
            proof {
                law_a_fitted_text_fits(text@, small@, width as int, height as int / 4, 0);
            }
            fit_text(text, width, height / 4, small.as_slice(), 0).height()
        },
        None => 0,
    };
    let budget: u16 = height.saturating_sub(entity_height + 6);
    can_fit_text(title, width, budget, big.as_slice(), ICON_CHARS)
}

/// Lays the texts out in an area: what the title is part of at the top, in at most a quarter of
/// the rows, and the title in the middle of the rest.
pub fn info_plan(entity_title: &Option<String>, title: &str, width: u16, height: u16) -> (r: InfoPlan)
    requires
        can_be_planned(text_view(*entity_title), title@, width as int, height as int),
    ensures
        ({
            let entity = entity_view(text_view(*entity_title), width as int, height as int);
            let above = entity_rows(entity);
            let view = fitted(
                title@,
                title_steps(),
                width as int,
                title_budget(height as int, above),
                ICON_CHARS as int,
                0,
            );
            &&& (match r.entity {
                Some(text) => Some(text@),
                None => None,
            }) == entity
            &&& r.entity_height == above
            &&& r.title@ == view
            &&& r.title_height == view.rows()
            &&& r.top_spacer == spacer(height as int, above, view.rows())
        }),
{
    let small = entity_sizes();
    let big = title_sizes();
    let entity: Option<FittedText> = match entity_title {
        Some(text) => {
            proof {
                law_a_fitted_text_fits(text@, small@, width as int, height as int / 4, 0);
            }
            Some(fit_text(text, width, height / 4, small.as_slice(), 0))
        },
        None => None,
    };
    let entity_height: u16 = match &entity {
        Some(text) => text.height(),
        None => 0,
    };
    let budget: u16 = height.saturating_sub(entity_height + 6);
    proof {
        law_a_fitted_text_fits(title@, big@, width as int, budget as int, ICON_CHARS as int);
    }
    let fitted_title = fit_text(title, width, budget, big.as_slice(), ICON_CHARS);
    let title_height: u16 = fitted_title.height();
    let top_spacer: u16 = (height / 2).saturating_sub(entity_height + 3).saturating_sub(
        title_height / 2,
    );
    InfoPlan { entity, entity_height, top_spacer, title: fitted_title, title_height }
}

/// A place on the screen.
#[derive(Clone, Copy, Debug, PartialEq, Eq, Structural)]
pub struct Place {
    pub x: u16,
    pub y: u16,
    pub width: u16,
    pub height: u16,
}

/// The place of the icon before a big title, in the middle of its rows.
pub fn icon_place(size: BigTextSize, title_x: u16, title_y: u16, title_height: u16) -> (r: Place)
    requires
        ICON_CHARS * size.char_width + 2 <= u16::MAX,
        title_y + title_height <= u16::MAX,
    ensures
        r.width == 2 * size.char_width,
        r.height == size.char_height,
        r.x == if title_x > r.width + 2 {
            title_x - (r.width + 2)
        } else {
            0
        },
        r.y == title_y + (if title_height > size.char_height {
            (title_height - size.char_height) / 2
        } else {
            0
        }),
{
    let width: u16 = ICON_CHARS * size.char_width;
    Place {
        x: title_x.saturating_sub(width + 2),
        y: title_y + title_height.saturating_sub(size.char_height) / 2,
        width,
        height: size.char_height,
    }
}

/// A plain title behind its icon.
pub fn plain_title(status: Status, text: &str, width: u16) -> (r: String)
    ensures
        r@ == ellipsized(icon(status) + " "@ + text@, width as int),
{
    let line = owned(status_icon(status)).concat(" ").concat(text);
    ellipsize(&line, width)
}

/// The line with the artist.
pub fn artist_line(artist: &str) -> (r: String)
    ensures
        r@ == "by "@ + artist@,
{
    owned("by ").concat(artist)
}

/// The two numbers of the line with the place in the queue, each between spaces.
pub fn position_labels(position: usize, length: usize) -> (r: (String, String))
    requires
        position < usize::MAX,
    ensures
        r.0@ == " "@ + decimal((position + 1) as nat) + " "@,
        r.1@ == " "@ + decimal(length as nat) + " "@,
{
    (
        owned(" ").concat(&decimal_text((position + 1) as u128)).concat(" "),
        owned(" ").concat(&decimal_text(length as u128)).concat(" "),
    )
}

} // verus!
