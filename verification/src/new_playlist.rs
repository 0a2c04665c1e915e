//! The popup in which the name of a new playlist is typed.

use ratatui::crossterm::event::{Event, KeyCode, KeyEvent, KeyModifiers};
use tui_input::backend::crossterm::EventHandler;
use tui_input::Input;
use vstd::prelude::*;
use crate::keys::{Key, ALT, CONTROL, META, SHIFT};
use crate::overlays::{is_name_step, new_playlist_step, NameStep};

verus! {

/// `tui_input::Input`, a line of characters with a caret.
#[verifier::external_type_specification]
#[verifier::external_body]
pub struct ExInput(tui_input::Input);

/// The characters of a line.
pub uninterp spec fn typed(input: tui_input::Input) -> Seq<char>;

/// The number of characters before the caret of a line.
pub uninterp spec fn caret(input: tui_input::Input) -> nat;

/// What was cut from a line last.
pub uninterp spec fn last_cut(input: tui_input::Input) -> Seq<char>;

/// The last that was done to a line was a cut, which the next one joins.
pub uninterp spec fn is_cutting(input: tui_input::Input) -> bool;

/// The start of the character, as a reader sees it, that ends at a place or holds it.
pub uninterp spec fn char_before(text: Seq<char>, at: nat) -> nat;

/// The end of the character, as a reader sees it, that starts at a place or holds it.
pub uninterp spec fn char_after(text: Seq<char>, at: nat) -> nat;

/// The start of the last word that starts before a place, or of the text.
pub uninterp spec fn word_before(text: Seq<char>, at: nat) -> nat;

/// The start of the first word that starts behind a place, or the end of the text.
pub uninterp spec fn word_after(text: Seq<char>, at: nat) -> nat;

/// What a line holds: its characters, how many of them stand before the caret, what was cut last,
/// and whether a cut joins it.
pub struct Line {
    pub text: Seq<char>,
    pub at: nat,
    pub cut: Seq<char>,
    pub cutting: bool,
}

/// What a line holds.
pub open spec fn line_of(input: tui_input::Input) -> Line {
    Line {
        text: typed(input),
        at: caret(input),
        cut: last_cut(input),
        cutting: is_cutting(input),
    }
}

/// The places around the caret of a line to which an edit can reach.
pub struct Stops {
    pub char_before: nat,
    pub char_after: nat,
    pub word_before: nat,
    pub word_after: nat,
}

/// The places around the caret of a line.
pub open spec fn stops_of(l: Line) -> Stops {
    Stops {
        char_before: char_before(l.text, l.at),
        char_after: char_after(l.text, l.at),
        word_before: word_before(l.text, l.at),
        word_after: word_after(l.text, l.at),
    }
}

/// A line on which nothing was typed.
pub open spec fn empty_line() -> Line {
    Line { text: Seq::empty(), at: 0, cut: Seq::empty(), cutting: false }
}

/// What is done to a line.
#[derive(Clone, Copy, Debug, PartialEq, Eq, Structural)]
pub enum Edit {
    InsertChar(char),
    GoToPrevChar,
    GoToNextChar,
    GoToPrevWord,
    GoToNextWord,
    GoToStart,
    GoToEnd,
    DeletePrevChar,
    DeleteNextChar,
    DeletePrevWord,
    DeleteNextWord,
    DeleteLine,
    DeleteTillEnd,
    Yank,
}

/// What a key does to a line, pressed with modifiers.
pub open spec fn edit_of(key: Key, modifiers: u8) -> Option<Edit> {
    match key {
        Key::Char(c) => if modifiers == CONTROL {
            control_edit(c)
        } else if modifiers == META {
            meta_edit(c)
        } else if modifiers == 0 || modifiers == SHIFT || modifiers == CONTROL + ALT {
            Some(Edit::InsertChar(c))
        } else {
            None
        },
        Key::Backspace => if modifiers == 0 {
            Some(Edit::DeletePrevChar)
        } else if modifiers == META || modifiers == ALT {
            Some(Edit::DeletePrevWord)
        } else {
            None
        },
        Key::Delete => plain_or_control(modifiers, Edit::DeleteNextChar, Edit::DeleteNextWord),
        Key::Left => plain_or_control(modifiers, Edit::GoToPrevChar, Edit::GoToPrevWord),
        Key::Right => plain_or_control(modifiers, Edit::GoToNextChar, Edit::GoToNextWord),
        Key::Home if modifiers == 0 => Some(Edit::GoToStart),
        Key::End if modifiers == 0 => Some(Edit::GoToEnd),
        _ => None,
    }
}

/// What a key does to a line alone, and with the control key.
pub open spec fn plain_or_control(modifiers: u8, plain: Edit, control: Edit) -> Option<Edit> {
    if modifiers == 0 {
        Some(plain)
    } else if modifiers == CONTROL {
        Some(control)
    } else {
        None
    }
}

/// What a character does to a line with the control key.
pub open spec fn control_edit(c: char) -> Option<Edit> {
    match c {
        'h' => Some(Edit::DeletePrevChar),
        'b' => Some(Edit::GoToPrevChar),
        'f' => Some(Edit::GoToNextChar),
        'u' => Some(Edit::DeleteLine),
        'w' => Some(Edit::DeletePrevWord),
        'k' => Some(Edit::DeleteTillEnd),
        'y' => Some(Edit::Yank),
        'a' => Some(Edit::GoToStart),
        'e' => Some(Edit::GoToEnd),
        _ => None,
    }
}

/// What a character does to a line with the meta key.
pub open spec fn meta_edit(c: char) -> Option<Edit> {
    match c {
        'b' => Some(Edit::GoToPrevWord),
        'f' => Some(Edit::GoToNextWord),
        'd' => Some(Edit::DeletePrevWord),
        _ => None,
    }
}

/// What is kept of a cut: it alone, or where it joins the last one both in their order.
pub open spec fn kept_cut(l: Line, cut: Seq<char>, behind: bool) -> Seq<char> {
    if !l.cutting {
        cut
    } else if behind {
        l.cut + cut
    } else {
        cut + l.cut
    }
}

/// A line without the characters from one place to another, where the caret then stands.
pub open spec fn without(l: Line, from: nat, to: nat) -> Line {
    Line { text: l.text.take(from as int) + l.text.skip(to as int), at: from, ..l }
}

/// A line after an edit, given the places around its caret. Where there is no character to step
/// over or to delete, nothing at all changes.
pub open spec fn line_after(edit: Edit, l: Line, stops: Stops) -> Line {
    let at = l.at as int;
    let at_start = l.at == 0;
    let at_end = l.at == l.text.len();
    match edit {
        Edit::InsertChar(c) => Line {
            text: l.text.insert(at, c),
            at: l.at + 1,
            cutting: false,
            ..l
        },
        Edit::GoToPrevChar => if at_start {
            l
        } else {
            Line { at: stops.char_before, cutting: false, ..l }
        },
        Edit::GoToNextChar => if at_end {
            l
        } else {
            Line { at: stops.char_after, cutting: false, ..l }
        },
        Edit::GoToPrevWord => if at_start {
            Line { cutting: false, ..l }
        } else {
            Line { at: stops.word_before, cutting: false, ..l }
        },
        Edit::GoToNextWord => if at_end {
            Line { cutting: false, ..l }
        } else {
            Line { at: stops.word_after, cutting: false, ..l }
        },
        Edit::GoToStart => Line { at: 0, cutting: false, ..l },
        Edit::GoToEnd => Line { at: l.text.len(), cutting: false, ..l },
        Edit::DeletePrevChar => if at_start {
            l
        } else {
            Line { cutting: false, ..without(l, stops.char_before, l.at) }
        },
        Edit::DeleteNextChar => if at_end {
            l
        } else {
            Line { cutting: false, ..without(l, l.at, stops.char_after) }
        },
        Edit::DeletePrevWord => if at_start {
            Line { cutting: true, ..l }
        } else {
            Line {
                cut: kept_cut(l, l.text.subrange(stops.word_before as int, at), false),
                cutting: true,
                ..without(l, stops.word_before, l.at)
            }
        },
        Edit::DeleteNextWord => if at_end {
            Line { cutting: true, ..l }
        } else {
            Line {
                cut: kept_cut(l, l.text.subrange(at, stops.word_after as int), true),
                cutting: true,
                ..without(l, l.at, stops.word_after)
            }
        },
        Edit::DeleteLine => if l.text.len() == 0 {
            Line { cutting: true, ..l }
        } else {
            Line {
                text: Seq::empty(),
                at: 0,
                cut: kept_cut(l, l.text, !at_end),
                cutting: true,
            }
        },
        Edit::DeleteTillEnd => Line {
            text: l.text.take(at),
            cut: kept_cut(l, l.text.skip(at), true),
            cutting: true,
            ..l
        },
        Edit::Yank => Line {
            text: l.text.take(at) + l.cut + l.text.skip(at),
            at: l.at + l.cut.len(),
            cutting: false,
            ..l
        },
    }
}

/// The caret stays within a line that is edited, and where there is a character or word in the
/// direction of the edit, it is passed or deleted, and nothing behind the end of the line.
pub open spec fn stays_within(edit: Edit, l: Line, stops: Stops, after: Line) -> bool {
    &&& after.at <= after.text.len()
    &&& match edit {
        Edit::GoToPrevChar
        | Edit::GoToPrevWord
        | Edit::DeletePrevChar
        | Edit::DeletePrevWord => l.at > 0 ==> after.at < l.at,
        Edit::GoToNextChar | Edit::GoToNextWord => l.at < l.text.len() ==> l.at < after.at,
        Edit::DeleteNextChar => l.at < l.text.len() ==> l.at < stops.char_after && after.text.len()
            == l.text.len() - (stops.char_after - l.at),
        Edit::DeleteNextWord => l.at < l.text.len() ==> l.at < stops.word_after && after.text.len()
            == l.text.len() - (stops.word_after - l.at),
        _ => true,
    }
}

/// `tui_input::Input::default`: a line on which nothing was typed.
#[verifier::external_body]
fn new_line() -> (r: Input)
    ensures
        typed(r) == Seq::<char>::empty(),
        caret(r) == 0,
        last_cut(r) == Seq::<char>::empty(),
        !is_cutting(r),
{
    Input::default()
}

/// `tui_input::Input::value`: the characters of a line.
#[verifier::external_body]
fn line_text(input: &Input) -> (r: String)
    ensures
        r@ == typed(*input),
{
    input.value().to_string()
}

/// `tui_input::Input::cursor`: the number of characters before the caret.
#[verifier::external_body]
fn line_caret(input: &Input) -> (r: usize)
    ensures
        r == caret(*input),
{
    input.cursor()
}

/// `tui_input`'s `EventHandler::handle_event` on the event of a key that is pressed: the line is
/// edited as the key asks, and the caret stays within it. A character is a grapheme and a word
/// what `unicode-segmentation` takes for one, unless it is white space or punctuation: the places
/// where these start and end are named, each by the text and the caret.
#[verifier::external_body]
fn press(input: &mut Input, key: Key, modifiers: u8)
    requires
        caret(*old(input)) <= typed(*old(input)).len(),
    ensures
        ({
            let text = typed(*old(input));
            let at = caret(*old(input));
            let before = Line {
                text,
                at,
                cut: last_cut(*old(input)),
                cutting: is_cutting(*old(input)),
            };
            let stops = Stops {
                char_before: char_before(text, at),
                char_after: char_after(text, at),
                word_before: word_before(text, at),
                word_after: word_after(text, at),
            };
            let after = line_of(*final(input));
            match edit_of(key, modifiers) {
                Some(edit) => {
                    &&& after == line_after(edit, before, stops)
                    &&& stays_within(edit, before, stops, after)
                },
                None => after == before,
            }
        }),
{
    let code = match key {
        Key::Char(c) => KeyCode::Char(c),
        Key::Enter => KeyCode::Enter,
        Key::Esc => KeyCode::Esc,
        Key::Left => KeyCode::Left,
        Key::Right => KeyCode::Right,
        Key::Up => KeyCode::Up,
        Key::Down => KeyCode::Down,
        Key::Backspace => KeyCode::Backspace,
        Key::Delete => KeyCode::Delete,
        Key::Home => KeyCode::Home,
        Key::End => KeyCode::End,
        Key::Other => KeyCode::Null };
    input.handle_event(&Event::Key(KeyEvent::new(code, KeyModifiers::from_bits_retain(modifiers))));
}

/// The name of a new playlist, as far as it is typed.
pub struct NewPlaylistOverlay {
    name: Input,
}

impl Default for NewPlaylistOverlay {
    fn default() -> (r: NewPlaylistOverlay)
        ensures
            r.wf(),
            r.line() == empty_line(),
    {
        NewPlaylistOverlay::new()
    }
}

impl NewPlaylistOverlay {
    /// The line on which the name is typed.
    pub closed spec fn line(&self) -> Line {
        line_of(self.name)
    }

    /// The caret is in the text.
    pub open spec fn wf(&self) -> bool {
        self.line().at <= self.line().text.len()
    }

    pub fn new() -> (r: Self)
        ensures
            r.wf(),
            r.line() == empty_line(),
    {
        NewPlaylistOverlay { name: new_line() }
    }

    /// What is typed.
    pub fn name(&self) -> (r: String)
        ensures
            r@ == self.line().text,
    {
        line_text(&self.name)
    }

    /// The place of the caret.
    pub fn cursor(&self) -> (r: usize)
        ensures
            r == self.line().at,
    {
        line_caret(&self.name)
    }

    /// What a key does, pressed with modifiers: it makes the playlist, closes the popup, or edits
    /// the name.
    pub fn handle_event(&mut self, key: Key, modifiers: u8) -> (r: NameStep)
        requires
            old(self).wf(),
        ensures
            final(self).wf(),
            is_name_step(r, key, old(self).line().text),
            r !is Type ==> *final(self) == *old(self),
            r is Type ==> match edit_of(key, modifiers) {
                Some(edit) => {
                    let stops = stops_of(old(self).line());
                    &&& final(self).line() == line_after(edit, old(self).line(), stops)
                    &&& stays_within(edit, old(self).line(), stops, final(self).line())
                },
                None => final(self).line() == old(self).line(),
            },
    {
        let name = line_text(&self.name);
        let step = new_playlist_step(key, name.as_str());
        if let NameStep::Type = &step {
            press(&mut self.name, key, modifiers);
        }
        step
    }
}

/// A character that is typed alone or with shift is inserted.
pub proof fn law_a_character_types_itself(c: char)
    ensures
        edit_of(Key::Char(c), 0) == Some(Edit::InsertChar(c)),
        edit_of(Key::Char(c), SHIFT) == Some(Edit::InsertChar(c)),
{
}

/// Characters that are typed one after the other stand in that order: with the caret at the end,
/// a character that is inserted becomes the last, and the caret stays at the end.
pub proof fn law_typing_appends(l: Line, c: char)
    requires
        l.at == l.text.len(),
    ensures
        line_after(Edit::InsertChar(c), l, stops_of(l)).text == l.text.push(c),
        line_after(Edit::InsertChar(c), l, stops_of(l)).at == l.text.len() + 1,
{
    assert(l.text.insert(l.at as int, c) =~= l.text.push(c));
}

/// What is typed in the middle of a name leaves what stands on both sides of it.
pub proof fn law_typing_keeps_both_sides(l: Line, c: char)
    requires
        l.at <= l.text.len(),
    ensures
        ({
            let after = line_after(Edit::InsertChar(c), l, stops_of(l));
            &&& after.text.take(l.at as int) == l.text.take(l.at as int)
            &&& after.text.skip(after.at as int) == l.text.skip(l.at as int)
            &&& after.text[l.at as int] == c
        }),
{
    let after = line_after(Edit::InsertChar(c), l, stops_of(l));
    assert(after.text.take(l.at as int) =~= l.text.take(l.at as int));
    assert(after.text.skip(after.at as int) =~= l.text.skip(l.at as int));
}

/// What was cut comes back: a line that is cut whole or from the caret on is what it was once the
/// cut is put back, unless the cut joined an earlier one.
pub proof fn law_a_cut_comes_back(l: Line)
    requires
        l.at <= l.text.len(),
        !l.cutting,
    ensures
        ({
            let emptied = line_after(Edit::DeleteLine, l, stops_of(l));
            l.text.len() > 0 ==> line_after(Edit::Yank, emptied, stops_of(emptied)).text == l.text
        }),
        ({
            let shortened = line_after(Edit::DeleteTillEnd, l, stops_of(l));
            line_after(Edit::Yank, shortened, stops_of(shortened)).text == l.text
        }),
{
    let emptied = line_after(Edit::DeleteLine, l, stops_of(l));
    if l.text.len() > 0 {
        assert(line_after(Edit::Yank, emptied, stops_of(emptied)).text =~= l.text);
    }
    let shortened = line_after(Edit::DeleteTillEnd, l, stops_of(l));
    assert(line_after(Edit::Yank, shortened, stops_of(shortened)).text =~= l.text);
}

} // verus!
