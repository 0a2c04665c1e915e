//! A page of tiles that a query narrows down.

use vstd::prelude::*;
use crate::models::{Artist, PlaylistSimple};
use crate::text::{chars_of, is_text_at, text_at, trim_text, trimmed};

verus! {

/// A text in lower case, by the Unicode properties that `str::to_lowercase` goes by.
pub uninterp spec fn lower_case(s: Seq<char>) -> Seq<char>;

/// `str::to_lowercase`: the text in lower case, told by the text alone.
#[verifier::external_body]
fn lowercase(s: &str) -> (r: String)
    ensures
        r@ == lower_case(s@),
{
    s.to_lowercase()
}

/// A text stands somewhere in another.
pub open spec fn occurs_in(pattern: Seq<char>, s: Seq<char>) -> bool {
    exists|at: int| 0 <= at <= s.len() && #[trigger] text_at(s, at, pattern)
}

/// Whether a text stands somewhere in another.
pub fn occurs(pattern: &str, s: &str) -> (r: bool)
    ensures
        r == occurs_in(pattern@, s@),
{
    let chars = chars_of(s);
    let wanted = chars_of(pattern);
    let total: usize = chars.len();
    let mut at: usize = 0;
    loop
        invariant
            chars@ == s@,
            wanted@ == pattern@,
            total == chars.len(),
            at <= total,
            forall|k: int| 0 <= k < at ==> !#[trigger] text_at(s@, k, pattern@),
        decreases total - at,
    {
        if is_text_at(&chars, at, &wanted) {
            return true;
        }
        if at == total {
            return false;
        }
        at = at + 1;
    }
}

/// Something that is found by its name.
pub trait Named {
    /// The name.
    spec fn spec_name(&self) -> Seq<char>;

    fn name(&self) -> (r: &str)
        ensures
            r@ == self.spec_name(),
    ;
}

impl Named for Artist {
    open spec fn spec_name(&self) -> Seq<char> {
        self.name@
    }

    fn name(&self) -> (r: &str) {
        self.name.as_str()
    }
}

impl Named for PlaylistSimple {
    open spec fn spec_name(&self) -> Seq<char> {
        self.title@
    }

    fn name(&self) -> (r: &str) {
        self.title.as_str()
    }
}

/// A name, in lower case, is found by a query in lower case; an empty query finds all.
pub open spec fn found(lower_name: Seq<char>, lower_query: Seq<char>) -> bool {
    lower_query.len() == 0 || occurs_in(lower_query, lower_name)
}

/// Whether a name in lower case is found by a query in lower case.
pub fn is_found(lower_name: &str, lower_query: &str) -> (r: bool)
    ensures
        r == found(lower_name@, lower_query@),
{
    lower_query.unicode_len() == 0 || occurs(lower_query, lower_name)
}

/// What a query is compared as: without the white space at its ends, in lower case.
pub open spec fn normalized(query: Seq<char>) -> Seq<char> {
    lower_case(trimmed(query))
}

/// An item is on the page.
pub open spec fn passes<T: Named>(query: Seq<char>) -> spec_fn(T) -> bool {
    |item: T| found(lower_case(item.spec_name()), normalized(query))
}

/// The items of a page and the query that narrows them down.
pub struct GridPage<T> {
    items: Vec<T>,
    query: String,
}

impl<T: Named> GridPage<T> {
    /// All items.
    pub closed spec fn all(&self) -> Seq<T> {
        self.items@
    }

    /// The query.
    pub closed spec fn wanted(&self) -> Seq<char> {
        self.query@
    }

    pub fn new() -> (r: Self)
        ensures
            r.all().len() == 0,
            r.wanted().len() == 0,
    {
        GridPage { items: Vec::new(), query: String::new() }
    }

    /// Shows other items, without a query.
    pub fn load(&mut self, items: Vec<T>)
        ensures
            final(self).all() == items@,
            final(self).wanted().len() == 0,
    {
        self.items = items;
        self.query = String::new();
    }

    /// Narrows the items down.
    pub fn filter(&mut self, query: &str)
        ensures
            final(self).all() == old(self).all(),
            final(self).wanted() == trimmed(query@),
    {
        self.query = trim_text(query);
    }

    /// Shows nothing.
    pub fn clear(&mut self)
        ensures
            final(self).all().len() == 0,
            final(self).wanted().len() == 0,
    {
        self.items = Vec::new();
        self.query = String::new();
    }

    /// The items on the page.
    pub fn visible(&self) -> (r: Vec<&T>)
        ensures
            r@ == self.all().filter(passes(self.wanted())).map_values(|item: T| &item),
    {
        let query = lowercase(&trim_text(&self.query));
        let ghost p = passes::<T>(self.wanted());
        let mut r: Vec<&T> = Vec::new();
        proof {
            reveal(Seq::filter);
            assert(r@ =~= self.items@.take(0).filter(p).map_values(|item: T| &item));
        }
        for i in 0..self.items.len()
            invariant
                query@ == normalized(self.query@),
                p == passes::<T>(self.query@),
                r@ == self.items@.take(i as int).filter(p).map_values(|item: T| &item),
        {
            proof {
                reveal(Seq::filter);
                assert(self.items@.take(i + 1).drop_last() =~= self.items@.take(i as int));
            }
            let ghost before = self.items@.take(i as int).filter(p);
            let item: &T = &self.items[i];
            if is_found(&lowercase(item.name()), &query) {
                r.push(item);
                assert(r@ =~= before.push(*item).map_values(|item: T| &item));
            }
        }
        assert(self.items@.take(self.items@.len() as int) =~= self.items@);
        r
    }

    /// The item of the tile at a place.
    pub fn activated(&self, position: u32) -> (r: Option<&T>)
        ensures
            ({
                let shown = self.all().filter(passes(self.wanted()));
                match r {
                    Some(item) => position < shown.len() && *item == shown[position as int],
                    None => position >= shown.len(),
                }
            }),
    {
        let shown = self.visible();
        let place: usize = position as usize;
        if place < shown.len() {
            Some(shown[place])
        } else {
            None
        }
    }
}

/// The page of artists.
pub fn new_artists_page() -> (r: GridPage<Artist>)
    ensures
        r.all().len() == 0,
        r.wanted().len() == 0,
{
    GridPage::new()
}

/// The page of playlists.
pub fn new_playlists_page() -> (r: GridPage<PlaylistSimple>)
    ensures
        r.all().len() == 0,
        r.wanted().len() == 0,
{
    GridPage::new()
}

/// An empty query finds every name, and a name is found by each of its parts.
pub proof fn law_a_part_finds_its_name(name: Seq<char>, from: int, to: int)
    requires
        0 <= from <= to <= name.len(),
    ensures
        found(name, Seq::empty()),
        found(name, name.subrange(from, to)),
{
    assert(text_at(name, from, name.subrange(from, to)));
}

} // verus!
