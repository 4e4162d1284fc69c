//! The two kinds of record that the store keeps, and their mathematical
//! values.

use vstd::prelude::*;

verus! {

/// The characters of an optional text.
pub open spec fn text_view(t: Option<String>) -> Option<Seq<char>> {
    match t {
        Some(s) => Some(s@),
        None => None,
    }
}

/// A copy of an optional text.
pub fn clone_text(t: &Option<String>) -> (r: Option<String>)
    ensures
        text_view(r) == text_view(*t),
{
    match t {
        Some(s) => Some(s.clone()),
        None => None,
    }
}

/// Whether an optional text is present and reads exactly `expected`.
pub fn text_is(t: &Option<String>, expected: &String) -> (b: bool)
    ensures
        b == (text_view(*t) == Some(expected@)),
{
    match t {
        Some(s) => *s == *expected,
        None => false,
    }
}

/// One installed browser, as the store records it.
#[derive(Debug)]
pub struct SelectionEntity {
    /// The identity that the store assigned; absent before the row is stored.
    pub id: Option<usize>,
    /// A fingerprint of `path`.
    pub path_hash: Option<String>,
    /// The absolute path of the executable.
    pub path: Option<String>,
}

/// The mathematical value of a [`SelectionEntity`].
pub struct SelectionView {
    pub id: Option<usize>,
    pub path_hash: Option<Seq<char>>,
    pub path: Option<Seq<char>>,
}

impl View for SelectionEntity {
    type V = SelectionView;

    open spec fn view(&self) -> SelectionView {
        SelectionView {
            id: self.id,
            path_hash: text_view(self.path_hash),
            path: text_view(self.path),
        }
    }
}

impl Clone for SelectionEntity {
    fn clone(&self) -> (r: SelectionEntity)
        ensures
            r@ == self@,
    {
        SelectionEntity {
            id: self.id,
            path_hash: clone_text(&self.path_hash),
            path: clone_text(&self.path),
        }
    }
}

/// One past choice of a browser for a URL.
#[derive(Debug)]
pub struct StatisticsEntity {
    pub id: Option<usize>,
    /// The URL that was opened.
    pub url: Option<String>,
    /// The executable of the application that the URL came from.
    pub src: Option<String>,
    /// The registrable domain of the URL's host.
    pub tld: Option<String>,
    /// The day of the week of the choice, Monday being 1.
    pub weekday: Option<u16>,
    /// The hour of the day of the choice.
    pub hour: Option<u16>,
    /// The selection that was chosen.
    pub selection_id: Option<usize>,
    /// When the choice was made, in seconds since the epoch.
    pub date: Option<i64>,
    /// How often the choice occurred.
    pub count: Option<usize>,
}

/// The mathematical value of a [`StatisticsEntity`].
pub struct StatisticsView {
    pub id: Option<usize>,
    pub url: Option<Seq<char>>,
    pub src: Option<Seq<char>>,
    pub tld: Option<Seq<char>>,
    pub weekday: Option<u16>,
    pub hour: Option<u16>,
    pub selection_id: Option<usize>,
    pub date: Option<i64>,
    pub count: Option<usize>,
}

impl View for StatisticsEntity {
    type V = StatisticsView;

    open spec fn view(&self) -> StatisticsView {
        StatisticsView {
            id: self.id,
            url: text_view(self.url),
            src: text_view(self.src),
            tld: text_view(self.tld),
            weekday: self.weekday,
            hour: self.hour,
            selection_id: self.selection_id,
            date: self.date,
            count: self.count,
        }
    }
}

impl Clone for StatisticsEntity {
    fn clone(&self) -> (r: StatisticsEntity)
        ensures
            r@ == self@,
    {
        StatisticsEntity {
            id: self.id,
            url: clone_text(&self.url),
            src: clone_text(&self.src),
            tld: clone_text(&self.tld),
            weekday: self.weekday,
            hour: self.hour,
            selection_id: self.selection_id,
            date: self.date,
            count: self.count,
        }
    }
}

/// The values of a list of selections, in order.
pub open spec fn selection_views(list: Seq<SelectionEntity>) -> Seq<SelectionView> {
    Seq::new(list.len(), |i: int| list[i]@)
}

/// The values of a list of events, in order.
pub open spec fn event_views(list: Seq<StatisticsEntity>) -> Seq<StatisticsView> {
    Seq::new(list.len(), |i: int| list[i]@)
}

} // verus!
