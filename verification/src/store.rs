//! The image of the persistent store: the table of selections and the
//! append-only history of choices.
//!
//! A selection is found by its path, which no two rows share. Writing a
//! selection whose path is known replaces that row's fingerprint; writing one
//! whose path is new appends a row under the next free identity. A selection
//! without a path, or with a new path when no identity is free, is turned
//! down and leaves the store as it is. Rows are never removed.

use vstd::prelude::*;
use crate::entities::{
    event_views, selection_views, SelectionEntity, SelectionView, StatisticsEntity, StatisticsView,
};
use crate::predict::distinct_ids;

verus! {

/// The rows of the store, with the identities that the next rows will get.
#[derive(Debug)]
pub struct Store {
    pub selections: Vec<SelectionEntity>,
    pub history: Vec<StatisticsEntity>,
    pub next_selection_id: usize,
    pub next_event_id: usize,
}

/// The mathematical value of a [`Store`].
pub struct StoreState {
    pub selections: Seq<SelectionView>,
    pub history: Seq<StatisticsView>,
    pub next_selection_id: usize,
    pub next_event_id: usize,
}

impl View for Store {
    type V = StoreState;

    open spec fn view(&self) -> StoreState {
        StoreState {
            selections: selection_views(self.selections@),
            history: event_views(self.history@),
            next_selection_id: self.next_selection_id,
            next_event_id: self.next_event_id,
        }
    }
}

/// The first row at or after `from` whose path is `p`, or -1.
pub open spec fn path_index_from(sels: Seq<SelectionView>, p: Seq<char>, from: int) -> int
    decreases sels.len() - from,
{
    if from < 0 || from >= sels.len() {
        -1
    } else if sels[from].path == Some(p) {
        from
    } else {
        path_index_from(sels, p, from + 1)
    }
}

/// The first row at or after `from` whose fingerprint is `h`, or -1.
pub open spec fn hash_index_from(sels: Seq<SelectionView>, h: Seq<char>, from: int) -> int
    decreases sels.len() - from,
{
    if from < 0 || from >= sels.len() {
        -1
    } else if sels[from].path_hash == Some(h) {
        from
    } else {
        hash_index_from(sels, h, from + 1)
    }
}

/// Some row of `sels` has the identity `id`.
pub open spec fn has_id(sels: Seq<SelectionView>, id: usize) -> bool {
    exists|i: int| 0 <= i < sels.len() && (#[trigger] sels[i]).id == Some(id)
}

impl Store {
    /// A store without rows, whose first identities are 1.
    pub fn new() -> (s: Store)
        ensures
            s@.selections.len() == 0,
            s@.history.len() == 0,
            s@.next_selection_id == 1,
            s@.next_event_id == 1,
            s@.wf(),
    {
        Store { selections: Vec::new(), history: Vec::new(), next_selection_id: 1, next_event_id: 1 }
    }
}

impl StoreState {
    /// The invariant of the store: every selection has an identity below the
    /// next free one and a path, no two share an identity or a path, and
    /// every event refers to a selection that exists.
    pub open spec fn wf(self) -> bool {
        &&& forall|i: int|
            0 <= i < self.selections.len() ==> {
                &&& (#[trigger] self.selections[i]).path is Some
                &&& self.selections[i].id matches Some(id) && id < self.next_selection_id
            }
        &&& forall|i: int, j: int|
            0 <= i < j < self.selections.len() ==> (#[trigger] self.selections[i]).path
                != (#[trigger] self.selections[j]).path
        &&& distinct_ids(self.selections)
        &&& forall|k: int|
            0 <= k < self.history.len() ==> ((#[trigger] self.history[k]).selection_id matches Some(
                s,
            ) && has_id(self.selections, s))
    }

    /// The store after selection `e` was written: unchanged if `e` has no
    /// path, the row of that path with the fingerprint of `e` if there is
    /// one, and else a new last row, as long as an identity is free.
    pub open spec fn upsert(self, e: SelectionView) -> StoreState {
        match e.path {
            None => self,
            Some(p) => {
                let i = path_index_from(self.selections, p, 0);
                if i >= 0 {
                    StoreState {
                        selections: self.selections.update(
                            i,
                            SelectionView { path_hash: e.path_hash, ..self.selections[i] },
                        ),
                        ..self
                    }
                } else if self.next_selection_id < usize::MAX {
                    StoreState {
                        selections: self.selections.push(
                            SelectionView {
                                id: Some(self.next_selection_id),
                                path_hash: e.path_hash,
                                path: Some(p),
                            },
                        ),
                        next_selection_id: (self.next_selection_id + 1) as usize,
                        ..self
                    }
                } else {
                    self
                }
            },
        }
    }

    /// The store turns the selection `e` down: it has no path, which every
    /// row must have, or its path is new and no identity is free.
    pub open spec fn rejects(self, e: SelectionView) -> bool {
        match e.path {
            None => true,
            Some(p) => path_index_from(self.selections, p, 0) < 0 && self.next_selection_id
                == usize::MAX,
        }
    }

    /// The store after each selection of `list` was written, first to last.
    pub open spec fn upsert_all(self, list: Seq<SelectionView>) -> StoreState
        decreases list.len(),
    {
        if list.len() == 0 {
            self
        } else {
            self.upsert_all(list.drop_last()).upsert(list.last())
        }
    }

    /// The store after event `e` was appended under the next free identity.
    pub open spec fn append_event(self, e: StatisticsView) -> StoreState {
        StoreState {
            history: self.history.push(StatisticsView { id: Some(self.next_event_id), ..e }),
            next_event_id: (self.next_event_id + 1) as usize,
            ..self
        }
    }
}

/// Entry `k` of `list` is turned down by the store as the entries before it
/// left it.
pub open spec fn rejected_at(s: StoreState, list: Seq<SelectionView>, k: int) -> bool {
    s.upsert_all(list.take(k)).rejects(list[k])
}

/// Entry `k` is the first of `list` that the store turns down.
pub open spec fn is_first_rejected(s: StoreState, list: Seq<SelectionView>, k: int) -> bool {
    &&& 0 <= k < list.len()
    &&& rejected_at(s, list, k)
    &&& forall|j: int| 0 <= j < k ==> !#[trigger] rejected_at(s, list, j)
}

/// A list has one first entry that is turned down, if it has any.
pub proof fn lemma_first_rejected_unique(s: StoreState, list: Seq<SelectionView>, a: int, b: int)
    requires
        is_first_rejected(s, list, a),
        is_first_rejected(s, list, b),
    ensures
        a == b,
{
    if a < b {
        assert(!rejected_at(s, list, a));
    }
    if b < a {
        assert(!rejected_at(s, list, b));
    }
}

/// A selection that is turned down leaves the store as it is.
pub proof fn lemma_rejected_changes_nothing(s: StoreState, e: SelectionView)
    requires
        s.rejects(e),
    ensures
        s.upsert(e) == s,
{
}

/// What `path_index_from` finds: a row with the path, before which no row
/// from `from` on has it; or -1 when no row from `from` on has it.
pub proof fn lemma_path_index(sels: Seq<SelectionView>, p: Seq<char>, from: int)
    requires
        0 <= from,
    ensures
        ({
            let i = path_index_from(sels, p, from);
            &&& i == -1 || (from <= i < sels.len() && sels[i].path == Some(p))
            &&& forall|j: int|
                from <= j < sels.len() && (i == -1 || j < i) ==> (#[trigger] sels[j]).path != Some(p)
        }),
    decreases sels.len() - from,
{
    if from < sels.len() && sels[from].path != Some(p) {
        lemma_path_index(sels, p, from + 1);
    }
}

/// Events go on referring to selections that exist when the rows that were
/// there keep their identities.
proof fn lemma_history_still_refers(s: StoreState, t: StoreState)
    requires
        s.wf(),
        t.history == s.history,
        t.selections.len() >= s.selections.len(),
        forall|w: int|
            0 <= w < s.selections.len() ==> (#[trigger] t.selections[w]).id == s.selections[w].id,
    ensures
        forall|k: int|
            0 <= k < t.history.len() ==> ((#[trigger] t.history[k]).selection_id matches Some(id)
                && has_id(t.selections, id)),
{
    assert forall|k: int| 0 <= k < t.history.len() implies ((
    #[trigger] t.history[k]).selection_id matches Some(id) && has_id(t.selections, id)) by {
        let id = s.history[k].selection_id.unwrap();
        let w = choose|w: int|
            0 <= w < s.selections.len() && (#[trigger] s.selections[w]).id == Some(id);
        assert(t.selections[w].id == Some(id));
    }
}

/// Writing a selection keeps the store well formed: in particular no path
/// comes to stand in two rows.
pub proof fn lemma_upsert_keeps_wf(s: StoreState, e: SelectionView)
    requires
        s.wf(),
    ensures
        s.upsert(e).wf(),
{
    let t = s.upsert(e);
    match e.path {
        None => {},
        Some(p) => {
            lemma_path_index(s.selections, p, 0);
            let i = path_index_from(s.selections, p, 0);
            if i >= 0 {
                lemma_history_still_refers(s, t);
                assert(distinct_ids(t.selections)) by {
                    assert forall|a: int, b: int| 0 <= a < b < t.selections.len() implies crate::predict::id_of(
                        #[trigger] t.selections[a],
                    ) != crate::predict::id_of(#[trigger] t.selections[b]) by {
                        assert(t.selections[a].id == s.selections[a].id);
                        assert(t.selections[b].id == s.selections[b].id);
                        assert(crate::predict::id_of(s.selections[a]) != crate::predict::id_of(
                            s.selections[b],
                        ));
                    }
                }
                assert forall|a: int, b: int| 0 <= a < b < t.selections.len() implies (
                #[trigger] t.selections[a]).path != (#[trigger] t.selections[b]).path by {
                    assert(t.selections[a].path == s.selections[a].path);
                    assert(t.selections[b].path == s.selections[b].path);
                }
                assert forall|a: int| 0 <= a < t.selections.len() implies {
                    &&& (#[trigger] t.selections[a]).path is Some
                    &&& t.selections[a].id matches Some(id) && id < t.next_selection_id
                } by {
                    assert(t.selections[a].path == s.selections[a].path);
                    assert(t.selections[a].id == s.selections[a].id);
                }
            } else if s.next_selection_id < usize::MAX {
                let n = s.selections.len() as int;
                lemma_history_still_refers(s, t);
                assert(distinct_ids(t.selections)) by {
                    assert forall|a: int, b: int| 0 <= a < b < t.selections.len() implies crate::predict::id_of(
                        #[trigger] t.selections[a],
                    ) != crate::predict::id_of(#[trigger] t.selections[b]) by {
                        assert(t.selections[a] == s.selections[a]);
                        if b < n {
                            assert(t.selections[b] == s.selections[b]);
                            assert(crate::predict::id_of(s.selections[a]) != crate::predict::id_of(
                                s.selections[b],
                            ));
                        }
                    }
                }
                assert forall|a: int, b: int| 0 <= a < b < t.selections.len() implies (
                #[trigger] t.selections[a]).path != (#[trigger] t.selections[b]).path by {
                    assert(t.selections[a] == s.selections[a]);
                    if b < n {
                        assert(t.selections[b] == s.selections[b]);
                    }
                }
                assert forall|a: int| 0 <= a < t.selections.len() implies {
                    &&& (#[trigger] t.selections[a]).path is Some
                    &&& t.selections[a].id matches Some(id) && id < t.next_selection_id
                } by {
                    if a < n {
                        assert(t.selections[a] == s.selections[a]);
                    }
                }
            }
        },
    }
}

/// Writing a list of selections keeps the store well formed, however often
/// a path occurs in the list.
pub proof fn lemma_upsert_all_keeps_wf(s: StoreState, list: Seq<SelectionView>)
    requires
        s.wf(),
    ensures
        s.upsert_all(list).wf(),
    decreases list.len(),
{
    if list.len() > 0 {
        lemma_upsert_all_keeps_wf(s, list.drop_last());
        lemma_upsert_keeps_wf(s.upsert_all(list.drop_last()), list.last());
    }
}

/// Where a path is found depends on the paths of the rows alone.
proof fn lemma_path_index_same_paths(
    a: Seq<SelectionView>,
    b: Seq<SelectionView>,
    p: Seq<char>,
    from: int,
)
    requires
        0 <= from,
        a.len() == b.len(),
        forall|j: int| 0 <= j < a.len() ==> (#[trigger] a[j]).path == b[j].path,
    ensures
        path_index_from(a, p, from) == path_index_from(b, p, from),
    decreases a.len() - from,
{
    if from < a.len() {
        assert(a[from].path == b[from].path);
        if a[from].path != Some(p) {
            lemma_path_index_same_paths(a, b, p, from + 1);
        }
    }
}

/// A row appended to rows that lack its path is found at the end.
proof fn lemma_path_index_of_new_row(a: Seq<SelectionView>, row: SelectionView, p: Seq<char>, from: int)
    requires
        0 <= from <= a.len(),
        row.path == Some(p),
        path_index_from(a, p, from) == -1,
    ensures
        path_index_from(a.push(row), p, from) == a.len(),
    decreases a.len() - from,
{
    let b = a.push(row);
    if from < a.len() {
        assert(b[from] == a[from]);
        lemma_path_index_of_new_row(a, row, p, from + 1);
    } else {
        assert(b[from] == row);
    }
}

/// A path that is found stays where it is when a row is appended.
proof fn lemma_path_index_before_new_row(
    a: Seq<SelectionView>,
    row: SelectionView,
    p: Seq<char>,
    from: int,
)
    requires
        0 <= from,
        path_index_from(a, p, from) >= 0,
    ensures
        path_index_from(a.push(row), p, from) == path_index_from(a, p, from),
    decreases a.len() - from,
{
    let b = a.push(row);
    if from < a.len() {
        assert(b[from] == a[from]);
        if a[from].path != Some(p) {
            lemma_path_index_before_new_row(a, row, p, from + 1);
        }
    }
}

/// After a selection was written, its path is found, and the row found
/// carries the fingerprint that was written. This asks that the path was
/// known or an identity was free.
pub proof fn lemma_upsert_records_hash(s: StoreState, e: SelectionView)
    requires
        e.path is Some,
        path_index_from(s.selections, e.path.unwrap(), 0) >= 0 || s.next_selection_id < usize::MAX,
    ensures
        ({
            let t = s.upsert(e);
            let i = path_index_from(t.selections, e.path.unwrap(), 0);
            &&& 0 <= i < t.selections.len()
            &&& t.selections[i].path == e.path
            &&& t.selections[i].path_hash == e.path_hash
        }),
{
    let p = e.path.unwrap();
    let t = s.upsert(e);
    let i = path_index_from(s.selections, p, 0);
    lemma_path_index(s.selections, p, 0);
    if i >= 0 {
        lemma_path_index_same_paths(s.selections, t.selections, p, 0);
    } else {
        let row = SelectionView { id: Some(s.next_selection_id), path_hash: e.path_hash, path: Some(p) };
        lemma_path_index_of_new_row(s.selections, row, p, 0);
    }
}

/// Writing a selection of another path leaves the row of path `p` where it
/// is and as it is.
proof fn lemma_upsert_leaves_other_paths(s: StoreState, e: SelectionView, p: Seq<char>)
    requires
        e.path != Some(p),
        path_index_from(s.selections, p, 0) >= 0,
    ensures
        ({
            let i = path_index_from(s.selections, p, 0);
            let t = s.upsert(e);
            &&& path_index_from(t.selections, p, 0) == i
            &&& i < s.selections.len()
            &&& i < t.selections.len()
            &&& t.selections[i] == s.selections[i]
        }),
{
    let i = path_index_from(s.selections, p, 0);
    let t = s.upsert(e);
    lemma_path_index(s.selections, p, 0);
    match e.path {
        None => {},
        Some(q) => {
            let j = path_index_from(s.selections, q, 0);
            lemma_path_index(s.selections, q, 0);
            if j >= 0 {
                lemma_path_index_same_paths(s.selections, t.selections, p, 0);
            } else if s.next_selection_id < usize::MAX {
                let row = SelectionView {
                    id: Some(s.next_selection_id),
                    path_hash: e.path_hash,
                    path: Some(q),
                };
                lemma_path_index_before_new_row(s.selections, row, p, 0);
            }
        },
    }
}

/// Writing a list uses at most one identity for each of its selections.
pub proof fn lemma_upsert_all_uses_identities(s: StoreState, list: Seq<SelectionView>)
    ensures
        s.next_selection_id <= s.upsert_all(list).next_selection_id <= s.next_selection_id
            + list.len(),
        s.upsert_all(list).selections.len() >= s.selections.len(),
        s.upsert_all(list).history == s.history,
        s.upsert_all(list).next_event_id == s.next_event_id,
    decreases list.len(),
{
    if list.len() > 0 {
        lemma_upsert_all_uses_identities(s, list.drop_last());
        if list.last().path is Some {
            lemma_path_index(s.upsert_all(list.drop_last()).selections, list.last().path.unwrap(), 0);
        }
    }
}

/// The last write wins: after a list of selections was written, the row of
/// a path carries the fingerprint of the last selection in the list that
/// has this path. This asks that identities are free for the whole list.
pub proof fn lemma_last_write_wins(s: StoreState, list: Seq<SelectionView>, k: int)
    requires
        0 <= k < list.len(),
        list[k].path is Some,
        forall|j: int| k < j < list.len() ==> (#[trigger] list[j]).path != list[k].path,
        s.next_selection_id + list.len() <= usize::MAX,
    ensures
        ({
            let t = s.upsert_all(list);
            let i = path_index_from(t.selections, list[k].path.unwrap(), 0);
            &&& 0 <= i < t.selections.len()
            &&& t.selections[i].path == list[k].path
            &&& t.selections[i].path_hash == list[k].path_hash
        }),
    decreases list.len(),
{
    let p = list[k].path.unwrap();
    let init = list.drop_last();
    let mid = s.upsert_all(init);
    lemma_upsert_all_uses_identities(s, init);
    assert(s.upsert_all(list) == mid.upsert(list.last()));
    if k == list.len() - 1 {
        assert(list.last() == list[k]);
        lemma_upsert_records_hash(mid, list.last());
    } else {
        assert(init[k] == list[k]);
        assert forall|j: int| k < j < init.len() implies (#[trigger] init[j]).path != init[k].path by {
            assert(init[j] == list[j]);
        }
        lemma_last_write_wins(s, init, k);
        assert(list.last() == list[list.len() - 1]);
        lemma_upsert_leaves_other_paths(mid, list.last(), p);
    }
}

/// Two writings in a row with paths in common leave one row for each path,
/// and the row of a path carries the fingerprint that the second writing
/// gave it last. This asks that identities are free for both lists.
pub proof fn lemma_second_update_wins(
    s: StoreState,
    first: Seq<SelectionView>,
    second: Seq<SelectionView>,
    k: int,
)
    requires
        s.wf(),
        0 <= k < second.len(),
        second[k].path is Some,
        forall|j: int| k < j < second.len() ==> (#[trigger] second[j]).path != second[k].path,
        s.next_selection_id + first.len() + second.len() <= usize::MAX,
    ensures
        ({
            let t = s.upsert_all(first).upsert_all(second);
            let i = path_index_from(t.selections, second[k].path.unwrap(), 0);
            &&& t.wf()
            &&& 0 <= i < t.selections.len()
            &&& t.selections[i].path_hash == second[k].path_hash
            &&& forall|j: int|
                0 <= j < t.selections.len() && j != i ==> (#[trigger] t.selections[j]).path
                    != second[k].path
        }),
{
    let mid = s.upsert_all(first);
    lemma_upsert_all_keeps_wf(s, first);
    lemma_upsert_all_uses_identities(s, first);
    lemma_upsert_all_keeps_wf(mid, second);
    lemma_last_write_wins(mid, second, k);
    let t = mid.upsert_all(second);
    let i = path_index_from(t.selections, second[k].path.unwrap(), 0);
    assert forall|j: int| 0 <= j < t.selections.len() && j != i implies (#[trigger] t.selections[j]).path
        != second[k].path by {
        if j < i {
            assert(t.selections[j].path != t.selections[i].path);
        } else {
            assert(t.selections[i].path != t.selections[j].path);
        }
    }
}

/// Writing a selection leaves the row of a known path `p` where it is and
/// under its identity, and gives it the fingerprint of the selection if the
/// selection has that path.
pub proof fn lemma_upsert_keeps_known_row(s: StoreState, e: SelectionView, p: Seq<char>)
    requires
        path_index_from(s.selections, p, 0) >= 0,
    ensures
        ({
            let i = path_index_from(s.selections, p, 0);
            let t = s.upsert(e);
            &&& path_index_from(t.selections, p, 0) == i
            &&& i < s.selections.len() <= t.selections.len()
            &&& t.selections[i].id == s.selections[i].id
            &&& t.selections[i].path == Some(p)
            &&& t.selections[i].path_hash == if e.path == Some(p) {
                e.path_hash
            } else {
                s.selections[i].path_hash
            }
        }),
{
    lemma_path_index(s.selections, p, 0);
    if e.path == Some(p) {
        lemma_upsert_records_hash(s, e);
        lemma_path_index_same_paths(s.selections, s.upsert(e).selections, p, 0);
    } else {
        lemma_upsert_leaves_other_paths(s, e, p);
        if e.path is Some {
            lemma_path_index(s.selections, e.path.unwrap(), 0);
        }
    }
}

/// Writing a list of selections leaves the row of a known path where it is
/// and under its identity, so that the events that refer to it still do:
/// the row is changed in place, never removed and written anew.
pub proof fn lemma_known_row_keeps_identity(s: StoreState, list: Seq<SelectionView>, p: Seq<char>)
    requires
        path_index_from(s.selections, p, 0) >= 0,
    ensures
        ({
            let i = path_index_from(s.selections, p, 0);
            let t = s.upsert_all(list);
            &&& path_index_from(t.selections, p, 0) == i
            &&& i < t.selections.len()
            &&& t.selections[i].id == s.selections[i].id
            &&& t.selections[i].path == Some(p)
        }),
    decreases list.len(),
{
    lemma_path_index(s.selections, p, 0);
    if list.len() > 0 {
        lemma_known_row_keeps_identity(s, list.drop_last(), p);
        lemma_upsert_keeps_known_row(s.upsert_all(list.drop_last()), list.last(), p);
    }
}

/// The row of a known path takes the fingerprint of the last selection of
/// the list that has this path, whatever else the list holds: selections
/// that the store turns down keep none of the others from being written.
pub proof fn lemma_known_row_takes_last_hash(s: StoreState, list: Seq<SelectionView>, k: int)
    requires
        0 <= k < list.len(),
        list[k].path is Some,
        path_index_from(s.selections, list[k].path.unwrap(), 0) >= 0,
        forall|j: int| k < j < list.len() ==> (#[trigger] list[j]).path != list[k].path,
    ensures
        ({
            let i = path_index_from(s.selections, list[k].path.unwrap(), 0);
            let t = s.upsert_all(list);
            &&& i < t.selections.len()
            &&& t.selections[i].id == s.selections[i].id
            &&& t.selections[i].path == list[k].path
            &&& t.selections[i].path_hash == list[k].path_hash
        }),
    decreases list.len(),
{
    let p = list[k].path.unwrap();
    let init = list.drop_last();
    let mid = s.upsert_all(init);
    lemma_known_row_keeps_identity(s, init, p);
    assert(s.upsert_all(list) == mid.upsert(list.last()));
    if k == list.len() - 1 {
        assert(list.last() == list[k]);
        lemma_upsert_keeps_known_row(mid, list.last(), p);
    } else {
        assert(init[k] == list[k]);
        assert forall|j: int| k < j < init.len() implies (#[trigger] init[j]).path != init[k].path by {
            assert(init[j] == list[j]);
        }
        lemma_known_row_takes_last_hash(s, init, k);
        assert(list.last() == list[list.len() - 1]);
        lemma_upsert_keeps_known_row(mid, list.last(), p);
    }
}

/// Writing the same selections twice leaves the store as the first writing
/// left its rows: no row is added for a path that is there.
pub proof fn lemma_upsert_known_path_adds_no_row(s: StoreState, e: SelectionView)
    requires
        e.path is Some,
        path_index_from(s.selections, e.path.unwrap(), 0) >= 0,
    ensures
        s.upsert(e).selections.len() == s.selections.len(),
        s.upsert(e).next_selection_id == s.next_selection_id,
{
    lemma_path_index(s.selections, e.path.unwrap(), 0);
}

} // verus!
