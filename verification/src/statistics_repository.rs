//! The operations on the store: keeping the table of selections in step with
//! the installed browsers, recording a choice, and predicting the next one.

use vstd::prelude::*;
use crate::entities::{
    clone_text, selection_views, text_is, text_view, SelectionEntity, SelectionView, StatisticsEntity,
    StatisticsView,
};
use crate::clock::Moment;
use crate::error::{BSError, BSResult, ErrorKind};
use crate::predict::{empty_state_message, is_ranking, rank_selections, Context, ContextView};
use crate::store::{
    has_id, hash_index_from, is_first_rejected, lemma_upsert_keeps_wf, path_index_from, rejected_at, Store,
    StoreState,
};
use crate::tld::{
    is_parse_error, parse_url_host, tld_from_host, tld_of, url_host_of, UrlHost, UrlHostView,
};

verus! {

/// Where the store is kept. The value holds the location only, so that a
/// copy can be handed to each task that opens the store.
#[derive(Debug)]
pub struct StatisticsRepository {
    db_path: Option<String>,
}

/// The first words of the message for a fingerprint that no selection has.
pub open spec fn not_found_prefix() -> Seq<char> {
    "Couldn't find selection by path_hash "@
}

/// The last words of that message.
pub open spec fn not_found_suffix() -> Seq<char> {
    " to save the choice."@
}

/// The message for a selection that the store turns down: it has no path,
/// or no identity is free for it.
pub open spec fn rejection_message(e: SelectionView) -> Seq<char> {
    if e.path is None {
        "A selection must have a path."@
    } else {
        "No identity is left for the selection."@
    }
}

/// The message for an event for which no identity is free.
pub open spec fn no_event_identity_message() -> Seq<char> {
    "No identity is left for the event."@
}

/// The message for a prediction without the moment a month ago.
pub open spec fn no_month_message() -> Seq<char> {
    "The calendar cannot tell the moment a month ago."@
}

/// Row `row` agrees with every field that `params` gives.
pub open spec fn matches_params(row: SelectionView, params: SelectionView) -> bool {
    &&& params.id is Some ==> row.id == params.id
    &&& params.path_hash is Some ==> row.path_hash == params.path_hash
    &&& params.path is Some ==> row.path == params.path
}

/// The rows of `sels` that agree with `params`, in order.
pub open spec fn matching_rows(sels: Seq<SelectionView>, params: SelectionView) -> Seq<SelectionView>
    decreases sels.len(),
{
    if sels.len() == 0 {
        sels
    } else if matches_params(sels.last(), params) {
        matching_rows(sels.drop_last(), params).push(sels.last())
    } else {
        matching_rows(sels.drop_last(), params)
    }
}

/// The event that records a choice of the selection `selection_id` for `url`
/// at the moment `now`; the store gives it its identity.
pub open spec fn choice_event(
    url: Seq<char>,
    src: Seq<char>,
    tld: Seq<char>,
    now: Moment,
    selection_id: Option<usize>,
) -> StatisticsView {
    StatisticsView {
        id: None,
        url: Some(url),
        src: Some(src),
        tld: Some(tld),
        weekday: Some(now.weekday),
        hour: Some(now.hour),
        selection_id,
        date: Some(now.timestamp),
        count: Some(1usize),
    }
}

/// How recording a choice ends, given the host that was read out of the URL.
///
/// Without a selection of that fingerprint: `NotFound`, whose message names
/// the fingerprint. Else, without a registrable domain: `Parse`. Else, with
/// no event identity left: `Store`. In these cases the store is unchanged.
/// Otherwise one event is appended for the first selection with the
/// fingerprint.
pub open spec fn save_outcome(
    before: StoreState,
    after: StoreState,
    r: BSResult<()>,
    src: Seq<char>,
    url: Seq<char>,
    host: UrlHostView,
    hash: Seq<char>,
    now: Moment,
    list: Seq<char>,
) -> bool {
    let i = hash_index_from(before.selections, hash, 0);
    if i < 0 {
        &&& after == before
        &&& r matches Err(e) && e.kind == ErrorKind::NotFound && e.msg@ == not_found_prefix() + hash
            + not_found_suffix()
    } else {
        match tld_of(host, list) {
            None => after == before && (r matches Err(e) && is_parse_error(host, e)),
            Some(t) => if before.next_event_id == usize::MAX {
                after == before && (r matches Err(e) && e.kind == ErrorKind::Store && e.msg@
                    == no_event_identity_message())
            } else {
                r is Ok && after == before.append_event(
                    choice_event(url, src, t, now, before.selections[i].id),
                )
            },
        }
    }
}

/// How a prediction ends, given the host that was read out of the URL:
/// `EmptyState` for a store without selections, else `Parse` without a
/// registrable domain, else `Other` where the calendar could not tell the
/// moment a month ago, else the ranking for the context of the call.
pub open spec fn predict_outcome(
    store: StoreState,
    r: BSResult<Vec<SelectionEntity>>,
    src: Seq<char>,
    url: Seq<char>,
    host: UrlHostView,
    now: Moment,
    list: Seq<char>,
) -> bool {
    if store.selections.len() == 0 {
        r matches Err(e) && e.kind == ErrorKind::EmptyState && e.msg@ == empty_state_message()
    } else {
        match tld_of(host, list) {
            None => r matches Err(e) && is_parse_error(host, e),
            Some(t) => match now.month_ago {
                None => r matches Err(e) && e.kind == ErrorKind::Other && e.msg@ == no_month_message(),
                Some(month_ago) => r matches Ok(out) && out.len() > 0 && is_ranking(
                    store.selections,
                    store.history,
                    ContextView {
                        url,
                        src,
                        tld: t,
                        weekday: now.weekday,
                        hour: now.hour,
                        month_ago,
                    },
                    selection_views(out@),
                ),
            },
        }
    }
}

/// How writing a list of selections ends.
///
/// Every entry is written, first to last; an entry that the store turns down
/// leaves the store as it is, and the entries after it are written all the
/// same. The call succeeds if no entry was turned down. Otherwise it fails
/// with `Store` and the message that belongs to the first entry that was
/// turned down.
pub open spec fn update_outcome(
    before: StoreState,
    after: StoreState,
    r: BSResult<()>,
    list: Seq<SelectionView>,
) -> bool {
    &&& after == before.upsert_all(list)
    &&& match r {
        Ok(_) => forall|k: int| 0 <= k < list.len() ==> !#[trigger] rejected_at(before, list, k),
        Err(e) => {
            &&& e.kind == ErrorKind::Store
            &&& exists|k: int|
                #[trigger] is_first_rejected(before, list, k) && e.msg@ == rejection_message(list[k])
        },
    }
}

/// The source application as text: its path, or nothing.
pub open spec fn source_text(source: Option<String>) -> Seq<char> {
    match source {
        Some(s) => s@,
        None => Seq::empty(),
    }
}

impl Clone for StatisticsRepository {
    fn clone(&self) -> (r: StatisticsRepository)
        ensures
            r.path() == self.path(),
    {
        StatisticsRepository { db_path: clone_text(&self.db_path) }
    }
}

impl StatisticsRepository {
    /// The location of the store, once it has been set.
    pub closed spec fn path(&self) -> Option<Seq<char>> {
        text_view(self.db_path)
    }

    /// A repository that does not know yet where its store is.
    pub fn new() -> (r: StatisticsRepository)
        ensures
            r.path() is None,
    {
        StatisticsRepository { db_path: None }
    }

    /// Sets the location of the store.
    pub fn set_db_path(&mut self, db_file: &str)
        ensures
            final(self).path() == Some(db_file@),
    {
        self.db_path = Some(db_file.to_owned());
    }

    /// The location of the store; the empty text while none is set.
    pub fn get_db_path(&self) -> (p: String)
        ensures
            p@ == match self.path() {
                Some(path) => path,
                None => Seq::empty(),
            },
    {
        match &self.db_path {
            Some(path) => path.clone(),
            None => String::new(),
        }
    }

    /// Whether the location of the store has been set.
    pub fn has_db_path(&self) -> (b: bool)
        ensures
            b == self.path() is Some,
    {
        self.db_path.is_some()
    }

    /// All selections of the store, in the order of their rows.
    pub fn select(&self, store: &Store) -> (rows: Vec<SelectionEntity>)
        requires
            self.path() is Some,
        ensures
            selection_views(rows@) == store@.selections,
    {
        let mut rows: Vec<SelectionEntity> = Vec::new();
        let mut k: usize = 0;
        while k < store.selections.len()
            invariant
                k <= store.selections.len(),
                rows.len() == k,
                forall|i: int| 0 <= i < k ==> (#[trigger] rows[i])@ == store.selections[i]@,
            decreases store.selections.len() - k,
        {
            rows.push(store.selections[k].clone());
            k += 1;
        }
        assert(selection_views(rows@) =~= store@.selections);
        rows
    }

    /// The selections that agree with every field that `params` gives.
    pub fn select_by_params(&self, store: &Store, params: &SelectionEntity) -> (rows: Vec<
        SelectionEntity,
    >)
        requires
            self.path() is Some,
        ensures
            selection_views(rows@) == matching_rows(store@.selections, params@),
    {
        let ghost all = store@.selections;
        let mut rows: Vec<SelectionEntity> = Vec::new();
        let mut k: usize = 0;
        while k < store.selections.len()
            invariant
                k <= store.selections.len(),
                all == store@.selections,
                selection_views(rows@) == matching_rows(all.take(k as int), params@),
            decreases store.selections.len() - k,
        {
            let row = &store.selections[k];
            let ghost before = selection_views(rows@);
            proof {
                assert(all.take(k + 1).drop_last() =~= all.take(k as int));
                assert(all.take(k + 1).last() == row@);
            }
            let id_ok: bool = match params.id {
                Some(id) => match row.id {
                    Some(r) => r == id,
                    None => false,
                },
                None => true,
            };
            let hash_ok: bool = match &params.path_hash {
                Some(h) => text_is(&row.path_hash, h),
                None => true,
            };
            let path_ok: bool = match &params.path {
                Some(p) => text_is(&row.path, p),
                None => true,
            };
            if id_ok && hash_ok && path_ok {
                rows.push(row.clone());
                assert(selection_views(rows@) =~= before.push(row@));
            }
            k += 1;
        }
        assert(all.take(k as int) =~= all);
        rows
    }

    /// The first selection whose fingerprint is `browser_path_hash`.
    pub fn get_selection_from_browser(&self, store: &Store, browser_path_hash: &str) -> (r: Option<
        SelectionEntity,
    >)
        requires
            self.path() is Some,
        ensures
            ({
                let i = hash_index_from(store@.selections, browser_path_hash@, 0);
                if i < 0 {
                    r is None
                } else {
                    r matches Some(s) && s@ == store@.selections[i]
                }
            }),
    {
        match find_hash(store, browser_path_hash) {
            Some(i) => Some(store.selections[i].clone()),
            None => None,
        }
    }

    /// Writes each selection of `list` into the store, first to last: a row
    /// of the same path takes the new fingerprint, a new path gets a new row.
    ///
    /// The call ends as [`update_outcome`] says: a selection that the store
    /// turns down, for want of a path or of a free identity, is left out and
    /// the others are written; the call then fails with `Store` and names
    /// the first that was turned down. No row is removed, and a well-formed
    /// store stays so.
    pub fn update_selections(&self, store: &mut Store, list: Vec<SelectionEntity>) -> (r: BSResult<()>)
        requires
            self.path() is Some,
        ensures
            update_outcome(old(store)@, final(store)@, r, selection_views(list@)),
            old(store)@.wf() ==> final(store)@.wf(),
    {
        let ghost entries = selection_views(list@);
        let ghost start = store@;
        let mut first: Option<usize> = None;
        let mut k: usize = 0;
        while k < list.len()
            invariant
                k <= list.len(),
                entries == selection_views(list@),
                start == old(store)@,
                store@ == start.upsert_all(entries.take(k as int)),
                start.wf() ==> store@.wf(),
                match first {
                    Some(f) => f < k && is_first_rejected(start, entries, f as int),
                    None => forall|j: int| 0 <= j < k ==> !#[trigger] rejected_at(start, entries, j),
                },
            decreases list.len() - k,
        {
            proof {
                assert(entries.take(k + 1).drop_last() =~= entries.take(k as int));
                assert(entries.take(k + 1).last() == list[k as int]@);
                assert(entries[k as int] == list[k as int]@);
                if start.wf() {
                    lemma_upsert_keeps_wf(store@, list[k as int]@);
                }
            }
            let written = upsert(store, &list[k]);
            proof {
                assert(written == !rejected_at(start, entries, k as int));
            }
            if !written && first.is_none() {
                first = Some(k);
            }
            k += 1;
        }
        assert(entries.take(k as int) =~= entries);
        match first {
            None => Ok(()),
            Some(f) => {
                assert(entries[f as int] == list[f as int]@);
                if list[f].path.is_none() {
                    Err(BSError::with_kind(ErrorKind::Store, "A selection must have a path."))
                } else {
                    Err(BSError::with_kind(ErrorKind::Store, "No identity is left for the selection."))
                }
            },
        }
    }

    /// Records that the selection with the fingerprint `browser_path_hash`
    /// was chosen for `url`, whose host has been read out as `host`.
    pub fn save_choice_for_host(
        &self,
        store: &mut Store,
        source: Option<String>,
        url: &str,
        host: &UrlHost,
        browser_path_hash: &str,
        now: &Moment,
        suffixes: &str,
    ) -> (r: BSResult<()>)
        requires
            self.path() is Some,
        ensures
            save_outcome(
                old(store)@,
                final(store)@,
                r,
                source_text(source),
                url@,
                host@,
                browser_path_hash@,
                *now,
                suffixes@,
            ),
            old(store)@.wf() ==> final(store)@.wf(),
    {
        let found = find_hash(store, browser_path_hash);
        let i: usize = match found {
            Some(i) => i,
            None => {
                return Err(not_found(browser_path_hash));
            },
        };
        let tld = match tld_from_host(host, suffixes) {
            Ok(t) => t,
            Err(e) => {
                return Err(e);
            },
        };
        if store.next_event_id == usize::MAX {
            return Err(BSError::with_kind(ErrorKind::Store, "No identity is left for the event."));
        }
        let src: String = match source {
            Some(s) => s,
            None => String::new(),
        };
        let event = StatisticsEntity {
            id: Some(store.next_event_id),
            url: Some(url.to_owned()),
            src: Some(src),
            tld: Some(tld),
            weekday: Some(now.weekday),
            hour: Some(now.hour),
            selection_id: store.selections[i].id,
            date: Some(now.timestamp),
            count: Some(1),
        };
        let ghost before = store@;
        let ghost ev = event@;
        store.history.push(event);
        store.next_event_id = store.next_event_id + 1;
        proof {
            let plain = choice_event(
                url@,
                source_text(source),
                tld_of(host@, suffixes@).unwrap(),
                *now,
                before.selections[i as int].id,
            );
            assert(ev == StatisticsView { id: Some(before.next_event_id), ..plain });
            assert(store@.history =~= before.history.push(ev));
            assert(store@ == before.append_event(plain));
            if before.wf() {
                let sid = before.selections[i as int].id.unwrap();
                assert(has_id(before.selections, sid));
                assert forall|k: int| 0 <= k < store@.history.len() implies ((
                #[trigger] store@.history[k]).selection_id matches Some(s) && has_id(
                    store@.selections,
                    s,
                )) by {
                    if k < before.history.len() {
                        assert(store@.history[k] == before.history[k]);
                    }
                }
            }
        }
        Ok(())
    }

    /// Records that the selection with the fingerprint `browser_path_hash`
    /// was chosen for `url` at the moment `now`.
    pub fn save_choice(
        &self,
        store: &mut Store,
        source: Option<String>,
        url: &str,
        browser_path_hash: &str,
        _browser_path: &str,
        now: &Moment,
        suffixes: &str,
    ) -> (r: BSResult<()>)
        requires
            self.path() is Some,
        ensures
            save_outcome(
                old(store)@,
                final(store)@,
                r,
                source_text(source),
                url@,
                url_host_of(url@),
                browser_path_hash@,
                *now,
                suffixes@,
            ),
            old(store)@.wf() ==> final(store)@.wf(),
    {
        let host = parse_url_host(url);
        self.save_choice_for_host(store, source, url, &host, browser_path_hash, now, suffixes)
    }

    /// Ranks the selections of the store for `url`, whose host has been read
    /// out as `host`.
    pub fn predict_for_host(
        &self,
        store: &Store,
        source: Option<String>,
        url: &str,
        host: &UrlHost,
        now: &Moment,
        suffixes: &str,
    ) -> (r: BSResult<Vec<SelectionEntity>>)
        requires
            self.path() is Some,
        ensures
            predict_outcome(store@, r, source_text(source), url@, host@, *now, suffixes@),
    {
        if store.selections.len() == 0 {
            return Err(BSError::with_kind(ErrorKind::EmptyState, "Selections table is empty."));
        }
        let tld = match tld_from_host(host, suffixes) {
            Ok(t) => t,
            Err(e) => {
                return Err(e);
            },
        };
        let month_ago: i64 = match now.month_ago {
            Some(m) => m,
            None => {
                return Err(BSError::new("The calendar cannot tell the moment a month ago."));
            },
        };
        let src: String = match source {
            Some(s) => s,
            None => String::new(),
        };
        let c = Context {
            url: url.to_owned(),
            src,
            tld,
            weekday: now.weekday,
            hour: now.hour,
            month_ago,
        };
        rank_selections(&store.selections, &store.history, &c)
    }

    /// Ranks the selections of the store for `url` at the moment `now`, most
    /// likely first.
    pub fn predict(
        &self,
        store: &Store,
        source: Option<String>,
        url: &str,
        now: &Moment,
        suffixes: &str,
    ) -> (r: BSResult<Vec<SelectionEntity>>)
        requires
            self.path() is Some,
        ensures
            predict_outcome(store@, r, source_text(source), url@, url_host_of(url@), *now, suffixes@),
    {
        let host = parse_url_host(url);
        self.predict_for_host(store, source, url, &host, now, suffixes)
    }
}

/// The error for a fingerprint that no selection has.
fn not_found(hash: &str) -> (e: BSError)
    ensures
        e.kind == ErrorKind::NotFound,
        e.msg@ == not_found_prefix() + hash@ + not_found_suffix(),
{
    let msg = String::from_str("Couldn't find selection by path_hash ").concat(hash).concat(
        " to save the choice.",
    );
    BSError::with_kind(ErrorKind::NotFound, msg.as_str())
}

/// The index of the first selection whose fingerprint is `hash`.
fn find_hash(store: &Store, hash: &str) -> (r: Option<usize>)
    ensures
        match r {
            Some(i) => i == hash_index_from(store@.selections, hash@, 0) && i < store.selections.len(),
            None => hash_index_from(store@.selections, hash@, 0) == -1,
        },
{
    let wanted: String = hash.to_owned();
    let ghost sels = store@.selections;
    let mut k: usize = 0;
    while k < store.selections.len()
        invariant
            k <= store.selections.len(),
            sels == store@.selections,
            wanted@ == hash@,
            hash_index_from(sels, hash@, 0) == hash_index_from(sels, hash@, k as int),
        decreases store.selections.len() - k,
    {
        assert(sels[k as int] == store.selections[k as int]@);
        if text_is(&store.selections[k].path_hash, &wanted) {
            return Some(k);
        }
        k += 1;
    }
    None
}

/// The index of the first selection whose path is `path`.
fn find_path(store: &Store, path: &String) -> (r: Option<usize>)
    ensures
        match r {
            Some(i) => i == path_index_from(store@.selections, path@, 0) && i < store.selections.len(),
            None => path_index_from(store@.selections, path@, 0) == -1,
        },
{
    let ghost sels = store@.selections;
    let mut k: usize = 0;
    while k < store.selections.len()
        invariant
            k <= store.selections.len(),
            sels == store@.selections,
            path_index_from(sels, path@, 0) == path_index_from(sels, path@, k as int),
        decreases store.selections.len() - k,
    {
        assert(sels[k as int] == store.selections[k as int]@);
        if text_is(&store.selections[k].path, path) {
            return Some(k);
        }
        k += 1;
    }
    None
}

/// Writes one selection into the store, and says whether the store took it.
fn upsert(store: &mut Store, entry: &SelectionEntity) -> (written: bool)
    ensures
        final(store)@ == old(store)@.upsert(entry@),
        written == !old(store)@.rejects(entry@),
{
    let ghost before = store@;
    match &entry.path {
        None => false,
        Some(p) => {
            match find_path(store, p) {
                Some(i) => {
                    let row = SelectionEntity {
                        id: store.selections[i].id,
                        path_hash: clone_text(&entry.path_hash),
                        path: clone_text(&store.selections[i].path),
                    };
                    let ghost rv = row@;
                    store.selections.set(i, row);
                    assert(store@.selections =~= before.selections.update(i as int, rv));
                    assert(store@.history == before.history);
                    true
                },
                None => {
                    if store.next_selection_id < usize::MAX {
                        let row = SelectionEntity {
                            id: Some(store.next_selection_id),
                            path_hash: clone_text(&entry.path_hash),
                            path: Some(p.clone()),
                        };
                        let ghost rv = row@;
                        store.selections.push(row);
                        store.next_selection_id = store.next_selection_id + 1;
                        assert(store@.selections =~= before.selections.push(rv));
                        assert(store@.history == before.history);
                        true
                    } else {
                        false
                    }
                },
            }
        },
    }
}

} // verus!
