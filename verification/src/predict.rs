//! Ranking the known selections for the URL that is about to be opened.
//!
//! Every recent event of a selection adds to that selection's score: one
//! point for having happened, and points for each field that equals the
//! present context. The weights of the five fields are 0.5 for the URL, 3
//! for the source application, 2 for the weekday, 2 for the hour and 3 for
//! the registrable domain; an event's contribution is their mean, and the
//! final score is ten times the contributions plus the number of events.
//! Ten times a fifth of each weight is a whole number (1, 6, 4, 4, 6), so the
//! score is kept exactly, as a whole number of points.
//!
//! The scores are summed up in an ordered map from the identity of each
//! selection to its score, event by event. Selections are then listed by
//! falling score, with an ordered map from score to selection. Selections
//! with the same score share one place, which goes to the one with the
//! largest identity; where selections share an identity, the first of them
//! stands for it.

use vstd::prelude::*;
use crate::entities::{
    event_views, selection_views, text_is, SelectionEntity, SelectionView, StatisticsEntity,
    StatisticsView,
};
use crate::error::{BSError, BSResult, ErrorKind};
use crate::ranking::ascending_holders;
use std::collections::BTreeMap;

verus! {

/// Points for an event whose URL is the one being opened.
pub const URL_POINTS: u128 = 1;

/// Points for an event that came from the same source application.
pub const SRC_POINTS: u128 = 6;

/// Points for an event on the same day of the week.
pub const WEEKDAY_POINTS: u128 = 4;

/// Points for an event in the same hour of the day.
pub const HOUR_POINTS: u128 = 4;

/// Points for an event with the same registrable domain.
pub const TLD_POINTS: u128 = 6;

/// The most that one event can add to a score.
pub const EVENT_MAX: u128 = 22;

/// The situation in which a prediction is asked for.
#[derive(Debug)]
pub struct Context {
    /// The URL about to be opened.
    pub url: String,
    /// The executable of the application it comes from, or the empty text.
    pub src: String,
    /// The registrable domain of the URL's host.
    pub tld: String,
    /// The present day of the week, Monday being 1.
    pub weekday: u16,
    /// The present hour of the day.
    pub hour: u16,
    /// The moment one month ago, in seconds since the epoch: events up to it
    /// are too old to count.
    pub month_ago: i64,
}

/// The mathematical value of a [`Context`].
pub struct ContextView {
    pub url: Seq<char>,
    pub src: Seq<char>,
    pub tld: Seq<char>,
    pub weekday: u16,
    pub hour: u16,
    pub month_ago: i64,
}

impl View for Context {
    type V = ContextView;

    open spec fn view(&self) -> ContextView {
        ContextView {
            url: self.url@,
            src: self.src@,
            tld: self.tld@,
            weekday: self.weekday,
            hour: self.hour,
            month_ago: self.month_ago,
        }
    }
}

/// The points that event `e` earns for the fields in which it equals `c`.
pub open spec fn event_points(e: StatisticsView, c: ContextView) -> nat {
    ((if e.url == Some(c.url) { URL_POINTS } else { 0 })
        + (if e.src == Some(c.src) { SRC_POINTS } else { 0 })
        + (if e.weekday == Some(c.weekday) { WEEKDAY_POINTS } else { 0 })
        + (if e.hour == Some(c.hour) { HOUR_POINTS } else { 0 })
        + (if e.tld == Some(c.tld) { TLD_POINTS } else { 0 })) as nat
}

/// Event `e` belongs to selection `id` and is younger than a month.
pub open spec fn counts_for(e: StatisticsView, id: usize, c: ContextView) -> bool {
    e.selection_id == Some(id) && (e.date matches Some(d) && d > c.month_ago)
}

/// What event `e` adds to the score of selection `id`.
pub open spec fn contribution(e: StatisticsView, id: usize, c: ContextView) -> nat {
    if counts_for(e, id, c) {
        1 + event_points(e, c)
    } else {
        0
    }
}

/// The final score of selection `id`: the sum of what each event adds.
pub open spec fn final_score(events: Seq<StatisticsView>, id: usize, c: ContextView) -> nat
    decreases events.len(),
{
    if events.len() == 0 {
        0
    } else {
        final_score(events.drop_last(), id, c) + contribution(events.last(), id, c)
    }
}

/// The final score of a selection; one without identity has no events.
pub open spec fn score_of(s: SelectionView, events: Seq<StatisticsView>, c: ContextView) -> nat {
    match s.id {
        Some(id) => final_score(events, id, c),
        None => 0,
    }
}

/// The identity of a selection as a number, below every real identity when
/// the selection has none.
pub open spec fn id_of(s: SelectionView) -> int {
    match s.id {
        Some(id) => id as int,
        None => -1,
    }
}

/// The score of `s` occurs in `out`, held by a selection whose identity is at
/// least that of `s`.
pub open spec fn holds_place(
    out: Seq<SelectionView>,
    events: Seq<StatisticsView>,
    c: ContextView,
    s: SelectionView,
) -> bool {
    exists|i: int|
        0 <= i < out.len() && score_of(#[trigger] out[i], events, c) == score_of(s, events, c)
            && id_of(out[i]) >= id_of(s)
}

/// `x` is the first of `sels` that has its identity.
pub open spec fn leads(sels: Seq<SelectionView>, x: SelectionView) -> bool {
    exists|p: int|
        0 <= p < sels.len() && #[trigger] sels[p] == x && forall|q: int|
            0 <= q < p ==> id_of(#[trigger] sels[q]) != id_of(x)
}

/// `out` is the ranking of `sels`: its scores fall strictly, each of its
/// members is one of `sels`, each of `sels` finds its score in `out`, held
/// by a selection whose identity is at least its own, and where several of
/// `sels` share an identity the first of them stands for it.
pub open spec fn is_ranking(
    sels: Seq<SelectionView>,
    events: Seq<StatisticsView>,
    c: ContextView,
    out: Seq<SelectionView>,
) -> bool {
    &&& forall|i: int, j: int|
        0 <= i < j < out.len() ==> score_of(#[trigger] out[i], events, c) > score_of(
            #[trigger] out[j],
            events,
            c,
        )
    &&& forall|i: int| 0 <= i < out.len() ==> sels.contains(#[trigger] out[i])
    &&& forall|k: int| 0 <= k < sels.len() ==> #[trigger] holds_place(out, events, c, sels[k])
    &&& forall|i: int| 0 <= i < out.len() ==> #[trigger] leads(sels, out[i])
}

/// No two of `sels` share an identity.
pub open spec fn distinct_ids(sels: Seq<SelectionView>) -> bool {
    forall|i: int, j: int|
        0 <= i < j < sels.len() ==> id_of(#[trigger] sels[i]) != id_of(#[trigger] sels[j])
}

/// Two rankings of the same selections carry the same scores at the same
/// places, as far as the first reaches, and the second reaches as far.
proof fn lemma_ranking_scores_agree(
    sels: Seq<SelectionView>,
    events: Seq<StatisticsView>,
    c: ContextView,
    a: Seq<SelectionView>,
    b: Seq<SelectionView>,
    k: int,
)
    requires
        is_ranking(sels, events, c, a),
        is_ranking(sels, events, c, b),
        0 <= k <= a.len(),
    ensures
        k <= b.len(),
        forall|i: int| 0 <= i < k ==> score_of(#[trigger] a[i], events, c) == score_of(b[i], events, c),
    decreases k,
{
    if k > 0 {
        lemma_ranking_scores_agree(sels, events, c, a, b, k - 1);
        let x = a[k - 1];
        assert(sels.contains(x));
        let n = choose|n: int| 0 <= n < sels.len() && sels[n] == x;
        assert(holds_place(b, events, c, sels[n]));
        let j = choose|j: int|
            0 <= j < b.len() && score_of(#[trigger] b[j], events, c) == score_of(sels[n], events, c)
                && id_of(b[j]) >= id_of(sels[n]);
        if j < k - 1 {
            assert(score_of(a[j], events, c) == score_of(b[j], events, c));
            assert(score_of(a[j], events, c) > score_of(a[k - 1], events, c));
        }
        assert(k - 1 < b.len());
        let y = b[k - 1];
        if j > k - 1 {
            assert(score_of(b[k - 1], events, c) > score_of(b[j], events, c));
        }
        assert(score_of(y, events, c) >= score_of(x, events, c));
        assert(sels.contains(y));
        let m = choose|m: int| 0 <= m < sels.len() && sels[m] == y;
        assert(holds_place(a, events, c, sels[m]));
        let i = choose|i: int|
            0 <= i < a.len() && score_of(#[trigger] a[i], events, c) == score_of(sels[m], events, c)
                && id_of(a[i]) >= id_of(sels[m]);
        if i < k - 1 {
            assert(score_of(a[i], events, c) == score_of(b[i], events, c));
            assert(score_of(b[i], events, c) > score_of(b[k - 1], events, c));
        }
        if i > k - 1 {
            assert(score_of(a[k - 1], events, c) > score_of(a[i], events, c));
        }
        assert(score_of(x, events, c) >= score_of(y, events, c));
    }
}

/// At each place, the member of ranking `a` has an identity at least that of
/// the member of ranking `b` with the same score.
proof fn lemma_ranking_identity_bound(
    sels: Seq<SelectionView>,
    events: Seq<StatisticsView>,
    c: ContextView,
    a: Seq<SelectionView>,
    b: Seq<SelectionView>,
    k: int,
)
    requires
        is_ranking(sels, events, c, a),
        is_ranking(sels, events, c, b),
        0 <= k < a.len(),
        k < b.len(),
        score_of(a[k], events, c) == score_of(b[k], events, c),
    ensures
        id_of(a[k]) >= id_of(b[k]),
{
    let y = b[k];
    assert(sels.contains(y));
    let m = choose|m: int| 0 <= m < sels.len() && sels[m] == y;
    assert(holds_place(a, events, c, sels[m]));
    let i = choose|i: int|
        0 <= i < a.len() && score_of(#[trigger] a[i], events, c) == score_of(sels[m], events, c)
            && id_of(a[i]) >= id_of(sels[m]);
    if i < k {
        assert(score_of(a[i], events, c) > score_of(a[k], events, c));
    }
    if i > k {
        assert(score_of(a[k], events, c) > score_of(a[i], events, c));
    }
}

/// Prediction is determined by its inputs: for a list of selections, a
/// history and a context, there is one ranking only.
pub proof fn lemma_ranking_unique(
    sels: Seq<SelectionView>,
    events: Seq<StatisticsView>,
    c: ContextView,
    a: Seq<SelectionView>,
    b: Seq<SelectionView>,
)
    requires
        is_ranking(sels, events, c, a),
        is_ranking(sels, events, c, b),
    ensures
        a == b,
{
    lemma_ranking_scores_agree(sels, events, c, a, b, a.len() as int);
    lemma_ranking_scores_agree(sels, events, c, b, a, b.len() as int);
    assert forall|k: int| 0 <= k < a.len() implies a[k] == b[k] by {
        assert(score_of(a[k], events, c) == score_of(b[k], events, c));
        lemma_ranking_identity_bound(sels, events, c, a, b, k);
        lemma_ranking_identity_bound(sels, events, c, b, a, k);
        assert(leads(sels, a[k]));
        assert(leads(sels, b[k]));
        let p = choose|p: int|
            0 <= p < sels.len() && #[trigger] sels[p] == a[k] && forall|q: int|
                0 <= q < p ==> id_of(#[trigger] sels[q]) != id_of(a[k]);
        let q = choose|q: int|
            0 <= q < sels.len() && #[trigger] sels[q] == b[k] && forall|r: int|
                0 <= r < q ==> id_of(#[trigger] sels[r]) != id_of(b[k]);
        if p < q {
            assert(id_of(sels[p]) != id_of(b[k]));
        }
        if q < p {
            assert(id_of(sels[q]) != id_of(a[k]));
        }
    }
    assert(a =~= b);
}

/// The points that `e` earns against `c`.
fn points_of(e: &StatisticsEntity, c: &Context) -> (p: u128)
    ensures
        p == event_points(e@, c@),
        p <= EVENT_MAX - 1,
{
    let mut p: u128 = 0;
    if text_is(&e.url, &c.url) {
        p = p + URL_POINTS;
    }
    if text_is(&e.src, &c.src) {
        p = p + SRC_POINTS;
    }
    match e.weekday {
        Some(w) => {
            if w == c.weekday {
                p = p + WEEKDAY_POINTS;
            }
        },
        None => {},
    }
    match e.hour {
        Some(h) => {
            if h == c.hour {
                p = p + HOUR_POINTS;
            }
        },
        None => {},
    }
    if text_is(&e.tld, &c.tld) {
        p = p + TLD_POINTS;
    }
    p
}

/// Whether `e` counts for selection `id`.
fn event_counts(e: &StatisticsEntity, id: usize, c: &Context) -> (b: bool)
    ensures
        b == counts_for(e@, id, c@),
{
    let owned: bool = match e.selection_id {
        Some(s) => s == id,
        None => false,
    };
    let recent: bool = match e.date {
        Some(d) => d > c.month_ago,
        None => false,
    };
    owned && recent
}

/// The final score of selection `id` over `events`.
pub fn score_selection(events: &Vec<StatisticsEntity>, id: usize, c: &Context) -> (s: u128)
    ensures
        s == final_score(event_views(events@), id, c@),
{
    let ghost all = event_views(events@);
    let mut s: u128 = 0;
    let mut j: usize = 0;
    while j < events.len()
        invariant
            j <= events.len(),
            all == event_views(events@),
            s == final_score(all.take(j as int), id, c@),
            s <= EVENT_MAX * j,
        decreases events.len() - j,
    {
        let e = &events[j];
        proof {
            assert(all.take(j + 1).drop_last() =~= all.take(j as int));
            assert(all.take(j + 1).last() == e@);
        }
        if event_counts(e, id, c) {
            s = s + 1 + points_of(e, c);
        }
        j += 1;
    }
    proof {
        assert(all.take(j as int) =~= all);
    }
    s
}

/// Entry `h` is the first among the entries of its score to have an identity
/// as large as its own.
pub open spec fn is_first_best(scores: Seq<u128>, ids: Seq<u128>, h: int) -> bool {
    forall|j: int| 0 <= j < h && #[trigger] scores[j] == scores[h] ==> ids[j] < ids[h]
}

/// Entry `k` finds its score in `order`, held by an entry whose identity is
/// at least its own.
pub open spec fn represented(scores: Seq<u128>, ids: Seq<u128>, order: Seq<usize>, k: int) -> bool {
    exists|i: int|
        0 <= i < order.len() && 0 <= #[trigger] order[i] < scores.len() && scores[order[i] as int]
            == scores[k] && ids[order[i] as int] >= ids[k]
}

/// The scores fall strictly along `order`.
pub open spec fn falls(scores: Seq<u128>, order: Seq<usize>) -> bool {
    &&& forall|i: int| 0 <= i < order.len() ==> 0 <= #[trigger] order[i] < scores.len()
    &&& forall|i: int, j: int|
        0 <= i < j < order.len() ==> scores[#[trigger] order[i] as int] > scores[#[trigger] order[j] as int]
}

/// The order of a ranking, as indices into `scores`: scores fall strictly
/// along it, and every entry is represented in it.
fn ranked_indices(scores: &Vec<u128>, ids: &Vec<u128>) -> (order: Vec<usize>)
    requires
        scores.len() == ids.len(),
    ensures
        falls(scores@, order@),
        forall|k: int| 0 <= k < scores.len() ==> #[trigger] represented(scores@, ids@, order@, k),
        forall|i: int| 0 <= i < order.len() ==> is_first_best(scores@, ids@, #[trigger] order[i] as int),
{
    let asc = ascending_holders(scores, ids);
    let mut order: Vec<usize> = Vec::new();
    let mut left: usize = asc.len();
    while left > 0
        invariant
            left <= asc.len(),
            order.len() == asc.len() - left,
            forall|i: int| 0 <= i < order.len() ==> #[trigger] order[i] == asc[asc.len() - 1 - i],
        decreases left,
    {
        left -= 1;
        order.push(asc[left]);
    }
    proof {
        let n = asc.len() as int;
        assert forall|i: int| 0 <= i < order.len() implies 0 <= #[trigger] order[i] < scores.len()
            && is_first_best(scores@, ids@, order[i] as int) by {
            assert(order[i] == asc[n - 1 - i]);
        }
        assert forall|i: int, j: int| 0 <= i < j < order.len() implies scores[#[trigger] order[i] as int]
            > scores[#[trigger] order[j] as int] by {
            assert(order[i] == asc[n - 1 - i]);
            assert(order[j] == asc[n - 1 - j]);
        }
        assert forall|k: int| 0 <= k < scores.len() implies #[trigger] represented(
            scores@,
            ids@,
            order@,
            k,
        ) by {
            assert(represented(scores@, ids@, asc@, k));
            let a = choose|a: int|
                0 <= a < asc.len() && 0 <= #[trigger] asc[a] < scores.len() && scores[asc[a] as int]
                    == scores[k] && ids[asc[a] as int] >= ids[k];
            assert(order[n - 1 - a] == asc[a]);
        }
    }
    order
}

/// The identity of a selection as a sort key: one more than the identity,
/// and zero for a selection without one.
fn key_of(s: &SelectionEntity) -> (k: u128)
    ensures
        k == id_of(s@) + 1,
{
    match s.id {
        Some(id) => id as u128 + 1,
        None => 0,
    }
}

/// The totals of the selections: a map from the identity of each selection
/// to the score that the events give it.
fn tally(selections: &Vec<SelectionEntity>, events: &Vec<StatisticsEntity>, c: &Context) -> (totals:
    BTreeMap<usize, u128>)
    ensures
        forall|i: int|
            0 <= i < selections.len() ==> ((#[trigger] selections[i]).id matches Some(id)
                ==> totals@.contains_key(id)),
        forall|id: usize| #[trigger]
            totals@.contains_key(id) ==> totals@[id] == final_score(event_views(events@), id, c@),
{
    let ghost all = event_views(events@);
    let mut totals: BTreeMap<usize, u128> = BTreeMap::new();
    let mut k: usize = 0;
    while k < selections.len()
        invariant
            k <= selections.len(),
            forall|i: int|
                0 <= i < k ==> ((#[trigger] selections[i]).id matches Some(id)
                    ==> totals@.contains_key(id)),
            forall|id: usize| #[trigger] totals@.contains_key(id) ==> totals@[id] == 0,
        decreases selections.len() - k,
    {
        match selections[k].id {
            Some(id) => {
                totals.insert(id, 0);
            },
            None => {},
        }
        k += 1;
    }
    let ghost known = totals@.dom();
    let mut j: usize = 0;
    while j < events.len()
        invariant
            j <= events.len(),
            all == event_views(events@),
            totals@.dom() == known,
            forall|id: usize| #[trigger]
                totals@.contains_key(id) ==> totals@[id] == final_score(all.take(j as int), id, c@)
                    && totals@[id] <= EVENT_MAX * j,
        decreases events.len() - j,
    {
        let e = &events[j];
        proof {
            assert(all.take(j + 1).drop_last() =~= all.take(j as int));
            assert(all.take(j + 1).last() == e@);
        }
        let recent: bool = match e.date {
            Some(d) => d > c.month_ago,
            None => false,
        };
        let ghost before = totals@;
        match e.selection_id {
            Some(id) => {
                if recent {
                    let held: Option<u128> = match totals.get(&id) {
                        Some(t) => Some(*t),
                        None => None,
                    };
                    match held {
                        Some(t) => {
                            totals.insert(id, t + 1 + points_of(e, c));
                            assert(totals@.dom() =~= known);
                        },
                        None => {},
                    }
                }
            },
            None => {},
        }
        proof {
            assert forall|id: usize| #[trigger] totals@.contains_key(id) implies totals@[id]
                == final_score(all.take(j + 1), id, c@) && totals@[id] <= EVENT_MAX * (j + 1) by {
                assert(before.contains_key(id));
            }
        }
        j += 1;
    }
    proof {
        assert(all.take(j as int) =~= all);
    }
    totals
}

/// The score that the totals hold for a selection; one without identity has
/// no events.
fn score_entity(s: &SelectionEntity, totals: &BTreeMap<usize, u128>) -> (r: u128)
    ensures
        r == match s@.id {
            Some(id) => if totals@.contains_key(id) {
                totals@[id]
            } else {
                0
            },
            None => 0,
        },
{
    match s.id {
        Some(id) => match totals.get(&id) {
            Some(t) => *t,
            None => 0,
        },
        None => 0,
    }
}

/// The message for a prediction on no selections.
pub open spec fn empty_state_message() -> Seq<char> {
    "Selections table is empty."@
}

/// Ranks `selections` for the context `c` by what `events` tell.
///
/// Fails with `EmptyState` exactly when there is no selection; otherwise the
/// result is the ranking that [`is_ranking`] describes, which is never empty.
pub fn rank_selections(
    selections: &Vec<SelectionEntity>,
    events: &Vec<StatisticsEntity>,
    c: &Context,
) -> (r: BSResult<Vec<SelectionEntity>>)
    ensures
        selections.len() == 0 ==> (r matches Err(e) && e.kind == ErrorKind::EmptyState && e.msg@
            == empty_state_message()),
        selections.len() > 0 ==> (r matches Ok(out) && out.len() > 0 && is_ranking(
            selection_views(selections@),
            event_views(events@),
            c@,
            selection_views(out@),
        )),
{
    if selections.len() == 0 {
        return Err(BSError::with_kind(ErrorKind::EmptyState, "Selections table is empty."));
    }
    let ghost sv = selection_views(selections@);
    let ghost ev = event_views(events@);
    let totals = tally(selections, events, c);
    let mut scores: Vec<u128> = Vec::new();
    let mut keys: Vec<u128> = Vec::new();
    let mut k: usize = 0;
    while k < selections.len()
        invariant
            k <= selections.len(),
            scores.len() == k,
            keys.len() == k,
            sv == selection_views(selections@),
            ev == event_views(events@),
            forall|i: int|
                0 <= i < selections.len() ==> ((#[trigger] selections[i]).id matches Some(id)
                    ==> totals@.contains_key(id)),
            forall|id: usize| #[trigger]
                totals@.contains_key(id) ==> totals@[id] == final_score(ev, id, c@),
            forall|i: int| 0 <= i < k ==> #[trigger] scores[i] == score_of(sv[i], ev, c@),
            forall|i: int| 0 <= i < k ==> #[trigger] keys[i] == id_of(sv[i]) + 1,
        decreases selections.len() - k,
    {
        proof {
            assert(sv[k as int] == selections[k as int]@);
        }
        scores.push(score_entity(&selections[k], &totals));
        keys.push(key_of(&selections[k]));
        k += 1;
    }
    let order = ranked_indices(&scores, &keys);
    let mut out: Vec<SelectionEntity> = Vec::new();
    let mut i: usize = 0;
    while i < order.len()
        invariant
            i <= order.len(),
            out.len() == i,
            scores.len() == selections.len(),
            falls(scores@, order@),
            forall|j: int| 0 <= j < i ==> (#[trigger] out[j])@ == selections[order[j] as int]@,
        decreases order.len() - i,
    {
        out.push(selections[order[i]].clone());
        i += 1;
    }
    proof {
        let ov = selection_views(out@);
        assert(represented(scores@, keys@, order@, 0));
        assert forall|a: int| 0 <= a < ov.len() implies sv.contains(#[trigger] ov[a]) by {
            assert(ov[a] == out[a]@);
            assert(sv[order[a] as int] == ov[a]);
        }
        assert forall|a: int, b: int| 0 <= a < b < ov.len() implies score_of(
            #[trigger] ov[a],
            ev,
            c@,
        ) > score_of(#[trigger] ov[b], ev, c@) by {
            assert(ov[a] == out[a]@ && ov[b] == out[b]@);
            assert(sv[order[a] as int] == ov[a]);
            assert(sv[order[b] as int] == ov[b]);
            assert(scores[order[a] as int] > scores[order[b] as int]);
        }
        assert forall|a: int| 0 <= a < ov.len() implies #[trigger] leads(sv, ov[a]) by {
            let h = order[a] as int;
            assert(ov[a] == out[a]@);
            assert(sv[h] == ov[a]);
            assert(is_first_best(scores@, keys@, h));
            assert forall|q: int| 0 <= q < h implies id_of(#[trigger] sv[q]) != id_of(ov[a]) by {
                if id_of(sv[q]) == id_of(sv[h]) {
                    assert(sv[q].id == sv[h].id);
                    assert(scores[q] == score_of(sv[q], ev, c@));
                    assert(scores[h] == score_of(sv[h], ev, c@));
                    assert(keys[q] == keys[h]);
                }
            }
        }
        assert forall|n: int| 0 <= n < sv.len() implies #[trigger] holds_place(
            ov,
            ev,
            c@,
            sv[n],
        ) by {
            assert(represented(scores@, keys@, order@, n));
            let a = choose|a: int|
                0 <= a < order.len() && 0 <= #[trigger] order[a] < scores.len() && scores[order[a] as int]
                    == scores[n] && keys[order[a] as int] >= keys[n];
            assert(ov[a] == out[a]@);
            assert(sv[order[a] as int] == ov[a]);
            assert(score_of(ov[a], ev, c@) == score_of(sv[n], ev, c@));
            assert(id_of(ov[a]) >= id_of(sv[n]));
        }
    }
    Ok(out)
}

} // verus!
