//! What the macOS switcher makes of a fresh window listing: which windows are on screen, which
//! one has focus, the apps in the order they were last used, and the switcher's entries with
//! each app's windows in the order they last had focus.

use crate::app_switcher::{
    app_views, group_by_app, grouped_apps, AppEntry, WindowEntry, WindowHistory,
};
use crate::macos::window_list::{ListedWindow, WindowlessApp};
use crate::switcher::ProcessIdentity;
use vstd::prelude::*;

verus! {

/// How many of the apps last brought to the front are remembered, for the strip's order.
pub const RECENT_APPS_KEPT: usize = 64;

/// A process id as an unsigned number; a negative one, which names no process, reads as 0.
pub open spec fn pid_number(pid: i32) -> u32 {
    if pid >= 0 {
        pid as u32
    } else {
        0
    }
}

/// The process that a listed app runs in.
pub open spec fn process_of(pid: i32, launched_at: u64) -> ProcessIdentity {
    ProcessIdentity { id: pid_number(pid), started_at: launched_at }
}

fn process_identity(pid: i32, launched_at: u64) -> (process: ProcessIdentity)
    ensures
        process == process_of(pid, launched_at),
{
    let id: u32 = if pid >= 0 {
        pid as u32
    } else {
        0
    };
    ProcessIdentity::new(id, launched_at)
}

/// The handle of a window id; an id beyond the handles reads as 0.
pub open spec fn handle_of(id: u32) -> isize {
    if id <= isize::MAX {
        id as isize
    } else {
        0
    }
}

/// The ids of the `records` that are on screen (`on_screen`) or are not, in their order.
pub open spec fn ids_where(records: Seq<ListedWindow>, on_screen: bool) -> Seq<u32>
    decreases records.len(),
{
    if records.len() == 0 {
        Seq::empty()
    } else {
        let rest = ids_where(records.drop_last(), on_screen);
        if records.last().is_on_screen == on_screen {
            rest.push(records.last().window_id)
        } else {
            rest
        }
    }
}

/// The ids of the windows on screen and of the others, each in the listing's order.
pub fn split_by_visibility(records: &[ListedWindow]) -> (split: (Vec<u32>, Vec<u32>))
    ensures
        split.0@ == ids_where(records@, true),
        split.1@ == ids_where(records@, false),
{
    let mut on_screen: Vec<u32> = Vec::new();
    let mut others: Vec<u32> = Vec::new();
    let mut index: usize = 0;
    while index < records.len()
        invariant
            index <= records.len(),
            on_screen@ == ids_where(records@.take(index as int), true),
            others@ == ids_where(records@.take(index as int), false),
        decreases records.len() - index,
    {
        proof {
            assert(records@.take(index as int + 1).drop_last() =~= records@.take(index as int));
        }
        if records[index].is_on_screen {
            on_screen.push(records[index].window_id);
        } else {
            others.push(records[index].window_id);
        }
        index = index + 1;
    }
    proof {
        assert(records@.take(records.len() as int) =~= records@);
    }
    (on_screen, others)
}

/// Whether `record` is a window of the front app `front` on screen.
pub open spec fn has_focus(record: ListedWindow, front: Option<u32>) -> bool {
    record.is_on_screen && front == Some(pid_number(record.pid))
}

/// Whether `index` is the first place of `records` with a window of the front app on screen.
pub open spec fn first_focus(records: Seq<ListedWindow>, front: Option<u32>, index: int) -> bool {
    &&& 0 <= index < records.len()
    &&& has_focus(records[index], front)
    &&& forall|j: int| 0 <= j < index ==> !has_focus(#[trigger] records[j], front)
}

/// The id of the front app's topmost window on screen, the one with focus.
pub open spec fn focused_id(records: Seq<ListedWindow>, front: Option<u32>) -> Option<u32> {
    if exists|index: int| first_focus(records, front, index) {
        Some(records[choose|index: int| first_focus(records, front, index)].window_id)
    } else {
        None
    }
}

/// The handle of the window with focus: the front app's topmost window on screen, the listing
/// being front to back.
pub fn focused_window(records: &[ListedWindow], front: Option<u32>) -> (focused: Option<isize>)
    ensures
        focused == match focused_id(records@, front) {
            Some(id) => if id <= isize::MAX {
                Some(id as isize)
            } else {
                None::<isize>
            },
            None => None::<isize>,
        },
{
    let mut index: usize = 0;
    while index < records.len()
        invariant
            index <= records.len(),
            forall|j: int| 0 <= j < index ==> !has_focus(#[trigger] records@[j], front),
        decreases records.len() - index,
    {
        let record = &records[index];
        let pid: u32 = if record.pid >= 0 {
            record.pid as u32
        } else {
            0
        };
        if record.is_on_screen && front == Some(pid) {
            proof {
                assert(first_focus(records@, front, index as int));
                let chosen = choose|i: int| first_focus(records@, front, i);
                assert(first_focus(records@, front, chosen));
                if chosen < index {
                    assert(!has_focus(records@[chosen], front));
                } else if chosen > index {
                    assert(!has_focus(records@[index as int], front));
                }
            }
            let id = record.window_id;
            if id as u64 <= isize::MAX as u64 {
                return Some(id as isize);
            } else {
                return None;
            }
        }
        index = index + 1;
    }
    proof {
        if exists|i: int| first_focus(records@, front, i) {
            let i = choose|i: int| first_focus(records@, front, i);
            assert(!has_focus(records@[i], front));
        }
    }
    None
}

/// Whether an app is other than `pid`.
pub open spec fn other_than(pid: u32) -> spec_fn(u32) -> bool {
    |other: u32| other != pid
}

/// The apps last brought to the front after `pid` is: it first, then the others in their order,
/// at most `RECENT_APPS_KEPT` of them.
pub open spec fn noted_recent(recent: Seq<u32>, pid: u32) -> Seq<u32> {
    let noted = seq![pid] + recent.filter(other_than(pid));
    if noted.len() > RECENT_APPS_KEPT {
        noted.take(RECENT_APPS_KEPT as int)
    } else {
        noted
    }
}

/// Records `pid` as the app last brought to the front.
pub fn note_front_app(recent: &mut Vec<u32>, pid: u32)
    ensures
        final(recent)@ == noted_recent(old(recent)@, pid),
{
    let ghost others = other_than(pid);
    let mut noted: Vec<u32> = Vec::new();
    noted.push(pid);
    let mut index: usize = 0;
    while index < recent.len()
        invariant
            index <= recent.len(),
            others == other_than(pid),
            noted@ == seq![pid] + recent@.take(index as int).filter(others),
        decreases recent.len() - index,
    {
        let other = recent[index];
        proof {
            recent@.take(index as int).lemma_filter_push(other, others);
            assert(recent@.take(index as int + 1) =~= recent@.take(index as int).push(other));
        }
        if other != pid {
            noted.push(other);
        }
        proof {
            assert(noted@ =~= seq![pid] + recent@.take(index as int + 1).filter(others));
        }
        index = index + 1;
    }
    proof {
        assert(recent@.take(recent.len() as int) =~= recent@);
    }
    let ghost whole = noted@;
    noted.truncate(RECENT_APPS_KEPT);
    proof {
        if whole.len() > RECENT_APPS_KEPT {
            assert(noted@ =~= whole.take(RECENT_APPS_KEPT as int));
        } else {
            assert(noted@ =~= whole);
        }
    }
    *recent = noted;
}


/// Where the history puts the window `id`: its place, or `None` for a window it has not seen.
pub open spec fn id_rank(history: Seq<isize>, id: u32) -> Option<int> {
    if id <= isize::MAX {
        history.index_of_first(id as isize)
    } else {
        None
    }
}

/// Whether the history puts a window at `place`.
pub open spec fn at_rank(history: Seq<isize>, place: int) -> spec_fn(u32) -> bool {
    |id: u32| id_rank(history, id) == Some(place)
}

/// Whether the history has not seen a window.
pub open spec fn unranked(history: Seq<isize>) -> spec_fn(u32) -> bool {
    |id: u32| id_rank(history, id) is None
}

/// The windows of `order` at the first `count` places of the history, place by place.
pub open spec fn ranked_ids(order: Seq<u32>, history: Seq<isize>, count: int) -> Seq<u32>
    decreases count,
{
    if count <= 0 {
        Seq::empty()
    } else {
        ranked_ids(order, history, count - 1) + order.filter(at_rank(history, count - 1))
    }
}

/// `order` stably sorted by focus history: the windows the history has seen in the order they
/// last had focus, then the others in their stacking order.
pub open spec fn history_ordered(order: Seq<u32>, history: Seq<isize>) -> Seq<u32> {
    ranked_ids(order, history, history.len() as int) + order.filter(unranked(history))
}

/// The history's place for the window `id`, `usize::MAX` for one it has not seen.
fn rank_of(history: &WindowHistory, id: u32) -> (rank: usize)
    ensures
        match id_rank(history@, id) {
            Some(place) => rank == place && place < usize::MAX,
            None => rank == usize::MAX,
        },
{
    if id as u64 <= isize::MAX as u64 {
        let rank = history.rank(id as isize);
        let count = history.len();
        proof {
            crate::seq_util::lemma_index_of_first_facts(history@, id as isize);
        }
        rank
    } else {
        usize::MAX
    }
}

/// The window ids of `order` stably sorted by focus history, as the strip lists them.
pub fn order_by_history(order: &[u32], history: &WindowHistory) -> (ordered: Vec<u32>)
    ensures
        ordered@ == history_ordered(order@, history@),
{
    let mut ordered: Vec<u32> = Vec::new();
    let places = history.len();
    let mut place: usize = 0;
    while place < places
        invariant
            places == history@.len(),
            place <= places,
            ordered@ == ranked_ids(order@, history@, place as int),
        decreases places - place,
    {
        let ghost wanted = at_rank(history@, place as int);
        let ghost start = ordered@;
        let mut index: usize = 0;
        while index < order.len()
            invariant
                place < places,
                places == history@.len(),
                index <= order.len(),
                wanted == at_rank(history@, place as int),
                ordered@ == start + order@.take(index as int).filter(wanted),
            decreases order.len() - index,
        {
            let id = order[index];
            let rank = rank_of(history, id);
            proof {
                assert(wanted(id) == (rank == place));
                order@.take(index as int).lemma_filter_push(id, wanted);
                assert(order@.take(index as int + 1) =~= order@.take(index as int).push(id));
            }
            if rank == place {
                ordered.push(id);
            }
            proof {
                assert(ordered@ =~= start + order@.take(index as int + 1).filter(wanted));
            }
            index = index + 1;
        }
        proof {
            assert(order@.take(order.len() as int) =~= order@);
        }
        place = place + 1;
    }
    let ghost unseen = unranked(history@);
    let ghost start = ordered@;
    let mut index: usize = 0;
    while index < order.len()
        invariant
            index <= order.len(),
            unseen == unranked(history@),
            ordered@ == start + order@.take(index as int).filter(unseen),
        decreases order.len() - index,
    {
        let id = order[index];
        let rank = rank_of(history, id);
        proof {
            assert(unseen(id) == (rank == usize::MAX));
            order@.take(index as int).lemma_filter_push(id, unseen);
            assert(order@.take(index as int + 1) =~= order@.take(index as int).push(id));
        }
        if rank == usize::MAX {
            ordered.push(id);
        }
        proof {
            assert(ordered@ =~= start + order@.take(index as int + 1).filter(unseen));
        }
        index = index + 1;
    }
    proof {
        assert(order@.take(order.len() as int) =~= order@);
    }
    ordered
}

/// The ids of `records`, in their order.
pub open spec fn record_ids(records: Seq<ListedWindow>) -> Seq<u32> {
    records.map_values(|record: ListedWindow| record.window_id)
}

/// The switcher's entry for a listed window.
pub open spec fn entry_of(record: ListedWindow) -> WindowEntry {
    WindowEntry {
        handle: handle_of(record.window_id),
        process: process_of(record.pid, record.launched_at),
        app_name: record.app_name,
    }
}

/// The entries of the windows `ids` that `records` lists, in the order of `ids`; each id takes
/// the first record with it, and ids that no record has drop out.
pub open spec fn listed_entries(ids: Seq<u32>, records: Seq<ListedWindow>) -> Seq<WindowEntry>
    decreases ids.len(),
{
    if ids.len() == 0 {
        Seq::empty()
    } else {
        let rest = listed_entries(ids.drop_last(), records);
        match record_ids(records).index_of_first(ids.last()) {
            Some(index) => rest.push(entry_of(records[index])),
            None => rest,
        }
    }
}

/// The place of the first record of the window `id`.
fn record_position(records: &[ListedWindow], id: u32) -> (position: Option<usize>)
    ensures
        match position {
            Some(index) => index < records@.len() && record_ids(records@).index_of_first(id) == Some(
                index as int,
            ),
            None => record_ids(records@).index_of_first(id) is None,
        },
{
    let ghost ids = record_ids(records@);
    let mut index: usize = 0;
    while index < records.len()
        invariant
            index <= records.len(),
            ids == record_ids(records@),
            ids.len() == records@.len(),
            forall|j: int| 0 <= j < index ==> ids[j] != id,
        decreases records.len() - index,
    {
        if records[index].window_id == id {
            proof {
                crate::seq_util::lemma_index_of_first_is(ids, id, index as int);
            }
            return Some(index);
        }
        index = index + 1;
    }
    proof {
        crate::seq_util::lemma_index_of_first_none(ids, id);
    }
    None
}

/// The switcher's entries for the windows `ids`, from the records that list them.
pub fn window_entries(ids: &[u32], records: &[ListedWindow]) -> (entries: Vec<WindowEntry>)
    ensures
        entries@ == listed_entries(ids@, records@),
{
    let mut entries: Vec<WindowEntry> = Vec::new();
    let mut index: usize = 0;
    while index < ids.len()
        invariant
            index <= ids.len(),
            entries@ == listed_entries(ids@.take(index as int), records@),
        decreases ids.len() - index,
    {
        proof {
            assert(ids@.take(index as int + 1).drop_last() =~= ids@.take(index as int));
        }
        if let Some(position) = record_position(records, ids[index]) {
            let record = &records[position];
            let id = record.window_id;
            let handle: isize = if id as u64 <= isize::MAX as u64 {
                id as isize
            } else {
                0
            };
            entries.push(
                WindowEntry {
                    handle,
                    process: process_identity(record.pid, record.launched_at),
                    app_name: record.app_name.clone(),
                },
            );
        }
        index = index + 1;
    }
    proof {
        assert(ids@.take(ids.len() as int) =~= ids@);
    }
    entries
}

/// The apps that have no window, as the switcher adds them.
pub open spec fn windowless_entries(apps: Seq<WindowlessApp>) -> Seq<(ProcessIdentity, String)> {
    apps.map_values(|app: WindowlessApp| (process_of(app.pid, app.launched_at), app.name))
}

fn windowless_processes(apps: &[WindowlessApp]) -> (entries: Vec<(ProcessIdentity, String)>)
    ensures
        entries@ == windowless_entries(apps@),
{
    let mut entries: Vec<(ProcessIdentity, String)> = Vec::new();
    let mut index: usize = 0;
    while index < apps.len()
        invariant
            index <= apps.len(),
            entries@ == windowless_entries(apps@.take(index as int)),
        decreases apps.len() - index,
    {
        let app = &apps[index];
        entries.push((process_identity(app.pid, app.launched_at), app.name.clone()));
        proof {
            assert(entries@ =~= windowless_entries(apps@.take(index as int + 1)));
        }
        index = index + 1;
    }
    proof {
        assert(apps@.take(apps.len() as int) =~= apps@);
    }
    entries
}

/// The switcher's apps from a listing: the windows of `order` by focus history, grouped by app,
/// the apps in the order they were last brought to the front, and the apps without windows.
pub fn app_entries(
    order: &[u32],
    history: &WindowHistory,
    records: &[ListedWindow],
    recent_apps: &[u32],
    windowless: &[WindowlessApp],
) -> (apps: Vec<AppEntry>)
    ensures
        app_views(apps@) == grouped_apps(
            listed_entries(history_ordered(order@, history@), records@),
            recent_apps@,
            windowless_entries(windowless@),
        ),
{
    let ordered = order_by_history(order, history);
    let windows = window_entries(ordered.as_slice(), records);
    let apps = windowless_processes(windowless);
    group_by_app(windows.as_slice(), recent_apps, apps.as_slice())
}


/// Whether the history puts a window at one of its first `count` places.
pub open spec fn ranked_below(history: Seq<isize>, count: int) -> spec_fn(u32) -> bool {
    |id: u32|
        match id_rank(history, id) {
            Some(place) => place < count,
            None => false,
        }
}

/// Filtering by two predicates that never hold together gives, between them, what filtering by
/// either gives.
proof fn lemma_filter_split(
    items: Seq<u32>,
    first: spec_fn(u32) -> bool,
    second: spec_fn(u32) -> bool,
    either: spec_fn(u32) -> bool,
)
    requires
        forall|x: u32| #[trigger] either(x) == (first(x) || second(x)),
        forall|x: u32| !(#[trigger] first(x) && second(x)),
    ensures
        items.filter(first).to_multiset().add(items.filter(second).to_multiset())
            == items.filter(either).to_multiset(),
    decreases items.len(),
{
    broadcast use vstd::multiset::group_multiset_axioms;

    reveal(Seq::filter);
    if items.len() == 0 {
        assert(items.filter(first) =~= Seq::<u32>::empty());
        assert(items.filter(second) =~= Seq::<u32>::empty());
        assert(items.filter(either) =~= Seq::<u32>::empty());
        let nothing = Seq::<u32>::empty();
        nothing.to_multiset_ensures();
        vstd::multiset::lemma_multiset_empty_len(nothing.to_multiset());
    } else {
        let rest = items.drop_last();
        let last = items.last();
        lemma_filter_split(rest, first, second, either);
        assert(items =~= rest.push(last));
        rest.lemma_filter_push(last, first);
        rest.lemma_filter_push(last, second);
        rest.lemma_filter_push(last, either);
        if first(last) {
            vstd::seq_lib::to_multiset_build(rest.filter(first), last);
            vstd::seq_lib::to_multiset_build(rest.filter(either), last);
        } else if second(last) {
            vstd::seq_lib::to_multiset_build(rest.filter(second), last);
            vstd::seq_lib::to_multiset_build(rest.filter(either), last);
        }
        assert(items.filter(first).to_multiset().add(items.filter(second).to_multiset())
            =~= items.filter(either).to_multiset());
    }
}

/// Filtering by a predicate that always holds keeps everything.
proof fn lemma_filter_all(items: Seq<u32>, keep: spec_fn(u32) -> bool)
    requires
        forall|x: u32| #[trigger] keep(x),
    ensures
        items.filter(keep) == items,
    decreases items.len(),
{
    reveal(Seq::filter);
    if items.len() == 0 {
        assert(items.filter(keep) =~= items);
    } else {
        lemma_filter_all(items.drop_last(), keep);
        assert(items =~= items.drop_last().push(items.last()));
        items.drop_last().lemma_filter_push(items.last(), keep);
    }
}

/// Filtering by a predicate that never holds keeps nothing.
proof fn lemma_filter_none(items: Seq<u32>, keep: spec_fn(u32) -> bool)
    requires
        forall|x: u32| !#[trigger] keep(x),
    ensures
        items.filter(keep) == Seq::<u32>::empty(),
    decreases items.len(),
{
    reveal(Seq::filter);
    if items.len() == 0 {
        assert(items.filter(keep) =~= Seq::<u32>::empty());
    } else {
        lemma_filter_none(items.drop_last(), keep);
        assert(items =~= items.drop_last().push(items.last()));
        items.drop_last().lemma_filter_push(items.last(), keep);
    }
}

proof fn lemma_ranked_ids_multiset(order: Seq<u32>, history: Seq<isize>, count: int)
    requires
        0 <= count,
    ensures
        ranked_ids(order, history, count).to_multiset() == order.filter(
            ranked_below(history, count),
        ).to_multiset(),
    decreases count,
{
    broadcast use vstd::multiset::group_multiset_axioms;

    if count == 0 {
        assert forall|id: u32| !#[trigger] ranked_below(history, 0)(id) by {
            if id <= isize::MAX {
                crate::seq_util::lemma_index_of_first_facts(history, id as isize);
            }
        }
        lemma_filter_none(order, ranked_below(history, 0));
        assert(ranked_ids(order, history, 0) =~= Seq::<u32>::empty());
    } else {
        lemma_ranked_ids_multiset(order, history, count - 1);
        vstd::seq_lib::lemma_multiset_commutative(
            ranked_ids(order, history, count - 1),
            order.filter(at_rank(history, count - 1)),
        );
        lemma_filter_split(
            order,
            ranked_below(history, count - 1),
            at_rank(history, count - 1),
            ranked_below(history, count),
        );
    }
}

/// Ordering windows by focus history loses none and adds none: the result holds each window of
/// `order` as many times as `order` does.
pub proof fn law_history_order_keeps_every_window(order: Seq<u32>, history: Seq<isize>)
    ensures
        history_ordered(order, history).to_multiset() == order.to_multiset(),
{
    broadcast use vstd::multiset::group_multiset_axioms;

    let count = history.len() as int;
    lemma_ranked_ids_multiset(order, history, count);
    vstd::seq_lib::lemma_multiset_commutative(
        ranked_ids(order, history, count),
        order.filter(unranked(history)),
    );
    let everything = |id: u32| true;
    assert forall|id: u32| #[trigger] everything(id) == (ranked_below(history, count)(id) || unranked(
        history,
    )(id)) by {
        if id <= isize::MAX {
            crate::seq_util::lemma_index_of_first_facts(history, id as isize);
        }
    }
    lemma_filter_split(order, ranked_below(history, count), unranked(history), everything);
    lemma_filter_all(order, everything);
}

} // verus!
