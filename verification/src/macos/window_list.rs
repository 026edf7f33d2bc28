//! The windows the switcher lists: the on-screen windows front to back merged with the windows
//! that apps report through Accessibility, then kept in a stable order from one listing to the
//! next.

use vstd::prelude::*;

verus! {

/// A running app with no window the switcher can list, as the system switcher still shows it.
#[derive(Clone, Debug, PartialEq, Eq)]
pub struct WindowlessApp {
    pub pid: i32,
    pub launched_at: u64,
    pub name: String,
}

/// A window as the listing reports it, with what the switcher reads of it; `ax` names its
/// Accessibility element among the caller's, where Accessibility reported the window.
#[derive(Clone, Debug)]
pub struct ListedWindow {
    pub window_id: u32,
    pub pid: i32,
    pub launched_at: u64,
    pub title: String,
    pub app_name: String,
    pub is_minimized: bool,
    pub is_hidden: bool,
    pub is_on_screen: bool,
    pub ax: Option<usize>,
}

/// `order` with each of `ids` that `allowed` has and `order` lacks appended, one at a time.
pub open spec fn add_unseen(order: Seq<u32>, ids: Seq<u32>, allowed: Seq<u32>) -> Seq<u32>
    decreases ids.len(),
{
    if ids.len() == 0 {
        order
    } else {
        let earlier = add_unseen(order, ids.drop_last(), allowed);
        let id = ids.last();
        if allowed.contains(id) && !earlier.contains(id) {
            earlier.push(id)
        } else {
            earlier
        }
    }
}

/// The merged window order: the visible windows front to back, then the other windows in the
/// order `previous` knew them, then the other windows it did not know.
pub open spec fn merged_order(previous: Seq<u32>, on_screen: Seq<u32>, others: Seq<u32>) -> Seq<u32> {
    add_unseen(add_unseen(on_screen, previous, others), others, others)
}

fn contains_id(ids: &Vec<u32>, id: u32) -> (found: bool)
    ensures
        found == ids@.contains(id),
{
    let mut index: usize = 0;
    while index < ids.len()
        invariant
            index <= ids.len(),
            forall|j: int| 0 <= j < index ==> ids@[j] != id,
        decreases ids.len() - index,
    {
        if ids[index] == id {
            return true;
        }
        index = index + 1;
    }
    false
}

fn append_unseen(order: &mut Vec<u32>, ids: &[u32], allowed: &Vec<u32>)
    ensures
        final(order)@ == add_unseen(old(order)@, ids@, allowed@),
{
    let ghost start = order@;
    let mut index: usize = 0;
    while index < ids.len()
        invariant
            index <= ids.len(),
            order@ == add_unseen(start, ids@.take(index as int), allowed@),
        decreases ids.len() - index,
    {
        let id = ids[index];
        proof {
            assert(ids@.take(index as int + 1).drop_last() =~= ids@.take(index as int));
        }
        if contains_id(allowed, id) && !contains_id(order, id) {
            order.push(id);
        }
        index = index + 1;
    }
    proof {
        assert(ids@.take(ids.len() as int) =~= ids@);
    }
}

/// Front-to-back order for visible windows, then the previously known order for the rest.
pub fn merge_order(previous: &[u32], on_screen: &[u32], others: &[u32]) -> (order: Vec<u32>)
    ensures
        order@ == merged_order(previous@, on_screen@, others@),
{
    let allowed = vstd::slice::slice_to_vec(others);
    let mut order = vstd::slice::slice_to_vec(on_screen);
    append_unseen(&mut order, previous, &allowed);
    append_unseen(&mut order, others, &allowed);
    order
}


/// What appending the unseen ids keeps: `order` first, then ids that `allowed` has and `order`
/// lacks, each once; every allowed id ends up in the result.
pub open spec fn extends_with_unseen(result: Seq<u32>, order: Seq<u32>, ids: Seq<u32>, allowed: Seq<u32>) -> bool {
    &&& result.len() >= order.len()
    &&& forall|i: int| 0 <= i < order.len() ==> #[trigger] result[i] == order[i]
    &&& forall|i: int|
        order.len() <= i < result.len() ==> allowed.contains(#[trigger] result[i]) && !order.contains(
            result[i],
        )
    &&& forall|i: int, j: int| order.len() <= j < i < result.len() ==> #[trigger] result[j] != #[trigger] result[i]
    &&& forall|k: int| 0 <= k < ids.len() && allowed.contains(#[trigger] ids[k]) ==> result.contains(ids[k])
}

proof fn lemma_add_unseen(order: Seq<u32>, ids: Seq<u32>, allowed: Seq<u32>)
    ensures
        extends_with_unseen(add_unseen(order, ids, allowed), order, ids, allowed),
    decreases ids.len(),
{
    if ids.len() > 0 {
        let earlier = add_unseen(order, ids.drop_last(), allowed);
        lemma_add_unseen(order, ids.drop_last(), allowed);
        let id = ids.last();
        let result = add_unseen(order, ids, allowed);
        if allowed.contains(id) && !earlier.contains(id) {
            assert(result == earlier.push(id));
            assert forall|i: int| 0 <= i < order.len() implies #[trigger] result[i] == order[i] by {
                assert(result[i] == earlier[i]);
            }
            assert(!order.contains(id)) by {
                if order.contains(id) {
                    let j = choose|j: int| 0 <= j < order.len() && order[j] == id;
                    assert(earlier[j] == id);
                }
            }
            assert forall|i: int, j: int| order.len() <= j < i < result.len() implies #[trigger] result[j]
                != #[trigger] result[i] by {
                if i == result.len() - 1 {
                    assert(result[j] == earlier[j]);
                    if result[j] == id {
                        assert(earlier.contains(id));
                    }
                } else {
                    assert(result[j] == earlier[j] && result[i] == earlier[i]);
                }
            }
            assert forall|k: int| 0 <= k < ids.len() && allowed.contains(#[trigger] ids[k]) implies result.contains(
                ids[k],
            ) by {
                if k == ids.len() - 1 {
                    assert(result[result.len() - 1] == id);
                } else {
                    assert(ids.drop_last()[k] == ids[k]);
                    let j = choose|j: int| 0 <= j < earlier.len() && earlier[j] == ids[k];
                    assert(result[j] == ids[k]);
                }
            }
        } else {
            assert forall|k: int| 0 <= k < ids.len() && allowed.contains(#[trigger] ids[k]) implies result.contains(
                ids[k],
            ) by {
                if k < ids.len() - 1 {
                    assert(ids.drop_last()[k] == ids[k]);
                }
            }
        }
    }
}

/// The merged order lists the visible windows first, in their order, then each other window
/// once: every one of them, none of the visible ones again, and nothing else.
pub proof fn law_visible_windows_lead_and_others_appear_once(
    previous: Seq<u32>,
    on_screen: Seq<u32>,
    others: Seq<u32>,
)
    ensures
        ({
            let order = merged_order(previous, on_screen, others);
            &&& order.len() >= on_screen.len()
            &&& forall|i: int| 0 <= i < on_screen.len() ==> #[trigger] order[i] == on_screen[i]
            &&& forall|i: int|
                on_screen.len() <= i < order.len() ==> others.contains(#[trigger] order[i])
                    && !on_screen.contains(order[i])
            &&& forall|i: int, j: int|
                on_screen.len() <= j < i < order.len() ==> #[trigger] order[j] != #[trigger] order[i]
            &&& forall|k: int| 0 <= k < others.len() ==> order.contains(#[trigger] others[k])
        }),
{
    let middle = add_unseen(on_screen, previous, others);
    let order = add_unseen(middle, others, others);
    lemma_add_unseen(on_screen, previous, others);
    lemma_add_unseen(middle, others, others);
    assert forall|i: int| 0 <= i < on_screen.len() implies #[trigger] order[i] == on_screen[i] by {
        assert(order[i] == middle[i]);
    }
    assert forall|i: int| on_screen.len() <= i < order.len() implies others.contains(#[trigger] order[i])
        && !on_screen.contains(order[i]) by {
        if i < middle.len() {
            assert(order[i] == middle[i]);
        } else {
            if on_screen.contains(order[i]) {
                let j = choose|j: int| 0 <= j < on_screen.len() && on_screen[j] == order[i];
                assert(middle[j] == order[i]);
            }
        }
    }
    assert forall|i: int, j: int| on_screen.len() <= j < i < order.len() implies #[trigger] order[j]
        != #[trigger] order[i] by {
        if i < middle.len() {
            assert(order[i] == middle[i] && order[j] == middle[j]);
        } else if j < middle.len() {
            assert(order[j] == middle[j]);
            if order[j] == order[i] {
                assert(middle.contains(order[i]));
            }
        }
    }
    assert forall|k: int| 0 <= k < others.len() implies order.contains(#[trigger] others[k]) by {
        assert(others.contains(others[k]));
    }
}


/// A regular app that is running, as the workspace lists it.
#[derive(Clone, Debug)]
pub struct RunningApp {
    pub pid: i32,
    pub name: String,
    pub hidden: bool,
    pub launched_at: u64,
}

/// A window on screen at the normal layer, as the window server lists it front to back; `name`
/// stays empty unless Screen Recording is allowed.
#[derive(Clone, Debug)]
pub struct ScreenWindow {
    pub id: u32,
    pub pid: i32,
    pub name: String,
}

/// A standard window or dialog that the app `pid` reports through Accessibility; `element`
/// names its Accessibility element among the caller's.
#[derive(Clone, Debug)]
pub struct AccessibleWindow {
    pub pid: i32,
    pub id: u32,
    pub title: String,
    pub minimized: bool,
    pub element: usize,
}

/// What one enumeration found: the windows, on-screen ones first and front to back, and the
/// running apps that have none of them.
pub struct Listing {
    pub windows: Vec<ListedWindow>,
    pub windowless: Vec<WindowlessApp>,
}

pub open spec fn app_pids(apps: Seq<RunningApp>) -> Seq<i32> {
    apps.map_values(|app: RunningApp| app.pid)
}

/// The first of `apps` with process id `pid`.
pub open spec fn app_with(apps: Seq<RunningApp>, pid: i32) -> Option<RunningApp> {
    match app_pids(apps).index_of_first(pid) {
        Some(index) => Some(apps[index]),
        None => None,
    }
}

pub open spec fn accessible_ids(windows: Seq<AccessibleWindow>) -> Seq<u32> {
    windows.map_values(|window: AccessibleWindow| window.id)
}

/// Whether the app `pid` answered Accessibility: a window of it still waits in `pending`, or one
/// was matched into `records`.
pub open spec fn answers(pending: Seq<AccessibleWindow>, records: Seq<ListedWindow>, pid: i32) -> bool {
    (exists|i: int| 0 <= i < pending.len() && #[trigger] pending[i].pid == pid) || (exists|i: int|
        0 <= i < records.len() && #[trigger] records[i].pid == pid && records[i].ax is Some)
}

/// The title of an on-screen window: its Accessibility title, else the name the window server
/// gives it, else its app's name.
pub open spec fn shown_title(matched: Option<AccessibleWindow>, window: ScreenWindow, app: RunningApp) -> String {
    match matched {
        Some(accessible) => if accessible.title@.len() > 0 {
            accessible.title
        } else if window.name@.len() > 0 {
            window.name
        } else {
            app.name
        },
        None => if window.name@.len() > 0 {
            window.name
        } else {
            app.name
        },
    }
}

/// The record of an on-screen window of `app`, with the Accessibility window matched to it.
pub open spec fn on_screen_record(
    window: ScreenWindow,
    app: RunningApp,
    matched: Option<AccessibleWindow>,
) -> ListedWindow {
    ListedWindow {
        window_id: window.id,
        pid: app.pid,
        launched_at: app.launched_at,
        title: shown_title(matched, window, app),
        app_name: app.name,
        is_minimized: false,
        is_hidden: app.hidden,
        is_on_screen: true,
        ax: match matched {
            Some(accessible) => Some(accessible.element),
            None => None,
        },
    }
}

/// The record of a window of `app` that only Accessibility reports.
pub open spec fn off_screen_record(window: AccessibleWindow, app: RunningApp) -> ListedWindow {
    ListedWindow {
        window_id: window.id,
        pid: window.pid,
        launched_at: app.launched_at,
        title: window.title,
        app_name: app.name,
        is_minimized: window.minimized,
        is_hidden: app.hidden,
        is_on_screen: false,
        ax: Some(window.element),
    }
}

/// The Accessibility windows still unmatched and the records, after the on-screen windows
/// `screen` are taken front to back. Each takes the Accessibility window with its id, whose
/// place the last unmatched one fills; a window of an app that answered Accessibility but did
/// not report it is a helper, and left out; a window of no listed app is left out.
pub open spec fn gathered(
    apps: Seq<RunningApp>,
    screen: Seq<ScreenWindow>,
    accessible: Seq<AccessibleWindow>,
) -> (Seq<AccessibleWindow>, Seq<ListedWindow>)
    decreases screen.len(),
{
    if screen.len() == 0 {
        (accessible, Seq::empty())
    } else {
        let (pending, records) = gathered(apps, screen.drop_last(), accessible);
        let window = screen.last();
        match app_with(apps, window.pid) {
            None => (pending, records),
            Some(app) => match accessible_ids(pending).index_of_first(window.id) {
                Some(index) => (
                    pending.update(index, pending.last()).drop_last(),
                    records.push(on_screen_record(window, app, Some(pending[index]))),
                ),
                None => if answers(pending, records, app.pid) {
                    (pending, records)
                } else {
                    (pending, records.push(on_screen_record(window, app, None)))
                },
            },
        }
    }
}

/// The records of the Accessibility windows left unmatched, in their order: those of a listed
/// app that have a title.
pub open spec fn off_screen_records(apps: Seq<RunningApp>, pending: Seq<AccessibleWindow>) -> Seq<
    ListedWindow,
>
    decreases pending.len(),
{
    if pending.len() == 0 {
        Seq::empty()
    } else {
        let rest = off_screen_records(apps, pending.drop_last());
        let window = pending.last();
        match app_with(apps, window.pid) {
            Some(app) => if window.title@.len() > 0 {
                rest.push(off_screen_record(window, app))
            } else {
                rest
            },
            None => rest,
        }
    }
}

pub open spec fn record_pids(records: Seq<ListedWindow>) -> Seq<i32> {
    records.map_values(|record: ListedWindow| record.pid)
}

/// The apps of which `records` holds no window, in their order.
pub open spec fn windowless_of(apps: Seq<RunningApp>, records: Seq<ListedWindow>) -> Seq<WindowlessApp>
    decreases apps.len(),
{
    if apps.len() == 0 {
        Seq::empty()
    } else {
        let rest = windowless_of(apps.drop_last(), records);
        let app = apps.last();
        if record_pids(records).contains(app.pid) {
            rest
        } else {
            rest.push(WindowlessApp { pid: app.pid, launched_at: app.launched_at, name: app.name })
        }
    }
}

/// The windows of one enumeration: the on-screen ones as gathered, then the Accessibility ones
/// left over.
pub open spec fn listed_windows(
    apps: Seq<RunningApp>,
    screen: Seq<ScreenWindow>,
    accessible: Seq<AccessibleWindow>,
) -> Seq<ListedWindow> {
    let (pending, records) = gathered(apps, screen, accessible);
    records + off_screen_records(apps, pending)
}

fn app_position(apps: &[RunningApp], pid: i32) -> (position: Option<usize>)
    ensures
        match position {
            Some(index) => index < apps@.len() && app_pids(apps@).index_of_first(pid) == Some(
                index as int,
            ),
            None => app_pids(apps@).index_of_first(pid) is None,
        },
{
    let ghost pids = app_pids(apps@);
    let mut index: usize = 0;
    while index < apps.len()
        invariant
            index <= apps.len(),
            pids == app_pids(apps@),
            pids.len() == apps@.len(),
            forall|j: int| 0 <= j < index ==> pids[j] != pid,
        decreases apps.len() - index,
    {
        if apps[index].pid == pid {
            proof {
                crate::seq_util::lemma_index_of_first_is(pids, pid, index as int);
            }
            return Some(index);
        }
        index = index + 1;
    }
    proof {
        crate::seq_util::lemma_index_of_first_none(pids, pid);
    }
    None
}

fn accessible_position(pending: &Vec<AccessibleWindow>, id: u32) -> (position: Option<usize>)
    ensures
        match position {
            Some(index) => index < pending@.len() && accessible_ids(pending@).index_of_first(id)
                == Some(index as int),
            None => accessible_ids(pending@).index_of_first(id) is None,
        },
{
    let ghost ids = accessible_ids(pending@);
    let mut index: usize = 0;
    while index < pending.len()
        invariant
            index <= pending.len(),
            ids == accessible_ids(pending@),
            ids.len() == pending@.len(),
            forall|j: int| 0 <= j < index ==> ids[j] != id,
        decreases pending.len() - index,
    {
        if pending[index].id == id {
            proof {
                crate::seq_util::lemma_index_of_first_is(ids, id, index as int);
            }
            return Some(index);
        }
        index = index + 1;
    }
    proof {
        crate::seq_util::lemma_index_of_first_none(ids, id);
    }
    None
}

/// Whether the app `pid` answered Accessibility at all: a window of it still waits in `pending`,
/// or one was already matched into `records`.
pub fn app_answers_accessibility(
    pending: &Vec<AccessibleWindow>,
    records: &Vec<ListedWindow>,
    pid: i32,
) -> (answered: bool)
    ensures
        answered == answers(pending@, records@, pid),
{
    let mut index: usize = 0;
    while index < pending.len()
        invariant
            index <= pending.len(),
            forall|j: int| 0 <= j < index ==> #[trigger] pending@[j].pid != pid,
        decreases pending.len() - index,
    {
        if pending[index].pid == pid {
            return true;
        }
        index = index + 1;
    }
    let mut index: usize = 0;
    while index < records.len()
        invariant
            index <= records.len(),
            forall|j: int| 0 <= j < pending@.len() ==> #[trigger] pending@[j].pid != pid,
            forall|j: int|
                0 <= j < index ==> !(#[trigger] records@[j].pid == pid && records@[j].ax is Some),
        decreases records.len() - index,
    {
        if records[index].pid == pid && records[index].ax.is_some() {
            return true;
        }
        index = index + 1;
    }
    false
}

fn title_of(matched: &Option<AccessibleWindow>, window: &ScreenWindow, app: &RunningApp) -> (title:
    String)
    ensures
        title == shown_title(*matched, *window, *app),
{
    match matched {
        Some(accessible) => {
            if !accessible.title.as_str().is_empty() {
                return accessible.title.clone();
            }
        },
        None => {},
    }
    if !window.name.as_str().is_empty() {
        window.name.clone()
    } else {
        app.name.clone()
    }
}

fn has_record_of(records: &Vec<ListedWindow>, pid: i32) -> (found: bool)
    ensures
        found == record_pids(records@).contains(pid),
{
    let ghost pids = record_pids(records@);
    let mut index: usize = 0;
    while index < records.len()
        invariant
            index <= records.len(),
            pids == record_pids(records@),
            pids.len() == records@.len(),
            forall|j: int| 0 <= j < index ==> pids[j] != pid,
        decreases records.len() - index,
    {
        if records[index].pid == pid {
            proof {
                assert(pids[index as int] == pid);
            }
            return true;
        }
        index = index + 1;
    }
    proof {
        if pids.contains(pid) {
            let j = choose|j: int| 0 <= j < pids.len() && pids[j] == pid;
            assert(pids[j] != pid);
        }
    }
    false
}

/// Assembles one enumeration from the running `apps`, the on-screen windows `screen` front to
/// back, and the windows that the apps reported through Accessibility, app by app.
pub fn assemble_listing(
    apps: &[RunningApp],
    screen: &[ScreenWindow],
    accessible: Vec<AccessibleWindow>,
) -> (listing: Listing)
    ensures
        listing.windows@ == listed_windows(apps@, screen@, accessible@),
        listing.windowless@ == windowless_of(apps@, listing.windows@),
{
    let ghost start = accessible@;
    let mut pending = accessible;
    let mut records: Vec<ListedWindow> = Vec::new();
    let mut index: usize = 0;
    while index < screen.len()
        invariant
            index <= screen.len(),
            (pending@, records@) == gathered(apps@, screen@.take(index as int), start),
        decreases screen.len() - index,
    {
        proof {
            assert(screen@.take(index as int + 1).drop_last() =~= screen@.take(index as int));
        }
        let window = &screen[index];
        index = index + 1;
        let app_index = match app_position(apps, window.pid) {
            Some(found) => found,
            None => continue,
        };
        let app = &apps[app_index];
        let matched = match accessible_position(&pending, window.id) {
            Some(position) => Some(pending.swap_remove(position)),
            None => None,
        };
        if matched.is_none() && app_answers_accessibility(&pending, &records, app.pid) {
            continue;
        }
        let title = title_of(&matched, window, app);
        let ax = match &matched {
            Some(found) => Some(found.element),
            None => None,
        };
        records.push(
            ListedWindow {
                window_id: window.id,
                pid: app.pid,
                launched_at: app.launched_at,
                title,
                app_name: app.name.clone(),
                is_minimized: false,
                is_hidden: app.hidden,
                is_on_screen: true,
                ax,
            },
        );
    }
    proof {
        assert(screen@.take(screen.len() as int) =~= screen@);
    }
    let ghost on_screen = records@;
    let ghost left = pending@;
    let mut index: usize = 0;
    while index < pending.len()
        invariant
            index <= pending.len(),
            pending@ == left,
            records@ == on_screen + off_screen_records(apps@, left.take(index as int)),
        decreases pending.len() - index,
    {
        proof {
            assert(left.take(index as int + 1).drop_last() =~= left.take(index as int));
        }
        let window = &pending[index];
        index = index + 1;
        let app_index = match app_position(apps, window.pid) {
            Some(found) => found,
            None => continue,
        };
        if window.title.as_str().is_empty() {
            continue;
        }
        let app = &apps[app_index];
        records.push(
            ListedWindow {
                window_id: window.id,
                pid: window.pid,
                launched_at: app.launched_at,
                title: window.title.clone(),
                app_name: app.name.clone(),
                is_minimized: window.minimized,
                is_hidden: app.hidden,
                is_on_screen: false,
                ax: Some(window.element),
            },
        );
    }
    proof {
        assert(left.take(left.len() as int) =~= left);
    }
    let mut windowless: Vec<WindowlessApp> = Vec::new();
    let mut index: usize = 0;
    while index < apps.len()
        invariant
            index <= apps.len(),
            windowless@ == windowless_of(apps@.take(index as int), records@),
        decreases apps.len() - index,
    {
        proof {
            assert(apps@.take(index as int + 1).drop_last() =~= apps@.take(index as int));
        }
        let app = &apps[index];
        if !has_record_of(&records, app.pid) {
            windowless.push(
                WindowlessApp { pid: app.pid, launched_at: app.launched_at, name: app.name.clone() },
            );
        }
        index = index + 1;
    }
    proof {
        assert(apps@.take(apps.len() as int) =~= apps@);
    }
    Listing { windows: records, windowless }
}


/// Whether `record` is a window of a running app of `apps` and carries that app's name, launch
/// time and hidden state.
pub open spec fn belongs_to_app(apps: Seq<RunningApp>, record: ListedWindow) -> bool {
    match app_with(apps, record.pid) {
        Some(app) => app.name == record.app_name && app.launched_at == record.launched_at
            && app.hidden == record.is_hidden,
        None => false,
    }
}

proof fn lemma_app_with_has_the_pid(apps: Seq<RunningApp>, pid: i32)
    ensures
        app_with(apps, pid) matches Some(app) ==> app.pid == pid,
{
    crate::seq_util::lemma_index_of_first_facts(app_pids(apps), pid);
}

proof fn lemma_gathered_records(
    apps: Seq<RunningApp>,
    screen: Seq<ScreenWindow>,
    accessible: Seq<AccessibleWindow>,
)
    ensures
        forall|i: int|
            0 <= i < gathered(apps, screen, accessible).1.len() ==> {
                let record = #[trigger] gathered(apps, screen, accessible).1[i];
                &&& belongs_to_app(apps, record)
                &&& record.is_on_screen
            },
    decreases screen.len(),
{
    if screen.len() > 0 {
        lemma_gathered_records(apps, screen.drop_last(), accessible);
        lemma_app_with_has_the_pid(apps, screen.last().pid);
    }
}

proof fn lemma_off_screen_records(apps: Seq<RunningApp>, pending: Seq<AccessibleWindow>)
    ensures
        forall|i: int|
            0 <= i < off_screen_records(apps, pending).len() ==> {
                let record = #[trigger] off_screen_records(apps, pending)[i];
                &&& belongs_to_app(apps, record)
                &&& !record.is_on_screen
                &&& record.title@.len() > 0
                &&& record.ax is Some
            },
    decreases pending.len(),
{
    if pending.len() > 0 {
        lemma_off_screen_records(apps, pending.drop_last());
        lemma_app_with_has_the_pid(apps, pending.last().pid);
    }
}

/// Every listed window is a window of a running app and carries its name, launch time and hidden
/// state; the on-screen windows come first; a window that is not on screen has a title and an
/// Accessibility element.
pub proof fn law_listed_windows_belong_to_running_apps(
    apps: Seq<RunningApp>,
    screen: Seq<ScreenWindow>,
    accessible: Seq<AccessibleWindow>,
)
    ensures
        forall|i: int|
            0 <= i < listed_windows(apps, screen, accessible).len() ==> {
                let record = #[trigger] listed_windows(apps, screen, accessible)[i];
                &&& belongs_to_app(apps, record)
                &&& !record.is_on_screen ==> record.title@.len() > 0 && record.ax is Some
            },
        forall|i: int, j: int|
            0 <= i < j < listed_windows(apps, screen, accessible).len() && #[trigger] listed_windows(
                apps,
                screen,
                accessible,
            )[j].is_on_screen ==> #[trigger] listed_windows(apps, screen, accessible)[i].is_on_screen,
{
    let (pending, records) = gathered(apps, screen, accessible);
    lemma_gathered_records(apps, screen, accessible);
    lemma_off_screen_records(apps, pending);
    let all = listed_windows(apps, screen, accessible);
    assert forall|i: int| 0 <= i < all.len() implies {
        let record = #[trigger] all[i];
        &&& belongs_to_app(apps, record)
        &&& !record.is_on_screen ==> record.title@.len() > 0 && record.ax is Some
    } by {
        if i < records.len() {
            assert(all[i] == records[i]);
        } else {
            assert(all[i] == off_screen_records(apps, pending)[i - records.len()]);
        }
    }
    assert forall|i: int, j: int|
        0 <= i < j < all.len() && #[trigger] all[j].is_on_screen implies #[trigger] all[i].is_on_screen by {
        if j < records.len() {
            assert(all[i] == records[i]);
        } else {
            assert(all[j] == off_screen_records(apps, pending)[j - records.len()]);
        }
    }
}

/// An app is listed as windowless exactly when no listed window is its own.
pub proof fn law_windowless_apps_have_no_listed_window(
    apps: Seq<RunningApp>,
    records: Seq<ListedWindow>,
)
    ensures
        forall|i: int|
            0 <= i < windowless_of(apps, records).len() ==> !record_pids(records).contains(
                #[trigger] windowless_of(apps, records)[i].pid,
            ),
        forall|i: int|
            0 <= i < apps.len() && !record_pids(records).contains(#[trigger] apps[i].pid) ==> exists|
                j: int,
            |
                0 <= j < windowless_of(apps, records).len() && #[trigger] windowless_of(
                    apps,
                    records,
                )[j].pid == apps[i].pid,
    decreases apps.len(),
{
    if apps.len() > 0 {
        let rest = apps.drop_last();
        law_windowless_apps_have_no_listed_window(rest, records);
        let earlier = windowless_of(rest, records);
        let all = windowless_of(apps, records);
        assert forall|i: int|
            0 <= i < apps.len() && !record_pids(records).contains(#[trigger] apps[i].pid) implies exists|
                j: int,
            | 0 <= j < all.len() && #[trigger] all[j].pid == apps[i].pid by {
            if i < rest.len() {
                assert(rest[i] == apps[i]);
                let j = choose|j: int| 0 <= j < earlier.len() && #[trigger] earlier[j].pid == rest[i].pid;
                assert(all[j] == earlier[j]);
            } else {
                assert(all[earlier.len() as int].pid == apps[i].pid);
            }
        }
    }
}

/// What stays of `windows` when the listing is held to one display: the windows that are not on
/// screen, and the on-screen windows among `shown`, the ids of those whose centre lies on it,
/// in their order.
pub open spec fn kept_on_display(windows: Seq<ListedWindow>, shown: Seq<u32>) -> Seq<ListedWindow>
    decreases windows.len(),
{
    if windows.len() == 0 {
        windows
    } else {
        let earlier = kept_on_display(windows.drop_last(), shown);
        let window = windows.last();
        if !window.is_on_screen || shown.contains(window.window_id) {
            earlier.push(window)
        } else {
            earlier
        }
    }
}

/// Holds a listing to one display: keeps the windows that are not on screen and those on-screen
/// windows whose ids `shown` lists, the caller having found their centres on the display.
pub fn keep_windows_on_display(windows: &mut Vec<ListedWindow>, shown: &Vec<u32>)
    ensures
        final(windows)@ == kept_on_display(old(windows)@, shown@),
{
    let ghost all = windows@;
    let mut rest: Vec<ListedWindow> = Vec::new();
    std::mem::swap(windows, &mut rest);
    let ghost mut taken: int = 0;
    while rest.len() > 0
        invariant
            0 <= taken <= all.len(),
            rest@ == all.skip(taken),
            windows@ == kept_on_display(all.take(taken), shown@),
        decreases rest.len(),
    {
        let window = rest.remove(0);
        proof {
            assert(all.take(taken + 1).drop_last() =~= all.take(taken));
            assert(all.take(taken + 1).last() == all[taken]);
            assert(all.skip(taken + 1) =~= all.skip(taken).remove(0));
            taken = taken + 1;
        }
        if !window.is_on_screen || contains_id(shown, window.window_id) {
            windows.push(window);
        }
    }
    proof {
        assert(all.take(taken) =~= all);
    }
}

} // verus!
