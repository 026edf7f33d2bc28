//! App-first switching, as the macOS switcher presents it: running apps in a strip, most
//! recently used first, and under the selected app its windows, most recently used first.
//!
//! Tab and the side arrows step between apps and land on the app's last-used window; the up and
//! down arrows step between that app's windows. The order is fixed when the switcher opens, so a
//! window closing or an app hiding while it shows never moves the other entries.
//!
//! The app in front never starts on the window that already has focus, since switching to it
//! would do nothing; stepping back onto it lands on its next window instead.

use crate::input::WindowCommand;
use crate::switcher::ProcessIdentity;
use vstd::prelude::*;

verus! {

/// One window as the adapter lists it, most recently used first.
#[derive(Clone, Debug, PartialEq, Eq)]
pub struct WindowEntry {
    pub handle: isize,
    pub process: ProcessIdentity,
    pub app_name: String,
}

/// Windows in the order they last had focus, the current one first.
///
/// Stacking order is not enough for this: clicking an app in the Dock raises all of its windows
/// while only one of them was used.
#[derive(Debug)]
pub struct WindowHistory {
    windows: Vec<isize>,
}

impl View for WindowHistory {
    type V = Seq<isize>;

    closed spec fn view(&self) -> Seq<isize> {
        self.windows@
    }
}

/// What `note` makes of a history: the listed windows it knew, in their order, with the focused
/// one moved to the front.
pub open spec fn noted_history(history: Seq<isize>, focused: Option<isize>, listed: Seq<isize>) -> Seq<
    isize,
> {
    let base = if history.len() == 0 {
        listed
    } else {
        history
    };
    let kept = base.filter(|window: isize| listed.contains(window));
    match focused {
        Some(focused) => seq![focused] + kept.filter(|window: isize| window != focused),
        None => kept,
    }
}

/// How recently `window` had focus, 0 being now; `usize::MAX` for windows never seen.
pub open spec fn history_rank(history: Seq<isize>, window: isize) -> usize {
    match history.index_of_first(window) {
        Some(index) => index as usize,
        None => usize::MAX,
    }
}

/// The windows that are `listed` and are not `excluded`.
pub open spec fn window_kept(listed: Seq<isize>, excluded: Option<isize>) -> spec_fn(isize) -> bool {
    |window: isize| listed.contains(window) && (excluded is None || window != excluded->0)
}

/// The windows of `items` that are listed and not excluded, in order.
fn retain_windows(items: &Vec<isize>, listed: &[isize], excluded: Option<isize>) -> (kept: Vec<
    isize,
>)
    ensures
        kept@ == items@.filter(window_kept(listed@, excluded)),
{
    let mut kept: Vec<isize> = Vec::new();
    let mut index: usize = 0;
    while index < items.len()
        invariant
            index <= items.len(),
            kept@ == items@.take(index as int).filter(window_kept(listed@, excluded)),
        decreases items.len() - index,
    {
        let window = items[index];
        let listed_here = contains_window(listed, window);
        let excluded_here = match excluded {
            Some(other) => window == other,
            None => false,
        };
        proof {
            items@.take(index as int).lemma_filter_push(window, window_kept(listed@, excluded));
            assert(items@.take(index as int + 1) =~= items@.take(index as int).push(window));
        }
        if listed_here && !excluded_here {
            kept.push(window);
        }
        index = index + 1;
    }
    proof {
        assert(items@.take(items.len() as int) =~= items@);
    }
    kept
}

fn contains_window(windows: &[isize], window: isize) -> (found: bool)
    ensures
        found == windows@.contains(window),
{
    let mut index: usize = 0;
    while index < windows.len()
        invariant
            index <= windows.len(),
            forall|j: int| 0 <= j < index ==> windows@[j] != window,
        decreases windows.len() - index,
    {
        if windows[index] == window {
            return true;
        }
        index = index + 1;
    }
    false
}

/// Where `needle` first occurs in `items`.
fn position_of_window(items: &[isize], needle: isize) -> (position: Option<usize>)
    ensures
        match position {
            Some(index) => items@.index_of_first(needle) == Some(index as int),
            None => items@.index_of_first(needle) is None,
        },
{
    let mut index: usize = 0;
    while index < items.len()
        invariant
            index <= items.len(),
            forall|j: int| 0 <= j < index ==> items@[j] != needle,
        decreases items.len() - index,
    {
        if items[index] == needle {
            proof {
                crate::seq_util::lemma_index_of_first_is(items@, needle, index as int);
            }
            return Some(index);
        }
        index = index + 1;
    }
    proof {
        crate::seq_util::lemma_index_of_first_none(items@, needle);
    }
    None
}

impl Default for WindowHistory {
    fn default() -> (history: Self)
        ensures
            history@ == Seq::<isize>::empty(),
    {
        Self { windows: Vec::new() }
    }
}

impl WindowHistory {
    /// Records `focused` as the window in use and forgets windows no longer `listed`. An empty
    /// history starts from `listed` as given, front to back, the best guess at the order of use
    /// from before recording began.
    pub fn note(&mut self, focused: Option<isize>, listed: &[isize])
        ensures
            final(self)@ == noted_history(old(self)@, focused, listed@),
    {
        if self.windows.len() == 0 {
            self.windows = vstd::slice::slice_to_vec(listed);
        }
        let ghost base = self.windows@;
        let ghost keep = |window: isize| listed@.contains(window);
        match focused {
            None => {
                self.windows = retain_windows(&self.windows, listed, None);
                proof {
                    assert(keep =~= window_kept(listed@, None));
                }
            },
            Some(focused) => {
                let mut rest = retain_windows(&self.windows, listed, Some(focused));
                proof {
                    let others = |window: isize| window != focused;
                    lemma_filter_twice(base, keep, others, window_kept(listed@, Some(focused)));
                }
                rest.insert(0, focused);
                self.windows = rest;
            },
        }
    }

    /// How many windows the history knows.
    pub fn len(&self) -> (count: usize)
        ensures
            count == self@.len(),
    {
        self.windows.len()
    }

    /// How recently `window` had focus, 0 being now; windows never seen rank last.
    pub fn rank(&self, window: isize) -> (rank: usize)
        ensures
            rank == history_rank(self@, window),
            (rank == usize::MAX) == (self@.index_of_first(window) is None),
    {
        let count = self.windows.len();
        proof {
            crate::seq_util::lemma_index_of_first_facts(self@, window);
            assert(self@.len() == count);
        }
        match position_of_window(self.windows.as_slice(), window) {
            Some(index) => index,
            None => usize::MAX,
        }
    }
}

/// Filtering twice keeps what both predicates keep.
pub proof fn lemma_filter_twice(
    items: Seq<isize>,
    first: spec_fn(isize) -> bool,
    second: spec_fn(isize) -> bool,
    both: spec_fn(isize) -> bool,
)
    requires
        forall|x: isize| #[trigger] both(x) == (first(x) && second(x)),
    ensures
        items.filter(first).filter(second) == items.filter(both),
    decreases items.len(),
{
    reveal(Seq::filter);
    if items.len() > 0 {
        lemma_filter_twice(items.drop_last(), first, second, both);
        let last = items.last();
        assert(items =~= items.drop_last().push(last));
        items.drop_last().lemma_filter_push(last, first);
        items.drop_last().lemma_filter_push(last, both);
        items.drop_last().filter(first).lemma_filter_push(last, second);
    } else {
        assert(items.filter(first) =~= items);
    }
}

/// A running app with the windows it has open.
#[derive(Clone, Debug, PartialEq, Eq)]
pub struct AppEntry {
    pub process: ProcessIdentity,
    pub name: String,
    /// Window handles, most recently used first; empty for an app with no open window.
    pub windows: Vec<isize>,
}

/// An app as the contracts speak of it.
pub struct AppView {
    pub process: ProcessIdentity,
    pub name: Seq<char>,
    pub windows: Seq<isize>,
}

impl View for AppEntry {
    type V = AppView;

    open spec fn view(&self) -> AppView {
        AppView { process: self.process, name: self.name@, windows: self.windows@ }
    }
}

pub open spec fn app_views(apps: Seq<AppEntry>) -> Seq<AppView> {
    apps.map_values(|app: AppEntry| app@)
}

pub open spec fn processes(apps: Seq<AppView>) -> Seq<ProcessIdentity> {
    apps.map_values(|app: AppView| app.process)
}

/// `windows` grouped under their apps, in the order each app's first window comes.
pub open spec fn grouped_windows(windows: Seq<WindowEntry>) -> Seq<AppView>
    decreases windows.len(),
{
    if windows.len() == 0 {
        Seq::empty()
    } else {
        let apps = grouped_windows(windows.drop_last());
        let window = windows.last();
        match processes(apps).index_of_first(window.process) {
            Some(index) => apps.update(
                index,
                AppView { windows: apps[index].windows.push(window.handle), ..apps[index] },
            ),
            None => apps.push(
                AppView {
                    process: window.process,
                    name: window.app_name@,
                    windows: seq![window.handle],
                },
            ),
        }
    }
}

/// `apps` with the windowless apps that are not yet among them added at the end.
pub open spec fn with_windowless(apps: Seq<AppView>, windowless: Seq<(ProcessIdentity, String)>) -> Seq<
    AppView,
>
    decreases windowless.len(),
{
    if windowless.len() == 0 {
        apps
    } else {
        let earlier = with_windowless(apps, windowless.drop_last());
        let (process, name) = windowless.last();
        if processes(earlier).contains(process) {
            earlier
        } else {
            earlier.push(AppView { process, name: name@, windows: Seq::empty() })
        }
    }
}

/// Where an app stands in `recent`, the process ids in the order they were last activated.
pub open spec fn recency(recent: Seq<u32>, app: AppView) -> Option<int> {
    recent.index_of_first(app.process.id)
}

/// The apps named by the first `count` places of `recent`, place by place, each place's apps in
/// their given order.
pub open spec fn ranked_apps(apps: Seq<AppView>, recent: Seq<u32>, count: int) -> Seq<AppView>
    decreases count,
{
    if count <= 0 {
        Seq::empty()
    } else {
        ranked_apps(apps, recent, count - 1) + apps.filter(
            |app: AppView| recency(recent, app) == Some(count - 1),
        )
    }
}

/// `apps` stably ordered by their place in `recent`; the apps it does not name keep their order
/// after all others.
pub open spec fn by_recency(apps: Seq<AppView>, recent: Seq<u32>) -> Seq<AppView> {
    ranked_apps(apps, recent, recent.len() as int) + apps.filter(
        |app: AppView| recency(recent, app) is None,
    )
}

pub open spec fn grouped_apps(
    windows: Seq<WindowEntry>,
    recent: Seq<u32>,
    windowless: Seq<(ProcessIdentity, String)>,
) -> Seq<AppView> {
    by_recency(with_windowless(grouped_windows(windows), windowless), recent)
}

fn copy_app(app: &AppEntry) -> (copy: AppEntry)
    ensures
        copy@ == app@,
{
    AppEntry {
        process: app.process,
        name: app.name.clone(),
        windows: vstd::slice::slice_to_vec(app.windows.as_slice()),
    }
}

/// Where `process` first appears among `apps`.
fn position_of_process(apps: &Vec<AppEntry>, process: ProcessIdentity) -> (position: Option<usize>)
    ensures
        match position {
            Some(index) => processes(app_views(apps@)).index_of_first(process) == Some(index as int),
            None => processes(app_views(apps@)).index_of_first(process) is None,
        },
{
    let ghost ids = processes(app_views(apps@));
    let mut index: usize = 0;
    while index < apps.len()
        invariant
            index <= apps.len(),
            ids == processes(app_views(apps@)),
            forall|j: int| 0 <= j < index ==> ids[j] != process,
        decreases apps.len() - index,
    {
        if apps[index].process == process {
            proof {
                crate::seq_util::lemma_index_of_first_is(ids, process, index as int);
            }
            return Some(index);
        }
        index = index + 1;
    }
    proof {
        crate::seq_util::lemma_index_of_first_none(ids, process);
    }
    None
}

/// Where `id` first appears in `ids`.
fn position_of_id(ids: &[u32], id: u32) -> (position: Option<usize>)
    ensures
        match position {
            Some(index) => ids@.index_of_first(id) == Some(index as int),
            None => ids@.index_of_first(id) is None,
        },
{
    let mut index: usize = 0;
    while index < ids.len()
        invariant
            index <= ids.len(),
            forall|j: int| 0 <= j < index ==> ids@[j] != id,
        decreases ids.len() - index,
    {
        if ids[index] == id {
            proof {
                crate::seq_util::lemma_index_of_first_is(ids@, id, index as int);
            }
            return Some(index);
        }
        index = index + 1;
    }
    proof {
        crate::seq_util::lemma_index_of_first_none(ids@, id);
    }
    None
}

/// Groups `windows` by app and adds the `windowless` apps. Apps follow `recent_apps`, the process
/// ids in the order they were last activated; apps it does not name were last used before it
/// started recording, so they follow in the order of their first window, and windowless ones
/// after those.
pub fn group_by_app(
    windows: &[WindowEntry],
    recent_apps: &[u32],
    windowless: &[(ProcessIdentity, String)],
) -> (apps: Vec<AppEntry>)
    ensures
        app_views(apps@) == grouped_apps(windows@, recent_apps@, windowless@),
{
    let mut apps: Vec<AppEntry> = Vec::new();
    let mut index: usize = 0;
    while index < windows.len()
        invariant
            index <= windows.len(),
            app_views(apps@) == grouped_windows(windows@.take(index as int)),
        decreases windows.len() - index,
    {
        let window = &windows[index];
        proof {
            assert(windows@.take(index as int + 1).drop_last() =~= windows@.take(index as int));
        }
        match position_of_process(&apps, window.process) {
            Some(found) => {
                proof {
                    crate::seq_util::lemma_index_of_first_facts(
                        processes(app_views(apps@)),
                        window.process,
                    );
                }
                let mut app = apps.remove(found);
                app.windows.push(window.handle);
                apps.insert(found, app);
            },
            None => {
                let mut handles = Vec::new();
                handles.push(window.handle);
                apps.push(
                    AppEntry { process: window.process, name: window.app_name.clone(), windows: handles },
                );
            },
        }
        proof {
            let before = grouped_windows(windows@.take(index as int));
            assert(app_views(apps@) =~= grouped_windows(windows@.take(index as int + 1)));
        }
        index = index + 1;
    }
    proof {
        assert(windows@.take(windows.len() as int) =~= windows@);
    }
    let mut extra: usize = 0;
    while extra < windowless.len()
        invariant
            extra <= windowless.len(),
            app_views(apps@) == with_windowless(grouped_windows(windows@), windowless@.take(
                extra as int,
            )),
        decreases windowless.len() - extra,
    {
        let (process, name) = &windowless[extra];
        proof {
            assert(windowless@.take(extra as int + 1).drop_last() =~= windowless@.take(
                extra as int,
            ));
        }
        let known = position_of_process(&apps, *process);
        proof {
            crate::seq_util::lemma_index_of_first_facts(processes(app_views(apps@)), *process);
        }
        if known.is_none() {
            apps.push(AppEntry { process: *process, name: name.clone(), windows: Vec::new() });
            proof {
                assert(app_views(apps@) =~= with_windowless(
                    grouped_windows(windows@),
                    windowless@.take(extra as int + 1),
                ));
            }
        } else {
            proof {
                let ids = processes(app_views(apps@));
                assert(ids.contains(*process));
            }
        }
        extra = extra + 1;
    }
    proof {
        assert(windowless@.take(windowless.len() as int) =~= windowless@);
    }
    order_by_recency(&apps, recent_apps)
}

/// `apps` stably ordered by where their process id first appears in `recent`.
fn order_by_recency(apps: &Vec<AppEntry>, recent: &[u32]) -> (ordered: Vec<AppEntry>)
    ensures
        app_views(ordered@) == by_recency(app_views(apps@), recent@),
{
    let ghost views = app_views(apps@);
    let mut ordered: Vec<AppEntry> = Vec::new();
    let mut place: usize = 0;
    while place < recent.len()
        invariant
            place <= recent.len(),
            views == app_views(apps@),
            app_views(ordered@) == ranked_apps(views, recent@, place as int),
        decreases recent.len() - place,
    {
        let ghost at_place = |app: AppView| recency(recent@, app) == Some(place as int);
        let ghost start = app_views(ordered@);
        let mut index: usize = 0;
        while index < apps.len()
            invariant
                place < recent.len(),
                index <= apps.len(),
                views == app_views(apps@),
                at_place == (|app: AppView| recency(recent@, app) == Some(place as int)),
                app_views(ordered@) == start + views.take(index as int).filter(at_place),
            decreases apps.len() - index,
        {
            let rank = position_of_id(recent, apps[index].process.id);
            proof {
                assert(views[index as int] == apps@[index as int]@);
                assert(at_place(views[index as int]) == (rank == Some(place)));
                views.take(index as int).lemma_filter_push(views[index as int], at_place);
                assert(views.take(index as int + 1) =~= views.take(index as int).push(
                    views[index as int],
                ));
            }
            if rank == Some(place) {
                let ghost prev = app_views(ordered@);
                ordered.push(copy_app(&apps[index]));
                proof {
                    assert(app_views(ordered@) =~= prev.push(views[index as int]));
                    assert(app_views(ordered@) =~= start + views.take(index as int + 1).filter(
                        at_place,
                    ));
                }
            }
            index = index + 1;
        }
        proof {
            assert(views.take(apps.len() as int) =~= views);
            assert(app_views(ordered@) =~= ranked_apps(views, recent@, place as int + 1));
        }
        place = place + 1;
    }
    let ghost unranked = |app: AppView| recency(recent@, app) is None;
    let ghost start = app_views(ordered@);
    let mut index: usize = 0;
    while index < apps.len()
        invariant
            index <= apps.len(),
            views == app_views(apps@),
            unranked == (|app: AppView| recency(recent@, app) is None),
            app_views(ordered@) == start + views.take(index as int).filter(unranked),
        decreases apps.len() - index,
    {
        let rank = position_of_id(recent, apps[index].process.id);
        proof {
            assert(views[index as int] == apps@[index as int]@);
            assert(unranked(views[index as int]) == (rank is None));
            views.take(index as int).lemma_filter_push(views[index as int], unranked);
            assert(views.take(index as int + 1) =~= views.take(index as int).push(
                views[index as int],
            ));
        }
        if rank.is_none() {
            let ghost prev = app_views(ordered@);
            ordered.push(copy_app(&apps[index]));
            proof {
                assert(app_views(ordered@) =~= prev.push(views[index as int]));
                assert(app_views(ordered@) =~= start + views.take(index as int + 1).filter(
                    unranked,
                ));
            }
        }
        index = index + 1;
    }
    proof {
        assert(views.take(apps.len() as int) =~= views);
    }
    ordered
}

/// What switching to the selection or running a command on it acts on.
#[derive(Clone, Copy, Debug, PartialEq, Eq, Structural)]
pub enum Target {
    Window { handle: isize, process: ProcessIdentity },
    /// An app with no open window, or an app-wide command such as Hide or Quit.
    App(ProcessIdentity),
}

impl Target {
    pub open spec fn spec_process(self) -> ProcessIdentity {
        match self {
            Target::Window { process, .. } => process,
            Target::App(process) => process,
        }
    }

    pub fn process(self) -> (process: ProcessIdentity)
        ensures
            process == self.spec_process(),
    {
        match self {
            Self::Window { process, .. } => process,
            Self::App(process) => process,
        }
    }
}

#[derive(Clone, Copy, Debug, PartialEq, Eq, Structural)]
pub enum Action {
    /// Tab, the side arrows, and the backtick: the next (positive) or previous app, wrapping.
    StepApp(i32),
    /// The up and down arrows: the selected app's next or previous window, stopping at the ends.
    StepWindow(i32),
    /// Return, a click, or letting go of the switch modifier.
    Activate,
    /// A number key: the selected app's window at that position, counted from 1, at once.
    ChooseWindow(usize),
    Dismiss,
    Command(WindowCommand),
}

#[derive(Clone, Copy, Debug, PartialEq, Eq, Structural)]
pub enum Effect {
    /// Nothing for the adapter to do.
    Nothing,
    /// The gesture started; the adapter lists the apps and calls `open` with this step.
    Open { step: i32 },
    Hide,
    Redraw,
    Activate(Target),
    Execute { command: WindowCommand, target: Target },
}

/// Commands that concern the whole app rather than one of its windows.
pub open spec fn is_app_command(command: WindowCommand) -> bool {
    command == WindowCommand::Hide || command == WindowCommand::Quit || command
        == WindowCommand::Terminate || command == WindowCommand::Run
}

fn acts_on_app(command: WindowCommand) -> (app: bool)
    ensures
        app == is_app_command(command),
{
    matches!(
        command,
        WindowCommand::Hide | WindowCommand::Quit | WindowCommand::Terminate | WindowCommand::Run
    )
}

/// Where `command` lands for a selection of `target`: app commands on the app, window commands
/// on the window. A window command on an app without windows has nothing to act on.
pub open spec fn command_destination(command: WindowCommand, target: Target) -> Option<Target> {
    if is_app_command(command) {
        Some(Target::App(target.spec_process()))
    } else {
        match target {
            Target::Window { .. } => Some(target),
            Target::App(_) => None,
        }
    }
}

fn command_target(command: WindowCommand, target: Target) -> (destination: Option<Target>)
    ensures
        destination == command_destination(command, target),
{
    if acts_on_app(command) {
        return Some(Target::App(target.process()));
    }
    match target {
        Target::Window { .. } => Some(target),
        Target::App(_) => None,
    }
}

/// The switcher as the contracts speak of it.
pub struct SwitcherModel {
    pub apps: Seq<AppView>,
    pub app: int,
    pub window: int,
    pub active: bool,
    /// The process id of the app in front when the session opened.
    pub frontmost: Option<u32>,
    /// The entry a command menu acts on while it shows.
    pub menu_target: Option<Target>,
}

#[derive(Debug)]
pub struct AppSwitcher {
    apps: Vec<AppEntry>,
    app: usize,
    window: usize,
    active: bool,
    frontmost: Option<u32>,
    // A command menu acts on the entry it opened for, even if the list changes underneath.
    menu_target: Option<Target>,
}

impl View for AppSwitcher {
    type V = SwitcherModel;

    closed spec fn view(&self) -> SwitcherModel {
        SwitcherModel {
            apps: app_views(self.apps@),
            app: self.app as int,
            window: self.window as int,
            active: self.active,
            frontmost: self.frontmost,
            menu_target: self.menu_target,
        }
    }
}

pub open spec fn selected_app_of(m: SwitcherModel) -> Option<AppView> {
    if 0 <= m.app < m.apps.len() {
        Some(m.apps[m.app])
    } else {
        None
    }
}

pub open spec fn selected_window_of(m: SwitcherModel) -> Option<isize> {
    match selected_app_of(m) {
        Some(app) => if 0 <= m.window < app.windows.len() {
            Some(app.windows[m.window])
        } else {
            None
        },
        None => None,
    }
}

/// The selected window, or the selected app when it has none.
pub open spec fn selected_target_of(m: SwitcherModel) -> Option<Target> {
    match selected_app_of(m) {
        Some(app) => if 0 <= m.window < app.windows.len() {
            Some(Target::Window { handle: app.windows[m.window], process: app.process })
        } else {
            Some(Target::App(app.process))
        },
        None => None,
    }
}

/// The window an app starts on: its last-used one, or for the app in front, whose last-used
/// window already has focus, the one before that.
pub open spec fn landing_of(m: SwitcherModel, app: int) -> int {
    if 0 <= app < m.apps.len() && Some(m.apps[app].process.id) == m.frontmost
        && m.apps[app].windows.len() > 1 {
        1
    } else {
        0
    }
}

/// `step` apps on from the selected one, wrapping, landing on the new app's starting window.
pub open spec fn stepped_app(m: SwitcherModel, step: i32) -> SwitcherModel {
    let len = m.apps.len();
    if len == 0 {
        m
    } else {
        let count = if len <= isize::MAX {
            len as int
        } else {
            isize::MAX as int
        };
        let current = if m.app <= isize::MAX {
            m.app
        } else {
            0
        };
        let app = (current + step) % count;
        SwitcherModel { app, window: landing_of(m, app), ..m }
    }
}

/// `step` windows on within the selected app, stopping at the ends; the flag says whether the
/// selection moved.
pub open spec fn stepped_window(m: SwitcherModel, step: i32) -> (SwitcherModel, bool) {
    match selected_app_of(m) {
        Some(app) => if app.windows.len() == 0 {
            (m, false)
        } else {
            let last = if app.windows.len() - 1 <= isize::MAX {
                app.windows.len() - 1
            } else {
                isize::MAX as int
            };
            let current = if m.window <= isize::MAX {
                m.window
            } else {
                0
            };
            let wanted = current + step;
            let next = if wanted < 0 {
                0
            } else if wanted > last {
                last
            } else {
                wanted
            };
            (SwitcherModel { window: next, ..m }, next != m.window)
        },
        None => (m, false),
    }
}

/// A session opened on `apps`, `step` apps away from the app in front.
pub open spec fn opened(
    m: SwitcherModel,
    apps: Seq<AppView>,
    step: Option<i32>,
    frontmost: Option<u32>,
) -> SwitcherModel {
    let listed = frontmost is None || (apps.len() > 0 && apps[0].process.id == frontmost->0);
    let base = SwitcherModel {
        apps,
        frontmost,
        app: 0,
        window: 0,
        menu_target: None,
        active: apps.len() > 0,
    };
    match step {
        Some(step) => if step > 0 && !listed {
            stepped_app(base, (step - 1) as i32)
        } else {
            stepped_app(base, step)
        },
        None => SwitcherModel { window: landing_of(base, 0), ..base },
    }
}

pub open spec fn selected(m: SwitcherModel, app: usize, window: Option<usize>) -> (SwitcherModel, bool) {
    if app >= m.apps.len() {
        (m, false)
    } else {
        let window = match window {
            Some(window) => window as int,
            None => landing_of(m, app as int),
        };
        if window > 0 && window >= m.apps[app as int].windows.len() {
            (m, false)
        } else {
            (SwitcherModel { app: app as int, window, ..m }, m.app != app || m.window != window)
        }
    }
}

pub open spec fn activated(m: SwitcherModel) -> (SwitcherModel, Effect) {
    match selected_target_of(m) {
        Some(target) => (SwitcherModel { active: false, ..m }, Effect::Activate(target)),
        None => (m, Effect::Nothing),
    }
}

/// What `handle` does to the switcher and what it asks the adapter to do.
pub open spec fn handled(m: SwitcherModel, action: Action) -> (SwitcherModel, Effect) {
    if !m.active {
        match action {
            Action::StepApp(step) => (m, Effect::Open { step }),
            _ => (m, Effect::Nothing),
        }
    } else if m.menu_target is Some {
        (m, Effect::Nothing)
    } else {
        match action {
            Action::StepApp(step) => (stepped_app(m, step), Effect::Redraw),
            Action::StepWindow(step) => {
                let (next, moved) = stepped_window(m, step);
                (next, if moved { Effect::Redraw } else { Effect::Nothing })
            },
            Action::Activate => activated(m),
            Action::ChooseWindow(position) => {
                let listed = match selected_app_of(m) {
                    Some(app) => app.windows.len(),
                    None => 0,
                };
                if 1 <= position && position - 1 < listed {
                    activated(SwitcherModel { window: position - 1, ..m })
                } else {
                    (m, Effect::Nothing)
                }
            },
            Action::Dismiss => (
                SwitcherModel { active: false, menu_target: None, ..m },
                Effect::Hide,
            ),
            Action::Command(command) => match selected_target_of(m) {
                Some(target) => match command_destination(command, target) {
                    Some(target) => (m, Effect::Execute { command, target }),
                    None => (m, Effect::Nothing),
                },
                None => (m, Effect::Nothing),
            },
        }
    }
}

impl Default for AppSwitcher {
    fn default() -> (switcher: Self)
        ensures
            switcher@ == (SwitcherModel {
                apps: Seq::empty(),
                app: 0,
                window: 0,
                active: false,
                frontmost: None,
                menu_target: None,
            }),
    {
        let switcher = Self {
            apps: Vec::new(),
            app: 0,
            window: 0,
            active: false,
            frontmost: None,
            menu_target: None,
        };
        proof {
            assert(app_views(switcher.apps@) =~= Seq::empty());
        }
        switcher
    }
}

impl AppSwitcher {
    pub fn is_active(&self) -> (active: bool)
        ensures
            active == self@.active,
    {
        self.active
    }

    pub fn apps(&self) -> (apps: &[AppEntry])
        ensures
            app_views(apps@) == self@.apps,
    {
        self.apps.as_slice()
    }

    /// Starts a session on `apps` and moves `step` apps from the frontmost one. When the
    /// frontmost app is not first in the list (it has nothing to list, or it is the switcher's
    /// own settings), the first app is already one step away from it.
    pub fn open(&mut self, apps: Vec<AppEntry>, step: Option<i32>, frontmost: Option<u32>)
        ensures
            final(self)@ == opened(old(self)@, app_views(apps@), step, frontmost),
    {
        let frontmost_listed = match frontmost {
            None => true,
            Some(id) => apps.len() > 0 && apps[0].process.id == id,
        };
        self.apps = apps;
        self.frontmost = frontmost;
        self.app = 0;
        self.window = 0;
        self.menu_target = None;
        self.active = self.apps.len() > 0;
        match step {
            Some(step) => {
                if step > 0 && !frontmost_listed {
                    self.step_app(step - 1);
                } else {
                    self.step_app(step);
                }
            },
            None => self.window = self.landing(0),
        }
    }

    pub fn hide_switcher(&mut self)
        ensures
            final(self)@ == (SwitcherModel { active: false, menu_target: None, ..old(self)@ }),
    {
        self.active = false;
        self.menu_target = None;
    }

    pub fn selected_app(&self) -> (app: Option<&AppEntry>)
        ensures
            match app {
                Some(app) => selected_app_of(self@) == Some(app@),
                None => selected_app_of(self@) is None,
            },
    {
        if self.app < self.apps.len() {
            Some(&self.apps[self.app])
        } else {
            None
        }
    }

    pub fn selected_app_index(&self) -> (index: Option<usize>)
        ensures
            self@.app >= 0,
            self@.window >= 0,
            (index is Some) == (selected_app_of(self@) is Some),
            index == (if self@.app < self@.apps.len() {
                Some(self@.app as usize)
            } else {
                None::<usize>
            }),
    {
        if self.app < self.apps.len() {
            Some(self.app)
        } else {
            None
        }
    }

    /// The selected window's position in its app's list; None when the app has no window.
    pub fn selected_window_index(&self) -> (index: Option<usize>)
        ensures
            index == (match selected_app_of(self@) {
                Some(app) => if self@.window < app.windows.len() {
                    Some(self@.window as usize)
                } else {
                    None::<usize>
                },
                None => None::<usize>,
            }),
    {
        match self.selected_app() {
            Some(app) => if self.window < app.windows.len() {
                Some(self.window)
            } else {
                None
            },
            None => None,
        }
    }

    pub fn selected_window(&self) -> (window: Option<isize>)
        ensures
            window == selected_window_of(self@),
    {
        match self.selected_app() {
            Some(app) => if self.window < app.windows.len() {
                Some(app.windows[self.window])
            } else {
                None
            },
            None => None,
        }
    }

    /// The selected window, or the selected app when it has none.
    pub fn selected_target(&self) -> (target: Option<Target>)
        ensures
            target == selected_target_of(self@),
            (target is None) == (self@.app >= self@.apps.len()),
    {
        match self.selected_app() {
            Some(app) => if self.window < app.windows.len() {
                Some(Target::Window { handle: app.windows[self.window], process: app.process })
            } else {
                Some(Target::App(app.process))
            },
            None => None,
        }
    }

    /// Selects `app`, and `window` among its windows or its last-used one; true when the
    /// selection moved.
    pub fn select(&mut self, app: usize, window: Option<usize>) -> (moved: bool)
        ensures
            (final(self)@, moved) == selected(old(self)@, app, window),
    {
        if app >= self.apps.len() {
            return false;
        }
        let window = match window {
            Some(window) => window,
            None => self.landing(app),
        };
        if window > 0 && window >= self.apps[app].windows.len() {
            return false;
        }
        let changed = self.app != app || self.window != window;
        self.app = app;
        self.window = window;
        changed
    }

    pub fn handle(&mut self, action: Action) -> (effect: Effect)
        ensures
            (final(self)@, effect) == handled(old(self)@, action),
    {
        if !self.active {
            return match action {
                Action::StepApp(step) => Effect::Open { step },
                _ => Effect::Nothing,
            };
        }
        if self.context_menu_open() {
            return Effect::Nothing;
        }
        match action {
            Action::StepApp(step) => {
                self.step_app(step);
                Effect::Redraw
            },
            Action::StepWindow(step) => {
                if self.step_window(step) {
                    Effect::Redraw
                } else {
                    Effect::Nothing
                }
            },
            Action::Activate => self.activate(),
            Action::ChooseWindow(position) => {
                let listed = match self.selected_app() {
                    Some(app) => app.windows.len(),
                    None => 0,
                };
                if position >= 1 && position - 1 < listed {
                    self.window = position - 1;
                    self.activate()
                } else {
                    Effect::Nothing
                }
            },
            Action::Dismiss => {
                self.hide_switcher();
                Effect::Hide
            },
            Action::Command(command) => match self.selected_target() {
                Some(target) => match command_target(command, target) {
                    Some(target) => Effect::Execute { command, target },
                    None => Effect::Nothing,
                },
                None => Effect::Nothing,
            },
        }
    }

    fn activate(&mut self) -> (effect: Effect)
        ensures
            (final(self)@, effect) == activated(old(self)@),
    {
        match self.selected_target() {
            Some(target) => {
                self.active = false;
                Effect::Activate(target)
            },
            None => Effect::Nothing,
        }
    }

    /// Freezes the selection as the target of a command menu; false when none can open.
    pub fn open_context_menu(&mut self) -> (opened: bool)
        ensures
            if !old(self)@.active || old(self)@.menu_target is Some {
                final(self)@ == old(self)@ && !opened
            } else {
                &&& final(self)@ == (SwitcherModel {
                    menu_target: selected_target_of(old(self)@),
                    ..old(self)@
                })
                &&& opened == selected_target_of(old(self)@) is Some
            },
    {
        if !self.active || self.context_menu_open() {
            return false;
        }
        self.menu_target = self.selected_target();
        self.menu_target.is_some()
    }

    /// Closes the command menu; the chosen command runs on the entry the menu opened for.
    pub fn finish_context_menu(&mut self, command: Option<WindowCommand>) -> (effect: Effect)
        ensures
            final(self)@ == (SwitcherModel { menu_target: None, ..old(self)@ }),
            effect == (match (old(self)@.menu_target, command) {
                (Some(target), Some(command)) => match command_destination(command, target) {
                    Some(target) => Effect::Execute { command, target },
                    None => Effect::Nothing,
                },
                _ => Effect::Nothing,
            }),
    {
        let target = self.menu_target.take();
        match (target, command) {
            (Some(target), Some(command)) => match command_target(command, target) {
                Some(target) => Effect::Execute { command, target },
                None => Effect::Nothing,
            },
            _ => Effect::Nothing,
        }
    }

    pub fn context_menu_open(&self) -> (open: bool)
        ensures
            open == self@.menu_target is Some,
    {
        self.menu_target.is_some()
    }

    fn step_app(&mut self, step: i32)
        ensures
            final(self)@ == stepped_app(old(self)@, step),
    {
        let len = self.apps.len();
        if len == 0 {
            return;
        }
        let count: i128 = if len <= isize::MAX as usize {
            len as i128
        } else {
            isize::MAX as i128
        };
        let current: i128 = if self.app <= isize::MAX as usize {
            self.app as i128
        } else {
            0
        };
        let wrapped = (current + step as i128).checked_rem_euclid(count).unwrap();
        self.app = wrapped as usize;
        self.window = self.landing(self.app);
    }

    /// The window an app starts on: its last-used one, or for the app in front, whose last-used
    /// window already has focus, the one before that.
    fn landing(&self, app: usize) -> (window: usize)
        ensures
            window == landing_of(self@, app as int),
    {
        let in_front = app < self.apps.len() && match self.frontmost {
            Some(id) => self.apps[app].process.id == id,
            None => false,
        } && self.apps[app].windows.len() > 1;
        if in_front {
            1
        } else {
            0
        }
    }

    fn step_window(&mut self, step: i32) -> (moved: bool)
        ensures
            (final(self)@, moved) == stepped_window(old(self)@, step),
    {
        let count = match self.selected_app() {
            Some(app) => app.windows.len(),
            None => return false,
        };
        if count == 0 {
            return false;
        }
        let last: i128 = if count - 1 <= isize::MAX as usize {
            (count - 1) as i128
        } else {
            isize::MAX as i128
        };
        let current: i128 = if self.window <= isize::MAX as usize {
            self.window as i128
        } else {
            0
        };
        let wanted = current + step as i128;
        let next: i128 = if wanted < 0 {
            0
        } else if wanted > last {
            last
        } else {
            wanted
        };
        let next = next as usize;
        let changed = next != self.window;
        self.window = next;
        changed
    }
}

/// The selected app and window of a switcher are places in its lists, never negative: so the
/// switcher has a selected app exactly where its place is below the number of apps, and
/// `selected_app_index`, `selected_app` and `selected_target` agree.
pub proof fn lemma_selection_is_never_negative(switcher: AppSwitcher)
    ensures
        switcher@.app >= 0,
        switcher@.window >= 0,
        (selected_app_of(switcher@) is Some) == (switcher@.app < switcher@.apps.len()),
        (selected_target_of(switcher@) is Some) == (switcher@.app < switcher@.apps.len()),
{
}

/// The first `count` places of `previous`, each with the windows that are there.
pub open spec fn ranked_windows(windows: Seq<isize>, previous: Seq<isize>, count: int) -> Seq<isize>
    decreases count,
{
    if count <= 0 {
        Seq::empty()
    } else {
        ranked_windows(windows, previous, count - 1) + windows.filter(
            |window: isize| previous.index_of_first(window) == Some(count - 1),
        )
    }
}

/// `windows` stably ordered by where `previous` had them; windows it did not have come last,
/// in their own order.
pub open spec fn reordered(windows: Seq<isize>, previous: Seq<isize>) -> Seq<isize> {
    ranked_windows(windows, previous, previous.len() as int) + windows.filter(
        |window: isize| previous.index_of_first(window) is None,
    )
}

/// Merges a fresh listing into the apps a session opened with, from place `next` of
/// `previous` on: apps keep their places, gone ones drop out, new ones join the end.
pub open spec fn merged_from(
    merged: Seq<AppView>,
    fresh: Seq<AppView>,
    previous: Seq<AppView>,
    next: int,
) -> Seq<AppView>
    decreases previous.len() - next,
{
    if next < 0 || next >= previous.len() {
        merged + fresh
    } else {
        match processes(fresh).index_of_first(previous[next].process) {
            Some(index) => merged_from(
                merged.push(
                    AppView {
                        windows: reordered(fresh[index].windows, previous[next].windows),
                        ..fresh[index]
                    },
                ),
                fresh.remove(index),
                previous,
                next + 1,
            ),
            None => merged_from(merged, fresh, previous, next + 1),
        }
    }
}

/// What `refresh` makes of a session given a fresh listing.
pub open spec fn refreshed(m: SwitcherModel, apps: Seq<AppView>) -> SwitcherModel {
    let merged = merged_from(Seq::empty(), apps, m.apps, 0);
    if merged.len() == 0 {
        SwitcherModel { apps: merged, active: false, ..m }
    } else {
        let found = match selected_app_of(m) {
            Some(app) => processes(merged).index_of_first(app.process),
            None => None,
        };
        match found {
            Some(index) => {
                let windows = merged[index].windows;
                let wanted = match selected_window_of(m) {
                    Some(handle) => match windows.index_of_first(handle) {
                        Some(position) => position,
                        None => m.window,
                    },
                    None => m.window,
                };
                let last = if windows.len() == 0 {
                    0
                } else {
                    windows.len() - 1
                };
                SwitcherModel {
                    apps: merged,
                    app: index,
                    window: if wanted < last {
                        wanted
                    } else {
                        last
                    },
                    ..m
                }
            },
            None => SwitcherModel {
                apps: merged,
                app: if m.app < merged.len() - 1 {
                    m.app
                } else {
                    merged.len() - 1
                },
                window: 0,
                ..m
            },
        }
    }
}

/// `windows` stably ordered by where `previous` had them.
fn reorder_windows(windows: &Vec<isize>, previous: &Vec<isize>) -> (ordered: Vec<isize>)
    ensures
        ordered@ == reordered(windows@, previous@),
{
    let mut ordered: Vec<isize> = Vec::new();
    let mut place: usize = 0;
    while place < previous.len()
        invariant
            place <= previous.len(),
            ordered@ == ranked_windows(windows@, previous@, place as int),
        decreases previous.len() - place,
    {
        let ghost at_place = |window: isize| previous@.index_of_first(window) == Some(
            place as int,
        );
        let ghost start = ordered@;
        let mut index: usize = 0;
        while index < windows.len()
            invariant
                place < previous.len(),
                index <= windows.len(),
                at_place == (|window: isize| previous@.index_of_first(window) == Some(place as int)),
                ordered@ == start + windows@.take(index as int).filter(at_place),
            decreases windows.len() - index,
        {
            let window = windows[index];
            let rank = position_of_window(previous.as_slice(), window);
            proof {
                assert(at_place(window) == (rank == Some(place)));
                windows@.take(index as int).lemma_filter_push(window, at_place);
                assert(windows@.take(index as int + 1) =~= windows@.take(index as int).push(window));
            }
            if rank == Some(place) {
                ordered.push(window);
            }
            proof {
                assert(ordered@ =~= start + windows@.take(index as int + 1).filter(at_place));
            }
            index = index + 1;
        }
        proof {
            assert(windows@.take(windows.len() as int) =~= windows@);
        }
        place = place + 1;
    }
    let ghost unknown = |window: isize| previous@.index_of_first(window) is None;
    let ghost start = ordered@;
    let mut index: usize = 0;
    while index < windows.len()
        invariant
            index <= windows.len(),
            unknown == (|window: isize| previous@.index_of_first(window) is None),
            ordered@ == start + windows@.take(index as int).filter(unknown),
        decreases windows.len() - index,
    {
        let window = windows[index];
        let rank = position_of_window(previous.as_slice(), window);
        proof {
            assert(unknown(window) == (rank is None));
            windows@.take(index as int).lemma_filter_push(window, unknown);
            assert(windows@.take(index as int + 1) =~= windows@.take(index as int).push(window));
        }
        if rank.is_none() {
            ordered.push(window);
        }
        proof {
            assert(ordered@ =~= start + windows@.take(index as int + 1).filter(unknown));
        }
        index = index + 1;
    }
    proof {
        assert(windows@.take(windows.len() as int) =~= windows@);
    }
    ordered
}

impl AppSwitcher {
    /// Takes a fresh listing while the session shows. Apps and windows keep the places they had
    /// when it opened; gone ones drop out, new ones join the end.
    pub fn refresh(&mut self, apps: Vec<AppEntry>)
        ensures
            final(self)@ == refreshed(old(self)@, app_views(apps@)),
    {
        let selected_process = match self.selected_app() {
            Some(app) => Some(app.process),
            None => None,
        };
        let selected_window = self.selected_window();
        let ghost previous = self@.apps;
        let ghost target = merged_from(Seq::empty(), app_views(apps@), previous, 0);
        let mut fresh = apps;
        let mut merged: Vec<AppEntry> = Vec::new();
        proof {
            assert(app_views(merged@) =~= Seq::<AppView>::empty());
        }
        let mut next: usize = 0;
        while next < self.apps.len()
            invariant
                next <= self.apps.len(),
                previous == app_views(self.apps@),
                merged_from(app_views(merged@), app_views(fresh@), previous, next as int) == target,
            decreases self.apps.len() - next,
        {
            let position = position_of_process(&fresh, self.apps[next].process);
            proof {
                crate::seq_util::lemma_index_of_first_facts(
                    processes(app_views(fresh@)),
                    self.apps@[next as int].process,
                );
            }
            match position {
                Some(index) => {
                    let ghost before_fresh = app_views(fresh@);
                    let ghost before_merged = app_views(merged@);
                    let mut app = fresh.remove(index);
                    app.windows = reorder_windows(&app.windows, &self.apps[next].windows);
                    merged.push(app);
                    proof {
                        assert(app_views(fresh@) =~= before_fresh.remove(index as int));
                        assert(app_views(merged@) =~= before_merged.push(
                            AppView {
                                windows: reordered(
                                    before_fresh[index as int].windows,
                                    previous[next as int].windows,
                                ),
                                ..before_fresh[index as int]
                            },
                        ));
                    }
                },
                None => {},
            }
            next = next + 1;
        }
        let ghost before_merged = app_views(merged@);
        let ghost before_fresh = app_views(fresh@);
        merged.append(&mut fresh);
        proof {
            assert(app_views(merged@) =~= before_merged + before_fresh);
        }
        self.apps = merged;
        if self.apps.len() == 0 {
            self.active = false;
            return;
        }
        let found = match selected_process {
            Some(process) => position_of_process(&self.apps, process),
            None => None,
        };
        match found {
            Some(index) => {
                proof {
                    crate::seq_util::lemma_index_of_first_facts(
                        processes(app_views(self.apps@)),
                        selected_process->0,
                    );
                }
                self.app = index;
                let count = self.apps[index].windows.len();
                let wanted = match selected_window {
                    Some(handle) => match position_of_window(
                        self.apps[index].windows.as_slice(),
                        handle,
                    ) {
                        Some(position) => position,
                        None => self.window,
                    },
                    None => self.window,
                };
                let last = if count == 0 {
                    0
                } else {
                    count - 1
                };
                self.window = if wanted < last {
                    wanted
                } else {
                    last
                };
            },
            None => {
                let last = self.apps.len() - 1;
                self.app = if self.app < last {
                    self.app
                } else {
                    last
                };
                self.window = 0;
            },
        }
    }
}


/// A session whose selection stands on one of its apps, and on one of that app's windows or on
/// the first place of a windowless app.
pub open spec fn selection_in_range(m: SwitcherModel) -> bool {
    &&& 0 <= m.app
    &&& 0 <= m.window
    &&& m.active ==> {
        &&& m.app < m.apps.len()
        &&& (m.window == 0 || m.window < m.apps[m.app].windows.len())
    }
}

/// Opening, every action, a context menu's command and a refresh all leave the selection on an
/// app of the session and on one of its windows.
pub proof fn law_selection_stays_in_range(
    m: SwitcherModel,
    action: Action,
    apps: Seq<AppView>,
    step: Option<i32>,
    frontmost: Option<u32>,
)
    requires
        selection_in_range(m),
    ensures
        selection_in_range(opened(m, apps, step, frontmost)),
        selection_in_range(handled(m, action).0),
        selection_in_range(refreshed(m, apps)),
{
    let merged = merged_from(Seq::empty(), apps, m.apps, 0);
    if merged.len() > 0 {
        if let Some(app) = selected_app_of(m) {
            crate::seq_util::lemma_index_of_first_facts(processes(merged), app.process);
            if let Some(index) = processes(merged).index_of_first(app.process) {
                if let Some(handle) = selected_window_of(m) {
                    crate::seq_util::lemma_index_of_first_facts(merged[index].windows, handle);
                }
            }
        }
    }
}

/// Stepping `step` apps on and then `step` back returns to the app the selection started on.
pub proof fn law_stepping_back_returns(m: SwitcherModel, step: i32)
    requires
        0 <= m.app < m.apps.len(),
        m.apps.len() <= isize::MAX,
        step != i32::MIN,
    ensures
        stepped_app(stepped_app(m, step), (-step) as i32).app == m.app,
{
    let count = m.apps.len() as int;
    let there = (m.app + step) % count;
    vstd::arithmetic::div_mod::lemma_add_mod_noop(m.app + step, -step, count);
    vstd::arithmetic::div_mod::lemma_mod_twice(m.app + step, count);
    vstd::arithmetic::div_mod::lemma_small_mod(m.app as nat, count as nat);
    vstd::arithmetic::div_mod::lemma_add_mod_noop(there, -step, count);
    vstd::arithmetic::div_mod::lemma_mod_twice(-step, count);
    vstd::arithmetic::div_mod::lemma_mod_bound(m.app + step, count);
}

/// Letting go switches to the selection: the window, or the app where it has none, and the
/// session ends.
pub proof fn law_activation_switches_to_the_selection(m: SwitcherModel)
    requires
        m.active,
        m.menu_target is None,
        selected_target_of(m) is Some,
    ensures
        handled(m, Action::Activate).1 == Effect::Activate(selected_target_of(m)->0),
        !handled(m, Action::Activate).0.active,
{
}

/// With no session showing, only a step opens one; everything else is ignored and leaves the
/// switcher as it was.
pub proof fn law_closed_switcher_only_opens(m: SwitcherModel, action: Action)
    requires
        !m.active,
    ensures
        handled(m, action).0 == m,
        handled(m, action).1 == match action {
            Action::StepApp(step) => Effect::Open { step },
            _ => Effect::Nothing,
        },
{
}

/// The app in front starts on the window before its focused one, where it has another; every
/// other app starts on its last-used window.
pub proof fn law_front_app_skips_its_focused_window(m: SwitcherModel, app: int)
    requires
        0 <= app < m.apps.len(),
    ensures
        landing_of(m, app) == 1 <==> (Some(m.apps[app].process.id) == m.frontmost
            && m.apps[app].windows.len() > 1),
        landing_of(m, app) == 0 || landing_of(m, app) < m.apps[app].windows.len(),
{
}

/// A refresh keeps the selected app selected while it is still listed, and on it the selected
/// window while that is still listed; the session stays open while any app is listed, and the
/// menu and the app in front are kept.
pub proof fn law_refresh_keeps_the_selected_app(m: SwitcherModel, apps: Seq<AppView>)
    requires
        selected_app_of(m) is Some,
        processes(merged_from(Seq::empty(), apps, m.apps, 0)).contains(
            selected_app_of(m)->0.process,
        ),
    ensures
        selected_app_of(refreshed(m, apps)) is Some,
        selected_app_of(refreshed(m, apps))->0.process == selected_app_of(m)->0.process,
        selected_window_of(m) is Some && selected_app_of(refreshed(m, apps))->0.windows.contains(
            selected_window_of(m)->0,
        ) ==> selected_window_of(refreshed(m, apps)) == selected_window_of(m),
        refreshed(m, apps).active == m.active,
        refreshed(m, apps).menu_target == m.menu_target,
        refreshed(m, apps).frontmost == m.frontmost,
{
    let merged = merged_from(Seq::empty(), apps, m.apps, 0);
    let process = selected_app_of(m)->0.process;
    crate::seq_util::lemma_index_of_first_facts(processes(merged), process);
    if let Some(handle) = selected_window_of(m) {
        let index = processes(merged).index_of_first(process)->0;
        crate::seq_util::lemma_index_of_first_facts(merged[index].windows, handle);
    }
}

/// A refresh that drops the selected app, leaving some apps, keeps the selection's place: the
/// app now at that place is selected, or the last app where the list got shorter than the place,
/// on its first window.
pub proof fn law_refresh_keeps_the_place_of_a_dropped_app(m: SwitcherModel, apps: Seq<AppView>)
    requires
        merged_from(Seq::empty(), apps, m.apps, 0).len() > 0,
        selected_app_of(m) is None || !processes(merged_from(Seq::empty(), apps, m.apps, 0)).contains(
            selected_app_of(m)->0.process,
        ),
    ensures
        ({
            let merged = merged_from(Seq::empty(), apps, m.apps, 0);
            let after = refreshed(m, apps);
            &&& after.apps == merged
            &&& after.app == if m.app <= merged.len() - 1 {
                m.app
            } else {
                merged.len() - 1
            }
            &&& after.window == 0
            &&& after.active == m.active
            &&& after.menu_target == m.menu_target
        }),
{
    let merged = merged_from(Seq::empty(), apps, m.apps, 0);
    if let Some(app) = selected_app_of(m) {
        crate::seq_util::lemma_index_of_first_facts(processes(merged), app.process);
        if processes(merged).index_of_first(app.process) is Some {
            let i = processes(merged).index_of_first(app.process)->0;
            assert(processes(merged)[i] == app.process);
        }
    }
}

/// Noting a focused window puts it first in the history, once, ahead of the listed windows the
/// history keeps.
pub proof fn law_focus_moves_to_the_front(history: Seq<isize>, focused: isize, listed: Seq<isize>)
    ensures
        noted_history(history, Some(focused), listed)[0] == focused,
        forall|i: int|
            0 < i < noted_history(history, Some(focused), listed).len() ==> {
                &&& #[trigger] noted_history(history, Some(focused), listed)[i] != focused
                &&& listed.contains(noted_history(history, Some(focused), listed)[i])
            },
{
    let base = if history.len() == 0 {
        listed
    } else {
        history
    };
    let kept = base.filter(|window: isize| listed.contains(window));
    let rest = kept.filter(|window: isize| window != focused);
    let noted = seq![focused] + rest;
    assert(noted_history(history, Some(focused), listed) == noted);
    assert forall|i: int| 0 < i < noted.len() implies {
        &&& #[trigger] noted[i] != focused
        &&& listed.contains(noted[i])
    } by {
        let x = rest[i - 1];
        assert(noted[i] == x);
        kept.lemma_filter_pred(|window: isize| window != focused, i - 1);
        assert(rest.contains(x));
        kept.lemma_filter_contains_rev(|window: isize| window != focused, x);
        let j = choose|j: int| 0 <= j < kept.len() && kept[j] == x;
        base.lemma_filter_pred(|window: isize| listed.contains(window), j);
    }
}


proof fn lemma_filter_holds(items: Seq<isize>, keep: spec_fn(isize) -> bool, window: isize)
    ensures
        items.filter(keep).contains(window) == (items.contains(window) && keep(window)),
{
    if items.filter(keep).contains(window) {
        items.lemma_filter_contains_rev(keep, window);
        let i = choose|i: int| 0 <= i < items.filter(keep).len() && items.filter(keep)[i] == window;
        items.lemma_filter_pred(keep, i);
    }
    if items.contains(window) && keep(window) {
        let i = choose|i: int| 0 <= i < items.len() && items[i] == window;
        items.lemma_filter_contains(keep, i);
    }
}

/// What noting keeps: the history then holds the focused window and the listed windows it
/// already knew, or every listed window where it was empty, and nothing else. A listed window
/// the history never saw is not added to a history that has begun, and a window no longer
/// listed is forgotten.
pub proof fn law_noted_windows(
    history: Seq<isize>,
    focused: Option<isize>,
    listed: Seq<isize>,
    window: isize,
)
    ensures
        noted_history(history, focused, listed).contains(window) == (focused == Some(window) || (
        listed.contains(window) && (history.len() == 0 || history.contains(window)))),
{
    let base = if history.len() == 0 {
        listed
    } else {
        history
    };
    let listed_here = |candidate: isize| listed.contains(candidate);
    let kept = base.filter(listed_here);
    lemma_filter_holds(base, listed_here, window);
    match focused {
        Some(front) => {
            let others = |candidate: isize| candidate != front;
            let rest = kept.filter(others);
            lemma_filter_holds(kept, others, window);
            let noted = seq![front] + rest;
            assert(noted_history(history, focused, listed) == noted);
            if window == front {
                assert(noted[0] == window);
            } else if noted.contains(window) {
                let i = choose|i: int| 0 <= i < noted.len() && noted[i] == window;
                assert(rest[i - 1] == window);
            } else if rest.contains(window) {
                let i = choose|i: int| 0 <= i < rest.len() && rest[i] == window;
                assert(noted[i + 1] == window);
            }
        },
        None => {},
    }
}


/// Opening a session shows `apps` with no menu open, and is active while there is an app to
/// show. With a `step` it selects the app that many places on from the app in front, wrapping,
/// the first app being one place on where the frontmost app is not first in the list; without
/// one it selects the first app. The selected app lands on its last-used window, or on the one
/// before for the app in front when that has more than one.
pub proof fn law_open_selects(
    m: SwitcherModel,
    apps: Seq<AppView>,
    step: Option<i32>,
    frontmost: Option<u32>,
)
    requires
        apps.len() <= isize::MAX,
    ensures
        ({
            let after = opened(m, apps, step, frontmost);
            let count = apps.len() as int;
            let behind = match step {
                Some(s) => s > 0 && frontmost is Some && count > 0 && apps[0].process.id
                    != frontmost->0,
                None => false,
            };
            let app = match step {
                Some(s) => if behind {
                    (s as int - 1) % count
                } else {
                    (s as int) % count
                },
                None => 0int,
            };
            &&& after.apps == apps
            &&& after.frontmost == frontmost
            &&& after.menu_target is None
            &&& after.active == (count > 0)
            &&& count > 0 ==> after.app == app && 0 <= app < count && after.window == (if Some(
                apps[app].process.id,
            ) == frontmost && apps[app].windows.len() > 1 {
                1int
            } else {
                0int
            })
        }),
{
}

/// The processes of `items` that `other` lists, where `listed`, or does not list, where not,
/// in the order of `items`.
pub open spec fn sorted_out(
    items: Seq<ProcessIdentity>,
    other: Seq<ProcessIdentity>,
    listed: bool,
) -> Seq<ProcessIdentity>
    decreases items.len(),
{
    if items.len() == 0 {
        items
    } else {
        let rest = sorted_out(items.drop_first(), other, listed);
        if other.contains(items[0]) == listed {
            seq![items[0]] + rest
        } else {
            rest
        }
    }
}

proof fn lemma_sorted_out_agree(
    items: Seq<ProcessIdentity>,
    a: Seq<ProcessIdentity>,
    b: Seq<ProcessIdentity>,
    listed: bool,
)
    requires
        forall|i: int| 0 <= i < items.len() ==> a.contains(#[trigger] items[i]) == b.contains(items[i]),
    ensures
        sorted_out(items, a, listed) == sorted_out(items, b, listed),
    decreases items.len(),
{
    if items.len() > 0 {
        assert(a.contains(items[0]) == b.contains(items[0]));
        assert forall|i: int| 0 <= i < items.drop_first().len() implies a.contains(
            #[trigger] items.drop_first()[i],
        ) == b.contains(items.drop_first()[i]) by {
            assert(items.drop_first()[i] == items[i + 1]);
        }
        lemma_sorted_out_agree(items.drop_first(), a, b, listed);
    }
}

proof fn lemma_sorted_out_unlisted(items: Seq<ProcessIdentity>)
    ensures
        sorted_out(items, Seq::empty(), false) == items,
    decreases items.len(),
{
    if items.len() > 0 {
        lemma_sorted_out_unlisted(items.drop_first());
        assert(seq![items[0]] + items.drop_first() =~= items);
    }
}

proof fn lemma_sorted_out_remove(items: Seq<ProcessIdentity>, other: Seq<ProcessIdentity>, k: int)
    requires
        0 <= k < items.len(),
        other.contains(items[k]),
    ensures
        sorted_out(items, other, false) == sorted_out(items.remove(k), other, false),
    decreases items.len(),
{
    if k == 0 {
        assert(items.remove(0) =~= items.drop_first());
    } else {
        let shorter = items.remove(k);
        assert(shorter.drop_first() =~= items.drop_first().remove(k - 1));
        assert(shorter[0] == items[0]);
        assert(items.drop_first()[k - 1] == items[k]);
        lemma_sorted_out_remove(items.drop_first(), other, k - 1);
    }
}

proof fn lemma_merge_processes(
    merged: Seq<AppView>,
    fresh: Seq<AppView>,
    previous: Seq<AppView>,
    next: int,
)
    requires
        0 <= next <= previous.len(),
        processes(fresh).no_duplicates(),
        processes(previous).no_duplicates(),
    ensures
        processes(merged_from(merged, fresh, previous, next)) == processes(merged) + sorted_out(
            processes(previous).skip(next),
            processes(fresh),
            true,
        ) + sorted_out(processes(fresh), processes(previous).skip(next), false),
    decreases previous.len() - next,
{
    let all = processes(previous);
    let later = all.skip(next);
    let listed = processes(fresh);
    if next == previous.len() {
        assert(later =~= Seq::<ProcessIdentity>::empty());
        lemma_sorted_out_unlisted(listed);
        assert(processes(merged + fresh) =~= processes(merged) + listed);
    } else {
        let process = all[next];
        let after = all.skip(next + 1);
        assert(later[0] == process);
        assert(later.drop_first() =~= after);
        assert(previous[next].process == process);
        crate::seq_util::lemma_index_of_first_facts(listed, process);
        assert forall|i: int| 0 <= i < after.len() implies #[trigger] after[i] != process by {
            assert(after[i] == all[next + 1 + i]);
        }
        assert forall|i: int| 0 <= i < listed.len() && listed[i] != process implies later.contains(
            #[trigger] listed[i],
        ) == after.contains(listed[i]) by {
            if later.contains(listed[i]) {
                let j = choose|j: int| 0 <= j < later.len() && later[j] == listed[i];
                assert(j > 0);
                assert(after[j - 1] == listed[i]);
            }
            if after.contains(listed[i]) {
                let j = choose|j: int| 0 <= j < after.len() && after[j] == listed[i];
                assert(later[j + 1] == listed[i]);
            }
        }
        match listed.index_of_first(process) {
            Some(k) => {
                let app = AppView {
                    windows: reordered(fresh[k].windows, previous[next].windows),
                    ..fresh[k]
                };
                let remaining = fresh.remove(k);
                let listed_after = processes(remaining);
                assert(listed_after =~= listed.remove(k));
                assert(listed.contains(process));
                assert(listed_after.no_duplicates()) by {
                    assert forall|i: int, j: int|
                        0 <= i < listed_after.len() && 0 <= j < listed_after.len() && i != j implies listed_after[i]
                        != listed_after[j] by {
                        let a = if i < k { i } else { i + 1 };
                        let b = if j < k { j } else { j + 1 };
                        assert(listed_after[i] == listed[a]);
                        assert(listed_after[j] == listed[b]);
                    }
                }
                lemma_merge_processes(merged.push(app), remaining, previous, next + 1);
                assert(processes(merged.push(app)) =~= processes(merged).push(process));
                assert forall|i: int| 0 <= i < after.len() implies listed_after.contains(
                    #[trigger] after[i],
                ) == listed.contains(after[i]) by {
                    let q = after[i];
                    if listed.contains(q) {
                        let j = choose|j: int| 0 <= j < listed.len() && listed[j] == q;
                        assert(j != k);
                        let t = if j < k { j } else { j - 1 };
                        assert(listed_after[t] == q);
                    }
                    if listed_after.contains(q) {
                        let j = choose|j: int| 0 <= j < listed_after.len() && listed_after[j] == q;
                        let t = if j < k { j } else { j + 1 };
                        assert(listed[t] == q);
                    }
                }
                lemma_sorted_out_agree(after, listed_after, listed, true);
                lemma_sorted_out_remove(listed, later, k);
                assert forall|i: int| 0 <= i < listed_after.len() implies later.contains(
                    #[trigger] listed_after[i],
                ) == after.contains(listed_after[i]) by {
                    let t = if i < k { i } else { i + 1 };
                    assert(listed_after[i] == listed[t]);
                    assert(listed[t] != process);
                }
                lemma_sorted_out_agree(listed_after, later, after, false);
                assert(sorted_out(later, listed, true) == seq![process] + sorted_out(
                    after,
                    listed,
                    true,
                ));
                assert(processes(merged).push(process) + sorted_out(after, listed, true)
                    =~= processes(merged) + (seq![process] + sorted_out(after, listed, true)));
            },
            None => {
                assert(!listed.contains(process));
                lemma_merge_processes(merged, fresh, previous, next + 1);
                assert(sorted_out(later, listed, true) == sorted_out(after, listed, true));
                lemma_sorted_out_agree(listed, later, after, false);
            },
        }
    }
}

/// A refresh keeps the apps that are still listed in the order the session had them, drops the
/// apps that are gone, and adds the newly listed apps after them in the order they are listed,
/// where neither list names a process twice.
pub proof fn law_refresh_merges_in_order(m: SwitcherModel, apps: Seq<AppView>)
    requires
        processes(apps).no_duplicates(),
        processes(m.apps).no_duplicates(),
    ensures
        processes(refreshed(m, apps).apps) == sorted_out(processes(m.apps), processes(apps), true)
            + sorted_out(processes(apps), processes(m.apps), false),
{
    lemma_merge_processes(Seq::empty(), apps, m.apps, 0);
    assert(processes(m.apps).skip(0) =~= processes(m.apps));
    assert(processes(Seq::<AppView>::empty()) =~= Seq::<ProcessIdentity>::empty());
    assert(Seq::<ProcessIdentity>::empty() + sorted_out(processes(m.apps), processes(apps), true)
        =~= sorted_out(processes(m.apps), processes(apps), true));
}

/// What each action does to a session that shows with no menu open and an app selected:
/// stepping apps moves that many places, wrapping, onto the new app's starting window, and
/// redraws; stepping windows moves within the selected app's windows, stopping at the first and
/// the last, and redraws only where the selection moved; a number switches to the window at that
/// position, counted from 1, and ends the session; Escape hides the switcher and ends it; Hide,
/// Quit, Force Quit and Run act on the selected app, the other commands on the selected window
/// and on nothing where the app has none.
pub proof fn law_open_session_actions(m: SwitcherModel, step: i32, position: usize, command: WindowCommand)
    requires
        m.active,
        m.menu_target is None,
        0 <= m.app < m.apps.len(),
        m.apps.len() <= isize::MAX,
        m.apps[m.app].windows.len() <= isize::MAX,
        0 <= m.window <= isize::MAX,
    ensures
        handled(m, Action::Dismiss) == (SwitcherModel { active: false, menu_target: None, ..m }, Effect::Hide),
        ({
            let (after, effect) = handled(m, Action::StepApp(step));
            let app = (m.app + step) % (m.apps.len() as int);
            &&& effect == Effect::Redraw
            &&& after.app == app
            &&& after.window == if Some(m.apps[app].process.id) == m.frontmost
                && m.apps[app].windows.len() > 1 {
                1int
            } else {
                0int
            }
            &&& after.apps == m.apps && after.active
        }),
        ({
            let (after, effect) = handled(m, Action::StepWindow(step));
            let count = m.apps[m.app].windows.len() as int;
            let wanted = m.window + step;
            let next = if wanted < 0 {
                0
            } else if wanted > count - 1 {
                count - 1
            } else {
                wanted
            };
            &&& count == 0 ==> after == m && effect == Effect::Nothing
            &&& count > 0 ==> after == (SwitcherModel { window: next, ..m }) && effect == if next
                != m.window {
                Effect::Redraw
            } else {
                Effect::Nothing
            }
        }),
        ({
            let (after, effect) = handled(m, Action::ChooseWindow(position));
            let app = m.apps[m.app];
            &&& 1 <= position <= app.windows.len() ==> effect == Effect::Activate(
                Target::Window { handle: app.windows[position - 1], process: app.process },
            ) && !after.active
            &&& !(1 <= position <= app.windows.len()) ==> after == m && effect == Effect::Nothing
        }),
        ({
            let (after, effect) = handled(m, Action::Command(command));
            let app = m.apps[m.app];
            &&& after == m
            &&& (command == WindowCommand::Hide || command == WindowCommand::Quit || command
                == WindowCommand::Terminate || command == WindowCommand::Run) ==> effect
                == Effect::Execute { command, target: Target::App(app.process) }
            &&& !(command == WindowCommand::Hide || command == WindowCommand::Quit || command
                == WindowCommand::Terminate || command == WindowCommand::Run) ==> effect == if m.window
                < app.windows.len() {
                Effect::Execute {
                    command,
                    target: Target::Window { handle: app.windows[m.window], process: app.process },
                }
            } else {
                Effect::Nothing
            }
        }),
{
}

} // verus!
