//! The physical screens, each with its own workspaces.

use vstd::prelude::*;
use crate::action::Action;
use crate::area::Area;
use crate::client::Client;
use crate::config::Padding;
use crate::layout::plan;
use crate::workspaces::{
    lemma_inserted, lemma_located, lemma_position, lemma_resized, lemma_with_state, lemma_without,
    position, WorkspaceSet, Workspaces,
};

verus! {

/// The mathematical model of one monitor.
pub struct MonitorView {
    /// The part of the screen that the monitor shows.
    pub area: Area,
    /// Its workspaces.
    pub workspace: WorkspaceSet,
}

/// Every monitor's workspaces are well-formed, and no window id stands on
/// two monitors. So no window id appears twice anywhere.
pub open spec fn wf(monitors: Seq<MonitorView>) -> bool {
    &&& forall|m: int| 0 <= m < monitors.len() ==> (#[trigger] monitors[m]).workspace.wf()
    &&& forall|m: int, n: int, wid: u32|
        0 <= m < monitors.len() && 0 <= n < monitors.len() && m != n ==> !(
        #[trigger] monitors[m].workspace.tracks(wid) && #[trigger] monitors[n].workspace.tracks(wid))
}

/// Whether some workspace of some monitor holds the window.
pub open spec fn known(monitors: Seq<MonitorView>, wid: u32) -> bool {
    exists|m: int| 0 <= m < monitors.len() && #[trigger] monitors[m].workspace.tracks(wid)
}

/// No monitor shows the window as a floating client on its current
/// workspace.
pub open spec fn tiled(monitors: Seq<MonitorView>, wid: u32) -> bool {
    forall|m: int| 0 <= m < monitors.len() ==> !(#[trigger] monitors[m]).workspace.floats(wid)
}

/// The monitors among the first `upto` whose area holds the point, in order.
pub open spec fn focused_upto(monitors: Seq<MonitorView>, x: u16, y: u16, upto: int) -> Seq<usize>
    decreases upto,
{
    if upto <= 0 {
        Seq::empty()
    } else if monitors[upto - 1].area.covers(x as int, y as int) {
        focused_upto(monitors, x, y, upto - 1).push((upto - 1) as usize)
    } else {
        focused_upto(monitors, x, y, upto - 1)
    }
}

/// The monitors whose area holds the point, in order.
pub open spec fn focused_at(monitors: Seq<MonitorView>, x: u16, y: u16) -> Seq<usize> {
    focused_upto(monitors, x, y, monitors.len() as int)
}

/// Where the window stands on the first `upto` monitors: the first monitor
/// that has it, and the workspace and position there.
pub open spec fn found_upto(monitors: Seq<MonitorView>, wid: u32, upto: int) -> Option<
    (int, int, int),
>
    decreases upto,
{
    if upto <= 0 {
        None
    } else {
        match found_upto(monitors, wid, upto - 1) {
            Some(place) => Some(place),
            None => match monitors[upto - 1].workspace.located(wid) {
                Some(place) => Some((upto - 1, place.0, place.1)),
                None => None,
            },
        }
    }
}

/// Where the window stands: the first monitor that has it, and the
/// workspace and position there.
pub open spec fn found(monitors: Seq<MonitorView>, wid: u32) -> Option<(int, int, int)> {
    found_upto(monitors, wid, monitors.len() as int)
}

/// The monitors with the workspaces of monitor `m` replaced.
pub open spec fn with_workspace(monitors: Seq<MonitorView>, m: int, workspace: WorkspaceSet) -> Seq<
    MonitorView,
> {
    monitors.update(m, MonitorView { area: monitors[m].area, workspace })
}

/// The monitors without the window, taken from the place where `found`
/// finds it.
pub open spec fn extracted(monitors: Seq<MonitorView>, wid: u32) -> Seq<MonitorView> {
    match found(monitors, wid) {
        Some(place) => with_workspace(
            monitors,
            place.0,
            monitors[place.0].workspace.without(place.1, place.2),
        ),
        None => monitors,
    }
}

/// The monitors with every set of workspaces brought to `size` workspaces.
pub open spec fn resized(monitors: Seq<MonitorView>, size: int) -> Seq<MonitorView> {
    Seq::new(
        monitors.len(),
        |m: int| MonitorView { area: monitors[m].area, workspace: monitors[m].workspace.resized(size) },
    )
}

/// The monitors after a switch to workspace number `value` on every monitor
/// whose area holds the point.
pub open spec fn switched_at(monitors: Seq<MonitorView>, x: u16, y: u16, value: u32) -> Seq<
    MonitorView,
> {
    Seq::new(
        monitors.len(),
        |m: int|
            if monitors[m].area.covers(x as int, y as int) {
                MonitorView {
                    area: monitors[m].area,
                    workspace: monitors[m].workspace.switched(value),
                }
            } else {
                monitors[m]
            },
    )
}

/// The monitors after a float toggle of the window on every monitor whose
/// area holds the point.
pub open spec fn toggled_at(monitors: Seq<MonitorView>, x: u16, y: u16, wid: u32) -> Seq<
    MonitorView,
> {
    Seq::new(
        monitors.len(),
        |m: int|
            if monitors[m].area.covers(x as int, y as int) {
                MonitorView { area: monitors[m].area, workspace: monitors[m].workspace.toggled(wid) }
            } else {
                monitors[m]
            },
    )
}

/// The first of the first `upto` monitors that holds the point and has a
/// workspace.
pub open spec fn host_upto(monitors: Seq<MonitorView>, x: u16, y: u16, upto: int) -> Option<int>
    decreases upto,
{
    if upto <= 0 {
        None
    } else {
        match host_upto(monitors, x, y, upto - 1) {
            Some(m) => Some(m),
            None => if monitors[upto - 1].area.covers(x as int, y as int) && monitors[upto
                - 1].workspace.len() > 0 {
                Some(upto - 1)
            } else {
                None
            },
        }
    }
}

/// The first monitor that holds the point and has a workspace.
pub open spec fn host(monitors: Seq<MonitorView>, x: u16, y: u16) -> Option<int> {
    host_upto(monitors, x, y, monitors.len() as int)
}

/// The monitors after a new client turned up while the pointer was at
/// `(x, y)`: the first monitor that holds the point and has a workspace takes
/// it at the end of its current workspace. A window that is known already is
/// not taken again.
pub open spec fn adopted(monitors: Seq<MonitorView>, x: u16, y: u16, client: Client) -> Seq<
    MonitorView,
> {
    if known(monitors, client.window) {
        monitors
    } else {
        match host(monitors, x, y) {
            Some(m) => with_workspace(monitors, m, monitors[m].workspace.inserted(client)),
            None => monitors,
        }
    }
}

/// The monitor behind monitor `m`; behind the last one comes the first.
pub open spec fn next_monitor(m: int, len: int) -> int {
    if m + 1 >= len {
        0
    } else {
        m + 1
    }
}

/// The monitors after the window moved on to the next monitor: it is taken
/// from where it stands and put at the end of the current workspace of the
/// monitor behind. Nothing changes where the window is not known or the
/// monitor behind has no workspace.
pub open spec fn circulated(monitors: Seq<MonitorView>, wid: u32) -> Seq<MonitorView> {
    match found(monitors, wid) {
        Some(place) => {
            let target = next_monitor(place.0, monitors.len() as int);
            if monitors[target].workspace.len() > 0 {
                with_workspace(
                    extracted(monitors, wid),
                    target,
                    extracted(monitors, wid)[target].workspace.inserted(
                        monitors[place.0].workspace.spaces[place.1][place.2],
                    ),
                )
            } else {
                monitors
            }
        },
        None => monitors,
    }
}

/// What the tiler asks for monitor `m`: the plan for its workspaces on its
/// area less the padding.
pub open spec fn monitor_plan(monitor: MonitorView, padding: Padding, gaps: u16) -> Seq<Action> {
    plan(monitor.workspace, monitor.area.padded(padding), gaps)
}

/// What the tiler asks for the first `upto` monitors, one after the other.
pub open spec fn tiling_upto(monitors: Seq<MonitorView>, padding: Padding, gaps: u16, upto: int) -> Seq<
    Action,
>
    decreases upto,
{
    if upto <= 0 {
        Seq::empty()
    } else {
        tiling_upto(monitors, padding, gaps, upto - 1) + monitor_plan(
            monitors[upto - 1],
            padding,
            gaps,
        )
    }
}

/// What the tiler asks for all monitors.
pub open spec fn tiling(monitors: Seq<MonitorView>, padding: Padding, gaps: u16) -> Seq<Action> {
    tiling_upto(monitors, padding, gaps, monitors.len() as int)
}

/// On well-formed monitors the current index of every monitor that has a
/// workspace points at one of its workspaces.
pub proof fn lemma_current_in_range(monitors: Seq<MonitorView>, m: int)
    requires
        wf(monitors),
        0 <= m < monitors.len(),
        monitors[m].workspace.len() > 0,
    ensures
        0 <= monitors[m].workspace.current < monitors[m].workspace.len(),
{
    assert(monitors[m].workspace.wf());
}

/// On well-formed monitors no window id appears twice: two different
/// places, on one monitor or on two, hold different window ids.
pub proof fn lemma_no_window_twice(
    monitors: Seq<MonitorView>,
    m: int,
    i: int,
    j: int,
    n: int,
    k: int,
    l: int,
)
    requires
        wf(monitors),
        0 <= m < monitors.len(),
        0 <= n < monitors.len(),
        monitors[m].workspace.holds(i, j),
        monitors[n].workspace.holds(k, l),
        m != n || i != k || j != l,
    ensures
        monitors[m].workspace.spaces[i][j].window != monitors[n].workspace.spaces[k][l].window,
{
    assert(monitors[m].workspace.wf());
    let wid = monitors[m].workspace.spaces[i][j].window;
    if m != n && wid == monitors[n].workspace.spaces[k][l].window {
        assert(monitors[m].workspace.tracks(wid));
        assert(monitors[n].workspace.tracks(wid));
    }
}

/// Replacing one monitor's workspaces by well-formed ones that track no
/// window of another monitor leaves the monitors well-formed.
pub proof fn lemma_with_workspace(monitors: Seq<MonitorView>, m: int, workspace: WorkspaceSet)
    requires
        wf(monitors),
        0 <= m < monitors.len(),
        workspace.wf(),
        forall|wid: u32| #[trigger]
            workspace.tracks(wid) ==> monitors[m].workspace.tracks(wid) || !known(monitors, wid),
    ensures
        wf(with_workspace(monitors, m, workspace)),
        forall|wid: u32|
            known(with_workspace(monitors, m, workspace), wid) ==> known(monitors, wid)
                || workspace.tracks(wid),
{
    let after = with_workspace(monitors, m, workspace);
    assert forall|a: int, b: int, wid: u32|
        0 <= a < after.len() && 0 <= b < after.len() && a != b implies !(
    #[trigger] after[a].workspace.tracks(wid) && #[trigger] after[b].workspace.tracks(wid)) by {
        if after[a].workspace.tracks(wid) && after[b].workspace.tracks(wid) {
            if a == m {
                assert(monitors[b].workspace.tracks(wid));
                assert(workspace.tracks(wid));
                if !monitors[m].workspace.tracks(wid) {
                    assert(known(monitors, wid));
                }
            } else if b == m {
                assert(monitors[a].workspace.tracks(wid));
                assert(workspace.tracks(wid));
                if !monitors[m].workspace.tracks(wid) {
                    assert(known(monitors, wid));
                }
            } else {
                assert(monitors[a].workspace.tracks(wid) && monitors[b].workspace.tracks(wid));
            }
        }
    }
    assert forall|wid: u32| known(after, wid) implies known(monitors, wid) || workspace.tracks(
        wid,
    ) by {
        let a = choose|a: int| 0 <= a < after.len() && #[trigger] after[a].workspace.tracks(wid);
        if a != m {
            assert(monitors[a].workspace.tracks(wid));
        }
    }
}

/// Where `found` finds a window, the window stands; it finds none only
/// where no monitor tracks the window.
pub proof fn lemma_found(monitors: Seq<MonitorView>, wid: u32)
    ensures
        match found(monitors, wid) {
            Some(place) => {
                &&& 0 <= place.0 < monitors.len()
                &&& monitors[place.0].workspace.holds(place.1, place.2)
                &&& monitors[place.0].workspace.spaces[place.1][place.2].window == wid
            },
            None => !known(monitors, wid),
        },
{
    lemma_found_upto(monitors, wid, monitors.len() as int);
}

/// `lemma_found` for the first `upto` monitors.
pub proof fn lemma_found_upto(monitors: Seq<MonitorView>, wid: u32, upto: int)
    requires
        0 <= upto <= monitors.len(),
    ensures
        match found_upto(monitors, wid, upto) {
            Some(place) => {
                &&& 0 <= place.0 < upto
                &&& monitors[place.0].workspace.holds(place.1, place.2)
                &&& monitors[place.0].workspace.spaces[place.1][place.2].window == wid
            },
            None => forall|m: int| 0 <= m < upto ==> !(#[trigger] monitors[m].workspace.tracks(wid)),
        },
    decreases upto,
{
    if upto > 0 {
        lemma_found_upto(monitors, wid, upto - 1);
        lemma_located(monitors[upto - 1].workspace, wid);
    }
}

/// A window found on the first `from` monitors is found at the same place
/// on more of them.
pub proof fn lemma_found_stays(monitors: Seq<MonitorView>, wid: u32, from: int, upto: int)
    requires
        from <= upto,
        found_upto(monitors, wid, from) is Some,
    ensures
        found_upto(monitors, wid, upto) == found_upto(monitors, wid, from),
    decreases upto - from,
{
    if from < upto {
        lemma_found_stays(monitors, wid, from, upto - 1);
    }
}

/// A host found among the first `from` monitors is the host among more of
/// them.
pub proof fn lemma_host_stays(monitors: Seq<MonitorView>, x: u16, y: u16, from: int, upto: int)
    requires
        from <= upto,
        host_upto(monitors, x, y, from) is Some,
    ensures
        host_upto(monitors, x, y, upto) == host_upto(monitors, x, y, from),
    decreases upto - from,
{
    if from < upto {
        lemma_host_stays(monitors, x, y, from, upto - 1);
    }
}

/// Taking a window out leaves the monitors well-formed and untracks that
/// window and no other.
pub proof fn lemma_extracted(monitors: Seq<MonitorView>, wid: u32)
    requires
        wf(monitors),
    ensures
        wf(extracted(monitors, wid)),
        extracted(monitors, wid).len() == monitors.len(),
        !known(extracted(monitors, wid), wid),
        forall|other: u32|
            other != wid ==> (known(extracted(monitors, wid), other) <==> known(monitors, other)),
{
    lemma_found(monitors, wid);
    let after = extracted(monitors, wid);
    match found(monitors, wid) {
        Some(place) => {
            let (m, i, j) = place;
            let workspace = monitors[m].workspace.without(i, j);
            lemma_without(monitors[m].workspace, i, j);
            lemma_with_workspace(monitors, m, workspace);
            if known(after, wid) {
                let a = choose|a: int| 0 <= a < after.len() && #[trigger] after[a].workspace.tracks(wid);
                assert(a != m);
                assert(monitors[a].workspace.tracks(wid));
                assert(monitors[m].workspace.tracks(wid)) by {
                    assert(monitors[m].workspace.holds(i, j));
                }
            }
            assert forall|other: u32| other != wid implies (known(after, other) <==> known(
                monitors,
                other,
            )) by {
                if known(monitors, other) {
                    let a = choose|a: int|
                        0 <= a < monitors.len() && #[trigger] monitors[a].workspace.tracks(other);
                    if a == m {
                        assert(workspace.tracks(other));
                    }
                    assert(after[a].workspace.tracks(other));
                }
                if known(after, other) {
                    if workspace.tracks(other) {
                        assert(monitors[m].workspace.tracks(other));
                    }
                }
            }
        },
        None => {},
    }
}

/// One monitor.
pub struct Monitor {
    area: Area,
    workspace: Workspaces,
}

impl View for Monitor {
    type V = MonitorView;

    closed spec fn view(&self) -> MonitorView {
        MonitorView { area: self.area, workspace: self.workspace@ }
    }
}

impl Monitor {
    /// A monitor that shows `area` and has no workspace yet.
    pub fn new(area: Area) -> (monitor: Monitor)
        ensures
            monitor@ == (MonitorView { area, workspace: WorkspaceSet::vacant() }),
    {
        Monitor { area, workspace: Workspaces::new() }
    }

    /// The part of the screen that the monitor shows.
    pub fn area(&self) -> (area: Area)
        ensures
            area == self@.area,
    {
        self.area
    }

    /// The monitor's workspaces.
    pub fn workspace(&self) -> (workspace: &Workspaces)
        ensures
            workspace@ == self@.workspace,
    {
        &self.workspace
    }
}

/// All monitors, in the order in which the server reported them.
pub struct Monitors {
    monitors: Vec<Monitor>,
    root: u32,
}

impl View for Monitors {
    type V = Seq<MonitorView>;

    closed spec fn view(&self) -> Seq<MonitorView> {
        Seq::new(self.monitors@.len(), |m: int| self.monitors@[m]@)
    }
}

impl Monitors {
    /// The id of the root window, on which the pointer is looked up.
    pub closed spec fn root_id(&self) -> u32 {
        self.root
    }

    /// No monitor yet.
    pub fn new(root: u32) -> (monitors: Monitors)
        ensures
            monitors@ == Seq::<MonitorView>::empty(),
            monitors.root_id() == root,
            wf(monitors@),
    {
        let monitors = Monitors { monitors: Vec::new(), root };
        assert(monitors@ =~= Seq::<MonitorView>::empty());
        monitors
    }

    /// The id of the root window.
    pub fn root(&self) -> (root: u32)
        ensures
            root == self.root_id(),
    {
        self.root
    }

    /// Number of monitors.
    pub fn len(&self) -> (len: usize)
        ensures
            len == self@.len(),
    {
        self.monitors.len()
    }

    /// Monitor `m`.
    pub fn monitor(&self, m: usize) -> (monitor: &Monitor)
        requires
            m < self@.len(),
        ensures
            monitor@ == self@[m as int],
    {
        &self.monitors[m]
    }

    /// Adds a monitor behind the others.
    pub fn append(&mut self, monitor: Monitor)
        requires
            wf(old(self)@),
            monitor@.workspace.wf(),
            forall|wid: u32| #[trigger] monitor@.workspace.tracks(wid) ==> !known(old(self)@, wid),
        ensures
            final(self)@ == old(self)@.push(monitor@),
            final(self).root_id() == old(self).root_id(),
            wf(final(self)@),
    {
        self.monitors.push(monitor);
        assert(self@ =~= old(self)@.push(monitor@));
        proof {
            let before = old(self)@;
            let after = self@;
            assert forall|a: int, b: int, wid: u32|
                0 <= a < after.len() && 0 <= b < after.len() && a != b implies !(
            #[trigger] after[a].workspace.tracks(wid) && #[trigger] after[b].workspace.tracks(
                wid,
            )) by {
                if after[a].workspace.tracks(wid) && after[b].workspace.tracks(wid) {
                    if a == before.len() {
                        assert(before[b].workspace.tracks(wid));
                        assert(known(before, wid));
                    } else if b == before.len() {
                        assert(before[a].workspace.tracks(wid));
                        assert(known(before, wid));
                    } else {
                        assert(before[a].workspace.tracks(wid) && before[b].workspace.tracks(wid));
                    }
                }
            }
        }
    }

    /// Whether no monitor shows the window as a floating client on its
    /// current workspace.
    pub fn is_tiled(&self, wid: u32) -> (is_tiled: bool)
        ensures
            is_tiled == tiled(self@, wid),
    {
        let mut m: usize = 0;
        while m < self.monitors.len()
            invariant
                m <= self@.len(),
                self@.len() == self.monitors@.len(),
                forall|k: int| 0 <= k < m ==> !(#[trigger] self@[k]).workspace.floats(wid),
            decreases self@.len() - m,
        {
            if self.monitors[m].workspace.is_float(wid) {
                assert(self@[m as int].workspace.floats(wid));
                return false;
            }
            m += 1;
        }
        true
    }

    /// Whether some workspace of some monitor holds the window.
    pub fn tracks(&self, wid: u32) -> (tracks: bool)
        ensures
            tracks == known(self@, wid),
    {
        let mut m: usize = 0;
        while m < self.monitors.len()
            invariant
                m <= self@.len(),
                self@.len() == self.monitors@.len(),
                forall|k: int| 0 <= k < m ==> !(#[trigger] self@[k].workspace.tracks(wid)),
            decreases self@.len() - m,
        {
            proof {
                lemma_located(self@[m as int].workspace, wid);
            }
            if self.monitors[m].workspace.locate(wid).is_some() {
                assert(self@[m as int].workspace.tracks(wid));
                return true;
            }
            m += 1;
        }
        false
    }

    /// The monitors whose area holds the point `(x, y)`, in order.
    pub fn focused(&self, x: u16, y: u16) -> (focused: Vec<usize>)
        ensures
            focused@ == focused_at(self@, x, y),
    {
        let mut focused: Vec<usize> = Vec::new();
        let mut m: usize = 0;
        while m < self.monitors.len()
            invariant
                m <= self@.len(),
                self@.len() == self.monitors@.len(),
                focused@ == focused_upto(self@, x, y, m as int),
            decreases self@.len() - m,
        {
            if self.monitors[m].area.contains(x, y) {
                focused.push(m);
            }
            m += 1;
        }
        focused
    }

    /// Where the window stands: the first monitor that has it in any
    /// workspace, and the workspace and position there.
    pub fn locate(&self, wid: u32) -> (place: Option<(usize, usize, usize)>)
        ensures
            match place {
                Some((m, space, index)) => found(self@, wid) == Some(
                    (m as int, space as int, index as int),
                ),
                None => found(self@, wid) is None,
            },
    {
        let len = self.monitors.len();
        let mut m: usize = 0;
        while m < len
            invariant
                m <= len,
                len == self@.len(),
                found_upto(self@, wid, m as int) is None,
            decreases len - m,
        {
            if let Some((space, index)) = self.monitors[m].workspace.locate(wid) {
                proof {
                    assert(found_upto(self@, wid, m as int + 1) == Some(
                        (m as int, space as int, index as int),
                    ));
                    lemma_found_stays(self@, wid, m as int + 1, len as int);
                }
                return Some((m, space, index));
            }
            m += 1;
        }
        None
    }

    /// Takes the window out of the first monitor that has it, searching
    /// every workspace, and returns that monitor's index with the client.
    pub fn extract_client(&mut self, wid: u32) -> (taken: Option<(usize, Client)>)
        requires
            wf(old(self)@),
        ensures
            final(self)@ == extracted(old(self)@, wid),
            final(self).root_id() == old(self).root_id(),
            wf(final(self)@),
            match found(old(self)@, wid) {
                Some(place) => taken == Some(
                    (place.0 as usize, old(self)@[place.0].workspace.spaces[place.1][place.2]),
                ),
                None => taken is None,
            },
    {
        proof {
            lemma_extracted(self@, wid);
            lemma_found(self@, wid);
        }
        match self.locate(wid) {
            Some((m, space, index)) => {
                assert(self@[m as int].workspace.wf());
                let client = self.monitors[m].workspace.take(space, index);
                assert(self@ =~= extracted(old(self)@, wid));
                Some((m, client))
            },
            None => None,
        }
    }

    /// Puts `client` at the end of the current workspace of monitor `m`.
    pub fn insert(&mut self, m: usize, client: Client)
        requires
            wf(old(self)@),
            m < old(self)@.len(),
            old(self)@[m as int].workspace.len() > 0,
            !known(old(self)@, client.window),
        ensures
            final(self)@ == with_workspace(
                old(self)@,
                m as int,
                old(self)@[m as int].workspace.inserted(client),
            ),
            final(self).root_id() == old(self).root_id(),
            wf(final(self)@),
    {
        proof {
            let before = self@[m as int].workspace;
            assert(!before.tracks(client.window));
            lemma_inserted(before, client);
            lemma_with_workspace(self@, m as int, before.inserted(client));
        }
        self.monitors[m].workspace.insert(client);
        assert(self@ =~= with_workspace(
            old(self)@,
            m as int,
            old(self)@[m as int].workspace.inserted(client),
        ));
    }

    /// Takes the client at `index` out of the current workspace of monitor
    /// `m`.
    pub fn remove(&mut self, m: usize, index: usize) -> (client: Client)
        requires
            wf(old(self)@),
            m < old(self)@.len(),
            index < old(self)@[m as int].workspace.visible().len(),
        ensures
            client == old(self)@[m as int].workspace.visible()[index as int],
            final(self)@ == with_workspace(
                old(self)@,
                m as int,
                old(self)@[m as int].workspace.removed(index as int),
            ),
            final(self).root_id() == old(self).root_id(),
            wf(final(self)@),
    {
        proof {
            let before = self@[m as int].workspace;
            lemma_without(before, before.current, index as int);
            lemma_with_workspace(self@, m as int, before.removed(index as int));
        }
        let client = self.monitors[m].workspace.remove(index);
        assert(self@ =~= with_workspace(
            old(self)@,
            m as int,
            old(self)@[m as int].workspace.removed(index as int),
        ));
        client
    }

    /// Makes workspace number `value` the current one of monitor `m`.
    pub fn switch(&mut self, m: usize, value: u32)
        requires
            wf(old(self)@),
            m < old(self)@.len(),
        ensures
            final(self)@ == with_workspace(
                old(self)@,
                m as int,
                old(self)@[m as int].workspace.switched(value),
            ),
            final(self).root_id() == old(self).root_id(),
            wf(final(self)@),
    {
        assert(self@[m as int].workspace.wf());
        self.monitors[m].workspace.switch(value);
        assert(self@ =~= with_workspace(
            old(self)@,
            m as int,
            old(self)@[m as int].workspace.switched(value),
        ));
        proof {
            let before = old(self)@[m as int].workspace;
            let after = before.switched(value);
            assert forall|wid: u32| #[trigger] after.tracks(wid) implies before.tracks(wid) by {
                let (i, j) = choose|i: int, j: int|
                    after.holds(i, j) && (#[trigger] after.spaces[i][j]).window == wid;
                assert(before.holds(i, j) && before.spaces[i][j].window == wid);
            }
            lemma_with_workspace(old(self)@, m as int, after);
        }
    }

    /// Toggles the window between tiled and floating where the current
    /// workspace of monitor `m` holds it.
    pub fn toggle_float(&mut self, m: usize, wid: u32)
        requires
            wf(old(self)@),
            m < old(self)@.len(),
        ensures
            final(self)@ == with_workspace(
                old(self)@,
                m as int,
                old(self)@[m as int].workspace.toggled(wid),
            ),
            final(self).root_id() == old(self).root_id(),
            wf(final(self)@),
    {
        assert(self@[m as int].workspace.wf());
        self.monitors[m].workspace.toggle_float(wid);
        assert(self@ =~= with_workspace(
            old(self)@,
            m as int,
            old(self)@[m as int].workspace.toggled(wid),
        ));
        proof {
            let before = old(self)@[m as int].workspace;
            lemma_position(before.visible(), wid);
            if let Some(index) = position(before.visible(), wid) {
                lemma_with_state(before, index, before.visible()[index].state.toggled());
            }
            lemma_with_workspace(old(self)@, m as int, before.toggled(wid));
        }
    }

    /// Brings every monitor to `size` workspaces; size zero changes nothing.
    pub fn resize(&mut self, size: usize)
        requires
            wf(old(self)@),
        ensures
            final(self)@ == resized(old(self)@, size as int),
            final(self).root_id() == old(self).root_id(),
            wf(final(self)@),
    {
        let len = self.monitors.len();
        let mut m: usize = 0;
        while m < len
            invariant
                m <= len,
                len == self@.len(),
                len == old(self)@.len(),
                self.root == old(self).root,
                wf(self@),
                forall|k: int| 0 <= k < m ==> #[trigger] self@[k] == resized(old(self)@, size as int)[k],
                forall|k: int| m <= k < len ==> #[trigger] self@[k] == old(self)@[k],
            decreases len - m,
        {
            let ghost before = self@;
            proof {
                lemma_resized(before[m as int].workspace, size as int);
                lemma_with_workspace(
                    before,
                    m as int,
                    before[m as int].workspace.resized(size as int),
                );
            }
            self.monitors[m].workspace.resize(size);
            assert(self@ =~= with_workspace(
                before,
                m as int,
                before[m as int].workspace.resized(size as int),
            ));
            m += 1;
        }
        assert(self@ =~= resized(old(self)@, size as int));
    }

    /// Makes workspace number `value` the current one on every monitor whose
    /// area holds the point `(x, y)`.
    pub fn switch_focused(&mut self, x: u16, y: u16, value: u32)
        requires
            wf(old(self)@),
        ensures
            final(self)@ == switched_at(old(self)@, x, y, value),
            final(self).root_id() == old(self).root_id(),
            wf(final(self)@),
    {
        let len = self.monitors.len();
        let mut m: usize = 0;
        while m < len
            invariant
                m <= len,
                len == self@.len(),
                len == old(self)@.len(),
                self.root == old(self).root,
                wf(self@),
                forall|k: int|
                    0 <= k < m ==> #[trigger] self@[k] == switched_at(old(self)@, x, y, value)[k],
                forall|k: int| m <= k < len ==> #[trigger] self@[k] == old(self)@[k],
            decreases len - m,
        {
            if self.monitors[m].area.contains(x, y) {
                self.switch(m, value);
            }
            m += 1;
        }
        assert(self@ =~= switched_at(old(self)@, x, y, value));
    }

    /// Toggles the window between tiled and floating on every monitor whose
    /// area holds the point `(x, y)` and whose current workspace holds the
    /// window.
    pub fn toggle_focused(&mut self, x: u16, y: u16, wid: u32)
        requires
            wf(old(self)@),
        ensures
            final(self)@ == toggled_at(old(self)@, x, y, wid),
            final(self).root_id() == old(self).root_id(),
            wf(final(self)@),
    {
        let len = self.monitors.len();
        let mut m: usize = 0;
        while m < len
            invariant
                m <= len,
                len == self@.len(),
                len == old(self)@.len(),
                self.root == old(self).root,
                wf(self@),
                forall|k: int|
                    0 <= k < m ==> #[trigger] self@[k] == toggled_at(old(self)@, x, y, wid)[k],
                forall|k: int| m <= k < len ==> #[trigger] self@[k] == old(self)@[k],
            decreases len - m,
        {
            if self.monitors[m].area.contains(x, y) {
                self.toggle_float(m, wid);
            }
            m += 1;
        }
        assert(self@ =~= toggled_at(old(self)@, x, y, wid));
    }

    /// Takes in a new client while the pointer is at `(x, y)`.
    pub fn adopt(&mut self, x: u16, y: u16, client: Client)
        requires
            wf(old(self)@),
        ensures
            final(self)@ == adopted(old(self)@, x, y, client),
            final(self).root_id() == old(self).root_id(),
            wf(final(self)@),
    {
        if self.tracks(client.window) {
            return ;
        }
        let len = self.monitors.len();
        let mut m: usize = 0;
        while m < len
            invariant
                m <= len,
                len == self@.len(),
                self@ == old(self)@,
                self.root == old(self).root,
                wf(self@),
                !known(self@, client.window),
                host_upto(self@, x, y, m as int) is None,
            decreases len - m,
        {
            let monitor = &self.monitors[m];
            if monitor.area.contains(x, y) && monitor.workspace.len() > 0 {
                proof {
                    assert(host_upto(self@, x, y, m as int + 1) == Some(m as int));
                    lemma_host_stays(self@, x, y, m as int + 1, len as int);
                }
                self.insert(m, client);
                return ;
            }
            m += 1;
        }
    }

    /// Moves the window on to the next monitor.
    pub fn circulate(&mut self, wid: u32)
        requires
            wf(old(self)@),
        ensures
            final(self)@ == circulated(old(self)@, wid),
            final(self).root_id() == old(self).root_id(),
            wf(final(self)@),
    {
        proof {
            lemma_found(self@, wid);
            lemma_extracted(self@, wid);
        }
        if let Some((m, space, index)) = self.locate(wid) {
            let len = self.monitors.len();
            let target: usize = if m + 1 >= len {
                0
            } else {
                m + 1
            };
            if self.monitors[target].workspace.len() > 0 {
                assert(self@[m as int].workspace.wf());
                let client = self.monitors[m].workspace.take(space, index);
                assert(self@ =~= extracted(old(self)@, wid));
                assert(self@[target as int].workspace.len() > 0) by {
                    lemma_without(old(self)@[m as int].workspace, space as int, index as int);
                }
                self.insert(target, client);
            }
        }
    }

    /// What the tiler asks for all monitors with this padding and these
    /// gaps.
    pub fn tile(&self, padding: Padding, gaps: u16) -> (actions: Vec<Action>)
        ensures
            actions@ == tiling(self@, padding, gaps),
    {
        let mut actions: Vec<Action> = Vec::new();
        let mut m: usize = 0;
        while m < self.monitors.len()
            invariant
                m <= self@.len(),
                self@.len() == self.monitors@.len(),
                actions@ == tiling_upto(self@, padding, gaps, m as int),
            decreases self@.len() - m,
        {
            let mut more = self.tile_monitor(m, padding, gaps);
            actions.append(&mut more);
            m += 1;
        }
        actions
    }

    /// What the tiler asks for monitor `m`.
    pub fn tile_monitor(&self, m: usize, padding: Padding, gaps: u16) -> (actions: Vec<Action>)
        requires
            m < self@.len(),
        ensures
            actions@ == monitor_plan(self@[m as int], padding, gaps),
    {
        let monitor = &self.monitors[m];
        monitor.workspace.tile(monitor.area.pad(padding), gaps)
    }
}

} // verus!
