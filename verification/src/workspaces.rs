//! The workspaces of one monitor: ordered lists of clients, one of them
//! current.

use vstd::prelude::*;
use crate::action::Action;
use crate::area::Area;
use crate::client::{Client, State};
use crate::layout::{
    hidden_upto, lemma_rank_bound, lemma_rank_step, others_upto, plan, rank, residue, shown_upto,
    tiled_count,
};

verus! {

/// The mathematical model of a set of workspaces.
pub struct WorkspaceSet {
    /// The clients of each workspace, in the order in which they were put in.
    pub spaces: Seq<Seq<Client>>,
    /// Index of the current workspace.
    pub current: int,
}

/// The clients of the workspaces `from..to`, one workspace after the other.
pub open spec fn joined(spaces: Seq<Seq<Client>>, from: int, to: int) -> Seq<Client>
    decreases to - from,
{
    if from >= to {
        Seq::empty()
    } else {
        joined(spaces, from, to - 1) + spaces[to - 1]
    }
}

/// Where a window stands in a list of clients: the first position whose
/// client has that window id.
pub open spec fn position(clients: Seq<Client>, wid: u32) -> Option<int>
    decreases clients.len(),
{
    if clients.len() == 0 {
        None
    } else if clients.last().window == wid && position(clients.drop_last(), wid) is None {
        Some(clients.len() - 1)
    } else {
        position(clients.drop_last(), wid)
    }
}

/// The window of the client at `index`, if there is a client there.
pub open spec fn window_at(clients: Seq<Client>, index: int) -> Option<u32> {
    if 0 <= index < clients.len() {
        Some(clients[index].window)
    } else {
        None
    }
}

/// `value` held between `low` and `high`.
pub open spec fn clamped(value: int, low: int, high: int) -> int {
    if value < low {
        low
    } else if value > high {
        high
    } else {
        value
    }
}

impl WorkspaceSet {
    /// Number of workspaces.
    pub open spec fn len(self) -> int {
        self.spaces.len() as int
    }

    /// Whether there is a client at position `j` of workspace `i`.
    pub open spec fn holds(self, i: int, j: int) -> bool {
        0 <= i < self.spaces.len() && 0 <= j < self.spaces[i].len()
    }

    /// No window id stands at two places.
    pub open spec fn distinct(self) -> bool {
        forall|i: int, j: int, k: int, l: int|
            self.holds(i, j) && self.holds(k, l) && (i != k || j != l)
                ==> (#[trigger] self.spaces[i][j]).window != (#[trigger] self.spaces[k][l]).window
    }

    /// The current index points at a workspace whenever there is one and is
    /// zero otherwise, and no window id stands at two places.
    pub open spec fn wf(self) -> bool {
        &&& 0 <= self.current
        &&& self.current < self.len() || self.current == 0
        &&& self.distinct()
    }

    /// Whether some workspace holds a client with this window id.
    pub open spec fn tracks(self, wid: u32) -> bool {
        exists|i: int, j: int| self.holds(i, j) && (#[trigger] self.spaces[i][j]).window == wid
    }

    /// Whether the current index points at a workspace.
    pub open spec fn has_current(self) -> bool {
        0 <= self.current < self.len()
    }

    /// The clients of the current workspace; none where there is no
    /// workspace.
    pub open spec fn visible(self) -> Seq<Client> {
        if self.has_current() {
            self.spaces[self.current]
        } else {
            Seq::empty()
        }
    }

    /// Every client of every workspace, in the order of the workspaces and
    /// of the clients in them.
    pub open spec fn clients(self) -> Seq<Client> {
        joined(self.spaces, 0, self.len())
    }

    /// No workspace at all.
    pub open spec fn vacant() -> WorkspaceSet {
        WorkspaceSet { spaces: Seq::empty(), current: 0 }
    }

    /// The set with `size` workspaces. Growing appends empty workspaces.
    /// Shrinking moves the clients of every workspace from the new last one
    /// on into the new last one, in order, and brings the current index back
    /// into range. Size zero changes nothing.
    pub open spec fn resized(self, size: int) -> WorkspaceSet {
        if size <= 0 {
            self
        } else if size >= self.len() {
            WorkspaceSet {
                spaces: self.spaces + Seq::new((size - self.len()) as nat, |i: int| Seq::empty()),
                current: self.current,
            }
        } else {
            WorkspaceSet {
                spaces: self.spaces.subrange(0, size - 1).push(
                    joined(self.spaces, size - 1, self.len()),
                ),
                current: if self.current >= size {
                    size - 1
                } else {
                    self.current
                },
            }
        }
    }

    /// The set with `client` at the end of the current workspace.
    pub open spec fn inserted(self, client: Client) -> WorkspaceSet {
        WorkspaceSet {
            spaces: self.spaces.update(self.current, self.visible().push(client)),
            current: self.current,
        }
    }

    /// The set without the client at position `j` of workspace `i`.
    pub open spec fn without(self, i: int, j: int) -> WorkspaceSet {
        WorkspaceSet { spaces: self.spaces.update(i, self.spaces[i].remove(j)), current: self.current }
    }

    /// The set without the client at `index` of the current workspace.
    pub open spec fn removed(self, index: int) -> WorkspaceSet {
        self.without(self.current, index)
    }

    /// Where the window stands among the first `upto` workspaces: the first
    /// workspace that holds it and the first position in it.
    pub open spec fn located_upto(self, wid: u32, upto: int) -> Option<(int, int)>
        decreases upto,
    {
        if upto <= 0 {
            None
        } else {
            match self.located_upto(wid, upto - 1) {
                Some(place) => Some(place),
                None => match position(self.spaces[upto - 1], wid) {
                    Some(index) => Some((upto - 1, index)),
                    None => None,
                },
            }
        }
    }

    /// Where the window stands in the set.
    pub open spec fn located(self, wid: u32) -> Option<(int, int)> {
        self.located_upto(wid, self.len())
    }

    /// The set after a switch to workspace number `value`, counted from one
    /// and held between one and the number of workspaces.
    pub open spec fn switched(self, value: u32) -> WorkspaceSet {
        if self.len() <= 0 {
            self
        } else {
            WorkspaceSet { spaces: self.spaces, current: clamped(value as int, 1, self.len()) - 1 }
        }
    }

    /// The set with the state of the client at `index` of the current
    /// workspace set to `state`.
    pub open spec fn with_state(self, index: int, state: State) -> WorkspaceSet {
        WorkspaceSet {
            spaces: self.spaces.update(
                self.current,
                self.visible().update(index, Client { window: self.visible()[index].window, state }),
            ),
            current: self.current,
        }
    }

    /// The set after a float toggle of the window: where the current
    /// workspace holds it, its state is toggled.
    pub open spec fn toggled(self, wid: u32) -> WorkspaceSet {
        match position(self.visible(), wid) {
            Some(index) => self.with_state(index, self.visible()[index].state.toggled()),
            None => self,
        }
    }

    /// Whether the current workspace holds the window as a floating client.
    pub open spec fn floats(self, wid: u32) -> bool {
        match position(self.visible(), wid) {
            Some(index) => self.visible()[index].state == State::Float,
            None => false,
        }
    }
}

/// `position` finds the first client with the window id and finds none only
/// where there is none.
pub proof fn lemma_position(clients: Seq<Client>, wid: u32)
    ensures
        match position(clients, wid) {
            Some(index) => {
                &&& 0 <= index < clients.len()
                &&& clients[index].window == wid
                &&& forall|k: int| 0 <= k < index ==> clients[k].window != wid
            },
            None => forall|k: int| 0 <= k < clients.len() ==> clients[k].window != wid,
        },
    decreases clients.len(),
{
    if clients.len() > 0 {
        let front = clients.drop_last();
        lemma_position(front, wid);
        assert forall|k: int| 0 <= k < front.len() implies front[k] == clients[k] by {}
        match position(front, wid) {
            Some(index) => {
                assert(front[index] == clients[index]);
            },
            None => {
                assert forall|k: int| 0 <= k < front.len() implies clients[k].window != wid by {
                    assert(front[k].window != wid);
                }
            },
        }
    }
}

/// A position that holds the window id and has no such position before it is
/// the one that `position` gives.
pub proof fn lemma_position_is(clients: Seq<Client>, wid: u32, index: int)
    requires
        0 <= index < clients.len(),
        clients[index].window == wid,
        forall|k: int| 0 <= k < index ==> clients[k].window != wid,
    ensures
        position(clients, wid) == Some(index),
{
    lemma_position(clients, wid);
}

/// The workspaces of one monitor.
pub struct Workspaces {
    workspaces: Vec<Vec<Client>>,
    current: usize,
}

impl View for Workspaces {
    type V = WorkspaceSet;

    closed spec fn view(&self) -> WorkspaceSet {
        WorkspaceSet {
            spaces: Seq::new(self.workspaces@.len(), |i: int| self.workspaces@[i]@),
            current: self.current as int,
        }
    }
}

impl Workspaces {
    /// A set without any workspace.
    pub fn new() -> (workspaces: Workspaces)
        ensures
            workspaces@ == WorkspaceSet::vacant(),
            workspaces@.wf(),
    {
        let workspaces = Workspaces { workspaces: Vec::new(), current: 0 };
        assert(workspaces@.spaces =~= Seq::empty());
        workspaces
    }

    /// Number of workspaces.
    pub fn len(&self) -> (len: usize)
        ensures
            len == self@.len(),
    {
        self.workspaces.len()
    }

    /// Index of the current workspace.
    pub fn current(&self) -> (current: usize)
        ensures
            current == self@.current,
    {
        self.current
    }

    /// Changes the number of workspaces to `size`; size zero changes nothing.
    pub fn resize(&mut self, size: usize)
        requires
            old(self)@.wf(),
        ensures
            final(self)@ == old(self)@.resized(size as int),
            final(self)@.wf(),
    {
        let ghost before = self@;
        let len = self.workspaces.len();
        if size >= len {
            while self.workspaces.len() < size
                invariant
                    len <= self.workspaces@.len() <= size,
                    self.current == before.current,
                    self@.spaces =~= before.spaces + Seq::new(
                        (self.workspaces@.len() - len) as nat,
                        |i: int| Seq::<Client>::empty(),
                    ),
                    len == before.len(),
                decreases size - self.workspaces@.len(),
            {
                let ghost grown = self@.spaces;
                self.workspaces.push(Vec::new());
                assert(self@.spaces =~= grown.push(Seq::<Client>::empty()));
            }
            assert(self@.spaces =~= before.resized(size as int).spaces);
        } else if size > 0 {
            let last: usize = size - 1;
            let mut k: usize = size;
            assert(joined(before.spaces, last as int, k as int) =~= before.spaces[last as int]) by {
                assert(joined(before.spaces, last as int, last as int) =~= Seq::<Client>::empty());
            }
            while k < len
                invariant
                    size <= k <= len,
                    last == size - 1,
                    len == before.len(),
                    self.current == before.current,
                    self@.spaces.len() == len,
                    forall|i: int| 0 <= i < len && i != last ==> self@.spaces[i] == before.spaces[i],
                    self@.spaces[last as int] == joined(before.spaces, last as int, k as int),
                decreases len - k,
            {
                let count: usize = self.workspaces[k].len();
                let mut j: usize = 0;
                while j < count
                    invariant
                        size <= k < len,
                        last == size - 1,
                        len == before.len(),
                        self.current == before.current,
                        count == before.spaces[k as int].len(),
                        j <= count,
                        self@.spaces.len() == len,
                        forall|i: int|
                            0 <= i < len && i != last ==> self@.spaces[i] == before.spaces[i],
                        self@.spaces[last as int] =~= joined(before.spaces, last as int, k as int)
                            + before.spaces[k as int].subrange(0, j as int),
                    decreases count - j,
                {
                    let client = self.workspaces[k][j];
                    self.workspaces[last].push(client);
                    j += 1;
                }
                assert(before.spaces[k as int].subrange(0, count as int) =~= before.spaces[k as int]);
                k += 1;
            }
            self.workspaces.truncate(size);
            if self.current >= size {
                self.current = last;
            }
            assert(self@.spaces =~= before.resized(size as int).spaces);
        }
        proof {
            lemma_resized(before, size as int);
        }
    }

    /// Puts `client` at the end of the current workspace.
    pub fn insert(&mut self, client: Client)
        requires
            old(self)@.wf(),
            old(self)@.len() > 0,
            !old(self)@.tracks(client.window),
        ensures
            final(self)@ == old(self)@.inserted(client),
            final(self)@.wf(),
    {
        self.workspaces[self.current].push(client);
        assert(self@.spaces =~= old(self)@.inserted(client).spaces);
        proof {
            lemma_inserted(old(self)@, client);
        }
    }

    /// Takes the client at `index` out of the current workspace.
    pub fn remove(&mut self, index: usize) -> (client: Client)
        requires
            old(self)@.wf(),
            index < old(self)@.visible().len(),
        ensures
            client == old(self)@.visible()[index as int],
            final(self)@ == old(self)@.removed(index as int),
            final(self)@.wf(),
    {
        let current = self.current;
        self.take(current, index)
    }

    /// Takes the client at position `index` out of workspace `space`.
    pub fn take(&mut self, space: usize, index: usize) -> (client: Client)
        requires
            old(self)@.wf(),
            old(self)@.holds(space as int, index as int),
        ensures
            client == old(self)@.spaces[space as int][index as int],
            final(self)@ == old(self)@.without(space as int, index as int),
            final(self)@.wf(),
    {
        let client = self.workspaces[space].remove(index);
        assert(self@.spaces =~= old(self)@.without(space as int, index as int).spaces);
        proof {
            lemma_without(old(self)@, space as int, index as int);
        }
        client
    }

    /// Where the window stands in the set: the first workspace that holds it
    /// and the first position in it.
    pub fn locate(&self, wid: u32) -> (place: Option<(usize, usize)>)
        ensures
            match place {
                Some((space, index)) => self@.located(wid) == Some((space as int, index as int)),
                None => self@.located(wid) is None,
            },
    {
        let len = self.workspaces.len();
        let mut space: usize = 0;
        while space < len
            invariant
                space <= len,
                len == self@.len(),
                self@.located_upto(wid, space as int) is None,
            decreases len - space,
        {
            if let Some(index) = find_in(&self.workspaces[space], wid) {
                proof {
                    assert(self@.located_upto(wid, space as int + 1) == Some(
                        (space as int, index as int),
                    ));
                    lemma_located_stays(self@, wid, space as int + 1, len as int);
                }
                return Some((space, index));
            }
            space += 1;
        }
        None
    }

    /// Where the window stands in the current workspace.
    pub fn find(&self, wid: u32) -> (found: Option<usize>)
        ensures
            match found {
                Some(index) => position(self@.visible(), wid) == Some(index as int),
                None => position(self@.visible(), wid) is None,
            },
    {
        if self.current >= self.workspaces.len() {
            return None;
        }
        find_in(&self.workspaces[self.current], wid)
    }

    /// Whether the current workspace holds the window as a floating client.
    pub fn is_float(&self, wid: u32) -> (float: bool)
        ensures
            float == self@.floats(wid),
    {
        match self.find(wid) {
            Some(index) => {
                proof {
                    lemma_position(self@.visible(), wid);
                }
                self.workspaces[self.current][index].state == State::Float
            },
            None => false,
        }
    }

    /// The window that takes the input focus when the focus moves away from
    /// `wid`: `shift` maps the position of `wid` in the current workspace to
    /// the position of the client to focus. Nothing is to be focused where
    /// the current workspace does not hold `wid` or the new position lies
    /// outside it.
    pub fn change_focus<F>(&self, wid: u32, shift: F) -> (target: Option<u32>) where
        F: Fn(usize) -> usize,

        requires
            forall|index: usize| index < self@.visible().len() ==> call_requires(shift, (index,)),
        ensures
            match position(self@.visible(), wid) {
                Some(index) => exists|moved: usize| #[trigger]
                    call_ensures(shift, (index as usize,), moved) && target == window_at(
                        self@.visible(),
                        moved as int,
                    ),
                None => target is None,
            },
    {
        match self.find(wid) {
            Some(index) => {
                proof {
                    lemma_position(self@.visible(), wid);
                }
                let moved = shift(index);
                let clients = &self.workspaces[self.current];
                let target = if moved < clients.len() {
                    Some(clients[moved].window)
                } else {
                    None
                };
                assert(call_ensures(shift, ((index as int) as usize,), moved) && target
                    == window_at(self@.visible(), moved as int));
                target
            },
            None => None,
        }
    }

    /// What `visit` makes of every client of every workspace, the current one
    /// or not, in the order of the workspaces and of the clients in them.
    pub fn map_clients<T, F>(&self, visit: F) -> (visited: Vec<T>) where F: Fn(Client) -> T
        requires
            forall|i: int, j: int|
                self@.holds(i, j) ==> call_requires(visit, (#[trigger] self@.spaces[i][j],)),
        ensures
            visited@.len() == self@.clients().len(),
            forall|p: int|
                0 <= p < visited@.len() ==> call_ensures(
                    visit,
                    (self@.clients()[p],),
                    #[trigger] visited@[p],
                ),
    {
        let mut visited: Vec<T> = Vec::new();
        let len = self.workspaces.len();
        let mut i: usize = 0;
        while i < len
            invariant
                i <= len,
                len == self@.len(),
                forall|i: int, j: int|
                    self@.holds(i, j) ==> call_requires(visit, (#[trigger] self@.spaces[i][j],)),
                visited@.len() == joined(self@.spaces, 0, i as int).len(),
                forall|p: int|
                    0 <= p < visited@.len() ==> call_ensures(
                        visit,
                        (joined(self@.spaces, 0, i as int)[p],),
                        #[trigger] visited@[p],
                    ),
            decreases len - i,
        {
            let clients = &self.workspaces[i];
            let ghost done = joined(self@.spaces, 0, i as int);
            let mut j: usize = 0;
            while j < clients.len()
                invariant
                    i < len,
                    len == self@.len(),
                    clients@ == self@.spaces[i as int],
                    j <= clients@.len(),
                    done == joined(self@.spaces, 0, i as int),
                    forall|i: int, j: int|
                        self@.holds(i, j) ==> call_requires(
                            visit,
                            (#[trigger] self@.spaces[i][j],),
                        ),
                    visited@.len() == done.len() + j,
                    forall|p: int|
                        0 <= p < visited@.len() ==> call_ensures(
                            visit,
                            ((done + clients@)[p],),
                            #[trigger] visited@[p],
                        ),
                decreases clients@.len() - j,
            {
                assert(self@.holds(i as int, j as int));
                let outcome = visit(clients[j]);
                visited.push(outcome);
                j += 1;
            }
            i += 1;
        }
        visited
    }

    /// What is to be done so that the clients of the current workspace fill
    /// `area` and those of the other workspaces are out of sight: every tiled
    /// client of the current workspace is placed in its slot less the gaps
    /// and every client of it is shown; on the other workspaces tiled and
    /// floating clients are hidden.
    pub fn tile(&self, area: Area, gaps: u16) -> (actions: Vec<Action>)
        ensures
            actions@ == plan(self@, area, gaps),
    {
        let mut actions: Vec<Action> = Vec::new();
        let len = self.workspaces.len();
        if self.current < len {
            let clients = &self.workspaces[self.current];
            let total = count_tiled(clients);
            let mut left = area;
            let mut placed: usize = 0;
            let mut i: usize = 0;
            assert(clients@.subrange(0, 0) =~= Seq::<Client>::empty());
            while i < clients.len()
                invariant
                    i <= clients@.len(),
                    total == tiled_count(clients@),
                    placed == rank(clients@, i as int),
                    placed <= total,
                    placed < total ==> left == residue(area, placed as nat),
                    actions@ == shown_upto(clients@, area, gaps, i as int),
                decreases clients@.len() - i,
            {
                let client = clients[i];
                proof {
                    lemma_rank_step(clients@, i as int);
                    lemma_rank_bound(clients@, i as int + 1);
                }
                if client.state == State::Tiled {
                    let slot = if placed + 1 < total {
                        left.split()
                    } else {
                        left
                    };
                    actions.push(Action::MoveResize { window: client.window, area: slot.shrink(gaps) });
                    placed += 1;
                }
                actions.push(Action::MapWindow { window: client.window });
                i += 1;
                assert(actions@ =~= shown_upto(clients@, area, gaps, i as int));
            }
        }
        let ghost shown = actions@;
        let mut k: usize = 0;
        while k < len
            invariant
                k <= len,
                len == self@.len(),
                actions@ == shown + others_upto(self@, k as int),
            decreases len - k,
        {
            if k != self.current {
                let clients = &self.workspaces[k];
                let ghost before = actions@;
                let mut j: usize = 0;
                while j < clients.len()
                    invariant
                        j <= clients@.len(),
                        actions@ == before + hidden_upto(clients@, j as int),
                    decreases clients@.len() - j,
                {
                    let client = clients[j];
                    if client.state != State::Dock {
                        actions.push(Action::UnmapWindow { window: client.window });
                    }
                    j += 1;
                    assert(actions@ =~= before + hidden_upto(clients@, j as int));
                }
                assert(actions@ =~= shown + others_upto(self@, k as int + 1));
            }
            k += 1;
        }
        actions
    }

    /// The current workspace holds no more clients than a `usize` counts.
    pub proof fn lemma_visible_fits(&self)
        ensures
            self@.visible().len() <= usize::MAX,
    {
        if self@.has_current() {
            let clients = self.workspaces@[self.current as int];
            assert(self@.visible() == clients@);
            assert(clients.len() == clients@.len());
        }
    }

    /// The client at `index` of the current workspace.
    pub fn client(&self, index: usize) -> (client: Client)
        requires
            index < self@.visible().len(),
        ensures
            client == self@.visible()[index as int],
    {
        self.workspaces[self.current][index]
    }

    /// Makes workspace number `value` the current one. The number counts
    /// from one and is held between one and the number of workspaces.
    pub fn switch(&mut self, value: u32)
        requires
            old(self)@.wf(),
        ensures
            final(self)@ == old(self)@.switched(value),
            final(self)@.wf(),
    {
        let len = self.workspaces.len();
        if len > 0 {
            let number: usize = if value < 1 {
                1
            } else if value as usize > len {
                len
            } else {
                value as usize
            };
            self.current = number - 1;
            assert(self@.spaces =~= old(self)@.spaces);
        }
    }

    /// Toggles the window between tiled and floating where the current
    /// workspace holds it.
    pub fn toggle_float(&mut self, wid: u32)
        requires
            old(self)@.wf(),
        ensures
            final(self)@ == old(self)@.toggled(wid),
            final(self)@.wf(),
    {
        if let Some(index) = self.find(wid) {
            proof {
                lemma_position(self@.visible(), wid);
            }
            let client = self.workspaces[self.current][index];
            self.workspaces[self.current][index] = Client {
                window: client.window,
                state: client.state.toggle(),
            };
            assert(self@.spaces =~= old(self)@.toggled(wid).spaces);
            proof {
                lemma_with_state(old(self)@, index as int, client.state.toggled());
            }
        }
    }
}

/// Where the window stands in a list of clients.
fn find_in(clients: &Vec<Client>, wid: u32) -> (found: Option<usize>)
    ensures
        match found {
            Some(index) => position(clients@, wid) == Some(index as int),
            None => position(clients@, wid) is None,
        },
{
    let mut index: usize = 0;
    while index < clients.len()
        invariant
            index <= clients@.len(),
            forall|k: int| 0 <= k < index ==> clients@[k].window != wid,
        decreases clients@.len() - index,
    {
        if clients[index].window == wid {
            proof {
                lemma_position_is(clients@, wid, index as int);
            }
            return Some(index);
        }
        index += 1;
    }
    proof {
        lemma_position(clients@, wid);
    }
    None
}

/// Number of tiled clients in a list.
fn count_tiled(clients: &Vec<Client>) -> (count: usize)
    ensures
        count == tiled_count(clients@),
{
    let mut count: usize = 0;
    let mut i: usize = 0;
    assert(clients@.subrange(0, 0) =~= Seq::<Client>::empty());
    while i < clients.len()
        invariant
            i <= clients@.len(),
            count == rank(clients@, i as int),
            count <= i,
        decreases clients@.len() - i,
    {
        proof {
            lemma_rank_step(clients@, i as int);
        }
        if clients[i].state == State::Tiled {
            count += 1;
        }
        i += 1;
    }
    proof {
        lemma_rank_bound(clients@, clients@.len() as int);
    }
    count
}

/// Putting an untracked window into the current workspace keeps the set
/// well-formed, and the set then tracks that window and what it tracked
/// before.
pub proof fn lemma_inserted(set: WorkspaceSet, client: Client)
    requires
        set.wf(),
        set.len() > 0,
        !set.tracks(client.window),
    ensures
        set.inserted(client).wf(),
        forall|wid: u32|
            set.inserted(client).tracks(wid) <==> (set.tracks(wid) || wid == client.window),
{
    let after = set.inserted(client);
    assert forall|i: int, j: int| after.holds(i, j) implies (set.holds(i, j) && after.spaces[i][j]
        == set.spaces[i][j]) || (i == set.current && j == set.visible().len()
        && after.spaces[i][j] == client) by {}
    assert forall|wid: u32| after.tracks(wid) <==> (set.tracks(wid) || wid == client.window) by {
        if after.tracks(wid) {
            let (i, j) = choose|i: int, j: int|
                after.holds(i, j) && (#[trigger] after.spaces[i][j]).window == wid;
            if set.holds(i, j) {
                assert(set.spaces[i][j].window == wid);
            }
        }
        if set.tracks(wid) {
            let (i, j) = choose|i: int, j: int|
                set.holds(i, j) && (#[trigger] set.spaces[i][j]).window == wid;
            assert(after.holds(i, j) && after.spaces[i][j].window == wid);
        }
        if wid == client.window {
            assert(after.holds(set.current, set.visible().len() as int));
            assert(after.spaces[set.current][set.visible().len() as int].window == wid);
        }
    }
    assert forall|i: int, j: int, k: int, l: int|
        after.holds(i, j) && after.holds(k, l) && (i != k || j != l) implies (
    #[trigger] after.spaces[i][j]).window != (#[trigger] after.spaces[k][l]).window by {
        if set.holds(i, j) {
            assert(set.spaces[i][j] == after.spaces[i][j]);
        }
        if set.holds(k, l) {
            assert(set.spaces[k][l] == after.spaces[k][l]);
        }
    }
}

/// Taking a client out keeps the set well-formed, and the set then tracks
/// what it tracked before but for that client's window.
pub proof fn lemma_without(set: WorkspaceSet, space: int, index: int)
    requires
        set.wf(),
        set.holds(space, index),
    ensures
        set.without(space, index).wf(),
        set.without(space, index).len() == set.len(),
        forall|wid: u32|
            set.without(space, index).tracks(wid) <==> (set.tracks(wid) && wid
                != set.spaces[space][index].window),
{
    let after = set.without(space, index);
    assert forall|i: int, j: int| after.holds(i, j) implies after.spaces[i][j] == (if i == space
        && j >= index {
        set.spaces[i][j + 1]
    } else {
        set.spaces[i][j]
    }) && set.holds(i, if i == space && j >= index { j + 1 } else { j }) by {}
    assert forall|i: int, j: int, k: int, l: int|
        after.holds(i, j) && after.holds(k, l) && (i != k || j != l) implies (
    #[trigger] after.spaces[i][j]).window != (#[trigger] after.spaces[k][l]).window by {
        let j0 = if i == space && j >= index { j + 1 } else { j };
        let l0 = if k == space && l >= index { l + 1 } else { l };
        assert(after.spaces[i][j] == set.spaces[i][j0]);
        assert(after.spaces[k][l] == set.spaces[k][l0]);
    }
    assert forall|wid: u32| after.tracks(wid) <==> (set.tracks(wid) && wid
        != set.spaces[space][index].window) by {
        if after.tracks(wid) {
            let (i, j) = choose|i: int, j: int|
                after.holds(i, j) && (#[trigger] after.spaces[i][j]).window == wid;
            let j0 = if i == space && j >= index { j + 1 } else { j };
            assert(set.holds(i, j0) && set.spaces[i][j0].window == wid);
            assert(i != space || j0 != index);
            assert(set.spaces[i][j0].window != set.spaces[space][index].window);
        }
        if set.tracks(wid) && wid != set.spaces[space][index].window {
            let (i, j) = choose|i: int, j: int|
                set.holds(i, j) && (#[trigger] set.spaces[i][j]).window == wid;
            let j1 = if i == space && j > index { j - 1 } else { j };
            assert(after.holds(i, j1) && after.spaces[i][j1].window == wid);
        }
    }
}

/// Where `located` finds a window, the window stands; it finds none only
/// where the set does not track the window.
pub proof fn lemma_located(set: WorkspaceSet, wid: u32)
    ensures
        match set.located(wid) {
            Some(place) => set.holds(place.0, place.1) && set.spaces[place.0][place.1].window
                == wid,
            None => !set.tracks(wid),
        },
{
    lemma_located_upto(set, wid, set.len());
}

/// A window found among the first `from` workspaces is found at the same
/// place among more of them.
pub proof fn lemma_located_stays(set: WorkspaceSet, wid: u32, from: int, upto: int)
    requires
        from <= upto,
        set.located_upto(wid, from) is Some,
    ensures
        set.located_upto(wid, upto) == set.located_upto(wid, from),
    decreases upto - from,
{
    if from < upto {
        lemma_located_stays(set, wid, from, upto - 1);
    }
}

/// `lemma_located` for the first `upto` workspaces.
pub proof fn lemma_located_upto(set: WorkspaceSet, wid: u32, upto: int)
    requires
        0 <= upto <= set.len(),
    ensures
        match set.located_upto(wid, upto) {
            Some(place) => place.0 < upto && set.holds(place.0, place.1)
                && set.spaces[place.0][place.1].window == wid,
            None => forall|i: int, j: int|
                0 <= i < upto && set.holds(i, j) ==> (#[trigger] set.spaces[i][j]).window != wid,
        },
    decreases upto,
{
    if upto > 0 {
        lemma_located_upto(set, wid, upto - 1);
        lemma_position(set.spaces[upto - 1], wid);
    }
}

/// A change of one client's state keeps the set well-formed and leaves
/// every window where it was.
pub proof fn lemma_with_state(set: WorkspaceSet, index: int, state: State)
    requires
        set.wf(),
        0 <= index < set.visible().len(),
    ensures
        set.with_state(index, state).wf(),
        set.with_state(index, state).len() == set.len(),
        forall|wid: u32| set.with_state(index, state).tracks(wid) <==> set.tracks(wid),
        forall|wid: u32|
            position(set.with_state(index, state).visible(), wid) == position(set.visible(), wid),
{
    let after = set.with_state(index, state);
    assert forall|i: int, j: int| after.holds(i, j) == set.holds(i, j) by {}
    assert forall|i: int, j: int| set.holds(i, j) implies (#[trigger] after.spaces[i][j]).window
        == set.spaces[i][j].window by {}
    assert forall|wid: u32| after.tracks(wid) <==> set.tracks(wid) by {
        if after.tracks(wid) {
            let (i, j) = choose|i: int, j: int|
                after.holds(i, j) && (#[trigger] after.spaces[i][j]).window == wid;
            assert(set.holds(i, j) && set.spaces[i][j].window == wid);
        }
        if set.tracks(wid) {
            let (i, j) = choose|i: int, j: int|
                set.holds(i, j) && (#[trigger] set.spaces[i][j]).window == wid;
            assert(after.holds(i, j) && after.spaces[i][j].window == wid);
        }
    }
    assert forall|i: int, j: int, k: int, l: int|
        after.holds(i, j) && after.holds(k, l) && (i != k || j != l) implies (
    #[trigger] after.spaces[i][j]).window != (#[trigger] after.spaces[k][l]).window by {
        assert(set.spaces[i][j].window == after.spaces[i][j].window);
        assert(set.spaces[k][l].window == after.spaces[k][l].window);
    }
    assert forall|wid: u32|
        position(after.visible(), wid) == position(set.visible(), wid) by {
        lemma_position_same_windows(set.visible(), after.visible(), wid);
    }
}

/// Where a window stands depends on the window ids alone.
pub proof fn lemma_position_same_windows(a: Seq<Client>, b: Seq<Client>, wid: u32)
    requires
        a.len() == b.len(),
        forall|k: int| 0 <= k < a.len() ==> a[k].window == b[k].window,
    ensures
        position(a, wid) == position(b, wid),
    decreases a.len(),
{
    if a.len() > 0 {
        lemma_position_same_windows(a.drop_last(), b.drop_last(), wid);
    }
}

/// Where the client at position `p` of `joined(spaces, from, to)` comes
/// from: the workspace and the position in it.
pub proof fn lemma_joined_origin(spaces: Seq<Seq<Client>>, from: int, to: int, p: int) -> (origin:
    (int, int))
    requires
        0 <= from <= to <= spaces.len(),
        0 <= p < joined(spaces, from, to).len(),
    ensures
        from <= origin.0 < to,
        0 <= origin.1 < spaces[origin.0].len(),
        joined(spaces, from, to)[p] == spaces[origin.0][origin.1],
        p == joined(spaces, from, origin.0).len() + origin.1,
    decreases to - from,
{
    let front = joined(spaces, from, to - 1);
    if p < front.len() {
        lemma_joined_origin(spaces, from, to - 1, p)
    } else {
        (to - 1, p - front.len())
    }
}

/// Where the client at position `l` of workspace `k` stands in
/// `joined(spaces, from, to)`.
pub proof fn lemma_joined_holds(spaces: Seq<Seq<Client>>, from: int, to: int, k: int, l: int)
    requires
        0 <= from <= k < to <= spaces.len(),
        0 <= l < spaces[k].len(),
    ensures
        joined(spaces, from, k).len() + l < joined(spaces, from, to).len(),
        joined(spaces, from, to)[joined(spaces, from, k).len() + l] == spaces[k][l],
    decreases to - from,
{
    if k < to - 1 {
        lemma_joined_holds(spaces, from, to - 1, k, l);
    }
}

/// A change of the number of workspaces keeps the set well-formed and loses
/// no client: the set tracks the same windows before and after.
pub proof fn lemma_resized(set: WorkspaceSet, size: int)
    requires
        set.wf(),
    ensures
        set.resized(size).wf(),
        size > 0 ==> set.resized(size).len() == size,
        size <= 0 ==> set.resized(size) == set,
        forall|wid: u32| set.resized(size).tracks(wid) <==> set.tracks(wid),
{
    let after = set.resized(size);
    if size <= 0 {
    } else if size >= set.len() {
        assert forall|i: int, j: int| after.holds(i, j) implies set.holds(i, j)
            && after.spaces[i][j] == set.spaces[i][j] by {}
        assert forall|i: int, j: int| set.holds(i, j) implies after.holds(i, j)
            && after.spaces[i][j] == set.spaces[i][j] by {}
        assert forall|wid: u32| after.tracks(wid) <==> set.tracks(wid) by {
            if after.tracks(wid) {
                let (i, j) = choose|i: int, j: int|
                    after.holds(i, j) && (#[trigger] after.spaces[i][j]).window == wid;
                assert(set.holds(i, j) && set.spaces[i][j].window == wid);
            }
            if set.tracks(wid) {
                let (i, j) = choose|i: int, j: int|
                    set.holds(i, j) && (#[trigger] set.spaces[i][j]).window == wid;
                assert(after.holds(i, j) && after.spaces[i][j].window == wid);
            }
        }
        assert forall|i: int, j: int, k: int, l: int|
            after.holds(i, j) && after.holds(k, l) && (i != k || j != l) implies (
        #[trigger] after.spaces[i][j]).window != (#[trigger] after.spaces[k][l]).window by {
            assert(set.spaces[i][j] == after.spaces[i][j]);
            assert(set.spaces[k][l] == after.spaces[k][l]);
        }
    } else {
        let last = size - 1;
        let n = set.len();
        assert forall|wid: u32| after.tracks(wid) <==> set.tracks(wid) by {
            if after.tracks(wid) {
                let (i, j) = choose|i: int, j: int|
                    after.holds(i, j) && (#[trigger] after.spaces[i][j]).window == wid;
                if i < last {
                    assert(set.holds(i, j) && set.spaces[i][j].window == wid);
                } else {
                    let origin = lemma_joined_origin(set.spaces, last, n, j);
                    assert(set.holds(origin.0, origin.1) && set.spaces[origin.0][origin.1].window
                        == wid);
                }
            }
            if set.tracks(wid) {
                let (i, j) = choose|i: int, j: int|
                    set.holds(i, j) && (#[trigger] set.spaces[i][j]).window == wid;
                if i < last {
                    assert(after.holds(i, j) && after.spaces[i][j].window == wid);
                } else {
                    lemma_joined_holds(set.spaces, last, n, i, j);
                    let p = joined(set.spaces, last, i).len() + j;
                    assert(after.holds(last, p) && after.spaces[last][p].window == wid);
                }
            }
        }
        assert forall|i: int, j: int, k: int, l: int|
            after.holds(i, j) && after.holds(k, l) && (i != k || j != l) implies (
        #[trigger] after.spaces[i][j]).window != (#[trigger] after.spaces[k][l]).window by {
            let a = if i < last {
                (i, j)
            } else {
                lemma_joined_origin(set.spaces, last, n, j)
            };
            let b = if k < last {
                (k, l)
            } else {
                lemma_joined_origin(set.spaces, last, n, l)
            };
            assert(set.holds(a.0, a.1) && set.spaces[a.0][a.1] == after.spaces[i][j]);
            assert(set.holds(b.0, b.1) && set.spaces[b.0][b.1] == after.spaces[k][l]);
            assert(a.0 != b.0 || a.1 != b.1);
        }
    }
}

/// Changing the number of workspaces to the same size a second time changes
/// nothing.
pub proof fn lemma_resize_twice(set: WorkspaceSet, size: int)
    ensures
        set.resized(size).resized(size) == set.resized(size),
{
    let once = set.resized(size);
    if size > 0 {
        assert(once.len() == size);
        assert(once.resized(size).spaces =~= once.spaces);
    }
}

/// A float toggle of a dock changes nothing.
pub proof fn lemma_toggle_dock(set: WorkspaceSet, wid: u32)
    requires
        position(set.visible(), wid) matches Some(index) && set.visible()[index].state
            == State::Dock,
    ensures
        set.toggled(wid) == set,
{
    lemma_position(set.visible(), wid);
    let index = position(set.visible(), wid)->0;
    let clients = set.visible();
    assert(clients.update(index, Client { window: clients[index].window, state: State::Dock })
        =~= clients);
    assert(set.toggled(wid).spaces =~= set.spaces);
}

/// A second float toggle of the same window undoes the first: a tiled client
/// is tiled again, a floating one floats again.
pub proof fn lemma_toggle_twice(set: WorkspaceSet, wid: u32)
    ensures
        set.toggled(wid).toggled(wid) == set,
{
    lemma_position(set.visible(), wid);
    if let Some(index) = position(set.visible(), wid) {
        let once = set.toggled(wid);
        let clients = set.visible();
        let toggled = Client { window: wid, state: clients[index].state.toggled() };
        assert(once.visible() == clients.update(index, toggled));
        lemma_position_same_windows(clients, once.visible(), wid);
        assert(once.visible().update(index, clients[index]) =~= clients);
        assert(once.toggled(wid).spaces =~= set.spaces);
    }
}

} // verus!
