//! What the tiler does with the clients of a set of workspaces: which slot
//! of the usable area each tiled client gets, and which windows are shown and
//! hidden.

use vstd::prelude::*;
use crate::action::Action;
use crate::area::{lemma_inset_within, lemma_split_tiles, lemma_split_within, Area};
use crate::client::{Client, State};
use crate::workspaces::WorkspaceSet;

verus! {

/// Number of tiled clients in a list.
pub open spec fn tiled_count(clients: Seq<Client>) -> nat
    decreases clients.len(),
{
    if clients.len() == 0 {
        0
    } else {
        tiled_count(clients.drop_last()) + if clients.last().state == State::Tiled {
            1nat
        } else {
            0nat
        }
    }
}

/// Number of tiled clients before position `index`.
pub open spec fn rank(clients: Seq<Client>, index: int) -> nat {
    tiled_count(clients.subrange(0, index))
}

/// What is left of `area` after `cuts` splits, each of which hands out the
/// first half and goes on with the second.
pub open spec fn residue(area: Area, cuts: nat) -> Area
    decreases cuts,
{
    if cuts == 0 {
        area
    } else {
        residue(area, (cuts - 1) as nat).second_half()
    }
}

/// The slot of the tiled client number `k` among `n` tiled clients, counted
/// from zero: the last one takes all that the clients before it left, every
/// other one the first half of what was left to it.
pub open spec fn slot(area: Area, n: nat, k: nat) -> Area {
    if k + 1 == n {
        residue(area, k)
    } else {
        residue(area, k).first_half()
    }
}

/// The slot of the client at `index`, which is tiled.
pub open spec fn slot_of(clients: Seq<Client>, index: int, area: Area) -> Area {
    slot(area, tiled_count(clients), rank(clients, index))
}

/// The geometry that the tiler gives the client at `index`, which is tiled:
/// its slot with the gaps taken off.
pub open spec fn placement(clients: Seq<Client>, index: int, area: Area, gaps: u16) -> Area {
    slot_of(clients, index, area).inset(gaps)
}

/// What the tiler asks for one client of the current workspace: a tiled
/// client is placed, and every client is shown.
pub open spec fn shown_client(clients: Seq<Client>, index: int, area: Area, gaps: u16) -> Seq<
    Action,
> {
    if clients[index].state == State::Tiled {
        seq![
            Action::MoveResize {
                window: clients[index].window,
                area: placement(clients, index, area, gaps),
            },
            Action::MapWindow { window: clients[index].window },
        ]
    } else {
        seq![Action::MapWindow { window: clients[index].window }]
    }
}

/// What the tiler asks for the first `upto` clients of the current workspace.
pub open spec fn shown_upto(clients: Seq<Client>, area: Area, gaps: u16, upto: int) -> Seq<Action>
    decreases upto,
{
    if upto <= 0 {
        Seq::empty()
    } else {
        shown_upto(clients, area, gaps, upto - 1) + shown_client(clients, upto - 1, area, gaps)
    }
}

/// What the tiler asks for the clients of the current workspace.
pub open spec fn shown(clients: Seq<Client>, area: Area, gaps: u16) -> Seq<Action> {
    shown_upto(clients, area, gaps, clients.len() as int)
}

/// What the tiler asks for the first `upto` clients of a workspace that is
/// not current: tiled and floating clients are hidden, docks are left alone.
pub open spec fn hidden_upto(clients: Seq<Client>, upto: int) -> Seq<Action>
    decreases upto,
{
    if upto <= 0 {
        Seq::empty()
    } else if clients[upto - 1].state == State::Dock {
        hidden_upto(clients, upto - 1)
    } else {
        hidden_upto(clients, upto - 1).push(Action::UnmapWindow { window: clients[upto - 1].window })
    }
}

/// What the tiler asks for the first `upto` workspaces but for the current
/// one.
pub open spec fn others_upto(set: WorkspaceSet, upto: int) -> Seq<Action>
    decreases upto,
{
    if upto <= 0 {
        Seq::empty()
    } else if upto - 1 == set.current {
        others_upto(set, upto - 1)
    } else {
        others_upto(set, upto - 1) + hidden_upto(
            set.spaces[upto - 1],
            set.spaces[upto - 1].len() as int,
        )
    }
}

/// All that the tiler asks for a set of workspaces on the usable area of its
/// monitor: first the clients of the current workspace in their order, then
/// those of the other workspaces.
pub open spec fn plan(set: WorkspaceSet, area: Area, gaps: u16) -> Seq<Action> {
    shown(set.visible(), area, gaps) + others_upto(set, set.len())
}

/// The rank grows by one behind a tiled client and stays behind any other.
pub proof fn lemma_rank_step(clients: Seq<Client>, index: int)
    requires
        0 <= index < clients.len(),
    ensures
        rank(clients, index + 1) == rank(clients, index) + if clients[index].state == State::Tiled {
            1nat
        } else {
            0nat
        },
        rank(clients, 0) == 0,
{
    assert(clients.subrange(0, index + 1).drop_last() =~= clients.subrange(0, index));
    assert(clients.subrange(0, 0) =~= Seq::<Client>::empty());
}

/// No position has more tiled clients before it than the list holds.
pub proof fn lemma_rank_bound(clients: Seq<Client>, index: int)
    requires
        0 <= index <= clients.len(),
    ensures
        rank(clients, index) <= tiled_count(clients),
        rank(clients, clients.len() as int) == tiled_count(clients),
    decreases clients.len() - index,
{
    assert(clients.subrange(0, clients.len() as int) =~= clients);
    if index < clients.len() {
        lemma_rank_step(clients, index);
        lemma_rank_bound(clients, index + 1);
    }
}

/// What is left after any number of splits lies within the area.
pub proof fn lemma_residue_within(area: Area, cuts: nat)
    requires
        area.addressable(),
    ensures
        residue(area, cuts).within(area),
        residue(area, cuts).addressable(),
    decreases cuts,
{
    if cuts > 0 {
        lemma_residue_within(area, (cuts - 1) as nat);
        lemma_split_within(residue(area, (cuts - 1) as nat));
    }
}

/// Every slot lies within the area.
pub proof fn lemma_slot_within(area: Area, n: nat, k: nat)
    requires
        area.addressable(),
    ensures
        slot(area, n, k).within(area),
{
    lemma_residue_within(area, k);
    lemma_split_within(residue(area, k));
}

/// Every tiled client whose slot is at least two gaps wide and high is
/// placed inside the area with a distance of `gaps` to each of its edges.
pub proof fn lemma_placement_keeps_gaps(clients: Seq<Client>, index: int, area: Area, gaps: u16)
    requires
        0 <= index < clients.len(),
        clients[index].state == State::Tiled,
        area.addressable(),
        2 * gaps <= slot_of(clients, index, area).width,
        2 * gaps <= slot_of(clients, index, area).height,
    ensures
        placement(clients, index, area, gaps).x >= area.x + gaps,
        placement(clients, index, area, gaps).y >= area.y + gaps,
        placement(clients, index, area, gaps).x + placement(clients, index, area, gaps).width
            <= area.x + area.width - gaps,
        placement(clients, index, area, gaps).y + placement(clients, index, area, gaps).height
            <= area.y + area.height - gaps,
{
    lemma_slot_within(area, tiled_count(clients), rank(clients, index));
    lemma_inset_within(slot_of(clients, index, area), area, gaps);
}

/// A point lies in the area exactly if it lies in one of the first `cuts`
/// slots or in what is left after `cuts` splits, and it lies in one of them
/// only.
pub proof fn lemma_cuts_tile(area: Area, n: nat, cuts: nat, px: int, py: int)
    requires
        area.addressable(),
        cuts < n,
    ensures
        area.covers(px, py) <==> (residue(area, cuts).covers(px, py) || exists|k: nat|
            k < cuts && #[trigger] slot(area, n, k).covers(px, py)),
        forall|k: nat|
            k < cuts && #[trigger] slot(area, n, k).covers(px, py) ==> !residue(area, cuts).covers(
                px,
                py,
            ),
        forall|k: nat, l: nat|
            k < l < cuts ==> !(#[trigger] slot(area, n, k).covers(px, py) && #[trigger] slot(
                area,
                n,
                l,
            ).covers(px, py)),
    decreases cuts,
{
    if cuts > 0 {
        let before = (cuts - 1) as nat;
        lemma_cuts_tile(area, n, before, px, py);
        lemma_residue_within(area, before);
        lemma_split_tiles(residue(area, before), px, py);
        assert(slot(area, n, before) == residue(area, before).first_half());
        assert(residue(area, cuts) == residue(area, before).second_half());
        if area.covers(px, py) && !residue(area, cuts).covers(px, py) {
            if residue(area, before).covers(px, py) {
                assert(slot(area, n, before).covers(px, py));
            } else {
                let k = choose|k: nat| k < before && #[trigger] slot(area, n, k).covers(px, py);
                assert(k < cuts && slot(area, n, k).covers(px, py));
            }
        }
    }
}

/// The slots of the tiled clients tile the area: every point of the area
/// lies in exactly one slot, and the slots hold no other point.
pub proof fn lemma_slots_tile(area: Area, n: nat, px: int, py: int)
    requires
        area.addressable(),
        n > 0,
    ensures
        area.covers(px, py) <==> exists|k: nat| k < n && #[trigger] slot(area, n, k).covers(px, py),
        forall|k: nat, l: nat|
            k < l < n ==> !(#[trigger] slot(area, n, k).covers(px, py) && #[trigger] slot(
                area,
                n,
                l,
            ).covers(px, py)),
{
    let last = (n - 1) as nat;
    lemma_cuts_tile(area, n, last, px, py);
    assert(slot(area, n, last) == residue(area, last));
    if area.covers(px, py) {
        if residue(area, last).covers(px, py) {
            assert(last < n && slot(area, n, last).covers(px, py));
        } else {
            let k = choose|k: nat| k < last && #[trigger] slot(area, n, k).covers(px, py);
            assert(k < n && slot(area, n, k).covers(px, py));
        }
    }
    if exists|k: nat| k < n && #[trigger] slot(area, n, k).covers(px, py) {
        let k = choose|k: nat| k < n && #[trigger] slot(area, n, k).covers(px, py);
        if k < last {
            assert(area.covers(px, py));
        }
    }
}

/// The tiler asks one request for every client of the current workspace
/// and one more for every tiled one.
pub proof fn lemma_shown_len(clients: Seq<Client>, area: Area, gaps: u16, upto: int)
    requires
        0 <= upto <= clients.len(),
    ensures
        shown_upto(clients, area, gaps, upto).len() == upto + rank(clients, upto),
    decreases upto,
{
    if upto > 0 {
        lemma_shown_len(clients, area, gaps, upto - 1);
        lemma_rank_step(clients, upto - 1);
    } else {
        assert(clients.subrange(0, 0) =~= Seq::<Client>::empty());
    }
}

/// What the tiler asks for the first clients stays in front when more
/// clients are taken in.
pub proof fn lemma_shown_prefix(clients: Seq<Client>, area: Area, gaps: u16, from: int, upto: int)
    requires
        0 <= from <= upto <= clients.len(),
    ensures
        shown_upto(clients, area, gaps, from).len() <= shown_upto(clients, area, gaps, upto).len(),
        forall|p: int|
            0 <= p < shown_upto(clients, area, gaps, from).len() ==> shown_upto(
                clients,
                area,
                gaps,
                upto,
            )[p] == shown_upto(clients, area, gaps, from)[p],
    decreases upto - from,
{
    if from < upto {
        lemma_shown_prefix(clients, area, gaps, from, upto - 1);
    }
}

/// The request that places the tiled client at `index` stands in the plan of
/// the workspace set, behind one request for every client before it and one
/// more for every tiled one of them, and it places the client in its slot
/// less the gaps.
pub proof fn lemma_plan_places(set: WorkspaceSet, index: int, area: Area, gaps: u16)
    requires
        0 <= index < set.visible().len(),
        set.visible()[index].state == State::Tiled,
    ensures
        index + rank(set.visible(), index) < plan(set, area, gaps).len(),
        plan(set, area, gaps)[index + rank(set.visible(), index)] == (Action::MoveResize {
            window: set.visible()[index].window,
            area: placement(set.visible(), index, area, gaps),
        }),
{
    let clients = set.visible();
    lemma_shown_len(clients, area, gaps, index);
    lemma_shown_len(clients, area, gaps, index + 1);
    lemma_shown_prefix(clients, area, gaps, index + 1, clients.len() as int);
    let at = index + rank(clients, index);
    assert(shown_upto(clients, area, gaps, index + 1)[at] == shown_client(
        clients,
        index,
        area,
        gaps,
    )[0]);
}

/// After tiling, every tiled client of the current workspace whose slot is
/// at least two gaps wide and high lies inside the area with a distance of
/// `gaps` to each of its edges.
pub proof fn lemma_tile_keeps_gaps(set: WorkspaceSet, index: int, area: Area, gaps: u16)
    requires
        0 <= index < set.visible().len(),
        set.visible()[index].state == State::Tiled,
        area.addressable(),
        2 * gaps <= slot_of(set.visible(), index, area).width,
        2 * gaps <= slot_of(set.visible(), index, area).height,
    ensures
        plan(set, area, gaps)[index + rank(set.visible(), index)] matches Action::MoveResize {
            window,
            area: placed,
        } && {
            &&& window == set.visible()[index].window
            &&& placed.x >= area.x + gaps
            &&& placed.y >= area.y + gaps
            &&& placed.x + placed.width <= area.x + area.width - gaps
            &&& placed.y + placed.height <= area.y + area.height - gaps
        },
{
    lemma_plan_places(set, index, area, gaps);
    lemma_placement_keeps_gaps(set.visible(), index, area, gaps);
}

} // verus!
