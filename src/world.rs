use vstd::prelude::*;

use crate::agent::{first_max_index, lemma_first_max_index, move_choice, Agent, AgentView};
use crate::cell::{Cell, CellView};
use crate::errors::SimulationError;
use crate::traits::Updatable;

verus! {

/// Resource granted to the cell where an agent dies.
pub const CORPSE_RESOURCE: u32 = 5;

/// Permanent regeneration-rate bonus granted to the cell where an agent dies.
pub const CORPSE_REGEN_BONUS: u32 = 1;

/// The abstract state of a [`World`].
pub struct WorldView {
    pub width: usize,
    pub height: usize,
    pub cells: Seq<CellView>,
    pub agents: Seq<AgentView>,
    pub max_agents: usize,
}

impl WorldView {
    /// A non-empty grid of well-formed cells, the cell with id `i` at index
    /// `i`, the agent with id `i` at index `i`, and every agent on a cell.
    pub open spec fn wf(self) -> bool {
        &&& self.width > 0
        &&& self.height > 0
        &&& self.width * self.height == self.cells.len()
        &&& forall|c: int|
            0 <= c < self.cells.len() ==> (#[trigger] self.cells[c]).wf() && self.cells[c].id
                == c
        &&& forall|i: int|
            0 <= i < self.agents.len() ==> (#[trigger] self.agents[i]).cid < self.cells.len()
                && self.agents[i].id == i
    }
}

/// The ids of the cells above, below, left of and right of `cid`, in that
/// order, leaving out those that fall outside the grid.
pub open spec fn neighbor_ids(width: usize, height: usize, cid: usize) -> Seq<usize> {
    let x = cid % width;
    let y = cid / width;
    let north = if y > 0 {
        seq![((y - 1) * width + x) as usize]
    } else {
        Seq::empty()
    };
    let south = if y + 1 < height {
        seq![((y + 1) * width + x) as usize]
    } else {
        Seq::empty()
    };
    let west = if x > 0 {
        seq![(y * width + x - 1) as usize]
    } else {
        Seq::empty()
    };
    let east = if x + 1 < width {
        seq![(y * width + x + 1) as usize]
    } else {
        Seq::empty()
    };
    north + south + west + east
}

/// The `(cell_id, resource)` pairs of the neighbors of `cid`.
pub open spec fn neighbor_snapshot(w: WorldView, cid: usize) -> Seq<(usize, u32)> {
    neighbor_ids(w.width, w.height, cid).map_values(
        |n: usize| (n, w.cells[n as int].cur_resource),
    )
}

/// Grid coordinates of a cell id, and the bounds of its neighbors' ids.
proof fn lemma_grid_coords(width: usize, height: usize, cid: usize)
    requires
        width > 0,
        cid < width * height,
    ensures
        cid == (cid / width) * width + cid % width,
        cid % width < width,
        cid / width < height,
        cid / width > 0 ==> ((cid / width - 1) * width + cid % width) == cid - width,
        (cid / width + 1) < height ==> ((cid / width + 1) * width + cid % width) < width
            * height,
        (cid / width + 1) < height ==> ((cid / width + 1) * width + cid % width) == cid
            + width,
        (cid / width) * width + width <= width * height,
{
    let x = cid % width;
    let y = cid / width;
    assert(cid == y * width + x && x < width) by (nonlinear_arith)
        requires
            width > 0,
            x == cid % width,
            y == cid / width,
    ;
    assert(y < height) by (nonlinear_arith)
        requires
            cid == y * width + x,
            cid < width * height,
            0 <= x,
            width > 0,
    ;
    assert(y > 0 ==> (y - 1) * width + x == cid - width) by (nonlinear_arith)
        requires
            cid == y * width + x,
    ;
    assert(y + 1 < height ==> (y + 1) * width + x < width * height) by (nonlinear_arith)
        requires
            x < width,
            width > 0,
    ;
    assert((y + 1) * width + x == cid + width) by (nonlinear_arith)
        requires
            cid == y * width + x,
    ;
    assert(y * width + width <= width * height) by (nonlinear_arith)
        requires
            y < height,
            width > 0,
    ;
}

/// Every neighbor of a cell of the grid is a cell of the grid.
proof fn lemma_neighbor_ids_in_grid(width: usize, height: usize, cid: usize)
    requires
        width > 0,
        cid < width * height,
    ensures
        forall|j: int|
            0 <= j < neighbor_ids(width, height, cid).len() ==> #[trigger] neighbor_ids(
                width,
                height,
                cid,
            )[j] < width * height,
{
    lemma_grid_coords(width, height, cid);
    let x = cid % width;
    let y = cid / width;
    let north: Seq<usize> = if y > 0 {
        seq![((y - 1) * width + x) as usize]
    } else {
        Seq::empty()
    };
    let south: Seq<usize> = if y + 1 < height {
        seq![((y + 1) * width + x) as usize]
    } else {
        Seq::empty()
    };
    let west: Seq<usize> = if x > 0 {
        seq![(y * width + x - 1) as usize]
    } else {
        Seq::empty()
    };
    let east: Seq<usize> = if x + 1 < width {
        seq![(y * width + x + 1) as usize]
    } else {
        Seq::empty()
    };
    let all = north + south + west + east;
    assert(all == neighbor_ids(width, height, cid));
    assert forall|j: int| 0 <= j < all.len() implies #[trigger] all[j] < width * height by {
        if j < north.len() {
        } else if j < north.len() + south.len() {
        } else if j < north.len() + south.len() + west.len() {
        } else {
        }
    }
}

/// Number of living agents among the first `k` that stand on cell `c`.
pub open spec fn residents_upto(agents: Seq<AgentView>, c: int, k: int) -> nat
    decreases k,
{
    if k <= 0 {
        0
    } else {
        residents_upto(agents, c, k - 1) + if agents[k - 1].alive && agents[k - 1].cid == c {
            1nat
        } else {
            0nat
        }
    }
}

/// Number of living agents that stand on cell `c`.
pub open spec fn residents(agents: Seq<AgentView>, c: int) -> nat {
    residents_upto(agents, c, agents.len() as int)
}

/// The share of cell `c`'s resource offered to each of its residents:
/// `cur_resource / residents`, rounded down.
pub open spec fn base_share(cells: Seq<CellView>, agents: Seq<AgentView>, c: int) -> u32 {
    if residents(agents, c) == 0 {
        0
    } else {
        (cells[c].cur_resource as nat / residents(agents, c)) as u32
    }
}

/// A living agent on a cell that holds resource is offered the cell's base share.
pub open spec fn is_served(cells: Seq<CellView>, a: AgentView) -> bool {
    a.alive && cells[a.cid as int].cur_resource > 0
}

/// Agent `i` after the allocation phase.
pub open spec fn allocated_agent(
    cells: Seq<CellView>,
    agents: Seq<AgentView>,
    i: int,
) -> AgentView {
    if is_served(cells, agents[i]) {
        agents[i].fed(base_share(cells, agents, agents[i].cid as int))
    } else {
        agents[i]
    }
}

/// What the first `k` agents claim of cell `c` in the allocation phase.
pub open spec fn claimed_upto(cells: Seq<CellView>, agents: Seq<AgentView>, c: int, k: int) -> nat
    decreases k,
{
    if k <= 0 {
        0
    } else {
        claimed_upto(cells, agents, c, k - 1) + if is_served(cells, agents[k - 1])
            && agents[k - 1].cid == c {
            agents[k - 1].take_of(base_share(cells, agents, c)) as nat
        } else {
            0nat
        }
    }
}

/// What all agents claim of cell `c` in the allocation phase.
pub open spec fn claimed(cells: Seq<CellView>, agents: Seq<AgentView>, c: int) -> nat {
    claimed_upto(cells, agents, c, agents.len() as int)
}

/// The world after the allocation phase: each served agent takes
/// `min(base_share, consumption_rate)`, and each cell loses exactly what its
/// residents took; the remainder of the division and unneeded shares stay.
pub open spec fn allocated(w: WorldView) -> WorldView {
    WorldView {
        cells: Seq::new(
            w.cells.len(),
            |c: int| w.cells[c].taken(claimed(w.cells, w.agents, c) as u32),
        ),
        agents: Seq::new(w.agents.len(), |i: int| allocated_agent(w.cells, w.agents, i)),
        ..w
    }
}

/// The sum of the allocations of the first `k` living agents on cell `c`.
pub open spec fn allocations_upto(agents: Seq<AgentView>, c: int, k: int) -> nat
    decreases k,
{
    if k <= 0 {
        0
    } else {
        allocations_upto(agents, c, k - 1) + if agents[k - 1].alive && agents[k - 1].cid == c {
            agents[k - 1].allocated_resource as nat
        } else {
            0nat
        }
    }
}

proof fn lemma_residents_monotone(agents: Seq<AgentView>, c: int, k: int, m: int)
    requires
        0 <= k <= m <= agents.len(),
    ensures
        residents_upto(agents, c, k) <= residents_upto(agents, c, m),
        residents_upto(agents, c, m) <= m,
    decreases m,
{
    if m > 0 {
        if k < m {
            lemma_residents_monotone(agents, c, k, m - 1);
        } else {
            lemma_residents_monotone(agents, c, k - 1, m - 1);
        }
    }
}

proof fn lemma_claimed_bound(cells: Seq<CellView>, agents: Seq<AgentView>, c: int, k: int)
    requires
        0 <= k <= agents.len(),
    ensures
        claimed_upto(cells, agents, c, k) <= base_share(cells, agents, c) * residents_upto(
            agents,
            c,
            k,
        ),
    decreases k,
{
    if k > 0 {
        lemma_claimed_bound(cells, agents, c, k - 1);
        let s = base_share(cells, agents, c) as int;
        let r = residents_upto(agents, c, k - 1) as int;
        assert(s * (r + 1) == s * r + s) by (nonlinear_arith);
    }
}

/// The base shares of a cell's residents fit in what it holds.
proof fn lemma_shares_fit(cells: Seq<CellView>, agents: Seq<AgentView>, c: int)
    requires
        0 <= c < cells.len(),
        residents(agents, c) > 0,
    ensures
        base_share(cells, agents, c) * residents(agents, c) <= cells[c].cur_resource,
{
    let t = cells[c].cur_resource as int;
    let n = residents(agents, c) as int;
    assert((t / n) * n <= t) by (nonlinear_arith)
        requires
            n > 0,
            t >= 0,
    ;
    assert(t / n <= t) by (nonlinear_arith)
        requires
            n > 0,
            t >= 0,
    ;
}

/// A cell claims at most what it holds, and nothing when it has no
/// residents or holds no resource.
proof fn lemma_claimed_fits(cells: Seq<CellView>, agents: Seq<AgentView>, c: int)
    requires
        0 <= c < cells.len(),
    ensures
        claimed(cells, agents, c) <= cells[c].cur_resource,
        residents(agents, c) == 0 || cells[c].cur_resource == 0 ==> claimed(cells, agents, c)
            == 0,
{
    lemma_claimed_bound(cells, agents, c, agents.len() as int);
    if residents(agents, c) == 0 || cells[c].cur_resource == 0 {
        lemma_claimed_zero(cells, agents, c, agents.len() as int);
    }
    if residents(agents, c) > 0 {
        lemma_shares_fit(cells, agents, c);
    }
}

proof fn lemma_claimed_zero(cells: Seq<CellView>, agents: Seq<AgentView>, c: int, k: int)
    requires
        0 <= k <= agents.len(),
        0 <= c < cells.len(),
        cells[c].cur_resource == 0 || residents_upto(agents, c, k) == 0,
    ensures
        claimed_upto(cells, agents, c, k) == 0,
    decreases k,
{
    if k > 0 {
        lemma_residents_monotone(agents, c, k - 1, k);
        lemma_claimed_zero(cells, agents, c, k - 1);
    }
}

/// The world after every cell regenerated once.
pub open spec fn regenerated(w: WorldView) -> WorldView {
    WorldView { cells: Seq::new(w.cells.len(), |c: int| w.cells[c].regenerated()), ..w }
}

/// The world after agent `i` was replaced by `a`.
pub open spec fn with_agent(w: WorldView, i: int, a: AgentView) -> WorldView {
    WorldView { agents: w.agents.update(i, a), ..w }
}

/// The world after an agent died on cell `c`: the cell gains the corpse
/// resource and the regeneration bonus, each capped at its maximum.
pub open spec fn with_corpse(w: WorldView, c: int) -> WorldView {
    WorldView {
        cells: w.cells.update(
            c,
            w.cells[c].added(CORPSE_RESOURCE).rate_increased(CORPSE_REGEN_BONUS),
        ),
        ..w
    }
}

/// A living agent after its hunger-driven move: a hungry agent moves to the
/// neighbor chosen by [`move_choice`], if any; a fed one stays.
pub open spec fn after_move(w: WorldView, a: AgentView) -> AgentView {
    if a.hungry() {
        match move_choice(neighbor_snapshot(w, a.cid)) {
            Some(t) => a.moved(t),
            None => a,
        }
    } else {
        a
    }
}

/// The world after agent `i` took its step: a dead agent is skipped; a
/// living one moves if hungry, then metabolizes unless the move killed it;
/// when it dies, the cell it died on receives the corpse bonus.
pub open spec fn agent_stepped(w: WorldView, i: int) -> WorldView {
    let a = w.agents[i];
    if !a.alive {
        w
    } else {
        let moved = after_move(w, a);
        if !moved.alive {
            with_corpse(with_agent(w, i, moved), moved.cid as int)
        } else {
            let fed = moved.metabolized();
            if !fed.alive {
                with_corpse(with_agent(w, i, fed), fed.cid as int)
            } else {
                with_agent(w, i, fed)
            }
        }
    }
}

/// The world after the first `k` agents took their step, in id order.
pub open spec fn agents_stepped(w: WorldView, k: int) -> WorldView
    decreases k,
{
    if k <= 0 {
        w
    } else {
        agent_stepped(agents_stepped(w, k - 1), k - 1)
    }
}

/// The world after one tick: regeneration, allocation, then every agent's step.
pub open spec fn ticked(w: WorldView) -> WorldView {
    agents_stepped(allocated(regenerated(w)), w.agents.len() as int)
}

/// A hungry agent only moves to a cell of the grid.
proof fn lemma_move_target_in_grid(w: WorldView, cid: usize)
    requires
        w.wf(),
        cid < w.cells.len(),
    ensures
        move_choice(neighbor_snapshot(w, cid)) matches Some(t) ==> t < w.cells.len(),
{
    let s = neighbor_snapshot(w, cid);
    lemma_neighbor_ids_in_grid(w.width, w.height, cid);
    if s.len() > 0 {
        lemma_first_max_index(s);
        let k = first_max_index(s);
        assert(s[k].0 == neighbor_ids(w.width, w.height, cid)[k]);
    }
}

/// A corpse bonus keeps the world well formed.
proof fn lemma_corpse_wf(w: WorldView, c: int)
    requires
        w.wf(),
        0 <= c < w.cells.len(),
    ensures
        with_corpse(w, c).wf(),
{
    let r = with_corpse(w, c);
    assert forall|d: int| 0 <= d < r.cells.len() implies (#[trigger] r.cells[d]).wf()
        && r.cells[d].id == d by {
        assert(w.cells[d].wf());
    }
}

/// One agent's step keeps the world well formed and changes no other agent.
pub proof fn lemma_agent_stepped_wf(w: WorldView, i: int)
    requires
        w.wf(),
        0 <= i < w.agents.len(),
    ensures
        agent_stepped(w, i).wf(),
        agent_stepped(w, i).agents.len() == w.agents.len(),
        agent_stepped(w, i).cells.len() == w.cells.len(),
        (agent_stepped(w, i).width, agent_stepped(w, i).height, agent_stepped(w, i).max_agents)
            == (w.width, w.height, w.max_agents),
        forall|j: int|
            0 <= j < w.agents.len() && j != i ==> #[trigger] agent_stepped(w, i).agents[j]
                == w.agents[j],
{
    let a = w.agents[i];
    if a.alive {
        lemma_move_target_in_grid(w, a.cid);
        let moved = after_move(w, a);
        let fed = moved.metabolized();
        let wm = with_agent(w, i, moved);
        let wf2 = with_agent(w, i, fed);
        assert(wm.wf());
        assert(wf2.wf());
        lemma_corpse_wf(wm, moved.cid as int);
        lemma_corpse_wf(wf2, fed.cid as int);
    }
}

/// The allocation phase keeps the world well formed.
proof fn lemma_allocated_wf(w: WorldView)
    requires
        w.wf(),
    ensures
        allocated(w).wf(),
{
    let r = allocated(w);
    assert forall|c: int| 0 <= c < r.cells.len() implies (#[trigger] r.cells[c]).wf()
        && r.cells[c].id == c by {
        lemma_claimed_fits(w.cells, w.agents, c);
        assert(w.cells[c].wf());
    }
    assert forall|i: int| 0 <= i < r.agents.len() implies (#[trigger] r.agents[i]).cid
        < r.cells.len() && r.agents[i].id == i by {
        assert(w.agents[i].cid < w.cells.len());
    }
}

/// Stepping any number of agents keeps the world well formed, with the
/// same grid, the same number of agents, and no agent beyond the first `k`
/// changed.
pub proof fn lemma_agents_stepped_wf(w: WorldView, k: int)
    requires
        w.wf(),
        0 <= k <= w.agents.len(),
    ensures
        agents_stepped(w, k).wf(),
        agents_stepped(w, k).agents.len() == w.agents.len(),
        (agents_stepped(w, k).width, agents_stepped(w, k).height, agents_stepped(w, k).max_agents)
            == (w.width, w.height, w.max_agents),
        forall|j: int|
            k <= j < w.agents.len() ==> #[trigger] agents_stepped(w, k).agents[j] == w.agents[j],
    decreases k,
{
    if k > 0 {
        lemma_agents_stepped_wf(w, k - 1);
        lemma_agent_stepped_wf(agents_stepped(w, k - 1), k - 1);
    }
}

/// Regeneration keeps the world well formed, and changes only resources.
proof fn lemma_regenerated_wf(w: WorldView)
    requires
        w.wf(),
    ensures
        regenerated(w).wf(),
{
    let r = regenerated(w);
    assert forall|c: int| 0 <= c < r.cells.len() implies (#[trigger] r.cells[c]).wf()
        && r.cells[c].id == c by {
        assert(w.cells[c].wf());
    }
}

/// Every cell keeps its resource and regeneration rate within their maxima
/// across a tick, and every agent stays on a cell of the grid.
pub proof fn lemma_ticked_wf(w: WorldView)
    requires
        w.wf(),
    ensures
        ticked(w).wf(),
        ticked(w).agents.len() == w.agents.len(),
        forall|c: int|
            0 <= c < ticked(w).cells.len() ==> (#[trigger] ticked(w).cells[c]).cur_resource
                <= ticked(w).cells[c].max_resource && ticked(w).cells[c].regen_rate
                <= ticked(w).cells[c].max_regen_rate,
{
    lemma_regenerated_wf(w);
    lemma_allocated_wf(regenerated(w));
    lemma_agents_stepped_wf(allocated(regenerated(w)), w.agents.len() as int);
    assert forall|c: int| 0 <= c < ticked(w).cells.len() implies (#[trigger] ticked(
        w,
    ).cells[c]).cur_resource <= ticked(w).cells[c].max_resource && ticked(w).cells[c].regen_rate
        <= ticked(w).cells[c].max_regen_rate by {
        assert(ticked(w).cells[c].wf());
    }
}

/// The world after `n` ticks.
pub open spec fn ticks(w: WorldView, n: nat) -> WorldView
    decreases n,
{
    if n == 0 {
        w
    } else {
        ticked(ticks(w, (n - 1) as nat))
    }
}

/// After any number of ticks the world is still well formed: every cell
/// keeps `cur_resource <= max_resource` and `regen_rate <= max_regen_rate`,
/// and the agents are the same in number.
pub proof fn lemma_ticks_wf(w: WorldView, n: nat)
    requires
        w.wf(),
    ensures
        ticks(w, n).wf(),
        ticks(w, n).agents.len() == w.agents.len(),
        forall|c: int|
            0 <= c < ticks(w, n).cells.len() ==> (#[trigger] ticks(w, n).cells[c]).cur_resource
                <= ticks(w, n).cells[c].max_resource && ticks(w, n).cells[c].regen_rate
                <= ticks(w, n).cells[c].max_regen_rate,
    decreases n,
{
    if n > 0 {
        let p = ticks(w, (n - 1) as nat);
        lemma_ticks_wf(w, (n - 1) as nat);
        lemma_ticked_wf(p);
    }
}

/// A dead agent stays exactly as it is, however many ticks follow: its
/// cell, health and allocation never change again.
pub proof fn lemma_dead_agents_stay_frozen(w: WorldView, i: int, n: nat)
    requires
        w.wf(),
        0 <= i < w.agents.len(),
        !w.agents[i].alive,
    ensures
        ticks(w, n).agents[i] == w.agents[i],
    decreases n,
{
    if n > 0 {
        let p = ticks(w, (n - 1) as nat);
        lemma_dead_agents_stay_frozen(w, i, (n - 1) as nat);
        lemma_ticks_wf(w, (n - 1) as nat);
        lemma_dead_agents_frozen(p, i);
    }
}

/// A dead agent is left exactly as it was by a tick.
pub proof fn lemma_dead_agents_frozen(w: WorldView, i: int)
    requires
        w.wf(),
        0 <= i < w.agents.len(),
        !w.agents[i].alive,
    ensures
        ticked(w).agents[i] == w.agents[i],
{
    let a = allocated(regenerated(w));
    lemma_regenerated_wf(w);
    lemma_allocated_wf(regenerated(w));
    assert(a.agents[i] == w.agents[i]);
    lemma_dead_agent_skipped(a, i, w.agents.len() as int);
}

proof fn lemma_dead_agent_skipped(w: WorldView, i: int, k: int)
    requires
        w.wf(),
        0 <= i < w.agents.len(),
        0 <= k <= w.agents.len(),
        !w.agents[i].alive,
    ensures
        agents_stepped(w, k).agents[i] == w.agents[i],
    decreases k,
{
    if k > 0 {
        lemma_dead_agent_skipped(w, i, k - 1);
        lemma_agents_stepped_wf(w, k - 1);
        lemma_agent_stepped_wf(agents_stepped(w, k - 1), k - 1);
    }
}

/// What the first `k` agents claim of cell `c` is what the allocation phase
/// granted to those of them living there, when the cell holds resource.
proof fn lemma_claimed_is_granted(w: WorldView, c: int, k: int)
    requires
        w.wf(),
        0 <= c < w.cells.len(),
        0 <= k <= w.agents.len(),
        w.cells[c].cur_resource > 0,
    ensures
        claimed_upto(w.cells, w.agents, c, k) == allocations_upto(allocated(w).agents, c, k),
    decreases k,
{
    if k > 0 {
        lemma_claimed_is_granted(w, c, k - 1);
    }
}

/// Allocation conservation: a cell loses exactly what its residents claimed
/// from it this tick, which is the sum of their new allocations; the
/// remainder of the division and the shares nobody needed stay in the cell.
/// A cell without resource is left as it was.
pub proof fn lemma_allocation_conservation(w: WorldView, c: int)
    requires
        w.wf(),
        0 <= c < w.cells.len(),
    ensures
        w.cells[c].cur_resource - allocated(w).cells[c].cur_resource == claimed(
            w.cells,
            w.agents,
            c,
        ),
        w.cells[c].cur_resource > 0 ==> claimed(w.cells, w.agents, c) == allocations_upto(
            allocated(w).agents,
            c,
            w.agents.len() as int,
        ),
        w.cells[c].cur_resource == 0 ==> allocated(w).cells[c] == w.cells[c],
{
    lemma_claimed_fits(w.cells, w.agents, c);
    if w.cells[c].cur_resource > 0 {
        lemma_claimed_is_granted(w, c, w.agents.len() as int);
    }
}

/// Death recycling: when agent `i` dies in its step, the cell it dies on gains
/// exactly `min(5, max_resource - cur_resource)` resource and
/// `min(1, max_regen_rate - regen_rate)` regeneration rate, and no other cell
/// changes; when it survives, no cell changes.
pub proof fn lemma_death_recycling(w: WorldView, i: int)
    requires
        w.wf(),
        0 <= i < w.agents.len(),
        w.agents[i].alive,
    ensures
        ({
            let r = agent_stepped(w, i);
            let c = r.agents[i].cid as int;
            !r.agents[i].alive ==> {
                &&& r.cells[c].cur_resource - w.cells[c].cur_resource == if w.cells[c].max_resource
                    - w.cells[c].cur_resource <= CORPSE_RESOURCE {
                    w.cells[c].max_resource - w.cells[c].cur_resource
                } else {
                    CORPSE_RESOURCE as int
                }
                &&& r.cells[c].regen_rate - w.cells[c].regen_rate == if w.cells[c].max_regen_rate
                    - w.cells[c].regen_rate <= CORPSE_REGEN_BONUS {
                    w.cells[c].max_regen_rate - w.cells[c].regen_rate
                } else {
                    CORPSE_REGEN_BONUS as int
                }
                &&& forall|d: int|
                    0 <= d < w.cells.len() && d != c ==> #[trigger] r.cells[d] == w.cells[d]
            }
        }),
        agent_stepped(w, i).agents[i].alive ==> agent_stepped(w, i).cells == w.cells,
{
    lemma_agent_stepped_wf(w, i);
    let r = agent_stepped(w, i);
    let c = r.agents[i].cid as int;
    assert(w.cells[c].wf());
}

/// A world without agents only regrows: a tick changes nothing but the
/// cells' resources, each of which grows toward its maximum.
pub proof fn lemma_tick_without_agents(w: WorldView)
    requires
        w.wf(),
        w.agents.len() == 0,
    ensures
        ticked(w) == regenerated(w),
        ticked(w).agents == w.agents,
        ticked(w).cells.len() == w.cells.len(),
        forall|c: int|
            0 <= c < w.cells.len() ==> {
                &&& w.cells[c].cur_resource <= (#[trigger] ticked(w).cells[c]).cur_resource
                    <= w.cells[c].max_resource
                &&& ticked(w).cells[c] == (CellView {
                    cur_resource: ticked(w).cells[c].cur_resource,
                    ..w.cells[c]
                })
            },
{
    let g = regenerated(w);
    let a = allocated(g);
    assert(a.agents =~= g.agents);
    assert forall|c: int| 0 <= c < g.cells.len() implies #[trigger] a.cells[c] == g.cells[c] by {
        assert(claimed(g.cells, g.agents, c) == 0);
    }
    assert(a.cells =~= g.cells);
    assert(a == g);
    assert forall|c: int| 0 <= c < w.cells.len() implies w.cells[c].cur_resource <= (
    #[trigger] ticked(w).cells[c]).cur_resource <= w.cells[c].max_resource by {
        assert(w.cells[c].wf());
    }
}

/// The grid of cells and the agents living on it.
pub struct World {
    size: (usize, usize),
    cells: Vec<Cell>,
    agents: Vec<Agent>,
    max_agents: usize,
}

impl View for World {
    type V = WorldView;

    closed spec fn view(&self) -> WorldView {
        WorldView {
            width: self.size.0,
            height: self.size.1,
            cells: self.cells@.map_values(|c: Cell| c@),
            agents: self.agents@.map_values(|a: Agent| a@),
            max_agents: self.max_agents,
        }
    }
}

impl World {
    /// The world's invariant (see [`WorldView::wf`]).
    pub open spec fn wf(&self) -> bool {
        self@.wf()
    }

    /// Creates a world of `size = (width, height)` from its cells, agents and
    /// the agent bound it was generated with.
    pub fn new(size: (usize, usize), cells: Vec<Cell>, agents: Vec<Agent>, max_agents: usize) -> (r:
        Self)
        requires
            (WorldView {
                width: size.0,
                height: size.1,
                cells: cells@.map_values(|c: Cell| c@),
                agents: agents@.map_values(|a: Agent| a@),
                max_agents,
            }).wf(),
        ensures
            r@ == (WorldView {
                width: size.0,
                height: size.1,
                cells: cells@.map_values(|c: Cell| c@),
                agents: agents@.map_values(|a: Agent| a@),
                max_agents,
            }),
            r.wf(),
    {
        World { size, cells, agents, max_agents }
    }

    /// The grid's `(width, height)`.
    pub fn size(&self) -> (r: (usize, usize))
        ensures
            r == (self@.width, self@.height),
    {
        self.size
    }

    /// All cells, indexed by id.
    pub fn cells(&self) -> (r: &[Cell])
        ensures
            r@.map_values(|c: Cell| c@) == self@.cells,
    {
        self.cells.as_slice()
    }

    /// The cell with id `cid`.
    pub fn cell(&self, cid: usize) -> (r: &Cell)
        requires
            cid < self@.cells.len(),
        ensures
            r@ == self@.cells[cid as int],
    {
        &self.cells[cid]
    }

    /// All agents, dead ones included, indexed by id.
    pub fn agents(&self) -> (r: &[Agent])
        ensures
            r@.map_values(|a: Agent| a@) == self@.agents,
    {
        self.agents.as_slice()
    }

    /// The agent bound the world was generated with.
    pub fn max_agents(&self) -> (r: usize)
        ensures
            r == self@.max_agents,
    {
        self.max_agents
    }

    /// The allocation phase of a tick (see [`allocated`]).
    fn allocate_resources(&mut self)
        requires
            old(self).wf(),
        ensures
            final(self)@ == allocated(old(self)@),
    {
        let ghost w0 = self@;
        let ncells = self.cells.len();
        let nagents = self.agents.len();

        let mut counts: Vec<usize> = Vec::new();
        let mut c: usize = 0;
        while c < ncells
            invariant
                c <= ncells,
                counts@.len() == c,
                forall|d: int| 0 <= d < c ==> counts@[d] == 0,
            decreases ncells - c,
        {
            counts.push(0);
            c = c + 1;
        }
        let mut i: usize = 0;
        while i < nagents
            invariant
                self@ == w0,
                w0.wf(),
                i <= nagents,
                nagents == w0.agents.len(),
                ncells == w0.cells.len(),
                counts@.len() == ncells,
                forall|d: int|
                    0 <= d < ncells ==> #[trigger] counts@[d] == residents_upto(
                        w0.agents,
                        d,
                        i as int,
                    ),
            decreases nagents - i,
        {
            assert(self@.agents[i as int] == self.agents@[i as int]@);
            if self.agents[i].is_alive() {
                let cid = self.agents[i].cid();
                proof {
                    lemma_residents_monotone(w0.agents, cid as int, i as int, i as int);
                }
                counts.set(cid, counts[cid] + 1);
            }
            i = i + 1;
        }

        let mut shares: Vec<u32> = Vec::new();
        let mut unclaimed: Vec<u32> = Vec::new();
        c = 0;
        while c < ncells
            invariant
                self@ == w0,
                w0.wf(),
                c <= ncells,
                nagents == w0.agents.len(),
                ncells == w0.cells.len(),
                counts@.len() == ncells,
                forall|d: int|
                    0 <= d < ncells ==> #[trigger] counts@[d] == residents(w0.agents, d),
                shares@.len() == c,
                unclaimed@.len() == c,
                forall|d: int|
                    0 <= d < c ==> #[trigger] shares@[d] == base_share(w0.cells, w0.agents, d)
                        && unclaimed@[d] + base_share(w0.cells, w0.agents, d) * residents(
                        w0.agents,
                        d,
                    ) == w0.cells[d].cur_resource,
            decreases ncells - c,
        {
            let total = self.cells[c].cur_resource();
            let n = counts[c];
            if n > 0 {
                proof {
                    lemma_shares_fit(w0.cells, w0.agents, c as int);
                }
                let base = (total as usize) / n;
                assert(base * n <= total) by (nonlinear_arith)
                    requires
                        base == (total as usize) / n,
                        n > 0,
                ;
                shares.push(base as u32);
                unclaimed.push(total - (base * n) as u32);
            } else {
                shares.push(0);
                unclaimed.push(total);
            }
            c = c + 1;
        }

        assert forall|d: int| 0 <= d < ncells && residents(w0.agents, d) > 0
            && w0.cells[d].cur_resource > 0 implies #[trigger] unclaimed@[d] + claimed_upto(
            w0.cells,
            w0.agents,
            d,
            0,
        ) + base_share(w0.cells, w0.agents, d) * (residents(w0.agents, d) - residents_upto(
            w0.agents,
            d,
            0,
        )) == w0.cells[d].cur_resource by {
            assert(shares@[d] == base_share(w0.cells, w0.agents, d));
        }
        i = 0;
        while i < nagents
            invariant
                w0.wf(),
                i <= nagents,
                nagents == w0.agents.len(),
                ncells == w0.cells.len(),
                self@.width == w0.width,
                self@.height == w0.height,
                self@.max_agents == w0.max_agents,
                self@.cells == w0.cells,
                self@.agents.len() == nagents,
                forall|j: int|
                    0 <= j < i ==> #[trigger] self@.agents[j] == allocated_agent(
                        w0.cells,
                        w0.agents,
                        j,
                    ),
                forall|j: int| i <= j < nagents ==> #[trigger] self@.agents[j] == w0.agents[j],
                shares@.len() == ncells,
                unclaimed@.len() == ncells,
                forall|d: int|
                    0 <= d < ncells ==> #[trigger] shares@[d] == base_share(w0.cells, w0.agents, d),
                forall|d: int|
                    0 <= d < ncells && residents(w0.agents, d) > 0 && w0.cells[d].cur_resource > 0
                        ==> #[trigger] unclaimed@[d] + claimed_upto(
                        w0.cells,
                        w0.agents,
                        d,
                        i as int,
                    )
                        + base_share(w0.cells, w0.agents, d) * (residents(w0.agents, d)
                        - residents_upto(w0.agents, d, i as int)) == w0.cells[d].cur_resource,
            decreases nagents - i,
        {
            assert(self@.agents[i as int] == self.agents@[i as int]@);
            assert(w0.agents[i as int].cid < ncells);
            let ghost before = self@.agents;
            let cid = self.agents[i].cid();
            assert(self@.cells[cid as int] == self.cells@[cid as int]@);
            if self.agents[i].is_alive() && self.cells[cid].cur_resource() > 0 {
                let share = shares[cid];
                proof {
                    lemma_residents_monotone(w0.agents, cid as int, i as int + 1, nagents as int);
                    lemma_claimed_bound(w0.cells, w0.agents, cid as int, i as int);
                    let s = share as int;
                    let r = residents(w0.agents, cid as int) as int;
                    let q = residents_upto(w0.agents, cid as int, i as int) as int;
                    assert(s * (r - q) == s * (r - (q + 1)) + s) by (nonlinear_arith);
                    assert(s * (r - (q + 1)) >= 0) by (nonlinear_arith)
                        requires
                            s >= 0,
                            r >= q + 1,
                    ;
                }
                let leftover = self.agents[i].retrieve_resource(share);
                unclaimed.set(cid, unclaimed[cid] + leftover);
            }
            assert(self@.agents =~= before.update(
                i as int,
                allocated_agent(w0.cells, w0.agents, i as int),
            ));
            i = i + 1;
        }

        c = 0;
        while c < ncells
            invariant
                w0.wf(),
                c <= ncells,
                nagents == w0.agents.len(),
                ncells == w0.cells.len(),
                self@.width == w0.width,
                self@.height == w0.height,
                self@.max_agents == w0.max_agents,
                self@.cells.len() == ncells,
                self@.agents == allocated(w0).agents,
                forall|d: int| 0 <= d < c ==> #[trigger] self@.cells[d] == allocated(w0).cells[d],
                forall|d: int| c <= d < ncells ==> #[trigger] self@.cells[d] == w0.cells[d],
                counts@.len() == ncells,
                forall|d: int|
                    0 <= d < ncells ==> #[trigger] counts@[d] == residents(w0.agents, d),
                unclaimed@.len() == ncells,
                forall|d: int|
                    0 <= d < ncells && residents(w0.agents, d) > 0 && w0.cells[d].cur_resource > 0
                        ==> #[trigger] unclaimed@[d] + claimed(w0.cells, w0.agents, d)
                        == w0.cells[d].cur_resource,
            decreases ncells - c,
        {
            proof {
                lemma_claimed_fits(w0.cells, w0.agents, c as int);
            }
            assert(self@.cells[c as int] == self.cells@[c as int]@);
            assert(w0.cells[c as int].wf());
            let total = self.cells[c].cur_resource();
            let ghost before = self@.cells;
            if counts[c] > 0 && total > 0 {
                let spent = total - unclaimed[c];
                let _ = self.cells[c].take_up_to(spent);
            }
            assert(self@.cells =~= before.update(c as int, allocated(w0).cells[c as int]));
            c = c + 1;
        }
        assert(self@.cells =~= allocated(w0).cells);
    }

    /// Grants the corpse bonus to the cell where agent `id` stands.
    fn handle_agent_death(&mut self, id: usize)
        requires
            old(self).wf(),
            id < old(self)@.agents.len(),
        ensures
            final(self)@ == with_corpse(old(self)@, old(self)@.agents[id as int].cid as int),
            final(self).wf(),
    {
        let ghost w0 = self@;
        assert(self@.agents[id as int] == self.agents@[id as int]@);
        let cid = self.agents[id].cid();
        assert(self@.cells[cid as int] == self.cells@[cid as int]@);
        assert(w0.cells[cid as int].wf());
        self.cells[cid].add_resource(CORPSE_RESOURCE);
        self.cells[cid].increase_rate(CORPSE_REGEN_BONUS);
        assert(self@.cells =~= with_corpse(w0, cid as int).cells);
        proof {
            lemma_corpse_wf(w0, cid as int);
        }
    }

    /// Agent `id`'s step (see [`agent_stepped`]).
    fn step_agent(&mut self, id: usize)
        requires
            old(self).wf(),
            id < old(self)@.agents.len(),
        ensures
            final(self)@ == agent_stepped(old(self)@, id as int),
            final(self).wf(),
    {
        let ghost w0 = self@;
        let ghost a = w0.agents[id as int];
        proof {
            lemma_agent_stepped_wf(w0, id as int);
            lemma_move_target_in_grid(w0, a.cid);
        }
        assert(self@.agents[id as int] == self.agents@[id as int]@);
        if !self.agents[id].is_alive() {
            return;
        }
        if self.agents[id].is_hungry() {
            let cid = self.agents[id].cid();
            let neighbors = self.neighbor_cells_info(cid);
            if let Some(target_cid) = self.agents[id].decide_move(neighbors.as_slice()) {
                let _ = self.agents[id].move_to(target_cid);
            }
        }
        let ghost moved = after_move(w0, a);
        assert(self@.agents =~= with_agent(w0, id as int, moved).agents);
        assert(self@ == with_agent(w0, id as int, moved));
        assert(self@.agents[id as int] == self.agents@[id as int]@);
        if !self.agents[id].is_alive() {
            self.handle_agent_death(id);
            return;
        }
        let _ = self.agents[id].update();
        assert(self@.agents =~= with_agent(w0, id as int, moved.metabolized()).agents);
        assert(self@ == with_agent(w0, id as int, moved.metabolized()));
        assert(self@.agents[id as int] == self.agents@[id as int]@);
        if !self.agents[id].is_alive() {
            self.handle_agent_death(id);
        }
    }

    /// Every agent's step, in id order.
    fn step_all_agents(&mut self)
        requires
            old(self).wf(),
        ensures
            final(self)@ == agents_stepped(old(self)@, old(self)@.agents.len() as int),
            final(self).wf(),
    {
        let ghost w0 = self@;
        let len = self.agents.len();
        let mut id: usize = 0;
        while id < len
            invariant
                id <= len,
                len == w0.agents.len(),
                self.wf(),
                self@.agents.len() == len,
                self@ == agents_stepped(w0, id as int),
            decreases len - id,
        {
            proof {
                lemma_agent_stepped_wf(self@, id as int);
            }
            self.step_agent(id);
            id = id + 1;
        }
    }

    /// The `(cell_id, resource)` pairs of the neighbors of `cid`, in the
    /// order north, south, west, east.
    fn neighbor_cells_info(&self, cid: usize) -> (r: Vec<(usize, u32)>)
        requires
            self.wf(),
            cid < self@.cells.len(),
        ensures
            r@ == neighbor_snapshot(self@, cid),
    {
        let (width, height) = self.size;
        let ncells = self.cells.len();
        proof {
            lemma_grid_coords(width, height, cid);
        }
        let x = cid % width;
        let y = cid / width;
        let ghost ids = neighbor_ids(width, height, cid);
        let mut neighbors: Vec<(usize, u32)> = Vec::with_capacity(4);
        if y > 0 {
            let nid = (y - 1) * width + x;
            neighbors.push((nid, self.cells[nid].cur_resource()));
        }
        if y + 1 < height {
            let nid = (y + 1) * width + x;
            neighbors.push((nid, self.cells[nid].cur_resource()));
        }
        if x > 0 {
            let nid = y * width + x - 1;
            neighbors.push((nid, self.cells[nid].cur_resource()));
        }
        if x + 1 < width {
            let nid = y * width + x + 1;
            neighbors.push((nid, self.cells[nid].cur_resource()));
        }
        assert(neighbors@ =~= neighbor_snapshot(self@, cid));
        neighbors
    }
}

impl Updatable for World {
    open spec fn ready(&self) -> bool {
        self.wf()
    }

    /// Runs one tick (see [`ticked`]); this never fails.
    fn update(&mut self) -> (r: Result<(), SimulationError>)
        ensures
            final(self)@ == ticked(old(self)@),
            final(self).wf(),
            r is Ok,
    {
        let ghost w0 = self@;
        let ncells = self.cells.len();
        let mut c: usize = 0;
        while c < ncells
            invariant
                c <= ncells,
                ncells == w0.cells.len(),
                w0.wf(),
                self@.width == w0.width,
                self@.height == w0.height,
                self@.max_agents == w0.max_agents,
                self@.agents == w0.agents,
                self@.cells.len() == ncells,
                forall|d: int|
                    0 <= d < c ==> #[trigger] self@.cells[d] == w0.cells[d].regenerated(),
                forall|d: int| c <= d < ncells ==> #[trigger] self@.cells[d] == w0.cells[d],
            decreases ncells - c,
        {
            let ghost before = self@.cells;
            assert(self@.cells[c as int] == self.cells@[c as int]@);
            assert(w0.cells[c as int].wf());
            let _ = self.cells[c].update();
            assert(self@.cells =~= before.update(c as int, w0.cells[c as int].regenerated()));
            c = c + 1;
        }
        assert(self@.cells =~= regenerated(w0).cells);
        assert(self@ == regenerated(w0));
        proof {
            lemma_regenerated_wf(w0);
        }
        self.allocate_resources();
        proof {
            lemma_allocated_wf(regenerated(w0));
        }
        self.step_all_agents();
        Ok(())
    }
}

} // verus!
