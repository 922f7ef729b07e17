use vstd::prelude::*;

use crate::errors::SimulationError;
use crate::traits::Updatable;

verus! {

/// `n - 1`, saturating at zero.
pub open spec fn minus_one(n: u32) -> u32 {
    if n == 0 {
        0
    } else {
        (n - 1) as u32
    }
}

/// The abstract state of an [`Agent`].
pub struct AgentView {
    pub id: usize,
    pub cid: usize,
    pub consumption_rate: u32,
    pub allocated_resource: u32,
    pub health_point: u32,
    pub alive: bool,
}

impl AgentView {
    /// This tick's allocation does not cover the agent's need.
    pub open spec fn hungry(self) -> bool {
        self.allocated_resource < self.consumption_rate
    }

    /// What the agent takes of an offer: `min(offered, consumption_rate)`.
    pub open spec fn take_of(self, offered: u32) -> u32 {
        if offered <= self.consumption_rate {
            offered
        } else {
            self.consumption_rate
        }
    }

    /// The agent after being offered `offered`: its allocation is replaced
    /// by what it takes.
    pub open spec fn fed(self, offered: u32) -> AgentView {
        AgentView { allocated_resource: self.take_of(offered), ..self }
    }

    /// The agent after losing one health point, dying when none is left.
    pub open spec fn wounded(self) -> AgentView {
        AgentView {
            health_point: minus_one(self.health_point),
            alive: self.alive && minus_one(self.health_point) != 0,
            ..self
        }
    }

    /// The agent after moving to `new_cid` and paying the movement cost.
    pub open spec fn moved(self, new_cid: usize) -> AgentView {
        AgentView { cid: new_cid, ..self }.wounded()
    }

    /// The agent after one metabolic step: a hungry agent loses one health
    /// point, the allocation is cleared, and an agent without health dies.
    pub open spec fn metabolized(self) -> AgentView {
        let hp = if self.hungry() {
            minus_one(self.health_point)
        } else {
            self.health_point
        };
        AgentView { allocated_resource: 0, health_point: hp, alive: self.alive && hp != 0, ..self }
    }
}

/// Index of the first neighbor with the greatest resource (0 when empty).
pub open spec fn first_max_index(s: Seq<(usize, u32)>) -> int
    decreases s.len(),
{
    if s.len() <= 1 {
        0
    } else {
        let k = first_max_index(s.drop_last());
        if s.last().1 > s[k].1 {
            s.len() - 1
        } else {
            k
        }
    }
}

/// The cell an agent moves to, given `(cell_id, resource)` pairs of its
/// neighbors: the first one with the greatest resource, if that is positive.
pub open spec fn move_choice(s: Seq<(usize, u32)>) -> Option<usize> {
    if s.len() == 0 {
        None
    } else if s[first_max_index(s)].1 > 0 {
        Some(s[first_max_index(s)].0)
    } else {
        None
    }
}

/// The first maximum is a maximum, and every entry before it is smaller.
pub proof fn lemma_first_max_index(s: Seq<(usize, u32)>)
    requires
        s.len() > 0,
    ensures
        0 <= first_max_index(s) < s.len(),
        forall|j: int| 0 <= j < s.len() ==> (#[trigger] s[j]).1 <= s[first_max_index(s)].1,
        forall|j: int|
            0 <= j < first_max_index(s) ==> (#[trigger] s[j]).1 < s[first_max_index(s)].1,
    decreases s.len(),
{
    if s.len() > 1 {
        let t = s.drop_last();
        lemma_first_max_index(t);
        let k = first_max_index(t);
        let m = first_max_index(s);
        assert forall|j: int| 0 <= j < s.len() implies (#[trigger] s[j]).1 <= s[m].1 by {
            if j < t.len() {
                assert(t[j] == s[j]);
            }
        }
        assert forall|j: int| 0 <= j < m implies (#[trigger] s[j]).1 < s[m].1 by {
            assert(t[j] == s[j]);
        }
    }
}

/// A mobile entity that is fed by its cell, moves when hungry and may die.
///
/// A dead agent stays in its world with its state frozen.
pub struct Agent {
    id: usize,
    cid: usize,
    consumption_rate: u32,
    allocated_resource: u32,
    health_point: u32,
    alive: bool,
}

impl View for Agent {
    type V = AgentView;

    closed spec fn view(&self) -> AgentView {
        AgentView {
            id: self.id,
            cid: self.cid,
            consumption_rate: self.consumption_rate,
            allocated_resource: self.allocated_resource,
            health_point: self.health_point,
            alive: self.alive,
        }
    }
}

impl Agent {
    /// Creates an agent from its id, cell, consumption rate, current
    /// allocation, health and liveness.
    pub fn new(
        id: usize,
        cid: usize,
        consumption_rate: u32,
        allocated_resource: u32,
        health_point: u32,
        alive: bool,
    ) -> (r: Self)
        ensures
            r@ == (AgentView {
                id,
                cid,
                consumption_rate,
                allocated_resource,
                health_point,
                alive,
            }),
    {
        Agent { id, cid, consumption_rate, allocated_resource, health_point, alive }
    }

    /// One metabolic step of a living agent.
    fn metabolize(&mut self)
        requires
            old(self)@.alive,
        ensures
            final(self)@ == old(self)@.metabolized(),
    {
        if self.allocated_resource < self.consumption_rate {
            self.health_point = self.health_point.saturating_sub(1);
        }
        self.allocated_resource = 0;
        if self.health_point == 0 {
            self.alive = false;
        }
    }

    /// Charges a living agent one health point for a move.
    fn movement_cost(&mut self)
        requires
            old(self)@.alive,
        ensures
            final(self)@ == old(self)@.wounded(),
    {
        self.health_point = self.health_point.saturating_sub(1);
        if self.health_point == 0 {
            self.alive = false;
        }
    }

    /// Moves a living agent to `new_id` at the cost of one health point;
    /// fails and changes nothing when the agent is dead.
    pub fn move_to(&mut self, new_id: usize) -> (r: Result<(), SimulationError>)
        ensures
            old(self)@.alive ==> r is Ok && final(self)@ == old(self)@.moved(new_id),
            !old(self)@.alive ==> r == Err::<(), SimulationError>(SimulationError::NotAlive)
                && final(self)@ == old(self)@,
    {
        if !self.alive {
            return Err(SimulationError::NotAlive);
        }
        self.cid = new_id;
        self.movement_cost();
        Ok(())
    }

    /// Takes `min(resource, consumption_rate)` of the offer as this tick's
    /// allocation, replacing the previous one, and returns the rest.
    pub fn retrieve_resource(&mut self, resource: u32) -> (r: u32)
        ensures
            final(self)@ == old(self)@.fed(resource),
            r == resource - old(self)@.take_of(resource),
    {
        let take = resource.min(self.consumption_rate);
        self.allocated_resource = take;
        resource - take
    }

    /// Chooses among `(cell_id, resource)` pairs the first with the greatest
    /// resource, provided that resource is positive.
    pub fn decide_move(&self, neighbor_cells: &[(usize, u32)]) -> (r: Option<usize>)
        ensures
            r == move_choice(neighbor_cells@),
            r is None <==> forall|j: int|
                0 <= j < neighbor_cells@.len() ==> #[trigger] neighbor_cells@[j].1 == 0,
            r is Some ==> exists|k: int|
                0 <= k < neighbor_cells@.len() && r == Some(neighbor_cells@[k].0)
                    && neighbor_cells@[k].1 > 0 && (forall|j: int|
                    0 <= j < neighbor_cells@.len() ==> #[trigger] neighbor_cells@[j].1
                        <= neighbor_cells@[k].1) && (forall|j: int|
                    0 <= j < k ==> #[trigger] neighbor_cells@[j].1 < neighbor_cells@[k].1),
    {
        let n = neighbor_cells.len();
        if n == 0 {
            return None;
        }
        let mut best: usize = 0;
        let mut i: usize = 1;
        while i < n
            invariant
                1 <= i <= n,
                n == neighbor_cells@.len(),
                best as int == first_max_index(neighbor_cells@.subrange(0, i as int)),
            decreases n - i,
        {
            let ghost prefix = neighbor_cells@.subrange(0, i as int + 1);
            assert(prefix.drop_last() =~= neighbor_cells@.subrange(0, i as int));
            proof {
                lemma_first_max_index(neighbor_cells@.subrange(0, i as int));
            }
            if neighbor_cells[i].1 > neighbor_cells[best].1 {
                best = i;
            }
            i = i + 1;
        }
        assert(neighbor_cells@.subrange(0, n as int) =~= neighbor_cells@);
        proof {
            lemma_first_max_index(neighbor_cells@);
        }
        if neighbor_cells[best].1 > 0 {
            Some(neighbor_cells[best].0)
        } else {
            None
        }
    }

    /// The agent's id.
    pub fn id(&self) -> (r: usize)
        ensures
            r == self@.id,
    {
        self.id
    }

    /// The id of the cell the agent occupies.
    pub fn cid(&self) -> (r: usize)
        ensures
            r == self@.cid,
    {
        self.cid
    }

    /// Whether the agent is alive.
    pub fn is_alive(&self) -> (r: bool)
        ensures
            r == self@.alive,
    {
        self.alive
    }

    /// Whether this tick's allocation falls short of the consumption rate.
    pub fn is_hungry(&self) -> (r: bool)
        ensures
            r == self@.hungry(),
    {
        self.allocated_resource < self.consumption_rate
    }

    /// The agent's remaining health points.
    pub fn health_point(&self) -> (r: u32)
        ensures
            r == self@.health_point,
    {
        self.health_point
    }

    /// The resource allocated to the agent this tick.
    pub fn allocated_resource(&self) -> (r: u32)
        ensures
            r == self@.allocated_resource,
    {
        self.allocated_resource
    }

    /// The resource the agent needs per tick.
    pub fn consumption_rate(&self) -> (r: u32)
        ensures
            r == self@.consumption_rate,
    {
        self.consumption_rate
    }
}

impl Updatable for Agent {
    open spec fn ready(&self) -> bool {
        true
    }

    /// Metabolizes a living agent; fails and changes nothing when it is dead.
    fn update(&mut self) -> (r: Result<(), SimulationError>)
        ensures
            old(self)@.alive ==> r is Ok && final(self)@ == old(self)@.metabolized(),
            !old(self)@.alive ==> r == Err::<(), SimulationError>(SimulationError::NotAlive)
                && final(self)@ == old(self)@,
    {
        if !self.alive {
            return Err(SimulationError::NotAlive);
        }
        self.metabolize();
        Ok(())
    }
}

} // verus!
