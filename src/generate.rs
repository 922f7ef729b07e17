use vstd::prelude::*;

use rand::rngs::StdRng;
use rand::{Rng, SeedableRng};

use crate::agent::{Agent, AgentView};
use crate::cell::{Cell, CellView};
use crate::world::{World, WorldView};

verus! {

/// `rand::rngs::StdRng`, the seedable random source that generation draws
/// from; its state is opaque here.
#[verifier::external_type_specification]
#[verifier::external_body]
pub struct ExStdRng(StdRng);

/// Relies on `rand::Rng::gen_range` on an inclusive range: it returns a value
/// in `[low, high]`, and panics only when the range is empty.
#[verifier::external_body]
fn sample_inclusive(rng: &mut StdRng, low: usize, high: usize) -> (r: usize)
    requires
        low <= high,
    ensures
        low <= r <= high,
{
    rng.gen_range(low..=high)
}

/// Relies on `rand::SeedableRng::from_entropy`: a generator seeded from the
/// operating system's entropy source.
#[verifier::external_body]
fn rng_from_entropy() -> StdRng {
    StdRng::from_entropy()
}

/// The envelope from which a random world is generated.
#[derive(Clone, Copy, Debug, PartialEq, Eq, Structural)]
pub struct WorldConfig {
    pub width: usize,
    pub height: usize,
    pub min_resource: u32,
    pub max_resource: u32,
    pub min_regen_rate: u32,
    pub max_regen_rate: u32,
    pub min_agents: usize,
    pub max_agents: usize,
    pub min_consumption_rate: u32,
    pub max_consumption_rate: u32,
    pub agent_hp: u32,
}

impl WorldConfig {
    /// A positive grid whose cell count fits in `usize`, a positive agent
    /// count range, and every `min` at most its `max`.
    pub open spec fn valid(self) -> bool {
        &&& self.width > 0
        &&& self.height > 0
        &&& self.width * self.height <= usize::MAX
        &&& self.min_resource <= self.max_resource
        &&& self.min_regen_rate <= self.max_regen_rate
        &&& 0 < self.min_agents <= self.max_agents
        &&& self.min_consumption_rate <= self.max_consumption_rate
    }

    /// `w` is one of the worlds this envelope can generate: a
    /// `width × height` grid whose cells start within the configured ranges
    /// with the configured maxima, and between `min_agents` and `max_agents`
    /// living, unfed agents with the configured health and a consumption
    /// rate within range.
    pub open spec fn generates(self, w: WorldView) -> bool {
        &&& w.wf()
        &&& w.width == self.width
        &&& w.height == self.height
        &&& w.max_agents == self.max_agents
        &&& forall|c: int|
            0 <= c < w.cells.len() ==> {
                let cell = #[trigger] w.cells[c];
                &&& self.min_resource <= cell.cur_resource <= self.max_resource
                &&& cell.max_resource == self.max_resource
                &&& self.min_regen_rate <= cell.regen_rate <= self.max_regen_rate
                &&& cell.max_regen_rate == self.max_regen_rate
            }
        &&& self.min_agents <= w.agents.len() <= self.max_agents
        &&& forall|i: int|
            0 <= i < w.agents.len() ==> {
                let a = #[trigger] w.agents[i];
                &&& self.min_consumption_rate <= a.consumption_rate <= self.max_consumption_rate
                &&& a.allocated_resource == 0
                &&& a.health_point == self.agent_hp
                &&& a.alive
            }
    }

    /// Whether the envelope is [`valid`](WorldConfig::valid).
    pub fn is_valid(&self) -> (r: bool)
        ensures
            r == self.valid(),
    {
        if self.width == 0 || self.height == 0 {
            return false;
        }
        assert(self.height <= usize::MAX / self.width <==> self.width * self.height <= usize::MAX)
            by (nonlinear_arith)
            requires
                self.width > 0,
        ;
        self.height <= usize::MAX / self.width && self.min_resource <= self.max_resource
            && self.min_regen_rate <= self.max_regen_rate && 0 < self.min_agents
            && self.min_agents <= self.max_agents && self.min_consumption_rate
            <= self.max_consumption_rate
    }
}

impl Default for WorldConfig {
    /// A 20 × 20 grid, cells with resource in `0..=20` regrowing `0..=3` per
    /// tick, and `1..=50` agents of 3 health consuming `1..=5` per tick.
    fn default() -> (r: Self)
        ensures
            r == (WorldConfig {
                width: 20,
                height: 20,
                min_resource: 0,
                max_resource: 20,
                min_regen_rate: 0,
                max_regen_rate: 3,
                min_agents: 1,
                max_agents: 50,
                min_consumption_rate: 1,
                max_consumption_rate: 5,
                agent_hp: 3,
            }),
    {
        WorldConfig {
            width: 20,
            height: 20,
            min_resource: 0,
            max_resource: 20,
            min_regen_rate: 0,
            max_regen_rate: 3,
            min_agents: 1,
            max_agents: 50,
            min_consumption_rate: 1,
            max_consumption_rate: 5,
            agent_hp: 3,
        }
    }
}

impl World {
    /// Generates a world from `config`, drawing every random value from `rng`:
    /// each cell's resource and regeneration rate, the number of agents, and
    /// each agent's cell and consumption rate, all uniformly within range.
    pub fn from_config_with_rng(config: WorldConfig, rng: &mut StdRng) -> (r: World)
        requires
            config.valid(),
        ensures
            config.generates(r@),
    {
        assert(config.width * config.height > 0) by (nonlinear_arith)
            requires
                config.width > 0,
                config.height > 0,
        ;
        let n = config.width * config.height;
        let mut cells: Vec<Cell> = Vec::new();
        let mut id: usize = 0;
        while id < n
            invariant
                config.valid(),
                id <= n,
                n == config.width * config.height,
                cells@.len() == id,
                forall|c: int|
                    0 <= c < id ==> {
                        let cell = (#[trigger] cells@[c])@;
                        &&& cell.wf()
                        &&& cell.id == c
                        &&& config.min_resource <= cell.cur_resource <= config.max_resource
                        &&& cell.max_resource == config.max_resource
                        &&& config.min_regen_rate <= cell.regen_rate <= config.max_regen_rate
                        &&& cell.max_regen_rate == config.max_regen_rate
                    },
            decreases n - id,
        {
            let resource = sample_inclusive(
                rng,
                config.min_resource as usize,
                config.max_resource as usize,
            ) as u32;
            let regen_rate = sample_inclusive(
                rng,
                config.min_regen_rate as usize,
                config.max_regen_rate as usize,
            ) as u32;
            cells.push(
                Cell::new(id, resource, config.max_resource, regen_rate, config.max_regen_rate),
            );
            id = id + 1;
        }

        let num_agents = sample_inclusive(rng, config.min_agents, config.max_agents);
        let mut agents: Vec<Agent> = Vec::new();
        id = 0;
        while id < num_agents
            invariant
                config.valid(),
                id <= num_agents,
                n == config.width * config.height,
                n > 0,
                agents@.len() == id,
                forall|i: int|
                    0 <= i < id ==> {
                        let a = (#[trigger] agents@[i])@;
                        &&& a.id == i
                        &&& a.cid < n
                        &&& config.min_consumption_rate <= a.consumption_rate
                            <= config.max_consumption_rate
                        &&& a.allocated_resource == 0
                        &&& a.health_point == config.agent_hp
                        &&& a.alive
                    },
            decreases num_agents - id,
        {
            let cid = sample_inclusive(rng, 0, n - 1);
            let consumption_rate = sample_inclusive(
                rng,
                config.min_consumption_rate as usize,
                config.max_consumption_rate as usize,
            ) as u32;
            agents.push(Agent::new(id, cid, consumption_rate, 0, config.agent_hp, true));
            id = id + 1;
        }
        World::new((config.width, config.height), cells, agents, config.max_agents)
    }

    /// Generates a world from `config` with a freshly seeded random source.
    pub fn from_config(config: WorldConfig) -> (r: World)
        requires
            config.valid(),
        ensures
            config.generates(r@),
    {
        let mut rng = rng_from_entropy();
        World::from_config_with_rng(config, &mut rng)
    }

    /// Generates a `width × height` world with up to `max_agents` agents:
    /// cells hold `0..=20` resource and regrow `0..=3` per tick, and each
    /// agent has 3 health and consumes `1..=5` per tick.
    pub fn make_world(width: usize, height: usize, max_agents: usize) -> (r: Self)
        requires
            width > 0,
            height > 0,
            width * height <= usize::MAX,
            max_agents > 0,
        ensures
            (WorldConfig {
                width,
                height,
                min_resource: 0,
                max_resource: 20,
                min_regen_rate: 0,
                max_regen_rate: 3,
                min_agents: 1,
                max_agents,
                min_consumption_rate: 1,
                max_consumption_rate: 5,
                agent_hp: 3,
            }).generates(r@),
    {
        let config = WorldConfig {
            width,
            height,
            min_resource: 0,
            max_resource: 20,
            min_regen_rate: 0,
            max_regen_rate: 3,
            min_agents: 1,
            max_agents,
            min_consumption_rate: 1,
            max_consumption_rate: 5,
            agent_hp: 3,
        };
        World::from_config(config)
    }

    /// Generates a 20 × 20 world with up to 50 agents (see [`World::make_world`]).
    pub fn make_simple_world() -> (r: Self)
        ensures
            (WorldConfig {
                width: 20,
                height: 20,
                min_resource: 0,
                max_resource: 20,
                min_regen_rate: 0,
                max_regen_rate: 3,
                min_agents: 1,
                max_agents: 50,
                min_consumption_rate: 1,
                max_consumption_rate: 5,
                agent_hp: 3,
            }).generates(r@),
    {
        World::make_world(20, 20, 50)
    }
}

} // verus!
