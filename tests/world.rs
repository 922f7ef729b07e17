use rand::rngs::StdRng;
use rand::SeedableRng;
use rcs_core::{Agent, Cell, Updatable, World, WorldConfig};

fn line_world(cells: Vec<Cell>, agents: Vec<Agent>) -> World {
    let width = cells.len();
    World::new((width, 1), cells, agents, 10)
}

#[test]
fn two_hungry_residents_split_the_cell_evenly() {
    let cells = vec![Cell::new(0, 10, 100, 0, 5)];
    let agents = vec![Agent::new(0, 0, 7, 0, 5, true), Agent::new(1, 0, 7, 0, 5, true)];
    let mut world = line_world(cells, agents);
    assert!(world.update().is_ok());
    assert_eq!(world.cell(0).cur_resource(), 0);
    for a in world.agents() {
        assert_eq!(a.health_point(), 4);
        assert!(a.is_alive());
        assert_eq!(a.cid(), 0);
    }
}

#[test]
fn remainder_and_unneeded_share_stay_in_the_cell() {
    let cells = vec![Cell::new(0, 11, 100, 0, 5)];
    let agents = vec![Agent::new(0, 0, 2, 0, 5, true), Agent::new(1, 0, 7, 0, 5, true)];
    let mut world = line_world(cells, agents);
    world.update().unwrap();
    // base share 5, remainder 1; the first agent needs 2 of its 5.
    assert_eq!(world.cell(0).cur_resource(), 4);
    assert_eq!(world.agents()[0].health_point(), 5);
    assert_eq!(world.agents()[1].health_point(), 4);
}

#[test]
fn fed_agent_stays_and_keeps_health() {
    let cells = vec![Cell::new(0, 6, 20, 0, 3), Cell::new(1, 20, 20, 0, 3)];
    let agents = vec![Agent::new(0, 0, 3, 0, 2, true)];
    let mut world = line_world(cells, agents);
    world.update().unwrap();
    assert_eq!(world.cell(0).cur_resource(), 3);
    assert_eq!(world.cell(1).cur_resource(), 20);
    assert_eq!(world.agents()[0].cid(), 0);
    assert_eq!(world.agents()[0].health_point(), 2);
}

#[test]
fn agent_dying_from_move_enriches_its_new_cell() {
    let cells = vec![Cell::new(0, 0, 20, 0, 3), Cell::new(1, 4, 20, 0, 3)];
    let agents = vec![Agent::new(0, 0, 3, 0, 1, true)];
    let mut world = line_world(cells, agents);
    world.update().unwrap();
    let a = &world.agents()[0];
    assert_eq!(a.cid(), 1);
    assert_eq!(a.health_point(), 0);
    assert!(!a.is_alive());
    assert_eq!(world.cell(0).cur_resource(), 0);
    assert_eq!(world.cell(1).cur_resource(), 9);

    // The corpse bonus raised the regeneration rate from 0 to 1.
    world.update().unwrap();
    assert_eq!(world.cell(1).cur_resource(), 10);
    let a = &world.agents()[0];
    assert_eq!(a.cid(), 1);
    assert_eq!(a.health_point(), 0);
    assert!(!a.is_alive());
}

#[test]
fn corpse_bonus_is_capped_at_maxima() {
    let cells = vec![Cell::new(0, 0, 20, 0, 3), Cell::new(1, 18, 20, 3, 3)];
    let agents = vec![Agent::new(0, 0, 3, 0, 1, true)];
    let mut world = line_world(cells, agents);
    world.update().unwrap();
    // Cell 1 regrew to 20 before the agent arrived and died there.
    assert_eq!(world.cell(1).cur_resource(), 20);
    assert!(!world.agents()[0].is_alive());
    world.update().unwrap();
    assert_eq!(world.cell(1).cur_resource(), 20);
}

#[test]
fn agent_starving_in_place_enriches_its_cell() {
    let cells = vec![Cell::new(0, 0, 20, 0, 3)];
    let agents = vec![Agent::new(0, 0, 3, 0, 1, true)];
    let mut world = line_world(cells, agents);
    world.update().unwrap();
    assert!(!world.agents()[0].is_alive());
    assert_eq!(world.cell(0).cur_resource(), 5);
    world.update().unwrap();
    assert_eq!(world.cell(0).cur_resource(), 6);
    assert_eq!(world.agents()[0].health_point(), 0);
}

#[test]
fn hungry_agent_moves_north_on_ties() {
    let mut cells = Vec::new();
    for id in 0..9 {
        let resource = if id == 4 { 0 } else { 7 };
        cells.push(Cell::new(id, resource, 20, 0, 3));
    }
    let agents = vec![Agent::new(0, 4, 3, 0, 5, true)];
    let mut world = World::new((3, 3), cells, agents, 10);
    world.update().unwrap();
    let a = &world.agents()[0];
    assert_eq!(a.cid(), 1);
    // One point for the move, one for going hungry this tick.
    assert_eq!(a.health_point(), 3);
    assert_eq!(world.cell(1).cur_resource(), 7);
}

#[test]
fn hungry_agent_moves_to_richest_neighbor() {
    let resources = [0, 2, 0, 3, 0, 8, 0, 5, 0];
    let mut cells = Vec::new();
    for id in 0..9 {
        cells.push(Cell::new(id, resources[id], 20, 0, 3));
    }
    let agents = vec![Agent::new(0, 4, 3, 0, 5, true)];
    let mut world = World::new((3, 3), cells, agents, 10);
    world.update().unwrap();
    assert_eq!(world.agents()[0].cid(), 5);
}

#[test]
fn hungry_agent_with_empty_neighbors_stays() {
    let cells = vec![Cell::new(0, 0, 20, 0, 3), Cell::new(1, 0, 20, 0, 3)];
    let agents = vec![Agent::new(0, 1, 3, 0, 5, true)];
    let mut world = line_world(cells, agents);
    world.update().unwrap();
    assert_eq!(world.agents()[0].cid(), 1);
    assert_eq!(world.agents()[0].health_point(), 4);
}

#[test]
fn world_without_agents_only_regrows() {
    let cells = vec![
        Cell::new(0, 0, 10, 3, 3),
        Cell::new(1, 9, 10, 2, 3),
        Cell::new(2, 10, 10, 1, 3),
    ];
    let mut world = line_world(cells, Vec::new());
    assert!(world.update().is_ok());
    assert_eq!(world.cell(0).cur_resource(), 3);
    assert_eq!(world.cell(1).cur_resource(), 10);
    assert_eq!(world.cell(2).cur_resource(), 10);
    assert!(world.agents().is_empty());
    assert!(world.update().is_ok());
    assert_eq!(world.cell(0).cur_resource(), 6);
}

#[test]
fn dead_agents_are_skipped_by_allocation() {
    let cells = vec![Cell::new(0, 10, 20, 0, 3)];
    let agents = vec![Agent::new(0, 0, 4, 2, 0, false), Agent::new(1, 0, 4, 0, 5, true)];
    let mut world = line_world(cells, agents);
    world.update().unwrap();
    // The living agent alone shares the cell and takes what it needs.
    assert_eq!(world.cell(0).cur_resource(), 6);
    let dead = &world.agents()[0];
    assert_eq!(dead.allocated_resource(), 2);
    assert_eq!(dead.health_point(), 0);
    assert_eq!(world.agents()[1].health_point(), 5);
}

#[test]
fn getters_report_construction() {
    let cells = vec![Cell::new(0, 1, 5, 0, 1), Cell::new(1, 2, 5, 0, 1)];
    let agents = vec![Agent::new(0, 1, 2, 0, 3, true)];
    let world = World::new((2, 1), cells, agents, 7);
    assert_eq!(world.size(), (2, 1));
    assert_eq!(world.max_agents(), 7);
    assert_eq!(world.cells().len(), 2);
    assert_eq!(world.cells()[1].id(), 1);
    assert_eq!(world.cell(1).cur_resource(), 2);
    assert_eq!(world.agents().len(), 1);
    assert_eq!(world.agents()[0].cid(), 1);
}

#[test]
fn default_config_matches_the_classic_envelope() {
    let cfg = WorldConfig::default();
    assert_eq!((cfg.width, cfg.height), (20, 20));
    assert_eq!((cfg.min_resource, cfg.max_resource), (0, 20));
    assert_eq!((cfg.min_regen_rate, cfg.max_regen_rate), (0, 3));
    assert_eq!((cfg.min_agents, cfg.max_agents), (1, 50));
    assert_eq!((cfg.min_consumption_rate, cfg.max_consumption_rate), (1, 5));
    assert_eq!(cfg.agent_hp, 3);
    assert!(cfg.is_valid());
}

#[test]
fn invalid_configs_are_recognised() {
    let good = WorldConfig::default();
    assert!(!WorldConfig { width: 0, ..good }.is_valid());
    assert!(!WorldConfig { height: 0, ..good }.is_valid());
    assert!(!WorldConfig { min_agents: 0, ..good }.is_valid());
    assert!(!WorldConfig { min_agents: 60, ..good }.is_valid());
    assert!(!WorldConfig { min_resource: 21, ..good }.is_valid());
    assert!(!WorldConfig { min_regen_rate: 4, ..good }.is_valid());
    assert!(!WorldConfig { min_consumption_rate: 6, ..good }.is_valid());
    assert!(!WorldConfig { width: usize::MAX, height: 2, ..good }.is_valid());
}

#[test]
fn generated_world_respects_its_envelope() {
    let cfg = WorldConfig {
        width: 6,
        height: 4,
        min_resource: 2,
        max_resource: 40,
        min_regen_rate: 1,
        max_regen_rate: 4,
        min_agents: 5,
        max_agents: 30,
        min_consumption_rate: 2,
        max_consumption_rate: 6,
        agent_hp: 9,
    };
    let mut rng = StdRng::seed_from_u64(7);
    let world = World::from_config_with_rng(cfg, &mut rng);
    assert_eq!(world.size(), (6, 4));
    assert_eq!(world.max_agents(), 30);
    assert_eq!(world.cells().len(), 24);
    for (i, cell) in world.cells().iter().enumerate() {
        assert_eq!(cell.id(), i);
        assert!(cell.cur_resource() >= 2 && cell.cur_resource() <= 40);
    }
    let n = world.agents().len();
    assert!(n >= 5 && n <= 30);
    for (i, a) in world.agents().iter().enumerate() {
        assert_eq!(a.id(), i);
        assert!(a.cid() < 24);
        assert!(a.is_alive());
        assert_eq!(a.health_point(), 9);
        assert!(a.consumption_rate() >= 2 && a.consumption_rate() <= 6);
    }
    // The draws vary: not every cell starts with the lowest resource.
    assert!(world.cells().iter().any(|c| c.cur_resource() != 2));
}

#[test]
fn same_seed_generates_same_world() {
    let cfg = WorldConfig::default();
    let a = World::from_config_with_rng(cfg, &mut StdRng::seed_from_u64(11));
    let b = World::from_config_with_rng(cfg, &mut StdRng::seed_from_u64(11));
    assert_eq!(a.agents().len(), b.agents().len());
    for (x, y) in a.cells().iter().zip(b.cells().iter()) {
        assert_eq!(x.cur_resource(), y.cur_resource());
    }
    for (x, y) in a.agents().iter().zip(b.agents().iter()) {
        assert_eq!(x.cid(), y.cid());
    }
}

#[test]
fn simple_world_is_twenty_by_twenty() {
    let mut world = World::make_simple_world();
    assert_eq!(world.size(), (20, 20));
    assert_eq!(world.max_agents(), 50);
    assert_eq!(world.cells().len(), 400);
    let n = world.agents().len();
    assert!(n >= 1 && n <= 50);
    for cell in world.cells() {
        assert!(cell.cur_resource() <= 20);
    }
    for _ in 0..20 {
        assert!(world.update().is_ok());
        for cell in world.cells() {
            assert!(cell.cur_resource() <= 20);
        }
    }
}

#[test]
fn make_world_has_requested_size() {
    let world = World::make_world(5, 3, 4);
    assert_eq!(world.size(), (5, 3));
    assert_eq!(world.cells().len(), 15);
    assert!(world.agents().len() >= 1 && world.agents().len() <= 4);
    let world = World::from_config(WorldConfig { width: 2, height: 2, ..WorldConfig::default() });
    assert_eq!(world.cells().len(), 4);
}
