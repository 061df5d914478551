use voxel_hand::breaking::{BlockBreakingEvent, BreakingEntry, Disposition, Phase};
use voxel_hand::config::{
    tool_efficiency, BlockConfig, Blocks, Command, DropRule, Held, ItemConfig, ItemDrop, Items,
    Placement, Tool,
};
use voxel_hand::grid::BlockPosition;
use voxel_hand::progress::{
    advance, elapsed_since, next_stage, progress_gain, stage, BURST_WINDOW, IDLE_TIMEOUT,
    PROGRESS_FULL,
};
use voxel_hand::store::{break_blocks, BreakingStore};

const AIR: u16 = 0;
const STONE: u16 = 1;
const BEDROCK: u16 = 2;
const GRASS: u16 = 3;
const LEAVES: u16 = 4;

const PICKAXE: u32 = 0;
const STICK: u32 = 1;
const BROKEN_TOOL: u32 = 2;
const COBBLE: u32 = 3;
const SEEDS: u32 = 4;

const PICK_KIND: u32 = 7;

fn plain() -> Placement {
    Placement { rotatable: false, side_transform: false, ceiling: false, floor: false, sides: false }
}

fn block(hardness: Option<u32>, drops: Vec<DropRule>) -> BlockConfig {
    BlockConfig { hardness, replaceable: false, placement: plain(), drops }
}

fn blocks() -> Blocks {
    Blocks {
        configs: vec![
            block(None, vec![]),
            block(
                Some(2000),
                vec![DropRule { tool: Some(PICK_KIND), drop: ItemDrop { item: COBBLE, count: 1 } }],
            ),
            block(None, vec![]),
            block(
                Some(0),
                vec![
                    DropRule { tool: None, drop: ItemDrop { item: SEEDS, count: 2 } },
                    DropRule { tool: Some(PICK_KIND), drop: ItemDrop { item: SEEDS, count: 5 } },
                    DropRule { tool: None, drop: ItemDrop { item: COBBLE, count: 9 } },
                ],
            ),
            block(Some(0), vec![]),
        ],
        empty: AIR,
    }
}

fn items() -> Items {
    let no = ItemConfig { tool: None, block: None, use_handler: None };
    Items {
        configs: vec![
            ItemConfig { tool: Some(Tool { kind: PICK_KIND, efficiency: 4000 }), ..no },
            no,
            ItemConfig { tool: Some(Tool { kind: PICK_KIND, efficiency: 0 }), ..no },
            no,
            no,
        ],
    }
}

fn at(x: i32, y: i32, z: i32) -> BlockPosition {
    BlockPosition { x, y, z }
}

fn hit(position: BlockPosition, block: u16, held: Held) -> BlockBreakingEvent {
    BlockBreakingEvent { player: 11, position, block, held }
}

fn gone(position: BlockPosition) -> Command {
    Command::SetBlock { position, block: AIR, orientation: None }
}

#[test]
fn gain_is_gap_times_efficiency_over_hardness() {
    assert_eq!(progress_gain(100_000, 1000, 1000), 100_000);
    assert_eq!(progress_gain(100_000, 2000, 1000), 50_000);
    assert_eq!(progress_gain(100_000, 2000, 4000), 200_000);
    assert_eq!(progress_gain(60_001, 7000, 1000), 8571);
    assert_eq!(progress_gain(1, 1000, 1000), 1);
    assert_eq!(progress_gain(1, 1001, 1000), 0);
}

#[test]
fn gain_is_capped_at_the_whole() {
    assert_eq!(progress_gain(5_000_000, 1000, 1000), PROGRESS_FULL);
    assert_eq!(progress_gain(u64::MAX, 1, u32::MAX), PROGRESS_FULL);
    assert_eq!(progress_gain(1_000_000, 1000, 1000), PROGRESS_FULL);
    assert_eq!(progress_gain(999_999, 1000, 1000), 999_999);
}

#[test]
fn zero_hardness_gains_the_whole_at_once() {
    assert_eq!(progress_gain(0, 0, 1000), PROGRESS_FULL);
    assert_eq!(progress_gain(60_000, 0, 1), PROGRESS_FULL);
}

#[test]
fn advance_stops_at_the_whole() {
    assert_eq!(advance(0, 0), 0);
    assert_eq!(advance(400_000, 250_000), 650_000);
    assert_eq!(advance(999_999, 1), PROGRESS_FULL);
    assert_eq!(advance(900_000, 900_000), PROGRESS_FULL);
    assert_eq!(advance(u32::MAX, u32::MAX), PROGRESS_FULL);
}

#[test]
fn elapsed_is_zero_when_the_clock_goes_back() {
    assert_eq!(elapsed_since(10, 35), 25);
    assert_eq!(elapsed_since(35, 35), 0);
    assert_eq!(elapsed_since(35, 10), 0);
}

#[test]
fn stage_counts_tenths() {
    assert_eq!(stage(0), 0);
    assert_eq!(stage(99_999), 0);
    assert_eq!(stage(100_000), 1);
    assert_eq!(stage(899_999), 8);
    assert_eq!(stage(900_000), 9);
    assert_eq!(stage(999_999), 9);
    assert_eq!(stage(1_000_000), 10);
    assert_eq!(stage(u32::MAX), 10);
}

#[test]
fn next_stage_is_the_highest_tenth_newly_reached() {
    assert_eq!(next_stage(0, 99_999), None);
    assert_eq!(next_stage(0, 100_000), Some(1));
    assert_eq!(next_stage(50_000, 350_000), Some(3));
    assert_eq!(next_stage(310_000, 390_000), None);
    assert_eq!(next_stage(390_000, 400_000), Some(4));
    assert_eq!(next_stage(0, 999_999), Some(9));
    assert_eq!(next_stage(850_000, 1_000_000), None);
    assert_eq!(next_stage(500_000, 500_000), None);
}

#[test]
fn efficiency_defaults_to_one() {
    assert_eq!(tool_efficiency(None), 1000);
    assert_eq!(tool_efficiency(Some(Tool { kind: 1, efficiency: 0 })), 1000);
    assert_eq!(tool_efficiency(Some(Tool { kind: 1, efficiency: 2500 })), 2500);
    assert_eq!(items().active_tool(Held::Item(STICK)), None);
    assert_eq!(items().active_tool(Held::Item(99)), None);
    assert_eq!(items().active_tool(Held::Empty), None);
    assert_eq!(
        items().active_tool(Held::Item(PICKAXE)),
        Some(Tool { kind: PICK_KIND, efficiency: 4000 })
    );
}

#[test]
fn drop_is_the_first_rule_for_the_tool() {
    let table = blocks();
    let pick = Some(Tool { kind: PICK_KIND, efficiency: 4000 });
    let shovel = Some(Tool { kind: 8, efficiency: 4000 });
    assert_eq!(table.resolve_drop(STONE, pick), Some(ItemDrop { item: COBBLE, count: 1 }));
    assert_eq!(table.resolve_drop(STONE, None), None);
    assert_eq!(table.resolve_drop(STONE, shovel), None);
    assert_eq!(table.resolve_drop(GRASS, None), Some(ItemDrop { item: SEEDS, count: 2 }));
    assert_eq!(table.resolve_drop(GRASS, pick), Some(ItemDrop { item: SEEDS, count: 5 }));
    assert_eq!(table.resolve_drop(LEAVES, None), None);
    assert_eq!(table.resolve_drop(77, None), None);
}

#[test]
fn hardness_lookup() {
    let table = blocks();
    assert_eq!(table.hardness_of(STONE), Some(2000));
    assert_eq!(table.hardness_of(GRASS), Some(0));
    assert_eq!(table.hardness_of(BEDROCK), None);
    assert_eq!(table.hardness_of(500), None);
}

#[test]
fn first_hit_creates_a_hidden_proxy_at_zero_progress() {
    let mut store = BreakingStore::new();
    let p = at(4, -3, 9);
    let commands = break_blocks(&mut store, &vec![hit(p, STONE, Held::Empty)], 1_000, &blocks(), &items());
    assert_eq!(commands, vec![Command::SpawnProxy { position: p }]);
    assert_eq!(
        store.get(p),
        Some(BreakingEntry { position: p, proxy: true, progress: 0, last_hit: 1_000 })
    );
    assert_eq!(store.len(), 1);
}

#[test]
fn steady_hits_break_the_block_after_its_hardness() {
    let (table, tools) = (blocks(), items());
    let mut store = BreakingStore::new();
    let p = at(1, 2, 3);
    let event = vec![hit(p, STONE, Held::Empty)];
    let first = break_blocks(&mut store, &event, 0, &table, &tools);
    assert_eq!(first, vec![Command::SpawnProxy { position: p }]);
    let mut last_progress = 0;
    for n in 1u64..20 {
        let commands = break_blocks(&mut store, &event, n * 100_000, &table, &tools);
        let entry = store.get(p).expect("the entry lives until the block breaks");
        assert!(entry.progress >= last_progress);
        assert_eq!(entry.progress as u64, n * 50_000);
        assert_eq!(entry.last_hit, n * 100_000);
        last_progress = entry.progress;
        if n % 2 == 0 {
            assert_eq!(commands, vec![Command::ShowStage { position: p, stage: (n / 2) as u8 }]);
        } else {
            assert_eq!(commands, vec![]);
        }
    }
    let last = break_blocks(&mut store, &event, 2_000_000, &table, &tools);
    assert_eq!(last, vec![gone(p), Command::DespawnProxy { position: p }]);
    assert_eq!(store.get(p), None);
    assert_eq!(store.len(), 0);
}

#[test]
fn a_tool_speeds_breaking_up_and_decides_the_drop() {
    let (table, tools) = (blocks(), items());
    let mut store = BreakingStore::new();
    let p = at(0, 0, 0);
    let event = vec![hit(p, STONE, Held::Item(PICKAXE))];
    break_blocks(&mut store, &event, 0, &table, &tools);
    let second = break_blocks(&mut store, &event, 250_000, &table, &tools);
    assert_eq!(store.get(p).map(|e| e.progress), Some(500_000));
    assert_eq!(second, vec![Command::ShowStage { position: p, stage: 5 }]);
    let third = break_blocks(&mut store, &event, 500_000, &table, &tools);
    assert_eq!(
        third,
        vec![
            gone(p),
            Command::SpawnGroundItem { item: COBBLE, count: 1, position: p },
            Command::DespawnProxy { position: p },
        ]
    );
    assert_eq!(store.get(p), None);
}

#[test]
fn a_tool_without_efficiency_counts_as_a_bare_hand() {
    let (table, tools) = (blocks(), items());
    let mut store = BreakingStore::new();
    let p = at(0, 0, 0);
    let event = vec![hit(p, STONE, Held::Item(BROKEN_TOOL))];
    break_blocks(&mut store, &event, 0, &table, &tools);
    break_blocks(&mut store, &event, 200_000, &table, &tools);
    assert_eq!(store.get(p).map(|e| e.progress), Some(100_000));
}

#[test]
fn zero_hardness_breaks_at_once_and_drops_one_stack() {
    let (table, tools) = (blocks(), items());
    let mut store = BreakingStore::new();
    let p = at(-8, 70, 8);
    let commands = break_blocks(&mut store, &vec![hit(p, GRASS, Held::Empty)], 5_000, &table, &tools);
    assert_eq!(
        commands,
        vec![gone(p), Command::SpawnGroundItem { item: SEEDS, count: 2, position: p }]
    );
    assert_eq!(store.len(), 0);
}

#[test]
fn zero_hardness_without_a_drop_only_removes_the_block() {
    let (table, tools) = (blocks(), items());
    let mut store = BreakingStore::new();
    let p = at(2, 2, 2);
    let commands = break_blocks(&mut store, &vec![hit(p, LEAVES, Held::Empty)], 5_000, &table, &tools);
    assert_eq!(commands, vec![gone(p)]);
    assert_eq!(store.len(), 0);
}

#[test]
fn zero_hardness_leaves_a_guard_for_the_rest_of_the_tick() {
    let (table, tools) = (blocks(), items());
    let mut store = BreakingStore::new();
    let p = at(2, 2, 2);
    let event = hit(p, GRASS, Held::Empty);
    let first = store.strike(&event, 5_000, &table, &tools);
    assert_eq!(first.len(), 2);
    assert_eq!(
        store.get(p),
        Some(BreakingEntry { position: p, proxy: false, progress: PROGRESS_FULL, last_hit: 5_000 })
    );
    assert_eq!(store.strike(&event, 5_000, &table, &tools), vec![]);
    assert_eq!(store.sweep(5_000), vec![]);
    assert_eq!(store.get(p), None);
}

#[test]
fn zero_hardness_hit_three_times_in_one_tick_breaks_once() {
    let (table, tools) = (blocks(), items());
    let mut store = BreakingStore::new();
    let p = at(2, 2, 2);
    let event = hit(p, GRASS, Held::Empty);
    let commands = break_blocks(&mut store, &vec![event, event, event], 5_000, &table, &tools);
    assert_eq!(
        commands,
        vec![gone(p), Command::SpawnGroundItem { item: SEEDS, count: 2, position: p }]
    );
}

#[test]
fn unbreakable_blocks_are_never_tracked() {
    let (table, tools) = (blocks(), items());
    let mut store = BreakingStore::new();
    let p = at(0, -64, 0);
    for n in 0u64..50 {
        let event = hit(p, BEDROCK, Held::Item(PICKAXE));
        let commands = break_blocks(&mut store, &vec![event, event], n * 70_000, &table, &tools);
        assert_eq!(commands, vec![]);
        assert_eq!(store.len(), 0);
        assert_eq!(store.get(p), None);
    }
}

#[test]
fn unknown_blocks_are_never_tracked() {
    let (table, tools) = (blocks(), items());
    let mut store = BreakingStore::new();
    let commands = break_blocks(&mut store, &vec![hit(at(0, 0, 0), 999, Held::Empty)], 0, &table, &tools);
    assert_eq!(commands, vec![]);
    assert_eq!(store.len(), 0);
}

#[test]
fn a_player_without_a_hand_is_dropped() {
    let (table, tools) = (blocks(), items());
    let mut store = BreakingStore::new();
    let p = at(0, 0, 0);
    let commands = break_blocks(&mut store, &vec![hit(p, STONE, Held::Unknown)], 0, &table, &tools);
    assert_eq!(commands, vec![]);
    assert_eq!(store.len(), 0);
    break_blocks(&mut store, &vec![hit(p, STONE, Held::Empty)], 0, &table, &tools);
    break_blocks(&mut store, &vec![hit(p, STONE, Held::Unknown)], 400_000, &table, &tools);
    assert_eq!(
        store.get(p),
        Some(BreakingEntry { position: p, proxy: true, progress: 0, last_hit: 0 })
    );
}

#[test]
fn an_idle_entry_times_out_without_touching_the_world() {
    let (table, tools) = (blocks(), items());
    let mut store = BreakingStore::new();
    let p = at(5, 5, 5);
    let event = vec![hit(p, STONE, Held::Empty)];
    break_blocks(&mut store, &event, 0, &table, &tools);
    break_blocks(&mut store, &event, 400_000, &table, &tools);
    assert_eq!(store.get(p).map(|e| e.progress), Some(200_000));
    assert_eq!(break_blocks(&mut store, &vec![], 400_000 + IDLE_TIMEOUT, &table, &tools), vec![]);
    assert_eq!(store.len(), 1);
    let commands = break_blocks(&mut store, &vec![], 400_001 + IDLE_TIMEOUT, &table, &tools);
    assert_eq!(commands, vec![Command::DespawnProxy { position: p }]);
    assert_eq!(store.get(p), None);
    let again = break_blocks(&mut store, &event, 2_000_000, &table, &tools);
    assert_eq!(again, vec![Command::SpawnProxy { position: p }]);
    assert_eq!(store.get(p).map(|e| e.progress), Some(0));
}

#[test]
fn a_jump_over_several_tenths_shows_only_the_highest() {
    let (table, tools) = (blocks(), items());
    let mut store = BreakingStore::new();
    let p = at(5, 5, 5);
    let event = vec![hit(p, STONE, Held::Empty)];
    break_blocks(&mut store, &event, 0, &table, &tools);
    break_blocks(&mut store, &event, 100_000, &table, &tools);
    assert_eq!(store.get(p).map(|e| e.progress), Some(50_000));
    let commands = break_blocks(&mut store, &event, 700_000, &table, &tools);
    assert_eq!(store.get(p).map(|e| e.progress), Some(350_000));
    assert_eq!(commands, vec![Command::ShowStage { position: p, stage: 3 }]);
}

#[test]
fn duplicates_at_one_time_give_one_update() {
    let (table, tools) = (blocks(), items());
    let p = at(5, 5, 5);
    let event = hit(p, STONE, Held::Empty);
    let mut once = BreakingStore::new();
    let mut thrice = BreakingStore::new();
    break_blocks(&mut once, &vec![event], 0, &table, &tools);
    let created = break_blocks(&mut thrice, &vec![event, event, event], 0, &table, &tools);
    assert_eq!(created, vec![Command::SpawnProxy { position: p }]);
    let a = break_blocks(&mut once, &vec![event], 300_000, &table, &tools);
    let b = break_blocks(&mut thrice, &vec![event, event, event], 300_000, &table, &tools);
    assert_eq!(a, b);
    assert_eq!(a, vec![Command::ShowStage { position: p, stage: 1 }]);
    assert_eq!(once.get(p), thrice.get(p));
    assert_eq!(thrice.get(p).map(|e| e.progress), Some(150_000));
    assert_eq!(thrice.len(), 1);
}

#[test]
fn a_hit_within_the_burst_window_only_moves_the_time() {
    let (table, tools) = (blocks(), items());
    let mut store = BreakingStore::new();
    let p = at(5, 5, 5);
    let event = vec![hit(p, STONE, Held::Empty)];
    break_blocks(&mut store, &event, 0, &table, &tools);
    assert_eq!(break_blocks(&mut store, &event, BURST_WINDOW, &table, &tools), vec![]);
    assert_eq!(
        store.get(p),
        Some(BreakingEntry { position: p, proxy: true, progress: 0, last_hit: BURST_WINDOW })
    );
    break_blocks(&mut store, &event, 2 * BURST_WINDOW + 1, &table, &tools);
    assert_eq!(
        store.get(p),
        Some(BreakingEntry {
            position: p,
            proxy: true,
            progress: 25_000,
            last_hit: 2 * BURST_WINDOW + 1
        })
    );
}

#[test]
fn a_clock_that_goes_back_only_moves_the_time() {
    let (table, tools) = (blocks(), items());
    let mut store = BreakingStore::new();
    let p = at(5, 5, 5);
    let event = hit(p, STONE, Held::Empty);
    store.strike(&event, 900_000, &table, &tools);
    assert_eq!(store.strike(&event, 100_000, &table, &tools), vec![]);
    assert_eq!(
        store.get(p),
        Some(BreakingEntry { position: p, proxy: true, progress: 0, last_hit: 100_000 })
    );
}

#[test]
fn each_position_has_its_own_entry_and_proxy() {
    let (table, tools) = (blocks(), items());
    let mut store = BreakingStore::new();
    let (p, q) = (at(1, 1, 1), at(1, 1, 2));
    let commands = break_blocks(
        &mut store,
        &vec![hit(p, STONE, Held::Empty), hit(q, STONE, Held::Item(PICKAXE)), hit(p, STONE, Held::Empty)],
        10,
        &table,
        &tools,
    );
    assert_eq!(
        commands,
        vec![
            Command::SpawnProxy { position: p },
            Command::SpawnProxy { position: q },
        ]
    );
    assert_eq!(store.len(), 2);
    assert_eq!(store.entry_at(0).map(|e| e.position), Some(p));
    assert_eq!(store.entry_at(1).map(|e| e.position), Some(q));
    assert_eq!(store.entry_at(2), None);
    let next = break_blocks(&mut store, &vec![hit(q, STONE, Held::Item(PICKAXE))], 100_010, &table, &tools);
    assert_eq!(next, vec![Command::ShowStage { position: q, stage: 2 }]);
    assert_eq!(store.get(p).map(|e| e.progress), Some(0));
    assert_eq!(store.get(q).map(|e| e.progress), Some(200_000));
    let late = break_blocks(&mut store, &vec![hit(q, STONE, Held::Item(PICKAXE))], 550_010, &table, &tools);
    assert_eq!(
        late,
        vec![
            gone(q),
            Command::SpawnGroundItem { item: COBBLE, count: 1, position: q },
            Command::DespawnProxy { position: p },
            Command::DespawnProxy { position: q },
        ]
    );
    assert_eq!(store.len(), 0);
}

#[test]
fn a_new_store_is_empty() {
    let store = BreakingStore::new();
    assert_eq!(store.len(), 0);
    assert_eq!(store.get(at(0, 0, 0)), None);
    assert_eq!(store.entry_at(0), None);
}

#[test]
fn phases_of_a_block() {
    let (table, tools) = (blocks(), items());
    let mut store = BreakingStore::new();
    let p = at(3, 3, 3);
    let event = hit(p, STONE, Held::Empty);
    assert_eq!(store.phase(p, 0), Phase::Absent);
    store.strike(&event, 0, &table, &tools);
    assert_eq!(store.phase(p, 0), Phase::Active(0));
    store.strike(&event, 300_000, &table, &tools);
    assert_eq!(store.phase(p, 300_000), Phase::Active(150_000));
    assert_eq!(store.phase(p, 800_000), Phase::Active(150_000));
    assert_eq!(store.phase(p, 800_001), Phase::TimedOut);
    store.strike(&event, 2_300_000, &table, &tools);
    assert_eq!(store.phase(p, 2_300_000), Phase::Complete);
    assert_eq!(store.phase(p, 9_000_000), Phase::Complete);
    store.sweep(2_300_000);
    assert_eq!(store.phase(p, 2_300_000), Phase::Absent);
    assert_eq!(store.phase(at(0, 0, 0), 0), Phase::Absent);
}

#[test]
fn every_hit_is_applied_or_dropped_for_a_reason() {
    let (table, tools) = (blocks(), items());
    let mut store = BreakingStore::new();
    let p = at(3, 3, 3);
    let event = hit(p, STONE, Held::Empty);
    assert_eq!(store.classify(&event, 10, &table), Disposition::Applied);
    assert_eq!(store.classify(&hit(p, STONE, Held::Unknown), 10, &table), Disposition::PreconditionViolation);
    assert_eq!(store.classify(&hit(p, BEDROCK, Held::Empty), 10, &table), Disposition::PolicyNoOp);
    assert_eq!(store.classify(&hit(p, BEDROCK, Held::Unknown), 10, &table), Disposition::PreconditionViolation);
    assert_eq!(store.classify(&hit(p, 900, Held::Empty), 10, &table), Disposition::PolicyNoOp);
    store.strike(&event, 10, &table, &tools);
    assert_eq!(store.classify(&event, 10, &table), Disposition::DuplicateSuppressed);
    assert_eq!(store.classify(&hit(p, BEDROCK, Held::Unknown), 10, &table), Disposition::DuplicateSuppressed);
    assert_eq!(store.classify(&event, 11, &table), Disposition::Applied);
    assert_eq!(store.classify(&hit(at(3, 3, 4), STONE, Held::Empty), 10, &table), Disposition::Applied);
}

#[test]
fn progress_reaches_the_whole_within_a_millionth_per_hit() {
    let (table, tools) = (blocks(), items());
    let mut store = BreakingStore::new();
    let p = at(3, 3, 3);
    let event = vec![hit(p, STONE, Held::Empty)];
    let step: u64 = 66_667;
    let mut now: u64 = 0;
    let mut hits: u64 = 1;
    break_blocks(&mut store, &event, now, &table, &tools);
    let broke_at = loop {
        now += step;
        hits += 1;
        let commands = break_blocks(&mut store, &event, now, &table, &tools);
        if commands.contains(&gone(p)) {
            break now;
        }
        assert!(hits < 100);
    };
    assert_eq!(store.get(p), None);
    assert!(broke_at * 1000 >= 2000 * 1_000_000);
    assert!(broke_at * 1000 <= 2000 * (1_000_000 + hits) + step * 1000);
    assert_eq!(hits, 32);
}


fn carry_out(display: &mut std::collections::HashMap<BlockPosition, u8>, commands: &[Command]) {
    for command in commands {
        match *command {
            Command::SpawnProxy { position } => {
                display.insert(position, 0);
            }
            Command::ShowStage { position, stage } => {
                if let Some(shown) = display.get_mut(&position) {
                    *shown = stage;
                }
            }
            Command::DespawnProxy { position } => {
                display.remove(&position);
            }
            _ => (),
        }
    }
}

#[test]
fn every_proxy_shows_the_stage_of_its_progress() {
    let (table, tools) = (blocks(), items());
    let mut store = BreakingStore::new();
    let mut display = std::collections::HashMap::new();
    let (p, q) = (at(1, 1, 1), at(2, 2, 2));
    let gaps: [u64; 9] = [0, 60_000, 130_000, 51_000, 400_000, 90_000, 333_000, 70_000, 450_000];
    let mut now: u64 = 7;
    for (n, gap) in gaps.iter().enumerate() {
        now += gap;
        let mut events = vec![hit(p, STONE, Held::Empty)];
        if n % 2 == 1 {
            events.push(hit(q, STONE, Held::Item(PICKAXE)));
            events.push(hit(p, STONE, Held::Empty));
        }
        let commands = break_blocks(&mut store, &events, now, &table, &tools);
        carry_out(&mut display, &commands);
        assert_eq!(display.len(), store.len());
        for position in [p, q] {
            match store.get(position) {
                Some(entry) => {
                    assert!(entry.progress < PROGRESS_FULL);
                    assert_eq!(display.get(&position), Some(&stage(entry.progress)));
                    assert_eq!(display[&position] == 0, entry.progress < 100_000);
                }
                None => assert_eq!(display.get(&position), None),
            }
        }
    }
    assert_eq!(store.get(p).map(|e| e.progress), Some(792_000));
    assert_eq!(display.get(&p), Some(&7));
}
