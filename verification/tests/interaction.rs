use voxel_hand::config::{BlockConfig, Blocks, Command, ItemConfig, Items, Placement};
use voxel_hand::grid::{BlockFace, BlockPosition, Rotation};
use voxel_hand::interaction::{
    handle_right_click, handle_right_clicks, placement_position, BlockEntity, Hand, SecondaryClick,
};
use voxel_hand::inventory::ItemStack;
use voxel_hand::target::{BlockHit, ObjectHit};

const REACH: u64 = 5_000_000;

const AIR: u16 = 0;
const STONE: u16 = 1;
const WATER: u16 = 2;
const TORCH: u16 = 3;
const CHEST: u16 = 4;

const STONE_ITEM: u32 = 0;
const TORCH_ITEM: u32 = 1;
const WAND: u32 = 2;
const APPLE: u32 = 3;
const CHEST_ITEM: u32 = 4;
const GHOST_ITEM: u32 = 5;

const WAND_HANDLER: u64 = 900;

fn pos(x: i32, y: i32, z: i32) -> BlockPosition {
    BlockPosition { x, y, z }
}

fn placement(rotatable: bool, side_transform: bool, floor: bool, sides: bool) -> Placement {
    Placement { rotatable, side_transform, ceiling: false, floor, sides }
}

fn blocks() -> Blocks {
    let solid = placement(false, false, false, false);
    Blocks {
        configs: vec![
            BlockConfig { hardness: None, replaceable: true, placement: solid, drops: vec![] },
            BlockConfig { hardness: Some(1000), replaceable: false, placement: solid, drops: vec![] },
            BlockConfig { hardness: None, replaceable: true, placement: solid, drops: vec![] },
            BlockConfig {
                hardness: Some(0),
                replaceable: false,
                placement: placement(false, true, true, true),
                drops: vec![],
            },
            BlockConfig {
                hardness: Some(3000),
                replaceable: false,
                placement: placement(true, false, true, false),
                drops: vec![],
            },
        ],
        empty: AIR,
    }
}

fn items() -> Items {
    let nothing = ItemConfig { tool: None, block: None, use_handler: None };
    Items {
        configs: vec![
            ItemConfig { block: Some(STONE), ..nothing },
            ItemConfig { block: Some(TORCH), ..nothing },
            ItemConfig { use_handler: Some(WAND_HANDLER), ..nothing },
            nothing,
            ItemConfig { block: Some(CHEST), use_handler: Some(WAND_HANDLER), ..nothing },
            ItemConfig { block: Some(77), ..nothing },
        ],
    }
}

fn hit(block: u16, face: BlockFace) -> BlockHit {
    BlockHit { position: pos(10, 64, 10), block, face, distance: 2_000_000 }
}

fn click(block_hit: Option<BlockHit>, neighbor: Option<u16>) -> SecondaryClick {
    SecondaryClick {
        player: 5,
        player_position: pos(13, 64, 11),
        block_hit,
        objects: vec![],
        block_entity: None,
        neighbor,
    }
}

fn placed(position: BlockPosition, block: u16, orientation: Option<Rotation>) -> Command {
    Command::SetBlock { position, block, orientation }
}

#[test]
fn an_object_with_a_queue_takes_the_action() {
    let mut c = click(Some(hit(STONE, BlockFace::Top)), Some(AIR));
    c.objects = vec![
        ObjectHit { object: 70, distance: 1_900_000, tag: None, sink: false },
        ObjectHit { object: 71, distance: 1_500_000, tag: None, sink: true },
    ];
    let mut stack = ItemStack::new(STONE_ITEM, 4);
    let commands = handle_right_click(&c, &mut stack, &blocks(), &items(), REACH);
    assert_eq!(commands, vec![Command::Enqueue { sink: 71, player: 5 }]);
    assert_eq!(stack, ItemStack::new(STONE_ITEM, 4));
}

#[test]
fn an_object_without_a_queue_still_blocks_the_action() {
    let mut c = click(Some(hit(STONE, BlockFace::Top)), Some(AIR));
    c.objects = vec![ObjectHit { object: 70, distance: 2_000_000, tag: None, sink: false }];
    let mut stack = ItemStack::new(STONE_ITEM, 4);
    assert_eq!(handle_right_click(&c, &mut stack, &blocks(), &items(), REACH), vec![]);
    assert_eq!(stack, ItemStack::new(STONE_ITEM, 4));
}

#[test]
fn an_object_behind_the_block_is_not_hit() {
    let mut c = click(Some(hit(STONE, BlockFace::Top)), Some(AIR));
    c.objects = vec![ObjectHit { object: 70, distance: 2_000_001, tag: None, sink: true }];
    let mut stack = ItemStack::new(STONE_ITEM, 4);
    let commands = handle_right_click(&c, &mut stack, &blocks(), &items(), REACH);
    assert_eq!(commands, vec![placed(pos(10, 65, 10), STONE, None)]);
    assert_eq!(stack, ItemStack::new(STONE_ITEM, 3));
}

#[test]
fn a_block_entity_with_a_queue_takes_the_action() {
    let mut c = click(Some(hit(CHEST, BlockFace::Left)), Some(AIR));
    c.block_entity = Some(BlockEntity { object: 33, sink: true });
    let mut stack = ItemStack::new(STONE_ITEM, 4);
    let commands = handle_right_click(&c, &mut stack, &blocks(), &items(), REACH);
    assert_eq!(commands, vec![Command::Enqueue { sink: 33, player: 5 }]);
    assert_eq!(stack, ItemStack::new(STONE_ITEM, 4));
    c.block_entity = Some(BlockEntity { object: 33, sink: false });
    let commands = handle_right_click(&c, &mut stack, &blocks(), &items(), REACH);
    assert_eq!(commands, vec![placed(pos(9, 64, 10), STONE, None)]);
    assert_eq!(stack, ItemStack::new(STONE_ITEM, 3));
}

#[test]
fn nothing_hit_does_nothing() {
    let mut stack = ItemStack::new(WAND, 1);
    assert_eq!(handle_right_click(&click(None, None), &mut stack, &blocks(), &items(), REACH), vec![]);
    let far = BlockHit { distance: REACH + 1, ..hit(STONE, BlockFace::Top) };
    assert_eq!(
        handle_right_click(&click(Some(far), Some(AIR)), &mut stack, &blocks(), &items(), REACH),
        vec![]
    );
    assert_eq!(stack, ItemStack::new(WAND, 1));
}

#[test]
fn an_empty_hand_does_nothing() {
    let mut stack = ItemStack::none();
    let c = click(Some(hit(STONE, BlockFace::Top)), Some(AIR));
    assert_eq!(handle_right_click(&c, &mut stack, &blocks(), &items(), REACH), vec![]);
    assert_eq!(stack, ItemStack::none());
}

#[test]
fn a_replaceable_block_is_replaced_itself() {
    let mut stack = ItemStack::new(STONE_ITEM, 2);
    let c = click(Some(hit(WATER, BlockFace::Top)), Some(STONE));
    let commands = handle_right_click(&c, &mut stack, &blocks(), &items(), REACH);
    assert_eq!(commands, vec![placed(pos(10, 64, 10), STONE, None)]);
    assert_eq!(stack, ItemStack::new(STONE_ITEM, 1));
}

#[test]
fn the_last_item_empties_the_hand() {
    let mut stack = ItemStack::new(STONE_ITEM, 1);
    let c = click(Some(hit(STONE, BlockFace::Back)), Some(WATER));
    let commands = handle_right_click(&c, &mut stack, &blocks(), &items(), REACH);
    assert_eq!(commands, vec![placed(pos(10, 64, 9), STONE, None)]);
    assert_eq!(stack, ItemStack::none());
    assert_eq!(handle_right_click(&c, &mut stack, &blocks(), &items(), REACH), vec![]);
}

#[test]
fn no_room_means_no_placement() {
    let mut stack = ItemStack::new(STONE_ITEM, 2);
    let occupied = click(Some(hit(STONE, BlockFace::Top)), Some(STONE));
    assert_eq!(handle_right_click(&occupied, &mut stack, &blocks(), &items(), REACH), vec![]);
    let unloaded = click(Some(hit(STONE, BlockFace::Top)), None);
    assert_eq!(handle_right_click(&unloaded, &mut stack, &blocks(), &items(), REACH), vec![]);
    let unknown = click(Some(hit(STONE, BlockFace::Top)), Some(400));
    assert_eq!(handle_right_click(&unknown, &mut stack, &blocks(), &items(), REACH), vec![]);
    assert_eq!(stack, ItemStack::new(STONE_ITEM, 2));
}

#[test]
fn destination_of_a_placement() {
    let table = blocks();
    assert_eq!(placement_position(&hit(WATER, BlockFace::Top), None, &table), Some(pos(10, 64, 10)));
    assert_eq!(placement_position(&hit(STONE, BlockFace::Top), Some(AIR), &table), Some(pos(10, 65, 10)));
    assert_eq!(placement_position(&hit(STONE, BlockFace::Right), Some(WATER), &table), Some(pos(11, 64, 10)));
    assert_eq!(placement_position(&hit(STONE, BlockFace::Right), Some(TORCH), &table), None);
    assert_eq!(placement_position(&hit(STONE, BlockFace::Right), None, &table), None);
    let top = BlockHit { position: pos(0, i32::MAX, 0), ..hit(STONE, BlockFace::Top) };
    assert_eq!(placement_position(&top, Some(AIR), &table), None);
}

#[test]
fn an_item_that_places_nothing_is_only_used() {
    let c = click(Some(hit(STONE, BlockFace::Top)), Some(AIR));
    let mut wand = ItemStack::new(WAND, 1);
    assert_eq!(
        handle_right_click(&c, &mut wand, &blocks(), &items(), REACH),
        vec![Command::NotifyUse { handler: WAND_HANDLER, player: 5, block: STONE, position: pos(10, 64, 10) }]
    );
    assert_eq!(wand, ItemStack::new(WAND, 1));
    let mut apple = ItemStack::new(APPLE, 3);
    assert_eq!(handle_right_click(&c, &mut apple, &blocks(), &items(), REACH), vec![]);
    assert_eq!(apple, ItemStack::new(APPLE, 3));
    let mut unknown = ItemStack::new(4000, 3);
    assert_eq!(handle_right_click(&c, &mut unknown, &blocks(), &items(), REACH), vec![]);
    let mut ghost = ItemStack::new(GHOST_ITEM, 3);
    assert_eq!(handle_right_click(&c, &mut ghost, &blocks(), &items(), REACH), vec![]);
    assert_eq!(ghost, ItemStack::new(GHOST_ITEM, 3));
}

#[test]
fn the_use_handler_is_told_even_without_room() {
    let c = click(Some(hit(STONE, BlockFace::Top)), Some(STONE));
    let mut stack = ItemStack::new(CHEST_ITEM, 2);
    assert_eq!(
        handle_right_click(&c, &mut stack, &blocks(), &items(), REACH),
        vec![Command::NotifyUse { handler: WAND_HANDLER, player: 5, block: STONE, position: pos(10, 64, 10) }]
    );
    assert_eq!(stack, ItemStack::new(CHEST_ITEM, 2));
}

#[test]
fn a_rotatable_block_on_the_floor_faces_the_player() {
    let c = click(Some(hit(STONE, BlockFace::Top)), Some(AIR));
    let mut stack = ItemStack::new(CHEST_ITEM, 2);
    assert_eq!(
        handle_right_click(&c, &mut stack, &blocks(), &items(), REACH),
        vec![
            Command::NotifyUse { handler: WAND_HANDLER, player: 5, block: STONE, position: pos(10, 64, 10) },
            placed(pos(10, 65, 10), CHEST, Some(Rotation::Once)),
        ]
    );
    assert_eq!(stack, ItemStack::new(CHEST_ITEM, 1));
}

#[test]
fn a_torch_on_a_side_takes_the_rotation_of_the_side() {
    let mut stack = ItemStack::new(TORCH_ITEM, 9);
    let side = click(Some(hit(STONE, BlockFace::Left)), Some(AIR));
    assert_eq!(
        handle_right_click(&side, &mut stack, &blocks(), &items(), REACH),
        vec![placed(pos(9, 64, 10), TORCH, Some(Rotation::Thrice))]
    );
    let top = click(Some(hit(STONE, BlockFace::Top)), Some(AIR));
    assert_eq!(
        handle_right_click(&top, &mut stack, &blocks(), &items(), REACH),
        vec![placed(pos(10, 65, 10), TORCH, None)]
    );
    assert_eq!(stack, ItemStack::new(TORCH_ITEM, 7));
}

#[test]
fn clicks_of_a_tick_share_the_hands() {
    let place = click(Some(hit(STONE, BlockFace::Top)), Some(AIR));
    let mut other = click(Some(hit(WATER, BlockFace::Top)), None);
    other.player = 6;
    let mut stranger = click(Some(hit(WATER, BlockFace::Top)), None);
    stranger.player = 7;
    let clicks = vec![place.clone(), other, place.clone(), stranger, place];
    let mut hands = vec![
        Hand { player: 6, stack: ItemStack::new(TORCH_ITEM, 1) },
        Hand { player: 5, stack: ItemStack::new(STONE_ITEM, 2) },
        Hand { player: 5, stack: ItemStack::new(STONE_ITEM, 50) },
    ];
    let commands = handle_right_clicks(&clicks, &mut hands, &blocks(), &items(), REACH);
    assert_eq!(
        commands,
        vec![
            placed(pos(10, 65, 10), STONE, None),
            placed(pos(10, 64, 10), TORCH, None),
            placed(pos(10, 65, 10), STONE, None),
        ]
    );
    assert_eq!(
        hands,
        vec![
            Hand { player: 6, stack: ItemStack::none() },
            Hand { player: 5, stack: ItemStack::none() },
            Hand { player: 5, stack: ItemStack::new(STONE_ITEM, 50) },
        ]
    );
    assert_eq!(handle_right_clicks(&vec![], &mut hands, &blocks(), &items(), REACH), vec![]);
}
