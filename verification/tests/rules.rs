use catan_engine::building::{
    is_road_adjacent_to_vertex, is_road_connectable, place_city, place_house, place_road,
};
use catan_engine::development_cards::{
    begin_turn, consume_card, play_knight_card, play_knight_card_taking, play_monopoly_card,
    play_road_building_card, play_year_of_plenty_card,
};
use catan_engine::economy::{
    buy_development_card, check_trade, find_robber, get_players_adjacent_to_tile,
    give_materials_on_roll, give_starting_resources, has_resources, move_robber_and_take,
    moves_robber, place_robber, required_to_give, robbable_resources, roll_dice, spend_resources,
    trade_with_bank,
};
use catan_engine::setup::{add_player, build_board, unshuffled_deck, unshuffled_materials};
use catan_engine::survey::{
    buildable_roads, card_counts, first_free_edge_adjacent_to, held_materials, resource_total,
    robbable_players,
};
use catan_engine::types::{
    BuildingType, DevelopmentCard, GameError, MaterialType, Player, PlayerType, PowerUp,
    Resources, TurnPhase,
};
use catan_engine::victory::{
    calculate_player_longest_road, check_for_winner, update_largest_army, update_longest_road,
};
use catan_engine::Board;

const FIRST: PlayerType = PlayerType::Player1;
const SECOND: PlayerType = PlayerType::Player2;
const THIRD: PlayerType = PlayerType::Player3;
const FOURTH: PlayerType = PlayerType::Player4;

/// The unshuffled board: tile 0 stone (5), 1 sheep (2), 2 wood (6), 3 brick
/// (10), 4 wheat (9), 5 sheep (4), 6 brick (3), 7 wheat (8), 8 wood (11), 9
/// stone (5), 10 wood (8), 11 stone (4), 12 wheat (11), 13 sheep (12), 14
/// brick (9), 15 wheat (6), 16 sheep (3), 17 wood (10), 18 desert.
fn table(seats: usize) -> Board {
    table_with_cards_on_top(seats, &[])
}

/// The unshuffled board with a deck from which `top` is drawn first, in this
/// order.
fn table_with_cards_on_top(seats: usize, top: &[DevelopmentCard]) -> Board {
    let mut rest = unshuffled_deck();
    for card in top {
        let at = rest.iter().position(|c| c == card).expect("the deck holds the card");
        rest.remove(at);
    }
    for card in top.iter().rev() {
        rest.push(*card);
    }
    let mut board = build_board(unshuffled_materials(), rest).expect("a valid layout");
    for _ in 0..seats {
        add_player(&mut board).expect("a free seat");
    }
    board
}

fn edge_between(board: &Board, a: usize, b: usize) -> usize {
    let ends = if a < b { (a, b) } else { (b, a) };
    board.edges().iter().position(|e| e.vertices == ends).expect("the vertices are neighbours")
}

fn hand(board: &Board, player: PlayerType) -> Resources {
    board.players()[player.index()].resources
}

fn points(board: &Board, player: PlayerType) -> u8 {
    board.players()[player.index()].victory_points
}

fn roll(board: &mut Board, number: u8, times: usize) {
    for _ in 0..times {
        give_materials_on_roll(board, number);
    }
}

fn found(board: &mut Board, player: PlayerType, vertex: usize) {
    assert_eq!(place_house(board, player, vertex, true), Ok(None));
}

fn cards(wheat: u8, brick: u8, stone: u8, sheep: u8, wood: u8) -> Resources {
    Resources { wheat, brick, stone, sheep, wood }
}

fn robber_tiles(board: &Board) -> Vec<usize> {
    board.tiles().iter().enumerate().filter(|(_, t)| t.has_robber).map(|(i, _)| i).collect()
}

fn pieces_add_up(board: &Board) {
    for player in board.players() {
        let settlements = board
            .vertices()
            .iter()
            .filter(|v| {
                v.owner == Some(player.id) && v.building == Some(BuildingType::Settlement)
            })
            .count();
        let cities = board
            .vertices()
            .iter()
            .filter(|v| v.owner == Some(player.id) && v.building == Some(BuildingType::City))
            .count();
        let roads = board.edges().iter().filter(|e| e.owner == Some(player.id)).count();
        assert_eq!(player.settlement_quantity as usize + settlements, 5);
        assert_eq!(player.city_quantity as usize + cities, 4);
        assert_eq!(player.road_quantity as usize + roads, 15);
    }
}

#[test]
fn founding_settlement_is_free_and_blocks_its_neighbours() {
    let mut board = table(2);
    assert_eq!(place_house(&mut board, FIRST, 5, true), Ok(None));
    assert_eq!(board.vertices()[5].owner, Some(FIRST));
    assert_eq!(board.vertices()[5].building, Some(BuildingType::Settlement));
    assert_eq!(hand(&board, FIRST), cards(0, 0, 0, 0, 0));
    assert_eq!(points(&board, FIRST), 1);
    assert_eq!(board.players()[0].settlement_quantity, 4);
    assert_eq!(place_house(&mut board, SECOND, 6, true), Err(GameError::DistanceRuleViolation));
    assert_eq!(place_house(&mut board, SECOND, 4, true), Err(GameError::DistanceRuleViolation));
    assert_eq!(board.vertices()[6].owner, None);
    assert_eq!(board.vertices()[4].owner, None);
    assert_eq!(points(&board, SECOND), 0);
    assert_eq!(board.players()[1].settlement_quantity, 5);
    pieces_add_up(&board);
}

#[test]
fn settlement_on_an_owned_vertex_is_rejected_every_time() {
    let mut board = table(2);
    found(&mut board, FIRST, 5);
    assert_eq!(place_house(&mut board, SECOND, 5, true), Err(GameError::OccupiedPosition));
    assert_eq!(place_house(&mut board, SECOND, 5, true), Err(GameError::OccupiedPosition));
    assert_eq!(place_house(&mut board, FIRST, 5, false), Err(GameError::OccupiedPosition));
    assert_eq!(board.vertices()[5].owner, Some(FIRST));
    assert_eq!(board.players()[0].settlement_quantity, 4);
    assert_eq!(points(&board, FIRST), 1);
}

#[test]
fn settlement_errors_come_in_order() {
    let mut board = table(1);
    assert_eq!(place_house(&mut board, FIRST, 54, true), Err(GameError::InvalidPosition));
    assert_eq!(place_house(&mut board, SECOND, 54, true), Err(GameError::InvalidPosition));
    assert_eq!(place_house(&mut board, SECOND, 30, true), Err(GameError::PlayerNotFound));
    assert_eq!(place_house(&mut board, FIRST, 30, false), Err(GameError::NotConnected));
    found(&mut board, FIRST, 34);
    let road = edge_between(&board, 34, 35);
    assert_eq!(
        place_road(&mut board, FIRST, road, TurnPhase::Setup { anchor_vertex: 34 }),
        Ok(None)
    );
    let next = edge_between(&board, 35, 36);
    roll(&mut board, 6, 1);
    roll(&mut board, 10, 1);
    assert_eq!(place_road(&mut board, FIRST, next, TurnPhase::Normal), Ok(None));
    assert_eq!(place_house(&mut board, FIRST, 36, false), Err(GameError::InsufficientResources));
    assert_eq!(place_house(&mut board, FIRST, 35, false), Err(GameError::DistanceRuleViolation));
    assert_eq!(board.vertices()[36].owner, None);
}

#[test]
fn settlement_in_a_normal_turn_needs_a_road_and_costs_four_cards() {
    let mut board = table(1);
    found(&mut board, FIRST, 33);
    let first = edge_between(&board, 33, 49);
    let second = edge_between(&board, 49, 48);
    assert_eq!(
        place_road(&mut board, FIRST, first, TurnPhase::Setup { anchor_vertex: 33 }),
        Ok(None)
    );
    // Vertex 33 lies on wood (6), sheep (12) and brick (9).
    roll(&mut board, 6, 2);
    roll(&mut board, 9, 2);
    roll(&mut board, 12, 1);
    assert_eq!(hand(&board, FIRST), cards(0, 2, 0, 1, 2));
    assert_eq!(place_road(&mut board, FIRST, second, TurnPhase::Normal), Ok(None));
    assert_eq!(hand(&board, FIRST), cards(0, 1, 0, 1, 1));
    assert_eq!(place_house(&mut board, FIRST, 48, false), Err(GameError::InsufficientResources));
    assert_eq!(give_starting_resources(&mut board, FIRST, 47), Ok(()));
    assert_eq!(hand(&board, FIRST), cards(1, 1, 1, 1, 1));
    assert_eq!(place_house(&mut board, FIRST, 48, false), Ok(None));
    assert_eq!(hand(&board, FIRST), cards(0, 0, 1, 0, 0));
    assert_eq!(points(&board, FIRST), 2);
    assert_eq!(board.players()[0].settlement_quantity, 3);
    pieces_add_up(&board);
}

#[test]
fn sixth_settlement_finds_no_piece() {
    let mut board = table(1);
    for vertex in [0, 2, 4, 6, 8] {
        found(&mut board, FIRST, vertex);
    }
    assert_eq!(board.players()[0].settlement_quantity, 0);
    assert_eq!(points(&board, FIRST), 5);
    assert_eq!(place_house(&mut board, FIRST, 10, true), Err(GameError::InsufficientPieces));
    assert_eq!(board.vertices()[10].owner, None);
    pieces_add_up(&board);
}

#[test]
fn settlement_on_a_port_brings_the_port_once() {
    let mut board = table(1);
    found(&mut board, FIRST, 7);
    assert_eq!(board.players()[0].power_ups, vec![PowerUp::Any3]);
    found(&mut board, FIRST, 14);
    assert_eq!(board.players()[0].power_ups, vec![PowerUp::Any3]);
    found(&mut board, FIRST, 20);
    assert_eq!(board.players()[0].power_ups, vec![PowerUp::Any3, PowerUp::Brick2]);
    found(&mut board, FIRST, 30);
    assert_eq!(board.players()[0].power_ups, vec![PowerUp::Any3, PowerUp::Brick2]);
}

#[test]
fn city_replaces_a_settlement_and_doubles_its_yield() {
    let mut board = table(2);
    // Vertex 30 lies on stone (5), wheat (11) and sheep (12).
    found(&mut board, FIRST, 30);
    assert_eq!(place_city(&mut board, FIRST, 54), Err(GameError::InvalidPosition));
    assert_eq!(place_city(&mut board, FIRST, 31), Err(GameError::NoSettlement));
    assert_eq!(place_city(&mut board, SECOND, 30), Err(GameError::NoSettlement));
    assert_eq!(place_city(&mut board, FIRST, 30), Err(GameError::InsufficientResources));
    roll(&mut board, 11, 2);
    roll(&mut board, 5, 2);
    assert_eq!(place_city(&mut board, FIRST, 30), Err(GameError::InsufficientResources));
    roll(&mut board, 5, 1);
    assert_eq!(hand(&board, FIRST), cards(2, 0, 3, 0, 0));
    assert_eq!(place_city(&mut board, FIRST, 30), Ok(None));
    assert_eq!(board.vertices()[30].building, Some(BuildingType::City));
    assert_eq!(board.vertices()[30].owner, Some(FIRST));
    assert_eq!(hand(&board, FIRST), cards(0, 0, 0, 0, 0));
    assert_eq!(points(&board, FIRST), 2);
    assert_eq!(board.players()[0].city_quantity, 3);
    assert_eq!(board.players()[0].settlement_quantity, 5);
    assert_eq!(place_city(&mut board, FIRST, 30), Err(GameError::NoSettlement));
    roll(&mut board, 12, 1);
    assert_eq!(hand(&board, FIRST), cards(0, 0, 0, 2, 0));
    pieces_add_up(&board);
}

#[test]
fn fifth_city_finds_no_piece() {
    let mut board = table(1);
    // Vertices 30 and 47 lie on stone (5) and wheat (11).
    for vertex in [30, 46, 29, 1, 36] {
        found(&mut board, FIRST, vertex);
    }
    roll(&mut board, 5, 20);
    roll(&mut board, 11, 20);
    for vertex in [30, 46, 29, 1] {
        assert_eq!(place_city(&mut board, FIRST, vertex), Ok(None));
    }
    assert_eq!(board.players()[0].city_quantity, 0);
    assert_eq!(board.players()[0].settlement_quantity, 4);
    assert_eq!(points(&board, FIRST), 9);
    assert_eq!(place_city(&mut board, FIRST, 36), Err(GameError::InsufficientPieces));
    assert_eq!(board.vertices()[36].building, Some(BuildingType::Settlement));
    pieces_add_up(&board);
}

#[test]
fn founding_road_must_touch_the_new_settlement() {
    let mut board = table(2);
    found(&mut board, FIRST, 34);
    let far = edge_between(&board, 36, 37);
    let near = edge_between(&board, 34, 6);
    let phase = TurnPhase::Setup { anchor_vertex: 34 };
    assert_eq!(place_road(&mut board, FIRST, far, phase), Err(GameError::NotConnected));
    assert_eq!(place_road(&mut board, FIRST, 72, phase), Err(GameError::InvalidPosition));
    assert_eq!(place_road(&mut board, THIRD, near, phase), Err(GameError::PlayerNotFound));
    assert_eq!(place_road(&mut board, FIRST, near, phase), Ok(None));
    assert_eq!(board.edges()[near].owner, Some(FIRST));
    assert_eq!(board.players()[0].road_quantity, 14);
    assert_eq!(hand(&board, FIRST), cards(0, 0, 0, 0, 0));
    assert_eq!(place_road(&mut board, SECOND, near, phase), Err(GameError::OccupiedPosition));
    assert_eq!(place_road(&mut board, FIRST, near, phase), Err(GameError::OccupiedPosition));
    assert_eq!(board.players()[0].road_quantity, 14);
    assert!(is_road_adjacent_to_vertex(&board, near, 34));
    assert!(is_road_adjacent_to_vertex(&board, near, 6));
    assert!(!is_road_adjacent_to_vertex(&board, near, 35));
    pieces_add_up(&board);
}

#[test]
fn normal_road_costs_brick_and_wood_and_extends_the_network() {
    let mut board = table(2);
    found(&mut board, FIRST, 34);
    found(&mut board, SECOND, 37);
    let first = edge_between(&board, 34, 35);
    let second = edge_between(&board, 35, 36);
    let apart = edge_between(&board, 38, 39);
    let others = edge_between(&board, 37, 38);
    assert_eq!(
        place_road(&mut board, FIRST, first, TurnPhase::Normal),
        Err(GameError::InsufficientResources)
    );
    // Vertex 34 lies on wood (6), brick (10) and brick (9).
    roll(&mut board, 6, 2);
    roll(&mut board, 10, 1);
    assert_eq!(hand(&board, FIRST), cards(0, 1, 0, 0, 2));
    assert_eq!(
        place_road(&mut board, FIRST, apart, TurnPhase::Normal),
        Err(GameError::NotConnected)
    );
    assert_eq!(
        place_road(&mut board, FIRST, others, TurnPhase::Normal),
        Err(GameError::NotConnected)
    );
    assert!(is_road_connectable(&board, FIRST, first));
    assert!(!is_road_connectable(&board, FIRST, second));
    assert!(is_road_connectable(&board, SECOND, others));
    assert!(!is_road_connectable(&board, SECOND, first));
    assert!(!is_road_connectable(&board, FIRST, 72));
    assert_eq!(place_road(&mut board, FIRST, first, TurnPhase::Normal), Ok(None));
    assert_eq!(hand(&board, FIRST), cards(0, 0, 0, 0, 1));
    assert_eq!(board.players()[0].road_quantity, 14);
    assert!(is_road_connectable(&board, FIRST, second));
    assert!(!is_road_connectable(&board, SECOND, second));
    assert_eq!(place_road(&mut board, FIRST, second, TurnPhase::FreeRoad), Ok(None));
    assert_eq!(hand(&board, FIRST), cards(0, 0, 0, 0, 1));
    assert_eq!(board.players()[0].road_quantity, 13);
    pieces_add_up(&board);
}

#[test]
fn sixteenth_road_finds_no_piece() {
    let mut board = table(1);
    found(&mut board, FIRST, 0);
    // Round the coast from vertex 0 to vertex 15.
    for v in 0..15 {
        let edge = edge_between(&board, v, v + 1);
        assert!(place_road(&mut board, FIRST, edge, TurnPhase::FreeRoad).is_ok());
    }
    assert_eq!(board.players()[0].road_quantity, 0);
    let edge = edge_between(&board, 15, 16);
    assert_eq!(
        place_road(&mut board, FIRST, edge, TurnPhase::FreeRoad),
        Err(GameError::InsufficientPieces)
    );
    assert_eq!(board.edges()[edge].owner, None);
    assert_eq!(calculate_player_longest_road(&board, FIRST), 15);
    pieces_add_up(&board);
}

#[test]
fn tiles_pay_on_their_number_one_for_a_settlement() {
    let mut board = table(3);
    found(&mut board, FIRST, 33);
    found(&mut board, SECOND, 35);
    found(&mut board, THIRD, 5);
    // 6: tile 2 (wood) at 33 and 5, tile 15 (wheat) at nobody.
    give_materials_on_roll(&mut board, 6);
    assert_eq!(hand(&board, FIRST), cards(0, 0, 0, 0, 1));
    assert_eq!(hand(&board, SECOND), cards(0, 0, 0, 0, 0));
    assert_eq!(hand(&board, THIRD), cards(0, 0, 0, 0, 1));
    // 9: tile 4 (wheat) at 35, tile 14 (brick) at 33 and 35.
    give_materials_on_roll(&mut board, 9);
    assert_eq!(hand(&board, FIRST), cards(0, 1, 0, 0, 1));
    assert_eq!(hand(&board, SECOND), cards(1, 1, 0, 0, 0));
    assert_eq!(hand(&board, THIRD), cards(0, 0, 0, 0, 1));
    give_materials_on_roll(&mut board, 7);
    give_materials_on_roll(&mut board, 2);
    give_materials_on_roll(&mut board, 0);
    assert_eq!(hand(&board, FIRST), cards(0, 1, 0, 0, 1));
    assert_eq!(hand(&board, SECOND), cards(1, 1, 0, 0, 0));
    assert_eq!(hand(&board, THIRD), cards(0, 0, 0, 0, 1));
}

#[test]
fn tile_under_the_robber_pays_nothing() {
    let mut board = table(2);
    found(&mut board, FIRST, 33);
    found(&mut board, SECOND, 5);
    assert_eq!(move_robber_and_take(&mut board, FIRST, 2, SECOND, None), Ok(()));
    give_materials_on_roll(&mut board, 6);
    assert_eq!(hand(&board, FIRST), cards(0, 0, 0, 0, 0));
    assert_eq!(hand(&board, SECOND), cards(0, 0, 0, 0, 0));
    give_materials_on_roll(&mut board, 12);
    assert_eq!(hand(&board, FIRST), cards(0, 0, 0, 1, 0));
    // The desert has lost the robber and still produces nothing.
    found(&mut board, FIRST, 51);
    give_materials_on_roll(&mut board, 0);
    assert_eq!(hand(&board, FIRST), cards(0, 0, 0, 1, 0));
}

#[test]
fn hand_holds_no_more_than_255_cards_of_a_material() {
    let mut board = table(1);
    found(&mut board, FIRST, 33);
    roll(&mut board, 6, 300);
    assert_eq!(hand(&board, FIRST), cards(0, 0, 0, 0, 255));
    let mut held = cards(0, 250, 0, 0, 3);
    held.credit(MaterialType::Brick, 10);
    held.credit(MaterialType::Wood, 10);
    held.credit(MaterialType::Dessert, 10);
    assert_eq!(held, cards(0, 255, 0, 0, 13));
    held.debit(MaterialType::Wood, 13);
    held.set(MaterialType::Sheep, 7);
    assert_eq!(held, cards(0, 255, 0, 7, 0));
    assert_eq!(held.get(MaterialType::Sheep), 7);
    assert_eq!(held.get(MaterialType::Dessert), 0);
    held.credit_each(&cards(1, 1, 1, 1, 1));
    assert_eq!(held, cards(1, 255, 1, 8, 1));
    assert_eq!(resource_total(&held), 266);
}

#[test]
fn second_founding_settlement_brings_one_card_of_each_material_around() {
    let mut board = table(2);
    // Vertex 30: stone, wheat, sheep. Vertex 34: wood, brick, brick.
    // Vertex 48: wheat, sheep, desert. Vertex 0: stone.
    assert_eq!(give_starting_resources(&mut board, FIRST, 30), Ok(()));
    assert_eq!(hand(&board, FIRST), cards(1, 0, 1, 1, 0));
    assert_eq!(give_starting_resources(&mut board, FIRST, 34), Ok(()));
    assert_eq!(hand(&board, FIRST), cards(1, 1, 1, 1, 1));
    assert_eq!(give_starting_resources(&mut board, SECOND, 48), Ok(()));
    assert_eq!(hand(&board, SECOND), cards(1, 0, 0, 1, 0));
    assert_eq!(give_starting_resources(&mut board, SECOND, 0), Ok(()));
    assert_eq!(hand(&board, SECOND), cards(1, 0, 1, 1, 0));
    assert_eq!(give_starting_resources(&mut board, SECOND, 54), Err(GameError::InvalidPosition));
    assert_eq!(give_starting_resources(&mut board, THIRD, 30), Err(GameError::PlayerNotFound));
    assert_eq!(hand(&board, FIRST), cards(1, 1, 1, 1, 1));
    assert_eq!(hand(&board, SECOND), cards(1, 0, 1, 1, 0));
}

#[test]
fn bank_takes_four_wood_for_one_brick_without_ports() {
    let mut board = table(1);
    found(&mut board, FIRST, 33);
    roll(&mut board, 6, 3);
    assert_eq!(hand(&board, FIRST), cards(0, 0, 0, 0, 3));
    assert!(!trade_with_bank(&mut board, FIRST, MaterialType::Wood, MaterialType::Brick));
    assert_eq!(
        check_trade(&board, FIRST, MaterialType::Wood, MaterialType::Brick),
        Err(GameError::InsufficientTradeStock)
    );
    assert_eq!(hand(&board, FIRST), cards(0, 0, 0, 0, 3));
    roll(&mut board, 6, 1);
    assert_eq!(check_trade(&board, FIRST, MaterialType::Wood, MaterialType::Brick), Ok(4));
    assert!(trade_with_bank(&mut board, FIRST, MaterialType::Wood, MaterialType::Brick));
    assert_eq!(hand(&board, FIRST), cards(0, 1, 0, 0, 0));
    roll(&mut board, 6, 9);
    assert!(trade_with_bank(&mut board, FIRST, MaterialType::Wood, MaterialType::Sheep));
    assert!(trade_with_bank(&mut board, FIRST, MaterialType::Wood, MaterialType::Brick));
    assert_eq!(hand(&board, FIRST), cards(0, 2, 0, 1, 1));
}

#[test]
fn bank_refuses_trades_that_make_no_sense() {
    let mut board = table(1);
    found(&mut board, FIRST, 33);
    roll(&mut board, 6, 8);
    let before = hand(&board, FIRST);
    assert!(!trade_with_bank(&mut board, FIRST, MaterialType::Wood, MaterialType::Wood));
    assert!(!trade_with_bank(&mut board, FIRST, MaterialType::Wood, MaterialType::Dessert));
    assert!(!trade_with_bank(&mut board, FIRST, MaterialType::Dessert, MaterialType::Wood));
    assert!(!trade_with_bank(&mut board, SECOND, MaterialType::Wood, MaterialType::Brick));
    assert_eq!(hand(&board, FIRST), before);
    assert_eq!(
        check_trade(&board, FIRST, MaterialType::Wood, MaterialType::Wood),
        Err(GameError::InvalidTrade)
    );
    assert_eq!(
        check_trade(&board, FIRST, MaterialType::Dessert, MaterialType::Wood),
        Err(GameError::InvalidTrade)
    );
    assert_eq!(
        check_trade(&board, FIRST, MaterialType::Sheep, MaterialType::Dessert),
        Err(GameError::InvalidTrade)
    );
    assert_eq!(
        check_trade(&board, SECOND, MaterialType::Wood, MaterialType::Brick),
        Err(GameError::PlayerNotFound)
    );
}

#[test]
fn ports_lower_the_rate_of_the_bank() {
    let mut board = table(1);
    // Vertex 7: general port, on brick (10). Vertex 5: stone port, on wood
    // (6). Vertex 22: no port, on stone (5).
    found(&mut board, FIRST, 7);
    roll(&mut board, 10, 5);
    assert_eq!(required_to_give(&board.players()[0], MaterialType::Brick), 3);
    assert_eq!(required_to_give(&board.players()[0], MaterialType::Stone), 3);
    assert!(trade_with_bank(&mut board, FIRST, MaterialType::Brick, MaterialType::Wheat));
    assert_eq!(hand(&board, FIRST), cards(1, 2, 0, 0, 0));
    assert!(!trade_with_bank(&mut board, FIRST, MaterialType::Brick, MaterialType::Wheat));
    found(&mut board, FIRST, 5);
    found(&mut board, FIRST, 22);
    roll(&mut board, 5, 3);
    assert_eq!(required_to_give(&board.players()[0], MaterialType::Stone), 2);
    assert_eq!(required_to_give(&board.players()[0], MaterialType::Brick), 3);
    assert_eq!(required_to_give(&board.players()[0], MaterialType::Dessert), 3);
    assert!(trade_with_bank(&mut board, FIRST, MaterialType::Stone, MaterialType::Sheep));
    assert_eq!(hand(&board, FIRST), cards(1, 2, 1, 1, 0));
    assert!(!trade_with_bank(&mut board, FIRST, MaterialType::Stone, MaterialType::Sheep));
    let mut nobody = Player::new(SECOND);
    assert_eq!(required_to_give(&nobody, MaterialType::Stone), 4);
    nobody.power_ups.push(PowerUp::Wood2);
    assert_eq!(required_to_give(&nobody, MaterialType::Wood), 2);
    assert_eq!(required_to_give(&nobody, MaterialType::Sheep), 4);
}

#[test]
fn prices_are_checked_and_paid_in_full() {
    let mut player = Player::new(FIRST);
    player.resources = cards(2, 1, 3, 1, 0);
    assert!(has_resources(&player, &cards(2, 0, 3, 0, 0)));
    assert!(has_resources(&player, &cards(1, 0, 1, 1, 0)));
    assert!(!has_resources(&player, &cards(1, 1, 0, 1, 1)));
    assert!(!has_resources(&player, &cards(0, 2, 0, 0, 0)));
    spend_resources(&mut player, &cards(2, 0, 3, 0, 0));
    assert_eq!(player.resources, cards(0, 1, 0, 1, 0));
    assert_eq!(catan_engine::economy::settlement_price(), cards(1, 1, 0, 1, 1));
    assert_eq!(catan_engine::economy::road_price(), cards(0, 1, 0, 0, 1));
    assert_eq!(catan_engine::economy::city_price(), cards(2, 0, 3, 0, 0));
    assert_eq!(catan_engine::economy::development_card_price(), cards(1, 0, 1, 1, 0));
}

#[test]
fn development_card_cannot_be_bought_without_sheep() {
    let mut board = table(1);
    // Vertex 47 lies on stone (5), stone (4) and wheat (11): no sheep.
    found(&mut board, FIRST, 47);
    roll(&mut board, 5, 2);
    roll(&mut board, 11, 2);
    assert_eq!(hand(&board, FIRST).sheep, 0);
    assert_eq!(buy_development_card(&mut board, FIRST), Err(GameError::InsufficientResources));
    assert_eq!(board.development_cards().len(), 27);
    assert_eq!(hand(&board, FIRST), cards(2, 0, 2, 0, 0));
    assert!(board.players()[0].dev_cards.is_empty());
    assert_eq!(buy_development_card(&mut board, SECOND), Err(GameError::PlayerNotFound));
}

#[test]
fn development_card_is_drawn_from_the_end_of_the_pile() {
    let mut board = table_with_cards_on_top(
        1,
        &[DevelopmentCard::Monopoly, DevelopmentCard::Knight, DevelopmentCard::VictoryPoint],
    );
    found(&mut board, FIRST, 30);
    roll(&mut board, 5, 3);
    roll(&mut board, 11, 3);
    roll(&mut board, 12, 3);
    assert_eq!(buy_development_card(&mut board, FIRST), Ok((DevelopmentCard::Monopoly, None)));
    assert_eq!(hand(&board, FIRST), cards(2, 0, 2, 2, 0));
    assert_eq!(points(&board, FIRST), 1);
    assert_eq!(buy_development_card(&mut board, FIRST), Ok((DevelopmentCard::Knight, None)));
    assert_eq!(buy_development_card(&mut board, FIRST), Ok((DevelopmentCard::VictoryPoint, None)));
    assert_eq!(points(&board, FIRST), 2);
    assert_eq!(hand(&board, FIRST), cards(0, 0, 0, 0, 0));
    assert_eq!(board.development_cards().len(), 24);
    assert_eq!(
        board.players()[0].dev_cards,
        vec![DevelopmentCard::Monopoly, DevelopmentCard::Knight, DevelopmentCard::VictoryPoint]
    );
    assert_eq!(
        card_counts(&board.players()[0].dev_cards),
        vec![
            (DevelopmentCard::Knight, 1),
            (DevelopmentCard::Monopoly, 1),
            (DevelopmentCard::VictoryPoint, 1)
        ]
    );
}

#[test]
fn empty_pile_sells_no_card() {
    let mut board = table(1);
    found(&mut board, FIRST, 30);
    roll(&mut board, 5, 28);
    roll(&mut board, 11, 28);
    roll(&mut board, 12, 28);
    for _ in 0..27 {
        assert!(buy_development_card(&mut board, FIRST).is_ok());
    }
    assert!(board.development_cards().is_empty());
    assert_eq!(buy_development_card(&mut board, FIRST), Err(GameError::DeckEmpty));
    assert_eq!(hand(&board, FIRST), cards(1, 0, 1, 1, 0));
    assert_eq!(board.players()[0].dev_cards.len(), 27);
    assert_eq!(points(&board, FIRST), 8);
}

#[test]
fn tenth_point_from_a_card_wins_at_once() {
    let mut board = table(2);
    found(&mut board, SECOND, 30);
    found(&mut board, SECOND, 33);
    found(&mut board, SECOND, 36);
    roll(&mut board, 5, 7);
    roll(&mut board, 11, 7);
    roll(&mut board, 12, 7);
    // The unshuffled pile ends in the seven victory point cards.
    for bought in 1..=6 {
        assert_eq!(
            buy_development_card(&mut board, SECOND),
            Ok((DevelopmentCard::VictoryPoint, None))
        );
        assert_eq!(points(&board, SECOND), 3 + bought);
        assert_eq!(check_for_winner(&board), None);
    }
    assert_eq!(
        buy_development_card(&mut board, SECOND),
        Ok((DevelopmentCard::VictoryPoint, Some(SECOND)))
    );
    assert_eq!(points(&board, SECOND), 10);
    assert_eq!(check_for_winner(&board), Some(SECOND));
}

#[test]
fn robber_moves_and_takes_a_card_that_the_victim_holds() {
    let mut board = table(3);
    found(&mut board, FIRST, 30);
    found(&mut board, SECOND, 35);
    // Tile 4 (wheat, 9) and tile 14 (brick, 9) at vertex 35.
    roll(&mut board, 9, 2);
    assert_eq!(hand(&board, SECOND), cards(2, 2, 0, 0, 0));
    assert_eq!(robber_tiles(&board), vec![18]);
    let loot = place_robber(&mut board, FIRST, 3, SECOND).expect("the move is allowed");
    let loot = loot.expect("the victim holds cards");
    assert!(loot == MaterialType::Wheat || loot == MaterialType::Brick);
    assert_eq!(robber_tiles(&board), vec![3]);
    assert_eq!(find_robber(&board), 3);
    assert_eq!(hand(&board, SECOND).get(loot), 1);
    assert_eq!(hand(&board, FIRST).get(loot), 1);
    assert_eq!(resource_total(&hand(&board, SECOND)), 3);
    assert_eq!(resource_total(&hand(&board, FIRST)), 1);
    assert_eq!(hand(&board, THIRD), cards(0, 0, 0, 0, 0));
}

#[test]
fn robber_takes_the_only_material_there_is() {
    let mut board = table(2);
    found(&mut board, FIRST, 30);
    found(&mut board, SECOND, 5);
    roll(&mut board, 6, 3);
    assert_eq!(place_robber(&mut board, FIRST, 2, SECOND), Ok(Some(MaterialType::Wood)));
    assert_eq!(hand(&board, FIRST), cards(0, 0, 0, 0, 1));
    assert_eq!(hand(&board, SECOND), cards(0, 0, 0, 0, 2));
    assert_eq!(robber_tiles(&board), vec![2]);
}

#[test]
fn robber_moves_though_the_victim_has_nothing() {
    let mut board = table(2);
    found(&mut board, FIRST, 30);
    found(&mut board, SECOND, 35);
    assert_eq!(place_robber(&mut board, FIRST, 4, SECOND), Ok(None));
    assert_eq!(robber_tiles(&board), vec![4]);
    assert_eq!(hand(&board, FIRST), cards(0, 0, 0, 0, 0));
    assert_eq!(hand(&board, SECOND), cards(0, 0, 0, 0, 0));
    assert_eq!(place_robber(&mut board, SECOND, 0, FIRST), Ok(None));
    assert_eq!(robber_tiles(&board), vec![0]);
}

#[test]
fn robber_move_is_rejected_for_a_wrong_target() {
    let mut board = table(2);
    found(&mut board, FIRST, 30);
    found(&mut board, SECOND, 53);
    roll(&mut board, 11, 1);
    assert_eq!(place_robber(&mut board, FIRST, 19, SECOND), Err(GameError::InvalidPosition));
    assert_eq!(place_robber(&mut board, FIRST, 18, SECOND), Err(GameError::InvalidTarget));
    assert_eq!(place_robber(&mut board, FIRST, 3, SECOND), Err(GameError::InvalidTarget));
    assert_eq!(place_robber(&mut board, FIRST, 0, FIRST), Err(GameError::InvalidTarget));
    assert_eq!(place_robber(&mut board, FIRST, 12, FIRST), Err(GameError::InvalidTarget));
    assert_eq!(place_robber(&mut board, THIRD, 12, FIRST), Err(GameError::PlayerNotFound));
    assert_eq!(place_robber(&mut board, FIRST, 12, THIRD), Err(GameError::InvalidTarget));
    assert_eq!(robber_tiles(&board), vec![18]);
    assert_eq!(hand(&board, FIRST), cards(1, 0, 0, 0, 0));
    assert_eq!(hand(&board, SECOND), cards(1, 0, 0, 0, 0));
}

#[test]
fn robber_takes_the_card_it_is_told_to_take() {
    let mut board = table(2);
    found(&mut board, FIRST, 30);
    found(&mut board, SECOND, 35);
    roll(&mut board, 9, 1);
    assert_eq!(
        move_robber_and_take(&mut board, FIRST, 3, SECOND, Some(MaterialType::Brick)),
        Ok(())
    );
    assert_eq!(hand(&board, FIRST), cards(0, 1, 0, 0, 0));
    assert_eq!(hand(&board, SECOND), cards(1, 0, 0, 0, 0));
    // The victim holds no sheep: the robber moves and takes nothing.
    assert_eq!(
        move_robber_and_take(&mut board, FIRST, 4, SECOND, Some(MaterialType::Sheep)),
        Ok(())
    );
    assert_eq!(hand(&board, FIRST), cards(0, 1, 0, 0, 0));
    assert_eq!(hand(&board, SECOND), cards(1, 0, 0, 0, 0));
    assert_eq!(robber_tiles(&board), vec![4]);
    assert_eq!(
        move_robber_and_take(&mut board, FIRST, 4, SECOND, Some(MaterialType::Wheat)),
        Err(GameError::InvalidTarget)
    );
    assert_eq!(hand(&board, SECOND), cards(1, 0, 0, 0, 0));
}

#[test]
fn players_around_a_tile_are_listed_once() {
    let mut board = table(3);
    found(&mut board, SECOND, 48);
    found(&mut board, FIRST, 50);
    found(&mut board, SECOND, 52);
    assert_eq!(get_players_adjacent_to_tile(&board, 18), vec![SECOND, FIRST]);
    assert_eq!(get_players_adjacent_to_tile(&board, 12), vec![SECOND]);
    assert_eq!(get_players_adjacent_to_tile(&board, 0), Vec::<PlayerType>::new());
    assert_eq!(robbable_players(&board, 18, SECOND), vec![FIRST]);
    assert_eq!(robbable_players(&board, 18, THIRD), vec![SECOND, FIRST]);
    assert_eq!(robbable_players(&board, 12, SECOND), Vec::<PlayerType>::new());
    let mut holder = Player::new(FIRST);
    holder.resources = cards(0, 2, 0, 1, 0);
    assert_eq!(robbable_resources(&holder), vec![MaterialType::Brick, MaterialType::Sheep]);
    assert_eq!(
        held_materials(&cards(3, 0, 1, 0, 2)),
        vec![(MaterialType::Wood, 2), (MaterialType::Wheat, 3), (MaterialType::Stone, 1)]
    );
}

#[test]
fn straight_road_of_five_takes_the_longest_road_once() {
    let mut board = table(2);
    found(&mut board, FIRST, 34);
    let chain = [34, 35, 36, 37, 38, 39, 40];
    let first = edge_between(&board, 34, 35);
    assert_eq!(
        place_road(&mut board, FIRST, first, TurnPhase::Setup { anchor_vertex: 34 }),
        Ok(None)
    );
    roll(&mut board, 6, 5);
    roll(&mut board, 10, 5);
    for i in 1..4 {
        let edge = edge_between(&board, chain[i], chain[i + 1]);
        assert_eq!(place_road(&mut board, FIRST, edge, TurnPhase::Normal), Ok(None));
        assert_eq!(calculate_player_longest_road(&board, FIRST), (i + 1) as u8);
        assert_eq!(board.longest_road(), None);
        assert_eq!(board.longest_road_size(), 4);
        assert_eq!(points(&board, FIRST), 1);
    }
    let fifth = edge_between(&board, 38, 39);
    assert_eq!(place_road(&mut board, FIRST, fifth, TurnPhase::Normal), Ok(None));
    assert_eq!(calculate_player_longest_road(&board, FIRST), 5);
    assert_eq!(board.longest_road(), Some(FIRST));
    assert_eq!(board.longest_road_size(), 5);
    assert_eq!(points(&board, FIRST), 3);
    assert_eq!(update_longest_road(&mut board, FIRST), None);
    assert_eq!(points(&board, FIRST), 3);
    let sixth = edge_between(&board, 39, 40);
    assert_eq!(place_road(&mut board, FIRST, sixth, TurnPhase::Normal), Ok(None));
    assert_eq!(calculate_player_longest_road(&board, FIRST), 6);
    assert_eq!(board.longest_road(), Some(FIRST));
    assert_eq!(board.longest_road_size(), 6);
    assert_eq!(points(&board, FIRST), 3);
    assert_eq!(points(&board, SECOND), 0);
    assert_eq!(hand(&board, FIRST), cards(0, 0, 0, 0, 0));
    pieces_add_up(&board);
}

#[test]
fn longer_road_takes_the_bonus_and_a_tie_does_not() {
    let mut board = table(2);
    found(&mut board, FIRST, 0);
    found(&mut board, SECOND, 20);
    for v in 0..5 {
        let edge = edge_between(&board, v, v + 1);
        assert_eq!(place_road(&mut board, FIRST, edge, TurnPhase::FreeRoad), Ok(None));
    }
    assert_eq!(board.longest_road(), Some(FIRST));
    assert_eq!((points(&board, FIRST), points(&board, SECOND)), (3, 1));
    for v in 20..25 {
        let edge = edge_between(&board, v, v + 1);
        assert_eq!(place_road(&mut board, SECOND, edge, TurnPhase::FreeRoad), Ok(None));
    }
    assert_eq!(calculate_player_longest_road(&board, SECOND), 5);
    assert_eq!(board.longest_road(), Some(FIRST));
    assert_eq!((points(&board, FIRST), points(&board, SECOND)), (3, 1));
    let edge = edge_between(&board, 25, 26);
    assert_eq!(place_road(&mut board, SECOND, edge, TurnPhase::FreeRoad), Ok(None));
    assert_eq!(board.longest_road(), Some(SECOND));
    assert_eq!(board.longest_road_size(), 6);
    assert_eq!((points(&board, FIRST), points(&board, SECOND)), (1, 3));
}

#[test]
fn longest_road_counts_branches_and_loops_once_and_stops_at_a_rival() {
    let mut board = table(2);
    found(&mut board, FIRST, 48);
    // Round the centre tile: 48, 49, 50, 51, 52, 53 and back to 48.
    let ring = [48, 49, 50, 51, 52, 53, 48];
    for i in 0..6 {
        let edge = edge_between(&board, ring[i], ring[i + 1]);
        assert!(place_road(&mut board, FIRST, edge, TurnPhase::FreeRoad).is_ok());
    }
    assert_eq!(calculate_player_longest_road(&board, FIRST), 6);
    // A spur from 48 to 30 makes a road of 7: the spur and once round.
    let spur = edge_between(&board, 48, 30);
    assert!(place_road(&mut board, FIRST, spur, TurnPhase::FreeRoad).is_ok());
    assert_eq!(calculate_player_longest_road(&board, FIRST), 7);
    assert_eq!(calculate_player_longest_road(&board, SECOND), 0);
    // A rival on the ring cuts it: 51 can be reached but not passed, so the
    // longest road left runs from 50 round to 51, or from 52 round to 51.
    found(&mut board, SECOND, 51);
    assert_eq!(calculate_player_longest_road(&board, FIRST), 5);
    assert_eq!(board.longest_road(), Some(FIRST));
    assert_eq!(board.longest_road_size(), 7);
}

#[test]
fn three_knights_take_the_largest_army_and_four_take_it_over() {
    let knights = [DevelopmentCard::Knight; 7];
    let mut board = table_with_cards_on_top(2, &knights);
    // FIRST at 30: stone (5), wheat (11), sheep (12).
    // SECOND at 45: wheat (11); at 12: sheep (4); at 22: stone (5).
    found(&mut board, FIRST, 30);
    found(&mut board, SECOND, 45);
    found(&mut board, SECOND, 12);
    found(&mut board, SECOND, 22);
    roll(&mut board, 5, 8);
    roll(&mut board, 11, 8);
    roll(&mut board, 12, 8);
    roll(&mut board, 4, 8);
    for _ in 0..3 {
        assert_eq!(buy_development_card(&mut board, FIRST), Ok((DevelopmentCard::Knight, None)));
    }
    for _ in 0..4 {
        assert_eq!(buy_development_card(&mut board, SECOND), Ok((DevelopmentCard::Knight, None)));
    }
    assert_eq!((points(&board, FIRST), points(&board, SECOND)), (1, 3));

    let targets = [5, 9, 5];
    for (played, tile) in targets.iter().enumerate() {
        assert_eq!(begin_turn(&mut board, FIRST), Ok(()));
        assert_eq!(play_knight_card(&mut board, FIRST, *tile, SECOND), Ok(None));
        assert_eq!(board.players()[0].knights_played as usize, played + 1);
        assert_eq!(find_robber(&board), *tile);
    }
    assert_eq!(board.largest_army(), Some(FIRST));
    assert_eq!(board.largest_army_size(), 3);
    assert_eq!((points(&board, FIRST), points(&board, SECOND)), (3, 3));

    let targets = [0, 13, 0];
    for tile in targets {
        assert_eq!(begin_turn(&mut board, SECOND), Ok(()));
        assert_eq!(play_knight_card(&mut board, SECOND, tile, FIRST), Ok(None));
    }
    assert_eq!(board.players()[1].knights_played, 3);
    assert_eq!(board.largest_army(), Some(FIRST));
    assert_eq!(board.largest_army_size(), 3);
    assert_eq!((points(&board, FIRST), points(&board, SECOND)), (3, 3));

    assert_eq!(begin_turn(&mut board, SECOND), Ok(()));
    assert_eq!(play_knight_card(&mut board, SECOND, 13, FIRST), Ok(None));
    assert_eq!(board.players()[1].knights_played, 4);
    assert_eq!(board.largest_army(), Some(SECOND));
    assert_eq!(board.largest_army_size(), 4);
    assert_eq!((points(&board, FIRST), points(&board, SECOND)), (1, 5));
    assert_eq!(update_largest_army(&mut board, SECOND), None);
    assert_eq!(update_largest_army(&mut board, FIRST), None);
    assert_eq!(update_largest_army(&mut board, THIRD), None);
    assert_eq!((points(&board, FIRST), points(&board, SECOND)), (1, 5));
    assert!(board.players()[0].dev_cards.is_empty());
    assert!(board.players()[1].dev_cards.is_empty());
}

#[test]
fn one_development_card_may_be_played_in_a_turn() {
    let top = [DevelopmentCard::Knight, DevelopmentCard::Knight];
    let mut board = table_with_cards_on_top(2, &top);
    found(&mut board, FIRST, 30);
    found(&mut board, SECOND, 35);
    roll(&mut board, 5, 2);
    roll(&mut board, 11, 2);
    roll(&mut board, 12, 2);
    assert_eq!(play_knight_card(&mut board, FIRST, 4, SECOND), Err(GameError::CardNotHeld));
    assert_eq!(play_knight_card(&mut board, THIRD, 4, SECOND), Err(GameError::PlayerNotFound));
    assert!(buy_development_card(&mut board, FIRST).is_ok());
    assert!(buy_development_card(&mut board, FIRST).is_ok());
    assert_eq!(play_knight_card(&mut board, FIRST, 18, SECOND), Err(GameError::InvalidTarget));
    assert_eq!(play_knight_card(&mut board, FIRST, 0, SECOND), Err(GameError::InvalidTarget));
    assert_eq!(play_knight_card(&mut board, FIRST, 19, SECOND), Err(GameError::InvalidPosition));
    assert_eq!(board.players()[0].dev_cards.len(), 2);
    assert_eq!(board.players()[0].knights_played, 0);
    assert!(!board.players()[0].played_dev_card_this_turn);
    assert_eq!(play_knight_card_taking(&mut board, FIRST, 4, SECOND, None), Ok(None));
    assert!(board.players()[0].played_dev_card_this_turn);
    assert_eq!(board.players()[0].dev_cards.len(), 1);
    assert_eq!(board.players()[0].knights_played, 1);
    assert_eq!(find_robber(&board), 4);
    assert_eq!(
        play_knight_card(&mut board, FIRST, 3, SECOND),
        Err(GameError::AlreadyPlayedDevelopmentCard)
    );
    assert_eq!(find_robber(&board), 4);
    assert_eq!(board.players()[0].dev_cards.len(), 1);
    assert_eq!(begin_turn(&mut board, THIRD), Err(GameError::PlayerNotFound));
    assert_eq!(begin_turn(&mut board, FIRST), Ok(()));
    assert!(!board.players()[0].played_dev_card_this_turn);
    assert_eq!(play_knight_card(&mut board, FIRST, 3, SECOND), Ok(None));
    assert_eq!(board.players()[0].knights_played, 2);
    assert_eq!(board.largest_army(), None);
}

#[test]
fn monopoly_takes_all_the_wheat_of_the_others() {
    let mut board = table_with_cards_on_top(4, &[DevelopmentCard::Monopoly]);
    // FIRST at 30: stone (5), wheat (11), sheep (12). SECOND at 17: wheat (8).
    // THIRD at 22: stone (5). FOURTH at 10: wheat (9).
    found(&mut board, FIRST, 30);
    roll(&mut board, 5, 1);
    roll(&mut board, 11, 1);
    roll(&mut board, 12, 1);
    assert_eq!(buy_development_card(&mut board, FIRST), Ok((DevelopmentCard::Monopoly, None)));
    found(&mut board, SECOND, 17);
    found(&mut board, THIRD, 22);
    found(&mut board, FOURTH, 10);
    roll(&mut board, 8, 2);
    roll(&mut board, 9, 5);
    roll(&mut board, 5, 1);
    assert_eq!(hand(&board, FIRST), cards(0, 0, 1, 0, 0));
    assert_eq!(hand(&board, SECOND), cards(2, 0, 0, 0, 0));
    assert_eq!(hand(&board, THIRD), cards(0, 0, 1, 0, 0));
    assert_eq!(hand(&board, FOURTH), cards(5, 0, 0, 0, 0));
    assert_eq!(play_monopoly_card(&mut board, FIRST, MaterialType::Wheat), Ok(()));
    assert_eq!(hand(&board, FIRST), cards(7, 0, 1, 0, 0));
    assert_eq!(hand(&board, SECOND), cards(0, 0, 0, 0, 0));
    assert_eq!(hand(&board, THIRD), cards(0, 0, 1, 0, 0));
    assert_eq!(hand(&board, FOURTH), cards(0, 0, 0, 0, 0));
    assert!(board.players()[0].dev_cards.is_empty());
    assert!(board.players()[0].played_dev_card_this_turn);
    assert_eq!(
        play_monopoly_card(&mut board, FIRST, MaterialType::Stone),
        Err(GameError::AlreadyPlayedDevelopmentCard)
    );
    assert_eq!(
        play_monopoly_card(&mut board, SECOND, MaterialType::Stone),
        Err(GameError::CardNotHeld)
    );
    assert_eq!(hand(&board, THIRD), cards(0, 0, 1, 0, 0));
}

#[test]
fn monopoly_on_the_desert_is_no_play() {
    let mut board = table_with_cards_on_top(2, &[DevelopmentCard::Monopoly]);
    found(&mut board, FIRST, 30);
    roll(&mut board, 5, 1);
    roll(&mut board, 11, 1);
    roll(&mut board, 12, 1);
    assert!(buy_development_card(&mut board, FIRST).is_ok());
    assert_eq!(
        play_monopoly_card(&mut board, FIRST, MaterialType::Dessert),
        Err(GameError::InvalidTrade)
    );
    assert_eq!(board.players()[0].dev_cards, vec![DevelopmentCard::Monopoly]);
    assert!(!board.players()[0].played_dev_card_this_turn);
}

#[test]
fn year_of_plenty_brings_two_cards() {
    let top = [DevelopmentCard::YearOfPlenty, DevelopmentCard::YearOfPlenty];
    let mut board = table_with_cards_on_top(1, &top);
    found(&mut board, FIRST, 30);
    assert_eq!(
        play_year_of_plenty_card(&mut board, FIRST, MaterialType::Wood, MaterialType::Brick),
        Err(GameError::CardNotHeld)
    );
    roll(&mut board, 5, 2);
    roll(&mut board, 11, 2);
    roll(&mut board, 12, 2);
    assert!(buy_development_card(&mut board, FIRST).is_ok());
    assert!(buy_development_card(&mut board, FIRST).is_ok());
    assert_eq!(
        play_year_of_plenty_card(&mut board, FIRST, MaterialType::Wood, MaterialType::Dessert),
        Err(GameError::InvalidTrade)
    );
    assert_eq!(board.players()[0].dev_cards.len(), 2);
    assert_eq!(
        play_year_of_plenty_card(&mut board, FIRST, MaterialType::Wood, MaterialType::Brick),
        Ok(())
    );
    assert_eq!(hand(&board, FIRST), cards(0, 1, 0, 0, 1));
    assert_eq!(board.players()[0].dev_cards, vec![DevelopmentCard::YearOfPlenty]);
    assert_eq!(
        play_year_of_plenty_card(&mut board, FIRST, MaterialType::Wood, MaterialType::Wood),
        Err(GameError::AlreadyPlayedDevelopmentCard)
    );
    assert_eq!(begin_turn(&mut board, FIRST), Ok(()));
    assert_eq!(
        play_year_of_plenty_card(&mut board, FIRST, MaterialType::Wood, MaterialType::Wood),
        Ok(())
    );
    assert_eq!(hand(&board, FIRST), cards(0, 1, 0, 0, 3));
    assert!(board.players()[0].dev_cards.is_empty());
    assert_eq!(
        play_year_of_plenty_card(&mut board, SECOND, MaterialType::Wood, MaterialType::Wood),
        Err(GameError::PlayerNotFound)
    );
}

#[test]
fn road_building_places_two_free_roads_or_none() {
    let top = [DevelopmentCard::RoadBuilding, DevelopmentCard::RoadBuilding];
    let mut board = table_with_cards_on_top(1, &top);
    found(&mut board, FIRST, 30);
    roll(&mut board, 5, 2);
    roll(&mut board, 11, 2);
    roll(&mut board, 12, 2);
    let first = edge_between(&board, 30, 31);
    let second = edge_between(&board, 31, 32);
    let apart = edge_between(&board, 40, 41);
    assert_eq!(
        play_road_building_card(&mut board, FIRST, first, second),
        Err(GameError::CardNotHeld)
    );
    assert!(buy_development_card(&mut board, FIRST).is_ok());
    assert!(buy_development_card(&mut board, FIRST).is_ok());
    assert_eq!(
        play_road_building_card(&mut board, FIRST, first, apart),
        Err(GameError::NotConnected)
    );
    assert_eq!(board.edges()[first].owner, None);
    assert_eq!(board.players()[0].road_quantity, 15);
    assert_eq!(board.players()[0].dev_cards.len(), 2);
    assert!(!board.players()[0].played_dev_card_this_turn);
    assert_eq!(
        play_road_building_card(&mut board, FIRST, apart, first),
        Err(GameError::NotConnected)
    );
    assert_eq!(
        play_road_building_card(&mut board, FIRST, first, first),
        Err(GameError::OccupiedPosition)
    );
    assert_eq!(board.edges()[first].owner, None);
    assert_eq!(play_road_building_card(&mut board, FIRST, first, second), Ok(None));
    assert_eq!(board.edges()[first].owner, Some(FIRST));
    assert_eq!(board.edges()[second].owner, Some(FIRST));
    assert_eq!(board.players()[0].road_quantity, 13);
    assert_eq!(board.players()[0].dev_cards, vec![DevelopmentCard::RoadBuilding]);
    assert_eq!(hand(&board, FIRST), cards(0, 0, 0, 0, 0));
    let third = edge_between(&board, 32, 33);
    let fourth = edge_between(&board, 33, 34);
    assert_eq!(
        play_road_building_card(&mut board, FIRST, third, fourth),
        Err(GameError::AlreadyPlayedDevelopmentCard)
    );
    assert_eq!(begin_turn(&mut board, FIRST), Ok(()));
    assert_eq!(play_road_building_card(&mut board, FIRST, third, fourth), Ok(None));
    assert_eq!(board.players()[0].road_quantity, 11);
    assert_eq!(calculate_player_longest_road(&board, FIRST), 4);
    pieces_add_up(&board);
}

#[test]
fn road_building_that_fails_gives_the_longest_road_back() {
    let mut board = table_with_cards_on_top(2, &[DevelopmentCard::RoadBuilding]);
    found(&mut board, FIRST, 0);
    found(&mut board, SECOND, 20);
    found(&mut board, SECOND, 30);
    for v in 0..4 {
        let edge = edge_between(&board, v, v + 1);
        assert!(place_road(&mut board, FIRST, edge, TurnPhase::FreeRoad).is_ok());
    }
    for v in 20..25 {
        let edge = edge_between(&board, v, v + 1);
        assert!(place_road(&mut board, SECOND, edge, TurnPhase::FreeRoad).is_ok());
    }
    assert_eq!(board.longest_road(), Some(SECOND));
    // Stone (4) and wheat (11) at 46, sheep (4) at 12, for FIRST to buy the card.
    found(&mut board, FIRST, 46);
    found(&mut board, FIRST, 12);
    roll(&mut board, 11, 1);
    roll(&mut board, 4, 1);
    assert!(buy_development_card(&mut board, FIRST).is_ok());
    let before_points = (points(&board, FIRST), points(&board, SECOND));
    assert_eq!(before_points, (3, 4));
    let fifth = edge_between(&board, 4, 5);
    let sixth = edge_between(&board, 5, 6);
    let apart = edge_between(&board, 40, 41);
    // The fifth road would tie; the sixth would take the bonus. With a second
    // road that cannot be placed, nothing happens at all.
    let free = board.players()[0].road_quantity;
    assert_eq!(
        play_road_building_card(&mut board, FIRST, fifth, apart),
        Err(GameError::NotConnected)
    );
    assert_eq!(board.edges()[fifth].owner, None);
    assert_eq!(board.players()[0].road_quantity, free);
    assert_eq!(board.longest_road(), Some(SECOND));
    assert_eq!(board.longest_road_size(), 5);
    assert_eq!((points(&board, FIRST), points(&board, SECOND)), before_points);
    assert_eq!(play_road_building_card(&mut board, FIRST, fifth, sixth), Ok(None));
    assert_eq!(board.longest_road(), Some(FIRST));
    assert_eq!(board.longest_road_size(), 6);
    assert_eq!((points(&board, FIRST), points(&board, SECOND)), (5, 2));
    pieces_add_up(&board);
}

#[test]
fn first_card_of_a_kind_leaves_the_hand() {
    let mut player = Player::new(FIRST);
    player.dev_cards = vec![
        DevelopmentCard::VictoryPoint,
        DevelopmentCard::Knight,
        DevelopmentCard::Monopoly,
        DevelopmentCard::Knight,
    ];
    assert!(consume_card(&mut player, DevelopmentCard::Knight));
    assert_eq!(
        player.dev_cards,
        vec![DevelopmentCard::VictoryPoint, DevelopmentCard::Monopoly, DevelopmentCard::Knight]
    );
    assert!(!consume_card(&mut player, DevelopmentCard::YearOfPlenty));
    assert_eq!(player.dev_cards.len(), 3);
    assert!(consume_card(&mut player, DevelopmentCard::Knight));
    assert!(!consume_card(&mut player, DevelopmentCard::Knight));
    assert_eq!(player.dev_cards, vec![DevelopmentCard::VictoryPoint, DevelopmentCard::Monopoly]);
}

#[test]
fn first_player_in_seat_order_with_ten_points_wins() {
    let mut board = table(2);
    assert_eq!(check_for_winner(&board), None);
    // Five settlements and four cities are 9 points.
    for vertex in [30, 46, 29, 1, 36] {
        found(&mut board, SECOND, vertex);
    }
    roll(&mut board, 5, 20);
    roll(&mut board, 11, 20);
    for vertex in [30, 46, 29] {
        assert_eq!(place_city(&mut board, SECOND, vertex), Ok(None));
    }
    assert_eq!(points(&board, SECOND), 8);
    assert_eq!(place_city(&mut board, SECOND, 1), Ok(None));
    assert_eq!(points(&board, SECOND), 9);
    assert_eq!(check_for_winner(&board), None);
    // The settlement that came back makes the tenth.
    assert_eq!(place_house(&mut board, SECOND, 4, true), Ok(Some(SECOND)));
    assert_eq!(points(&board, SECOND), 10);
    assert_eq!(check_for_winner(&board), Some(SECOND));
}

#[test]
fn roads_on_offer_follow_the_phase() {
    let mut board = table(2);
    found(&mut board, FIRST, 34);
    let anchor = TurnPhase::Setup { anchor_vertex: 34 };
    let around: Vec<usize> = vec![
        edge_between(&board, 6, 34),
        edge_between(&board, 33, 34),
        edge_between(&board, 34, 35),
    ];
    assert_eq!(buildable_roads(&board, FIRST, anchor), around);
    assert_eq!(buildable_roads(&board, FIRST, TurnPhase::Normal), around);
    assert_eq!(buildable_roads(&board, SECOND, TurnPhase::FreeRoad), Vec::<usize>::new());
    assert_eq!(buildable_roads(&board, SECOND, anchor), around);
    assert!(place_road(&mut board, FIRST, around[2], anchor).is_ok());
    let mut wider = vec![
        around[0],
        around[1],
        edge_between(&board, 9, 35),
        edge_between(&board, 35, 36),
    ];
    wider.sort();
    assert_eq!(buildable_roads(&board, FIRST, TurnPhase::Normal), wider);
    assert_eq!(buildable_roads(&board, FIRST, anchor), vec![around[0], around[1]]);
    assert_eq!(first_free_edge_adjacent_to(&board, 34), Some(around[0]));
    assert_eq!(first_free_edge_adjacent_to(&board, 35), Some(edge_between(&board, 9, 35)));
    assert!(place_road(&mut board, FIRST, around[0], anchor).is_ok());
    assert!(place_road(&mut board, FIRST, around[1], anchor).is_ok());
    assert_eq!(first_free_edge_adjacent_to(&board, 34), None);
    assert_eq!(first_free_edge_adjacent_to(&board, 54), None);
}

#[test]
fn seven_moves_the_robber() {
    assert!(moves_robber(7));
    for total in [0, 2, 6, 8, 12] {
        assert!(!moves_robber(total));
    }
}

#[test]
fn two_dice_show_two_to_twelve() {
    let mut seen = [false; 13];
    for _ in 0..2000 {
        let total = roll_dice();
        assert!((2..=12).contains(&total));
        seen[total as usize] = true;
    }
    assert!(seen[2..=12].iter().all(|s| *s));
}
