use catan_engine::building::{owned_by, place_house};
use catan_engine::control::seat_holder;
use catan_engine::development_cards::{check_play, holds_card};
use catan_engine::economy::{check_robber_move, holds_port, pick_loot, seats_player};
use catan_engine::setup::{add_player, build_board, unshuffled_deck, unshuffled_materials};
use catan_engine::survey::count_cards;
use catan_engine::types::{
    DevelopmentCard, GameError, MaterialType, PlayerType, PowerUp, Resources,
};
use catan_engine::Board;

fn two_at_the_table() -> Board {
    let mut board =
        build_board(unshuffled_materials(), unshuffled_deck()).expect("a valid layout");
    add_player(&mut board).expect("a free seat");
    add_player(&mut board).expect("a free seat");
    board
}

#[test]
fn unshuffled_tiles_and_cards_come_in_their_fixed_order() {
    let materials = unshuffled_materials();
    assert_eq!(materials.len(), 19);
    assert_eq!(materials[0], MaterialType::Stone);
    assert_eq!(materials[1], MaterialType::Sheep);
    assert_eq!(materials[2], MaterialType::Wood);
    assert_eq!(materials[3], MaterialType::Brick);
    assert_eq!(materials[4], MaterialType::Wheat);
    assert_eq!(materials[17], MaterialType::Wood);
    assert_eq!(materials[18], MaterialType::Dessert);
    let cards = unshuffled_deck();
    assert_eq!(cards.len(), 27);
    assert_eq!(cards[0], DevelopmentCard::Knight);
    assert_eq!(cards[13], DevelopmentCard::Knight);
    assert_eq!(cards[14], DevelopmentCard::Monopoly);
    assert_eq!(cards[16], DevelopmentCard::RoadBuilding);
    assert_eq!(cards[18], DevelopmentCard::YearOfPlenty);
    assert_eq!(cards[20], DevelopmentCard::VictoryPoint);
    assert_eq!(cards[26], DevelopmentCard::VictoryPoint);
    assert_eq!(count_cards(&cards, DevelopmentCard::Knight), 14);
    assert_eq!(count_cards(&Vec::new(), DevelopmentCard::Knight), 0);
}

#[test]
fn seats_are_held_in_order() {
    assert_eq!(seat_holder(0), PlayerType::Player1);
    assert_eq!(seat_holder(1), PlayerType::Player2);
    assert_eq!(seat_holder(2), PlayerType::Player3);
    assert_eq!(seat_holder(3), PlayerType::Player4);
}

#[test]
fn lists_are_searched_for_an_item() {
    assert!(owned_by(Some(PlayerType::Player2), PlayerType::Player2));
    assert!(!owned_by(Some(PlayerType::Player2), PlayerType::Player1));
    assert!(!owned_by(None, PlayerType::Player1));
    let ports = vec![PowerUp::Any3, PowerUp::Wood2];
    assert!(holds_port(&ports, PowerUp::Wood2));
    assert!(!holds_port(&ports, PowerUp::Brick2));
    assert!(!holds_port(&Vec::new(), PowerUp::Any3));
    let players = vec![PlayerType::Player3, PlayerType::Player1];
    assert!(seats_player(&players, PlayerType::Player1));
    assert!(!seats_player(&players, PlayerType::Player2));
    let cards = vec![DevelopmentCard::Knight, DevelopmentCard::VictoryPoint];
    assert!(holds_card(&cards, DevelopmentCard::VictoryPoint));
    assert!(!holds_card(&cards, DevelopmentCard::Monopoly));
}

#[test]
fn plays_and_robber_moves_are_checked_without_being_made() {
    let mut board = two_at_the_table();
    assert_eq!(
        check_play(&board, PlayerType::Player1, DevelopmentCard::Knight),
        Err(GameError::CardNotHeld)
    );
    assert_eq!(
        check_play(&board, PlayerType::Player3, DevelopmentCard::Knight),
        Err(GameError::PlayerNotFound)
    );
    assert_eq!(place_house(&mut board, PlayerType::Player2, 35, true), Ok(None));
    assert_eq!(check_robber_move(&board, PlayerType::Player1, 4, PlayerType::Player2), Ok(18));
    assert_eq!(
        check_robber_move(&board, PlayerType::Player1, 5, PlayerType::Player2),
        Err(GameError::InvalidTarget)
    );
    assert_eq!(
        check_robber_move(&board, PlayerType::Player1, 18, PlayerType::Player2),
        Err(GameError::InvalidTarget)
    );
    assert_eq!(pick_loot(&board, PlayerType::Player2), None);
    assert_eq!(
        board.players()[1].resources,
        Resources { wheat: 0, brick: 0, stone: 0, sheep: 0, wood: 0 }
    );
}
