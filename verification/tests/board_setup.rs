use catan_engine::control::{founding_turns, player_count_allowed, start_game};
use catan_engine::economy::find_robber;
use catan_engine::setup::{
    add_player, build_board, setup_board, unshuffled_deck, unshuffled_materials,
};
use catan_engine::survey::{count_cards, find_tile_and_corner_for_vertex};
use catan_engine::topology::{corners_of, port_of};
use catan_engine::types::{
    DevelopmentCard, GameError, MaterialType, Player, PlayerType, PowerUp, Resources,
};
use catan_engine::Board;

fn plain_board() -> Board {
    build_board(unshuffled_materials(), unshuffled_deck()).expect("the unshuffled layout is valid")
}

fn count_material(board: &Board, material: MaterialType) -> usize {
    board.tiles().iter().filter(|t| t.material == material).count()
}

#[test]
fn board_has_54_vertices_72_edges_19_tiles() {
    let board = setup_board();
    assert_eq!(board.vertices().len(), 54);
    assert_eq!(board.edges().len(), 72);
    assert_eq!(board.tiles().len(), 19);
}

#[test]
fn every_vertex_has_two_or_three_edges_and_one_to_three_tiles() {
    let board = setup_board();
    for vertex in board.vertices() {
        assert!(vertex.adjacent_edges.len() == 2 || vertex.adjacent_edges.len() == 3);
        assert!(1 <= vertex.adjacent_tiles.len() && vertex.adjacent_tiles.len() <= 3);
    }
}

#[test]
fn edges_are_the_sides_of_the_tiles_without_duplicates() {
    let board = plain_board();
    let mut sides: Vec<(usize, usize)> = Vec::new();
    for tile in board.tiles() {
        for k in 0..6 {
            let a = tile.vertices[k];
            let b = tile.vertices[(k + 1) % 6];
            let side = if a < b { (a, b) } else { (b, a) };
            if !sides.contains(&side) {
                sides.push(side);
            }
        }
    }
    let edges: Vec<(usize, usize)> = board.edges().iter().map(|e| e.vertices).collect();
    assert_eq!(edges, sides);
    for (i, edge) in edges.iter().enumerate() {
        assert!(edge.0 < edge.1 && edge.1 < 54);
        assert!(!edges[..i].contains(edge));
    }
}

#[test]
fn vertices_list_the_edges_and_tiles_that_touch_them() {
    let board = plain_board();
    for (v, vertex) in board.vertices().iter().enumerate() {
        let touching: Vec<usize> = board
            .edges()
            .iter()
            .enumerate()
            .filter(|(_, e)| e.vertices.0 == v || e.vertices.1 == v)
            .map(|(i, _)| i)
            .collect();
        assert_eq!(vertex.adjacent_edges, touching);
        let around: Vec<usize> = board
            .tiles()
            .iter()
            .enumerate()
            .filter(|(_, t)| t.vertices.contains(&v))
            .map(|(i, _)| i)
            .collect();
        assert_eq!(vertex.adjacent_tiles, around);
    }
}

#[test]
fn topology_tables_give_known_entries() {
    assert_eq!(corners_of(0), [0, 1, 31, 30, 47, 29]);
    assert_eq!(corners_of(6), [39, 38, 14, 15, 16, 40]);
    assert_eq!(corners_of(18), [48, 49, 50, 51, 52, 53]);
    let board = plain_board();
    assert_eq!(board.edges()[0].vertices, (0, 1));
    assert_eq!(board.edges()[5].vertices, (0, 29));
    assert_eq!(board.edges()[6].vertices, (1, 2));
    assert_eq!(board.edges()[12].vertices, (5, 6));
    assert_eq!(board.edges()[32].vertices, (14, 15));
    assert_eq!(board.edges()[71].vertices, (52, 53));
    assert_eq!(port_of(0), Some(PowerUp::Wheat2));
    assert_eq!(port_of(5), Some(PowerUp::Stone2));
    assert_eq!(port_of(28), Some(PowerUp::Any3));
    assert_eq!(port_of(30), None);
}

#[test]
fn ports_stand_on_eighteen_vertices() {
    let board = setup_board();
    let ports = board.vertices().iter().filter(|v| v.power_up.is_some()).count();
    assert_eq!(ports, 18);
    assert_eq!(board.vertices()[10].power_up, Some(PowerUp::Sheep2));
    assert_eq!(board.vertices()[20].power_up, Some(PowerUp::Brick2));
    assert_eq!(board.vertices()[24].power_up, Some(PowerUp::Wood2));
}

#[test]
fn fresh_board_has_the_robber_on_the_desert_only() {
    for _ in 0..10 {
        let board = setup_board();
        let with_robber: Vec<usize> = board
            .tiles()
            .iter()
            .enumerate()
            .filter(|(_, t)| t.has_robber)
            .map(|(i, _)| i)
            .collect();
        assert_eq!(with_robber.len(), 1);
        assert_eq!(board.tiles()[with_robber[0]].material, MaterialType::Dessert);
        assert_eq!(board.tiles()[with_robber[0]].number, 0);
        assert_eq!(find_robber(&board), with_robber[0]);
    }
}

#[test]
fn fresh_board_holds_the_tiles_and_cards_of_the_game() {
    let board = setup_board();
    assert_eq!(count_material(&board, MaterialType::Wheat), 4);
    assert_eq!(count_material(&board, MaterialType::Brick), 3);
    assert_eq!(count_material(&board, MaterialType::Stone), 3);
    assert_eq!(count_material(&board, MaterialType::Sheep), 4);
    assert_eq!(count_material(&board, MaterialType::Wood), 4);
    assert_eq!(count_material(&board, MaterialType::Dessert), 1);
    let deck = board.development_cards();
    assert_eq!(deck.len(), 27);
    assert_eq!(count_cards(deck, DevelopmentCard::Knight), 14);
    assert_eq!(count_cards(deck, DevelopmentCard::Monopoly), 2);
    assert_eq!(count_cards(deck, DevelopmentCard::RoadBuilding), 2);
    assert_eq!(count_cards(deck, DevelopmentCard::YearOfPlenty), 2);
    assert_eq!(count_cards(deck, DevelopmentCard::VictoryPoint), 7);
}

#[test]
fn fresh_board_is_empty_and_both_bonuses_are_free() {
    let board = setup_board();
    assert!(board.players().is_empty());
    assert!(board.vertices().iter().all(|v| v.owner.is_none() && v.building.is_none()));
    assert!(board.edges().iter().all(|e| e.owner.is_none()));
    assert_eq!(board.largest_army(), None);
    assert_eq!(board.largest_army_size(), 2);
    assert_eq!(board.longest_road(), None);
    assert_eq!(board.longest_road_size(), 4);
}

#[test]
fn number_tokens_go_to_the_tiles_in_order_and_skip_the_desert() {
    let tokens: [u8; 18] = [5, 2, 6, 10, 9, 4, 3, 8, 11, 5, 8, 4, 11, 12, 9, 6, 3, 10];
    let board = plain_board();
    for t in 0..18 {
        assert_eq!(board.tiles()[t].number, tokens[t]);
    }
    assert_eq!(board.tiles()[18].number, 0);

    let mut materials = unshuffled_materials();
    materials.swap(3, 18);
    let board = build_board(materials, unshuffled_deck()).expect("a permutation is valid");
    assert_eq!(board.tiles()[3].material, MaterialType::Dessert);
    assert_eq!(board.tiles()[3].number, 0);
    assert!(board.tiles()[3].has_robber);
    assert_eq!(board.tiles()[2].number, 6);
    assert_eq!(board.tiles()[4].number, 10);
    assert_eq!(board.tiles()[18].number, 10);
    assert_eq!(board.tiles()[18].material, MaterialType::Brick);
    assert!(!board.tiles()[18].has_robber);
}

#[test]
fn build_board_keeps_the_order_of_tiles_and_cards() {
    let mut materials = unshuffled_materials();
    materials.reverse();
    let mut cards = unshuffled_deck();
    cards.reverse();
    let board = build_board(materials.clone(), cards.clone()).expect("a permutation is valid");
    let laid: Vec<MaterialType> = board.tiles().iter().map(|t| t.material).collect();
    assert_eq!(laid, materials);
    assert_eq!(board.development_cards(), &cards);
}

#[test]
fn build_board_refuses_what_is_not_the_game() {
    let mut short = unshuffled_materials();
    short.pop();
    assert!(build_board(short, unshuffled_deck()).is_none());

    let mut two_deserts = unshuffled_materials();
    two_deserts[0] = MaterialType::Dessert;
    assert!(build_board(two_deserts, unshuffled_deck()).is_none());

    let mut no_desert = unshuffled_materials();
    no_desert[18] = MaterialType::Wood;
    assert!(build_board(no_desert, unshuffled_deck()).is_none());

    let mut wrong_deck = unshuffled_deck();
    wrong_deck[0] = DevelopmentCard::VictoryPoint;
    assert!(build_board(unshuffled_materials(), wrong_deck).is_none());

    let mut long_deck = unshuffled_deck();
    long_deck.push(DevelopmentCard::Knight);
    assert!(build_board(unshuffled_materials(), long_deck).is_none());
}

#[test]
fn setup_board_shuffles_tiles_and_cards() {
    let plain_materials = unshuffled_materials();
    let plain_cards = unshuffled_deck();
    let mut tiles_moved = false;
    let mut cards_moved = false;
    for _ in 0..20 {
        let board = setup_board();
        let laid: Vec<MaterialType> = board.tiles().iter().map(|t| t.material).collect();
        if laid != plain_materials {
            tiles_moved = true;
        }
        if board.development_cards() != &plain_cards {
            cards_moved = true;
        }
    }
    assert!(tiles_moved);
    assert!(cards_moved);
}

#[test]
fn players_take_their_seats_in_order_and_the_fifth_is_refused() {
    let mut board = setup_board();
    assert_eq!(add_player(&mut board), Ok(PlayerType::Player1));
    assert_eq!(add_player(&mut board), Ok(PlayerType::Player2));
    assert_eq!(add_player(&mut board), Ok(PlayerType::Player3));
    assert_eq!(add_player(&mut board), Ok(PlayerType::Player4));
    assert_eq!(add_player(&mut board), Err(GameError::GameFull));
    assert_eq!(board.players().len(), 4);
    assert_eq!(board.players()[2].id, PlayerType::Player3);
    assert_eq!(board.seat_of(PlayerType::Player4), Some(3));
}

#[test]
fn new_player_has_all_pieces_and_nothing_else() {
    let player = Player::new(PlayerType::Player2);
    assert_eq!(player.id, PlayerType::Player2);
    assert_eq!(player.settlement_quantity, 5);
    assert_eq!(player.city_quantity, 4);
    assert_eq!(player.road_quantity, 15);
    assert_eq!(player.victory_points, 0);
    assert_eq!(player.knights_played, 0);
    assert!(!player.played_dev_card_this_turn);
    assert!(player.power_ups.is_empty());
    assert!(player.dev_cards.is_empty());
    assert_eq!(player.resources, Resources { wheat: 0, brick: 0, stone: 0, sheep: 0, wood: 0 });
}

#[test]
fn seat_numbers_follow_the_players() {
    assert_eq!(PlayerType::Player1.index(), 0);
    assert_eq!(PlayerType::Player2.index(), 1);
    assert_eq!(PlayerType::Player3.index(), 2);
    assert_eq!(PlayerType::Player4.index(), 3);
    let board = setup_board();
    assert_eq!(board.seat_of(PlayerType::Player1), None);
}

#[test]
fn start_game_seats_the_players_asked_for() {
    let (board, players) = start_game(3);
    assert_eq!(players, vec![PlayerType::Player1, PlayerType::Player2, PlayerType::Player3]);
    assert_eq!(board.players().len(), 3);
    assert_eq!(board.players()[1].id, PlayerType::Player2);
    assert_eq!(board.players()[1].settlement_quantity, 5);
    let (board, players) = start_game(0);
    assert!(players.is_empty());
    assert!(board.players().is_empty());
}

#[test]
fn games_are_for_two_to_four_players() {
    assert!(!player_count_allowed(0));
    assert!(!player_count_allowed(1));
    assert!(player_count_allowed(2));
    assert!(player_count_allowed(3));
    assert!(player_count_allowed(4));
    assert!(!player_count_allowed(5));
}

#[test]
fn founding_turns_run_forth_and_back() {
    assert_eq!(
        founding_turns(3),
        vec![
            (PlayerType::Player1, false),
            (PlayerType::Player2, false),
            (PlayerType::Player3, false),
            (PlayerType::Player3, true),
            (PlayerType::Player2, true),
            (PlayerType::Player1, true),
        ]
    );
    assert!(founding_turns(0).is_empty());
}

#[test]
fn vertex_is_found_on_its_first_tile() {
    let board = plain_board();
    assert_eq!(find_tile_and_corner_for_vertex(&board, 0), Some((0, 0)));
    assert_eq!(find_tile_and_corner_for_vertex(&board, 30), Some((0, 3)));
    assert_eq!(find_tile_and_corner_for_vertex(&board, 15), Some((6, 3)));
    assert_eq!(find_tile_and_corner_for_vertex(&board, 53), Some((12, 3)));
    assert_eq!(find_tile_and_corner_for_vertex(&board, 54), None);
}
