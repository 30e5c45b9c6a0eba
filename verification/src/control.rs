//! Starting a game: the board, the players and the order of the founding
//! turns.

use vstd::prelude::*;
use crate::setup::{add_player, is_fresh_board, setup_board, valid_layout};
use crate::types::{fresh_player, player_at, PlayerType};
use crate::{Board, BoardView};

verus! {

/// Whether a game can be played by `count` players: by 2, 3 or 4.
pub fn player_count_allowed(count: usize) -> (allowed: bool)
    ensures
        allowed == (2 <= count <= 4),
{
    2 <= count && count <= 4
}

/// The first `n` seats, in order.
pub open spec fn first_seats(n: int) -> Seq<PlayerType> {
    Seq::new(n as nat, |i: int| player_at(i))
}

/// A board for a new game with `quantity_players` players seated, who are
/// returned in the order of their seats. The tiles and the development cards
/// are shuffled; nothing is built and nobody holds anything.
pub fn start_game(quantity_players: usize) -> (game: (Board, Vec<PlayerType>))
    requires
        quantity_players <= 4,
    ensures
        game.0@.wf(),
        game.1@ == first_seats(quantity_players as int),
        game.0@.players == first_seats(quantity_players as int).map_values(
            |p: PlayerType| fresh_player(p),
        ),
        valid_layout(game.0@.tile_materials(), game.0@.development_cards),
        is_fresh_board(
            BoardView { players: Seq::empty(), ..game.0@ },
            game.0@.tile_materials(),
            game.0@.development_cards,
        ),
{
    let mut board: Board = setup_board();
    let mut players: Vec<PlayerType> = Vec::new();
    let ghost fresh = board@;
    assert(fresh.players =~= Seq::empty());
    while players.len() < quantity_players
        invariant
            players@.len() <= quantity_players <= 4,
            board@.wf(),
            players@ == first_seats(players@.len() as int),
            board@.players == first_seats(players@.len() as int).map_values(
                |p: PlayerType| fresh_player(p),
            ),
            board@ == (BoardView { players: board@.players, ..fresh }),
        decreases quantity_players - players@.len(),
    {
        let ghost seated = players@;
        let ghost before = board@.players;
        match add_player(&mut board) {
            Ok(id) => {
                players.push(id);
                proof {
                    assert(before.len() == seated.len());
                    assert(players@ =~= first_seats(players@.len() as int));
                    assert(board@.players =~= first_seats(players@.len() as int).map_values(
                        |p: PlayerType| fresh_player(p),
                    ));
                }
            },
            Err(_) => {
                proof {
                    assert(before.len() == seated.len());
                    assert(false);
                }
            },
        }
    }
    assert((BoardView { players: Seq::empty(), ..board@ }) == fresh);
    (board, players)
}

/// The founding turns of a game of `count` players, in order: every seat from
/// the first to the last, then every seat from the last to the first. The
/// flag says whether the turn is the player's second, in which the settlement
/// brings its starting resources.
pub open spec fn founding_order(count: int) -> Seq<(PlayerType, bool)> {
    Seq::new(
        (2 * count) as nat,
        |i: int|
            if i < count {
                (player_at(i), false)
            } else {
                (player_at(2 * count - 1 - i), true)
            },
    )
}

/// The founding turns of a game of `count` players, in order.
pub fn founding_turns(count: usize) -> (turns: Vec<(PlayerType, bool)>)
    requires
        count <= 4,
    ensures
        turns@ == founding_order(count as int),
{
    let mut turns: Vec<(PlayerType, bool)> = Vec::new();
    let mut i: usize = 0;
    while i < count
        invariant
            i <= count <= 4,
            turns@.len() == i,
            forall|j: int| 0 <= j < i ==> turns@[j] == founding_order(count as int)[j],
        decreases count - i,
    {
        turns.push((seat_holder(i), false));
        i += 1;
    }
    while i < 2 * count
        invariant
            count <= i <= 2 * count,
            count <= 4,
            turns@.len() == i,
            forall|j: int| 0 <= j < i ==> turns@[j] == founding_order(count as int)[j],
        decreases 2 * count - i,
    {
        turns.push((seat_holder(2 * count - 1 - i), true));
        i += 1;
    }
    assert(turns@ =~= founding_order(count as int));
    turns
}

/// The player who takes seat `seat`.
pub fn seat_holder(seat: usize) -> (player: PlayerType)
    ensures
        player == player_at(seat as int),
{
    match seat {
        0 => PlayerType::Player1,
        1 => PlayerType::Player2,
        2 => PlayerType::Player3,
        _ => PlayerType::Player4,
    }
}

} // verus!
