//! Playing development cards: the knight, road building, the year of plenty
//! and the monopoly. A player may play one development card in a turn.

use vstd::prelude::*;
use crate::building::{lemma_road_laid_wf, owned_by, place_road};
use crate::counting::{is_item, lemma_count_remove};
use crate::economy::{check_robber_move, lemma_robbed_wf, move_robber_and_take, pick_loot};
use crate::state::{lemma_points_bound, lemma_same_standing_wf};
use crate::types::{
    player_at, DevelopmentCard, EdgeId, GameError, MaterialType, Player, PlayerType, PlayerView,
    TileId, TurnPhase,
};
use crate::victory::{bonus_moved, update_largest_army};
use crate::{Board, BoardView};

verus! {

/// Whether `i` is the first place at which `cards` holds `card`.
pub open spec fn is_first_place(
    cards: Seq<DevelopmentCard>,
    card: DevelopmentCard,
    i: int,
) -> bool {
    &&& 0 <= i < cards.len()
    &&& cards[i] == card
    &&& forall|j: int| 0 <= j < i ==> cards[j] != card
}

/// The first place at which `cards` holds `card`, which it holds.
pub open spec fn first_place(cards: Seq<DevelopmentCard>, card: DevelopmentCard) -> int {
    choose|i: int| is_first_place(cards, card, i)
}

/// `cards` without the first `card` among them.
pub open spec fn without_one(
    cards: Seq<DevelopmentCard>,
    card: DevelopmentCard,
) -> Seq<DevelopmentCard> {
    if cards.contains(card) {
        cards.remove(first_place(cards, card))
    } else {
        cards
    }
}

/// Takes one `card` out of the hand of `player`, the first that is found.
/// Returns whether there was one.
pub fn consume_card(player: &mut Player, card: DevelopmentCard) -> (found: bool)
    ensures
        found == old(player)@.dev_cards.contains(card),
        final(player)@ == (PlayerView {
            dev_cards: without_one(old(player)@.dev_cards, card),
            ..old(player)@
        }),
        found ==> is_first_place(
            old(player)@.dev_cards,
            card,
            first_place(old(player)@.dev_cards, card),
        ),
{
    let mut position: usize = 0;
    while position < player.dev_cards.len()
        invariant
            position <= player.dev_cards@.len(),
            *player == *old(player),
            forall|j: int| 0 <= j < position ==> player.dev_cards@[j] != card,
        decreases player.dev_cards@.len() - position,
    {
        if player.dev_cards[position] == card {
            proof {
                let cards = player.dev_cards@;
                assert(is_first_place(cards, card, position as int));
                let chosen = first_place(cards, card);
                assert(is_first_place(cards, card, chosen));
                assert(chosen == position);
            }
            player.dev_cards.remove(position);
            return true;
        }
        position += 1;
    }
    false
}

impl BoardView {
    /// Why `p` may not play a `card`, or nothing if `p` may. The checks come
    /// in this order: the player is seated, has played no development card
    /// this turn, and holds the card.
    pub open spec fn play_error(self, p: PlayerType, card: DevelopmentCard) -> Option<GameError> {
        if !self.seated(p) {
            Some(GameError::PlayerNotFound)
        } else if self.player(p).played_dev_card_this_turn {
            Some(GameError::AlreadyPlayedDevelopmentCard)
        } else if !self.player(p).dev_cards.contains(card) {
            Some(GameError::CardNotHeld)
        } else {
            None
        }
    }

    /// The board after `card` has left the hand of `p`, who has now played a
    /// development card this turn, and after `p` has played `knights` knights
    /// more.
    pub open spec fn card_played(
        self,
        p: PlayerType,
        card: DevelopmentCard,
        knights: int,
    ) -> BoardView {
        let pl = self.player(p);
        BoardView {
            players: self.players.update(
                p.seat(),
                PlayerView {
                    dev_cards: without_one(pl.dev_cards, card),
                    played_dev_card_this_turn: true,
                    knights_played: (pl.knights_played + knights) as u8,
                    ..pl
                },
            ),
            ..self
        }
    }

    /// The board at the start of a turn of `p`: `p` may play a development
    /// card again.
    pub open spec fn turn_begun(self, p: PlayerType) -> BoardView {
        BoardView {
            players: self.players.update(
                p.seat(),
                PlayerView { played_dev_card_this_turn: false, ..self.player(p) },
            ),
            ..self
        }
    }
}

/// Playing a card that is not a victory point card, where that is allowed,
/// keeps the board well-formed.
pub proof fn lemma_card_played_wf(b: BoardView, p: PlayerType, card: DevelopmentCard)
    requires
        b.wf(),
        b.play_error(p, card) is None,
        card != DevelopmentCard::VictoryPoint,
    ensures
        b.card_played(p, card, one_if_knight(card)).wf(),
        b.player(p).knights_played < 255,
        is_first_place(b.player(p).dev_cards, card, first_place(b.player(p).dev_cards, card)),
{
    let knights = one_if_knight(card);
    let now = b.card_played(p, card, knights);
    let cards = b.player(p).dev_cards;
    let i = choose|i: int| 0 <= i < cards.len() && cards[i] == card;
    lemma_first_place(cards, card, i);
    let place = first_place(cards, card);
    lemma_points_bound(b, p);
    assert(b.player_ok(p.seat()));
    lemma_count_remove(cards, is_item(DevelopmentCard::VictoryPoint), place);
    assert forall|i: int| 0 <= i < now.players.len() implies #[trigger] now.player_ok(i) by {
        assert(b.player_ok(i));
        assert(player_at(i).seat() == i);
    }
    if let Some(h) = b.largest_army {
        assert(now.player(h).knights_played >= b.player(h).knights_played);
    }
}

/// 1 for a knight, 0 for any other card.
pub open spec fn one_if_knight(card: DevelopmentCard) -> int {
    if card == DevelopmentCard::Knight {
        1
    } else {
        0
    }
}

/// A sequence that holds `card` holds it at a first place.
pub proof fn lemma_first_place(cards: Seq<DevelopmentCard>, card: DevelopmentCard, i: int)
    requires
        0 <= i < cards.len(),
        cards[i] == card,
    ensures
        is_first_place(cards, card, first_place(cards, card)),
        first_place(cards, card) <= i,
    decreases i,
{
    if exists|j: int| 0 <= j < i && cards[j] == card {
        let j = choose|j: int| 0 <= j < i && cards[j] == card;
        lemma_first_place(cards, card, j);
    } else {
        assert(is_first_place(cards, card, i));
        let chosen = first_place(cards, card);
        assert(is_first_place(cards, card, chosen));
    }
}

/// Whether `player` may play a `card`: the seat of `player`, or why not.
pub fn check_play(
    board: &Board,
    player: PlayerType,
    card: DevelopmentCard,
) -> (checked: Result<usize, GameError>)
    requires
        board@.wf(),
    ensures
        match checked {
            Ok(seat) => board@.play_error(player, card) is None && seat == player.seat(),
            Err(e) => board@.play_error(player, card) == Some(e),
        },
{
    let seat: usize = match board.seat_of(player) {
        Some(index) => index,
        None => {
            return Err(GameError::PlayerNotFound);
        },
    };
    if board.players[seat].played_dev_card_this_turn {
        return Err(GameError::AlreadyPlayedDevelopmentCard);
    }
    if !holds_card(&board.players[seat].dev_cards, card) {
        return Err(GameError::CardNotHeld);
    }
    Ok(seat)
}

/// Whether `cards` holds `card`.
pub fn holds_card(cards: &Vec<DevelopmentCard>, card: DevelopmentCard) -> (held: bool)
    ensures
        held == cards@.contains(card),
{
    let mut i: usize = 0;
    while i < cards.len()
        invariant
            i <= cards@.len(),
            forall|j: int| 0 <= j < i ==> cards@[j] != card,
        decreases cards@.len() - i,
    {
        if cards[i] == card {
            return true;
        }
        i += 1;
    }
    false
}

/// Takes `card` out of the hand of `player`, who holds it, and notes that
/// `player` has played a development card this turn, a knight where `card` is
/// one.
fn play_card(board: &mut Board, player: PlayerType, card: DevelopmentCard)
    requires
        old(board)@.seated(player),
        old(board)@.player(player).dev_cards.contains(card),
        old(board)@.player(player).knights_played < 255,
    ensures
        final(board)@ == old(board)@.card_played(player, card, one_if_knight(card)),
{
    let seat: usize = player.index();
    let hand_holder: &mut Player = &mut board.players[seat];
    consume_card(hand_holder, card);
    hand_holder.played_dev_card_this_turn = true;
    if card == DevelopmentCard::Knight {
        hand_holder.knights_played += 1;
    }
    proof {
        let goal = old(board)@.card_played(player, card, one_if_knight(card));
        assert(board@.players =~= goal.players);
    }
}

/// Starts a turn of `player`, who may play a development card again. Where
/// `player` is not seated, the board stays as it is.
pub fn begin_turn(board: &mut Board, player: PlayerType) -> (begun: Result<(), GameError>)
    requires
        old(board)@.wf(),
    ensures
        final(board)@.wf(),
        match begun {
            Ok(_) => old(board)@.seated(player) && final(board)@ == old(board)@.turn_begun(player),
            Err(e) => e == GameError::PlayerNotFound && !old(board)@.seated(player) && *final(board)
                == *old(board),
        },
{
    let seat: usize = match board.seat_of(player) {
        Some(index) => index,
        None => {
            return Err(GameError::PlayerNotFound);
        },
    };
    board.players[seat].played_dev_card_this_turn = false;
    proof {
        assert(board@.players =~= old(board)@.turn_begun(player).players);
        lemma_same_standing_wf(old(board)@, board@);
    }
    Ok(())
}

impl BoardView {
    /// Why `p` may not play a knight, move the robber to tile `t` and rob
    /// `victim`, or nothing if `p` may: first what stands against playing the
    /// card, then what stands against the move.
    pub open spec fn knight_error(
        self,
        p: PlayerType,
        t: TileId,
        victim: PlayerType,
    ) -> Option<GameError> {
        match self.play_error(p, DevelopmentCard::Knight) {
            Some(e) => Some(e),
            None => self.robber_error(p, t, victim),
        }
    }

    /// The board after `p` has played a knight and moved the robber to tile
    /// `t`, before the largest army is looked at: the card has left the hand,
    /// `p` has played a knight more, and `loot` has gone from `victim` to `p`.
    pub open spec fn knight_moved(
        self,
        p: PlayerType,
        t: TileId,
        victim: PlayerType,
        loot: Option<MaterialType>,
    ) -> BoardView {
        self.card_played(p, DevelopmentCard::Knight, 1).robbed(p, t, victim, loot)
    }

    /// Why `p` may not play a year of plenty for `m1` and `m2`, or nothing if
    /// `p` may: first what stands against playing the card; then, the desert
    /// is no resource.
    pub open spec fn plenty_error(
        self,
        p: PlayerType,
        m1: MaterialType,
        m2: MaterialType,
    ) -> Option<GameError> {
        match self.play_error(p, DevelopmentCard::YearOfPlenty) {
            Some(e) => Some(e),
            None => if m1 == MaterialType::Dessert || m2 == MaterialType::Dessert {
                Some(GameError::InvalidTrade)
            } else {
                None
            },
        }
    }

    /// The board after `p` has played a year of plenty for `m1` and `m2`: the
    /// card has left the hand and `p` has one card more of each.
    pub open spec fn plenty_played(
        self,
        p: PlayerType,
        m1: MaterialType,
        m2: MaterialType,
    ) -> BoardView {
        let played = self.card_played(p, DevelopmentCard::YearOfPlenty, 0);
        played.with_resources(p, self.player(p).resources.plus(m1, 1).plus(m2, 1))
    }

    /// Why `p` may not play a monopoly on `m`, or nothing if `p` may: first
    /// what stands against playing the card; then, the desert is no resource.
    pub open spec fn monopoly_error(self, p: PlayerType, m: MaterialType) -> Option<GameError> {
        match self.play_error(p, DevelopmentCard::Monopoly) {
            Some(e) => Some(e),
            None => if m == MaterialType::Dessert {
                Some(GameError::InvalidTrade)
            } else {
                None
            },
        }
    }

    /// How many cards of `m` the players in the first `n` seats hold, `p`
    /// apart.
    pub open spec fn others_hold(self, p: PlayerType, m: MaterialType, n: int) -> int
        decreases n,
    {
        if n <= 0 {
            0
        } else {
            self.others_hold(p, m, n - 1) + if n - 1 == p.seat() {
                0
            } else {
                self.players[n - 1].resources.count(m)
            }
        }
    }

    /// The board after `p` has played a monopoly on `m`: the card has left
    /// the hand, no other player holds a card of `m`, and `p` has as many more
    /// as they held together, up to the limit of 255.
    pub open spec fn monopoly_played(self, p: PlayerType, m: MaterialType) -> BoardView {
        let played = self.card_played(p, DevelopmentCard::Monopoly, 0);
        BoardView {
            players: Seq::new(
                self.players.len(),
                |i: int|
                    if i == p.seat() {
                        PlayerView {
                            resources: self.players[i].resources.plus(
                                m,
                                self.others_hold(p, m, self.players.len() as int),
                            ),
                            ..played.players[i]
                        }
                    } else {
                        PlayerView {
                            resources: self.players[i].resources.with(m, 0),
                            ..self.players[i]
                        }
                    },
            ),
            ..played
        }
    }
}

/// The other players hold no less than nothing and no more than 255 cards
/// each.
pub proof fn lemma_others_hold_bounds(b: BoardView, p: PlayerType, m: MaterialType, n: int)
    requires
        0 <= n,
    ensures
        0 <= b.others_hold(p, m, n) <= 255 * n,
    decreases n,
{
    if n > 0 {
        lemma_others_hold_bounds(b, p, m, n - 1);
    }
}

/// Plays a knight of `player_id`: the card leaves the hand, the robber moves
/// to tile `new_tile_pos`, `loot` goes from `player_to_rob_id` to `player_id`
/// where `player_to_rob_id` holds a card of it, and the largest army is looked
/// at. Returns the winner, if the bonus changed hands and that made one.
/// Where the play is not allowed, the board stays as it is and the error says
/// why.
pub fn play_knight_card_taking(
    board: &mut Board,
    player_id: PlayerType,
    new_tile_pos: TileId,
    player_to_rob_id: PlayerType,
    loot: Option<MaterialType>,
) -> (played: Result<Option<PlayerType>, GameError>)
    requires
        old(board)@.wf(),
    ensures
        final(board)@.wf(),
        match played {
            Ok(winner) => {
                let moved = old(board)@.knight_moved(
                    player_id,
                    new_tile_pos,
                    player_to_rob_id,
                    loot,
                );
                &&& old(board)@.knight_error(player_id, new_tile_pos, player_to_rob_id) is None
                &&& final(board)@ == moved.after_army_check(player_id)
                &&& winner == if moved.takes_largest_army(player_id) {
                    final(board)@.winner()
                } else {
                    None
                }
            },
            Err(e) => {
                &&& old(board)@.knight_error(player_id, new_tile_pos, player_to_rob_id) == Some(e)
                &&& *final(board) == *old(board)
            },
        },
{
    match check_play(board, player_id, DevelopmentCard::Knight) {
        Ok(_) => {},
        Err(e) => {
            return Err(e);
        },
    }
    match check_robber_move(board, player_id, new_tile_pos, player_to_rob_id) {
        Ok(_) => {},
        Err(e) => {
            return Err(e);
        },
    }
    proof {
        lemma_card_played_wf(old(board)@, player_id, DevelopmentCard::Knight);
    }
    play_card(board, player_id, DevelopmentCard::Knight);
    proof {
        let was = old(board)@;
        let now = board@;
        assert(now.robber_error(player_id, new_tile_pos, player_to_rob_id) == was.robber_error(
            player_id,
            new_tile_pos,
            player_to_rob_id,
        ));
    }
    match move_robber_and_take(board, player_id, new_tile_pos, player_to_rob_id, loot) {
        Ok(_) => {},
        Err(_) => {
            assert(false);
        },
    }
    Ok(update_largest_army(board, player_id))
}

/// Plays a knight of `player_id`: the card leaves the hand, the robber moves
/// to tile `new_tile_pos`, one card goes from `player_to_rob_id` to
/// `player_id`, of a material picked at random among those that
/// `player_to_rob_id` holds, and the largest army is looked at. Returns the
/// winner, if the bonus changed hands and that made one. Where the play is not
/// allowed, the board stays as it is and the error says why.
pub fn play_knight_card(
    board: &mut Board,
    player_id: PlayerType,
    new_tile_pos: TileId,
    player_to_rob_id: PlayerType,
) -> (played: Result<Option<PlayerType>, GameError>)
    requires
        old(board)@.wf(),
    ensures
        final(board)@.wf(),
        match played {
            Ok(winner) => {
                &&& old(board)@.knight_error(player_id, new_tile_pos, player_to_rob_id) is None
                &&& exists|loot: Option<MaterialType>|
                    {
                        let moved = #[trigger] old(board)@.knight_moved(
                            player_id,
                            new_tile_pos,
                            player_to_rob_id,
                            loot,
                        );
                        &&& old(board)@.can_lose(player_to_rob_id, loot)
                        &&& final(board)@ == moved.after_army_check(player_id)
                        &&& winner == if moved.takes_largest_army(player_id) {
                            final(board)@.winner()
                        } else {
                            None
                        }
                    }
            },
            Err(e) => {
                &&& old(board)@.knight_error(player_id, new_tile_pos, player_to_rob_id) == Some(e)
                &&& *final(board) == *old(board)
            },
        },
{
    match check_play(board, player_id, DevelopmentCard::Knight) {
        Ok(_) => {},
        Err(e) => {
            return Err(e);
        },
    }
    match check_robber_move(board, player_id, new_tile_pos, player_to_rob_id) {
        Ok(_) => {},
        Err(e) => {
            return Err(e);
        },
    }
    proof {
        lemma_robbed_wf(old(board)@, player_id, new_tile_pos, player_to_rob_id, None);
    }
    let loot: Option<MaterialType> = pick_loot(board, player_to_rob_id);
    let played = play_knight_card_taking(board, player_id, new_tile_pos, player_to_rob_id, loot);
    proof {
        if played is Ok {
            assert(old(board)@.knight_moved(player_id, new_tile_pos, player_to_rob_id, loot)
                == old(board)@.knight_moved(player_id, new_tile_pos, player_to_rob_id, loot));
        }
    }
    played
}

/// Plays a year of plenty of `player_id`: the card leaves the hand and
/// `player_id` gets one card of `material1` and one of `material2` from the
/// bank. Where the play is not allowed, the board stays as it is and the error
/// says why.
pub fn play_year_of_plenty_card(
    board: &mut Board,
    player_id: PlayerType,
    material1: MaterialType,
    material2: MaterialType,
) -> (played: Result<(), GameError>)
    requires
        old(board)@.wf(),
    ensures
        final(board)@.wf(),
        match played {
            Ok(_) => {
                &&& old(board)@.plenty_error(player_id, material1, material2) is None
                &&& final(board)@ == old(board)@.plenty_played(player_id, material1, material2)
            },
            Err(e) => {
                &&& old(board)@.plenty_error(player_id, material1, material2) == Some(e)
                &&& *final(board) == *old(board)
            },
        },
{
    let seat: usize = match check_play(board, player_id, DevelopmentCard::YearOfPlenty) {
        Ok(seat) => seat,
        Err(e) => {
            return Err(e);
        },
    };
    if material1 == MaterialType::Dessert || material2 == MaterialType::Dessert {
        return Err(GameError::InvalidTrade);
    }
    proof {
        lemma_card_played_wf(old(board)@, player_id, DevelopmentCard::YearOfPlenty);
    }
    play_card(board, player_id, DevelopmentCard::YearOfPlenty);
    let ghost played = board@;
    board.players[seat].resources.credit(material1, 1);
    board.players[seat].resources.credit(material2, 1);
    proof {
        let goal = old(board)@.plenty_played(player_id, material1, material2);
        assert(board@.players =~= goal.players);
        lemma_same_standing_wf(played, board@);
    }
    Ok(())
}

/// Plays a monopoly of `player_id` on `material`: the card leaves the hand,
/// and every card of `material` that another player holds goes to
/// `player_id`, whose hand holds at most 255 of them. Where the play is not
/// allowed, the board stays as it is and the error says why.
pub fn play_monopoly_card(
    board: &mut Board,
    player_id: PlayerType,
    material: MaterialType,
) -> (played: Result<(), GameError>)
    requires
        old(board)@.wf(),
    ensures
        final(board)@.wf(),
        match played {
            Ok(_) => {
                &&& old(board)@.monopoly_error(player_id, material) is None
                &&& final(board)@ == old(board)@.monopoly_played(player_id, material)
            },
            Err(e) => {
                &&& old(board)@.monopoly_error(player_id, material) == Some(e)
                &&& *final(board) == *old(board)
            },
        },
{
    let player_playing_index: usize = match check_play(
        board,
        player_id,
        DevelopmentCard::Monopoly,
    ) {
        Ok(seat) => seat,
        Err(e) => {
            return Err(e);
        },
    };
    if material == MaterialType::Dessert {
        return Err(GameError::InvalidTrade);
    }
    proof {
        lemma_card_played_wf(old(board)@, player_id, DevelopmentCard::Monopoly);
    }
    play_card(board, player_id, DevelopmentCard::Monopoly);
    let ghost was = old(board)@;
    let ghost played = board@;
    let mut total_stolen: u16 = 0;
    let mut i: usize = 0;
    while i < board.players.len()
        invariant
            i <= played.players.len(),
            player_playing_index == player_id.seat(),
            player_playing_index < played.players.len(),
            played.players.len() == was.players.len(),
            played.players.len() <= 4,
            played == was.card_played(player_id, DevelopmentCard::Monopoly, 0),
            board@.players.len() == played.players.len(),
            board@.vertices == played.vertices,
            board@.edges == played.edges,
            board@.tiles == played.tiles,
            board@.development_cards == played.development_cards,
            board@.largest_army == played.largest_army,
            board@.largest_army_size == played.largest_army_size,
            board@.longest_road == played.longest_road,
            board@.longest_road_size == played.longest_road_size,
            total_stolen == was.others_hold(player_id, material, i as int),
            total_stolen <= 255 * i,
            forall|s: int|
                0 <= s < i && s != player_playing_index ==> #[trigger] board@.players[s]
                    == (PlayerView {
                    resources: was.players[s].resources.with(material, 0),
                    ..was.players[s]
                }),
            forall|s: int|
                i <= s < played.players.len() || s == player_playing_index
                    ==> #[trigger] board@.players[s] == played.players[s],
        decreases played.players.len() - i,
    {
        if i != player_playing_index {
            let ghost before = board@;
            let amount: u8 = board.players[i].resources.get(material);
            if amount > 0 {
                board.players[i].resources.set(material, 0);
            }
            total_stolen += amount as u16;
            proof {
                assert forall|s: int| 0 <= s < played.players.len() && s != i implies
                    #[trigger] board@.players[s] == before.players[s] by {}
                assert(before.players[i as int] == was.players[i as int]);
            }
        }
        i += 1;
    }
    let gained: u8 = if total_stolen > 255 {
        255
    } else {
        total_stolen as u8
    };
    let ghost before = board@;
    board.players[player_playing_index].resources.credit(material, gained);
    proof {
        let goal = was.monopoly_played(player_id, material);
        assert forall|s: int|
            0 <= s < played.players.len() && s != player_playing_index implies
            #[trigger] board@.players[s] == before.players[s] by {}
        assert(board@.players =~= goal.players);
        lemma_same_standing_wf(played, board@);
    }
    Ok(())
}

impl BoardView {
    /// The board after `p` has placed a free road on edge `e` and the longest
    /// road has been looked at.
    pub open spec fn road_built(self, p: PlayerType, e: EdgeId) -> BoardView {
        self.road_laid(p, e, TurnPhase::FreeRoad).after_road_check(p)
    }

    /// The winner that a free road of `p` on edge `e` makes, if it makes one.
    pub open spec fn road_wins(self, p: PlayerType, e: EdgeId) -> Option<PlayerType> {
        if self.road_laid(p, e, TurnPhase::FreeRoad).takes_longest_road(p) {
            self.road_built(p, e).winner()
        } else {
            None
        }
    }

    /// Why `p` may not play a road building card for the edges `e1` and `e2`,
    /// or nothing if `p` may. The checks come in this order: the player is
    /// seated, has played no development card this turn, has two roads left
    /// in the supply and holds the card; the first road may be placed; and,
    /// unless the first road makes a winner, the second road may be placed
    /// after it.
    pub open spec fn road_building_error(
        self,
        p: PlayerType,
        e1: EdgeId,
        e2: EdgeId,
    ) -> Option<GameError> {
        if !self.seated(p) {
            Some(GameError::PlayerNotFound)
        } else if self.player(p).played_dev_card_this_turn {
            Some(GameError::AlreadyPlayedDevelopmentCard)
        } else if self.player(p).road_quantity < 2 {
            Some(GameError::InsufficientPieces)
        } else if !self.player(p).dev_cards.contains(DevelopmentCard::RoadBuilding) {
            Some(GameError::CardNotHeld)
        } else if self.road_error(p, e1, TurnPhase::FreeRoad) is Some {
            self.road_error(p, e1, TurnPhase::FreeRoad)
        } else if self.road_wins(p, e1) is Some {
            None
        } else {
            self.road_built(p, e1).road_error(p, e2, TurnPhase::FreeRoad)
        }
    }

    /// The board after `p` has played a road building card for the edges `e1`
    /// and `e2`: both roads are placed, or the first alone where it makes a
    /// winner, and the card has left the hand.
    pub open spec fn road_building_played(
        self,
        p: PlayerType,
        e1: EdgeId,
        e2: EdgeId,
    ) -> BoardView {
        let first = self.road_built(p, e1);
        let roads = if self.road_wins(p, e1) is Some {
            first
        } else {
            first.road_built(p, e2)
        };
        roads.card_played(p, DevelopmentCard::RoadBuilding, 0)
    }

    /// The winner that a road building card of `p` for the edges `e1` and
    /// `e2` makes, if it makes one: the one that the first road makes, or else
    /// the one that the second makes.
    pub open spec fn road_building_winner(
        self,
        p: PlayerType,
        e1: EdgeId,
        e2: EdgeId,
    ) -> Option<PlayerType> {
        match self.road_wins(p, e1) {
            Some(w) => Some(w),
            None => self.road_built(p, e1).road_wins(p, e2),
        }
    }
}

/// Takes back the free road that `player` has just placed on edge `edge` of
/// the board `was`, where the bonus for the longest road was held by `holder`
/// and asked for more than `size` edges.
fn undo_road(
    board: &mut Board,
    player: PlayerType,
    edge: EdgeId,
    holder: Option<PlayerType>,
    size: u8,
    Ghost(was): Ghost<BoardView>,
)
    requires
        was.wf(),
        was.road_error(player, edge, TurnPhase::FreeRoad) is None,
        old(board)@ == was.road_built(player, edge),
        holder == was.longest_road,
        size == was.longest_road_size,
    ensures
        final(board)@ == was,
{
    proof {
        lemma_road_laid_wf(was, player, edge, TurnPhase::FreeRoad);
        let laid = was.road_laid(player, edge, TurnPhase::FreeRoad);
        lemma_points_bound(laid, player);
        if let Some(h) = holder {
            lemma_points_bound(laid, h);
        }
        let built = was.road_built(player, edge);
        assert(laid.players.len() == was.players.len());
        assert(built.players.len() == was.players.len());
        assert(built.player(player).road_quantity == was.player(player).road_quantity - 1);
    }
    let seat: usize = player.index();
    board.edges[edge].owner = None;
    board.players[seat].road_quantity += 1;
    let moved: bool = !owned_by(holder, player) && owned_by(board.longest_road, player);
    proof {
        let laid = was.road_laid(player, edge, TurnPhase::FreeRoad);
        let built = was.road_built(player, edge);
        assert(laid.longest_road == holder);
        if moved {
            assert(laid.takes_longest_road(player));
            assert(built.players == bonus_moved(laid.players, holder, player));
            assert(built.player(player).victory_points == laid.player(player).victory_points + 2);
            if let Some(h) = holder {
                assert(h.seat() != player.seat());
                assert(built.player(h).victory_points == laid.player(h).victory_points - 2);
            }
        } else {
            assert(built.players == laid.players);
        }
    }
    if moved {
        board.players[seat].victory_points -= 2;
        if let Some(old_holder) = holder {
            let old_seat: usize = old_holder.index();
            board.players[old_seat].victory_points += 2;
        }
    }
    board.longest_road = holder;
    board.longest_road_size = size;
    proof {
        let built = was.road_built(player, edge);
        assert(board@.edges =~= was.edges);
        assert forall|i: int| 0 <= i < was.players.len() implies board@.players[i]
            == was.players[i] by {
            if i == seat {
                assert(board@.players[i].victory_points == was.players[i].victory_points);
                assert(board@.players[i].road_quantity == was.players[i].road_quantity);
            } else if moved && holder == Some(player_at(i)) {
                assert(player_at(i).seat() == i);
                assert(board@.players[i].victory_points == was.players[i].victory_points);
            } else {
                if let Some(h) = holder {
                    assert(h.seat() == i ==> player_at(i) == h);
                }
                assert(board@.players[i] == built.players[i]);
                assert(built.players[i] == was.players[i]);
            }
        }
        assert(board@.players =~= was.players);
    }
}

/// Plays a road building card of `player_id`: two free roads, on the edges
/// `edge1_pos` and `edge2_pos`, each of which must extend the network as it is
/// when the road is placed. Where the first road makes a winner, the second is
/// not placed. The card leaves the hand. Returns the winner, if a road made
/// one. Where the play is not allowed, the board is afterwards as it was and
/// the error says why.
pub fn play_road_building_card(
    board: &mut Board,
    player_id: PlayerType,
    edge1_pos: EdgeId,
    edge2_pos: EdgeId,
) -> (played: Result<Option<PlayerType>, GameError>)
    requires
        old(board)@.wf(),
    ensures
        final(board)@.wf(),
        match played {
            Ok(winner) => {
                &&& old(board)@.road_building_error(player_id, edge1_pos, edge2_pos) is None
                &&& final(board)@ == old(board)@.road_building_played(
                    player_id,
                    edge1_pos,
                    edge2_pos,
                )
                &&& winner == old(board)@.road_building_winner(player_id, edge1_pos, edge2_pos)
            },
            Err(e) => {
                &&& old(board)@.road_building_error(player_id, edge1_pos, edge2_pos) == Some(e)
                &&& final(board)@ == old(board)@
            },
        },
{
    let player_index: usize = match board.seat_of(player_id) {
        Some(index) => index,
        None => {
            return Err(GameError::PlayerNotFound);
        },
    };
    if board.players[player_index].played_dev_card_this_turn {
        return Err(GameError::AlreadyPlayedDevelopmentCard);
    }
    if board.players[player_index].road_quantity < 2 {
        return Err(GameError::InsufficientPieces);
    }
    if !holds_card(&board.players[player_index].dev_cards, DevelopmentCard::RoadBuilding) {
        return Err(GameError::CardNotHeld);
    }
    let holder: Option<PlayerType> = board.longest_road;
    let size: u8 = board.longest_road_size;
    let ghost was = board@;
    let winner1: Option<PlayerType> = match place_road(
        board,
        player_id,
        edge1_pos,
        TurnPhase::FreeRoad,
    ) {
        Ok(winner) => winner,
        Err(e) => {
            return Err(e);
        },
    };
    let ghost first = board@;
    if winner1.is_some() {
        proof {
            lemma_card_played_wf(first, player_id, DevelopmentCard::RoadBuilding);
        }
        play_card(board, player_id, DevelopmentCard::RoadBuilding);
        return Ok(winner1);
    }
    match place_road(board, player_id, edge2_pos, TurnPhase::FreeRoad) {
        Ok(winner2) => {
            proof {
                lemma_card_played_wf(board@, player_id, DevelopmentCard::RoadBuilding);
            }
            play_card(board, player_id, DevelopmentCard::RoadBuilding);
            Ok(winner2)
        },
        Err(e) => {
            undo_road(board, player_id, edge1_pos, holder, size, Ghost(was));
            Err(e)
        },
    }
}

} // verus!
