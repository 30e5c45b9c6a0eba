//! Resources: prices, production, trade with the bank, development cards and
//! the robber.

use vstd::prelude::*;
use crate::counting::{is_item, lemma_count_push};
use crate::state::{lemma_points_bound, lemma_same_standing_wf, robber_among};
use crate::topology::{
    lemma_tile_corner, lemma_tiles_at, on_tile, tile_corner, tile_corners, tiles_at, TILE_COUNT,
    VERTEX_COUNT,
};
use crate::types::{
    player_at, BuildingType, DevelopmentCard, GameError, MaterialType, Player, PlayerType,
    PlayerView, PowerUp, Resources, Tile, TileId, Vertex, VertexId,
};
use crate::victory::check_for_winner;
use crate::{Board, BoardView};

verus! {

/// The price of a settlement: one brick, one wood, one sheep, one wheat.
pub open spec fn settlement_cost() -> Resources {
    Resources { wheat: 1, brick: 1, stone: 0, sheep: 1, wood: 1 }
}

/// The price of a road: one brick, one wood.
pub open spec fn road_cost() -> Resources {
    Resources { wheat: 0, brick: 1, stone: 0, sheep: 0, wood: 1 }
}

/// The price of a city: two wheat, three stone.
pub open spec fn city_cost() -> Resources {
    Resources { wheat: 2, brick: 0, stone: 3, sheep: 0, wood: 0 }
}

/// The price of a development card: one sheep, one wheat, one stone.
pub open spec fn development_card_cost() -> Resources {
    Resources { wheat: 1, brick: 0, stone: 1, sheep: 1, wood: 0 }
}

/// The price of a settlement.
pub fn settlement_price() -> (cost: Resources)
    ensures
        cost == settlement_cost(),
{
    Resources { wheat: 1, brick: 1, stone: 0, sheep: 1, wood: 1 }
}

/// The price of a road.
pub fn road_price() -> (cost: Resources)
    ensures
        cost == road_cost(),
{
    Resources { wheat: 0, brick: 1, stone: 0, sheep: 0, wood: 1 }
}

/// The price of a city.
pub fn city_price() -> (cost: Resources)
    ensures
        cost == city_cost(),
{
    Resources { wheat: 2, brick: 0, stone: 3, sheep: 0, wood: 0 }
}

/// The price of a development card.
pub fn development_card_price() -> (cost: Resources)
    ensures
        cost == development_card_cost(),
{
    Resources { wheat: 1, brick: 0, stone: 1, sheep: 1, wood: 0 }
}

/// Whether `player` can pay `cost`.
pub fn has_resources(player: &Player, cost: &Resources) -> (enough: bool)
    ensures
        enough == player@.resources.covers(*cost),
{
    player.resources.wheat >= cost.wheat && player.resources.brick >= cost.brick
        && player.resources.stone >= cost.stone && player.resources.sheep >= cost.sheep
        && player.resources.wood >= cost.wood
}

/// Takes `cost` from `player`, who can pay it.
pub fn spend_resources(player: &mut Player, cost: &Resources)
    requires
        old(player)@.resources.covers(*cost),
    ensures
        final(player)@ == (PlayerView {
            resources: old(player)@.resources.less(*cost),
            ..old(player)@
        }),
{
    player.resources.wheat = player.resources.wheat - cost.wheat;
    player.resources.brick = player.resources.brick - cost.brick;
    player.resources.stone = player.resources.stone - cost.stone;
    player.resources.sheep = player.resources.sheep - cost.sheep;
    player.resources.wood = player.resources.wood - cost.wood;
}

/// The port at which `material` is taken two for one.
pub open spec fn port_for(material: MaterialType) -> Option<PowerUp> {
    match material {
        MaterialType::Wheat => Some(PowerUp::Wheat2),
        MaterialType::Brick => Some(PowerUp::Brick2),
        MaterialType::Stone => Some(PowerUp::Stone2),
        MaterialType::Sheep => Some(PowerUp::Sheep2),
        MaterialType::Wood => Some(PowerUp::Wood2),
        MaterialType::Dessert => None,
    }
}

/// How many cards of `give` the bank asks for one card of another material
/// from a player with the ports `ports`: 2 at the port for `give`, else 3 at
/// a general port, else 4.
pub open spec fn bank_rate(ports: Seq<PowerUp>, give: MaterialType) -> u8 {
    if port_for(give) matches Some(port) && ports.contains(port) {
        2
    } else if ports.contains(PowerUp::Any3) {
        3
    } else {
        4
    }
}

impl BoardView {
    /// Why `p` may not trade `give` for `get` with the bank, or nothing if `p`
    /// may. The checks come in this order: the materials differ and neither
    /// is the desert; the player is seated and holds what the bank asks for.
    pub open spec fn trade_error(
        self,
        p: PlayerType,
        give: MaterialType,
        get: MaterialType,
    ) -> Option<GameError> {
        if give == get || give == MaterialType::Dessert || get == MaterialType::Dessert {
            Some(GameError::InvalidTrade)
        } else if !self.seated(p) {
            Some(GameError::PlayerNotFound)
        } else if self.player(p).resources.count(give) < bank_rate(self.player(p).power_ups, give) {
            Some(GameError::InsufficientTradeStock)
        } else {
            None
        }
    }

    /// The board on which `p` holds `resources` and all else is as here.
    pub open spec fn with_resources(self, p: PlayerType, resources: Resources) -> BoardView {
        BoardView {
            players: self.players.update(p.seat(), PlayerView { resources, ..self.player(p) }),
            ..self
        }
    }

    /// The board after `p` has traded `give` for `get` with the bank: `p` has
    /// given what the bank asks for and has one card of `get` more.
    pub open spec fn traded(
        self,
        p: PlayerType,
        give: MaterialType,
        get: MaterialType,
    ) -> BoardView {
        let pl = self.player(p);
        self.with_resources(
            p,
            pl.resources.minus(give, bank_rate(pl.power_ups, give) as int).plus(get, 1),
        )
    }
}

/// Whether `ports` lists `port`.
pub fn holds_port(ports: &Vec<PowerUp>, port: PowerUp) -> (held: bool)
    ensures
        held == ports@.contains(port),
{
    let mut i: usize = 0;
    while i < ports.len()
        invariant
            i <= ports@.len(),
            forall|j: int| 0 <= j < i ==> ports@[j] != port,
        decreases ports@.len() - i,
    {
        if ports[i] == port {
            return true;
        }
        i += 1;
    }
    false
}

/// How many cards of `give` the bank asks of `player` for one card of
/// another material.
pub fn required_to_give(player: &Player, give: MaterialType) -> (rate: u8)
    ensures
        rate == bank_rate(player@.power_ups, give),
{
    let has_specific_port: bool = match give {
        MaterialType::Wheat => holds_port(&player.power_ups, PowerUp::Wheat2),
        MaterialType::Brick => holds_port(&player.power_ups, PowerUp::Brick2),
        MaterialType::Stone => holds_port(&player.power_ups, PowerUp::Stone2),
        MaterialType::Sheep => holds_port(&player.power_ups, PowerUp::Sheep2),
        MaterialType::Wood => holds_port(&player.power_ups, PowerUp::Wood2),
        MaterialType::Dessert => false,
    };
    if has_specific_port {
        2
    } else if holds_port(&player.power_ups, PowerUp::Any3) {
        3
    } else {
        4
    }
}

/// Whether `player_id` may trade `material_to_give` for `material_to_get` with
/// the bank: the number of cards that the bank asks for, or why not.
pub fn check_trade(
    board: &Board,
    player_id: PlayerType,
    material_to_give: MaterialType,
    material_to_get: MaterialType,
) -> (checked: Result<u8, GameError>)
    requires
        board@.wf(),
    ensures
        match checked {
            Ok(rate) => {
                &&& board@.trade_error(player_id, material_to_give, material_to_get) is None
                &&& rate == bank_rate(board@.player(player_id).power_ups, material_to_give)
            },
            Err(e) => board@.trade_error(player_id, material_to_give, material_to_get) == Some(e),
        },
{
    if material_to_give == material_to_get {
        return Err(GameError::InvalidTrade);
    }
    if material_to_give == MaterialType::Dessert || material_to_get == MaterialType::Dessert {
        return Err(GameError::InvalidTrade);
    }
    let player_index: usize = match board.seat_of(player_id) {
        Some(index) => index,
        None => {
            return Err(GameError::PlayerNotFound);
        },
    };
    let player: &Player = &board.players[player_index];
    let required: u8 = required_to_give(player, material_to_give);
    if player.resources.get(material_to_give) < required {
        return Err(GameError::InsufficientTradeStock);
    }
    Ok(required)
}

/// Trades with the bank: `player_id` gives what the bank asks for of
/// `material_to_give`, 2 cards at the port for it, else 3 at a general port,
/// else 4, and gets one card of `material_to_get`. Returns whether the trade
/// took place; where it did not, the board stays as it is.
pub fn trade_with_bank(
    board: &mut Board,
    player_id: PlayerType,
    material_to_give: MaterialType,
    material_to_get: MaterialType,
) -> (done: bool)
    requires
        old(board)@.wf(),
    ensures
        final(board)@.wf(),
        done == (old(board)@.trade_error(player_id, material_to_give, material_to_get) is None),
        done ==> final(board)@ == old(board)@.traded(
            player_id,
            material_to_give,
            material_to_get,
        ),
        !done ==> *final(board) == *old(board),
{
    let required_to_give: u8 = match check_trade(
        board,
        player_id,
        material_to_give,
        material_to_get,
    ) {
        Ok(rate) => rate,
        Err(_) => {
            return false;
        },
    };
    let seat: usize = player_id.index();
    let player: &mut Player = &mut board.players[seat];
    player.resources.debit(material_to_give, required_to_give);
    player.resources.credit(material_to_get, 1);
    proof {
        let goal = old(board)@.traded(player_id, material_to_give, material_to_get);
        assert(board@.players =~= goal.players);
        lemma_same_standing_wf(old(board)@, board@);
    }
    true
}

impl BoardView {
    /// Why `p` may not buy a development card, or nothing if `p` may. The
    /// checks come in this order: the player is seated; a card is left in
    /// the draw pile; the player can pay.
    pub open spec fn purchase_error(self, p: PlayerType) -> Option<GameError> {
        if !self.seated(p) {
            Some(GameError::PlayerNotFound)
        } else if self.development_cards.len() == 0 {
            Some(GameError::DeckEmpty)
        } else if !self.player(p).resources.covers(development_card_cost()) {
            Some(GameError::InsufficientResources)
        } else {
            None
        }
    }

    /// The board after `p` has bought a development card: the last card of
    /// the draw pile is in `p`'s hand and `p` has paid. A victory point card
    /// counts at once: it gives `p` a victory point when it is drawn.
    pub open spec fn card_bought(self, p: PlayerType) -> BoardView {
        let pl = self.player(p);
        let card = self.development_cards.last();
        BoardView {
            development_cards: self.development_cards.drop_last(),
            players: self.players.update(
                p.seat(),
                PlayerView {
                    resources: pl.resources.less(development_card_cost()),
                    dev_cards: pl.dev_cards.push(card),
                    victory_points: if card == DevelopmentCard::VictoryPoint {
                        (pl.victory_points + 1) as u8
                    } else {
                        pl.victory_points
                    },
                    ..pl
                },
            ),
            ..self
        }
    }
}

/// Buying a development card, where that is allowed, keeps the board
/// well-formed.
pub proof fn lemma_card_bought_wf(b: BoardView, p: PlayerType)
    requires
        b.wf(),
        b.purchase_error(p) is None,
    ensures
        b.card_bought(p).wf(),
        b.player(p).victory_points < 255,
{
    let now = b.card_bought(p);
    lemma_points_bound(b, p);
    assert forall|i: int| 0 <= i < now.players.len() implies #[trigger] now.player_ok(i) by {
        assert(b.player_ok(i));
        assert(player_at(i).seat() == i);
        if i == p.seat() {
            lemma_count_push(
                b.player(p).dev_cards,
                is_item(DevelopmentCard::VictoryPoint),
                b.development_cards.last(),
            );
        }
    }
    if let Some(h) = b.largest_army {
        assert(now.player(h).knights_played == b.player(h).knights_played);
    }
}

/// Draws the last card of the pile for `player`, who pays for it.
fn draw_card(board: &mut Board, player: PlayerType) -> (card: DevelopmentCard)
    requires
        old(board)@.seated(player),
        old(board)@.development_cards.len() > 0,
        old(board)@.player(player).resources.covers(development_card_cost()),
        old(board)@.player(player).victory_points < 255,
    ensures
        card == old(board)@.development_cards.last(),
        final(board)@ == old(board)@.card_bought(player),
{
    let seat: usize = player.index();
    let card_drawn: DevelopmentCard = match board.development_cards.pop() {
        Some(card) => card,
        None => unreached(),
    };
    let buyer: &mut Player = &mut board.players[seat];
    spend_resources(buyer, &development_card_price());
    buyer.dev_cards.push(card_drawn);
    if card_drawn == DevelopmentCard::VictoryPoint {
        buyer.victory_points += 1;
    }
    proof {
        let goal = old(board)@.card_bought(player);
        assert(board@.players =~= goal.players);
        assert(board@.development_cards =~= goal.development_cards);
    }
    card_drawn
}

/// Buys a development card for `player_id_type`: the last card of the draw
/// pile, for one sheep, one wheat and one stone. Returns the card and, where
/// it is a victory point card, which counts at once, the winner if that made
/// one. Where the purchase is not allowed, the board stays as it is and the
/// error says why.
pub fn buy_development_card(
    board: &mut Board,
    player_id_type: PlayerType,
) -> (bought: Result<(DevelopmentCard, Option<PlayerType>), GameError>)
    requires
        old(board)@.wf(),
    ensures
        final(board)@.wf(),
        match bought {
            Ok((card, winner)) => {
                &&& old(board)@.purchase_error(player_id_type) is None
                &&& card == old(board)@.development_cards.last()
                &&& final(board)@ == old(board)@.card_bought(player_id_type)
                &&& winner == if card == DevelopmentCard::VictoryPoint {
                    final(board)@.winner()
                } else {
                    None
                }
            },
            Err(e) => {
                &&& old(board)@.purchase_error(player_id_type) == Some(e)
                &&& *final(board) == *old(board)
            },
        },
{
    let player_index: usize = match board.seat_of(player_id_type) {
        Some(index) => index,
        None => {
            return Err(GameError::PlayerNotFound);
        },
    };
    if board.development_cards.len() == 0 {
        return Err(GameError::DeckEmpty);
    }
    if !has_resources(&board.players[player_index], &development_card_price()) {
        return Err(GameError::InsufficientResources);
    }
    proof {
        lemma_card_bought_wf(old(board)@, player_id_type);
    }
    let card_drawn: DevelopmentCard = draw_card(board, player_id_type);
    let winner: Option<PlayerType> = if card_drawn == DevelopmentCard::VictoryPoint {
        check_for_winner(board)
    } else {
        None
    };
    Ok((card_drawn, winner))
}

/// The players who have built on the first `k` corners of tile `t`, each
/// once, in the order of the corners.
pub open spec fn owners_below(b: BoardView, t: TileId, k: int) -> Seq<PlayerType>
    decreases k,
{
    if k <= 0 {
        Seq::empty()
    } else {
        let before = owners_below(b, t, k - 1);
        match b.vertices[tile_corner(t, k - 1) as int].owner {
            Some(p) => if before.contains(p) {
                before
            } else {
                before.push(p)
            },
            None => before,
        }
    }
}

/// `owners_below` lists exactly the players who own one of the first `k`
/// corners.
pub proof fn lemma_owners_below(b: BoardView, t: TileId, k: int, p: PlayerType)
    requires
        0 <= k <= 6,
    ensures
        owners_below(b, t, k).contains(p) <==> exists|j: int|
            0 <= j < k && (#[trigger] b.vertices[tile_corner(t, j) as int]).owner == Some(p),
    decreases k,
{
    if k > 0 {
        lemma_owners_below(b, t, k - 1, p);
        let before = owners_below(b, t, k - 1);
        let now = owners_below(b, t, k);
        let owner = b.vertices[tile_corner(t, k - 1) as int].owner;
        if before.contains(p) {
            let i = choose|i: int| 0 <= i < before.len() && before[i] == p;
            assert(now[i] == p);
        }
        if owner == Some(p) && !before.contains(p) {
            assert(now[now.len() - 1] == p);
        }
        if now.contains(p) && !before.contains(p) {
            let i = choose|i: int| 0 <= i < now.len() && now[i] == p;
            if i < before.len() {
                assert(before[i] == p);
            }
            assert(owner == Some(p));
        }
    }
}

impl BoardView {
    /// Whether `p` has a building on a corner of tile `t`.
    pub open spec fn built_on_tile(self, p: PlayerType, t: TileId) -> bool {
        exists|k: int|
            0 <= k < 6 && (#[trigger] self.vertices[tile_corner(t, k) as int]).owner == Some(p)
    }

    /// Why `mover` may not move the robber to tile `t` and rob `victim`, or
    /// nothing if `mover` may. The checks come in this order: the tile
    /// exists and is not where the robber stands; `victim` has a building on
    /// it and is not `mover`; `mover` is seated.
    pub open spec fn robber_error(
        self,
        mover: PlayerType,
        t: TileId,
        victim: PlayerType,
    ) -> Option<GameError> {
        if t >= TILE_COUNT {
            Some(GameError::InvalidPosition)
        } else if t == self.robber_tile() {
            Some(GameError::InvalidTarget)
        } else if !self.built_on_tile(victim, t) {
            Some(GameError::InvalidTarget)
        } else if mover == victim {
            Some(GameError::InvalidTarget)
        } else if !self.seated(mover) {
            Some(GameError::PlayerNotFound)
        } else {
            None
        }
    }

    /// The tiles after the robber has moved to tile `t`.
    pub open spec fn robber_moved(self, t: TileId) -> Seq<Tile> {
        self.tiles.update(
            self.robber_tile(),
            Tile { has_robber: false, ..self.tiles[self.robber_tile()] },
        ).update(t as int, Tile { has_robber: true, ..self.tiles[t as int] })
    }

    /// Whether `victim` can lose `loot` to the robber: a card that `victim`
    /// holds, or nothing where `victim` holds no card.
    pub open spec fn can_lose(self, victim: PlayerType, loot: Option<MaterialType>) -> bool {
        match loot {
            Some(m) => self.player(victim).resources.count(m) > 0,
            None => forall|m: MaterialType| self.player(victim).resources.count(m) == 0,
        }
    }

    /// The board after `mover` has moved the robber to tile `t` and taken
    /// `loot` from `victim`: a card of that material goes from `victim` to
    /// `mover` where `victim` holds one; otherwise only the robber moves.
    pub open spec fn robbed(
        self,
        mover: PlayerType,
        t: TileId,
        victim: PlayerType,
        loot: Option<MaterialType>,
    ) -> BoardView {
        let moved = BoardView { tiles: self.robber_moved(t), ..self };
        match loot {
            Some(m) => if self.player(victim).resources.count(m) > 0 {
                moved.with_resources(
                    victim,
                    self.player(victim).resources.minus(m, 1),
                ).with_resources(mover, self.player(mover).resources.plus(m, 1))
            } else {
                moved
            },
            None => moved,
        }
    }
}

/// Moving the robber and taking a card, where that is allowed, keeps the
/// board well-formed.
pub proof fn lemma_robbed_wf(
    b: BoardView,
    mover: PlayerType,
    t: TileId,
    victim: PlayerType,
    loot: Option<MaterialType>,
)
    requires
        b.wf(),
        b.robber_error(mover, t, victim) is None,
    ensures
        b.robbed(mover, t, victim, loot).wf(),
        b.seated(victim),
{
    let now = b.robbed(mover, t, victim, loot);
    let k = choose|k: int|
        0 <= k < 6 && (#[trigger] b.vertices[tile_corner(t, k) as int]).owner == Some(victim);
    lemma_tile_corner(t, k);
    assert(now.tiles =~= b.robber_moved(t));
    assert(robber_among(now.tiles, t as int));
    assert forall|x: int| 0 <= x < now.tiles.len() && (#[trigger] now.tiles[x]).has_robber implies x
        == t by {
        if x != t && x != b.robber_tile() {
            assert(b.tiles[x].has_robber);
        }
    }
    assert(now.robber_tile() == t);
    lemma_same_standing_wf(b, now);
}

/// The tile on which the robber stands.
pub fn find_robber(board: &Board) -> (tile: TileId)
    requires
        board@.wf(),
    ensures
        tile == board@.robber_tile(),
{
    let mut t: usize = 0;
    while t < board.tiles.len()
        invariant
            t <= board@.tiles.len(),
            board@.wf(),
            forall|i: int| 0 <= i < t ==> !board@.tiles[i].has_robber,
        decreases board@.tiles.len() - t,
    {
        if board.tiles[t].has_robber {
            return t;
        }
        t += 1;
    }
    proof {
        assert(board@.robber_on(board@.robber_tile()));
    }
    unreached()
}

/// The players who have built on a corner of tile `tile_id`, each once, in
/// the order of the corners.
pub fn get_players_adjacent_to_tile(board: &Board, tile_id: TileId) -> (players: Vec<PlayerType>)
    requires
        board@.topology_ok(),
        tile_id < TILE_COUNT,
    ensures
        players@ == owners_below(board@, tile_id, 6),
        forall|p: PlayerType| players@.contains(p) <==> board@.built_on_tile(p, tile_id),
{
    let mut players_on_tile: Vec<PlayerType> = Vec::new();
    let corners: [VertexId; 6] = board.tiles[tile_id].vertices;
    let mut k: usize = 0;
    while k < 6
        invariant
            k <= 6,
            tile_id < TILE_COUNT,
            board@.topology_ok(),
            corners@ == tile_corners(tile_id),
            players_on_tile@ == owners_below(board@, tile_id, k as int),
        decreases 6 - k,
    {
        let vertex_id: VertexId = corners[k];
        proof {
            lemma_tile_corner(tile_id, k as int);
        }
        if let Some(owner) = board.vertices[vertex_id].owner {
            if !seats_player(&players_on_tile, owner) {
                players_on_tile.push(owner);
            }
        }
        k += 1;
    }
    proof {
        assert forall|p: PlayerType| players_on_tile@.contains(p) <==> board@.built_on_tile(
            p,
            tile_id,
        ) by {
            lemma_owners_below(board@, tile_id, 6, p);
        }
    }
    players_on_tile
}

/// Whether `players` lists `player`.
pub fn seats_player(players: &Vec<PlayerType>, player: PlayerType) -> (listed: bool)
    ensures
        listed == players@.contains(player),
{
    let mut i: usize = 0;
    while i < players.len()
        invariant
            i <= players@.len(),
            forall|j: int| 0 <= j < i ==> players@[j] != player,
        decreases players@.len() - i,
    {
        if players[i] == player {
            return true;
        }
        i += 1;
    }
    false
}

/// `list` and, where there is a card of `material` among `resources`, the
/// material.
pub open spec fn with_kind(
    list: Seq<MaterialType>,
    resources: Resources,
    material: MaterialType,
) -> Seq<MaterialType> {
    if resources.count(material) > 0 {
        list.push(material)
    } else {
        list
    }
}

/// The materials of which there is a card among `resources`: wheat, brick,
/// stone, sheep, wood, in this order.
pub open spec fn kinds_held(resources: Resources) -> Seq<MaterialType> {
    with_kind(
        with_kind(
            with_kind(
                with_kind(
                    with_kind(Seq::empty(), resources, MaterialType::Wheat),
                    resources,
                    MaterialType::Brick,
                ),
                resources,
                MaterialType::Stone,
            ),
            resources,
            MaterialType::Sheep,
        ),
        resources,
        MaterialType::Wood,
    )
}

/// The materials of which `player` holds a card: wheat, brick, stone, sheep,
/// wood, in this order.
pub fn robbable_resources(player: &Player) -> (materials: Vec<MaterialType>)
    ensures
        materials@ == kinds_held(player@.resources),
        forall|m: MaterialType| materials@.contains(m) <==> player@.resources.count(m) > 0,
{
    let mut materials: Vec<MaterialType> = Vec::new();
    if player.resources.wheat > 0 {
        materials.push(MaterialType::Wheat);
    }
    let ghost after_wheat = materials@;
    if player.resources.brick > 0 {
        materials.push(MaterialType::Brick);
    }
    let ghost after_brick = materials@;
    if player.resources.stone > 0 {
        materials.push(MaterialType::Stone);
    }
    let ghost after_stone = materials@;
    if player.resources.sheep > 0 {
        materials.push(MaterialType::Sheep);
    }
    let ghost after_sheep = materials@;
    if player.resources.wood > 0 {
        materials.push(MaterialType::Wood);
    }
    proof {
        assert forall|m: MaterialType| materials@.contains(m) <==> player@.resources.count(m)
            > 0 by {
            lemma_pushed(after_wheat, MaterialType::Brick, player.resources.brick > 0, m);
            lemma_pushed(after_brick, MaterialType::Stone, player.resources.stone > 0, m);
            lemma_pushed(after_stone, MaterialType::Sheep, player.resources.sheep > 0, m);
            lemma_pushed(after_sheep, MaterialType::Wood, player.resources.wood > 0, m);
            if player.resources.wheat > 0 {
                assert(after_wheat[0] == MaterialType::Wheat);
            }
        }
    }
    materials
}

/// What a sequence contains after `x` has been appended to it, or not.
proof fn lemma_pushed(s: Seq<MaterialType>, x: MaterialType, pushed: bool, m: MaterialType)
    ensures
        (if pushed {
            s.push(x)
        } else {
            s
        }).contains(m) <==> s.contains(m) || (pushed && m == x),
{
    if pushed {
        let t = s.push(x);
        if s.contains(m) {
            let i = choose|i: int| 0 <= i < s.len() && s[i] == m;
            assert(t[i] == m);
        }
        if m == x {
            assert(t[t.len() - 1] == m);
        }
        if t.contains(m) {
            let i = choose|i: int| 0 <= i < t.len() && t[i] == m;
            if i < s.len() {
                assert(s[i] == m);
            }
        }
    }
}

/// `rand::seq::IndexedRandom::choose` on the items of `options`, with the
/// generator of the thread, `rand::rng()`. It returns nothing where there are
/// no options, and else one of them. Nothing is claimed of which.
#[verifier::external_body]
fn choose_material(options: &Vec<MaterialType>) -> (chosen: Option<MaterialType>)
    ensures
        options@.len() == 0 ==> chosen is None,
        options@.len() > 0 ==> chosen is Some && options@.contains(chosen->0),
{
    rand::seq::IndexedRandom::choose(options.as_slice(), &mut rand::rng()).copied()
}

/// A material picked at random among those of which `victim` holds a card,
/// or nothing where `victim` holds none.
pub fn pick_loot(board: &Board, victim: PlayerType) -> (loot: Option<MaterialType>)
    requires
        board@.seated(victim),
    ensures
        board@.can_lose(victim, loot),
{
    let victim_seat: usize = victim.index();
    let options: Vec<MaterialType> = robbable_resources(&board.players[victim_seat]);
    let loot: Option<MaterialType> = choose_material(&options);
    proof {
        if loot is None {
            assert forall|m: MaterialType| board@.player(victim).resources.count(m) == 0 by {
                if board@.player(victim).resources.count(m) > 0 {
                    assert(options@.contains(m));
                }
            }
        }
    }
    loot
}

/// Moves the robber from tile `from` to tile `tile` and, where `victim` holds
/// one, a card of the material `loot` from `victim` to `mover`.
fn rob(
    board: &mut Board,
    mover: PlayerType,
    tile: TileId,
    victim: PlayerType,
    from: TileId,
    loot: Option<MaterialType>,
)
    requires
        old(board)@.seated(mover),
        old(board)@.seated(victim),
        mover != victim,
        tile < old(board)@.tiles.len(),
        from < old(board)@.tiles.len(),
        from == old(board)@.robber_tile(),
    ensures
        final(board)@ == old(board)@.robbed(mover, tile, victim, loot),
{
    board.tiles[from].has_robber = false;
    board.tiles[tile].has_robber = true;
    if let Some(material) = loot {
        let victim_seat: usize = victim.index();
        let mover_seat: usize = mover.index();
        if board.players[victim_seat].resources.get(material) > 0 {
            board.players[victim_seat].resources.debit(material, 1);
            board.players[mover_seat].resources.credit(material, 1);
        }
    }
    proof {
        let goal = old(board)@.robbed(mover, tile, victim, loot);
        assert(board@.tiles =~= goal.tiles);
        assert(board@.players =~= goal.players);
    }
}

/// Whether `mover` may move the robber to tile `new_tile_pos` and rob
/// `victim`: the tile on which the robber stands now, or why not.
pub fn check_robber_move(
    board: &Board,
    mover: PlayerType,
    new_tile_pos: TileId,
    victim: PlayerType,
) -> (checked: Result<TileId, GameError>)
    requires
        board@.wf(),
    ensures
        match checked {
            Ok(from) => board@.robber_error(mover, new_tile_pos, victim) is None && from
                == board@.robber_tile() && from < TILE_COUNT,
            Err(e) => board@.robber_error(mover, new_tile_pos, victim) == Some(e),
        },
{
    if new_tile_pos >= board.tiles.len() {
        return Err(GameError::InvalidPosition);
    }
    let current_robber_index: TileId = find_robber(board);
    if current_robber_index == new_tile_pos {
        return Err(GameError::InvalidTarget);
    }
    let adjacent_players: Vec<PlayerType> = get_players_adjacent_to_tile(board, new_tile_pos);
    if !seats_player(&adjacent_players, victim) {
        return Err(GameError::InvalidTarget);
    }
    if mover == victim {
        return Err(GameError::InvalidTarget);
    }
    if board.seat_of(mover).is_none() {
        return Err(GameError::PlayerNotFound);
    }
    Ok(current_robber_index)
}

/// Moves the robber to tile `new_tile_pos` for `mover`, who takes `loot` from
/// `victim`: one card of that material, where `victim` holds one. Where the
/// move is not allowed, the board stays as it is and the error says why.
pub fn move_robber_and_take(
    board: &mut Board,
    mover: PlayerType,
    new_tile_pos: TileId,
    victim: PlayerType,
    loot: Option<MaterialType>,
) -> (moved: Result<(), GameError>)
    requires
        old(board)@.wf(),
    ensures
        final(board)@.wf(),
        final(board)@.one_robber(),
        match moved {
            Ok(_) => {
                &&& old(board)@.robber_error(mover, new_tile_pos, victim) is None
                &&& final(board)@ == old(board)@.robbed(mover, new_tile_pos, victim, loot)
                &&& final(board)@.robber_tile() == new_tile_pos
            },
            Err(e) => {
                &&& old(board)@.robber_error(mover, new_tile_pos, victim) == Some(e)
                &&& *final(board) == *old(board)
            },
        },
{
    let from: TileId = match check_robber_move(board, mover, new_tile_pos, victim) {
        Ok(from) => from,
        Err(e) => {
            return Err(e);
        },
    };
    proof {
        lemma_robbed_wf(old(board)@, mover, new_tile_pos, victim, loot);
    }
    rob(board, mover, new_tile_pos, victim, from, loot);
    proof {
        assert(robber_among(board@.tiles, new_tile_pos as int));
    }
    Ok(())
}

/// Moves the robber to tile `new_tile_pos` for `player_id_type`, who takes
/// one card from `player_to_rob_id`, of a material picked at random among
/// those that `player_to_rob_id` holds. Returns the material taken, or
/// nothing where `player_to_rob_id` holds no card: the robber moves all the
/// same. Where the move is not allowed, the board stays as it is and the
/// error says why.
pub fn place_robber(
    board: &mut Board,
    player_id_type: PlayerType,
    new_tile_pos: TileId,
    player_to_rob_id: PlayerType,
) -> (robbed: Result<Option<MaterialType>, GameError>)
    requires
        old(board)@.wf(),
    ensures
        final(board)@.wf(),
        final(board)@.one_robber(),
        match robbed {
            Ok(loot) => {
                &&& old(board)@.robber_error(player_id_type, new_tile_pos, player_to_rob_id) is None
                &&& old(board)@.can_lose(player_to_rob_id, loot)
                &&& final(board)@ == old(board)@.robbed(
                    player_id_type,
                    new_tile_pos,
                    player_to_rob_id,
                    loot,
                )
                &&& final(board)@.robber_tile() == new_tile_pos
            },
            Err(e) => {
                &&& old(board)@.robber_error(player_id_type, new_tile_pos, player_to_rob_id)
                    == Some(e)
                &&& *final(board) == *old(board)
            },
        },
{
    match check_robber_move(board, player_id_type, new_tile_pos, player_to_rob_id) {
        Ok(_) => {},
        Err(e) => {
            return Err(e);
        },
    }
    proof {
        lemma_robbed_wf(old(board)@, player_id_type, new_tile_pos, player_to_rob_id, None);
    }
    let loot: Option<MaterialType> = pick_loot(board, player_to_rob_id);
    match move_robber_and_take(board, player_id_type, new_tile_pos, player_to_rob_id, loot) {
        Ok(_) => Ok(loot),
        Err(e) => Err(e),
    }
}

/// What the building on `v` yields to `p` when a tile at this corner
/// produces: 1 card for a settlement of `p`, 2 for a city.
pub open spec fn vertex_yield(v: Vertex, p: PlayerType) -> int {
    if v.owner == Some(p) {
        match v.building {
            Some(BuildingType::Settlement) => 1,
            Some(BuildingType::City) => 2,
            None => 0,
        }
    } else {
        0
    }
}

/// What the first `k` corners of tile `t` yield to `p`.
pub open spec fn corners_yield(b: BoardView, t: TileId, p: PlayerType, k: int) -> int
    decreases k,
{
    if k <= 0 {
        0
    } else {
        corners_yield(b, t, p, k - 1) + vertex_yield(b.vertices[tile_corner(t, k - 1) as int], p)
    }
}

/// How many cards of `m` tile `t` yields to `p` on a roll of `roll`: what its
/// corners yield, where the tile holds `m`, has the number `roll` and is free
/// of the robber.
pub open spec fn tile_yield(
    b: BoardView,
    t: TileId,
    roll: u8,
    p: PlayerType,
    m: MaterialType,
) -> int {
    let tile = b.tiles[t as int];
    if tile.number == roll && !tile.has_robber && tile.material == m {
        corners_yield(b, t, p, 6)
    } else {
        0
    }
}

/// How many cards of `m` the first `t` tiles yield to `p` on a roll of `roll`.
pub open spec fn production_below(
    b: BoardView,
    roll: u8,
    p: PlayerType,
    m: MaterialType,
    t: int,
) -> int
    decreases t,
{
    if t <= 0 {
        0
    } else {
        production_below(b, roll, p, m, t - 1) + tile_yield(b, (t - 1) as usize, roll, p, m)
    }
}

/// How many cards of each material the board yields to `p` on a roll of
/// `roll`.
pub open spec fn production(b: BoardView, roll: u8, p: PlayerType) -> spec_fn(MaterialType) -> int {
    |m: MaterialType| production_below(b, roll, p, m, TILE_COUNT as int)
}

/// The corners of a tile yield at most 2 cards each.
pub proof fn lemma_corners_yield_bound(b: BoardView, t: TileId, p: PlayerType, k: int)
    requires
        0 <= k,
    ensures
        0 <= corners_yield(b, t, p, k) <= 2 * k,
    decreases k,
{
    if k > 0 {
        lemma_corners_yield_bound(b, t, p, k - 1);
    }
}

/// The tiles yield at most 12 cards each.
pub proof fn lemma_production_bound(b: BoardView, roll: u8, p: PlayerType, m: MaterialType, t: int)
    requires
        0 <= t,
    ensures
        0 <= production_below(b, roll, p, m, t) <= 12 * t,
    decreases t,
{
    if t > 0 {
        lemma_production_bound(b, roll, p, m, t - 1);
        lemma_corners_yield_bound(b, (t - 1) as usize, p, 6);
    }
}

impl BoardView {
    /// The board after the tiles with the number `roll` have produced: every
    /// player has what the board yields more, up to the limit of 255 cards of
    /// a material.
    pub open spec fn after_roll(self, roll: u8) -> BoardView {
        BoardView {
            players: Seq::new(
                self.players.len(),
                |i: int|
                    PlayerView {
                        resources: self.players[i].resources.plus_each(
                            production(self, roll, player_at(i)),
                        ),
                        ..self.players[i]
                    },
            ),
            ..self
        }
    }
}

/// What the tiles yield to the player in each seat on a roll of
/// `number_rolled`.
fn payouts_on_roll(board: &Board, number_rolled: u8) -> (payouts: Vec<Resources>)
    requires
        board@.wf(),
    ensures
        payouts@.len() == board@.players.len(),
        forall|s: int, m: MaterialType|
            0 <= s < payouts@.len() && m != MaterialType::Dessert ==> (#[trigger] payouts@[s].count(
                m,
            )) == production(board@, number_rolled, player_at(s))(m),
{
    let ghost b = board@;
    let seats: usize = board.players.len();
    let mut payouts: Vec<Resources> = Vec::new();
    while payouts.len() < seats
        invariant
            payouts@.len() <= seats,
            forall|s: int| 0 <= s < payouts@.len() ==> payouts@[s] == Resources::zero(),
        decreases seats - payouts@.len(),
    {
        payouts.push(Resources::none());
    }
    let mut t: usize = 0;
    while t < TILE_COUNT
        invariant
            t <= TILE_COUNT,
            b == board@,
            b.wf(),
            seats == b.players.len(),
            payouts@.len() == seats,
            forall|s: int, m: MaterialType|
                0 <= s < seats && m != MaterialType::Dessert ==> (#[trigger] payouts@[s].count(m))
                    == production_below(b, number_rolled, player_at(s), m, t as int),
        decreases TILE_COUNT - t,
    {
        let tile: &Tile = &board.tiles[t];
        if tile.number == number_rolled && !tile.has_robber {
            let material: MaterialType = tile.material;
            let mut k: usize = 0;
            while k < 6
                invariant
                    k <= 6,
                    t < TILE_COUNT,
                    b == board@,
                    b.wf(),
                    seats == b.players.len(),
                    payouts@.len() == seats,
                    *tile == b.tiles[t as int],
                    tile.number == number_rolled && !tile.has_robber && tile.material == material,
                    forall|s: int, m: MaterialType|
                        0 <= s < seats && m != MaterialType::Dessert ==> (
                        #[trigger] payouts@[s].count(m)) == production_below(
                            b,
                            number_rolled,
                            player_at(s),
                            m,
                            t as int,
                        ) + if m == material {
                            corners_yield(b, t, player_at(s), k as int)
                        } else {
                            0
                        },
                decreases 6 - k,
            {
                let vertex_id: VertexId = tile.vertices[k];
                proof {
                    lemma_tile_corner(t, k as int);
                    assert(vertex_id == tile_corner(t, k as int));
                }
                let ghost before = payouts@;
                if let Some(owner_id) = board.vertices[vertex_id].owner {
                    if let Some(building) = board.vertices[vertex_id].building {
                        let amount: u8 = match building {
                            BuildingType::Settlement => 1,
                            BuildingType::City => 2,
                        };
                        let seat: usize = owner_id.index();
                        proof {
                            lemma_production_bound(b, number_rolled, owner_id, material, t as int);
                            lemma_corners_yield_bound(b, t, owner_id, k as int);
                            assert(player_at(seat as int) == owner_id);
                        }
                        payouts[seat].credit(material, amount);
                    }
                }
                proof {
                    assert forall|s: int, m: MaterialType|
                        0 <= s < seats && m != MaterialType::Dessert implies (
                    #[trigger] payouts@[s].count(m)) == production_below(
                        b,
                        number_rolled,
                        player_at(s),
                        m,
                        t as int,
                    ) + if m == material {
                        corners_yield(b, t, player_at(s), k + 1)
                    } else {
                        0
                    } by {
                        assert(before[s].count(m) == production_below(
                            b,
                            number_rolled,
                            player_at(s),
                            m,
                            t as int,
                        ) + if m == material {
                            corners_yield(b, t, player_at(s), k as int)
                        } else {
                            0
                        });
                        assert(player_at(s).seat() == s);
                    }
                }
                k += 1;
            }
        }
        t += 1;
    }
    payouts
}

/// Hands out what the tiles with the number `number_rolled` produce: for each
/// settlement on a corner of such a tile one card of its material, for each
/// city two. The tile under the robber produces nothing, and the desert never
/// does. A hand holds at most 255 cards of one material.
pub fn give_materials_on_roll(board: &mut Board, number_rolled: u8)
    requires
        old(board)@.wf(),
    ensures
        final(board)@.wf(),
        final(board)@ == old(board)@.after_roll(number_rolled),
{
    let payouts: Vec<Resources> = payouts_on_roll(board, number_rolled);
    let ghost was = board@;
    let mut i: usize = 0;
    while i < board.players.len()
        invariant
            i <= was.players.len(),
            payouts@.len() == was.players.len(),
            board@.players.len() == was.players.len(),
            board@.vertices == was.vertices,
            board@.edges == was.edges,
            board@.tiles == was.tiles,
            board@.development_cards == was.development_cards,
            board@.largest_army == was.largest_army,
            board@.largest_army_size == was.largest_army_size,
            board@.longest_road == was.longest_road,
            board@.longest_road_size == was.longest_road_size,
            forall|s: int, m: MaterialType|
                0 <= s < payouts@.len() && m != MaterialType::Dessert ==> (
                #[trigger] payouts@[s].count(m)) == production(was, number_rolled, player_at(s))(m),
            forall|s: int|
                0 <= s < i ==> #[trigger] board@.players[s] == was.after_roll(
                    number_rolled,
                ).players[s],
            forall|s: int|
                i <= s < was.players.len() ==> #[trigger] board@.players[s] == was.players[s],
        decreases was.players.len() - i,
    {
        let ghost before = board@;
        board.players[i].resources.credit_each(&payouts[i]);
        proof {
            let gains = payouts@[i as int];
            assert(gains.count(MaterialType::Wheat) == production(
                was,
                number_rolled,
                player_at(i as int),
            )(MaterialType::Wheat));
            assert(gains.count(MaterialType::Brick) == production(
                was,
                number_rolled,
                player_at(i as int),
            )(MaterialType::Brick));
            assert(gains.count(MaterialType::Stone) == production(
                was,
                number_rolled,
                player_at(i as int),
            )(MaterialType::Stone));
            assert(gains.count(MaterialType::Sheep) == production(
                was,
                number_rolled,
                player_at(i as int),
            )(MaterialType::Sheep));
            assert(gains.count(MaterialType::Wood) == production(
                was,
                number_rolled,
                player_at(i as int),
            )(MaterialType::Wood));
            assert forall|s: int| 0 <= s < was.players.len() && s != i implies
                #[trigger] board@.players[s] == before.players[s] by {}
            let held = was.players[i as int].resources;
            assert(before.players[i as int] == was.players[i as int]);
            assert(board@.players[i as int].resources == held.plus_each(
                |m: MaterialType| gains.count(m),
            ));
            assert(held.plus_each(|m: MaterialType| gains.count(m)) == held.plus_each(
                production(was, number_rolled, player_at(i as int)),
            ));
            assert(board@.players[i as int] == was.after_roll(number_rolled).players[i as int]);
        }
        i += 1;
    }
    proof {
        assert(board@.players =~= was.after_roll(number_rolled).players);
        lemma_same_standing_wf(was, board@);
    }
}

impl BoardView {
    /// Whether a tile that holds `m` has vertex `v` as a corner.
    pub open spec fn borders(self, v: VertexId, m: MaterialType) -> bool {
        exists|t: TileId|
            t < TILE_COUNT && on_tile(t, v) && (#[trigger] self.tiles[t as int]).material == m
    }

    /// What a second founding settlement at vertex `v` brings: one card of
    /// each material that a tile round `v` holds.
    pub open spec fn starting_gain(self, v: VertexId) -> spec_fn(MaterialType) -> int {
        |m: MaterialType|
            if self.borders(v, m) {
                1int
            } else {
                0int
            }
    }

    /// Why `p` cannot be given starting resources for vertex `v`, or nothing
    /// if `p` can: the vertex exists and the player is seated.
    pub open spec fn start_error(self, p: PlayerType, v: VertexId) -> Option<GameError> {
        if v >= VERTEX_COUNT {
            Some(GameError::InvalidPosition)
        } else if !self.seated(p) {
            Some(GameError::PlayerNotFound)
        } else {
            None
        }
    }

    /// The board after `p` has been given the starting resources for vertex
    /// `v`.
    pub open spec fn after_start(self, p: PlayerType, v: VertexId) -> BoardView {
        self.with_resources(p, self.player(p).resources.plus_each(self.starting_gain(v)))
    }
}

/// One card of each material that a tile round vertex `position` holds.
fn starting_gains(board: &Board, position: VertexId) -> (gains: Resources)
    requires
        board@.topology_ok(),
        position < VERTEX_COUNT,
    ensures
        forall|m: MaterialType|
            m != MaterialType::Dessert ==> #[trigger] gains.count(m) == board@.starting_gain(
                position,
            )(m),
{
    let ghost b = board@;
    let mut gains: Resources = Resources::none();
    let adjacent: &Vec<TileId> = &board.vertices[position].adjacent_tiles;
    let mut j: usize = 0;
    while j < adjacent.len()
        invariant
            j <= adjacent@.len(),
            b == board@,
            b.topology_ok(),
            position < VERTEX_COUNT,
            adjacent@ == tiles_at(position),
            forall|m: MaterialType|
                m != MaterialType::Dessert ==> #[trigger] gains.count(m) == if exists|i: int|
                    0 <= i < j && b.tiles[adjacent@[i] as int].material == m {
                    1int
                } else {
                    0int
                },
        decreases adjacent@.len() - j,
    {
        let tile_id: TileId = adjacent[j];
        proof {
            lemma_tiles_at(position);
        }
        let material: MaterialType = board.tiles[tile_id].material;
        let ghost before = gains;
        if material != MaterialType::Dessert {
            gains.set(material, 1);
        }
        proof {
            assert forall|m: MaterialType| m != MaterialType::Dessert implies
                #[trigger] gains.count(m) == if exists|i: int|
                0 <= i < j + 1 && b.tiles[adjacent@[i] as int].material == m {
                1int
            } else {
                0int
            } by {
                if m == material {
                    assert(b.tiles[adjacent@[j as int] as int].material == m);
                } else {
                    assert(gains.count(m) == before.count(m));
                    if exists|i: int| 0 <= i < j + 1 && b.tiles[adjacent@[i] as int].material == m {
                        let i = choose|i: int|
                            0 <= i < j + 1 && b.tiles[adjacent@[i] as int].material == m;
                        assert(i < j);
                    }
                }
            }
        }
        j += 1;
    }
    proof {
        lemma_tiles_at(position);
        assert forall|m: MaterialType| m != MaterialType::Dessert implies #[trigger] gains.count(m)
            == b.starting_gain(position)(m) by {
            if b.borders(position, m) {
                let t = choose|t: TileId|
                    t < TILE_COUNT && on_tile(t, position) && (
                    #[trigger] b.tiles[t as int]).material == m;
                let i = choose|i: int| 0 <= i < adjacent@.len() && adjacent@[i] == t;
                assert(b.tiles[adjacent@[i] as int].material == m);
            }
            if exists|i: int| 0 <= i < j && b.tiles[adjacent@[i] as int].material == m {
                let i = choose|i: int| 0 <= i < j && b.tiles[adjacent@[i] as int].material == m;
                let t = tiles_at(position)[i];
                assert(t < TILE_COUNT && on_tile(t, position) && b.tiles[t as int].material == m);
            }
        }
    }
    gains
}

/// Gives `player_id` the resources for a second founding settlement at
/// vertex `settlement_pos`: one card of each material, the desert apart, that
/// a tile round the vertex holds. Where the vertex does not exist or the
/// player is not seated, the board stays as it is and the error says which.
pub fn give_starting_resources(
    board: &mut Board,
    player_id: PlayerType,
    settlement_pos: VertexId,
) -> (given: Result<(), GameError>)
    requires
        old(board)@.wf(),
    ensures
        final(board)@.wf(),
        match given {
            Ok(_) => {
                &&& old(board)@.start_error(player_id, settlement_pos) is None
                &&& final(board)@ == old(board)@.after_start(player_id, settlement_pos)
            },
            Err(e) => {
                &&& old(board)@.start_error(player_id, settlement_pos) == Some(e)
                &&& *final(board) == *old(board)
            },
        },
{
    if settlement_pos >= board.vertices.len() {
        return Err(GameError::InvalidPosition);
    }
    let resources_to_gain: Resources = starting_gains(board, settlement_pos);
    let seat: usize = match board.seat_of(player_id) {
        Some(index) => index,
        None => {
            return Err(GameError::PlayerNotFound);
        },
    };
    board.players[seat].resources.credit_each(&resources_to_gain);
    proof {
        let was = old(board)@;
        let goal = was.after_start(player_id, settlement_pos);
        let held = was.player(player_id).resources;
        let gain = was.starting_gain(settlement_pos);
        assert(resources_to_gain.count(MaterialType::Wheat) == gain(MaterialType::Wheat));
        assert(resources_to_gain.count(MaterialType::Brick) == gain(MaterialType::Brick));
        assert(resources_to_gain.count(MaterialType::Stone) == gain(MaterialType::Stone));
        assert(resources_to_gain.count(MaterialType::Sheep) == gain(MaterialType::Sheep));
        assert(resources_to_gain.count(MaterialType::Wood) == gain(MaterialType::Wood));
        assert(held.plus_each(|m: MaterialType| resources_to_gain.count(m)) == held.plus_each(
            gain,
        ));
        assert(board@.players =~= goal.players);
        lemma_same_standing_wf(was, board@);
    }
    Ok(())
}

/// `rand::Rng::random_range` over the numbers from `low` to `high`, with the
/// generator of the thread, `rand::rng()`. The number drawn lies between the
/// two, both included; nothing is claimed of which it is. The range must not
/// be empty: the outside function panics on an empty range.
#[verifier::external_body]
fn random_between(low: u8, high: u8) -> (drawn: u8)
    requires
        low <= high,
    ensures
        low <= drawn <= high,
{
    rand::Rng::random_range(&mut rand::rng(), low..=high)
}

/// The total of the dice on which no tile produces and the robber moves.
pub const ROBBER_ROLL: u8 = 7;

/// Whether a total of `total` moves the robber instead of making the tiles
/// produce.
pub fn moves_robber(total: u8) -> (moves: bool)
    ensures
        moves == (total == ROBBER_ROLL),
{
    total == ROBBER_ROLL
}

/// The total of two dice.
pub fn roll_dice() -> (total: u8)
    ensures
        2 <= total <= 12,
{
    let die1: u8 = random_between(1, 6);
    let die2: u8 = random_between(1, 6);
    die1 + die2
}

} // verus!
