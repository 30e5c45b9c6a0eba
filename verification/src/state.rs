//! What holds of every board between two actions.

use vstd::prelude::*;
use crate::BoardView;
use crate::counting::{count, is_item, lemma_count_bounds};
use crate::topology::{
    edge_ends, edges_at, port_at, tile_corners, tiles_at, EDGE_COUNT, TILE_COUNT, VERTEX_COUNT,
};
use crate::types::{
    player_at, BuildingType, DevelopmentCard, Edge, PlayerType, PlayerView, Tile, Vertex,
};

verus! {

/// The number of development cards in a game.
pub const DECK_SIZE: usize = 27;

/// The victory points at which a player has won.
pub const WINNING_POINTS: u8 = 10;

/// Vertices on which `p` has a building of kind `kind`.
pub open spec fn is_building_of(p: PlayerType, kind: BuildingType) -> spec_fn(Vertex) -> bool {
    |v: Vertex| v.owner == Some(p) && v.building == Some(kind)
}

/// Edges on which `p` has a road.
pub open spec fn is_road_of(p: PlayerType) -> spec_fn(Edge) -> bool {
    |e: Edge| e.owner == Some(p)
}

/// The two points that a bonus is worth to its holder.
pub open spec fn bonus_points(holder: Option<PlayerType>, p: PlayerType) -> int {
    if holder == Some(p) {
        2
    } else {
        0
    }
}

/// Whether the robber stands on tile `t` of `tiles`.
pub open spec fn robber_among(tiles: Seq<Tile>, t: int) -> bool {
    0 <= t < tiles.len() && tiles[t].has_robber
}

/// A tile of `tiles` on which the robber stands.
pub open spec fn robber_place(tiles: Seq<Tile>) -> int {
    choose|t: int| robber_among(tiles, t)
}

impl BoardView {
    /// Whether `p` has sat down at this board.
    pub open spec fn seated(self, p: PlayerType) -> bool {
        p.seat() < self.players.len()
    }

    /// The state of player `p`, who is seated.
    pub open spec fn player(self, p: PlayerType) -> PlayerView
        recommends
            self.seated(p),
    {
        self.players[p.seat()]
    }

    /// The number of settlements that `p` has on the board.
    pub open spec fn settlements_of(self, p: PlayerType) -> int {
        count(self.vertices, is_building_of(p, BuildingType::Settlement))
    }

    /// The number of cities that `p` has on the board.
    pub open spec fn cities_of(self, p: PlayerType) -> int {
        count(self.vertices, is_building_of(p, BuildingType::City))
    }

    /// The number of roads that `p` has on the board.
    pub open spec fn roads_of(self, p: PlayerType) -> int {
        count(self.edges, is_road_of(p))
    }

    /// The graph is the fixed one: every vertex, edge and tile knows its
    /// neighbours as the tables of the topology give them.
    pub open spec fn topology_ok(self) -> bool {
        &&& self.vertices.len() == VERTEX_COUNT
        &&& self.edges.len() == EDGE_COUNT
        &&& self.tiles.len() == TILE_COUNT
        &&& forall|v: int|
            0 <= v < VERTEX_COUNT ==> {
                &&& (#[trigger] self.vertices[v]).adjacent_edges@ == edges_at(v as usize)
                &&& self.vertices[v].adjacent_tiles@ == tiles_at(v as usize)
                &&& self.vertices[v].power_up == port_at(v as usize)
            }
        &&& forall|e: int|
            0 <= e < EDGE_COUNT ==> (#[trigger] self.edges[e]).vertices == edge_ends(e as usize)
        &&& forall|t: int|
            0 <= t < TILE_COUNT ==> (#[trigger] self.tiles[t]).vertices@ == tile_corners(
                t as usize,
            )
    }

    /// Whether the robber stands on tile `t`.
    pub open spec fn robber_on(self, t: int) -> bool {
        robber_among(self.tiles, t)
    }

    /// The tile on which the robber stands.
    pub open spec fn robber_tile(self) -> int {
        robber_place(self.tiles)
    }

    /// Exactly one tile has the robber.
    pub open spec fn one_robber(self) -> bool {
        &&& self.robber_on(self.robber_tile())
        &&& forall|t: int|
            0 <= t < self.tiles.len() && (#[trigger] self.tiles[t]).has_robber ==> t
                == self.robber_tile()
    }

    /// The victory points that `p` is owed: one for each settlement on the
    /// board, two for each city, two for each bonus held and one for each
    /// victory point card in hand.
    pub open spec fn points_due(self, p: PlayerType) -> int
        recommends
            self.seated(p),
    {
        (5 - self.player(p).settlement_quantity) + 2 * (4 - self.player(p).city_quantity)
            + bonus_points(self.longest_road, p) + bonus_points(self.largest_army, p) + count(
            self.player(p).dev_cards,
            is_item(DevelopmentCard::VictoryPoint),
        )
    }

    /// The player in seat `i` is who the seat says, the pieces in supply and
    /// on the board add up to 5 settlements, 4 cities and 15 roads, no port is
    /// listed twice, the cards played, held and still to be drawn are no more
    /// than a deck, and the victory points are those that are due.
    pub open spec fn player_ok(self, i: int) -> bool
        recommends
            0 <= i < self.players.len(),
    {
        let p = player_at(i);
        let pl = self.players[i];
        &&& pl.id == p
        &&& pl.settlement_quantity + self.settlements_of(p) == 5
        &&& pl.city_quantity + self.cities_of(p) == 4
        &&& pl.road_quantity + self.roads_of(p) == 15
        &&& pl.power_ups.no_duplicates()
        &&& pl.knights_played + pl.dev_cards.len() + self.development_cards.len() <= DECK_SIZE
        &&& pl.victory_points == self.points_due(p)
    }

    /// A vertex has a building exactly if it has an owner, and only seated
    /// players own vertices and edges.
    pub open spec fn ownership_ok(self) -> bool {
        &&& forall|v: int|
            0 <= v < self.vertices.len() ==> {
                &&& (#[trigger] self.vertices[v]).owner is Some
                    <==> self.vertices[v].building is Some
                &&& self.vertices[v].owner is Some ==> self.seated(self.vertices[v].owner->0)
            }
        &&& forall|e: int|
            0 <= e < self.edges.len() && (#[trigger] self.edges[e]).owner is Some
                ==> self.seated(self.edges[e].owner->0)
    }

    /// A bonus that nobody holds asks for more than 2 knights or 4 roads; one
    /// that is held is held by a seated player, with at least 3 knights, which
    /// that player has played, or at least 5 roads.
    pub open spec fn bonuses_ok(self) -> bool {
        &&& match self.largest_army {
            Some(p) => self.seated(p) && 3 <= self.largest_army_size
                <= self.player(p).knights_played,
            None => self.largest_army_size == 2,
        }
        &&& match self.longest_road {
            Some(p) => self.seated(p) && 5 <= self.longest_road_size,
            None => self.longest_road_size == 4,
        }
    }

    /// What holds of a board between two actions.
    pub open spec fn wf(self) -> bool {
        &&& self.topology_ok()
        &&& self.one_robber()
        &&& self.players.len() <= 4
        &&& self.development_cards.len() <= DECK_SIZE
        &&& forall|i: int| 0 <= i < self.players.len() ==> #[trigger] self.player_ok(i)
        &&& self.ownership_ok()
        &&& self.bonuses_ok()
    }
}

/// Two states of a player that differ at most in the resources held and in
/// whether a development card was played this turn.
pub open spec fn same_standing(a: PlayerView, b: PlayerView) -> bool {
    &&& a.id == b.id
    &&& a.settlement_quantity == b.settlement_quantity
    &&& a.city_quantity == b.city_quantity
    &&& a.road_quantity == b.road_quantity
    &&& a.power_ups == b.power_ups
    &&& a.victory_points == b.victory_points
    &&& a.dev_cards == b.dev_cards
    &&& a.knights_played == b.knights_played
}

/// A board stays well-formed when only resources change hands, turn flags
/// change and the robber moves to another tile.
pub proof fn lemma_same_standing_wf(b: BoardView, now: BoardView)
    requires
        b.wf(),
        now.vertices == b.vertices,
        now.edges == b.edges,
        now.development_cards == b.development_cards,
        now.largest_army == b.largest_army,
        now.largest_army_size == b.largest_army_size,
        now.longest_road == b.longest_road,
        now.longest_road_size == b.longest_road_size,
        now.players.len() == b.players.len(),
        forall|i: int|
            0 <= i < b.players.len() ==> same_standing(#[trigger] now.players[i], b.players[i]),
        now.tiles == b.tiles || (now.tiles.len() == b.tiles.len() && now.one_robber() && forall|
            t: int,
        |
            0 <= t < b.tiles.len() ==> (#[trigger] now.tiles[t]).vertices == b.tiles[t].vertices),
    ensures
        now.wf(),
{
    assert forall|i: int| 0 <= i < now.players.len() implies #[trigger] now.player_ok(i) by {
        assert(b.player_ok(i));
        assert(same_standing(now.players[i], b.players[i]));
        assert(player_at(i).seat() == i);
    }
    if let Some(p) = b.largest_army {
        assert(same_standing(now.players[p.seat()], b.players[p.seat()]));
    }
}

/// A player has at least the victory points of the bonuses held and at most
/// 40 more: 5 settlements, 4 cities and a deck of cards cannot give more.
pub proof fn lemma_points_bound(b: BoardView, p: PlayerType)
    requires
        b.wf(),
        b.seated(p),
    ensures
        bonus_points(b.longest_road, p) + bonus_points(b.largest_army, p) <= b.points_due(p) <= 40
            + bonus_points(b.longest_road, p) + bonus_points(b.largest_army, p),
        b.player(p).victory_points == b.points_due(p),
        b.player(p).settlement_quantity <= 5,
        b.player(p).city_quantity <= 4,
        b.player(p).road_quantity <= 15,
{
    assert(b.player_ok(p.seat()));
    let cards = b.player(p).dev_cards;
    lemma_count_bounds(cards, is_item(DevelopmentCard::VictoryPoint), cards.len() as int);
    lemma_count_bounds(
        b.vertices,
        is_building_of(p, BuildingType::Settlement),
        b.vertices.len() as int,
    );
    lemma_count_bounds(b.vertices, is_building_of(p, BuildingType::City), b.vertices.len() as int);
    lemma_count_bounds(b.edges, is_road_of(p), b.edges.len() as int);
}

} // verus!
