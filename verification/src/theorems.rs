//! What the rules add up to: statements that hold of every well-formed board,
//! proved from the contracts of the actions.

use vstd::prelude::*;
use crate::counting::{count, is_item};
use crate::state::{bonus_points, lemma_points_bound, DECK_SIZE, WINNING_POINTS};
use crate::topology::{
    edge_ends, every_vertex_has_one_to_three_tiles, every_vertex_has_two_or_three_edges, far_end,
    lemma_edge_ends, lemma_edges_at, lemma_tile_corner, lemma_tiles_at, on_tile, tile_corner,
    touches, EDGE_COUNT, TILE_COUNT, VERTEX_COUNT,
};
use crate::types::{
    BuildingType, DevelopmentCard, EdgeId, GameError, MaterialType, PlayerType, TileId, TurnPhase,
    VertexId,
};
use crate::victory::winner_from;
use crate::BoardView;

verus! {

/// The graph of a board is the fixed one: 54 vertices, 72 edges, 19 tiles;
/// every vertex lists the two or three edges that end at it and the one to
/// three tiles of which it is a corner, and no others.
pub proof fn graph_is_the_fixed_one(b: BoardView, v: VertexId, e: EdgeId, t: TileId)
    requires
        b.wf(),
        v < VERTEX_COUNT,
    ensures
        b.vertices.len() == 54,
        b.edges.len() == 72,
        b.tiles.len() == 19,
        2 <= b.vertices[v as int].adjacent_edges@.len() <= 3,
        1 <= b.vertices[v as int].adjacent_tiles@.len() <= 3,
        b.vertices[v as int].adjacent_edges@.no_duplicates(),
        b.vertices[v as int].adjacent_edges@.contains(e) <==> e < EDGE_COUNT && (
        b.edges[e as int].vertices.0 == v || b.edges[e as int].vertices.1 == v),
        b.vertices[v as int].adjacent_tiles@.contains(t) <==> t < TILE_COUNT
            && b.tiles[t as int].vertices@.contains(v),
{
    every_vertex_has_two_or_three_edges(v);
    every_vertex_has_one_to_three_tiles(v);
    lemma_edges_at(v);
    lemma_tiles_at(v);
    let edges = b.vertices[v as int].adjacent_edges@;
    if edges.contains(e) {
        let j = choose|j: int| 0 <= j < edges.len() && edges[j] == e;
        assert(edges[j] < EDGE_COUNT && touches(edges[j], v));
    }
    if e < EDGE_COUNT {
        assert(b.edges[e as int].vertices == edge_ends(e));
        if touches(e, v) {
            assert(crate::topology::edges_at(v).contains(e));
        }
    }
    let tiles = b.vertices[v as int].adjacent_tiles@;
    if tiles.contains(t) {
        let j = choose|j: int| 0 <= j < tiles.len() && tiles[j] == t;
        assert(tiles[j] < TILE_COUNT && on_tile(tiles[j], v));
    }
    if t < TILE_COUNT {
        let corners = b.tiles[t as int].vertices@;
        if on_tile(t, v) {
            let k = choose|k: int| 0 <= k < 6 && #[trigger] tile_corner(t, k) == v;
            assert(corners[k] == v);
            assert(crate::topology::tiles_at(v).contains(t));
        }
        if corners.contains(v) {
            let k = choose|k: int| 0 <= k < corners.len() && corners[k] == v;
            assert(tile_corner(t, k) == v);
        }
    }
}

/// Every edge joins two different vertices of the board, and every corner of
/// a tile is a vertex of the board.
pub proof fn edges_and_tiles_stay_on_the_board(b: BoardView, e: EdgeId, t: TileId, k: int)
    requires
        b.wf(),
        e < EDGE_COUNT,
        t < TILE_COUNT,
        0 <= k < 6,
    ensures
        b.edges[e as int].vertices.0 < b.edges[e as int].vertices.1 < VERTEX_COUNT,
        b.tiles[t as int].vertices@[k] < VERTEX_COUNT,
{
    lemma_edge_ends(e);
    lemma_tile_corner(t, k);
    assert(b.edges[e as int].vertices == edge_ends(e));
}

/// A vertex has a building exactly if it has an owner.
pub proof fn buildings_have_owners(b: BoardView, v: VertexId)
    requires
        b.wf(),
        v < VERTEX_COUNT,
    ensures
        b.vertices[v as int].building is Some <==> b.vertices[v as int].owner is Some,
        b.vertices[v as int].owner matches Some(p) ==> b.seated(p),
{
}

/// The pieces of a player in the supply and on the board add up: 5
/// settlements, 4 cities, 15 roads.
pub proof fn pieces_add_up(b: BoardView, p: PlayerType)
    requires
        b.wf(),
        b.seated(p),
    ensures
        b.player(p).settlement_quantity + b.settlements_of(p) == 5,
        b.player(p).city_quantity + b.cities_of(p) == 4,
        b.player(p).road_quantity + b.roads_of(p) == 15,
        0 <= b.settlements_of(p) <= 5,
        0 <= b.cities_of(p) <= 4,
        0 <= b.roads_of(p) <= 15,
{
    assert(b.player_ok(p.seat()));
    assert(crate::types::player_at(p.seat()) == p);
    lemma_points_bound(b, p);
}

/// The victory points of a player are those earned: one for each settlement
/// on the board, two for each city, two for each bonus held, and one for each
/// victory point card in hand.
pub proof fn victory_points_are_earned(b: BoardView, p: PlayerType)
    requires
        b.wf(),
        b.seated(p),
    ensures
        b.player(p).victory_points == b.settlements_of(p) + 2 * b.cities_of(p) + bonus_points(
            b.longest_road,
            p,
        ) + bonus_points(b.largest_army, p) + count(
            b.player(p).dev_cards,
            is_item(DevelopmentCard::VictoryPoint),
        ),
        b.player(p).knights_played + b.player(p).dev_cards.len() + b.development_cards.len()
            <= DECK_SIZE,
{
    assert(b.player_ok(p.seat()));
    assert(crate::types::player_at(p.seat()) == p);
}

/// The winner is the first player, in the order of the seats, who has 10
/// victory points or more; there is none where nobody has.
pub proof fn winner_is_first_with_ten_points(b: BoardView)
    requires
        b.wf(),
    ensures
        match b.winner() {
            Some(p) => {
                &&& b.seated(p)
                &&& b.player(p).victory_points >= WINNING_POINTS
                &&& forall|i: int| 0 <= i < p.seat() ==> b.players[i].victory_points < WINNING_POINTS
            },
            None => forall|i: int|
                0 <= i < b.players.len() ==> b.players[i].victory_points < WINNING_POINTS,
        },
{
    lemma_winner_from(b, 0);
}

/// `winner_from` finds the first seat from `from` on with 10 points or more.
proof fn lemma_winner_from(b: BoardView, from: int)
    requires
        b.wf(),
        0 <= from <= b.players.len(),
    ensures
        match winner_from(b.players, from) {
            Some(p) => {
                &&& from <= p.seat() < b.players.len()
                &&& b.player(p).victory_points >= WINNING_POINTS
                &&& forall|i: int|
                    from <= i < p.seat() ==> b.players[i].victory_points < WINNING_POINTS
            },
            None => forall|i: int|
                from <= i < b.players.len() ==> b.players[i].victory_points < WINNING_POINTS,
        },
    decreases b.players.len() - from,
{
    if from < b.players.len() {
        assert(b.player_ok(from));
        assert(crate::types::player_at(from).seat() == from);
        if b.players[from].victory_points < WINNING_POINTS {
            lemma_winner_from(b, from + 1);
        }
    }
}

/// The robber stands on one tile, and on no other.
pub proof fn robber_stands_on_one_tile(b: BoardView, t: TileId)
    requires
        b.wf(),
        t < b.tiles.len(),
    ensures
        b.robber_tile() < b.tiles.len(),
        b.tiles[b.robber_tile()].has_robber,
        b.tiles[t as int].has_robber <==> t == b.robber_tile(),
{
}

/// After a move of the robber that is allowed, the robber stands on the tile
/// it was moved to, and on no other, whatever was taken.
pub proof fn robber_stands_where_moved(
    b: BoardView,
    mover: PlayerType,
    t: TileId,
    victim: PlayerType,
    loot: Option<MaterialType>,
    other: TileId,
)
    requires
        b.wf(),
        b.robber_error(mover, t, victim) is None,
        other < b.tiles.len(),
    ensures
        b.robbed(mover, t, victim, loot).wf(),
        b.robbed(mover, t, victim, loot).tiles[other as int].has_robber <==> other == t,
{
    crate::economy::lemma_robbed_wf(b, mover, t, victim, loot);
    let now = b.robbed(mover, t, victim, loot);
    assert(now.tiles =~= b.robber_moved(t));
}

/// No settlement may be placed next to a vertex that is built on: where an
/// edge joins `v` to a vertex with an owner, placing at `v` is rejected, in a
/// founding turn as in any other.
pub proof fn no_settlement_next_to_a_building(
    b: BoardView,
    p: PlayerType,
    v: VertexId,
    founding: bool,
    e: EdgeId,
)
    requires
        b.wf(),
        v < VERTEX_COUNT,
        e < EDGE_COUNT,
        touches(e, v),
        b.vertices[far_end(e, v) as int].owner is Some,
    ensures
        b.settle_error(p, v, founding) == Some(GameError::OccupiedPosition) || b.settle_error(
            p,
            v,
            founding,
        ) == Some(GameError::DistanceRuleViolation),
{
}

/// No settlement may be placed on a vertex that has an owner: placing there
/// is rejected as occupied, whoever tries, in whatever turn, and however
/// often.
pub proof fn no_settlement_on_an_owned_vertex(
    b: BoardView,
    p: PlayerType,
    v: VertexId,
    founding: bool,
)
    requires
        b.wf(),
        v < VERTEX_COUNT,
        b.vertices[v as int].owner is Some,
    ensures
        b.settle_error(p, v, founding) == Some(GameError::OccupiedPosition),
{
}

/// No settlement may be placed twice on one vertex: after a settlement has
/// been placed at `v`, placing there is rejected as occupied, whoever tries
/// and in whatever turn.
pub proof fn no_second_settlement_on_a_vertex(
    b: BoardView,
    p: PlayerType,
    v: VertexId,
    founding: bool,
    next: PlayerType,
    next_founding: bool,
)
    requires
        b.wf(),
        b.settle_error(p, v, founding) is None,
    ensures
        b.settled(p, v, founding).settle_error(next, v, next_founding) == Some(
            GameError::OccupiedPosition,
        ),
{
}

/// A city stands where a settlement of the same player stood, and is worth a
/// victory point more.
pub proof fn city_replaces_a_settlement(b: BoardView, p: PlayerType, v: VertexId)
    requires
        b.wf(),
        b.upgrade_error(p, v) is None,
    ensures
        b.vertices[v as int].owner == Some(p),
        b.vertices[v as int].building == Some(BuildingType::Settlement),
        b.upgraded(p, v).vertices[v as int].owner == Some(p),
        b.upgraded(p, v).vertices[v as int].building == Some(BuildingType::City),
        b.upgraded(p, v).player(p).victory_points == b.player(p).victory_points + 1,
        b.upgraded(p, v).player(p).settlement_quantity == b.player(p).settlement_quantity + 1,
        b.upgraded(p, v).player(p).city_quantity == b.player(p).city_quantity - 1,
{
    lemma_points_bound(b, p);
    crate::counting::lemma_count_positive(
        b.vertices,
        crate::state::is_building_of(p, BuildingType::Settlement),
        v as int,
    );
    assert(b.player_ok(p.seat()));
    assert(crate::types::player_at(p.seat()) == p);
}

/// A road stays with its owner: placing a road changes the owner of no edge
/// but the one it is placed on, which had none.
pub proof fn roads_stay_with_their_owners(
    b: BoardView,
    p: PlayerType,
    e: EdgeId,
    phase: TurnPhase,
    other: EdgeId,
)
    requires
        b.wf(),
        b.road_error(p, e, phase) is None,
        other < EDGE_COUNT,
    ensures
        b.edges[e as int].owner is None,
        b.road_laid(p, e, phase).edges[e as int].owner == Some(p),
        other != e ==> b.road_laid(p, e, phase).edges[other as int] == b.edges[other as int],
        b.road_laid(p, e, phase).after_road_check(p).edges == b.road_laid(p, e, phase).edges,
{
}

/// A player without ports trades with the bank at four for one: a trade of
/// one resource for another is allowed exactly if the player holds 4 cards of
/// what is given, and it takes exactly 4 of them and brings exactly 1 card of
/// what is asked for, unless the hand is full of that; nothing else changes
/// hands.
pub proof fn bank_trades_four_for_one_without_ports(
    b: BoardView,
    p: PlayerType,
    give: MaterialType,
    get: MaterialType,
    other: MaterialType,
)
    requires
        b.wf(),
        b.seated(p),
        b.player(p).power_ups.len() == 0,
        give != get,
        give != MaterialType::Dessert,
        get != MaterialType::Dessert,
        b.player(p).resources.count(get) < 255,
        other != give,
        other != get,
    ensures
        b.trade_error(p, give, get) is None <==> b.player(p).resources.count(give) >= 4,
        b.player(p).resources.count(give) >= 4 ==> {
            let after = b.traded(p, give, get).player(p).resources;
            &&& after.count(give) == b.player(p).resources.count(give) - 4
            &&& after.count(get) == b.player(p).resources.count(get) + 1
            &&& after.count(other) == b.player(p).resources.count(other)
        },
{
}

/// A monopoly leaves no card of the material with any other player and gives
/// them all to the player of the card, unless that hand gets full.
pub proof fn monopoly_takes_every_card(
    b: BoardView,
    p: PlayerType,
    m: MaterialType,
    other: PlayerType,
)
    requires
        b.wf(),
        b.monopoly_error(p, m) is None,
        b.seated(other),
        other != p,
    ensures
        b.monopoly_played(p, m).player(other).resources.count(m) == 0,
        b.player(p).resources.count(m) + b.others_hold(p, m, b.players.len() as int) <= 255
            ==> b.monopoly_played(p, m).player(p).resources.count(m) == b.player(
            p,
        ).resources.count(m) + b.others_hold(p, m, b.players.len() as int),
{
    crate::development_cards::lemma_others_hold_bounds(b, p, m, b.players.len() as int);
}

/// A player whose roads reach 5 edges or more, and more than the bonus asks
/// for, takes the longest road, with two victory points, which the holder so
/// far loses.
pub proof fn longest_road_is_claimed(b: BoardView, p: PlayerType, n: nat)
    requires
        b.wf(),
        b.has_road_of_length(p, n),
        n >= 5,
        n > b.longest_road_size,
        b.longest_road != Some(p),
    ensures
        b.seated(p),
        b.after_road_check(p).longest_road == Some(p),
        b.after_road_check(p).longest_road_size == b.longest_road_of(p) >= n,
        b.after_road_check(p).player(p).victory_points == b.player(p).victory_points + 2,
        b.longest_road matches Some(h) ==> b.after_road_check(p).player(h).victory_points
            == b.player(h).victory_points - 2,
{
    crate::victory::lemma_longest_road_exists(b, p);
    crate::victory::lemma_road_owner_seated(b, p, n);
    lemma_points_bound(b, p);
    if let Some(h) = b.longest_road {
        lemma_points_bound(b, h);
    }
}

/// The holder of the longest road who builds on keeps it, and no victory
/// point moves: only the length that the bonus asks for may grow. So the two
/// points are given once.
pub proof fn longest_road_is_kept(b: BoardView, p: PlayerType)
    requires
        b.wf(),
        b.longest_road == Some(p),
    ensures
        b.after_road_check(p).longest_road == Some(p),
        b.after_road_check(p).players == b.players,
        b.after_road_check(p).longest_road_size >= b.longest_road_size,
        b.after_road_check(p).after_road_check(p) == b.after_road_check(p),
{
    crate::victory::lemma_longest_road_exists(b, p);
    crate::victory::lemma_longest_road_same_graph(b, b.after_road_check(p), p);
}

/// A tie does not move the longest road: a player whose longest road is no
/// longer than the bonus asks for changes nothing.
pub proof fn longest_road_tie_changes_nothing(b: BoardView, p: PlayerType)
    requires
        b.wf(),
        b.longest_road_of(p) <= b.longest_road_size,
    ensures
        b.after_road_check(p) == b,
{
}

/// No road is longer than the board has edges.
pub proof fn no_road_longer_than_the_board(b: BoardView, p: PlayerType)
    requires
        b.wf(),
    ensures
        b.longest_road_of(p) <= EDGE_COUNT,
{
    crate::victory::lemma_longest_road_exists(b, p);
}

/// A player who has played 3 knights or more, and more than the bonus asks
/// for, takes the largest army, with two victory points, which the holder so
/// far loses.
pub proof fn largest_army_is_claimed(b: BoardView, p: PlayerType)
    requires
        b.wf(),
        b.seated(p),
        b.player(p).knights_played >= 3,
        b.player(p).knights_played > b.largest_army_size,
        b.largest_army != Some(p),
    ensures
        b.after_army_check(p).largest_army == Some(p),
        b.after_army_check(p).largest_army_size == b.player(p).knights_played,
        b.after_army_check(p).player(p).victory_points == b.player(p).victory_points + 2,
        b.largest_army matches Some(h) ==> b.after_army_check(p).player(h).victory_points
            == b.player(h).victory_points - 2,
{
    lemma_points_bound(b, p);
    if let Some(h) = b.largest_army {
        lemma_points_bound(b, h);
    }
}

/// A player who has not played more knights than the bonus asks for changes
/// nothing: a tie does not move the largest army.
pub proof fn largest_army_tie_changes_nothing(b: BoardView, p: PlayerType)
    requires
        b.wf(),
        b.seated(p),
        b.player(p).knights_played <= b.largest_army_size,
    ensures
        b.after_army_check(p) == b,
{
}

} // verus!
