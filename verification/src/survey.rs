//! Reading a board: what a front end shows or offers to a player.

use vstd::prelude::*;
use crate::building::{is_road_adjacent_to_vertex, is_road_connectable};
use crate::counting::{count, count_below, is_item};
use crate::economy::{get_players_adjacent_to_tile, owners_below};
use crate::topology::{tile_corner, tile_corners, touches, EDGE_COUNT, TILE_COUNT};
use crate::types::{
    DevelopmentCard, EdgeId, MaterialType, PlayerType, Resources, TileId, TurnPhase, VertexId,
};
use crate::{Board, BoardView};

verus! {

impl BoardView {
    /// Whether edge `e` is open to a road of `p` under the rules of `phase`:
    /// the edge is free and the road would be connected.
    pub open spec fn road_offered(self, p: PlayerType, e: EdgeId, phase: TurnPhase) -> bool {
        e < EDGE_COUNT && self.edges[e as int].owner is None && self.road_connected(p, e, phase)
    }
}

/// The edges that are open to a road of `player_id` under the rules of
/// `phase`, in rising order: those that are free and where the road would be
/// connected. Pieces and price are not looked at.
pub fn buildable_roads(
    board: &Board,
    player_id: PlayerType,
    phase: TurnPhase,
) -> (roads: Vec<EdgeId>)
    requires
        board@.topology_ok(),
    ensures
        forall|e: EdgeId| roads@.contains(e) <==> board@.road_offered(player_id, e, phase),
        forall|i: int, j: int| 0 <= i < j < roads@.len() ==> roads@[i] < roads@[j],
{
    let mut roads: Vec<EdgeId> = Vec::new();
    let mut id: usize = 0;
    while id < EDGE_COUNT
        invariant
            id <= EDGE_COUNT,
            board@.topology_ok(),
            forall|e: EdgeId|
                roads@.contains(e) <==> e < id && board@.road_offered(player_id, e, phase),
            forall|i: int, j: int| 0 <= i < j < roads@.len() ==> roads@[i] < roads@[j],
            forall|i: int| 0 <= i < roads@.len() ==> roads@[i] < id,
        decreases EDGE_COUNT - id,
    {
        let ghost before = roads@;
        let mut offered: bool = false;
        if board.edges[id].owner.is_none() {
            offered = match phase {
                TurnPhase::Normal | TurnPhase::FreeRoad => is_road_connectable(
                    board,
                    player_id,
                    id,
                ),
                TurnPhase::Setup { anchor_vertex } => is_road_adjacent_to_vertex(
                    board,
                    id,
                    anchor_vertex,
                ),
            };
            if offered {
                roads.push(id);
            }
        }
        proof {
            assert forall|e: EdgeId| roads@.contains(e) <==> e < id + 1 && board@.road_offered(
                player_id,
                e,
                phase,
            ) by {
                if before.contains(e) {
                    let i = choose|i: int| 0 <= i < before.len() && before[i] == e;
                    assert(roads@[i] == e);
                }
                if offered && e == id {
                    assert(roads@[roads@.len() - 1] == e);
                }
                if roads@.contains(e) {
                    let i = choose|i: int| 0 <= i < roads@.len() && roads@[i] == e;
                    if i < before.len() {
                        assert(before[i] == e);
                    }
                }
            }
        }
        id += 1;
    }
    roads
}

/// The players whom `mover` can rob on tile `tile_id`: those who have built
/// on a corner of it, `mover` apart, each once and in the order of the
/// corners.
pub fn robbable_players(
    board: &Board,
    tile_id: TileId,
    mover: PlayerType,
) -> (players: Vec<PlayerType>)
    requires
        board@.topology_ok(),
        tile_id < TILE_COUNT,
    ensures
        players@ == owners_below(board@, tile_id, 6).filter(|p: PlayerType| p != mover),
        forall|p: PlayerType|
            players@.contains(p) <==> p != mover && board@.built_on_tile(p, tile_id),
{
    let adjacent_players: Vec<PlayerType> = get_players_adjacent_to_tile(board, tile_id);
    let ghost keep = |p: PlayerType| p != mover;
    let mut players: Vec<PlayerType> = Vec::new();
    let mut i: usize = 0;
    proof {
        adjacent_players@.take(0).lemma_filter_len(keep);
        assert(adjacent_players@.take(0).filter(keep) =~= Seq::empty());
    }
    while i < adjacent_players.len()
        invariant
            i <= adjacent_players@.len(),
            keep == (|p: PlayerType| p != mover),
            players@ == adjacent_players@.take(i as int).filter(keep),
            forall|p: PlayerType|
                players@.contains(p) <==> p != mover && adjacent_players@.take(i as int).contains(
                    p,
                ),
        decreases adjacent_players@.len() - i,
    {
        let candidate: PlayerType = adjacent_players[i];
        let ghost before = players@;
        let ghost shorter = adjacent_players@.take(i as int);
        let ghost longer = adjacent_players@.take(i + 1);
        proof {
            assert(longer =~= shorter.push(candidate));
            shorter.lemma_filter_push(candidate, keep);
        }
        if candidate != mover {
            players.push(candidate);
        }
        proof {
            assert forall|p: PlayerType|
                players@.contains(p) <==> p != mover && longer.contains(p) by {
                if before.contains(p) {
                    let j = choose|j: int| 0 <= j < before.len() && before[j] == p;
                    assert(players@[j] == p);
                }
                if shorter.contains(p) {
                    let j = choose|j: int| 0 <= j < shorter.len() && shorter[j] == p;
                    assert(longer[j] == p);
                }
                if p == candidate {
                    assert(longer[i as int] == p);
                    if p != mover {
                        assert(players@[players@.len() - 1] == p);
                    }
                }
                if players@.contains(p) {
                    let j = choose|j: int| 0 <= j < players@.len() && players@[j] == p;
                    if j < before.len() {
                        assert(before[j] == p);
                    }
                }
                if longer.contains(p) {
                    let j = choose|j: int| 0 <= j < longer.len() && longer[j] == p;
                    if j < shorter.len() {
                        assert(shorter[j] == p);
                    }
                }
            }
        }
        i += 1;
    }
    proof {
        assert(adjacent_players@.take(i as int) =~= adjacent_players@);
    }
    players
}

/// The first tile, and the first corner of it, at which vertex `vertex_id`
/// lies; nothing where it lies on no tile.
pub fn find_tile_and_corner_for_vertex(
    board: &Board,
    vertex_id: VertexId,
) -> (found: Option<(TileId, usize)>)
    requires
        board@.topology_ok(),
    ensures
        match found {
            Some((t, c)) => {
                &&& t < TILE_COUNT
                &&& c < 6
                &&& tile_corner(t, c as int) == vertex_id
                &&& forall|u: TileId, k: int|
                    0 <= k < 6 && (u < t || (u == t && k < c)) ==> tile_corner(u, k) != vertex_id
            },
            None => forall|u: TileId, k: int|
                u < TILE_COUNT && 0 <= k < 6 ==> tile_corner(u, k) != vertex_id,
        },
{
    let mut ti: usize = 0;
    while ti < TILE_COUNT
        invariant
            ti <= TILE_COUNT,
            board@.topology_ok(),
            forall|u: TileId, k: int| u < ti && 0 <= k < 6 ==> tile_corner(u, k) != vertex_id,
        decreases TILE_COUNT - ti,
    {
        let corners: [VertexId; 6] = board.tiles[ti].vertices;
        let mut ci: usize = 0;
        while ci < 6
            invariant
                ci <= 6,
                ti < TILE_COUNT,
                corners@ == tile_corners(ti),
                forall|u: TileId, k: int| u < ti && 0 <= k < 6 ==> tile_corner(u, k) != vertex_id,
                forall|k: int| 0 <= k < ci ==> tile_corner(ti, k) != vertex_id,
            decreases 6 - ci,
        {
            if corners[ci] == vertex_id {
                return Some((ti, ci));
            }
            ci += 1;
        }
        ti += 1;
    }
    None
}

/// The first free edge that ends at vertex `vertex_id`; nothing where every
/// edge there has a road.
pub fn first_free_edge_adjacent_to(board: &Board, vertex_id: VertexId) -> (found: Option<EdgeId>)
    requires
        board@.topology_ok(),
    ensures
        match found {
            Some(e) => {
                &&& e < EDGE_COUNT
                &&& touches(e, vertex_id)
                &&& board@.edges[e as int].owner is None
                &&& forall|o: EdgeId|
                    o < e && touches(o, vertex_id) ==> board@.edges[o as int].owner is Some
            },
            None => forall|o: EdgeId|
                o < EDGE_COUNT && touches(o, vertex_id) ==> board@.edges[o as int].owner is Some,
        },
{
    let mut i: usize = 0;
    while i < EDGE_COUNT
        invariant
            i <= EDGE_COUNT,
            board@.topology_ok(),
            forall|o: EdgeId|
                o < i && touches(o, vertex_id) ==> board@.edges[o as int].owner is Some,
        decreases EDGE_COUNT - i,
    {
        let ends: (VertexId, VertexId) = board.edges[i].vertices;
        if board.edges[i].owner.is_none() && (ends.0 == vertex_id || ends.1 == vertex_id) {
            return Some(i);
        }
        i += 1;
    }
    None
}

/// `list` and, where there are cards of `material` among `resources`, the
/// material with their number.
pub open spec fn with_holding(
    list: Seq<(MaterialType, u8)>,
    resources: Resources,
    material: MaterialType,
) -> Seq<(MaterialType, u8)> {
    if resources.count(material) > 0 {
        list.push((material, resources.count(material) as u8))
    } else {
        list
    }
}

/// The materials held among `resources`, with the number of cards of each:
/// wood, brick, sheep, wheat, stone, in this order, those left out of which
/// there is no card.
pub open spec fn holdings(resources: Resources) -> Seq<(MaterialType, u8)> {
    with_holding(
        with_holding(
            with_holding(
                with_holding(
                    with_holding(Seq::empty(), resources, MaterialType::Wood),
                    resources,
                    MaterialType::Brick,
                ),
                resources,
                MaterialType::Sheep,
            ),
            resources,
            MaterialType::Wheat,
        ),
        resources,
        MaterialType::Stone,
    )
}

/// The materials held among `resources`, with the number of cards of each.
pub fn held_materials(resources: &Resources) -> (held: Vec<(MaterialType, u8)>)
    ensures
        held@ == holdings(*resources),
{
    let mut held: Vec<(MaterialType, u8)> = Vec::new();
    if resources.wood > 0 {
        held.push((MaterialType::Wood, resources.wood));
    }
    if resources.brick > 0 {
        held.push((MaterialType::Brick, resources.brick));
    }
    if resources.sheep > 0 {
        held.push((MaterialType::Sheep, resources.sheep));
    }
    if resources.wheat > 0 {
        held.push((MaterialType::Wheat, resources.wheat));
    }
    if resources.stone > 0 {
        held.push((MaterialType::Stone, resources.stone));
    }
    held
}

/// How many cards `resources` are.
pub fn resource_total(resources: &Resources) -> (total: u16)
    ensures
        total == resources.wheat + resources.brick + resources.stone + resources.sheep
            + resources.wood,
{
    let total: u16 = resources.wheat as u16 + resources.brick as u16 + resources.stone as u16
        + resources.sheep as u16 + resources.wood as u16;
    total
}

/// How many cards of `cards` are of kind `card`.
pub fn count_cards(cards: &Vec<DevelopmentCard>, card: DevelopmentCard) -> (n: usize)
    ensures
        n == count(cards@, is_item(card)),
{
    let mut n: usize = 0;
    let mut i: usize = 0;
    while i < cards.len()
        invariant
            i <= cards@.len(),
            n == count_below(cards@, is_item(card), i as int),
            n <= i,
        decreases cards@.len() - i,
    {
        if cards[i] == card {
            n += 1;
        }
        i += 1;
    }
    n
}

/// `list` and, where `cards` holds cards of kind `card`, the kind with their
/// number.
pub open spec fn with_card_count(
    list: Seq<(DevelopmentCard, usize)>,
    cards: Seq<DevelopmentCard>,
    card: DevelopmentCard,
) -> Seq<(DevelopmentCard, usize)> {
    if count(cards, is_item(card)) > 0 {
        list.push((card, count(cards, is_item(card)) as usize))
    } else {
        list
    }
}

/// The kinds of card among `cards`, with the number of cards of each:
/// knight, monopoly, road building, year of plenty, victory point, in this
/// order, those left out of which there is no card.
pub open spec fn card_tally(cards: Seq<DevelopmentCard>) -> Seq<(DevelopmentCard, usize)> {
    with_card_count(
        with_card_count(
            with_card_count(
                with_card_count(
                    with_card_count(Seq::empty(), cards, DevelopmentCard::Knight),
                    cards,
                    DevelopmentCard::Monopoly,
                ),
                cards,
                DevelopmentCard::RoadBuilding,
            ),
            cards,
            DevelopmentCard::YearOfPlenty,
        ),
        cards,
        DevelopmentCard::VictoryPoint,
    )
}

/// The kinds of card among `cards`, with the number of cards of each.
pub fn card_counts(cards: &Vec<DevelopmentCard>) -> (tally: Vec<(DevelopmentCard, usize)>)
    ensures
        tally@ == card_tally(cards@),
{
    let mut tally: Vec<(DevelopmentCard, usize)> = Vec::new();
    let knights: usize = count_cards(cards, DevelopmentCard::Knight);
    if knights > 0 {
        tally.push((DevelopmentCard::Knight, knights));
    }
    let monopolies: usize = count_cards(cards, DevelopmentCard::Monopoly);
    if monopolies > 0 {
        tally.push((DevelopmentCard::Monopoly, monopolies));
    }
    let road_buildings: usize = count_cards(cards, DevelopmentCard::RoadBuilding);
    if road_buildings > 0 {
        tally.push((DevelopmentCard::RoadBuilding, road_buildings));
    }
    let plenties: usize = count_cards(cards, DevelopmentCard::YearOfPlenty);
    if plenties > 0 {
        tally.push((DevelopmentCard::YearOfPlenty, plenties));
    }
    let points: usize = count_cards(cards, DevelopmentCard::VictoryPoint);
    if points > 0 {
        tally.push((DevelopmentCard::VictoryPoint, points));
    }
    tally
}

} // verus!
