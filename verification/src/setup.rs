//! Laying out a fresh board and seating players.

use vstd::prelude::*;
use crate::counting::{
    count, count_below, is_item, lemma_count_complement, lemma_count_grows,
    lemma_count_is_multiplicity, lemma_count_none, lemma_count_one, lemma_count_witness,
};
use crate::state::{is_building_of, is_road_of, DECK_SIZE};
use crate::survey::count_cards;
use crate::topology::{
    corners_of, edge_ends, edge_side, edges_are_distinct, edges_below, every_edge_is_a_side,
    every_side_is_an_edge, lemma_edge_ends, lemma_edges_in_order_of_first_sides,
    lemma_first_side, lemma_tile_corner, port_at, port_of, side_edge, tile_corners, tiles_below,
    EDGE_COUNT, TILE_COUNT, VERTEX_COUNT,
};
use crate::types::{
    fresh_player, player_at, BuildingType, DevelopmentCard, Edge, GameError, MaterialType, Player,
    PlayerType, Tile, TileId, Vertex, VertexId,
};
use crate::{Board, BoardView};

verus! {

/// A vertex on which nothing is built, with the port of vertex `v` and the
/// given neighbours.
pub open spec fn is_bare_vertex(
    x: Vertex,
    v: VertexId,
    tiles: Seq<usize>,
    edges: Seq<usize>,
) -> bool {
    &&& x.owner is None
    &&& x.building is None
    &&& x.power_up == port_at(v)
    &&& x.adjacent_tiles@ == tiles
    &&& x.adjacent_edges@ == edges
}

/// The 54 vertices, with their ports and without neighbours.
fn bare_vertices() -> (vertices: Vec<Vertex>)
    ensures
        vertices@.len() == VERTEX_COUNT,
        forall|v: int|
            0 <= v < VERTEX_COUNT ==> is_bare_vertex(
                #[trigger] vertices@[v],
                v as usize,
                Seq::empty(),
                Seq::empty(),
            ),
{
    let mut vertices: Vec<Vertex> = Vec::new();
    let mut v: usize = 0;
    while v < VERTEX_COUNT
        invariant
            v <= VERTEX_COUNT,
            vertices@.len() == v,
            forall|i: int|
                0 <= i < v ==> is_bare_vertex(
                    #[trigger] vertices@[i],
                    i as usize,
                    Seq::empty(),
                    Seq::empty(),
                ),
        decreases VERTEX_COUNT - v,
    {
        vertices.push(
            Vertex {
                owner: None,
                building: None,
                adjacent_tiles: Vec::new(),
                adjacent_edges: Vec::new(),
                power_up: port_of(v),
            },
        );
        v += 1;
    }
    vertices
}

/// `now` is `was` with the list of adjacent edges replaced by `edges`.
pub open spec fn is_same_but_edges(was: Vertex, now: Vertex, edges: Seq<usize>) -> bool {
    &&& now.owner == was.owner
    &&& now.building == was.building
    &&& now.power_up == was.power_up
    &&& now.adjacent_tiles == was.adjacent_tiles
    &&& now.adjacent_edges@ == edges
}

/// The place in `edges` of the edge with the ends `ends`, if it is there.
fn find_edge(edges: &Vec<Edge>, ends: (VertexId, VertexId)) -> (found: Option<usize>)
    ensures
        match found {
            Some(i) => i < edges@.len() && edges@[i as int].vertices == ends,
            None => forall|i: int| 0 <= i < edges@.len() ==> edges@[i].vertices != ends,
        },
{
    let mut i: usize = 0;
    while i < edges.len()
        invariant
            i <= edges@.len(),
            forall|j: int| 0 <= j < i ==> edges@[j].vertices != ends,
        decreases edges@.len() - i,
    {
        if edges[i].vertices.0 == ends.0 && edges[i].vertices.1 == ends.1 {
            return Some(i);
        }
        i += 1;
    }
    None
}

/// The edges of the board, unowned: the sides of the tiles, each once, in the
/// order in which a walk over the tiles, side by side, first meets them. A
/// side is the pair of two corners that follow each other round a tile, the
/// smaller first; a side that two tiles share is one edge.
fn derive_edges(tiles: &Vec<Tile>) -> (edges: Vec<Edge>)
    requires
        tiles@.len() == TILE_COUNT,
        forall|t: int|
            0 <= t < TILE_COUNT ==> (#[trigger] tiles@[t]).vertices@ == tile_corners(t as usize),
    ensures
        edges@.len() == EDGE_COUNT,
        forall|e: int|
            0 <= e < EDGE_COUNT ==> (#[trigger] edges@[e]).vertices == edge_ends(e as usize)
                && edges@[e].owner is None,
{
    let mut edges: Vec<Edge> = Vec::new();
    let mut t: usize = 0;
    while t < TILE_COUNT
        invariant
            t <= TILE_COUNT,
            tiles@.len() == TILE_COUNT,
            forall|u: int|
                0 <= u < TILE_COUNT ==> (#[trigger] tiles@[u]).vertices@ == tile_corners(
                    u as usize,
                ),
            edges@.len() <= EDGE_COUNT,
            forall|e: int|
                0 <= e < edges@.len() ==> (#[trigger] edges@[e]).vertices == edge_ends(e as usize)
                    && edges@[e].owner is None,
            forall|u: TileId, k: int|
                u < t && 0 <= k < 6 ==> #[trigger] side_edge(u, k) < edges@.len(),
        decreases TILE_COUNT - t,
    {
        let corners: [VertexId; 6] = tiles[t].vertices;
        let mut i: usize = 0;
        while i < 6
            invariant
                i <= 6,
                t < TILE_COUNT,
                corners@ == tile_corners(t),
                edges@.len() <= EDGE_COUNT,
                forall|e: int|
                    0 <= e < edges@.len() ==> (#[trigger] edges@[e]).vertices == edge_ends(
                        e as usize,
                    ) && edges@[e].owner is None,
                forall|u: TileId, k: int|
                    0 <= k < 6 && (u < t || (u == t && k < i)) ==> #[trigger] side_edge(u, k)
                        < edges@.len(),
            decreases 6 - i,
        {
            let v1_id: VertexId = corners[i];
            let v2_id: VertexId = corners[(i + 1) % 6];
            let edge: (VertexId, VertexId) = if v1_id < v2_id {
                (v1_id, v2_id)
            } else {
                (v2_id, v1_id)
            };
            let ghost side = side_edge(t, i as int);
            proof {
                every_side_is_an_edge(t, i as int);
                assert(edge == edge_ends(side));
            }
            match find_edge(&edges, edge) {
                Some(at) => {
                    proof {
                        edges_are_distinct(at, side);
                    }
                },
                None => {
                    proof {
                        let known = edges@.len() as usize;
                        if side < known {
                            assert(edges@[side as int].vertices == edge_ends(side));
                        }
                        if side > known {
                            // The walk would have met edge `known` before.
                            lemma_edges_in_order_of_first_sides(known, side);
                            lemma_first_side(t, i as int);
                            every_edge_is_a_side(known);
                            let (u, k) = edge_side(known);
                            assert(side_edge(u, k) < edges@.len());
                        }
                        assert(side == known);
                    }
                    edges.push(Edge { owner: None, vertices: edge });
                },
            }
            i += 1;
        }
        t += 1;
    }
    proof {
        every_edge_is_a_side((EDGE_COUNT - 1) as usize);
        let (u, k) = edge_side((EDGE_COUNT - 1) as usize);
        assert(side_edge(u, k) < edges@.len());
    }
    edges
}

/// The edges of the board, unowned, each entered at its two ends.
fn lay_edges(vertices: &mut Vec<Vertex>, tiles: &Vec<Tile>) -> (edges: Vec<Edge>)
    requires
        old(vertices)@.len() == VERTEX_COUNT,
        forall|v: int|
            0 <= v < VERTEX_COUNT ==> (#[trigger] old(vertices)@[v]).adjacent_edges@
                == Seq::<usize>::empty(),
        tiles@.len() == TILE_COUNT,
        forall|t: int|
            0 <= t < TILE_COUNT ==> (#[trigger] tiles@[t]).vertices@ == tile_corners(t as usize),
    ensures
        final(vertices)@.len() == VERTEX_COUNT,
        edges@.len() == EDGE_COUNT,
        forall|e: int|
            0 <= e < EDGE_COUNT ==> (#[trigger] edges@[e]).vertices == edge_ends(e as usize)
                && edges@[e].owner is None,
        forall|v: int|
            0 <= v < VERTEX_COUNT ==> is_same_but_edges(
                old(vertices)@[v],
                #[trigger] final(vertices)@[v],
                edges_below(v as usize, EDGE_COUNT as int),
            ),
{
    let edges: Vec<Edge> = derive_edges(tiles);
    let mut edge_id: usize = 0;
    while edge_id < edges.len()
        invariant
            edge_id <= EDGE_COUNT,
            vertices@.len() == VERTEX_COUNT,
            edges@.len() == EDGE_COUNT,
            forall|e: int|
                0 <= e < EDGE_COUNT ==> (#[trigger] edges@[e]).vertices == edge_ends(e as usize),
            forall|v: int|
                0 <= v < VERTEX_COUNT ==> is_same_but_edges(
                    old(vertices)@[v],
                    #[trigger] vertices@[v],
                    edges_below(v as usize, edge_id as int),
                ),
        decreases EDGE_COUNT - edge_id,
    {
        let (v1_id, v2_id): (VertexId, VertexId) = edges[edge_id].vertices;
        proof {
            lemma_edge_ends(edge_id);
        }
        vertices[v1_id].adjacent_edges.push(edge_id);
        vertices[v2_id].adjacent_edges.push(edge_id);
        edge_id += 1;
    }
    edges
}

/// Materials other than the desert.
pub open spec fn produces() -> spec_fn(MaterialType) -> bool {
    |m: MaterialType| m != MaterialType::Dessert
}

/// The number tokens, in the order in which the tiles that produce get them.
pub open spec fn number_token(i: usize) -> u8 {
    match i {
        0 => 5,
        1 => 2,
        2 => 6,
        3 => 10,
        4 => 9,
        5 => 4,
        6 => 3,
        7 => 8,
        8 => 11,
        9 => 5,
        10 => 8,
        11 => 4,
        12 => 11,
        13 => 12,
        14 => 9,
        15 => 6,
        16 => 3,
        _ => 10,
    }
}

/// The number on tile `t` where the tiles hold `materials`: none on the
/// desert, and on any other tile the next token that the tiles before it
/// have left.
pub open spec fn tile_number(materials: Seq<MaterialType>, t: int) -> u8 {
    if materials[t] == MaterialType::Dessert {
        0
    } else {
        number_token(count_below(materials, produces(), t) as usize)
    }
}

/// How many tiles of each material a board has.
pub open spec fn material_quota(m: MaterialType) -> int {
    match m {
        MaterialType::Wheat => 4,
        MaterialType::Brick => 3,
        MaterialType::Stone => 3,
        MaterialType::Sheep => 4,
        MaterialType::Wood => 4,
        MaterialType::Dessert => 1,
    }
}

/// How many cards of each kind a deck has.
pub open spec fn card_quota(c: DevelopmentCard) -> int {
    match c {
        DevelopmentCard::Knight => 14,
        DevelopmentCard::Monopoly => 2,
        DevelopmentCard::RoadBuilding => 2,
        DevelopmentCard::YearOfPlenty => 2,
        DevelopmentCard::VictoryPoint => 7,
    }
}

/// Whether `materials` can be laid on the tiles, in this order, and `cards`
/// be the draw pile: they are the 19 tiles and the 27 cards of the game, in
/// any order.
pub open spec fn valid_layout(materials: Seq<MaterialType>, cards: Seq<DevelopmentCard>) -> bool {
    &&& materials.len() == TILE_COUNT
    &&& cards.len() == DECK_SIZE
    &&& forall|m: MaterialType| count(materials, #[trigger] is_item(m)) == material_quota(m)
    &&& forall|c: DevelopmentCard| count(cards, #[trigger] is_item(c)) == card_quota(c)
}

/// The board before anybody has sat down: the fixed graph with nothing built
/// on it, tile `t` holding `materials[t]` and its number, the robber on the
/// desert, `cards` as the draw pile and both bonuses free.
pub open spec fn is_fresh_board(
    b: BoardView,
    materials: Seq<MaterialType>,
    cards: Seq<DevelopmentCard>,
) -> bool {
    &&& b.topology_ok()
    &&& forall|v: int|
        0 <= v < VERTEX_COUNT ==> (#[trigger] b.vertices[v]).owner is None
            && b.vertices[v].building is None
    &&& forall|e: int| 0 <= e < EDGE_COUNT ==> (#[trigger] b.edges[e]).owner is None
    &&& forall|t: int|
        0 <= t < TILE_COUNT ==> {
            &&& (#[trigger] b.tiles[t]).material == materials[t]
            &&& b.tiles[t].number == tile_number(materials, t)
            &&& b.tiles[t].has_robber == (materials[t] == MaterialType::Dessert)
        }
    &&& b.players.len() == 0
    &&& b.development_cards == cards
    &&& b.largest_army is None
    &&& b.largest_army_size == 2
    &&& b.longest_road is None
    &&& b.longest_road_size == 4
}

/// The number token that the `i`-th tile that produces gets.
fn number_token_of(i: usize) -> (n: u8)
    ensures
        n == number_token(i),
{
    match i {
        0 => 5,
        1 => 2,
        2 => 6,
        3 => 10,
        4 => 9,
        5 => 4,
        6 => 3,
        7 => 8,
        8 => 11,
        9 => 5,
        10 => 8,
        11 => 4,
        12 => 11,
        13 => 12,
        14 => 9,
        15 => 6,
        16 => 3,
        _ => 10,
    }
}

/// `now` is `was` with the list of adjacent tiles replaced by `tiles`.
pub open spec fn is_same_but_tiles(was: Vertex, now: Vertex, tiles: Seq<usize>) -> bool {
    &&& now.owner == was.owner
    &&& now.building == was.building
    &&& now.power_up == was.power_up
    &&& now.adjacent_edges == was.adjacent_edges
    &&& now.adjacent_tiles@ == tiles
}

/// The 19 tiles with their materials and numbers, each entered at its six
/// corners, and the robber on the desert.
fn lay_tiles(vertices: &mut Vec<Vertex>, materials: &Vec<MaterialType>) -> (tiles: Vec<Tile>)
    requires
        old(vertices)@.len() == VERTEX_COUNT,
        forall|v: int|
            0 <= v < VERTEX_COUNT ==> (#[trigger] old(vertices)@[v]).adjacent_tiles@
                == Seq::<usize>::empty(),
        materials@.len() == TILE_COUNT,
        count(materials@, is_item(MaterialType::Dessert)) == 1,
    ensures
        final(vertices)@.len() == VERTEX_COUNT,
        tiles@.len() == TILE_COUNT,
        forall|t: int|
            0 <= t < TILE_COUNT ==> {
                &&& (#[trigger] tiles@[t]).vertices@ == tile_corners(t as usize)
                &&& tiles@[t].material == materials@[t]
                &&& tiles@[t].number == tile_number(materials@, t)
                &&& tiles@[t].has_robber == (materials@[t] == MaterialType::Dessert)
            },
        forall|v: int|
            0 <= v < VERTEX_COUNT ==> is_same_but_tiles(
                old(vertices)@[v],
                #[trigger] final(vertices)@[v],
                tiles_below(v as usize, TILE_COUNT as int, 0),
            ),
{
    let mut tiles: Vec<Tile> = Vec::new();
    let mut number_index: usize = 0;
    let mut t: usize = 0;
    proof {
        lemma_count_complement(
            materials@,
            produces(),
            is_item(MaterialType::Dessert),
            TILE_COUNT as int,
        );
    }
    while t < TILE_COUNT
        invariant
            t <= TILE_COUNT,
            vertices@.len() == VERTEX_COUNT,
            materials@.len() == TILE_COUNT,
            count(materials@, produces()) == TILE_COUNT - 1,
            tiles@.len() == t,
            number_index == count_below(materials@, produces(), t as int),
            forall|i: int|
                0 <= i < t ==> {
                    &&& (#[trigger] tiles@[i]).vertices@ == tile_corners(i as usize)
                    &&& tiles@[i].material == materials@[i]
                    &&& tiles@[i].number == tile_number(materials@, i)
                    &&& tiles@[i].has_robber == (materials@[i] == MaterialType::Dessert)
                },
            forall|v: int|
                0 <= v < VERTEX_COUNT ==> is_same_but_tiles(
                    old(vertices)@[v],
                    #[trigger] vertices@[v],
                    tiles_below(v as usize, t as int, 0),
                ),
        decreases TILE_COUNT - t,
    {
        let material: MaterialType = materials[t];
        let corners: [VertexId; 6] = corners_of(t);
        let is_desert: bool = material == MaterialType::Dessert;
        let mut number: u8 = 0;
        if !is_desert {
            proof {
                lemma_count_grows(materials@, produces(), t + 1, TILE_COUNT as int);
            }
            number = number_token_of(number_index);
            number_index += 1;
        }
        tiles.push(Tile { material, number, vertices: corners, has_robber: is_desert });
        let mut k: usize = 0;
        while k < 6
            invariant
                k <= 6,
                t < TILE_COUNT,
                vertices@.len() == VERTEX_COUNT,
                corners@ == tile_corners(t),
                forall|v: int|
                    0 <= v < VERTEX_COUNT ==> is_same_but_tiles(
                        old(vertices)@[v],
                        #[trigger] vertices@[v],
                        tiles_below(v as usize, t as int, k as int),
                    ),
            decreases 6 - k,
        {
            let corner: VertexId = corners[k];
            proof {
                lemma_tile_corner(t, k as int);
            }
            vertices[corner].adjacent_tiles.push(t);
            k += 1;
        }
        t += 1;
    }
    tiles
}

/// How many tiles of `materials` hold `m`.
fn count_materials(materials: &Vec<MaterialType>, m: MaterialType) -> (n: usize)
    ensures
        n == count(materials@, is_item(m)),
{
    let mut n: usize = 0;
    let mut i: usize = 0;
    while i < materials.len()
        invariant
            i <= materials@.len(),
            n == count_below(materials@, is_item(m), i as int),
            n <= i,
        decreases materials@.len() - i,
    {
        if materials[i] == m {
            n += 1;
        }
        i += 1;
    }
    n
}

/// Whether `materials` and `cards` are the tiles and the cards of the game.
fn is_valid_layout(materials: &Vec<MaterialType>, cards: &Vec<DevelopmentCard>) -> (ok: bool)
    ensures
        ok == valid_layout(materials@, cards@),
{
    let ok: bool = materials.len() == TILE_COUNT && cards.len() == DECK_SIZE && count_materials(
        materials,
        MaterialType::Wheat,
    ) == 4 && count_materials(materials, MaterialType::Brick) == 3 && count_materials(
        materials,
        MaterialType::Stone,
    ) == 3 && count_materials(materials, MaterialType::Sheep) == 4 && count_materials(
        materials,
        MaterialType::Wood,
    ) == 4 && count_materials(materials, MaterialType::Dessert) == 1 && count_cards(
        cards,
        DevelopmentCard::Knight,
    ) == 14 && count_cards(cards, DevelopmentCard::Monopoly) == 2 && count_cards(
        cards,
        DevelopmentCard::RoadBuilding,
    ) == 2 && count_cards(cards, DevelopmentCard::YearOfPlenty) == 2 && count_cards(
        cards,
        DevelopmentCard::VictoryPoint,
    ) == 7;
    proof {
        if ok {
            assert forall|m: MaterialType|
                count(materials@, #[trigger] is_item(m)) == material_quota(m) by {
                match m {
                    MaterialType::Wheat => {},
                    MaterialType::Brick => {},
                    MaterialType::Stone => {},
                    MaterialType::Sheep => {},
                    MaterialType::Wood => {},
                    MaterialType::Dessert => {},
                }
            }
            assert forall|c: DevelopmentCard|
                count(cards@, #[trigger] is_item(c)) == card_quota(c) by {
                match c {
                    DevelopmentCard::Knight => {},
                    DevelopmentCard::Monopoly => {},
                    DevelopmentCard::RoadBuilding => {},
                    DevelopmentCard::YearOfPlenty => {},
                    DevelopmentCard::VictoryPoint => {},
                }
            }
        } else if materials@.len() == TILE_COUNT && cards@.len() == DECK_SIZE {
            assert(material_quota(MaterialType::Wheat) == 4);
            assert(material_quota(MaterialType::Brick) == 3);
            assert(material_quota(MaterialType::Stone) == 3);
            assert(material_quota(MaterialType::Sheep) == 4);
            assert(material_quota(MaterialType::Wood) == 4);
            assert(material_quota(MaterialType::Dessert) == 1);
            assert(card_quota(DevelopmentCard::Knight) == 14);
            assert(card_quota(DevelopmentCard::Monopoly) == 2);
            assert(card_quota(DevelopmentCard::RoadBuilding) == 2);
            assert(card_quota(DevelopmentCard::YearOfPlenty) == 2);
            assert(card_quota(DevelopmentCard::VictoryPoint) == 7);
        }
    }
    ok
}

/// The board on which the tiles hold `materials`, in the order of the tiles,
/// and `cards` is the draw pile, of which the last card is drawn first; or
/// nothing, where these are not the 19 tiles and the 27 cards of the game.
pub fn build_board(
    materials: Vec<MaterialType>,
    cards: Vec<DevelopmentCard>,
) -> (board: Option<Board>)
    ensures
        board is Some <==> valid_layout(materials@, cards@),
        board matches Some(b) ==> b@.wf() && is_fresh_board(b@, materials@, cards@),
{
    if !is_valid_layout(&materials, &cards) {
        return None;
    }
    assert(count(materials@, is_item(MaterialType::Dessert)) == material_quota(
        MaterialType::Dessert,
    ));
    let mut vertices: Vec<Vertex> = bare_vertices();
    let tiles: Vec<Tile> = lay_tiles(&mut vertices, &materials);
    let edges: Vec<Edge> = lay_edges(&mut vertices, &tiles);
    let board = Board {
        vertices,
        tiles,
        edges,
        players: Vec::new(),
        development_cards: cards,
        largest_army: None,
        largest_army_size: 2,
        longest_road: None,
        longest_road_size: 4,
    };
    proof {
        let b = board@;
        assert(b.players =~= Seq::empty());
        let desert = is_item(MaterialType::Dessert);
        let r = lemma_count_witness(materials@, desert);
        assert(b.robber_on(r));
        assert forall|t: int| 0 <= t < b.tiles.len() && (#[trigger] b.tiles[t]).has_robber implies t
            == b.robber_tile() by {
            lemma_count_one(materials@, desert, t, b.robber_tile());
        }
    }
    Some(board)
}

/// The material of tile `i` before the tiles are shuffled.
pub open spec fn standard_material(i: usize) -> MaterialType {
    match i {
        0 | 9 | 11 => MaterialType::Stone,
        1 | 5 | 13 | 16 => MaterialType::Sheep,
        2 | 8 | 10 | 17 => MaterialType::Wood,
        3 | 6 | 14 => MaterialType::Brick,
        4 | 7 | 12 | 15 => MaterialType::Wheat,
        _ => MaterialType::Dessert,
    }
}

/// The 19 tiles of the game, before they are shuffled.
pub open spec fn standard_materials() -> Seq<MaterialType> {
    Seq::new(TILE_COUNT as nat, |i: int| standard_material(i as usize))
}

/// Card `i` of the deck before it is shuffled.
pub open spec fn standard_card(i: usize) -> DevelopmentCard {
    if i < 14 {
        DevelopmentCard::Knight
    } else if i < 16 {
        DevelopmentCard::Monopoly
    } else if i < 18 {
        DevelopmentCard::RoadBuilding
    } else if i < 20 {
        DevelopmentCard::YearOfPlenty
    } else {
        DevelopmentCard::VictoryPoint
    }
}

/// The 27 development cards of the game, before they are shuffled.
pub open spec fn standard_deck() -> Seq<DevelopmentCard> {
    Seq::new(DECK_SIZE as nat, |i: int| standard_card(i as usize))
}

/// The tiles and cards of the game, unshuffled, are a valid layout.
pub proof fn lemma_standard_layout()
    ensures
        valid_layout(standard_materials(), standard_deck()),
{
    reveal_with_fuel(count_below, 28);
    assert forall|m: MaterialType|
        count(standard_materials(), #[trigger] is_item(m)) == material_quota(m) by {
        match m {
            MaterialType::Wheat => {},
            MaterialType::Brick => {},
            MaterialType::Stone => {},
            MaterialType::Sheep => {},
            MaterialType::Wood => {},
            MaterialType::Dessert => {},
        }
    }
    assert forall|c: DevelopmentCard|
        count(standard_deck(), #[trigger] is_item(c)) == card_quota(c) by {
        match c {
            DevelopmentCard::Knight => {},
            DevelopmentCard::Monopoly => {},
            DevelopmentCard::RoadBuilding => {},
            DevelopmentCard::YearOfPlenty => {},
            DevelopmentCard::VictoryPoint => {},
        }
    }
}

/// A layout stays valid however its tiles and its cards are reordered.
pub proof fn lemma_layout_permuted(
    materials: Seq<MaterialType>,
    cards: Seq<DevelopmentCard>,
    shuffled_materials: Seq<MaterialType>,
    shuffled_cards: Seq<DevelopmentCard>,
)
    requires
        valid_layout(materials, cards),
        shuffled_materials.to_multiset() == materials.to_multiset(),
        shuffled_cards.to_multiset() == cards.to_multiset(),
    ensures
        valid_layout(shuffled_materials, shuffled_cards),
{
    materials.to_multiset_ensures();
    shuffled_materials.to_multiset_ensures();
    cards.to_multiset_ensures();
    shuffled_cards.to_multiset_ensures();
    assert forall|m: MaterialType|
        count(shuffled_materials, #[trigger] is_item(m)) == material_quota(m) by {
        lemma_count_is_multiplicity(materials, m);
        lemma_count_is_multiplicity(shuffled_materials, m);
    }
    assert forall|c: DevelopmentCard|
        count(shuffled_cards, #[trigger] is_item(c)) == card_quota(c) by {
        lemma_count_is_multiplicity(cards, c);
        lemma_count_is_multiplicity(shuffled_cards, c);
    }
}

/// The 19 tiles of the game, in their order before shuffling.
pub fn unshuffled_materials() -> (materials: Vec<MaterialType>)
    ensures
        materials@ == standard_materials(),
{
    let mut materials: Vec<MaterialType> = Vec::new();
    let mut i: usize = 0;
    while i < TILE_COUNT
        invariant
            i <= TILE_COUNT,
            materials@.len() == i,
            forall|j: int| 0 <= j < i ==> materials@[j] == standard_material(j as usize),
        decreases TILE_COUNT - i,
    {
        let material: MaterialType = match i {
            0 | 9 | 11 => MaterialType::Stone,
            1 | 5 | 13 | 16 => MaterialType::Sheep,
            2 | 8 | 10 | 17 => MaterialType::Wood,
            3 | 6 | 14 => MaterialType::Brick,
            4 | 7 | 12 | 15 => MaterialType::Wheat,
            _ => MaterialType::Dessert,
        };
        materials.push(material);
        i += 1;
    }
    assert(materials@ =~= standard_materials());
    materials
}

/// The 27 development cards of the game, in their order before shuffling.
pub fn unshuffled_deck() -> (cards: Vec<DevelopmentCard>)
    ensures
        cards@ == standard_deck(),
{
    let mut cards: Vec<DevelopmentCard> = Vec::new();
    let mut i: usize = 0;
    while i < DECK_SIZE
        invariant
            i <= DECK_SIZE,
            cards@.len() == i,
            forall|j: int| 0 <= j < i ==> cards@[j] == standard_card(j as usize),
        decreases DECK_SIZE - i,
    {
        let card: DevelopmentCard = if i < 14 {
            DevelopmentCard::Knight
        } else if i < 16 {
            DevelopmentCard::Monopoly
        } else if i < 18 {
            DevelopmentCard::RoadBuilding
        } else if i < 20 {
            DevelopmentCard::YearOfPlenty
        } else {
            DevelopmentCard::VictoryPoint
        };
        cards.push(card);
        i += 1;
    }
    assert(cards@ =~= standard_deck());
    cards
}

/// `rand::seq::SliceRandom::shuffle` with the generator of the thread,
/// `rand::rng()`. It reorders the items in place: the same items are there
/// afterwards, each as often as before. Nothing is claimed of their order.
#[verifier::external_body]
fn shuffle<T>(items: &mut Vec<T>)
    ensures
        final(items)@.to_multiset() == old(items)@.to_multiset(),
{
    rand::seq::SliceRandom::shuffle(items.as_mut_slice(), &mut rand::rng());
}

impl BoardView {
    /// The materials of the tiles, in the order of the tiles.
    pub open spec fn tile_materials(self) -> Seq<MaterialType> {
        Seq::new(self.tiles.len(), |t: int| self.tiles[t].material)
    }
}

/// A board for a new game: the tiles and the development cards are shuffled,
/// and nobody has sat down yet.
pub fn setup_board() -> (board: Board)
    ensures
        board@.wf(),
        valid_layout(board@.tile_materials(), board@.development_cards),
        is_fresh_board(board@, board@.tile_materials(), board@.development_cards),
{
    let mut materials: Vec<MaterialType> = unshuffled_materials();
    let mut cards: Vec<DevelopmentCard> = unshuffled_deck();
    shuffle(&mut materials);
    shuffle(&mut cards);
    proof {
        lemma_standard_layout();
        lemma_layout_permuted(standard_materials(), standard_deck(), materials@, cards@);
    }
    let ghost laid = materials@;
    let built: Option<Board> = build_board(materials, cards);
    match built {
        Some(board) => {
            assert(board@.tile_materials() =~= laid);
            board
        },
        None => {
            proof {
                assert(false);
            }
            unreached()
        },
    }
}

/// Seats the next player, or rejects with `GameFull` where four are seated.
pub fn add_player(board: &mut Board) -> (seated: Result<PlayerType, GameError>)
    requires
        old(board)@.wf(),
    ensures
        final(board)@.wf(),
        match seated {
            Ok(p) => {
                &&& old(board)@.players.len() < 4
                &&& p == player_at(old(board)@.players.len() as int)
                &&& final(board)@ == (BoardView {
                    players: old(board)@.players.push(fresh_player(p)),
                    ..old(board)@
                })
            },
            Err(e) => {
                &&& old(board)@.players.len() >= 4
                &&& e == GameError::GameFull
                &&& *final(board) == *old(board)
            },
        },
{
    let seats: usize = board.players.len();
    if seats >= 4 {
        return Err(GameError::GameFull);
    }
    let id: PlayerType = match seats {
        0 => PlayerType::Player1,
        1 => PlayerType::Player2,
        2 => PlayerType::Player3,
        _ => PlayerType::Player4,
    };
    board.players.push(Player::new(id));
    proof {
        let was = old(board)@;
        let now = board@;
        assert(now.players =~= was.players.push(fresh_player(id)));
        assert forall|i: int| 0 <= i < now.players.len() implies #[trigger] now.player_ok(i) by {
            if i < seats {
                assert(was.player_ok(i));
            } else {
                lemma_count_none(
                    now.vertices,
                    is_building_of(id, BuildingType::Settlement),
                    now.vertices.len() as int,
                );
                lemma_count_none(
                    now.vertices,
                    is_building_of(id, BuildingType::City),
                    now.vertices.len() as int,
                );
                lemma_count_none(now.edges, is_road_of(id), now.edges.len() as int);
            }
        }
    }
    Ok(id)
}

} // verus!
