//! Plain data of the game: players, materials, cards, errors and the nodes of
//! the board graph.

use vstd::prelude::*;

verus! {

/// Index of a vertex (a corner where settlements and cities stand).
pub type VertexId = usize;

/// Index of a tile (a hexagon that produces a material).
pub type TileId = usize;

/// Index of an edge (a side of a hexagon, where roads lie).
pub type EdgeId = usize;

/// Index of a seat at the table.
pub type PlayerID = usize;

/// The four seats, in the order in which players join.
#[derive(Debug, Clone, Copy, PartialEq, Eq, Structural)]
pub enum PlayerType {
    Player1,
    Player2,
    Player3,
    Player4,
}

/// The rule set under which a road is placed.
#[derive(Debug, Clone, Copy, PartialEq, Eq, Structural)]
pub enum TurnPhase {
    /// Founding turn: the road is free and must touch the settlement that was
    /// just placed at `anchor_vertex`.
    Setup { anchor_vertex: VertexId },
    /// Ordinary turn: the road is paid for and must extend the player's network.
    Normal,
    /// A road granted by a development card: free, but it must extend the
    /// player's network.
    FreeRoad,
}

#[derive(Debug, Clone, Copy, PartialEq, Eq, Structural)]
pub enum BuildingType {
    Settlement,
    City,
}

/// A port bonus: a better rate with the bank.
#[derive(Debug, Clone, Copy, PartialEq, Eq, Structural)]
pub enum PowerUp {
    Wheat2,
    Brick2,
    Stone2,
    Sheep2,
    Wood2,
    Any3,
}

/// The five resources, and the desert, which produces nothing and cannot be
/// held or traded.
#[derive(Debug, Clone, Copy, PartialEq, Eq, Hash, Structural)]
pub enum MaterialType {
    Wheat,
    Brick,
    Stone,
    Sheep,
    Wood,
    Dessert,
}

#[derive(Debug, Clone, Copy, PartialEq, Eq, Hash, Structural)]
pub enum DevelopmentCard {
    Knight,
    Monopoly,
    RoadBuilding,
    YearOfPlenty,
    VictoryPoint,
}

/// Why an action was rejected. A rejected action leaves the board as it was.
#[derive(Debug, Clone, Copy, PartialEq, Eq, Structural)]
pub enum GameError {
    /// The player is not seated at this board.
    PlayerNotFound,
    /// Four players are seated already.
    GameFull,
    /// The vertex, edge or tile does not exist.
    InvalidPosition,
    /// The vertex or edge is owned already.
    OccupiedPosition,
    /// A neighbouring vertex is built on.
    DistanceRuleViolation,
    /// No road of the player leads there, or the road does not touch the
    /// anchor vertex.
    NotConnected,
    /// The vertex does not hold a settlement of the player.
    NoSettlement,
    InsufficientResources,
    InsufficientPieces,
    AlreadyPlayedDevelopmentCard,
    CardNotHeld,
    DeckEmpty,
    /// A trade of a material against itself, or one that names the desert.
    InvalidTrade,
    /// The player holds less than the bank asks for.
    InsufficientTradeStock,
    /// The robber would stay where it is, rob its mover, or rob a player who
    /// has no building on the tile.
    InvalidTarget,
}

/// How many cards of each resource a player holds, or a price asks for.
#[derive(Debug, Clone, Copy, PartialEq, Eq, Structural)]
pub struct Resources {
    pub wheat: u8,
    pub brick: u8,
    pub stone: u8,
    pub sheep: u8,
    pub wood: u8,
}

#[derive(Debug, Clone)]
pub struct Vertex {
    pub owner: Option<PlayerType>,
    pub building: Option<BuildingType>,
    pub adjacent_tiles: Vec<TileId>,
    pub adjacent_edges: Vec<EdgeId>,
    pub power_up: Option<PowerUp>,
}

#[derive(Debug, Clone)]
pub struct Tile {
    pub material: MaterialType,
    /// The dice total on which the tile produces; 0 on the desert.
    pub number: u8,
    /// The six corners, in order around the hexagon.
    pub vertices: [VertexId; 6],
    pub has_robber: bool,
}

#[derive(Debug, Clone, Copy)]
pub struct Edge {
    pub owner: Option<PlayerType>,
    /// The two ends, the smaller id first.
    pub vertices: (VertexId, VertexId),
}

#[derive(Debug, Clone)]
pub struct Player {
    pub id: PlayerType,
    pub resources: Resources,
    /// Pieces still in the player's supply.
    pub settlement_quantity: u8,
    pub city_quantity: u8,
    pub road_quantity: u8,
    /// Ports the player has built on, each listed once.
    pub power_ups: Vec<PowerUp>,
    pub victory_points: u8,
    pub dev_cards: Vec<DevelopmentCard>,
    pub played_dev_card_this_turn: bool,
    pub knights_played: u8,
}

/// A player as contracts see one: the same fields, with sequences in place of
/// vectors.
pub struct PlayerView {
    pub id: PlayerType,
    pub resources: Resources,
    pub settlement_quantity: u8,
    pub city_quantity: u8,
    pub road_quantity: u8,
    pub power_ups: Seq<PowerUp>,
    pub victory_points: u8,
    pub dev_cards: Seq<DevelopmentCard>,
    pub played_dev_card_this_turn: bool,
    pub knights_played: u8,
}

impl View for Player {
    type V = PlayerView;

    open spec fn view(&self) -> PlayerView {
        PlayerView {
            id: self.id,
            resources: self.resources,
            settlement_quantity: self.settlement_quantity,
            city_quantity: self.city_quantity,
            road_quantity: self.road_quantity,
            power_ups: self.power_ups@,
            victory_points: self.victory_points,
            dev_cards: self.dev_cards@,
            played_dev_card_this_turn: self.played_dev_card_this_turn,
            knights_played: self.knights_played,
        }
    }
}

/// The players of a vector as contracts see them.
pub open spec fn players_view(players: Seq<Player>) -> Seq<PlayerView> {
    players.map_values(|p: Player| p@)
}

impl PlayerType {
    /// The seat number, from 0.
    pub open spec fn seat(self) -> int {
        match self {
            PlayerType::Player1 => 0,
            PlayerType::Player2 => 1,
            PlayerType::Player3 => 2,
            PlayerType::Player4 => 3,
        }
    }

    /// The seat number, from 0.
    pub fn index(self) -> (i: usize)
        ensures
            i == self.seat(),
    {
        match self {
            PlayerType::Player1 => 0,
            PlayerType::Player2 => 1,
            PlayerType::Player3 => 2,
            PlayerType::Player4 => 3,
        }
    }
}

/// The player who takes seat number `i`; seats past the fourth do not exist
/// and stand for the fourth.
pub open spec fn player_at(i: int) -> PlayerType {
    if i == 0 {
        PlayerType::Player1
    } else if i == 1 {
        PlayerType::Player2
    } else if i == 2 {
        PlayerType::Player3
    } else {
        PlayerType::Player4
    }
}

impl Resources {
    /// How many cards of `material` these are; none of the desert.
    pub open spec fn count(self, material: MaterialType) -> int {
        match material {
            MaterialType::Wheat => self.wheat as int,
            MaterialType::Brick => self.brick as int,
            MaterialType::Stone => self.stone as int,
            MaterialType::Sheep => self.sheep as int,
            MaterialType::Wood => self.wood as int,
            MaterialType::Dessert => 0,
        }
    }

    /// These cards with the number of `material` set to `n`. The desert is
    /// never held, so setting it changes nothing.
    pub open spec fn with(self, material: MaterialType, n: u8) -> Resources {
        match material {
            MaterialType::Wheat => Resources { wheat: n, ..self },
            MaterialType::Brick => Resources { brick: n, ..self },
            MaterialType::Stone => Resources { stone: n, ..self },
            MaterialType::Sheep => Resources { sheep: n, ..self },
            MaterialType::Wood => Resources { wood: n, ..self },
            MaterialType::Dessert => self,
        }
    }

    /// These cards and `n` more of `material`. A hand holds at most 255 cards
    /// of one material: what would go past that is lost.
    pub open spec fn plus(self, material: MaterialType, n: int) -> Resources {
        let sum = self.count(material) + n;
        self.with(
            material,
            if sum > 255 {
                255u8
            } else {
                sum as u8
            },
        )
    }

    /// These cards and, of each material, as many more as `gains` says, up
    /// to the limit of 255.
    pub open spec fn plus_each(self, gains: spec_fn(MaterialType) -> int) -> Resources {
        self.plus(MaterialType::Wheat, gains(MaterialType::Wheat)).plus(
            MaterialType::Brick,
            gains(MaterialType::Brick),
        ).plus(MaterialType::Stone, gains(MaterialType::Stone)).plus(
            MaterialType::Sheep,
            gains(MaterialType::Sheep),
        ).plus(MaterialType::Wood, gains(MaterialType::Wood))
    }

    /// These cards without `n` of `material`.
    pub open spec fn minus(self, material: MaterialType, n: int) -> Resources
        recommends
            n <= self.count(material),
    {
        self.with(material, (self.count(material) - n) as u8)
    }

    /// Whether these cards pay for `cost`.
    pub open spec fn covers(self, cost: Resources) -> bool {
        &&& self.wheat >= cost.wheat
        &&& self.brick >= cost.brick
        &&& self.stone >= cost.stone
        &&& self.sheep >= cost.sheep
        &&& self.wood >= cost.wood
    }

    /// What is left of these cards when `cost` is paid.
    pub open spec fn less(self, cost: Resources) -> Resources
        recommends
            self.covers(cost),
    {
        Resources {
            wheat: (self.wheat - cost.wheat) as u8,
            brick: (self.brick - cost.brick) as u8,
            stone: (self.stone - cost.stone) as u8,
            sheep: (self.sheep - cost.sheep) as u8,
            wood: (self.wood - cost.wood) as u8,
        }
    }

    /// No cards.
    pub open spec fn zero() -> Resources {
        Resources { wheat: 0, brick: 0, stone: 0, sheep: 0, wood: 0 }
    }

    /// No cards.
    pub fn none() -> (r: Resources)
        ensures
            r == Resources::zero(),
    {
        Resources { wheat: 0, brick: 0, stone: 0, sheep: 0, wood: 0 }
    }

    /// How many cards of `material` these are.
    pub fn get(&self, material: MaterialType) -> (n: u8)
        ensures
            n == self.count(material),
    {
        match material {
            MaterialType::Wheat => self.wheat,
            MaterialType::Brick => self.brick,
            MaterialType::Stone => self.stone,
            MaterialType::Sheep => self.sheep,
            MaterialType::Wood => self.wood,
            MaterialType::Dessert => 0,
        }
    }

    /// Sets the number of cards of `material` to `n`.
    pub fn set(&mut self, material: MaterialType, n: u8)
        ensures
            *final(self) == old(self).with(material, n),
    {
        match material {
            MaterialType::Wheat => {
                self.wheat = n;
            },
            MaterialType::Brick => {
                self.brick = n;
            },
            MaterialType::Stone => {
                self.stone = n;
            },
            MaterialType::Sheep => {
                self.sheep = n;
            },
            MaterialType::Wood => {
                self.wood = n;
            },
            MaterialType::Dessert => {},
        }
    }

    /// Adds `n` cards of `material`, up to the limit of 255.
    pub fn credit(&mut self, material: MaterialType, n: u8)
        ensures
            *final(self) == old(self).plus(material, n as int),
    {
        let held: u8 = self.get(material);
        let sum: u8 = if n > 255 - held {
            255
        } else {
            held + n
        };
        self.set(material, sum);
    }

    /// Adds the cards of `gains`, of each material up to the limit of 255.
    pub fn credit_each(&mut self, gains: &Resources)
        ensures
            *final(self) == old(self).plus_each(|m: MaterialType| gains.count(m)),
    {
        self.credit(MaterialType::Wheat, gains.wheat);
        self.credit(MaterialType::Brick, gains.brick);
        self.credit(MaterialType::Stone, gains.stone);
        self.credit(MaterialType::Sheep, gains.sheep);
        self.credit(MaterialType::Wood, gains.wood);
    }

    /// Takes `n` cards of `material` away.
    pub fn debit(&mut self, material: MaterialType, n: u8)
        requires
            n <= old(self).count(material),
        ensures
            *final(self) == old(self).minus(material, n as int),
    {
        let held: u8 = self.get(material);
        self.set(material, held - n);
    }
}

impl Player {
    /// A player who has just sat down: all pieces in supply, nothing in hand.
    pub fn new(id: PlayerType) -> (p: Player)
        ensures
            p@ == fresh_player(id),
    {
        Player {
            id,
            resources: Resources::none(),
            settlement_quantity: 5,
            city_quantity: 4,
            road_quantity: 15,
            power_ups: Vec::new(),
            victory_points: 0,
            dev_cards: Vec::new(),
            played_dev_card_this_turn: false,
            knights_played: 0,
        }
    }
}

/// The state in which a player sits down.
pub open spec fn fresh_player(id: PlayerType) -> PlayerView {
    PlayerView {
        id,
        resources: Resources::zero(),
        settlement_quantity: 5,
        city_quantity: 4,
        road_quantity: 15,
        power_ups: Seq::empty(),
        victory_points: 0,
        dev_cards: Seq::empty(),
        played_dev_card_this_turn: false,
        knights_played: 0,
    }
}

} // verus!
