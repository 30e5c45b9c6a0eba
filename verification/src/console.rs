//! What a player types at a console: commands, choices and the names of the
//! materials.

use vstd::prelude::*;
use vstd::string::StrSliceExecFns;
use crate::types::{DevelopmentCard, MaterialType};

verus! {

/// What a player may do in a turn.
#[derive(Debug, Clone, Copy, PartialEq, Eq, Structural)]
pub enum Command {
    Build,
    EndTurn,
    Trade,
    PlayCard,
    ShowBoard,
}

/// What a player may build or buy.
#[derive(Debug, Clone, Copy, PartialEq, Eq, Structural)]
pub enum BuildChoice {
    House,
    City,
    Road,
    DevelopmentCard,
}

/// What `text` is without the white space at its two ends, as `str::trim`
/// gives it.
pub uninterp spec fn trim_of(text: Seq<char>) -> Seq<char>;

/// What `text` is in lower case, as `str::to_lowercase` gives it.
pub uninterp spec fn lowercase_of(text: Seq<char>) -> Seq<char>;

/// `str::trim`: the text without the white space at its two ends. The
/// contract gives the result its name, `trim_of`, and says nothing more of it.
#[verifier::external_body]
fn trimmed(text: &str) -> (inner: &str)
    ensures
        inner@ == trim_of(text@),
{
    text.trim()
}

/// `str::to_lowercase`: the text in lower case. The contract gives the result
/// its name, `lowercase_of`, and says nothing more of it.
#[verifier::external_body]
fn lowercased(text: &str) -> (lower: String)
    ensures
        lower@ == lowercase_of(text@),
{
    text.to_lowercase()
}

/// Whether two texts are the same, character by character.
pub fn same_text(a: &str, b: &str) -> (same: bool)
    ensures
        same == (a@ == b@),
{
    let len: usize = a.unicode_len();
    if len != b.unicode_len() {
        return false;
    }
    let mut i: usize = 0;
    while i < len
        invariant
            i <= len,
            len == a@.len(),
            len == b@.len(),
            forall|j: int| 0 <= j < i ==> a@[j] == b@[j],
        decreases len - i,
    {
        if a.get_char(i) != b.get_char(i) {
            return false;
        }
        i += 1;
    }
    assert(a@ =~= b@);
    true
}

/// The command that the one letter `text` stands for, in either case: c to
/// build, t to end the turn, i to trade, j to play a card, v to see the
/// board.
pub open spec fn command_named(text: Seq<char>) -> Option<Command> {
    if text.len() != 1 {
        None
    } else if text[0] == 'c' || text[0] == 'C' {
        Some(Command::Build)
    } else if text[0] == 't' || text[0] == 'T' {
        Some(Command::EndTurn)
    } else if text[0] == 'i' || text[0] == 'I' {
        Some(Command::Trade)
    } else if text[0] == 'j' || text[0] == 'J' {
        Some(Command::PlayCard)
    } else if text[0] == 'v' || text[0] == 'V' {
        Some(Command::ShowBoard)
    } else {
        None
    }
}

/// What the one small letter `text` asks to build: c a settlement, i a city,
/// r a road, d a development card.
pub open spec fn build_choice_named(text: Seq<char>) -> Option<BuildChoice> {
    if text.len() != 1 {
        None
    } else if text[0] == 'c' {
        Some(BuildChoice::House)
    } else if text[0] == 'i' {
        Some(BuildChoice::City)
    } else if text[0] == 'r' {
        Some(BuildChoice::Road)
    } else if text[0] == 'd' {
        Some(BuildChoice::DevelopmentCard)
    } else {
        None
    }
}

/// The development card that the one small letter `text` asks to play: c a
/// knight, r road building, a year of plenty, m a monopoly.
pub open spec fn card_named(text: Seq<char>) -> Option<DevelopmentCard> {
    if text.len() != 1 {
        None
    } else if text[0] == 'c' {
        Some(DevelopmentCard::Knight)
    } else if text[0] == 'r' {
        Some(DevelopmentCard::RoadBuilding)
    } else if text[0] == 'a' {
        Some(DevelopmentCard::YearOfPlenty)
    } else if text[0] == 'm' {
        Some(DevelopmentCard::Monopoly)
    } else {
        None
    }
}

/// The material that `text`, in lower case, names, by its first letter or in
/// full, in Spanish or in English.
pub open spec fn material_named(text: Seq<char>) -> Option<MaterialType> {
    if text == "m"@ || text == "madera"@ || text == "wood"@ {
        Some(MaterialType::Wood)
    } else if text == "l"@ || text == "ladrillo"@ || text == "brick"@ {
        Some(MaterialType::Brick)
    } else if text == "o"@ || text == "oveja"@ || text == "sheep"@ {
        Some(MaterialType::Sheep)
    } else if text == "t"@ || text == "trigo"@ || text == "wheat"@ {
        Some(MaterialType::Wheat)
    } else if text == "p"@ || text == "piedra"@ || text == "stone"@ {
        Some(MaterialType::Stone)
    } else {
        None
    }
}

impl Command {
    /// The command that `text` stands for, which has no white space at its
    /// ends.
    pub fn from_letter(text: &str) -> (command: Option<Command>)
        ensures
            command == command_named(text@),
    {
        if text.unicode_len() != 1 {
            return None;
        }
        match text.get_char(0) {
            'c' | 'C' => Some(Command::Build),
            't' | 'T' => Some(Command::EndTurn),
            'i' | 'I' => Some(Command::Trade),
            'j' | 'J' => Some(Command::PlayCard),
            'v' | 'V' => Some(Command::ShowBoard),
            _ => None,
        }
    }

    /// The command that `s` stands for, the white space at its ends apart.
    pub fn parse(s: &str) -> (command: Option<Command>)
        ensures
            command == command_named(trim_of(s@)),
    {
        Command::from_letter(trimmed(s))
    }
}

impl BuildChoice {
    /// What `text` asks to build, which has no white space at its ends.
    pub fn from_letter(text: &str) -> (choice: Option<BuildChoice>)
        ensures
            choice == build_choice_named(text@),
    {
        if text.unicode_len() != 1 {
            return None;
        }
        match text.get_char(0) {
            'c' => Some(BuildChoice::House),
            'i' => Some(BuildChoice::City),
            'r' => Some(BuildChoice::Road),
            'd' => Some(BuildChoice::DevelopmentCard),
            _ => None,
        }
    }

    /// What `s` asks to build, the white space at its ends apart.
    pub fn parse(s: &str) -> (choice: Option<BuildChoice>)
        ensures
            choice == build_choice_named(trim_of(s@)),
    {
        BuildChoice::from_letter(trimmed(s))
    }
}

/// The development card that `text` asks to play, which has no white space
/// at its ends.
pub fn card_from_letter(text: &str) -> (card: Option<DevelopmentCard>)
    ensures
        card == card_named(text@),
{
    if text.unicode_len() != 1 {
        return None;
    }
    match text.get_char(0) {
        'c' => Some(DevelopmentCard::Knight),
        'r' => Some(DevelopmentCard::RoadBuilding),
        'a' => Some(DevelopmentCard::YearOfPlenty),
        'm' => Some(DevelopmentCard::Monopoly),
        _ => None,
    }
}

/// The development card that `s` asks to play, the white space at its ends
/// apart.
pub fn read_card_choice(s: &str) -> (card: Option<DevelopmentCard>)
    ensures
        card == card_named(trim_of(s@)),
{
    card_from_letter(trimmed(s))
}

/// The material that `text` names, which is in lower case.
pub fn material_from_name(text: &str) -> (material: Option<MaterialType>)
    ensures
        material == material_named(text@),
{
    if same_text(text, "m") || same_text(text, "madera") || same_text(text, "wood") {
        Some(MaterialType::Wood)
    } else if same_text(text, "l") || same_text(text, "ladrillo") || same_text(text, "brick") {
        Some(MaterialType::Brick)
    } else if same_text(text, "o") || same_text(text, "oveja") || same_text(text, "sheep") {
        Some(MaterialType::Sheep)
    } else if same_text(text, "t") || same_text(text, "trigo") || same_text(text, "wheat") {
        Some(MaterialType::Wheat)
    } else if same_text(text, "p") || same_text(text, "piedra") || same_text(text, "stone") {
        Some(MaterialType::Stone)
    } else {
        None
    }
}

/// The material that `input` names, in whatever case.
pub fn read_material_type(input: &str) -> (material: Option<MaterialType>)
    ensures
        material == material_named(lowercase_of(input@)),
{
    let lower: String = lowercased(input);
    material_from_name(lower.as_str())
}

} // verus!
