//! Plain data of the real-time simulation that other parts of the game read.

use vstd::prelude::*;

verus! {

/// A resource that a chunk of terrain yields.
#[derive(Clone, Copy, Debug, PartialEq, Eq, Structural, Hash)]
pub enum ChunkResource {
    Grass,
    Flax,
    Cotton,
}

/// What a simulated character does for a living.
#[derive(Clone, Copy, Debug, PartialEq, Eq, Structural, Hash)]
pub enum Profession {
    Farmer,
    Hunter,
    Merchant,
    Guard,
    /// An adventurer and their rank.
    Adventurer(u32),
    Blacksmith,
}

impl Profession {
    /// The name of the profession; an adventurer's rank is not part of it.
    pub open spec fn name(self) -> Seq<char> {
        match self {
            Profession::Farmer => "Farmer"@,
            Profession::Hunter => "Hunter"@,
            Profession::Merchant => "Merchant"@,
            Profession::Guard => "Guard"@,
            Profession::Adventurer(_) => "Adventurer"@,
            Profession::Blacksmith => "Blacksmith"@,
        }
    }

    pub fn to_name(&self) -> (name: String)
        ensures
            name@ == self.name(),
    {
        match self {
            Profession::Farmer => "Farmer".to_owned(),
            Profession::Hunter => "Hunter".to_owned(),
            Profession::Merchant => "Merchant".to_owned(),
            Profession::Guard => "Guard".to_owned(),
            Profession::Adventurer(_) => "Adventurer".to_owned(),
            Profession::Blacksmith => "Blacksmith".to_owned(),
        }
    }
}

} // verus!
