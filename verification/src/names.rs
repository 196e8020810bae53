use vstd::prelude::*;
use vstd::string::*;

use crate::ids::random_below;

verus! {

/// The number of adjectives (and of nouns) that game names are made of.
pub const NAME_WORDS: usize = 8;

/// The adjectives of game names.
pub open spec fn spec_adjective(i: int) -> Seq<char> {
    if i == 0 { "Lucky"@ }
    else if i == 1 { "Crafty"@ }
    else if i == 2 { "Jolly"@ }
    else if i == 3 { "Quiet"@ }
    else if i == 4 { "Daring"@ }
    else if i == 5 { "Patient"@ }
    else if i == 6 { "Nimble"@ }
    else { "Royal"@ }
}

/// The nouns of game names.
pub open spec fn spec_noun(i: int) -> Seq<char> {
    if i == 0 { "Peg"@ }
    else if i == 1 { "Crib"@ }
    else if i == 2 { "Knave"@ }
    else if i == 3 { "Board"@ }
    else if i == 4 { "Fifteen"@ }
    else if i == 5 { "Skunk"@ }
    else if i == 6 { "Starter"@ }
    else { "Nobs"@ }
}

fn adjective(i: usize) -> (s: &'static str)
    requires i < NAME_WORDS,
    ensures
        s@ == spec_adjective(i as int),
        s@.len() > 0,
{
    proof {
        reveal_strlit("Lucky"); reveal_strlit("Crafty"); reveal_strlit("Jolly"); reveal_strlit("Quiet");
        reveal_strlit("Daring"); reveal_strlit("Patient"); reveal_strlit("Nimble"); reveal_strlit("Royal");
    }
    if i == 0 { "Lucky" }
    else if i == 1 { "Crafty" }
    else if i == 2 { "Jolly" }
    else if i == 3 { "Quiet" }
    else if i == 4 { "Daring" }
    else if i == 5 { "Patient" }
    else if i == 6 { "Nimble" }
    else { "Royal" }
}

fn noun(i: usize) -> (s: &'static str)
    requires i < NAME_WORDS,
    ensures
        s@ == spec_noun(i as int),
        s@.len() > 0,
{
    proof {
        reveal_strlit("Peg"); reveal_strlit("Crib"); reveal_strlit("Knave"); reveal_strlit("Board");
        reveal_strlit("Fifteen"); reveal_strlit("Skunk"); reveal_strlit("Starter"); reveal_strlit("Nobs");
    }
    if i == 0 { "Peg" }
    else if i == 1 { "Crib" }
    else if i == 2 { "Knave" }
    else if i == 3 { "Board" }
    else if i == 4 { "Fifteen" }
    else if i == 5 { "Skunk" }
    else if i == 6 { "Starter" }
    else { "Nobs" }
}

/// A name for a new game: an adjective and a noun chosen at random, e.g.
/// `Lucky Knave`. Names need not be unique; a game's identity is its id.
pub fn generate_game_name() -> (name: String)
    ensures
        name@.len() > 0,
        exists|i: int, j: int|
            0 <= i < NAME_WORDS && 0 <= j < NAME_WORDS && name@ == spec_adjective(i) + " "@ + spec_noun(j),
{
    let i = random_below(NAME_WORDS);
    let j = random_below(NAME_WORDS);
    let mut name = String::from_str(adjective(i));
    proof {
        reveal_strlit(" ");
    }
    name.append(" ");
    name.append(noun(j));
    assert(name@ == spec_adjective(i as int) + " "@ + spec_noun(j as int));
    name
}

} // verus!
