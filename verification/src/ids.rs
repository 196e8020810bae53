use vstd::prelude::*;
use vstd::string::*;

use crate::display::spec_digit;

verus! {

/// 128 random bits: the value of a fresh version-4 UUID from
/// `uuid::Uuid::new_v4`, read with `as_u128`. The bits come from a random
/// source; all that is claimed is that the UUID's version and variant bits
/// are set (`new_v4` ors them in), so the value is never zero.
#[verifier::external_body]
pub(crate) fn random_bits() -> (r: u128)
    ensures
        r != 0,
{
    uuid::Uuid::new_v4().as_u128()
}

/// A random number below `bound`.
pub fn random_below(bound: usize) -> (r: usize)
    requires
        bound > 0,
    ensures
        r < bound,
{
    let bits = random_bits();
    let r = bits % (bound as u128);
    r as usize
}

/// The lowercase hexadecimal digit of `d`, below sixteen.
pub open spec fn hex_digit(d: nat) -> char {
    if d < 10 {
        spec_digit(d)
    } else if d == 10 {
        'a'
    } else if d == 11 {
        'b'
    } else if d == 12 {
        'c'
    } else if d == 13 {
        'd'
    } else if d == 14 {
        'e'
    } else {
        'f'
    }
}

/// The `k`-th of the 32 hexadecimal digits of `v`, counted from the most
/// significant.
pub open spec fn hex_digit_at(v: u128, k: nat) -> char {
    hex_digit(((v as int / vstd::arithmetic::power::pow(16, (31 - k) as nat)) % 16) as nat)
}

/// A UUID's text: the 32 lowercase hexadecimal digits of its 128 bits, most
/// significant first, grouped 8-4-4-4-12 by hyphens, e.g.
/// `a1a2a3a4-b1b2-c1c2-d1d2-d3d4d5d6d7d8`.
pub open spec fn uuid_text(v: u128) -> Seq<char> {
    Seq::new(36, |i: int|
        if i == 8 || i == 13 || i == 18 || i == 23 {
            '-'
        } else {
            let hyphens_before: int = if i < 8 { 0 } else if i < 13 { 1 } else if i < 18 { 2 } else if i < 23 { 3 } else { 4 };
            hex_digit_at(v, (i - hyphens_before) as nat)
        })
}

/// The text of the UUID whose 128 bits are `v`: `uuid::Uuid::from_u128(v)`
/// (the bits in big-endian order) written by its `Display`, which writes the
/// hyphenated lowercase form that `uuid_text` spells out.
#[verifier::external_body]
fn uuid_to_string(v: u128) -> (s: String)
    ensures
        s@ == uuid_text(v),
{
    uuid::Uuid::from_u128(v).to_string()
}

/// The identity of a game: the 128 bits of its UUID. The default, all
/// zeroes, is the nil identity of a game not yet created.
#[derive(Clone, Copy, Debug, Default, PartialEq, Eq, Structural, Hash)]
pub struct GameId(pub u128);

/// The identity of a user: the 128 bits of their UUID.
#[derive(Clone, Copy, Debug, Default, PartialEq, Eq, Structural, Hash)]
pub struct UserId(pub u128);

impl GameId {
    /// The nil game identity.
    pub fn nil() -> (id: GameId)
        ensures id == GameId(0),
    {
        GameId(0)
    }

    /// A fresh random game identity; never the nil one.
    pub fn new() -> (id: GameId)
        ensures
            id != GameId(0),
    {
        GameId(random_bits())
    }

    /// The 128 bits of the identity.
    pub fn as_u128(&self) -> (v: u128)
        ensures v == self.0,
    {
        self.0
    }
}

impl UserId {
    /// The nil user identity.
    pub fn nil() -> (id: UserId)
        ensures id == UserId(0),
    {
        UserId(0)
    }

    /// The identity's text, e.g. `UserId(a1a2a3a4-b1b2-c1c2-d1d2-d3d4d5d6d7d8)`.
    pub open spec fn spec_text(self) -> Seq<char> {
        "UserId("@ + uuid_text(self.0) + ")"@
    }

    /// Writes the identity as text: its UUID, e.g.
    /// `UserId(a1a2a3a4-b1b2-c1c2-d1d2-d3d4d5d6d7d8)`.
    pub fn to_string(&self) -> (s: String)
        ensures s@ == self.spec_text(),
    {
        let mut s = String::from_str("UserId(");
        s.append(uuid_to_string(self.0).as_str());
        s.append(")");
        proof {
            reveal_strlit("UserId(");
            reveal_strlit(")");
        }
        s
    }

    /// A fresh random user identity; never the nil one.
    pub fn new() -> (id: UserId)
        ensures
            id != UserId(0),
    {
        UserId(random_bits())
    }

    /// The 128 bits of the identity.
    pub fn as_u128(&self) -> (v: u128)
        ensures v == self.0,
    {
        self.0
    }
}

} // verus!
