use vstd::prelude::*;
use vstd::string::*;

verus! {

/// The decimal digits of a natural number, most significant first.
pub open spec fn spec_decimal(n: nat) -> Seq<char>
    decreases n,
{
    if n < 10 {
        seq![spec_digit(n)]
    } else {
        spec_decimal(n / 10).push(spec_digit(n % 10))
    }
}

/// The character of a decimal digit.
pub open spec fn spec_digit(d: nat) -> char {
    if d == 0 { '0' }
    else if d == 1 { '1' }
    else if d == 2 { '2' }
    else if d == 3 { '3' }
    else if d == 4 { '4' }
    else if d == 5 { '5' }
    else if d == 6 { '6' }
    else if d == 7 { '7' }
    else if d == 8 { '8' }
    else { '9' }
}

fn digit_str(d: usize) -> (s: &'static str)
    requires d < 10,
    ensures s@ == seq![spec_digit(d as nat)],
{
    proof {
        reveal_strlit("0"); reveal_strlit("1"); reveal_strlit("2"); reveal_strlit("3");
        reveal_strlit("4"); reveal_strlit("5"); reveal_strlit("6"); reveal_strlit("7");
        reveal_strlit("8"); reveal_strlit("9");
    }
    if d == 0 { "0" }
    else if d == 1 { "1" }
    else if d == 2 { "2" }
    else if d == 3 { "3" }
    else if d == 4 { "4" }
    else if d == 5 { "5" }
    else if d == 6 { "6" }
    else if d == 7 { "7" }
    else if d == 8 { "8" }
    else { "9" }
}

/// Writes a number in decimal.
pub fn decimal(n: usize) -> (s: String)
    ensures s@ == spec_decimal(n as nat),
    decreases n,
{
    if n < 10 {
        let mut s = String::new();
        s.append(digit_str(n));
        s
    } else {
        let mut s = decimal(n / 10);
        s.append(digit_str(n % 10));
        s
    }
}

/// The spaces that fill `n` places.
pub open spec fn spaces(n: nat) -> Seq<char> {
    Seq::new(n, |i: int| ' ')
}

/// The number in decimal, right-aligned in `width` places (wider numbers
/// take the places they need).
pub open spec fn spec_padded(n: nat, width: nat) -> Seq<char> {
    let digits = spec_decimal(n);
    if digits.len() >= width {
        digits
    } else {
        spaces((width - digits.len()) as nat) + digits
    }
}

/// Writes a number in decimal, right-aligned in `width` places.
pub fn padded(n: usize, width: usize) -> (s: String)
    ensures s@ == spec_padded(n as nat, width as nat),
{
    let digits = decimal(n);
    let len = digits.as_str().unicode_len();
    let mut s = String::new();
    let mut i: usize = len;
    while i < width
        invariant
            len == spec_decimal(n as nat).len(),
            len <= i,
            i <= width || i == len,
            s@ == spaces((i - len) as nat),
        decreases width - i,
    {
        proof {
            reveal_strlit(" ");
        }
        s.append(" ");
        assert(s@ =~= spaces((i + 1 - len) as nat));
        i = i + 1;
    }
    s.append(digits.as_str());
    if len >= width {
        assert(s@ =~= spec_decimal(n as nat));
    } else {
        assert(s@ =~= spaces((width - len) as nat) + spec_decimal(n as nat));
    }
    s
}


/// The texts joined with `", "` between them.
pub open spec fn joined(parts: Seq<Seq<char>>) -> Seq<char>
    decreases parts.len(),
{
    if parts.len() == 0 {
        Seq::empty()
    } else if parts.len() == 1 {
        parts[0]
    } else {
        joined(parts.drop_last()) + ", "@ + parts.last()
    }
}

/// The texts of strings.
pub open spec fn texts(items: Seq<String>) -> Seq<Seq<char>> {
    items.map_values(|t: String| t@)
}

/// Joins the texts with `", "` between them, e.g. `AH, 2H`.
pub fn format_vec(items: &[String]) -> (s: String)
    ensures s@ == joined(texts(items@)),
{
    let ghost parts = texts(items@);
    let mut s = String::new();
    let mut i: usize = 0;
    proof {
        reveal_strlit(", ");
    }
    while i < items.len()
        invariant
            i <= items@.len(),
            parts == texts(items@),
            s@ == joined(parts.take(i as int)),
        decreases items.len() - i,
    {
        proof {
            assert(parts.take(i + 1).drop_last() =~= parts.take(i as int));
            assert(parts.take(i + 1).last() == items@[i as int]@);
            if i == 0 {
                assert(parts.take(1)[0] == items@[0]@);
            }
        }
        if i > 0 {
            s.append(", ");
        }
        s.append(items[i].as_str());
        i = i + 1;
    }
    assert(parts.take(items@.len() as int) =~= parts);
    s
}

} // verus!
