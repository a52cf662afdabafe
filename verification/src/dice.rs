//! Dice: colors, sides and rolled values, plus the textual label of a die
//! that the combat log uses.

use vstd::prelude::*;

verus! {

/// The color of a die.
#[derive(Copy, Clone, Debug, PartialEq, Eq, Structural)]
pub enum Color {
    Colorless,
    Blue,
    Red,
    Yellow,
    Green,
}

/// A die with a fixed number of sides.  `rolled_value` is `None` while the
/// die rests in the `available` or `drafted` partition of a pool and holds
/// the rolled face once the die has been rolled.
#[derive(Copy, Clone, Debug)]
pub struct Die {
    pub color: Color,
    pub sides: usize,
    pub rolled_value: Option<usize>,
}

/// The identity of a die, independent of its current rolled face.  The
/// conserved quantity of a dice pool is the multiset of kinds.
pub open spec fn die_kind(d: Die) -> (Color, usize) {
    (d.color, d.sides)
}

/// A die the roller can handle: at least one side, and few enough sides for
/// the integer range of the random number source.
pub open spec fn die_wf(d: Die) -> bool {
    1 <= d.sides < u32::MAX
}

/// An unrolled die: no rolled face recorded.
pub open spec fn die_clear(d: Die) -> bool {
    d.rolled_value is None
}

/// A rolled die: the recorded face lies between 1 and the side count.
pub open spec fn die_rolled(d: Die) -> bool {
    match d.rolled_value {
        Some(v) => 1 <= v <= d.sides,
        None => false,
    }
}

/// The same die with the rolled face erased.
pub open spec fn cleared(d: Die) -> Die {
    Die { color: d.color, sides: d.sides, rolled_value: None }
}

/// A whole dice list with every rolled face erased.
pub open spec fn clear_all(s: Seq<Die>) -> Seq<Die> {
    s.map_values(|d: Die| cleared(d))
}

impl Die {
    pub fn colorless(n: usize) -> (d: Die)
        ensures
            d == (Die { color: Color::Colorless, sides: n, rolled_value: None::<usize> }),
    {
        Die { color: Color::Colorless, sides: n, rolled_value: None }
    }

    pub fn blue(n: usize) -> (d: Die)
        ensures
            d == (Die { color: Color::Blue, sides: n, rolled_value: None::<usize> }),
    {
        Die { color: Color::Blue, sides: n, rolled_value: None }
    }

    pub fn red(n: usize) -> (d: Die)
        ensures
            d == (Die { color: Color::Red, sides: n, rolled_value: None::<usize> }),
    {
        Die { color: Color::Red, sides: n, rolled_value: None }
    }

    pub fn yellow(n: usize) -> (d: Die)
        ensures
            d == (Die { color: Color::Yellow, sides: n, rolled_value: None::<usize> }),
    {
        Die { color: Color::Yellow, sides: n, rolled_value: None }
    }

    pub fn green(n: usize) -> (d: Die)
        ensures
            d == (Die { color: Color::Green, sides: n, rolled_value: None::<usize> }),
    {
        Die { color: Color::Green, sides: n, rolled_value: None }
    }
}

/// The decimal digit characters of `n`, most significant first.
pub open spec fn dec_digits(n: nat) -> Seq<char>
    decreases n,
{
    if n < 10 {
        seq![digit_char(n)]
    } else {
        dec_digits(n / 10).push(digit_char(n % 10))
    }
}

/// The character for a single decimal digit.
pub open spec fn digit_char(n: nat) -> char {
    if n == 0 {
        '0'
    } else if n == 1 {
        '1'
    } else if n == 2 {
        '2'
    } else if n == 3 {
        '3'
    } else if n == 4 {
        '4'
    } else if n == 5 {
        '5'
    } else if n == 6 {
        '6'
    } else if n == 7 {
        '7'
    } else if n == 8 {
        '8'
    } else {
        '9'
    }
}

/// The three-letter color prefix of a die label.
pub open spec fn color_text(c: Color) -> Seq<char> {
    match c {
        Color::Red => "red"@,
        Color::Blue => "blu"@,
        Color::Yellow => "yel"@,
        Color::Green => "grn"@,
        Color::Colorless => "non"@,
    }
}

/// The textual label of a die: color prefix, then either the side count for
/// an unrolled die, or the rolled face followed by the side count in
/// parentheses.
pub open spec fn die_text(d: Die) -> Seq<char> {
    match d.rolled_value {
        Some(v) => color_text(d.color) + dec_digits(v as nat) + " ("@ + dec_digits(
            d.sides as nat,
        ) + ")"@,
        None => color_text(d.color) + dec_digits(d.sides as nat),
    }
}

fn digit_str(d: usize) -> (r: &'static str)
    requires
        d < 10,
    ensures
        r@ == seq![digit_char(d as nat)],
{
    let r: &'static str = match d {
        0 => "0",
        1 => "1",
        2 => "2",
        3 => "3",
        4 => "4",
        5 => "5",
        6 => "6",
        7 => "7",
        8 => "8",
        _ => "9",
    };
    proof {
        reveal_strlit("0");
        reveal_strlit("1");
        reveal_strlit("2");
        reveal_strlit("3");
        reveal_strlit("4");
        reveal_strlit("5");
        reveal_strlit("6");
        reveal_strlit("7");
        reveal_strlit("8");
        reveal_strlit("9");
        assert(r@ =~= seq![digit_char(d as nat)]);
    }
    r
}

/// Appends the decimal rendering of `n` to `s`.
pub fn push_dec(s: &mut String, n: usize)
    ensures
        final (s)@ == old(s)@ + dec_digits(n as nat),
    decreases n,
{
    if n < 10 {
        s.append(digit_str(n));
    } else {
        push_dec(s, n / 10);
        s.append(digit_str(n % 10));
        proof {
            assert(old(s)@ + dec_digits((n / 10) as nat) + seq![
                digit_char((n % 10) as nat),
            ] =~= old(s)@ + dec_digits(n as nat));
        }
    }
}

fn color_str(c: Color) -> (r: &'static str)
    ensures
        r@ == color_text(c),
{
    match c {
        Color::Red => "red",
        Color::Blue => "blu",
        Color::Yellow => "yel",
        Color::Green => "grn",
        Color::Colorless => "non",
    }
}

impl Die {
    /// The label of the die as it appears in the combat log.
    pub fn label(&self) -> (s: String)
        ensures
            s@ == die_text(*self),
    {
        let mut s = color_str(self.color).to_owned();
        match self.rolled_value {
            Some(v) => {
                push_dec(&mut s, v);
                s.append(" (");
                push_dec(&mut s, self.sides);
                s.append(")");
                proof {
                    reveal_strlit(" (");
                    reveal_strlit(")");
                    assert(s@ =~= die_text(*self));
                }
            },
            None => {
                push_dec(&mut s, self.sides);
            },
        }
        s
    }
}

} // verus!
