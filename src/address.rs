//! IPv4 addresses and their dotted-decimal text.

use vstd::prelude::*;

verus! {

/// The character of a decimal digit `d < 10`.
pub open spec fn digit_char(d: nat) -> char {
    "0123456789"@[d as int]
}

/// The decimal text of `n`, without leading zeros.
pub open spec fn decimal(n: nat) -> Seq<char>
    decreases n,
{
    if n < 10 {
        seq![digit_char(n)]
    } else {
        decimal(n / 10) + seq![digit_char(n % 10)]
    }
}

/// An IPv4 address: four octets, most significant first.
#[derive(Clone, Copy, Debug, PartialEq, Eq, Structural)]
pub struct Address(pub u8, pub u8, pub u8, pub u8);

impl Address {
    /// The text `a.b.c.d` of this address, each octet in decimal.
    pub open spec fn dotted(&self) -> Seq<char> {
        decimal(self.0 as nat) + seq!['.'] + decimal(self.1 as nat) + seq!['.']
            + decimal(self.2 as nat) + seq!['.'] + decimal(self.3 as nat)
    }

    /// The address 0.0.0.0.
    pub fn zero() -> (r: Address)
        ensures
            r == Address(0, 0, 0, 0),
    {
        Address(0, 0, 0, 0)
    }

    /// The address held by the first four bytes of `buf`.
    pub fn from_slice(buf: &[u8]) -> (r: Address)
        requires
            buf@.len() >= 4,
        ensures
            r == Address(buf@[0], buf@[1], buf@[2], buf@[3]),
    {
        Address(buf[0], buf[1], buf[2], buf[3])
    }

    /// The dotted-decimal text of this address.
    pub fn to_string(&self) -> (r: String)
        ensures
            r@ == self.dotted(),
    {
        let mut s = String::new();
        push_decimal(&mut s, self.0);
        push_dot(&mut s);
        push_decimal(&mut s, self.1);
        push_dot(&mut s);
        push_decimal(&mut s, self.2);
        push_dot(&mut s);
        push_decimal(&mut s, self.3);
        s
    }
}

fn push_dot(s: &mut String)
    ensures
        final(s)@ == old(s)@ + seq!['.'],
{
    proof {
        reveal_strlit(".");
    }
    s.append(".");
}

/// The one-character text of the digit `d`.
fn digit_str(d: u8) -> (r: &'static str)
    requires
        d < 10,
    ensures
        r@ == seq![digit_char(d as nat)],
{
    proof {
        reveal_strlit("0123456789");
    }
    match d {
        0 => {
            proof { reveal_strlit("0"); }
            "0"
        },
        1 => {
            proof { reveal_strlit("1"); }
            "1"
        },
        2 => {
            proof { reveal_strlit("2"); }
            "2"
        },
        3 => {
            proof { reveal_strlit("3"); }
            "3"
        },
        4 => {
            proof { reveal_strlit("4"); }
            "4"
        },
        5 => {
            proof { reveal_strlit("5"); }
            "5"
        },
        6 => {
            proof { reveal_strlit("6"); }
            "6"
        },
        7 => {
            proof { reveal_strlit("7"); }
            "7"
        },
        8 => {
            proof { reveal_strlit("8"); }
            "8"
        },
        _ => {
            proof { reveal_strlit("9"); }
            "9"
        },
    }
}

/// Appends the decimal text of `n` to `s`.
fn push_decimal(s: &mut String, n: u8)
    ensures
        final(s)@ == old(s)@ + decimal(n as nat),
{
    let ones = n % 10;
    let tens = (n / 10) % 10;
    let hundreds = n / 100;
    if n >= 100 {
        s.append(digit_str(hundreds));
    }
    if n >= 10 {
        s.append(digit_str(tens));
    }
    s.append(digit_str(ones));
    proof {
        let m = n as nat;
        if m >= 100 {
            assert(decimal(m / 10) == decimal(m / 100) + seq![digit_char((m / 10) % 10)]);
            assert(decimal(m / 100) == seq![digit_char(m / 100)]);
        } else if m >= 10 {
            assert(decimal(m / 10) == seq![digit_char(m / 10)]);
        }
    }
}

} // verus!
