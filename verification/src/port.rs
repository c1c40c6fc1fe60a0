//! Port descriptors: a transport protocol and a 16-bit port number, and how
//! one is written as text.

use vstd::prelude::*;
use vstd::string::StringExecFns;

verus! {

/// A TCP or UDP port.
#[derive(PartialEq, Eq, Structural, Clone, Copy, Debug)]
pub enum PortInfo {
    TCP(u16),
    UDP(u16),
}

/// The character that stands for a decimal digit.
pub open spec fn digit_char(d: int) -> char {
    if d == 0 {
        '0'
    } else if d == 1 {
        '1'
    } else if d == 2 {
        '2'
    } else if d == 3 {
        '3'
    } else if d == 4 {
        '4'
    } else if d == 5 {
        '5'
    } else if d == 6 {
        '6'
    } else if d == 7 {
        '7'
    } else if d == 8 {
        '8'
    } else {
        '9'
    }
}

/// A number in decimal, without sign or leading zeros.
pub open spec fn decimal_digits(n: nat) -> Seq<char>
    decreases n,
{
    if n < 10 {
        seq![digit_char(n as int)]
    } else {
        decimal_digits(n / 10).push(digit_char((n % 10) as int))
    }
}

fn digit_str(d: u16) -> (r: &'static str)
    requires
        d < 10,
    ensures
        r@ == seq![digit_char(d as int)],
{
    proof {
        reveal_strlit("0");
        reveal_strlit("1");
        reveal_strlit("2");
        reveal_strlit("3");
        reveal_strlit("4");
        reveal_strlit("5");
        reveal_strlit("6");
        reveal_strlit("7");
        reveal_strlit("8");
        reveal_strlit("9");
    }
    let r = if d == 0 {
        "0"
    } else if d == 1 {
        "1"
    } else if d == 2 {
        "2"
    } else if d == 3 {
        "3"
    } else if d == 4 {
        "4"
    } else if d == 5 {
        "5"
    } else if d == 6 {
        "6"
    } else if d == 7 {
        "7"
    } else if d == 8 {
        "8"
    } else {
        "9"
    };
    assert(r@ =~= seq![digit_char(d as int)]);
    r
}

fn push_decimal(text: &mut String, n: u16)
    ensures
        final(text)@ == old(text)@ + decimal_digits(n as nat),
    decreases n,
{
    if n >= 10 {
        push_decimal(text, n / 10);
    }
    text.append(digit_str(n % 10));
    assert(text@ =~= old(text)@ + decimal_digits(n as nat));
}

impl PortInfo {
    /// The port number, whatever the protocol.
    pub open spec fn number(self) -> u16 {
        match self {
            PortInfo::TCP(n) => n,
            PortInfo::UDP(n) => n,
        }
    }

    /// Whether the protocol is TCP.
    pub open spec fn is_tcp(self) -> bool {
        self is TCP
    }

    /// The protocol's name in lower case.
    pub open spec fn protocol_name(self) -> Seq<char> {
        match self {
            PortInfo::TCP(_) => seq!['t', 'c', 'p'],
            PortInfo::UDP(_) => seq!['u', 'd', 'p'],
        }
    }

    /// The port as text: the number in decimal, a slash, and the protocol's
    /// name in lower case.
    pub open spec fn spec_render(self) -> Seq<char> {
        decimal_digits(self.number() as nat) + seq!['/'] + self.protocol_name()
    }

    /// Writes the port as text, such as `25565/tcp`.
    pub fn to_string(&self) -> (r: String)
        ensures
            r@ == self.spec_render(),
    {
        proof {
            reveal_strlit("/tcp");
            reveal_strlit("/udp");
        }
        let mut text = String::new();
        match self {
            PortInfo::TCP(n) => {
                push_decimal(&mut text, *n);
                text.append("/tcp");
            },
            PortInfo::UDP(n) => {
                push_decimal(&mut text, *n);
                text.append("/udp");
            },
        }
        assert(text@ =~= self.spec_render());
        text
    }
}

} // verus!
