//! Reading a list of ports from text such as `25565/tcp,34197/udp`.
//!
//! The text is a list of elements separated by commas. An element is a port
//! number in decimal, a slash, and `tcp` or `udp` in either case; white
//! space may surround the element, the number and the protocol. The empty
//! text is the empty list. The first element that is not of that form fails
//! the whole text.

use crate::port::PortInfo;
use vstd::prelude::*;
use vstd::string::StringExecFns;

verus! {

/// What is wrong with an element of a port list.
#[derive(PartialEq, Eq, Structural, Clone, Copy, Debug)]
pub enum ParsePortErrorKind {
    /// The element holds no slash.
    MissingSlash,
    /// What stands before the slash is not a decimal number up to 65535.
    InvalidPort,
    /// What stands behind the slash is neither `tcp` nor `udp`.
    InvalidProtocol,
}

/// Why a port list was refused, as the contracts see it.
pub struct ParseFailure {
    /// What is wrong.
    pub kind: ParsePortErrorKind,
    /// The text that is wrong, without surrounding white space.
    pub token: Seq<char>,
}

/// Why a port list was refused.
#[derive(Debug)]
pub struct ParsePortError {
    /// What is wrong.
    pub kind: ParsePortErrorKind,
    /// The text that is wrong, without surrounding white space: the whole
    /// element where the slash is missing, else the number or the protocol.
    pub token: String,
}

/// The words that introduce the offending text in an error message.
pub open spec fn message_prefix(kind: ParsePortErrorKind) -> Seq<char> {
    match kind {
        ParsePortErrorKind::MissingSlash => "missing '/' in port: "@,
        ParsePortErrorKind::InvalidPort => "invalid port number: "@,
        ParsePortErrorKind::InvalidProtocol => "invalid protocol: "@,
    }
}

impl ParsePortError {
    /// The error as the contracts see it.
    pub open spec fn view(&self) -> ParseFailure {
        ParseFailure { kind: self.kind, token: self.token@ }
    }

    /// A sentence that names what is wrong and the offending text.
    pub fn message(&self) -> (r: String)
        ensures
            r@ == message_prefix(self.kind) + self.token@,
    {
        let mut text = match self.kind {
            ParsePortErrorKind::MissingSlash => String::from_str("missing '/' in port: "),
            ParsePortErrorKind::InvalidPort => String::from_str("invalid port number: "),
            ParsePortErrorKind::InvalidProtocol => String::from_str("invalid protocol: "),
        };
        text.append(self.token.as_str());
        text
    }
}

/// White space: the characters with Unicode's `White_Space` property.
pub open spec fn is_space(c: char) -> bool {
    let n = c as u32;
    ||| 0x09 <= n <= 0x0D
    ||| n == 0x20
    ||| n == 0x85
    ||| n == 0xA0
    ||| n == 0x1680
    ||| 0x2000 <= n <= 0x200A
    ||| n == 0x2028
    ||| n == 0x2029
    ||| n == 0x202F
    ||| n == 0x205F
    ||| n == 0x3000
}

/// The decimal digits `0` to `9`.
pub open spec fn is_digit(c: char) -> bool {
    0x30 <= c as u32 <= 0x39
}

/// The number that a decimal digit stands for.
pub open spec fn digit_value(c: char) -> int {
    c as u32 - 0x30
}

/// The lower-case form of an ASCII capital; any other character itself.
pub open spec fn ascii_lower(c: char) -> char {
    if 0x41 <= c as u32 <= 0x5A {
        ((c as u32 + 0x20) as u8) as char
    } else {
        c
    }
}

/// Whether every character is a decimal digit.
pub open spec fn all_digits(s: Seq<char>) -> bool {
    forall|i: int| 0 <= i < s.len() ==> is_digit(#[trigger] s[i])
}

/// The number that a sequence of decimal digits spells.
pub open spec fn decimal_value(s: Seq<char>) -> int
    decreases s.len(),
{
    if s.len() == 0 {
        0
    } else {
        decimal_value(s.drop_last()) * 10 + digit_value(s.last())
    }
}

/// A text without the white space at its beginning.
pub open spec fn trim_start(s: Seq<char>) -> Seq<char>
    decreases s.len(),
{
    if s.len() > 0 && is_space(s[0]) {
        trim_start(s.skip(1))
    } else {
        s
    }
}

/// A text without the white space at its end.
pub open spec fn trim_end(s: Seq<char>) -> Seq<char>
    decreases s.len(),
{
    if s.len() > 0 && is_space(s.last()) {
        trim_end(s.drop_last())
    } else {
        s
    }
}

/// A text without the white space at its beginning and end.
pub open spec fn trim(s: Seq<char>) -> Seq<char> {
    trim_end(trim_start(s))
}

/// The index of the first `c` in `s`, or the length of `s` if there is none.
pub open spec fn index_of(s: Seq<char>, c: char) -> nat
    decreases s.len(),
{
    if s.len() == 0 || s[0] == c {
        0
    } else {
        1 + index_of(s.skip(1), c)
    }
}

/// The pieces of `s` between the occurrences of `sep`. There is always at
/// least one piece.
pub open spec fn split(s: Seq<char>, sep: char) -> Seq<Seq<char>>
    decreases s.len(),
{
    let i = index_of(s, sep);
    if i >= s.len() {
        seq![s]
    } else {
        seq![s.take(i as int)] + split(s.skip(i as int + 1), sep)
    }
}

/// The port number that a token spells: the token is made of decimal
/// digits, at least one, and its value is at most 65535.
pub open spec fn spec_parse_number(token: Seq<char>) -> Option<u16> {
    if token.len() > 0 && all_digits(token) && decimal_value(token) <= 0xffff {
        Some(decimal_value(token) as u16)
    } else {
        None
    }
}

/// Whether a token is the given word of three letters, in either case.
pub open spec fn is_word(token: Seq<char>, word: Seq<char>) -> bool {
    &&& token.len() == 3
    &&& word.len() == 3
    &&& ascii_lower(token[0]) == word[0]
    &&& ascii_lower(token[1]) == word[1]
    &&& ascii_lower(token[2]) == word[2]
}

/// The port that an element of the list spells, or what is wrong with it.
pub open spec fn spec_parse_element(element: Seq<char>) -> Result<PortInfo, ParseFailure> {
    let text = trim(element);
    let slash = index_of(text, '/');
    let number = trim(text.take(slash as int));
    let protocol = trim(text.skip(slash as int + 1));
    if slash >= text.len() {
        Err(ParseFailure { kind: ParsePortErrorKind::MissingSlash, token: text })
    } else {
        match spec_parse_number(number) {
            None => Err(ParseFailure { kind: ParsePortErrorKind::InvalidPort, token: number }),
            Some(n) => if is_word(protocol, seq!['t', 'c', 'p']) {
                Ok(PortInfo::TCP(n))
            } else if is_word(protocol, seq!['u', 'd', 'p']) {
                Ok(PortInfo::UDP(n))
            } else {
                Err(ParseFailure { kind: ParsePortErrorKind::InvalidProtocol, token: protocol })
            },
        }
    }
}

/// The ports that a sequence of elements spells, in order, or what is
/// wrong with the first element that spells none.
pub open spec fn spec_parse_all(elements: Seq<Seq<char>>) -> Result<Seq<PortInfo>, ParseFailure>
    decreases elements.len(),
{
    if elements.len() == 0 {
        Ok(Seq::empty())
    } else {
        match spec_parse_element(elements[0]) {
            Err(e) => Err(e),
            Ok(port) => match spec_parse_all(elements.skip(1)) {
                Err(e) => Err(e),
                Ok(rest) => Ok(seq![port] + rest),
            },
        }
    }
}

/// The ports that a text spells.
pub open spec fn spec_parse_ports(text: Seq<char>) -> Result<Seq<PortInfo>, ParseFailure> {
    if text.len() == 0 {
        Ok(Seq::empty())
    } else {
        spec_parse_all(split(text, ','))
    }
}

/// A result with `done` put in front of the ports it holds.
pub open spec fn after(done: Seq<PortInfo>, rest: Result<Seq<PortInfo>, ParseFailure>) -> Result<
    Seq<PortInfo>,
    ParseFailure,
> {
    match rest {
        Ok(ports) => Ok(done + ports),
        Err(e) => Err(e),
    }
}

fn collect_chars(text: &str) -> (r: Vec<char>)
    ensures
        r@ == text@,
{
    let mut out: Vec<char> = Vec::new();
    for c in it: text.chars()
        invariant
            out@ == it.seq().take(it.index() as int),
            it.seq() == text@,
    {
        out.push(c);
    }
    out
}

fn is_space_char(c: char) -> (r: bool)
    ensures
        r == is_space(c),
{
    let n: u32 = c as u32;
    (0x09 <= n && n <= 0x0D) || n == 0x20 || n == 0x85 || n == 0xA0 || n == 0x1680 || (0x2000 <= n
        && n <= 0x200A) || n == 0x2028 || n == 0x2029 || n == 0x202F || n == 0x205F || n == 0x3000
}

/// The bounds of `chars[from..to]` without the white space at its
/// beginning and end.
fn trim_range(chars: &Vec<char>, from: usize, to: usize) -> (r: (usize, usize))
    requires
        from <= to <= chars.len(),
    ensures
        from <= r.0 <= r.1 <= to,
        chars@.subrange(r.0 as int, r.1 as int) == trim(chars@.subrange(from as int, to as int)),
{
    let mut a: usize = from;
    while a < to && is_space_char(chars[a])
        invariant
            from <= a <= to <= chars.len(),
            trim_start(chars@.subrange(from as int, to as int)) == trim_start(
                chars@.subrange(a as int, to as int),
            ),
        decreases to - a,
    {
        assert(chars@.subrange(a as int, to as int).skip(1) =~= chars@.subrange(
            a as int + 1,
            to as int,
        ));
        a += 1;
    }
    let mut b: usize = to;
    while b > a && is_space_char(chars[b - 1])
        invariant
            a <= b <= to <= chars.len(),
            trim_end(chars@.subrange(a as int, to as int)) == trim_end(
                chars@.subrange(a as int, b as int),
            ),
        decreases b - a,
    {
        assert(chars@.subrange(a as int, b as int).drop_last() =~= chars@.subrange(
            a as int,
            b as int - 1,
        ));
        b -= 1;
    }
    (a, b)
}

/// The index of the first `c` in `chars[from..to]`, or `to` if there is
/// none.
fn find_char(chars: &Vec<char>, from: usize, to: usize, c: char) -> (r: usize)
    requires
        from <= to <= chars.len(),
    ensures
        from <= r <= to,
        r - from == index_of(chars@.subrange(from as int, to as int), c),
{
    let mut k: usize = from;
    while k < to && chars[k] != c
        invariant
            from <= k <= to <= chars.len(),
            index_of(chars@.subrange(from as int, to as int), c) == (k - from) + index_of(
                chars@.subrange(k as int, to as int),
                c,
            ),
        decreases to - k,
    {
        assert(chars@.subrange(k as int, to as int).skip(1) =~= chars@.subrange(
            k as int + 1,
            to as int,
        ));
        k += 1;
    }
    k
}

/// The value of a prefix of decimal digits is at most the value of the
/// whole.
pub proof fn lemma_decimal_value_prefix(s: Seq<char>, k: int)
    requires
        all_digits(s),
        0 <= k <= s.len(),
    ensures
        0 <= decimal_value(s.take(k)) <= decimal_value(s),
    decreases s.len() - k,
{
    if k == s.len() {
        assert(s.take(k) =~= s);
        lemma_decimal_value_nonnegative(s);
    } else {
        lemma_decimal_value_prefix(s, k + 1);
        assert(s.take(k + 1).drop_last() =~= s.take(k));
        assert(is_digit(s[k]));
        assert(s.take(k + 1).last() == s[k]);
        lemma_decimal_value_nonnegative(s.take(k));
    }
}

/// Decimal digits spell no negative number.
pub proof fn lemma_decimal_value_nonnegative(s: Seq<char>)
    requires
        all_digits(s),
    ensures
        0 <= decimal_value(s),
    decreases s.len(),
{
    if s.len() > 0 {
        assert(all_digits(s.drop_last())) by {
            assert forall|i: int| 0 <= i < s.drop_last().len() implies is_digit(
                #[trigger] s.drop_last()[i],
            ) by {
                assert(s.drop_last()[i] == s[i]);
            }
        }
        lemma_decimal_value_nonnegative(s.drop_last());
        assert(is_digit(s[s.len() - 1]));
    }
}

fn parse_number(chars: &Vec<char>, from: usize, to: usize) -> (r: Option<u16>)
    requires
        from <= to <= chars.len(),
    ensures
        r == spec_parse_number(chars@.subrange(from as int, to as int)),
{
    let ghost token = chars@.subrange(from as int, to as int);
    if from == to {
        return None;
    }
    let mut value: u32 = 0;
    let mut k: usize = from;
    while k < to
        invariant
            from <= k <= to <= chars.len(),
            token == chars@.subrange(from as int, to as int),
            all_digits(token.take(k - from)),
            value == decimal_value(token.take(k - from)),
            value <= 0xffff,
        decreases to - k,
    {
        let c = chars[k];
        let n: u32 = c as u32;
        if n < 0x30 || n > 0x39 {
            assert(!is_digit(token[k - from]));
            return None;
        }
        let ghost longer = token.take(k - from + 1);
        proof {
            assert(longer.drop_last() =~= token.take(k - from));
            assert(longer.last() == c);
            assert forall|i: int| 0 <= i < longer.len() implies is_digit(#[trigger] longer[i]) by {
                if i < k - from {
                    assert(token.take(k - from)[i] == longer[i]);
                }
            }
        }
        value = value * 10 + (n - 0x30);
        if value > 0xffff {
            proof {
                if all_digits(token) {
                    lemma_decimal_value_prefix(token, k - from + 1);
                }
            }
            return None;
        }
        k += 1;
    }
    assert(token.take(k - from) =~= token);
    Some(value as u16)
}

fn is_letter(c: char, lower: char, upper: char) -> (r: bool)
    requires
        0x61 <= lower as u32 <= 0x7A,
        upper as u32 + 0x20 == lower as u32,
    ensures
        r == (ascii_lower(c) == lower),
{
    c == lower || c == upper
}

/// Whether `chars[from..to]` is `tcp` (`Some(true)`), `udp` (`Some(false)`)
/// or neither.
fn parse_protocol(chars: &Vec<char>, from: usize, to: usize) -> (r: Option<bool>)
    requires
        from <= to <= chars.len(),
    ensures
        r == if is_word(chars@.subrange(from as int, to as int), seq!['t', 'c', 'p']) {
            Some(true)
        } else if is_word(chars@.subrange(from as int, to as int), seq!['u', 'd', 'p']) {
            Some(false)
        } else {
            None
        },
{
    if to - from != 3 {
        return None;
    }
    let c0 = chars[from];
    let c1 = chars[from + 1];
    let c2 = chars[from + 2];
    if is_letter(c0, 't', 'T') && is_letter(c1, 'c', 'C') && is_letter(c2, 'p', 'P') {
        Some(true)
    } else if is_letter(c0, 'u', 'U') && is_letter(c1, 'd', 'D') && is_letter(c2, 'p', 'P') {
        Some(false)
    } else {
        None
    }
}

fn failure(kind: ParsePortErrorKind, text: &str, from: usize, to: usize) -> (r: ParsePortError)
    requires
        from <= to <= text@.len(),
    ensures
        r@ == (ParseFailure { kind, token: text@.subrange(from as int, to as int) }),
{
    ParsePortError { kind, token: String::from_str(text.substring_char(from, to)) }
}

/// Reads the element `chars[from..to]` of the list `text`.
fn parse_element(text: &str, chars: &Vec<char>, from: usize, to: usize) -> (r: Result<
    PortInfo,
    ParsePortError,
>)
    requires
        chars@ == text@,
        from <= to <= chars.len(),
    ensures
        match r {
            Ok(port) => spec_parse_element(chars@.subrange(from as int, to as int)) == Ok::<
                PortInfo,
                ParseFailure,
            >(port),
            Err(e) => spec_parse_element(chars@.subrange(from as int, to as int)) == Err::<
                PortInfo,
                ParseFailure,
            >(e@),
        },
{
    let (a, b) = trim_range(chars, from, to);
    let ghost trimmed = chars@.subrange(a as int, b as int);
    let slash = find_char(chars, a, b, '/');
    if slash >= b {
        return Err(failure(ParsePortErrorKind::MissingSlash, text, a, b));
    }
    assert(trimmed.take(slash - a) =~= chars@.subrange(a as int, slash as int));
    assert(trimmed.skip(slash - a + 1) =~= chars@.subrange(slash as int + 1, b as int));
    let (na, nb) = trim_range(chars, a, slash);
    let (pa, pb) = trim_range(chars, slash + 1, b);
    match parse_number(chars, na, nb) {
        None => Err(failure(ParsePortErrorKind::InvalidPort, text, na, nb)),
        Some(n) => match parse_protocol(chars, pa, pb) {
            Some(true) => Ok(PortInfo::TCP(n)),
            Some(false) => Ok(PortInfo::UDP(n)),
            None => Err(failure(ParsePortErrorKind::InvalidProtocol, text, pa, pb)),
        },
    }
}

/// Reads a list of ports. Gives the ports in the order of the text, or
/// says what is wrong with the first element that is not a port.
pub fn parse_ports(list: &str) -> (r: Result<Vec<PortInfo>, ParsePortError>)
    ensures
        match r {
            Ok(ports) => spec_parse_ports(list@) == Ok::<Seq<PortInfo>, ParseFailure>(ports@),
            Err(e) => spec_parse_ports(list@) == Err::<Seq<PortInfo>, ParseFailure>(e@),
        },
{
    let chars = collect_chars(list);
    let mut ports: Vec<PortInfo> = Vec::new();
    let n = chars.len();
    if n == 0 {
        return Ok(ports);
    }
    let mut pos: usize = 0;
    assert(chars@.skip(0) =~= chars@);
    assert(Seq::<PortInfo>::empty() + Seq::<PortInfo>::empty() =~= Seq::<PortInfo>::empty());
    loop
        invariant
            chars@ == list@,
            n == chars.len(),
            pos <= n,
            spec_parse_ports(list@) == after(
                ports@,
                spec_parse_all(split(chars@.skip(pos as int), ',')),
            ),
        decreases n - pos,
    {
        let ghost rest = chars@.skip(pos as int);
        let ghost done = ports@;
        assert(rest =~= chars@.subrange(pos as int, n as int));
        let end = find_char(&chars, pos, n, ',');
        let ghost element = chars@.subrange(pos as int, end as int);
        let ghost pieces = split(rest, ',');
        proof {
            if end < n {
                assert(rest.take(end - pos) =~= element);
                assert(rest.skip(end - pos + 1) =~= chars@.skip(end as int + 1));
                assert(pieces[0] == element);
                assert(pieces.skip(1) =~= split(chars@.skip(end as int + 1), ','));
            } else {
                assert(element =~= rest);
                assert(pieces[0] == element);
                assert(pieces.skip(1) =~= Seq::<Seq<char>>::empty());
            }
        }
        match parse_element(list, &chars, pos, end) {
            Err(e) => {
                return Err(e);
            },
            Ok(port) => {
                ports.push(port);
            },
        }
        proof {
            let tail = spec_parse_all(pieces.skip(1));
            match tail {
                Ok(more) => {
                    assert(done + (seq![ports@.last()] + more) =~= ports@ + more);
                },
                Err(e) => {},
            }
        }
        if end >= n {
            assert(ports@ + Seq::<PortInfo>::empty() =~= ports@);
            return Ok(ports);
        }
        pos = end + 1;
    }
}

} // verus!
