//! Writing ports as text and reading them back gives the same ports.

use crate::parse::{
    all_digits, decimal_value, index_of, is_digit, is_space, is_word, spec_parse_all,
    spec_parse_element, spec_parse_number, spec_parse_ports, split, trim, trim_end, trim_start,
    ParseFailure,
};
use crate::port::{decimal_digits, digit_char, PortInfo};
use vstd::prelude::*;

verus! {

/// A list of ports as text: each port as [`PortInfo::spec_render`] writes
/// it, with a comma between one and the next.
pub open spec fn spec_render_list(ports: Seq<PortInfo>) -> Seq<char>
    decreases ports.len(),
{
    if ports.len() == 0 {
        Seq::empty()
    } else if ports.len() == 1 {
        ports[0].spec_render()
    } else {
        ports[0].spec_render() + seq![','] + spec_render_list(ports.skip(1))
    }
}

/// Each port of a list as text.
pub open spec fn rendered(ports: Seq<PortInfo>) -> Seq<Seq<char>> {
    Seq::new(ports.len(), |i: int| ports[i].spec_render())
}

/// A number in decimal is made of digits, at least one, and spells itself.
pub proof fn lemma_decimal_digits_value(n: nat)
    ensures
        decimal_digits(n).len() > 0,
        all_digits(decimal_digits(n)),
        decimal_value(decimal_digits(n)) == n,
    decreases n,
{
    let d = decimal_digits(n);
    if n < 10 {
        assert(d.drop_last() =~= Seq::<char>::empty());
        assert(d.last() == digit_char(n as int));
        assert(decimal_value(d.drop_last()) == 0);
    } else {
        lemma_decimal_digits_value(n / 10);
        let head = decimal_digits(n / 10);
        assert(d.drop_last() =~= head);
        assert(d.last() == digit_char((n % 10) as int));
        assert forall|i: int| 0 <= i < d.len() implies is_digit(#[trigger] d[i]) by {
            if i < head.len() {
                assert(d[i] == head[i]);
            }
        }
    }
}

/// A text that neither begins nor ends with white space is its own trimmed
/// form.
pub proof fn lemma_trim_unchanged(s: Seq<char>)
    requires
        s.len() > 0,
        !is_space(s[0]),
        !is_space(s.last()),
    ensures
        trim(s) == s,
{
}

/// In a text made of `a`, the character `c` and `b`, where `a` holds no
/// `c`, the first `c` stands right behind `a`.
pub proof fn lemma_index_of_separator(a: Seq<char>, c: char, b: Seq<char>)
    requires
        forall|i: int| 0 <= i < a.len() ==> a[i] != c,
    ensures
        index_of(a + seq![c] + b, c) == a.len(),
    decreases a.len(),
{
    let s = a + seq![c] + b;
    if a.len() == 0 {
        assert(s[0] == c);
    } else {
        assert(s[0] == a[0]);
        assert(s.skip(1) =~= a.skip(1) + seq![c] + b);
        lemma_index_of_separator(a.skip(1), c, b);
    }
}

/// In a text that holds no `c`, the search for `c` ends at the length.
pub proof fn lemma_index_of_absent(s: Seq<char>, c: char)
    requires
        forall|i: int| 0 <= i < s.len() ==> s[i] != c,
    ensures
        index_of(s, c) == s.len(),
    decreases s.len(),
{
    if s.len() > 0 {
        lemma_index_of_absent(s.skip(1), c);
    }
}

/// A port as text is not empty, begins with a digit, ends with a letter,
/// and holds neither comma nor white space.
pub proof fn lemma_rendered_characters(port: PortInfo)
    ensures
        port.spec_render().len() > 0,
        is_digit(port.spec_render()[0]),
        port.spec_render().last() == 'p',
        forall|i: int|
            0 <= i < port.spec_render().len() ==> (#[trigger] port.spec_render()[i]) != ','
                && !is_space(port.spec_render()[i]),
{
    let digits = decimal_digits(port.number() as nat);
    let name = port.protocol_name();
    let text = port.spec_render();
    lemma_decimal_digits_value(port.number() as nat);
    assert(text[0] == digits[0]);
    assert(text.last() == name[2]);
    assert forall|i: int| 0 <= i < text.len() implies (#[trigger] text[i]) != ',' && !is_space(
        text[i],
    ) by {
        if i < digits.len() {
            assert(text[i] == digits[i]);
        } else if i == digits.len() {
            assert(text[i] == '/');
        } else {
            assert(text[i] == name[i - digits.len() - 1]);
        }
    }
}

/// A port written as text reads back as the same port.
pub proof fn lemma_parse_rendered_element(port: PortInfo)
    ensures
        spec_parse_element(port.spec_render()) == Ok::<PortInfo, ParseFailure>(port),
{
    let n = port.number();
    let digits = decimal_digits(n as nat);
    let name = port.protocol_name();
    let text = port.spec_render();
    lemma_decimal_digits_value(n as nat);
    lemma_rendered_characters(port);
    assert(!is_space(text[0]));
    assert(!is_space(text.last()));
    lemma_trim_unchanged(text);
    assert forall|i: int| 0 <= i < digits.len() implies digits[i] != '/' by {
        assert(is_digit(digits[i]));
    }
    lemma_index_of_separator(digits, '/', name);
    let slash = index_of(text, '/');
    assert(slash == digits.len());
    assert(text.take(slash as int) =~= digits);
    assert(text.skip(slash as int + 1) =~= name);
    assert(is_digit(digits[0]));
    assert(is_digit(digits.last()));
    lemma_trim_unchanged(digits);
    lemma_trim_unchanged(name);
    assert(spec_parse_number(digits) == Some(n));
    match port {
        PortInfo::TCP(_) => {
            assert(is_word(name, seq!['t', 'c', 'p']));
        },
        PortInfo::UDP(_) => {
            assert(!is_word(name, seq!['t', 'c', 'p']));
            assert(is_word(name, seq!['u', 'd', 'p']));
        },
    }
}

/// A list of ports written as text falls into the texts of its ports when
/// split at the commas.
pub proof fn lemma_split_rendered_list(ports: Seq<PortInfo>)
    requires
        ports.len() > 0,
    ensures
        spec_render_list(ports).len() > 0,
        split(spec_render_list(ports), ',') == rendered(ports),
    decreases ports.len(),
{
    let first = ports[0].spec_render();
    lemma_rendered_characters(ports[0]);
    if ports.len() == 1 {
        lemma_index_of_absent(first, ',');
        assert(split(first, ',') =~= rendered(ports));
    } else {
        let rest = spec_render_list(ports.skip(1));
        let text = spec_render_list(ports);
        lemma_split_rendered_list(ports.skip(1));
        lemma_index_of_separator(first, ',', rest);
        assert(text.take(first.len() as int) =~= first);
        assert(text.skip(first.len() as int + 1) =~= rest);
        assert(seq![first] + rendered(ports.skip(1)) =~= rendered(ports));
    }
}

/// The texts of a list of ports read back as that list.
pub proof fn lemma_parse_all_rendered(ports: Seq<PortInfo>)
    ensures
        spec_parse_all(rendered(ports)) == Ok::<Seq<PortInfo>, ParseFailure>(ports),
    decreases ports.len(),
{
    if ports.len() == 0 {
        assert(ports =~= Seq::<PortInfo>::empty());
    } else {
        lemma_parse_rendered_element(ports[0]);
        lemma_parse_all_rendered(ports.skip(1));
        assert(rendered(ports).skip(1) =~= rendered(ports.skip(1)));
        assert(seq![ports[0]] + ports.skip(1) =~= ports);
    }
}

/// Reading what was written gives back what was written: a list of ports
/// as text, each port as [`PortInfo::spec_render`] writes it and with commas
/// between them, reads back as the same ports in the same order.
pub proof fn lemma_parse_render_round_trip(ports: Seq<PortInfo>)
    ensures
        spec_parse_ports(spec_render_list(ports)) == Ok::<Seq<PortInfo>, ParseFailure>(ports),
{
    if ports.len() == 0 {
        assert(ports =~= Seq::<PortInfo>::empty());
    } else {
        lemma_split_rendered_list(ports);
        lemma_parse_all_rendered(ports);
    }
}

/// A single port written as text reads back as the list of that port alone.
pub proof fn lemma_parse_render_single(port: PortInfo)
    ensures
        spec_parse_ports(port.spec_render()) == Ok::<Seq<PortInfo>, ParseFailure>(seq![port]),
{
    assert(spec_render_list(seq![port]) == port.spec_render());
    lemma_parse_render_round_trip(seq![port]);
}

} // verus!
