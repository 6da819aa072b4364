//! Numbers and protocol values as text.

use crate::protocol::{AddrType, Address, AuthMethods, TryFromU8Error};
use crate::protocol::be16;
use crate::resolve::{host_port, utf8_name, Endpoint};
use vstd::utf8::{decode_utf8, valid_utf8};
use vstd::prelude::*;
use vstd::string::*;

verus! {

/// The text of a decimal digit; of 9 for every larger number.
pub open spec fn digit_text(d: nat) -> Seq<char> {
    if d == 0 {
        "0"@
    } else if d == 1 {
        "1"@
    } else if d == 2 {
        "2"@
    } else if d == 3 {
        "3"@
    } else if d == 4 {
        "4"@
    } else if d == 5 {
        "5"@
    } else if d == 6 {
        "6"@
    } else if d == 7 {
        "7"@
    } else if d == 8 {
        "8"@
    } else {
        "9"@
    }
}

/// The decimal text of a number, without leading zeros.
pub open spec fn decimal_text(n: nat) -> Seq<char>
    decreases n,
{
    if n < 10 {
        digit_text(n)
    } else {
        decimal_text(n / 10) + digit_text(n % 10)
    }
}

fn digit_str(d: u16) -> (s: &'static str)
    ensures
        s@ == digit_text(d as nat),
{
    if d == 0 {
        "0"
    } else if d == 1 {
        "1"
    } else if d == 2 {
        "2"
    } else if d == 3 {
        "3"
    } else if d == 4 {
        "4"
    } else if d == 5 {
        "5"
    } else if d == 6 {
        "6"
    } else if d == 7 {
        "7"
    } else if d == 8 {
        "8"
    } else {
        "9"
    }
}

/// The decimal text of a number, without leading zeros.
pub fn decimal(n: u16) -> (s: String)
    ensures
        s@ == decimal_text(n as nat),
    decreases n,
{
    if n < 10 {
        String::from_str(digit_str(n))
    } else {
        decimal(n / 10).concat(digit_str(n % 10))
    }
}

/// The text of a hexadecimal digit, in capitals or not; of the last digit
/// for every larger number.
pub open spec fn hex_digit_text(d: nat, upper: bool) -> Seq<char> {
    if d < 10 {
        digit_text(d)
    } else if d == 10 {
        if upper {
            "A"@
        } else {
            "a"@
        }
    } else if d == 11 {
        if upper {
            "B"@
        } else {
            "b"@
        }
    } else if d == 12 {
        if upper {
            "C"@
        } else {
            "c"@
        }
    } else if d == 13 {
        if upper {
            "D"@
        } else {
            "d"@
        }
    } else if d == 14 {
        if upper {
            "E"@
        } else {
            "e"@
        }
    } else {
        if upper {
            "F"@
        } else {
            "f"@
        }
    }
}

/// The hexadecimal text of a number, without prefix or leading zeros.
pub open spec fn hex_text(n: nat, upper: bool) -> Seq<char>
    decreases n,
{
    if n < 16 {
        hex_digit_text(n, upper)
    } else {
        hex_text(n / 16, upper) + hex_digit_text(n % 16, upper)
    }
}

fn hex_digit_str(d: u16, upper: bool) -> (s: &'static str)
    ensures
        s@ == hex_digit_text(d as nat, upper),
{
    if d < 10 {
        digit_str(d)
    } else if d == 10 {
        if upper {
            "A"
        } else {
            "a"
        }
    } else if d == 11 {
        if upper {
            "B"
        } else {
            "b"
        }
    } else if d == 12 {
        if upper {
            "C"
        } else {
            "c"
        }
    } else if d == 13 {
        if upper {
            "D"
        } else {
            "d"
        }
    } else if d == 14 {
        if upper {
            "E"
        } else {
            "e"
        }
    } else {
        if upper {
            "F"
        } else {
            "f"
        }
    }
}

/// The hexadecimal text of a number, without prefix or leading zeros.
pub fn hex(n: u16, upper: bool) -> (s: String)
    ensures
        s@ == hex_text(n as nat, upper),
    decreases n,
{
    if n < 16 {
        String::from_str(hex_digit_str(n, upper))
    } else {
        hex(n / 16, upper).concat(hex_digit_str(n % 16, upper))
    }
}

impl AuthMethods {
    /// The name of the method; a payload variant shows its code in
    /// hexadecimal capitals behind `0x`.
    pub open spec fn spec_text(&self) -> Seq<char> {
        match self {
            AuthMethods::NoAuth => "No Authentication Required"@,
            AuthMethods::GssApi => "GSSAPI"@,
            AuthMethods::UserPass => "Username/Password"@,
            AuthMethods::IANAMethod(c) => "IANA Assigned: 0x"@ + hex_text(*c as nat, true),
            AuthMethods::Private(c) => "Private Methods: 0x"@ + hex_text(*c as nat, true),
            AuthMethods::NoMethods => "No Acceptable Methods"@,
        }
    }

    /// The name of the method.
    pub fn message(&self) -> (s: String)
        ensures
            s@ == self.spec_text(),
    {
        match self {
            AuthMethods::NoAuth => String::from_str("No Authentication Required"),
            AuthMethods::GssApi => String::from_str("GSSAPI"),
            AuthMethods::UserPass => String::from_str("Username/Password"),
            AuthMethods::IANAMethod(c) => String::from_str("IANA Assigned: 0x").concat(
                hex(*c as u16, true).as_str(),
            ),
            AuthMethods::Private(c) => String::from_str("Private Methods: 0x").concat(
                hex(*c as u16, true).as_str(),
            ),
            AuthMethods::NoMethods => String::from_str("No Acceptable Methods"),
        }
    }
}

impl TryFromU8Error {
    /// The diagnostic: the refused octet in hexadecimal capitals behind
    /// `0x`, and the type it was to become.
    pub open spec fn spec_text(&self) -> Seq<char> {
        "try from u8(0x"@ + hex_text(self.spec_value() as nat, true) + ") error to "@
            + self.spec_target()
    }

    /// The diagnostic of the error.
    pub fn message(&self) -> (s: String)
        ensures
            s@ == self.spec_text(),
    {
        String::from_str("try from u8(0x").concat(hex(self.value() as u16, true).as_str()).concat(
            ") error to ",
        ).concat(self.target())
    }
}

/// Four octets as decimal numbers between dots.
pub open spec fn dotted_text(octets: Seq<u8>) -> Seq<char> {
    decimal_text(octets[0] as nat) + "."@ + decimal_text(octets[1] as nat) + "."@ + decimal_text(
        octets[2] as nat,
    ) + "."@ + decimal_text(octets[3] as nat)
}

/// Four octets as decimal numbers between dots.
pub fn dotted(a: u8, b: u8, c: u8, d: u8) -> (s: String)
    ensures
        s@ == dotted_text(seq![a, b, c, d]),
{
    decimal(a as u16).concat(".").concat(decimal(b as u16).as_str()).concat(".").concat(
        decimal(c as u16).as_str(),
    ).concat(".").concat(decimal(d as u16).as_str())
}

/// Groups as hexadecimal numbers in small letters between colons; the empty
/// text for no group.
pub open spec fn joined_text(g: Seq<u16>) -> Seq<char>
    decreases g.len(),
{
    if g.len() == 0 {
        Seq::empty()
    } else if g.len() == 1 {
        hex_text(g[0] as nat, false)
    } else {
        joined_text(g.drop_last()) + ":"@ + hex_text(g.last() as nat, false)
    }
}

/// The groups from `from` up to `to`, as hexadecimal numbers between colons.
pub fn join_groups(g: &[u16; 8], from: usize, to: usize) -> (s: String)
    requires
        from <= to <= 8,
    ensures
        s@ == joined_text(g@.subrange(from as int, to as int)),
{
    let mut s = String::new();
    let mut i: usize = from;
    while i < to
        invariant
            from <= i <= to <= 8,
            s@ == joined_text(g@.subrange(from as int, i as int)),
        decreases to - i,
    {
        assert(g@.subrange(from as int, i + 1).drop_last() =~= g@.subrange(from as int, i as int));
        if i > from {
            s = s.concat(":");
        }
        s = s.concat(hex(g[i], false).as_str());
        assert(s@ =~= joined_text(g@.subrange(from as int, i + 1)));
        i += 1;
    }
    s
}

/// How many groups in a row are zero, from position `i` on.
pub open spec fn zero_run(g: Seq<u16>, i: int) -> nat
    decreases g.len() - i,
{
    if 0 <= i < g.len() && g[i] == 0 {
        1 + zero_run(g, i + 1)
    } else {
        0
    }
}

/// The longest run of zero groups begins at `start` and has `len` groups;
/// where several runs are as long, it is the leftmost. Without a zero group
/// it is the empty run at the first position.
pub open spec fn is_longest_zero_run(g: Seq<u16>, start: int, len: nat) -> bool {
    &&& 0 <= start < g.len()
    &&& zero_run(g, start) == len
    &&& forall|t: int| 0 <= t < g.len() ==> #[trigger] zero_run(g, t) <= len
    &&& forall|t: int| 0 <= t < start ==> #[trigger] zero_run(g, t) < len
}

/// The groups have one longest run of zero groups.
pub proof fn lemma_longest_zero_run_unique(
    g: Seq<u16>,
    start_a: int,
    len_a: nat,
    start_b: int,
    len_b: nat,
)
    requires
        is_longest_zero_run(g, start_a, len_a),
        is_longest_zero_run(g, start_b, len_b),
    ensures
        start_a == start_b,
        len_a == len_b,
{
    assert(zero_run(g, start_a) <= len_b);
    assert(zero_run(g, start_b) <= len_a);
}

fn zero_run_from(g: &[u16; 8], at: usize) -> (n: usize)
    requires
        at < 8,
    ensures
        n == zero_run(g@, at as int),
        at + n <= 8,
{
    let mut k: usize = at;
    while k < 8 && g[k] == 0
        invariant
            at <= k <= 8,
            g@.len() == 8,
            zero_run(g@, at as int) == (k - at) + zero_run(g@, k as int),
        decreases 8 - k,
    {
        k += 1;
    }
    k - at
}

/// Where the longest run of zero groups begins, and its length.
pub fn longest_zero_run(g: &[u16; 8]) -> (r: (usize, usize))
    ensures
        is_longest_zero_run(g@, r.0 as int, r.1 as nat),
        r.0 + r.1 <= 8,
{
    let mut start: usize = 0;
    let mut len: usize = zero_run_from(g, 0);
    let mut at: usize = 1;
    while at < 8
        invariant
            1 <= at <= 8,
            g@.len() == 8,
            start < at,
            start + len <= 8,
            zero_run(g@, start as int) == len,
            forall|t: int| 0 <= t < at ==> #[trigger] zero_run(g@, t) <= len,
            forall|t: int| 0 <= t < start ==> #[trigger] zero_run(g@, t) < len,
        decreases 8 - at,
    {
        let n = zero_run_from(g, at);
        if n > len {
            start = at;
            len = n;
        }
        at += 1;
    }
    (start, len)
}

/// The groups are those of an IPv4 address mapped into IPv6: five zero
/// groups and one of all ones before the address.
pub open spec fn is_v4_mapped(g: Seq<u16>) -> bool {
    g[0] == 0 && g[1] == 0 && g[2] == 0 && g[3] == 0 && g[4] == 0 && g[5] == 0xffff
}

/// The text of an IPv6 address of eight groups, in the form in which the
/// standard library's `Ipv6Addr` displays one. A mapped IPv4 address is
/// written in dotted form behind `::ffff:`. In every other address the
/// groups are written in hexadecimal between colons, and `::` stands in
/// place of the longest run of zero groups, the leftmost of the longest,
/// where that run has two groups or more.
pub open spec fn ipv6_text(g: Seq<u16>) -> Seq<char> {
    if is_v4_mapped(g) {
        "::ffff:"@ + dotted_text(
            seq![(g[6] / 256) as u8, (g[6] % 256) as u8, (g[7] / 256) as u8, (g[7] % 256) as u8],
        )
    } else {
        let run = choose|r: (int, nat)| is_longest_zero_run(g, r.0, r.1);
        if run.1 >= 2 {
            joined_text(g.subrange(0, run.0)) + "::"@ + joined_text(
                g.subrange(run.0 + run.1, g.len() as int),
            )
        } else {
            joined_text(g)
        }
    }
}

/// The text of an address that is no mapped IPv4 address, by its longest
/// run of zero groups: with `::` in place of a run of two groups or more,
/// and with every group written out where the run is shorter.
pub proof fn lemma_ipv6_text_by_run(g: Seq<u16>, start: int, len: nat)
    requires
        !is_v4_mapped(g),
        is_longest_zero_run(g, start, len),
    ensures
        len >= 2 ==> ipv6_text(g) == joined_text(g.subrange(0, start)) + "::"@ + joined_text(
            g.subrange(start + len, g.len() as int),
        ),
        len < 2 ==> ipv6_text(g) == joined_text(g),
{
    let found = (start, len);
    assert(is_longest_zero_run(g, found.0, found.1));
    let run = choose|r: (int, nat)| is_longest_zero_run(g, r.0, r.1);
    lemma_longest_zero_run_unique(g, run.0, run.1, start, len);
}

/// The text of an IPv6 address of eight groups.
pub fn ipv6(g: &[u16; 8]) -> (s: String)
    ensures
        s@ == ipv6_text(g@),
{
    if g[0] == 0 && g[1] == 0 && g[2] == 0 && g[3] == 0 && g[4] == 0 && g[5] == 0xffff {
        let v4 = dotted((g[6] / 256) as u8, (g[6] % 256) as u8, (g[7] / 256) as u8, (g[7] % 256) as u8);
        String::from_str("::ffff:").concat(v4.as_str())
    } else {
        let (start, len) = longest_zero_run(g);
        proof {
            lemma_ipv6_text_by_run(g@, start as int, len as nat);
        }
        if len >= 2 {
            join_groups(g, 0, start).concat("::").concat(join_groups(g, start + len, 8).as_str())
        } else {
            assert(g@.subrange(0, 8) =~= g@);
            join_groups(g, 0, 8)
        }
    }
}

/// Octets as hexadecimal numbers in small letters between a comma and a
/// blank; the empty text for no octet.
pub open spec fn listed_text(b: Seq<u8>) -> Seq<char>
    decreases b.len(),
{
    if b.len() == 0 {
        Seq::empty()
    } else if b.len() == 1 {
        hex_text(b[0] as nat, false)
    } else {
        listed_text(b.drop_last()) + ", "@ + hex_text(b.last() as nat, false)
    }
}

/// Octets as a list of hexadecimal numbers in square brackets.
pub open spec fn hex_list_text(b: Seq<u8>) -> Seq<char> {
    "["@ + listed_text(b) + "]"@
}

/// Octets as a list of hexadecimal numbers in square brackets.
pub fn hex_list(bytes: &[u8]) -> (s: String)
    ensures
        s@ == hex_list_text(bytes@),
{
    let mut s = String::new();
    let mut i: usize = 0;
    while i < bytes.len()
        invariant
            i <= bytes.len(),
            s@ == listed_text(bytes@.subrange(0, i as int)),
        decreases bytes.len() - i,
    {
        assert(bytes@.subrange(0, i + 1).drop_last() =~= bytes@.subrange(0, i as int));
        if i > 0 {
            s = s.concat(", ");
        }
        s = s.concat(hex(bytes[i] as u16, false).as_str());
        assert(s@ =~= listed_text(bytes@.subrange(0, i + 1)));
        i += 1;
    }
    assert(bytes@.subrange(0, i as int) =~= bytes@);
    String::from_str("[").concat(s.as_str()).concat("]")
}

impl Endpoint {
    /// The endpoint as text: `a.b.c.d:port`, the IPv6 address in square
    /// brackets before `:port`, or the text to resolve.
    pub open spec fn spec_text(&self) -> Seq<char> {
        match self {
            Endpoint::V4 { octets, port } => dotted_text(octets@) + ":"@ + decimal_text(
                *port as nat,
            ),
            Endpoint::V6 { segments, port } => "["@ + ipv6_text(segments@) + "]:"@ + decimal_text(
                *port as nat,
            ),
            Endpoint::Lookup { host } => host@,
        }
    }

    /// The endpoint as text.
    pub fn message(&self) -> (s: String)
        ensures
            s@ == self.spec_text(),
    {
        match self {
            Endpoint::V4 { octets, port } => {
                let ip = dotted(octets[0], octets[1], octets[2], octets[3]);
                host_port(ip.as_str(), *port)
            },
            Endpoint::V6 { segments, port } => {
                String::from_str("[").concat(ipv6(segments).as_str()).concat("]:").concat(
                    decimal(*port).as_str(),
                )
            },
            Endpoint::Lookup { host } => host.clone(),
        }
    }
}

/// The eight groups of sixteen octets, each group from two consecutive
/// octets in network order.
pub open spec fn groups_of(octets: Seq<u8>) -> Seq<u16> {
    Seq::new(8, |i: int| be16(octets[2 * i], octets[2 * i + 1]))
}

impl<'a> Address<'a> {
    /// The address as text. An IPv4 address is `a.b.c.d:port`; an IPv6
    /// address stands in square brackets before `:port`; a domain name is
    /// `name:port` where its octets are UTF-8, and the list of its octets
    /// before `:port` where they are not.
    pub open spec fn spec_text(&self) -> Seq<char> {
        match self@.kind {
            AddrType::V4 => dotted_text(self@.octets) + ":"@ + decimal_text(self@.port as nat),
            AddrType::V6 => "["@ + ipv6_text(groups_of(self@.octets)) + "]:"@ + decimal_text(
                self@.port as nat,
            ),
            AddrType::Domain => if valid_utf8(self@.octets) {
                decode_utf8(self@.octets) + ":"@ + decimal_text(self@.port as nat)
            } else {
                hex_list_text(self@.octets) + ":"@ + decimal_text(self@.port as nat)
            },
        }
    }

    /// The address as text.
    pub fn message(&self) -> (s: String)
        requires
            self@.sized(),
        ensures
            s@ == self.spec_text(),
    {
        match self.addr_type() {
            AddrType::Domain => {
                let name = match utf8_name(self.data()) {
                    Some(name) => name,
                    None => hex_list(self.data()),
                };
                host_port(name.as_str(), self.port())
            },
            _ => {
                let e = self.to_socket_addrs();
                proof {
                    if e is V4 {
                        assert(e->V4_octets@ =~= self@.octets);
                    } else {
                        assert(e->segments@ =~= groups_of(self@.octets));
                    }
                }
                e.message()
            },
        }
    }
}

} // verus!
