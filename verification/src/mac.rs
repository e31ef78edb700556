//! Ethernet hardware (MAC) addresses: a six-byte value with a textual form
//! of colon- or dash-separated hexadecimal byte groups.

use vstd::prelude::*;
use vstd::string::StringSliceAdditionalSpecFns;
use crate::mbuf::{Mbuf, SizeOf};

verus! {

broadcast use crate::mbuf::lemma_wf_bounds;

/// A separator between the byte groups of a MAC address string: a colon
/// or a dash.
pub open spec fn is_mac_sep(b: u8) -> bool {
    b == 0x3au8 || b == 0x2du8
}

/// An ASCII hexadecimal digit, either case.
pub open spec fn is_hex_digit(b: u8) -> bool {
    (0x30 <= b <= 0x39) || (0x61 <= b <= 0x66) || (0x41 <= b <= 0x46)
}

/// The value of an ASCII hexadecimal digit.
pub open spec fn hex_digit_value(b: u8) -> int
    recommends
        is_hex_digit(b),
{
    if 0x30 <= b <= 0x39 {
        b - 0x30
    } else if 0x61 <= b <= 0x66 {
        b - 0x61 + 10
    } else {
        b - 0x41 + 10
    }
}

/// The value of a hexadecimal digit string, most significant digit first.
pub open spec fn hex_value(d: Seq<u8>) -> int
    decreases d.len(),
{
    if d.len() == 0 {
        0
    } else {
        16 * hex_value(d.drop_last()) + hex_digit_value(d.last())
    }
}

/// The digits of a byte group, after an optional leading plus sign.
pub open spec fn group_digits(g: Seq<u8>) -> Seq<u8> {
    if g.len() > 0 && g[0] == 0x2bu8 {
        g.drop_first()
    } else {
        g
    }
}

/// Whether a byte group parses as one hexadecimal byte: an optional plus
/// sign, then one or more hexadecimal digits denoting a value below 256.
pub open spec fn valid_group(g: Seq<u8>) -> bool {
    let d = group_digits(g);
    &&& d.len() > 0
    &&& forall|i: int| 0 <= i < d.len() ==> is_hex_digit(#[trigger] d[i])
    &&& hex_value(d) < 256
}

/// The byte a group denotes, if it parses as one.
pub open spec fn group_byte(g: Seq<u8>) -> Option<u8> {
    if valid_group(g) {
        Some(hex_value(group_digits(g)) as u8)
    } else {
        None
    }
}

/// The byte groups of `s`, split on separators; `cur` is the partial group
/// already read. Splitting never drops a group: two adjacent separators
/// enclose an empty group.
pub open spec fn split_groups_from(s: Seq<u8>, cur: Seq<u8>) -> Seq<Seq<u8>>
    decreases s.len(),
{
    if s.len() == 0 {
        seq![cur]
    } else if is_mac_sep(s[0]) {
        seq![cur] + split_groups_from(s.drop_first(), Seq::empty())
    } else {
        split_groups_from(s.drop_first(), cur.push(s[0]))
    }
}

/// The byte groups of a MAC address string.
pub open spec fn mac_groups(s: Seq<u8>) -> Seq<Seq<u8>> {
    split_groups_from(s, Seq::empty())
}

/// The bytes denoted by those groups of `s` that parse as hexadecimal
/// bytes; groups that do not parse are passed over.
pub open spec fn mac_bytes(s: Seq<u8>) -> Seq<u8> {
    mac_groups(s).filter_map(|g: Seq<u8>| group_byte(g))
}

/// The lower-case hexadecimal digit character for a value below 16.
pub open spec fn hex_char_of(v: int) -> char
    recommends
        0 <= v < 16,
{
    seq!['0', '1', '2', '3', '4', '5', '6', '7', '8', '9', 'a', 'b', 'c', 'd', 'e', 'f'][v]
}

/// The two lower-case hexadecimal characters of a byte.
pub open spec fn byte_text(b: u8) -> Seq<char> {
    seq![hex_char_of((b / 16) as int), hex_char_of((b % 16) as int)]
}

/// The canonical text of a six-byte MAC address: lower-case hexadecimal
/// byte pairs separated by colons.
pub open spec fn mac_text(o: Seq<u8>) -> Seq<char>
    recommends
        o.len() == 6,
{
    byte_text(o[0]) + seq![':'] + byte_text(o[1]) + seq![':'] + byte_text(o[2]) + seq![':']
        + byte_text(o[3]) + seq![':'] + byte_text(o[4]) + seq![':'] + byte_text(o[5])
}

/// MAC address, held as its six octets in transmission order.
#[derive(Default, Debug, Copy, Clone, PartialEq, Eq, Structural)]
pub struct MacAddr {
    o0: u8,
    o1: u8,
    o2: u8,
    o3: u8,
    o4: u8,
    o5: u8,
}

/// Error when a string does not denote a MAC address; carries the
/// offending input.
#[derive(Debug)]
pub struct MacParseError(pub String);

impl View for MacAddr {
    type V = Seq<u8>;

    /// The six octets of the address.
    closed spec fn view(&self) -> Seq<u8> {
        seq![self.o0, self.o1, self.o2, self.o3, self.o4, self.o5]
    }
}

impl SizeOf for MacAddr {
    open spec fn spec_size_of() -> usize {
        6
    }

    fn size_of() -> (n: usize)
        ensures
            n == Self::spec_size_of(),
    {
        6
    }
}

impl MacAddr {
    /// Builds a MAC address from its six octets, in transmission order.
    pub fn new(a: u8, b: u8, c: u8, d: u8, e: u8, f: u8) -> (r: MacAddr)
        ensures
            r@ == seq![a, b, c, d, e, f],
    {
        let r = MacAddr { o0: a, o1: b, o2: c, o3: d, o4: e, o5: f };
        proof {
            assert(r@ =~= seq![a, b, c, d, e, f]);
        }
        r
    }

    /// Returns the six bytes the MAC address consists of.
    pub fn octets(&self) -> (r: [u8; 6])
        ensures
            r@ == self@,
    {
        let r = [self.o0, self.o1, self.o2, self.o3, self.o4, self.o5];
        proof {
            assert(r@ =~= self@);
        }
        r
    }

    /// The canonical lower-case, colon-separated text of the address.
    pub fn to_string(&self) -> (r: String)
        ensures
            r@ == mac_text(self@),
    {
        let mut s = String::new();
        append_byte_text(&mut s, self.o0);
        s.append(":");
        append_byte_text(&mut s, self.o1);
        s.append(":");
        append_byte_text(&mut s, self.o2);
        s.append(":");
        append_byte_text(&mut s, self.o3);
        s.append(":");
        append_byte_text(&mut s, self.o4);
        s.append(":");
        append_byte_text(&mut s, self.o5);
        proof {
            reveal_strlit(":");
            assert(s@ =~= mac_text(self@));
        }
        s
    }

    /// Reads the address stored at `offset` in the buffer.
    pub fn read(m: &Mbuf, offset: usize) -> (r: MacAddr)
        requires
            m.wf(),
            offset + 6 <= m@.len(),
        ensures
            r@ == m@.subrange(offset as int, offset + 6),
    {
        let r = MacAddr {
            o0: m.read_u8(offset),
            o1: m.read_u8(offset + 1),
            o2: m.read_u8(offset + 2),
            o3: m.read_u8(offset + 3),
            o4: m.read_u8(offset + 4),
            o5: m.read_u8(offset + 5),
        };
        proof {
            assert(r@ =~= m@.subrange(offset as int, offset + 6));
        }
        r
    }

    /// Writes the address at `offset` in the buffer.
    pub fn write(&self, m: &mut Mbuf, offset: usize)
        requires
            old(m).wf(),
            offset + 6 <= old(m)@.len(),
        ensures
            final(m).wf(),
            final(m)@.len() == old(m)@.len(),
            final(m)@.subrange(offset as int, offset + 6) == self@,
            forall|k: int|
                0 <= k < old(m)@.len() && !(offset <= k < offset + 6) ==> final(m)@[k] == old(
                    m,
                )@[k],
            final(m).spec_tailroom() == old(m).spec_tailroom(),
            final(m).spec_headroom() == old(m).spec_headroom(),
    {
        m.write_u8(offset, self.o0);
        m.write_u8(offset + 1, self.o1);
        m.write_u8(offset + 2, self.o2);
        m.write_u8(offset + 3, self.o3);
        m.write_u8(offset + 4, self.o4);
        m.write_u8(offset + 5, self.o5);
        proof {
            assert(final(m)@.subrange(offset as int, offset + 6) =~= self@);
        }
    }

    /// Parses a MAC address from text split on colons or dashes. As with
    /// the groups themselves, splitting is forgiving: exactly six groups
    /// must denote hexadecimal bytes, and any group that does not is
    /// passed over rather than rejected outright.
    pub fn parse_str(s: &str) -> (r: Result<MacAddr, MacParseError>)
        ensures
            r is Ok <==> mac_bytes(s.spec_bytes()).len() == 6,
            r is Ok ==> r->Ok_0@ == mac_bytes(s.spec_bytes()),
            r is Err ==> r->Err_0.0@ == s@,
    {
        let bytes = s.as_bytes();
        let groups = split_groups(bytes);
        let n = groups.len();
        let mut vals: Vec<u8> = Vec::new();
        let mut i: usize = 0;
        while i < n
            invariant
                i <= n,
                n == groups@.len(),
                groups@.map_values(|v: Vec<u8>| v@) == mac_groups(s.spec_bytes()),
                vals@ == groups@.map_values(|v: Vec<u8>| v@).take(i as int).filter_map(
                    |g: Seq<u8>| group_byte(g),
                ),
            decreases n - i,
        {
            let ghost gs = groups@.map_values(|v: Vec<u8>| v@);
            match parse_group(&groups[i]) {
                Some(v) => vals.push(v),
                None => {},
            }
            proof {
                assert(gs.take(i + 1).drop_last() =~= gs.take(i as int));
                assert(gs.take(i + 1).last() == gs[i as int]);
            }
            i = i + 1;
        }
        proof {
            let gs = groups@.map_values(|v: Vec<u8>| v@);
            assert(gs.take(n as int) =~= gs);
        }
        if vals.len() == 6 {
            Ok(MacAddr::new(vals[0], vals[1], vals[2], vals[3], vals[4], vals[5]))
        } else {
            Err(MacParseError(s.to_owned()))
        }
    }
}

/// Splits a byte string into its separator-delimited groups.
fn split_groups(bytes: &[u8]) -> (r: Vec<Vec<u8>>)
    ensures
        r@.map_values(|v: Vec<u8>| v@) == mac_groups(bytes@),
{
    let n = bytes.len();
    let mut out: Vec<Vec<u8>> = Vec::new();
    let mut cur: Vec<u8> = Vec::new();
    proof {
        assert(bytes@.skip(0) =~= bytes@);
        assert(out@.map_values(|v: Vec<u8>| v@) =~= Seq::<Seq<u8>>::empty());
        assert(Seq::<Seq<u8>>::empty() + mac_groups(bytes@) =~= mac_groups(bytes@));
    }
    let mut i: usize = 0;
    while i < n
        invariant
            i <= n,
            n == bytes@.len(),
            out@.map_values(|v: Vec<u8>| v@) + split_groups_from(bytes@.skip(i as int), cur@)
                == mac_groups(bytes@),
        decreases n - i,
    {
        let ghost pre_out = out@.map_values(|v: Vec<u8>| v@);
        let ghost pre_cur = cur@;
        let b = bytes[i];
        if b == 0x3a || b == 0x2d {
            out.push(cur);
            cur = Vec::new();
        } else {
            cur.push(b);
        }
        proof {
            assert(bytes@.skip(i as int).drop_first() =~= bytes@.skip(i + 1));
            assert(bytes@.skip(i as int)[0] == bytes@[i as int]);
            if is_mac_sep(bytes@[i as int]) {
                assert(out@.map_values(|v: Vec<u8>| v@) =~= pre_out.push(pre_cur));
                assert(pre_out.push(pre_cur) + split_groups_from(bytes@.skip(i + 1), cur@)
                    =~= pre_out + (seq![pre_cur] + split_groups_from(
                    bytes@.skip(i + 1),
                    Seq::empty(),
                )));
            } else {
                assert(cur@ =~= pre_cur.push(bytes@[i as int]));
            }
        }
        i = i + 1;
    }
    proof {
        assert(bytes@.skip(n as int) =~= Seq::<u8>::empty());
    }
    let ghost pre_final = out@.map_values(|v: Vec<u8>| v@);
    out.push(cur);
    proof {
        assert(out@.map_values(|v: Vec<u8>| v@) =~= pre_final.push(cur@));
        assert(pre_final.push(cur@) =~= pre_final + seq![cur@]);
    }
    out
}

/// Parses one byte group: an optional plus sign, then hexadecimal digits
/// denoting a value below 256.
fn parse_group(g: &[u8]) -> (r: Option<u8>)
    ensures
        r == group_byte(g@),
{
    let n = g.len();
    let start: usize = if n > 0 && g[0] == 0x2b {
        1
    } else {
        0
    };
    proof {
        if start == 1 {
            assert(group_digits(g@) =~= g@.subrange(1, n as int));
        } else {
            assert(group_digits(g@) =~= g@.subrange(0, n as int));
        }
    }
    if n == start {
        return None;
    }
    let mut acc: u32 = 0;
    let mut j: usize = start;
    while j < n
        invariant
            start <= j <= n,
            n == g@.len(),
            acc <= 256,
            group_digits(g@) == g@.subrange(start as int, n as int),
            forall|k: int| start <= k < j ==> is_hex_digit(#[trigger] g@[k]),
            hex_value(g@.subrange(start as int, j as int)) < 256 ==> acc == hex_value(
                g@.subrange(start as int, j as int),
            ),
            hex_value(g@.subrange(start as int, j as int)) >= 256 ==> acc == 256,
        decreases n - j,
    {
        let b = g[j];
        let v: u32 = if 0x30 <= b && b <= 0x39 {
            (b - 0x30) as u32
        } else if 0x61 <= b && b <= 0x66 {
            (b - 0x61) as u32 + 10
        } else if 0x41 <= b && b <= 0x46 {
            (b - 0x41) as u32 + 10
        } else {
            proof {
                assert(group_digits(g@)[j - start] == g@[j as int]);
                assert(!is_hex_digit(g@[j as int]));
                assert(!valid_group(g@));
            }
            return None;
        };
        let grown = acc * 16 + v;
        acc = if grown > 255 {
            256
        } else {
            grown
        };
        proof {
            let d_new = g@.subrange(start as int, j + 1);
            assert(d_new.drop_last() =~= g@.subrange(start as int, j as int));
            assert(d_new.last() == g@[j as int]);
        }
        j = j + 1;
    }
    if acc <= 255 {
        Some(acc as u8)
    } else {
        None
    }
}

/// Appends the two lower-case hexadecimal characters of a byte.
fn append_byte_text(s: &mut String, b: u8)
    ensures
        final(s)@ == old(s)@ + byte_text(b),
{
    s.append(hex_digit_str(b / 16));
    s.append(hex_digit_str(b % 16));
}

/// The one-character string of a lower-case hexadecimal digit.
fn hex_digit_str(v: u8) -> (r: &'static str)
    requires
        v < 16,
    ensures
        r@ == seq![hex_char_of(v as int)],
{
    proof {
        reveal_strlit("0");
        reveal_strlit("1");
        reveal_strlit("2");
        reveal_strlit("3");
        reveal_strlit("4");
        reveal_strlit("5");
        reveal_strlit("6");
        reveal_strlit("7");
        reveal_strlit("8");
        reveal_strlit("9");
        reveal_strlit("a");
        reveal_strlit("b");
        reveal_strlit("c");
        reveal_strlit("d");
        reveal_strlit("e");
        reveal_strlit("f");
    }
    let r: &'static str = match v {
        0 => "0",
        1 => "1",
        2 => "2",
        3 => "3",
        4 => "4",
        5 => "5",
        6 => "6",
        7 => "7",
        8 => "8",
        9 => "9",
        10 => "a",
        11 => "b",
        12 => "c",
        13 => "d",
        14 => "e",
        _ => "f",
    };
    proof {
        assert(r@ =~= seq![hex_char_of(v as int)]);
    }
    r
}

impl core::str::FromStr for MacAddr {
    type Err = MacParseError;

    fn from_str(s: &str) -> Result<MacAddr, MacParseError> {
        MacAddr::parse_str(s)
    }
}

} // verus!
