//! Network addresses.

use crate::text;
use vstd::prelude::*;

verus! {

/// An IPv4 address, by its four octets.
#[derive(Debug, Clone, Copy, PartialEq, Eq, Hash, Structural)]
pub struct Ipv4Addr {
    pub a: u8,
    pub b: u8,
    pub c: u8,
    pub d: u8,
}

/// An IP address; one of version six by its 128 bits.
#[derive(Debug, Clone, Copy, PartialEq, Eq, Hash, Structural)]
pub enum IpAddr {
    V4(Ipv4Addr),
    V6(u128),
}

/// A UDP endpoint. One of version six carries the texts that it and its address
/// are shown as.
#[derive(Debug, PartialEq, Eq)]
pub enum SocketAddr {
    V4 { ip: Ipv4Addr, port: u16 },
    V6 { addr: u128, port: u16, shown: String, host: String },
}

impl Ipv4Addr {
    /// The four octets in dotted decimal.
    pub open spec fn dotted(self) -> Seq<char> {
        text::decimal(self.a as nat) + seq!['.'] + text::decimal(self.b as nat) + seq!['.']
            + text::decimal(self.c as nat) + seq!['.'] + text::decimal(self.d as nat)
    }

    /// The address as a number, the first octet highest.
    pub open spec fn bits(self) -> nat {
        (self.a * 16777216 + self.b * 65536 + self.c * 256 + self.d) as nat
    }

    /// The address with these octets.
    pub fn new(a: u8, b: u8, c: u8, d: u8) -> (r: Self)
        ensures
            r == (Ipv4Addr { a, b, c, d }),
    {
        Ipv4Addr { a, b, c, d }
    }

    /// The address as a number.
    pub fn to_bits(self) -> (r: u32)
        ensures
            r == self.bits(),
    {
        self.a as u32 * 16777216 + self.b as u32 * 65536 + self.c as u32 * 256 + self.d as u32
    }

    /// The address that a number stands for.
    pub fn from_bits(x: u32) -> (r: Self)
        ensures
            r.bits() == x,
    {
        Ipv4Addr {
            a: (x / 16777216) as u8,
            b: (x / 65536 % 256) as u8,
            c: (x / 256 % 256) as u8,
            d: (x % 256) as u8,
        }
    }

    /// The address in dotted decimal.
    pub fn to_text(self) -> (r: String)
        ensures
            r@ == self.dotted(),
    {
        let mut out: String = String::new();
        proof {
            reveal_strlit(".");
            assert("."@ =~= seq!['.']);
        }
        text::push_decimal(&mut out, self.a as u64);
        out.append(".");
        text::push_decimal(&mut out, self.b as u64);
        out.append(".");
        text::push_decimal(&mut out, self.c as u64);
        out.append(".");
        text::push_decimal(&mut out, self.d as u64);
        assert(out@ =~= self.dotted());
        out
    }

    /// Reads an address in dotted decimal.
    pub fn parse(s: &str) -> (r: Option<Self>)
        ensures
            r == read_dotted(s@),
            r matches Some(ip) ==> s@ == ip.dotted(),
    {
        let len: usize = s.unicode_len();
        let i: usize = match text::find_char(s, '.', 0) {
            Some(i) => i,
            None => {
                proof {
                    lemma_not_dotted(s@, -1, -1);
                }
                return None;
            },
        };
        let j: usize = match text::find_char(s, '.', i + 1) {
            Some(j) => j,
            None => {
                proof {
                    lemma_not_dotted(s@, i as int, -1);
                }
                return None;
            },
        };
        let k: usize = match text::find_char(s, '.', j + 1) {
            Some(k) => k,
            None => {
                proof {
                    lemma_not_dotted(s@, i as int, j as int);
                }
                return None;
            },
        };
        let a: Option<u8> = parse_octet(s.substring_char(0, i));
        let b: Option<u8> = parse_octet(s.substring_char(i + 1, j));
        let c: Option<u8> = parse_octet(s.substring_char(j + 1, k));
        let d: Option<u8> = parse_octet(s.substring_char(k + 1, len));
        proof {
            assert forall|ip: Ipv4Addr| s@ == #[trigger] ip.dotted() implies a == Some(ip.a) && b
                == Some(ip.b) && c == Some(ip.c) && d == Some(ip.d) by {
                lemma_dotted_parts(s@, ip, i as int, j as int, k as int);
            }
        }
        match (a, b, c, d) {
            (Some(a), Some(b), Some(c), Some(d)) => {
                let ip: Ipv4Addr = Ipv4Addr { a, b, c, d };
                proof {
                    assert(s@ =~= ip.dotted());
                    law_dotted_reads_back(ip);
                }
                Some(ip)
            },
            _ => None,
        }
    }
}

/// The address that `s` writes in dotted decimal, if it writes one: four
/// numbers up to 255 without leading zeros, and nothing else.
pub open spec fn read_dotted(s: Seq<char>) -> Option<Ipv4Addr> {
    if exists|ip: Ipv4Addr| s == #[trigger] ip.dotted() {
        Some(choose|ip: Ipv4Addr| s == #[trigger] ip.dotted())
    } else {
        None
    }
}

/// Reading an address back from its dotted text gives the address.
pub proof fn law_dotted_reads_back(ip: Ipv4Addr)
    ensures
        read_dotted(ip.dotted()) == Some(ip),
{
    let read = choose|other: Ipv4Addr| ip.dotted() == #[trigger] other.dotted();
    law_dotted_is_injective(ip, read);
}

/// Where the three dots of a dotted address stand.
spec fn dots(ip: Ipv4Addr) -> (int, int, int) {
    let i = text::decimal(ip.a as nat).len() as int;
    let j = i + 1 + text::decimal(ip.b as nat).len();
    let k = j + 1 + text::decimal(ip.c as nat).len();
    (i, j, k)
}

/// The dots of a dotted address are its only characters that are not digits.
proof fn lemma_dots(ip: Ipv4Addr)
    ensures
        ({
            let s = ip.dotted();
            let (i, j, k) = dots(ip);
            &&& 0 <= i < j < k < s.len()
            &&& s[i] == '.'
            &&& s[j] == '.'
            &&& s[k] == '.'
            &&& forall|n: int| 0 <= n < s.len() && n != i && n != j && n != k ==> #[trigger] s[n] != '.'
            &&& s.subrange(0, i) == text::decimal(ip.a as nat)
            &&& s.subrange(i + 1, j) == text::decimal(ip.b as nat)
            &&& s.subrange(j + 1, k) == text::decimal(ip.c as nat)
            &&& s.subrange(k + 1, s.len() as int) == text::decimal(ip.d as nat)
        }),
{
    text::lemma_decimal(ip.a as nat);
    text::lemma_decimal(ip.b as nat);
    text::lemma_decimal(ip.c as nat);
    text::lemma_decimal(ip.d as nat);
    let s = ip.dotted();
    let (i, j, k) = dots(ip);
    assert(s.subrange(0, i) =~= text::decimal(ip.a as nat));
    assert(s.subrange(i + 1, j) =~= text::decimal(ip.b as nat));
    assert(s.subrange(j + 1, k) =~= text::decimal(ip.c as nat));
    assert(s.subrange(k + 1, s.len() as int) =~= text::decimal(ip.d as nat));
    assert forall|n: int| 0 <= n < s.len() && n != i && n != j && n != k implies #[trigger] s[n]
        != '.' by {
        if n < i {
            assert(s[n] == text::decimal(ip.a as nat)[n]);
        } else if n < j {
            assert(s[n] == text::decimal(ip.b as nat)[n - i - 1]);
        } else if n < k {
            assert(s[n] == text::decimal(ip.c as nat)[n - j - 1]);
        } else {
            assert(s[n] == text::decimal(ip.d as nat)[n - k - 1]);
        }
    }
}

/// A dotted address holds digits and dots only.
pub proof fn lemma_dotted_chars(ip: Ipv4Addr)
    ensures
        forall|n: int|
            0 <= n < ip.dotted().len() ==> #[trigger] ip.dotted()[n] == '.' || text::is_digit(
                ip.dotted()[n],
                10,
            ),
{
    text::lemma_decimal(ip.a as nat);
    text::lemma_decimal(ip.b as nat);
    text::lemma_decimal(ip.c as nat);
    text::lemma_decimal(ip.d as nat);
    let s = ip.dotted();
    let (i, j, k) = dots(ip);
    assert forall|n: int| 0 <= n < s.len() implies #[trigger] s[n] == '.' || text::is_digit(s[n], 10) by {
        if n < i {
            assert(s[n] == text::decimal(ip.a as nat)[n]);
        } else if i < n < j {
            assert(s[n] == text::decimal(ip.b as nat)[n - i - 1]);
        } else if j < n < k {
            assert(s[n] == text::decimal(ip.c as nat)[n - j - 1]);
        } else if k < n {
            assert(s[n] == text::decimal(ip.d as nat)[n - k - 1]);
        }
    }
}

/// A text with dots in no more than two places is no dotted address.
proof fn lemma_not_dotted(s: Seq<char>, first: int, second: int)
    requires
        forall|n: int| 0 <= n < s.len() && n != first && n != second ==> #[trigger] s[n] != '.',
    ensures
        forall|ip: Ipv4Addr| s != #[trigger] ip.dotted(),
{
    assert forall|ip: Ipv4Addr| s != #[trigger] ip.dotted() by {
        lemma_dots(ip);
        let (i, j, k) = dots(ip);
        if s == ip.dotted() {
            assert(s[i] == '.' && s[j] == '.' && s[k] == '.');
        }
    }
}

/// The dots that were found are those of the address.
proof fn lemma_dotted_parts(s: Seq<char>, ip: Ipv4Addr, i: int, j: int, k: int)
    requires
        s == ip.dotted(),
        0 <= i < j < k < s.len(),
        s[i] == '.',
        s[j] == '.',
        s[k] == '.',
        forall|n: int| 0 <= n < k && n != i && n != j ==> #[trigger] s[n] != '.',
    ensures
        s.subrange(0, i) == text::decimal(ip.a as nat),
        s.subrange(i + 1, j) == text::decimal(ip.b as nat),
        s.subrange(j + 1, k) == text::decimal(ip.c as nat),
        s.subrange(k + 1, s.len() as int) == text::decimal(ip.d as nat),
{
    lemma_dots(ip);
    let (i0, j0, k0) = dots(ip);
    assert(s[i0] == '.' && s[j0] == '.' && s[k0] == '.');
}

/// The digits of a number below one thousand.
proof fn lemma_short_decimal(v: nat)
    ensures
        v < 10 ==> text::decimal(v) == seq![text::digit(v)],
        10 <= v < 100 ==> text::decimal(v) == seq![text::digit(v / 10), text::digit(v % 10)],
        100 <= v < 1000 ==> text::decimal(v) == seq![
            text::digit(v / 100),
            text::digit(v / 10 % 10),
            text::digit(v % 10),
        ],
{
    reveal_with_fuel(text::decimal, 3);
    if 10 <= v < 100 {
        assert(text::decimal(v) =~= seq![text::digit(v / 10), text::digit(v % 10)]);
    } else if 100 <= v < 1000 {
        assert(text::decimal(v) =~= seq![
            text::digit(v / 100),
            text::digit(v / 10 % 10),
            text::digit(v % 10),
        ]);
    }
}

/// Reads one octet: a number up to 255 without leading zeros.
fn parse_octet(s: &str) -> (r: Option<u8>)
    ensures
        match r {
            Some(v) => s@ == text::decimal(v as nat),
            None => true,
        },
        forall|v: u8| s@ == #[trigger] text::decimal(v as nat) ==> r == Some(v),
{
    proof {
        assert forall|v: u8| s@ == #[trigger] text::decimal(v as nat) implies {
            &&& 1 <= s@.len() <= 3
            &&& s@[0] != '+'
            &&& (s@.len() > 1 ==> s@[0] != '0')
            &&& text::is_number(s@, 10)
            &&& text::number_value(s@, 10) == v
        } by {
            lemma_short_decimal(v as nat);
            text::lemma_decimal(v as nat);
            text::law_decimal_reads_back(v as nat);
        }
    }
    let len: usize = s.unicode_len();
    if len == 0 || len > 3 || s.get_char(0) == '+' {
        return None;
    }
    if len > 1 && s.get_char(0) == '0' {
        return None;
    }
    match text::parse_number(s, 10, 255) {
        Some(v) => {
            proof {
                lemma_three_digits(s@);
            }
            Some(v as u8)
        },
        None => None,
    }
}

/// Up to three digits without a leading zero are their value in decimal.
proof fn lemma_three_digits(s: Seq<char>)
    requires
        1 <= s.len() <= 3,
        s[0] != '+',
        s.len() > 1 ==> s[0] != '0',
        text::is_number(s, 10),
    ensures
        s == text::decimal(text::number_value(s, 10)),
{
    let v = text::digits_value(s, 10);
    assert(text::unsigned(s) == s);
    assert(forall|i: int| 0 <= i < s.len() ==> text::is_digit(#[trigger] s[i], 10));
    reveal_with_fuel(text::digits_value, 4);
    let c0 = s[0];
    assert(text::is_digit(c0, 10) && text::digit((c0 as int - 48) as nat) == c0);
    if s.len() == 2 {
        let c1 = s[1];
        assert(text::is_digit(c1, 10) && text::digit((c1 as int - 48) as nat) == c1);
        assert(s.drop_last()[0] == c0);
        assert(v == (c0 as int - 48) * 10 + (c1 as int - 48));
        assert(c0 as int - 48 == v / 10 && c1 as int - 48 == v % 10);
    } else if s.len() == 3 {
        let c1 = s[1];
        let c2 = s[2];
        assert(text::is_digit(c1, 10) && text::digit((c1 as int - 48) as nat) == c1);
        assert(text::is_digit(c2, 10) && text::digit((c2 as int - 48) as nat) == c2);
        assert(s.drop_last()[1] == c1);
        assert(s.drop_last().drop_last()[0] == c0);
        assert(v == ((c0 as int - 48) * 10 + (c1 as int - 48)) * 10 + (c2 as int - 48));
        assert(c0 as int - 48 == v / 100);
        assert(c1 as int - 48 == v / 10 % 10);
        assert(c2 as int - 48 == v % 10);
    }
    lemma_short_decimal(v);
    assert(s =~= text::decimal(v));
}

impl SocketAddr {
    /// The address and the port as they are shown.
    pub open spec fn shown(self) -> Seq<char> {
        match self {
            SocketAddr::V4 { ip, port } => ip.dotted() + seq![':'] + text::decimal(port as nat),
            SocketAddr::V6 { shown, .. } => shown@,
        }
    }

    /// The address alone as it is shown.
    pub open spec fn host_shown(self) -> Seq<char> {
        match self {
            SocketAddr::V4 { ip, .. } => ip.dotted(),
            SocketAddr::V6 { host, .. } => host@,
        }
    }

    /// The host part.
    pub open spec fn host(self) -> IpAddr {
        match self {
            SocketAddr::V4 { ip, .. } => IpAddr::V4(ip),
            SocketAddr::V6 { addr, .. } => IpAddr::V6(addr),
        }
    }

    /// The host part.
    pub fn ip(&self) -> (r: IpAddr)
        ensures
            r == self.host(),
    {
        match self {
            SocketAddr::V4 { ip, .. } => IpAddr::V4(*ip),
            SocketAddr::V6 { addr, .. } => IpAddr::V6(*addr),
        }
    }

    /// The address and the port as text.
    pub fn to_text(&self) -> (r: String)
        ensures
            r@ == self.shown(),
    {
        match self {
            SocketAddr::V4 { ip, port } => {
                let mut out: String = ip.to_text();
                proof {
                    reveal_strlit(":");
                    assert(":"@ =~= seq![':']);
                }
                out.append(":");
                text::push_decimal(&mut out, *port as u64);
                out
            },
            SocketAddr::V6 { shown, .. } => shown.clone(),
        }
    }

    /// The address alone as text.
    pub fn host_text(&self) -> (r: String)
        ensures
            r@ == self.host_shown(),
    {
        match self {
            SocketAddr::V4 { ip, .. } => ip.to_text(),
            SocketAddr::V6 { host, .. } => host.clone(),
        }
    }
}

impl Clone for SocketAddr {
    fn clone(&self) -> (r: Self)
        ensures
            r == *self,
    {
        match self {
            SocketAddr::V4 { ip, port } => SocketAddr::V4 { ip: *ip, port: *port },
            SocketAddr::V6 { addr, port, shown, host } => SocketAddr::V6 {
                addr: *addr,
                port: *port,
                shown: shown.clone(),
                host: host.clone(),
            },
        }
    }
}

/// An address is determined by the number that it stands for.
pub proof fn law_bits_are_injective(x: Ipv4Addr, y: Ipv4Addr)
    requires
        x.bits() == y.bits(),
    ensures
        x == y,
{
    let low_x = x.b * 65536 + x.c * 256 + x.d;
    let low_y = y.b * 65536 + y.c * 256 + y.d;
    assert(0 <= low_x < 16777216 && 0 <= low_y < 16777216);
    assert(x.a * 16777216 + low_x == y.a * 16777216 + low_y);
    assert(x.a == y.a);
    assert(low_x == low_y);
    assert(x.b == y.b);
}

/// An address is determined by its dotted text.
pub proof fn law_dotted_is_injective(x: Ipv4Addr, y: Ipv4Addr)
    requires
        x.dotted() == y.dotted(),
    ensures
        x == y,
{
    lemma_dots(x);
    lemma_dots(y);
    let s = x.dotted();
    let (i, j, k) = dots(y);
    assert(s[i] == '.' && s[j] == '.' && s[k] == '.');
    lemma_dotted_parts(s, x, i, j, k);
    text::law_decimal_is_injective(x.a as nat, y.a as nat);
    text::law_decimal_is_injective(x.b as nat, y.b as nat);
    text::law_decimal_is_injective(x.c as nat, y.c as nat);
    text::law_decimal_is_injective(x.d as nat, y.d as nat);
}

/// The host of an endpoint is its address, whatever the port is, and its text
/// tells both.
pub proof fn law_host_leaves_the_port_out(e: SocketAddr)
    ensures
        match e {
            SocketAddr::V4 { ip, port } => {
                &&& e.host() == IpAddr::V4(ip)
                &&& e.host_shown() == ip.dotted()
                &&& e.shown() == ip.dotted() + seq![':'] + text::decimal(port as nat)
            },
            SocketAddr::V6 { addr, shown, host, .. } => {
                &&& e.host() == IpAddr::V6(addr)
                &&& e.host_shown() == host@
                &&& e.shown() == shown@
            },
        },
{
}

/// Only what an address is written as is read, and the octets stand in their
/// order with dots between them.
pub proof fn law_dotted_is_four_numbers(ip: Ipv4Addr, s: Seq<char>)
    ensures
        ip.dotted() == text::decimal(ip.a as nat) + seq!['.'] + text::decimal(ip.b as nat)
            + seq!['.'] + text::decimal(ip.c as nat) + seq!['.'] + text::decimal(ip.d as nat),
        read_dotted(s) == Some(ip) <==> s == ip.dotted(),
        ip.bits() == ((ip.a * 256 + ip.b) * 256 + ip.c) * 256 + ip.d,
{
    law_dotted_reads_back(ip);
}

} // verus!
