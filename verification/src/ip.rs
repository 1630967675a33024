//! Reading IP addresses as `std::net::IpAddr::from_str` reads them, and
//! telling local and private addresses apart.
//!
//! An IPv4 address is four decimal parts of one to three digits, at most
//! 255 and without leading zeros, joined by dots. An IPv6 address is up to
//! eight groups of one to four hexadecimal digits joined by colons, where
//! one `::` stands for one or more zero groups and the last two groups may
//! be written as an IPv4 address.
use vstd::prelude::*;

verus! {

/// The value of `c` as a digit in base 10 or 16, as `char::to_digit` gives it.
pub open spec fn digit_value(c: char, hex: bool) -> Option<int> {
    if '0' <= c <= '9' {
        Some(c as int - '0' as int)
    } else if hex && 'a' <= c <= 'f' {
        Some(c as int - 'a' as int + 10)
    } else if hex && 'A' <= c <= 'F' {
        Some(c as int - 'A' as int + 10)
    } else {
        None
    }
}

/// The base of the digits.
pub open spec fn radix(hex: bool) -> int {
    if hex {
        16
    } else {
        10
    }
}

/// The number of digits at `pos` and after.
pub open spec fn digit_run(s: Seq<char>, pos: int, hex: bool) -> nat
    decreases s.len() - pos,
{
    if 0 <= pos < s.len() && digit_value(s[pos], hex) is Some {
        1 + digit_run(s, pos + 1, hex)
    } else {
        0
    }
}

/// The value of the `n` digits at `pos`.
pub open spec fn run_value(s: Seq<char>, pos: int, n: nat, hex: bool) -> int
    decreases n,
{
    if n == 0 {
        0
    } else {
        run_value(s, pos, (n - 1) as nat, hex) * radix(hex) + digit_value(s[pos + n - 1], hex)->0
    }
}

/// A decimal address part at `pos`: one to three digits, no leading zero
/// unless it stands alone, at most 255; its value and where it ends.
pub open spec fn read_octet(s: Seq<char>, pos: int) -> Option<(int, int)> {
    let r = digit_run(s, pos, false);
    if r == 0 || r > 3 || (r > 1 && s[pos] == '0') || run_value(s, pos, r, false) > 255 {
        None
    } else {
        Some((run_value(s, pos, r, false), pos + r))
    }
}

/// A hexadecimal group at `pos`: one to four digits; its value and where it ends.
pub open spec fn read_hex_group(s: Seq<char>, pos: int) -> Option<(int, int)> {
    let r = digit_run(s, pos, true);
    if r == 0 || r > 4 {
        None
    } else {
        Some((run_value(s, pos, r, true), pos + r))
    }
}

/// A dot and then an address part, at `pos`.
pub open spec fn read_dot_octet(s: Seq<char>, pos: int) -> Option<(int, int)> {
    if 0 <= pos < s.len() && s[pos] == '.' {
        read_octet(s, pos + 1)
    } else {
        None
    }
}

/// A dotted IPv4 address at `pos`: its four parts and where it ends.
pub open spec fn read_ipv4(s: Seq<char>, pos: int) -> Option<(Seq<int>, int)> {
    match read_octet(s, pos) {
        None => None,
        Some((a, p1)) => match read_dot_octet(s, p1) {
            None => None,
            Some((b, p2)) => match read_dot_octet(s, p2) {
                None => None,
                Some((c, p3)) => match read_dot_octet(s, p3) {
                    None => None,
                    Some((d, p4)) => Some((seq![a, b, c, d], p4)),
                },
            },
        },
    }
}

/// IPv6 groups read from `pos`, the `i`-th on, while fewer than `limit`,
/// after the groups `acc`: each but the first after a colon; where two
/// groups are left an IPv4 address may stand for them and ends the groups.
/// Gives the groups, whether an IPv4 address ended them, and where they end.
pub open spec fn read_groups(s: Seq<char>, pos: int, i: int, limit: int, acc: Seq<int>) -> (
    Seq<int>,
    bool,
    int,
)
    decreases limit - i,
{
    if i < 0 || i >= limit {
        (acc, false, pos)
    } else {
        let sep_ok = i == 0 || (0 <= pos < s.len() && s[pos] == ':');
        let q = if i == 0 {
            pos
        } else {
            pos + 1
        };
        let v4 = if i < limit - 1 && sep_ok {
            read_ipv4(s, q)
        } else {
            None
        };
        match v4 {
            Some((o, p)) => (acc + seq![o[0] * 256 + o[1], o[2] * 256 + o[3]], true, p),
            None => match (if sep_ok {
                read_hex_group(s, q)
            } else {
                None
            }) {
                Some((v, p)) => read_groups(s, p, i + 1, limit, acc.push(v)),
                None => (acc, false, pos),
            },
        }
    }
}

/// An IPv6 address at the start of `s`: its eight groups and where it ends.
pub open spec fn read_ipv6(s: Seq<char>) -> Option<(Seq<int>, int)> {
    let (head, head_v4, p) = read_groups(s, 0, 0, 8, Seq::empty());
    if head.len() == 8 {
        Some((head, p))
    } else if head_v4 {
        None
    } else if !(0 <= p && p + 1 < s.len() && s[p] == ':' && s[p + 1] == ':') {
        None
    } else {
        let (tail, _, q) = read_groups(s, p + 2, 0, 8 - (head.len() + 1), Seq::empty());
        Some((head + Seq::new((8 - head.len() - tail.len()) as nat, |k: int| 0) + tail, q))
    }
}

/// `s` read whole as an IP address: `(false, parts)` for IPv4, `(true,
/// groups)` for IPv6. An IPv4 address at the start of `s` that does not end
/// it makes `s` no address at all.
pub open spec fn parse_ip(s: Seq<char>) -> Option<(bool, Seq<int>)> {
    match read_ipv4(s, 0) {
        Some((o, p)) => if p == s.len() {
            Some((false, o))
        } else {
            None
        },
        None => match read_ipv6(s) {
            Some((g, p)) => if p == s.len() {
                Some((true, g))
            } else {
                None
            },
            None => None,
        },
    }
}

/// A private or loopback address: IPv4 in 10.0.0.0/8, 172.16.0.0/12,
/// 192.168.0.0/16 or 127.0.0.0/8; the IPv6 loopback `::1` or an IPv6
/// link-local address (fe80::/10).
pub open spec fn private_ip(ip: (bool, Seq<int>)) -> bool {
    let v = ip.1;
    if !ip.0 {
        v[0] == 10 || (v[0] == 172 && 16 <= v[1] < 32) || (v[0] == 192 && v[1] == 168) || v[0] == 127
    } else {
        v == seq![0int, 0, 0, 0, 0, 0, 0, 1] || (0xfe80 <= v[0] < 0xfec0)
    }
}

/// `b` to the power `n`.
pub open spec fn power(b: int, n: nat) -> int
    decreases n,
{
    if n == 0 {
        1
    } else {
        power(b, (n - 1) as nat) * b
    }
}

proof fn lemma_run_value_bound(s: Seq<char>, pos: int, n: nat, hex: bool)
    requires
        0 <= pos,
        pos + n <= s.len(),
        forall|k: int| pos <= k < pos + n ==> (#[trigger] digit_value(s[k], hex)) is Some,
    ensures
        0 <= run_value(s, pos, n, hex) < power(radix(hex), n),
    decreases n,
{
    if n > 0 {
        lemma_run_value_bound(s, pos, (n - 1) as nat, hex);
        let v = run_value(s, pos, (n - 1) as nat, hex);
        let b = power(radix(hex), (n - 1) as nat);
        let d = digit_value(s[pos + n - 1], hex)->0;
        let r = radix(hex);
        assert(0 <= d < r);
        assert(0 <= v * r + d < b * r) by (nonlinear_arith)
            requires
                0 <= v < b,
                0 <= d < r,
                r > 0,
        ;
    }
}

proof fn lemma_digit_run(s: Seq<char>, pos: int, hex: bool)
    requires
        0 <= pos <= s.len(),
    ensures
        pos + digit_run(s, pos, hex) <= s.len(),
        forall|k: int| pos <= k < pos + digit_run(s, pos, hex) ==> (#[trigger] digit_value(s[k], hex)) is Some,
        pos + digit_run(s, pos, hex) < s.len() ==> digit_value(s[pos + digit_run(s, pos, hex)], hex) is None,
    decreases s.len() - pos,
{
    if pos < s.len() && digit_value(s[pos], hex) is Some {
        lemma_digit_run(s, pos + 1, hex);
    }
}

/// The value of `c` as a digit.
fn digit_of(c: char, hex: bool) -> (res: Option<u32>)
    ensures
        match res {
            Some(d) => digit_value(c, hex) == Some(d as int) && d < radix(hex),
            None => digit_value(c, hex) is None,
        },
{
    if '0' <= c && c <= '9' {
        Some((c as u32) - ('0' as u32))
    } else if hex && 'a' <= c && c <= 'f' {
        Some((c as u32) - ('a' as u32) + 10)
    } else if hex && 'A' <= c && c <= 'F' {
        Some((c as u32) - ('A' as u32) + 10)
    } else {
        None
    }
}

/// The number of digits at `pos` and after.
fn run_length(s: &[char], pos: usize, hex: bool) -> (n: usize)
    requires
        pos <= s.len(),
    ensures
        n == digit_run(s@, pos as int, hex),
        pos + n <= s.len(),
{
    proof {
        lemma_digit_run(s@, pos as int, hex);
    }
    let mut k = pos;
    while k < s.len() && digit_of(s[k], hex).is_some()
        invariant
            pos <= k <= s.len(),
            digit_run(s@, pos as int, hex) == (k - pos) + digit_run(s@, k as int, hex),
        decreases s.len() - k,
    {
        k += 1;
    }
    k - pos
}

/// The value of the `n` digits at `pos`.
fn run_number(s: &[char], pos: usize, n: usize, hex: bool) -> (v: u32)
    requires
        n <= 4,
        pos + n <= s.len(),
        forall|k: int| pos <= k < pos + n ==> (#[trigger] digit_value(s@[k], hex)) is Some,
    ensures
        v == run_value(s@, pos as int, n as nat, hex),
{
    let mut v: u32 = 0;
    let mut k: usize = 0;
    while k < n
        invariant
            k <= n <= 4,
            pos + n <= s.len(),
            forall|j: int| pos <= j < pos + n ==> (#[trigger] digit_value(s@[j], hex)) is Some,
            v == run_value(s@, pos as int, k as nat, hex),
        decreases n - k,
    {
        proof {
            lemma_run_value_bound(s@, pos as int, k as nat, hex);
            assert(power(radix(hex), k as nat) <= 0x10000) by {
                assert(power(radix(hex), 0) == 1);
                assert(power(radix(hex), 1) == radix(hex));
                assert(power(radix(hex), 2) == radix(hex) * radix(hex));
                assert(power(radix(hex), 3) == radix(hex) * radix(hex) * radix(hex));
            }
        }
        let d = match digit_of(s[pos + k], hex) {
            Some(d) => d,
            None => 0,
        };
        let r: u32 = if hex {
            16
        } else {
            10
        };
        v = v * r + d;
        k += 1;
    }
    v
}

/// A decimal address part at `pos`.
fn octet_at(s: &[char], pos: usize) -> (res: Option<(u32, usize)>)
    requires
        pos <= s.len(),
    ensures
        match res {
            Some((v, p)) => read_octet(s@, pos as int) == Some((v as int, p as int)) && p <= s.len(),
            None => read_octet(s@, pos as int) is None,
        },
{
    proof {
        lemma_digit_run(s@, pos as int, false);
    }
    let r = run_length(s, pos, false);
    if r == 0 || r > 3 || (r > 1 && s[pos] == '0') {
        return None;
    }
    let v = run_number(s, pos, r, false);
    if v > 255 {
        return None;
    }
    Some((v, pos + r))
}

/// A hexadecimal group at `pos`.
fn hex_group_at(s: &[char], pos: usize) -> (res: Option<(u32, usize)>)
    requires
        pos <= s.len(),
    ensures
        match res {
            Some((v, p)) => read_hex_group(s@, pos as int) == Some((v as int, p as int)) && p
                <= s.len(),
            None => read_hex_group(s@, pos as int) is None,
        },
{
    proof {
        lemma_digit_run(s@, pos as int, true);
    }
    let r = run_length(s, pos, true);
    if r == 0 || r > 4 {
        return None;
    }
    let v = run_number(s, pos, r, true);
    Some((v, pos + r))
}

/// A dot and then an address part, at `pos`.
fn dot_octet_at(s: &[char], pos: usize) -> (res: Option<(u32, usize)>)
    requires
        pos <= s.len(),
    ensures
        match res {
            Some((v, p)) => read_dot_octet(s@, pos as int) == Some((v as int, p as int)) && p
                <= s.len(),
            None => read_dot_octet(s@, pos as int) is None,
        },
{
    if pos < s.len() && s[pos] == '.' {
        octet_at(s, pos + 1)
    } else {
        None
    }
}

/// A dotted IPv4 address at `pos`.
fn ipv4_at(s: &[char], pos: usize) -> (res: Option<(Vec<u32>, usize)>)
    requires
        pos <= s.len(),
    ensures
        match res {
            Some((o, p)) => read_ipv4(s@, pos as int) matches Some((v, q)) && q == p && p <= s.len()
                && o@.len() == 4 && (forall|k: int| 0 <= k < 4 ==> o@[k] == v[k] && o@[k] <= 255),
            None => read_ipv4(s@, pos as int) is None,
        },
{
    let (a, p1) = match octet_at(s, pos) {
        Some(x) => x,
        None => return None,
    };
    let (b, p2) = match dot_octet_at(s, p1) {
        Some(x) => x,
        None => return None,
    };
    let (c, p3) = match dot_octet_at(s, p2) {
        Some(x) => x,
        None => return None,
    };
    let (d, p4) = match dot_octet_at(s, p3) {
        Some(x) => x,
        None => return None,
    };
    let mut o: Vec<u32> = Vec::new();
    o.push(a);
    o.push(b);
    o.push(c);
    o.push(d);
    Some((o, p4))
}

/// IPv6 groups read from `pos` while fewer than `limit`.
fn groups_at(s: &[char], pos: usize, limit: usize) -> (res: (Vec<u32>, bool, usize))
    requires
        pos <= s.len(),
        limit <= 8,
    ensures
        res.0@.map_values(|g: u32| g as int) == read_groups(s@, pos as int, 0, limit as int, Seq::empty()).0,
        res.1 == read_groups(s@, pos as int, 0, limit as int, Seq::empty()).1,
        res.2 == read_groups(s@, pos as int, 0, limit as int, Seq::empty()).2,
        res.2 <= s.len(),
        res.0@.len() <= limit,
{
    let ghost total = read_groups(s@, pos as int, 0, limit as int, Seq::empty());
    let mut groups: Vec<u32> = Vec::new();
    let mut p = pos;
    let mut i: usize = 0;
    assert(groups@.map_values(|g: u32| g as int) =~= Seq::<int>::empty());
    while i < limit
        invariant
            i <= limit <= 8,
            p <= s.len(),
            groups@.len() == i,
            total == read_groups(s@, pos as int, 0, limit as int, Seq::empty()),
            total == read_groups(s@, p as int, i as int, limit as int, groups@.map_values(|g: u32| g as int)),
        decreases limit - i,
    {
        let ghost acc = groups@.map_values(|g: u32| g as int);
        let sep_ok = i == 0 || (p < s.len() && s[p] == ':');
        let q = if i == 0 {
            p
        } else if sep_ok {
            p + 1
        } else {
            p
        };
        if i + 1 < limit && sep_ok {
            if let Some((o, e)) = ipv4_at(s, q) {
                let hi = o[0] * 256 + o[1];
                let lo = o[2] * 256 + o[3];
                groups.push(hi);
                groups.push(lo);
                assert(groups@.map_values(|g: u32| g as int) =~= acc + seq![
                    o@[0] * 256 + o@[1],
                    o@[2] * 256 + o@[3],
                ]);
                return (groups, true, e);
            }
        }
        let g = if sep_ok {
            hex_group_at(s, q)
        } else {
            None
        };
        match g {
            Some((v, e)) => {
                groups.push(v);
                assert(groups@.map_values(|g: u32| g as int) =~= acc.push(v as int));
                p = e;
            },
            None => {
                return (groups, false, p);
            },
        }
        i += 1;
    }
    (groups, false, p)
}

/// `s` read whole as an IP address.
fn parse_address(s: &[char]) -> (res: Option<(bool, Vec<u32>)>)
    ensures
        match res {
            Some((v6, parts)) => parse_ip(s@) matches Some((w6, q)) && w6 == v6 && parts@.len()
                == q.len() && (forall|k: int| 0 <= k < q.len() ==> parts@[k] == q[k]) && parts@.len()
                == (if v6 {
                8int
            } else {
                4int
            }),
            None => parse_ip(s@) is None,
        },
{
    if let Some((o, e)) = ipv4_at(s, 0) {
        if e == s.len() {
            return Some((false, o));
        }
        return None;
    }
    let (head, head_v4, p) = groups_at(s, 0, 8);
    let ghost hv = head@.map_values(|g: u32| g as int);
    if head.len() == 8 {
        if p == s.len() {
            return Some((true, head));
        }
        return None;
    }
    if head_v4 {
        return None;
    }
    if !(p < s.len() && p + 1 < s.len() && s[p] == ':' && s[p + 1] == ':') {
        return None;
    }
    let (tail, _, q) = groups_at(s, p + 2, 8 - (head.len() + 1));
    if q != s.len() {
        return None;
    }
    let ghost tv = tail@.map_values(|g: u32| g as int);
    let mut all = head;
    let zeros = 8 - all.len() - tail.len();
    let mut z: usize = 0;
    while z < zeros
        invariant
            z <= zeros,
            zeros == 8 - hv.len() - tv.len(),
            all@.map_values(|g: u32| g as int) == hv + Seq::new(z as nat, |k: int| 0int),
        decreases zeros - z,
    {
        let ghost before = all@.map_values(|g: u32| g as int);
        all.push(0);
        assert(all@.map_values(|g: u32| g as int) =~= before.push(0int));
        assert(Seq::new((z + 1) as nat, |k: int| 0int) =~= Seq::new(z as nat, |k: int| 0int).push(0int));
        assert(all@.map_values(|g: u32| g as int) =~= hv + Seq::new((z + 1) as nat, |k: int| 0int));
        z += 1;
    }
    let mut t: usize = 0;
    let ghost mid = all@.map_values(|g: u32| g as int);
    while t < tail.len()
        invariant
            t <= tail.len(),
            tv == tail@.map_values(|g: u32| g as int),
            all@.map_values(|g: u32| g as int) == mid + tv.take(t as int),
        decreases tail.len() - t,
    {
        let ghost before = all@.map_values(|g: u32| g as int);
        all.push(tail[t]);
        assert(all@.map_values(|g: u32| g as int) =~= before.push(tv[t as int]));
        assert(tv.take(t + 1) =~= tv.take(t as int).push(tv[t as int]));
        assert(all@.map_values(|g: u32| g as int) =~= mid + tv.take(t + 1));
        t += 1;
    }
    assert(tv.take(t as int) =~= tv);
    Some((true, all))
}

/// Whether `host` reads as a private or loopback IP address.
pub fn is_private_address(host: &[char]) -> (r: bool)
    ensures
        r == (parse_ip(host@) matches Some(ip) && private_ip(ip)),
{
    match parse_address(host) {
        Some((v6, parts)) => {
            if !v6 {
                parts[0] == 10 || (parts[0] == 172 && 16 <= parts[1] && parts[1] < 32) || (parts[0]
                    == 192 && parts[1] == 168) || parts[0] == 127
            } else {
                let loopback = parts[0] == 0 && parts[1] == 0 && parts[2] == 0 && parts[3] == 0
                    && parts[4] == 0 && parts[5] == 0 && parts[6] == 0 && parts[7] == 1;
                let ghost ip = parse_ip(host@)->0;
                let ghost g = ip.1;
                assert(g.len() == 8);
                assert(forall|k: int| 0 <= k < 8 ==> parts@[k] == g[k]);
                assert(loopback == (g == seq![0int, 0, 0, 0, 0, 0, 0, 1])) by {
                    if loopback {
                        assert(g =~= seq![0int, 0, 0, 0, 0, 0, 0, 1]);
                    }
                    if g == seq![0int, 0, 0, 0, 0, 0, 0, 1] {
                        assert(g[7] == 1 && g[0] == 0 && g[1] == 0 && g[2] == 0 && g[3] == 0);
                        assert(g[4] == 0 && g[5] == 0 && g[6] == 0);
                    }
                }
                loopback || (0xfe80 <= parts[0] && parts[0] < 0xfec0)
            }
        },
        None => false,
    }
}

} // verus!
