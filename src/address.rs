//! IP addresses as plain values.
use vstd::prelude::*;
use vstd::string::StringExecFns;

verus! {

/// An IPv4 address (four octets) or an IPv6 address (eight 16-bit groups).
#[derive(Clone, Copy, Debug, PartialEq, Eq, Structural)]
pub enum IpAddress {
    V4(u8, u8, u8, u8),
    V6(u16, u16, u16, u16, u16, u16, u16, u16),
}

impl View for IpAddress {
    type V = IpAddress;

    open spec fn view(&self) -> IpAddress {
        *self
    }
}

} // verus!

verus! {

impl IpAddress {
    pub open spec fn spec_is_ipv4(self) -> bool {
        self is V4
    }

    pub open spec fn spec_is_loopback(self) -> bool {
        match self {
            IpAddress::V4(a, _, _, _) => a == 127,
            IpAddress::V6(a, b, c, d, e, f, g, h) => a == 0 && b == 0 && c == 0 && d == 0 && e == 0
                && f == 0 && g == 0 && h == 1,
        }
    }

    pub open spec fn spec_is_multicast(self) -> bool {
        match self {
            IpAddress::V4(a, _, _, _) => 224 <= a <= 239,
            IpAddress::V6(a, _, _, _, _, _, _, _) => a >= 0xff00,
        }
    }

    pub open spec fn spec_is_unspecified(self) -> bool {
        match self {
            IpAddress::V4(a, b, c, d) => a == 0 && b == 0 && c == 0 && d == 0,
            IpAddress::V6(a, b, c, d, e, f, g, h) => a == 0 && b == 0 && c == 0 && d == 0 && e == 0
                && f == 0 && g == 0 && h == 0,
        }
    }

    pub fn is_ipv4(&self) -> (r: bool)
        ensures
            r == self.spec_is_ipv4(),
    {
        match self {
            IpAddress::V4(..) => true,
            IpAddress::V6(..) => false,
        }
    }

    pub fn is_loopback(&self) -> (r: bool)
        ensures
            r == self.spec_is_loopback(),
    {
        match *self {
            IpAddress::V4(a, _, _, _) => a == 127,
            IpAddress::V6(a, b, c, d, e, f, g, h) => a == 0 && b == 0 && c == 0 && d == 0 && e == 0
                && f == 0 && g == 0 && h == 1,
        }
    }

    pub fn is_multicast(&self) -> (r: bool)
        ensures
            r == self.spec_is_multicast(),
    {
        match *self {
            IpAddress::V4(a, _, _, _) => 224 <= a && a <= 239,
            IpAddress::V6(a, _, _, _, _, _, _, _) => a >= 0xff00,
        }
    }

    pub fn is_unspecified(&self) -> (r: bool)
        ensures
            r == self.spec_is_unspecified(),
    {
        match *self {
            IpAddress::V4(a, b, c, d) => a == 0 && b == 0 && c == 0 && d == 0,
            IpAddress::V6(a, b, c, d, e, f, g, h) => a == 0 && b == 0 && c == 0 && d == 0 && e == 0
                && f == 0 && g == 0 && h == 0,
        }
    }
}

/// Both addresses are IPv4, or both are IPv6.
pub fn is_same_ip_family(first: &IpAddress, second: &IpAddress) -> (r: bool)
    ensures
        r == (first.spec_is_ipv4() == second.spec_is_ipv4()),
{
    match first {
        IpAddress::V4(..) => second.is_ipv4(),
        IpAddress::V6(..) => !second.is_ipv4(),
    }
}

/// The unspecified address (all zeros) of the family of `family`.
pub open spec fn spec_unspecified_of(family: IpAddress) -> IpAddress {
    match family {
        IpAddress::V4(..) => IpAddress::V4(0, 0, 0, 0),
        IpAddress::V6(..) => IpAddress::V6(0, 0, 0, 0, 0, 0, 0, 0),
    }
}

pub fn unspecified_of(family: &IpAddress) -> (r: IpAddress)
    ensures
        r == spec_unspecified_of(*family),
{
    match family {
        IpAddress::V4(..) => IpAddress::V4(0, 0, 0, 0),
        IpAddress::V6(..) => IpAddress::V6(0, 0, 0, 0, 0, 0, 0, 0),
    }
}

/// An address that can serve as the node's IP: routable-looking and of the
/// preferred family.
pub open spec fn usable_node_ip(a: IpAddress, preferred: IpAddress) -> bool {
    !a.spec_is_loopback() && !a.spec_is_multicast() && !a.spec_is_unspecified()
        && a.spec_is_ipv4() == preferred.spec_is_ipv4()
}

pub open spec fn no_node_ip_message() -> Seq<char> {
    "unable to find default IP address for node. Please specify a node IP manually"@
}

/// The first usable candidate among the addresses that a name lookup gave,
/// or an error telling the operator to set the node IP.
pub fn choose_node_ip(candidates: &Vec<IpAddress>, preferred_ip_family: &IpAddress) -> (r: Result<
    IpAddress,
    String,
>)
    ensures
        match r {
            Ok(a) => exists|i: int|
                0 <= i < candidates@.len() && candidates@[i] == a && usable_node_ip(
                    a,
                    *preferred_ip_family,
                ) && forall|j: int|
                    0 <= j < i ==> !usable_node_ip(candidates@[j], *preferred_ip_family),
            Err(e) => e@ == no_node_ip_message() && forall|j: int|
                0 <= j < candidates@.len() ==> !usable_node_ip(
                    candidates@[j],
                    *preferred_ip_family,
                ),
        },
{
    let mut i: usize = 0;
    while i < candidates.len()
        invariant
            i <= candidates@.len(),
            forall|j: int| 0 <= j < i ==> !usable_node_ip(candidates@[j], *preferred_ip_family),
        decreases candidates@.len() - i,
    {
        let a = candidates[i];
        if !a.is_loopback() && !a.is_multicast() && !a.is_unspecified() && is_same_ip_family(
            &a,
            preferred_ip_family,
        ) {
            return Ok(a);
        }
        i = i + 1;
    }
    Err(String::from_str(
        "unable to find default IP address for node. Please specify a node IP manually",
    ))
}

/// The name to hand to the resolver when looking up a host: the host name
/// with a port appended, as socket-address lookup wants one.
pub fn lookup_target(hostname: &str) -> (r: String)
    ensures
        r@ == hostname@ + ":80"@,
{
    String::from_str(hostname).concat(":80")
}

} // verus!

verus! {

pub open spec fn is_digit(c: char) -> bool {
    '0' <= c <= '9'
}

pub open spec fn decimal_value(t: Seq<char>) -> int
    decreases t.len(),
{
    if t.len() == 0 {
        0
    } else {
        decimal_value(t.drop_last()) * 10 + (t.last() as int - '0' as int)
    }
}

/// `t` is how `n` is written in decimal: one to three digits, no leading zero.
pub open spec fn octet_text(t: Seq<char>, n: u8) -> bool {
    &&& 1 <= t.len() <= 3
    &&& forall|i: int| 0 <= i < t.len() ==> is_digit(#[trigger] t[i])
    &&& (t.len() == 1 || t[0] != '0')
    &&& decimal_value(t) == n as int
}

/// `s` is the dotted-decimal text of the IPv4 address `a.b.c.d`.
pub open spec fn ipv4_text(s: Seq<char>, a: u8, b: u8, c: u8, d: u8) -> bool {
    exists|t0: Seq<char>, t1: Seq<char>, t2: Seq<char>, t3: Seq<char>|
        s == t0 + "."@ + t1 + "."@ + t2 + "."@ + t3 && #[trigger] octet_text(t0, a)
            && #[trigger] octet_text(t1, b) && #[trigger] octet_text(t2, c) && #[trigger] octet_text(
            t3,
            d,
        )
}

/// The IPv4 address that a text writes in dotted decimal, if it writes one.
pub open spec fn ipv4_of(s: Seq<char>) -> Option<IpAddress> {
    if exists|x: (u8, u8, u8, u8)| ipv4_text(s, x.0, x.1, x.2, x.3) {
        let x = choose|x: (u8, u8, u8, u8)| ipv4_text(s, x.0, x.1, x.2, x.3);
        Some(IpAddress::V4(x.0, x.1, x.2, x.3))
    } else {
        None
    }
}

/// The address that a text denotes: dotted-decimal IPv4, else IPv6 in hex
/// groups.
pub open spec fn ip_address_of(s: Seq<char>) -> Option<IpAddress> {
    match ipv4_of(s) {
        Some(a) => Some(a),
        None => match ipv6_groups_of(s) {
            Some(g) => Some(IpAddress::V6(g[0], g[1], g[2], g[3], g[4], g[5], g[6], g[7])),
            None => None,
        },
    }
}

proof fn lemma_octet_has_no_dot(t: Seq<char>, n: u8)
    requires
        octet_text(t, n),
    ensures
        forall|i: int| 0 <= i < t.len() ==> t[i] != '.',
{
    assert forall|i: int| 0 <= i < t.len() implies t[i] != '.' by {
        assert(is_digit(t[i]));
    }
}

/// The first '.' of `s`, or its length where it has none.
fn first_dot(s: &str) -> (r: usize)
    ensures
        r <= s@.len(),
        r < s@.len() ==> s@[r as int] == '.',
        forall|j: int| 0 <= j < r ==> s@[j] != '.',
{
    let n = s.unicode_len();
    let mut i: usize = 0;
    while i < n && s.get_char(i) != '.'
        invariant
            i <= n,
            n == s@.len(),
            forall|j: int| 0 <= j < i ==> s@[j] != '.',
        decreases n - i,
    {
        i = i + 1;
    }
    i
}

proof fn lemma_first_dot_at(s: Seq<char>, u: Seq<char>, v: Seq<char>, r: int)
    requires
        s == u + "."@ + v,
        forall|i: int| 0 <= i < u.len() ==> u[i] != '.',
        0 <= r <= s.len(),
        r < s.len() ==> s[r] == '.',
        forall|j: int| 0 <= j < r ==> s[j] != '.',
    ensures
        r == u.len(),
        s.subrange(0, r) == u,
        s.subrange(r + 1, s.len() as int) == v,
{
    reveal_strlit(".");
    assert(s[u.len() as int] == '.');
    assert(r <= u.len());
    if r < u.len() {
        assert(s[r] == u[r]);
    }
    assert(s.subrange(0, r) =~= u);
    assert(s.subrange(r + 1, s.len() as int) =~= v);
}

/// The octet that `t` writes in decimal, if it is one.
fn octet_of(t: &str) -> (r: Option<u8>)
    ensures
        match r {
            Some(n) => octet_text(t@, n),
            None => forall|n: u8| !octet_text(t@, n),
        },
{
    let n = t.unicode_len();
    if n == 0 || n > 3 {
        return None;
    }
    if n > 1 && t.get_char(0) == '0' {
        return None;
    }
    let mut v: u32 = 0;
    let mut i: usize = 0;
    while i < n
        invariant
            1 <= n <= 3,
            n == t@.len(),
            i <= n,
            v as int == decimal_value(t@.subrange(0, i as int)),
            v < 1000,
            v < if i == 0 { 1u32 } else if i == 1 { 10u32 } else if i == 2 { 100u32 } else { 1000u32 },
            forall|j: int| 0 <= j < i ==> is_digit(#[trigger] t@[j]),
        decreases n - i,
    {
        let c = t.get_char(i);
        if c < '0' || c > '9' {
            return None;
        }
        assert(t@.subrange(0, i + 1).drop_last() =~= t@.subrange(0, i as int));
        v = v * 10 + (c as u32 - '0' as u32);
        i = i + 1;
    }
    assert(t@.subrange(0, n as int) =~= t@);
    if v > 255 {
        return None;
    }
    Some(v as u8)
}

/// A decomposition of an address text into its four octets' texts.
#[verifier::spinoff_prover]
#[verifier::rlimit(40)]
proof fn address_witness(s: Seq<char>) -> (w: (Seq<char>, Seq<char>, Seq<char>, Seq<char>))
    requires
        exists|x: (u8, u8, u8, u8)| ipv4_text(s, x.0, x.1, x.2, x.3),
    ensures
        ({
            let x = choose|x: (u8, u8, u8, u8)| ipv4_text(s, x.0, x.1, x.2, x.3);
            &&& s == w.0 + "."@ + (w.1 + "."@ + (w.2 + "."@ + w.3))
            &&& octet_text(w.0, x.0)
            &&& octet_text(w.1, x.1)
            &&& octet_text(w.2, x.2)
            &&& octet_text(w.3, x.3)
            &&& forall|i: int| 0 <= i < w.0.len() ==> w.0[i] != '.'
            &&& forall|i: int| 0 <= i < w.1.len() ==> w.1[i] != '.'
            &&& forall|i: int| 0 <= i < w.2.len() ==> w.2[i] != '.'
        }),
{
    let x = choose|x: (u8, u8, u8, u8)| ipv4_text(s, x.0, x.1, x.2, x.3);
    let (t0, t1, t2, t3) = choose|t0: Seq<char>, t1: Seq<char>, t2: Seq<char>, t3: Seq<char>|
        s == t0 + "."@ + t1 + "."@ + t2 + "."@ + t3 && #[trigger] octet_text(t0, x.0)
            && #[trigger] octet_text(t1, x.1) && #[trigger] octet_text(t2, x.2)
            && #[trigger] octet_text(t3, x.3);
    lemma_octet_has_no_dot(t0, x.0);
    lemma_octet_has_no_dot(t1, x.1);
    lemma_octet_has_no_dot(t2, x.2);
    assert(s =~= t0 + "."@ + (t1 + "."@ + (t2 + "."@ + t3)));
    (t0, t1, t2, t3)
}

pub open spec fn has_ipv4_text(s: Seq<char>) -> bool {
    exists|x: (u8, u8, u8, u8)| ipv4_text(s, x.0, x.1, x.2, x.3)
}

/// `p` is where the first '.' of `s` stands, or `s`'s length.
pub open spec fn first_dot_is(s: Seq<char>, p: int) -> bool {
    &&& 0 <= p <= s.len()
    &&& p < s.len() ==> s[p] == '.'
    &&& forall|j: int| 0 <= j < p ==> s[j] != '.'
}

proof fn lemma_fewer_than_three_dots(
    s: Seq<char>,
    p0: int,
    r0: Seq<char>,
    p1: int,
    r1: Seq<char>,
    p2: int,
)
    requires
        first_dot_is(s, p0),
        p0 < s.len() ==> r0 == s.subrange(p0 + 1, s.len() as int) && first_dot_is(r0, p1),
        p0 < s.len() && p1 < r0.len() ==> r1 == r0.subrange(p1 + 1, r0.len() as int)
            && first_dot_is(r1, p2),
        p0 == s.len() || p1 == r0.len() || p2 == r1.len(),
    ensures
        !has_ipv4_text(s),
{
    if has_ipv4_text(s) {
        let w = address_witness(s);
        lemma_first_dot_at(s, w.0, w.1 + "."@ + (w.2 + "."@ + w.3), p0);
        lemma_first_dot_at(r0, w.1, w.2 + "."@ + w.3, p1);
        lemma_first_dot_at(r1, w.2, w.3, p2);
    }
}

proof fn lemma_three_dots(
    s: Seq<char>,
    p0: int,
    r0: Seq<char>,
    p1: int,
    r1: Seq<char>,
    p2: int,
    t0: Seq<char>,
    t1: Seq<char>,
    t2: Seq<char>,
    t3: Seq<char>,
)
    requires
        first_dot_is(s, p0),
        p0 < s.len(),
        r0 == s.subrange(p0 + 1, s.len() as int),
        first_dot_is(r0, p1),
        p1 < r0.len(),
        r1 == r0.subrange(p1 + 1, r0.len() as int),
        first_dot_is(r1, p2),
        p2 < r1.len(),
        t0 == s.subrange(0, p0),
        t1 == r0.subrange(0, p1),
        t2 == r1.subrange(0, p2),
        t3 == r1.subrange(p2 + 1, r1.len() as int),
    ensures
        s == t0 + "."@ + t1 + "."@ + t2 + "."@ + t3,
        has_ipv4_text(s) ==> ({
            let x = choose|x: (u8, u8, u8, u8)| ipv4_text(s, x.0, x.1, x.2, x.3);
            octet_text(t0, x.0) && octet_text(t1, x.1) && octet_text(t2, x.2) && octet_text(
                t3,
                x.3,
            )
        }),
{
    reveal_strlit(".");
    assert(s =~= t0 + "."@ + r0);
    assert(r0 =~= t1 + "."@ + r1);
    assert(r1 =~= t2 + "."@ + t3);
    assert(s =~= t0 + "."@ + t1 + "."@ + t2 + "."@ + t3);
    if has_ipv4_text(s) {
        let w = address_witness(s);
        lemma_first_dot_at(s, w.0, w.1 + "."@ + (w.2 + "."@ + w.3), p0);
        lemma_first_dot_at(r0, w.1, w.2 + "."@ + w.3, p1);
        lemma_first_dot_at(r1, w.2, w.3, p2);
    }
}

proof fn lemma_octet_value_unique(t: Seq<char>, a: u8, b: u8)
    requires
        octet_text(t, a),
        octet_text(t, b),
    ensures
        a == b,
{
}

/// Reads the dotted-decimal text of an IPv4 address.
fn parse_ipv4(s: &str) -> (r: Option<IpAddress>)
    ensures
        r == ipv4_of(s@),
{
    let n = s.unicode_len();
    let p0 = first_dot(s);
    if p0 == n {
        proof { lemma_fewer_than_three_dots(s@, p0 as int, s@, 0, s@, 0); }
        return None;
    }
    let t0 = s.substring_char(0, p0);
    let r0 = s.substring_char(p0 + 1, n);
    let n0 = r0.unicode_len();
    let p1 = first_dot(r0);
    if p1 == n0 {
        proof { lemma_fewer_than_three_dots(s@, p0 as int, r0@, p1 as int, s@, 0); }
        return None;
    }
    let t1 = r0.substring_char(0, p1);
    let r1 = r0.substring_char(p1 + 1, n0);
    let n1 = r1.unicode_len();
    let p2 = first_dot(r1);
    if p2 == n1 {
        proof { lemma_fewer_than_three_dots(s@, p0 as int, r0@, p1 as int, r1@, p2 as int); }
        return None;
    }
    let t2 = r1.substring_char(0, p2);
    let t3 = r1.substring_char(p2 + 1, n1);
    proof {
        lemma_three_dots(
            s@,
            p0 as int,
            r0@,
            p1 as int,
            r1@,
            p2 as int,
            t0@,
            t1@,
            t2@,
            t3@,
        );
    }
    match (octet_of(t0), octet_of(t1), octet_of(t2), octet_of(t3)) {
        (Some(a), Some(b), Some(c), Some(d)) => {
            proof {
                assert(ipv4_text(s@, a, b, c, d));
                let y = (a, b, c, d);
                assert(ipv4_text(s@, y.0, y.1, y.2, y.3));
                assert(has_ipv4_text(s@));
                let x = choose|x: (u8, u8, u8, u8)| ipv4_text(s@, x.0, x.1, x.2, x.3);
                lemma_octet_value_unique(t0@, a, x.0);
                lemma_octet_value_unique(t1@, b, x.1);
                lemma_octet_value_unique(t2@, c, x.2);
                lemma_octet_value_unique(t3@, d, x.3);
            }
            Some(IpAddress::V4(a, b, c, d))
        },
        _ => None,
    }
}

} // verus!

verus! {

/// The pieces of `s` between its ':' characters (one more than there are ':').
pub open spec fn split_colons(s: Seq<char>) -> Seq<Seq<char>>
    decreases s.len(),
{
    if s.len() == 0 {
        seq![Seq::empty()]
    } else {
        let p = split_colons(s.drop_last());
        if s.last() == ':' {
            p.push(Seq::empty())
        } else {
            p.update(p.len() - 1, p.last().push(s.last()))
        }
    }
}

proof fn lemma_split_colons_len(s: Seq<char>)
    ensures
        split_colons(s).len() >= 1,
    decreases s.len(),
{
    if s.len() > 0 {
        lemma_split_colons_len(s.drop_last());
    }
}

pub open spec fn is_hex_digit(c: char) -> bool {
    ('0' <= c <= '9') || ('a' <= c <= 'f') || ('A' <= c <= 'F')
}

pub open spec fn hex_digit_value(c: char) -> int {
    if '0' <= c <= '9' {
        c as int - '0' as int
    } else if 'a' <= c <= 'f' {
        c as int - 'a' as int + 10
    } else {
        c as int - 'A' as int + 10
    }
}

pub open spec fn hex_value(t: Seq<char>) -> int
    decreases t.len(),
{
    if t.len() == 0 {
        0
    } else {
        hex_value(t.drop_last()) * 16 + hex_digit_value(t.last())
    }
}

/// The 16-bit group that `t` writes in one to four hex digits.
pub open spec fn hex_group_of(t: Seq<char>) -> Option<u16> {
    if 1 <= t.len() <= 4 && forall|i: int| 0 <= i < t.len() ==> is_hex_digit(#[trigger] t[i]) {
        Some(hex_value(t) as u16)
    } else {
        None
    }
}

/// The groups that a list of pieces writes, if each is a hex group.
pub open spec fn groups_of(ts: Seq<Seq<char>>) -> Option<Seq<u16>>
    decreases ts.len(),
{
    if ts.len() == 0 {
        Some(Seq::empty())
    } else {
        match (groups_of(ts.drop_last()), hex_group_of(ts.last())) {
            (Some(g), Some(x)) => Some(g.push(x)),
            _ => None,
        }
    }
}

pub open spec fn zeros(n: nat) -> Seq<u16> {
    Seq::new(n, |i: int| 0u16)
}

/// The groups of a list of pieces whose last piece may be a dotted-decimal
/// IPv4 address, which stands for two groups.
pub open spec fn tail_groups_of(ts: Seq<Seq<char>>) -> Option<Seq<u16>> {
    if ts.len() == 0 {
        Some(Seq::empty())
    } else {
        match ipv4_of(ts.last()) {
            Some(IpAddress::V4(a, b, c, d)) => match groups_of(ts.drop_last()) {
                Some(g) => Some(g.push((a as int * 256 + b as int) as u16).push(
                    (c as int * 256 + d as int) as u16,
                )),
                None => None,
            },
            _ => groups_of(ts),
        }
    }
}

/// The groups that `head`, a run of zero groups, and `tail` make, where
/// together they leave room for at least one zero group.
pub open spec fn compressed(head: Seq<Seq<char>>, tail: Seq<Seq<char>>) -> Option<Seq<u16>> {
    match (groups_of(head), tail_groups_of(tail)) {
        (Some(h), Some(t)) => if h.len() + t.len() <= 7 {
            Some(h + zeros((8 - h.len() - t.len()) as nat) + t)
        } else {
            None
        },
        _ => None,
    }
}

pub open spec fn all_nonempty(p: Seq<Seq<char>>, from: int, to: int) -> bool {
    forall|i: int| from <= i < to ==> #[trigger] p[i].len() > 0
}

/// The eight groups of an IPv6 address text: eight hex groups separated by
/// ':', or fewer with one "::" standing for one or more zero groups (at the
/// start, inside, or at the end). The last piece may be a dotted-decimal
/// IPv4 address standing for the last two groups.
pub open spec fn ipv6_groups_of(s: Seq<char>) -> Option<Seq<u16>> {
    let p = split_colons(s);
    let n = p.len() as int;
    if all_nonempty(p, 0, n) {
        match tail_groups_of(p) {
            Some(g) => if g.len() == 8 {
                Some(g)
            } else {
                None
            },
            None => None,
        }
    } else if n == 3 && p[0].len() == 0 && p[1].len() == 0 && p[2].len() == 0 {
        Some(zeros(8))
    } else if n >= 3 && p[0].len() == 0 && p[1].len() == 0 && all_nonempty(p, 2, n) {
        compressed(Seq::empty(), p.subrange(2, n))
    } else if n >= 3 && p[n - 1].len() == 0 && p[n - 2].len() == 0 && all_nonempty(p, 0, n - 2) {
        compressed(p.subrange(0, n - 2), Seq::empty())
    } else if exists|k: int|
        0 < k < n - 1 && p[k].len() == 0 && all_nonempty(p, 0, k) && all_nonempty(p, k + 1, n) {
        let k = choose|k: int|
            0 < k < n - 1 && p[k].len() == 0 && all_nonempty(p, 0, k) && all_nonempty(p, k + 1, n);
        compressed(p.subrange(0, k), p.subrange(k + 1, n))
    } else {
        None
    }
}

} // verus!

verus! {

pub open spec fn texts_view(v: Seq<String>) -> Seq<Seq<char>> {
    v.map_values(|t: String| t@)
}

fn split_on_colons(s: &str) -> (r: Vec<String>)
    ensures
        texts_view(r@) == split_colons(s@),
{
    let n = s.unicode_len();
    let mut r: Vec<String> = Vec::new();
    let mut start: usize = 0;
    let mut i: usize = 0;
    proof {
        let z = s@.subrange(0, 0);
        assert(z =~= Seq::<char>::empty());
        assert(split_colons(z) == seq![Seq::<char>::empty()]);
        assert(texts_view(r@) =~= Seq::<Seq<char>>::empty());
        assert(texts_view(r@).push(z) =~= split_colons(z));
    }
    while i < n
        invariant
            n == s@.len(),
            start <= i <= n,
            texts_view(r@).push(s@.subrange(start as int, i as int)) == split_colons(
                s@.subrange(0, i as int),
            ),
        decreases n - i,
    {
        let ghost pre = s@.subrange(0, i as int);
        assert(s@.subrange(0, i + 1).drop_last() =~= pre);
        proof { lemma_split_colons_len(pre); }
        if s.get_char(i) == ':' {
            let piece = s.substring_char(start, i).to_owned();
            let ghost before = texts_view(r@);
            r.push(piece);
            assert(texts_view(r@) =~= before.push(s@.subrange(start as int, i as int)));
            start = i + 1;
            assert(s@.subrange(start as int, (i + 1) as int) =~= Seq::<char>::empty());
            assert(texts_view(r@).push(s@.subrange(start as int, (i + 1) as int)) =~= split_colons(
                pre,
            ).push(Seq::empty()));
        } else {
            assert(s@.subrange(start as int, (i + 1) as int) =~= s@.subrange(
                start as int,
                i as int,
            ).push(s@[i as int]));
            assert(texts_view(r@).push(s@.subrange(start as int, (i + 1) as int)) =~= split_colons(
                pre,
            ).update(
                split_colons(pre).len() - 1,
                split_colons(pre).last().push(s@[i as int]),
            ));
        }
        i = i + 1;
    }
    assert(s@.subrange(0, n as int) =~= s@);
    let last = s.substring_char(start, n).to_owned();
    r.push(last);
    assert(texts_view(r@) =~= split_colons(s@));
    r
}

fn hex_group(t: &str) -> (r: Option<u16>)
    ensures
        r == hex_group_of(t@),
{
    let n = t.unicode_len();
    if n == 0 || n > 4 {
        return None;
    }
    let mut v: u32 = 0;
    let mut i: usize = 0;
    while i < n
        invariant
            1 <= n <= 4,
            n == t@.len(),
            i <= n,
            v as int == hex_value(t@.subrange(0, i as int)),
            v < if i == 0 { 1u32 } else if i == 1 { 16u32 } else if i == 2 { 256u32 } else if i
                == 3 { 4096u32 } else { 65536u32 },
            forall|j: int| 0 <= j < i ==> is_hex_digit(#[trigger] t@[j]),
        decreases n - i,
    {
        let c = t.get_char(i);
        let d: u32;
        if '0' <= c && c <= '9' {
            d = c as u32 - '0' as u32;
        } else if 'a' <= c && c <= 'f' {
            d = c as u32 - 'a' as u32 + 10;
        } else if 'A' <= c && c <= 'F' {
            d = c as u32 - 'A' as u32 + 10;
        } else {
            assert(!is_hex_digit(t@[i as int]));
            return None;
        }
        assert(t@.subrange(0, i + 1).drop_last() =~= t@.subrange(0, i as int));
        v = v * 16 + d;
        i = i + 1;
    }
    assert(t@.subrange(0, n as int) =~= t@);
    Some(v as u16)
}

/// The groups of pieces `from..to` of `segs`.
fn groups_in(segs: &Vec<String>, from: usize, to: usize) -> (r: Option<Vec<u16>>)
    requires
        from <= to <= segs@.len(),
    ensures
        match r {
            Some(g) => groups_of(texts_view(segs@).subrange(from as int, to as int)) == Some(g@),
            None => groups_of(texts_view(segs@).subrange(from as int, to as int)) is None,
        },
{
    let ghost p = texts_view(segs@);
    let mut g: Vec<u16> = Vec::new();
    let mut i: usize = from;
    assert(p.subrange(from as int, from as int) =~= Seq::<Seq<char>>::empty());
    while i < to
        invariant
            from <= i <= to <= segs@.len(),
            p == texts_view(segs@),
            groups_of(p.subrange(from as int, i as int)) == Some(g@),
        decreases to - i,
    {
        assert(p.subrange(from as int, i + 1).drop_last() =~= p.subrange(from as int, i as int));
        match hex_group(segs[i].as_str()) {
            Some(x) => {
                g.push(x);
            },
            None => {
                proof { lemma_groups_fail_persist(p, from as int, i + 1, to as int); }
                return None;
            },
        }
        i = i + 1;
    }
    Some(g)
}

/// The groups of pieces `from..to` of `segs`, the last of which may be a
/// dotted-decimal IPv4 address.
fn tail_groups_in(segs: &Vec<String>, from: usize, to: usize) -> (r: Option<Vec<u16>>)
    requires
        from <= to <= segs@.len(),
    ensures
        match r {
            Some(g) => tail_groups_of(texts_view(segs@).subrange(from as int, to as int)) == Some(
                g@,
            ),
            None => tail_groups_of(texts_view(segs@).subrange(from as int, to as int)) is None,
        },
{
    let ghost p = texts_view(segs@);
    if from == to {
        assert(p.subrange(from as int, to as int) =~= Seq::<Seq<char>>::empty());
        return Some(Vec::new());
    }
    assert(p.subrange(from as int, to as int).drop_last() =~= p.subrange(
        from as int,
        to - 1,
    ));
    assert(p.subrange(from as int, to as int).last() == p[to - 1]);
    match parse_ipv4(segs[to - 1].as_str()) {
        Some(IpAddress::V4(a, b, c, d)) => match groups_in(segs, from, to - 1) {
            Some(g) => {
                let mut g = g;
                g.push((a as u16) * 256 + (b as u16));
                g.push((c as u16) * 256 + (d as u16));
                Some(g)
            },
            None => None,
        },
        _ => groups_in(segs, from, to),
    }
}

proof fn lemma_groups_fail_persist(p: Seq<Seq<char>>, from: int, i: int, to: int)
    requires
        0 <= from <= i <= to <= p.len(),
        groups_of(p.subrange(from, i)) is None,
    ensures
        groups_of(p.subrange(from, to)) is None,
    decreases to - i,
{
    if i < to {
        assert(p.subrange(from, i + 1).drop_last() =~= p.subrange(from, i));
        lemma_groups_fail_persist(p, from, i + 1, to);
    }
}

/// The groups of `head`, zero groups, and `tail`, as pieces of `segs`.
fn compressed_in(segs: &Vec<String>, hf: usize, ht: usize, tf: usize, tt: usize) -> (r: Option<
    Vec<u16>,
>)
    requires
        hf <= ht <= segs@.len(),
        tf <= tt <= segs@.len(),
    ensures
        r matches Some(g) ==> g@.len() == 8,
        match r {
            Some(g) => compressed(
                texts_view(segs@).subrange(hf as int, ht as int),
                texts_view(segs@).subrange(tf as int, tt as int),
            ) == Some(g@),
            None => compressed(
                texts_view(segs@).subrange(hf as int, ht as int),
                texts_view(segs@).subrange(tf as int, tt as int),
            ) is None,
        },
{
    let h = match groups_in(segs, hf, ht) {
        Some(h) => h,
        None => {
            return None;
        },
    };
    let t = match tail_groups_in(segs, tf, tt) {
        Some(t) => t,
        None => {
            return None;
        },
    };
    if h.len() > 7 || t.len() > 7 - h.len() {
        return None;
    }
    let fill = 8 - h.len() - t.len();
    let mut g: Vec<u16> = Vec::new();
    let mut i: usize = 0;
    while i < h.len()
        invariant
            i <= h@.len(),
            g@ == h@.subrange(0, i as int),
        decreases h@.len() - i,
    {
        g.push(h[i]);
        assert(g@ =~= h@.subrange(0, i + 1));
        i = i + 1;
    }
    let mut j: usize = 0;
    while j < fill
        invariant
            j <= fill,
            g@ == h@ + zeros(j as nat),
        decreases fill - j,
    {
        g.push(0);
        assert(g@ =~= h@ + zeros((j + 1) as nat));
        j = j + 1;
    }
    let mut k: usize = 0;
    while k < t.len()
        invariant
            k <= t@.len(),
            g@ == h@ + zeros(fill as nat) + t@.subrange(0, k as int),
        decreases t@.len() - k,
    {
        g.push(t[k]);
        assert(g@ =~= h@ + zeros(fill as nat) + t@.subrange(0, k + 1));
        k = k + 1;
    }
    assert(t@.subrange(0, t@.len() as int) =~= t@);
    Some(g)
}

/// Whether pieces `from..to` of `segs` are all non-empty.
fn nonempty_range(segs: &Vec<String>, from: usize, to: usize) -> (r: bool)
    requires
        from <= to <= segs@.len(),
    ensures
        r == all_nonempty(texts_view(segs@), from as int, to as int),
{
    let mut i: usize = from;
    while i < to
        invariant
            from <= i <= to <= segs@.len(),
            all_nonempty(texts_view(segs@), from as int, i as int),
        decreases to - i,
    {
        if segs[i].unicode_len() == 0 {
            assert(texts_view(segs@)[i as int].len() == 0);
            return false;
        }
        i = i + 1;
    }
    true
}

fn is_empty_piece(segs: &Vec<String>, i: usize) -> (r: bool)
    requires
        i < segs@.len(),
    ensures
        r == (texts_view(segs@)[i as int].len() == 0),
{
    segs[i].unicode_len() == 0
}

/// Reads an IPv6 address text into its eight groups.
fn parse_ipv6_groups(s: &str) -> (r: Option<Vec<u16>>)
    ensures
        r matches Some(g) ==> g@.len() == 8,
        match r {
            Some(g) => ipv6_groups_of(s@) == Some(g@),
            None => ipv6_groups_of(s@) is None,
        },
{
    let segs = split_on_colons(s);
    let ghost p = texts_view(segs@);
    let n = segs.len();
    proof { lemma_split_colons_len(s@); }
    if nonempty_range(&segs, 0, n) {
        assert(p.subrange(0, n as int) =~= p);
        return match tail_groups_in(&segs, 0, n) {
            Some(g) => if g.len() == 8 {
                Some(g)
            } else {
                None
            },
            None => None,
        };
    }
    if n == 3 && is_empty_piece(&segs, 0) && is_empty_piece(&segs, 1) && is_empty_piece(&segs, 2) {
        let mut g: Vec<u16> = Vec::new();
        let mut j: usize = 0;
        while j < 8
            invariant
                j <= 8,
                g@ == zeros(j as nat),
            decreases 8 - j,
        {
            g.push(0);
            assert(g@ =~= zeros((j + 1) as nat));
            j = j + 1;
        }
        return Some(g);
    }
    if n >= 3 && is_empty_piece(&segs, 0) && is_empty_piece(&segs, 1) && nonempty_range(
        &segs,
        2,
        n,
    ) {
        assert(p.subrange(0, 0) =~= Seq::<Seq<char>>::empty());
        return compressed_in(&segs, 0, 0, 2, n);
    }
    if n >= 3 && is_empty_piece(&segs, n - 1) && is_empty_piece(&segs, n - 2) && nonempty_range(
        &segs,
        0,
        n - 2,
    ) {
        assert(p.subrange(n as int, n as int) =~= Seq::<Seq<char>>::empty());
        return compressed_in(&segs, 0, n - 2, n, n);
    }
    let mut k: usize = 0;
    while k < n && !is_empty_piece(&segs, k)
        invariant
            k <= n,
            n == segs@.len(),
            p == texts_view(segs@),
            all_nonempty(p, 0, k as int),
        decreases n - k,
    {
        k = k + 1;
    }
    if 0 < k && k + 1 < n && nonempty_range(&segs, k + 1, n) {
        proof {
            let c = choose|c: int|
                0 < c < n - 1 && p[c].len() == 0 && all_nonempty(p, 0, c) && all_nonempty(
                    p,
                    c + 1,
                    n as int,
                );
            assert(c == k) by {
                if c < k {
                    assert(p[c].len() > 0);
                } else if c > k {
                    assert(p[k as int].len() > 0);
                }
            }
        }
        return compressed_in(&segs, 0, k, k + 1, n);
    }
    proof {
        if exists|c: int|
            0 < c < n - 1 && p[c].len() == 0 && all_nonempty(p, 0, c) && all_nonempty(
                p,
                c + 1,
                n as int,
            ) {
            let c = choose|c: int|
                0 < c < n - 1 && p[c].len() == 0 && all_nonempty(p, 0, c) && all_nonempty(
                    p,
                    c + 1,
                    n as int,
                );
            if c < k {
                assert(p[c].len() > 0);
            } else if c > k {
                assert(p[k as int].len() > 0);
            }
        }
    }
    None
}

} // verus!

verus! {

/// Reads an IP address text: dotted-decimal IPv4, or IPv6 as hex groups
/// with at most one "::".
pub fn parse_ip_address(s: &str) -> (r: Option<IpAddress>)
    ensures
        r == ip_address_of(s@),
{
    if let Some(a) = parse_ipv4(s) {
        return Some(a);
    }
    match parse_ipv6_groups(s) {
        Some(g) => Some(IpAddress::V6(g[0], g[1], g[2], g[3], g[4], g[5], g[6], g[7])),
        None => None,
    }
}

} // verus!
