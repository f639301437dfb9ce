//! The textual forms of network addresses: dotted IPv4, RFC 5952 IPv6 (the
//! form `std` prints), and colon-separated MAC addresses.
use vstd::prelude::*;

use crate::flow::{IpAddr, MacAddr};
use crate::text::{dec_text, hex_min_text, hex_text, push_decimal, push_hex_fixed, push_hex_min};

verus! {

/// The dotted-decimal form of an IPv4 address given as its 32-bit value.
pub open spec fn ipv4_text(a: u32) -> Seq<char> {
    let x = a as nat;
    dec_text(x / 0x100_0000) + seq!['.'] + dec_text((x / 0x1_0000) % 0x100) + seq!['.'] + dec_text(
        (x / 0x100) % 0x100,
    ) + seq!['.'] + dec_text(x % 0x100)
}

/// The lowest `n` 16-bit groups of `x`, most significant first.
pub open spec fn groups(x: nat, n: nat) -> Seq<nat>
    decreases n,
{
    if n == 0 {
        Seq::empty()
    } else {
        groups(x / 0x1_0000, (n - 1) as nat).push(x % 0x1_0000)
    }
}

/// The eight 16-bit segments of an IPv6 address.
pub open spec fn segments(a: u128) -> Seq<nat> {
    groups(a as nat, 8)
}

/// The number of zero segments from position `i` on.
pub open spec fn zero_run(s: Seq<nat>, i: int) -> nat
    decreases s.len() - i,
{
    if 0 <= i < s.len() && s[i] == 0 {
        1 + zero_run(s, i + 1)
    } else {
        0
    }
}

/// The start and length of the longest run of zero segments from position
/// `i` on; of runs of equal length, the first.
pub open spec fn longest_zero_run(s: Seq<nat>, i: int) -> (int, nat)
    decreases s.len() - i,
{
    if i < 0 || i >= s.len() {
        (s.len() as int, 0)
    } else {
        let b = longest_zero_run(s, i + 1);
        if zero_run(s, i) >= b.1 {
            (i, zero_run(s, i))
        } else {
            b
        }
    }
}

/// The segments in `{:x}` form, separated by colons.
pub open spec fn join_groups(s: Seq<nat>) -> Seq<char>
    decreases s.len(),
{
    if s.len() == 0 {
        Seq::empty()
    } else if s.len() == 1 {
        hex_min_text(s[0])
    } else {
        join_groups(s.drop_last()) + seq![':'] + hex_min_text(s.last())
    }
}

/// The RFC 5952 form of an IPv6 address as `std` prints it: an IPv4-mapped
/// address as `::ffff:` and dotted IPv4; else the segments in hex, with the
/// first longest run of two or more zero segments written `::`.
pub open spec fn ipv6_text(a: u128) -> Seq<char> {
    let s = segments(a);
    if s[0] == 0 && s[1] == 0 && s[2] == 0 && s[3] == 0 && s[4] == 0 && s[5] == 0xffff {
        "::ffff:"@ + ipv4_text((s[6] * 0x1_0000 + s[7]) as u32)
    } else {
        let (start, len) = longest_zero_run(s, 0);
        if len > 1 {
            join_groups(s.subrange(0, start)) + "::"@ + join_groups(s.subrange(start + len, 8))
        } else {
            join_groups(s)
        }
    }
}

/// The textual form of an IP address.
pub open spec fn ip_text(ip: IpAddr) -> Seq<char> {
    match ip {
        IpAddr::V4(a) => ipv4_text(a),
        IpAddr::V6(a) => ipv6_text(a),
    }
}

/// The colon-separated form of a MAC address, two lowercase hex digits per octet.
pub open spec fn mac_text(m: MacAddr) -> Seq<char> {
    hex_text(m.0 as nat, 2) + seq![':'] + hex_text(m.1 as nat, 2) + seq![':'] + hex_text(
        m.2 as nat,
        2,
    ) + seq![':'] + hex_text(m.3 as nat, 2) + seq![':'] + hex_text(m.4 as nat, 2) + seq![':']
        + hex_text(m.5 as nat, 2)
}

/// The dotted-decimal form of an IPv4 address.
pub fn ipv4_to_string(a: u32) -> (r: String)
    ensures
        r@ == ipv4_text(a),
{
    let mut s = String::new();
    push_decimal(&mut s, (a / 0x100_0000) as u64);
    s.append(".");
    push_decimal(&mut s, ((a / 0x1_0000) % 0x100) as u64);
    s.append(".");
    push_decimal(&mut s, ((a / 0x100) % 0x100) as u64);
    s.append(".");
    push_decimal(&mut s, (a % 0x100) as u64);
    proof {
        reveal_strlit(".");
    }
    assert(s@ =~= ipv4_text(a));
    s
}

/// The eight segments of an IPv6 address, most significant first.
fn ipv6_segments(a: u128) -> (r: Vec<u16>)
    ensures
        r@.len() == 8,
        segments(a).len() == 8,
        forall|i: int| 0 <= i < 8 ==> r@[i] as nat == #[trigger] segments(a)[i],
{
    proof {
        lemma_groups_len(a as nat, 8);
    }
    let mut out: Vec<u16> = Vec::new();
    let mut k: usize = 0;
    while k < 8
        invariant
            k <= 8,
            out@.len() == k,
            forall|i: int| 0 <= i < k ==> out@[i] as nat == #[trigger] groups(a as nat, 8)[i],
        decreases 8 - k,
    {
        let shift = (7 - k) as u32;
        let mut y: u128 = a;
        let mut t: u32 = 0;
        proof {
            lemma_div_one(a as nat);
        }
        while t < shift
            invariant
                t <= shift,
                shift == 7 - k,
                k < 8,
                y as nat == (a as nat) / pow65536(t as nat),
            decreases shift - t,
        {
            proof {
                lemma_pow65536_pos(t as nat);
                lemma_div_div(a as nat, pow65536(t as nat));
                assert(pow65536((t + 1) as nat) == 0x1_0000 * pow65536(t as nat));
            }
            y = y / 0x1_0000;
            t = t + 1;
        }
        proof {
            lemma_groups_index(a as nat, 8, k as nat);
        }
        out.push((y % 0x1_0000) as u16);
        k = k + 1;
    }
    out
}

/// 65536 to the power `n`.
pub open spec fn pow65536(n: nat) -> nat
    decreases n,
{
    if n == 0 { 1 } else { 0x1_0000 * pow65536((n - 1) as nat) }
}

proof fn lemma_pow65536_pos(n: nat)
    ensures
        pow65536(n) > 0,
    decreases n,
{
    if n > 0 {
        lemma_pow65536_pos((n - 1) as nat);
    }
}

proof fn lemma_div_one(x: nat)
    ensures
        x / pow65536(0) == x,
{
    assert(pow65536(0) == 1);
    assert(x / 1 == x) by (nonlinear_arith);
}

proof fn lemma_div_div(x: nat, p: nat)
    requires
        p > 0,
    ensures
        (x / p) / 0x1_0000 == x / (0x1_0000 * p),
{
    vstd::arithmetic::div_mod::lemma_div_denominator(x as int, p as int, 0x1_0000);
    assert(p * 0x1_0000 == 0x1_0000 * p) by (nonlinear_arith);
}

/// The `k`th of the lowest `n` groups is the value divided down to it.
proof fn lemma_groups_index(x: nat, n: nat, k: nat)
    requires
        k < n,
    ensures
        groups(x, n).len() == n,
        groups(x, n)[k as int] == (x / pow65536((n - 1 - k) as nat)) % 0x1_0000,
    decreases n,
{
    lemma_groups_len(x, n);
    if k < n - 1 {
        lemma_groups_index(x / 0x1_0000, (n - 1) as nat, k);
        lemma_pow65536_pos((n - 2 - k) as nat);
        lemma_div_div(x, pow65536((n - 2 - k) as nat));
        vstd::arithmetic::div_mod::lemma_div_denominator(x as int, 0x1_0000, pow65536((n - 2 - k) as nat) as int);
        assert(0x1_0000 * pow65536((n - 2 - k) as nat) == pow65536((n - 1 - k) as nat));
    } else {
        lemma_div_one(x);
    }
}

proof fn lemma_groups_len(x: nat, n: nat)
    ensures
        groups(x, n).len() == n,
    decreases n,
{
    if n > 0 {
        lemma_groups_len(x / 0x1_0000, (n - 1) as nat);
    }
}

/// Appends the segments from `from` to `to`, joined by colons.
fn push_joined(s: &mut String, segs: &Vec<u16>, sv: Ghost<Seq<nat>>, from: usize, to: usize)
    requires
        from <= to <= segs@.len(),
        sv@.len() == segs@.len(),
        forall|i: int| 0 <= i < segs@.len() ==> segs@[i] as nat == #[trigger] sv@[i],
    ensures
        final(s)@ == old(s)@ + join_groups(sv@.subrange(from as int, to as int)),
{
    let ghost start = s@;
    let mut j: usize = from;
    assert(sv@.subrange(from as int, from as int) =~= Seq::<nat>::empty());
    assert(start + join_groups(Seq::<nat>::empty()) =~= start);
    while j < to
        invariant
            from <= j <= to <= segs@.len(),
            sv@.len() == segs@.len(),
            forall|i: int| 0 <= i < segs@.len() ==> segs@[i] as nat == #[trigger] sv@[i],
            s@ == start + join_groups(sv@.subrange(from as int, j as int)),
        decreases to - j,
    {
        let ghost sub = sv@.subrange(from as int, j + 1);
        assert(sub.drop_last() =~= sv@.subrange(from as int, j as int));
        assert(sub.last() == sv@[j as int]);
        if j > from {
            s.append(":");
            proof {
                reveal_strlit(":");
            }
        } else {
            assert(sub.len() == 1);
        }
        push_hex_min(s, segs[j] as u64);
        assert(s@ =~= start + join_groups(sub));
        j = j + 1;
    }
}

/// The RFC 5952 form of an IPv6 address, as `std` prints it.
pub fn ipv6_to_string(a: u128) -> (r: String)
    ensures
        r@ == ipv6_text(a),
{
    let segs = ipv6_segments(a);
    let ghost sv = segments(a);
    if segs[0] == 0 && segs[1] == 0 && segs[2] == 0 && segs[3] == 0 && segs[4] == 0 && segs[5]
        == 0xffff {
        let mut s = crate::text::string_of("::ffff:");
        let v4: u32 = ((segs[6] as u32) * 0x1_0000 + segs[7] as u32) as u32;
        let t = ipv4_to_string(v4);
        s.append(t.as_str());
        return s;
    }
    // The zero runs from each position, and the first longest one.
    let mut run: u64 = 0;
    let mut best_start: usize = 8;
    let mut best_len: u64 = 0;
    let mut i: usize = 8;
    while i > 0
        invariant
            i <= 8,
            segs@.len() == 8,
            sv.len() == 8,
            forall|k: int| 0 <= k < 8 ==> segs@[k] as nat == #[trigger] sv[k],
            run as nat == zero_run(sv, i as int),
            run <= 8 - i,
            (best_start as int, best_len as nat) == longest_zero_run(sv, i as int),
        decreases i,
    {
        i = i - 1;
        if segs[i] == 0 {
            run = run + 1;
        } else {
            run = 0;
        }
        if run >= best_len {
            best_start = i;
            best_len = run;
        }
    }
    let mut s = String::new();
    if best_len > 1 {
        proof {
            lemma_longest_run_bounds(sv, 0);
        }
        push_joined(&mut s, &segs, Ghost(sv), 0, best_start);
        s.append("::");
        let end = best_start + best_len as usize;
        push_joined(&mut s, &segs, Ghost(sv), end, 8);
    } else {
        assert(sv.subrange(0, 8) =~= sv);
        push_joined(&mut s, &segs, Ghost(sv), 0, 8);
    }
    s
}

/// A longest zero run lies within the segments.
proof fn lemma_longest_run_bounds(s: Seq<nat>, i: int)
    requires
        0 <= i <= s.len(),
    ensures
        i <= longest_zero_run(s, i).0 <= s.len(),
        longest_zero_run(s, i).0 + longest_zero_run(s, i).1 <= s.len(),
    decreases s.len() - i,
{
    lemma_zero_run_bound(s, i);
    if i < s.len() {
        lemma_longest_run_bounds(s, i + 1);
    }
}

proof fn lemma_zero_run_bound(s: Seq<nat>, i: int)
    requires
        0 <= i <= s.len(),
    ensures
        i + zero_run(s, i) <= s.len(),
    decreases s.len() - i,
{
    if i < s.len() {
        lemma_zero_run_bound(s, i + 1);
    }
}

/// The textual form of an IP address.
pub fn ip_to_string(ip: IpAddr) -> (r: String)
    ensures
        r@ == ip_text(ip),
{
    match ip {
        IpAddr::V4(a) => ipv4_to_string(a),
        IpAddr::V6(a) => ipv6_to_string(a),
    }
}

/// The colon-separated form of a MAC address.
pub fn mac_to_string(m: MacAddr) -> (r: String)
    ensures
        r@ == mac_text(m),
{
    let mut s = String::new();
    push_hex_fixed(&mut s, m.0 as u64, 2);
    s.append(":");
    push_hex_fixed(&mut s, m.1 as u64, 2);
    s.append(":");
    push_hex_fixed(&mut s, m.2 as u64, 2);
    s.append(":");
    push_hex_fixed(&mut s, m.3 as u64, 2);
    s.append(":");
    push_hex_fixed(&mut s, m.4 as u64, 2);
    s.append(":");
    push_hex_fixed(&mut s, m.5 as u64, 2);
    proof {
        reveal_strlit(":");
    }
    assert(s@ =~= mac_text(m));
    s
}

/// The zero run from `i` consists of zero segments.
proof fn lemma_zero_run_zeros(s: Seq<nat>, i: int)
    requires
        0 <= i,
    ensures
        i + zero_run(s, i) <= s.len() || zero_run(s, i) == 0,
        forall|k: int| i <= k < i + zero_run(s, i) ==> 0 <= k < s.len() && #[trigger] s[k] == 0,
    decreases s.len() - i,
{
    if 0 <= i < s.len() && s[i] == 0 {
        lemma_zero_run_zeros(s, i + 1);
    }
}

/// The run that the compressed form writes as `::` is the first of the
/// longest runs of zero segments: all of its segments are zero, no run is
/// longer, and every run that starts before it is shorter.
pub proof fn lemma_longest_zero_run_is_first_longest(s: Seq<nat>, i: int)
    requires
        0 <= i <= s.len(),
    ensures
        i <= longest_zero_run(s, i).0 <= s.len(),
        longest_zero_run(s, i).0 + longest_zero_run(s, i).1 <= s.len(),
        forall|k: int|
            longest_zero_run(s, i).0 <= k < longest_zero_run(s, i).0 + longest_zero_run(s, i).1
                ==> #[trigger] s[k] == 0,
        forall|j: int| i <= j < s.len() ==> #[trigger] zero_run(s, j) <= longest_zero_run(s, i).1,
        forall|j: int| i <= j < longest_zero_run(s, i).0 ==> #[trigger] zero_run(s, j) < longest_zero_run(s, i).1,
        longest_zero_run(s, i).0 < s.len() ==> zero_run(s, longest_zero_run(s, i).0) == longest_zero_run(s, i).1,
    decreases s.len() - i,
{
    lemma_longest_run_bounds(s, i);
    if i < s.len() {
        lemma_longest_zero_run_is_first_longest(s, i + 1);
    }
    let (st, len) = longest_zero_run(s, i);
    if st < s.len() {
        lemma_zero_run_zeros(s, st);
    }
}

/// A zero run of two or more segments exists exactly when two neighbouring
/// segments are zero.
proof fn lemma_long_run_iff_adjacent_zeros(s: Seq<nat>)
    ensures
        longest_zero_run(s, 0).1 > 1 <==> exists|j: int| 0 <= j && j + 1 < s.len() && #[trigger] s[j] == 0 && s[j + 1] == 0,
{
    lemma_longest_zero_run_is_first_longest(s, 0);
    if longest_zero_run(s, 0).1 > 1 {
        let st = longest_zero_run(s, 0).0;
        assert(s[st] == 0 && s[st + 1] == 0);
    }
    if exists|j: int| 0 <= j && j + 1 < s.len() && #[trigger] s[j] == 0 && s[j + 1] == 0 {
        let j = choose|j: int| 0 <= j && j + 1 < s.len() && #[trigger] s[j] == 0 && s[j + 1] == 0;
        assert(zero_run(s, j + 1) >= 1);
        assert(zero_run(s, j) >= 2);
    }
}

/// An IPv6 address that is not IPv4-mapped is written with `::` exactly when
/// two neighbouring segments are zero, and then `::` stands for the first of
/// its longest runs of zero segments; the other segments are written as
/// they are, on either side.
pub proof fn lemma_ipv6_compression(a: u128)
    ensures
        ({
            let s = segments(a);
            let (start, len) = longest_zero_run(s, 0);
            !(s[0] == 0 && s[1] == 0 && s[2] == 0 && s[3] == 0 && s[4] == 0 && s[5] == 0xffff) ==> {
                &&& s.len() == 8
                &&& (exists|j: int| 0 <= j < 7 && #[trigger] s[j] == 0 && s[j + 1] == 0) ==> {
                    &&& ipv6_text(a) == join_groups(s.subrange(0, start)) + "::"@ + join_groups(
                        s.subrange(start + len, 8),
                    )
                    &&& len >= 2
                    &&& forall|k: int| start <= k < start + len ==> #[trigger] s[k] == 0
                    &&& forall|j: int| 0 <= j < 8 ==> #[trigger] zero_run(s, j) <= len
                    &&& forall|j: int| 0 <= j < start ==> #[trigger] zero_run(s, j) < len
                }
                &&& !(exists|j: int| 0 <= j < 7 && #[trigger] s[j] == 0 && s[j + 1] == 0) ==> ipv6_text(a)
                    == join_groups(s)
            }
        }),
{
    let s = segments(a);
    lemma_groups_len(a as nat, 8);
    lemma_long_run_iff_adjacent_zeros(s);
    lemma_longest_zero_run_is_first_longest(s, 0);
}

} // verus!
