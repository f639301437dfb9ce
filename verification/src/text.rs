//! Character-level building blocks: decimal and hexadecimal renderings of
//! numbers, prefixes, and the ASCII helpers the rest of the crate relies on.
use vstd::prelude::*;

verus! {

/// The character of a decimal digit `d` (`d < 10`).
pub open spec fn dec_digit_char(d: nat) -> char {
    if d == 0 { '0' }
    else if d == 1 { '1' }
    else if d == 2 { '2' }
    else if d == 3 { '3' }
    else if d == 4 { '4' }
    else if d == 5 { '5' }
    else if d == 6 { '6' }
    else if d == 7 { '7' }
    else if d == 8 { '8' }
    else { '9' }
}

/// The lowercase character of a hexadecimal digit `d` (`d < 16`).
pub open spec fn hex_digit_char(d: nat) -> char {
    if d < 10 { dec_digit_char(d) }
    else if d == 10 { 'a' }
    else if d == 11 { 'b' }
    else if d == 12 { 'c' }
    else if d == 13 { 'd' }
    else if d == 14 { 'e' }
    else { 'f' }
}

/// The decimal rendering of `n`, without sign or leading zeros.
pub open spec fn dec_text(n: nat) -> Seq<char>
    decreases n,
{
    if n < 10 {
        seq![dec_digit_char(n)]
    } else {
        dec_text(n / 10).push(dec_digit_char(n % 10))
    }
}

/// The lowest `width` hexadecimal digits of `x`, most significant first, lowercase.
pub open spec fn hex_text(x: nat, width: nat) -> Seq<char>
    decreases width,
{
    if width == 0 {
        Seq::empty()
    } else {
        hex_text(x / 16, (width - 1) as nat).push(hex_digit_char(x % 16))
    }
}

/// The hexadecimal rendering of `n` without leading zeros (the `{:x}` format).
pub open spec fn hex_min_text(n: nat) -> Seq<char>
    decreases n,
{
    if n < 16 {
        seq![hex_digit_char(n)]
    } else {
        hex_min_text(n / 16).push(hex_digit_char(n % 16))
    }
}

/// Whether `c` is an ASCII hexadecimal digit, in either case.
pub open spec fn is_hex_char(c: char) -> bool {
    ('0' <= c && c <= '9') || ('a' <= c && c <= 'f') || ('A' <= c && c <= 'F')
}

/// The value of a hexadecimal digit character (`is_hex_char(c)`).
pub open spec fn hex_char_value(c: char) -> nat {
    if '0' <= c && c <= '9' {
        (c as int - '0' as int) as nat
    } else if 'a' <= c && c <= 'f' {
        (c as int - 'a' as int + 10) as nat
    } else {
        (c as int - 'A' as int + 10) as nat
    }
}

/// Whether every character of `s` is a hexadecimal digit.
pub open spec fn all_hex(s: Seq<char>) -> bool {
    forall|i: int| 0 <= i < s.len() ==> #[trigger] is_hex_char(s[i])
}

/// Whether every character of `s` is ASCII.
pub open spec fn all_ascii(s: Seq<char>) -> bool {
    forall|i: int| 0 <= i < s.len() ==> (#[trigger] s[i] as int) < 128
}

/// The number that the hexadecimal digits `s` denote, most significant first.
pub open spec fn hex_value(s: Seq<char>) -> nat
    decreases s.len(),
{
    if s.len() == 0 {
        0
    } else {
        hex_value(s.drop_last()) * 16 + hex_char_value(s.last())
    }
}

/// Sixteen to the power `n`.
pub open spec fn pow16(n: nat) -> nat
    decreases n,
{
    if n == 0 { 1 } else { 16 * pow16((n - 1) as nat) }
}

/// Thirty-two hexadecimal digits hold exactly the 128-bit numbers.
pub proof fn lemma_pow16_32()
    ensures
        pow16(32) == 0x1_0000_0000_0000_0000_0000_0000_0000_0000,
{
    reveal_with_fuel(pow16, 33);
}

/// Whether `p` is a prefix of `s`.
pub open spec fn has_prefix(s: Seq<char>, p: Seq<char>) -> bool {
    p.len() <= s.len() && s.subrange(0, p.len() as int) == p
}

/// Each character of a fixed-width hexadecimal rendering is a lowercase hex digit.
pub proof fn lemma_hex_text_shape(x: nat, width: nat)
    ensures
        hex_text(x, width).len() == width,
        all_hex(hex_text(x, width)),
        all_ascii(hex_text(x, width)),
    decreases width,
{
    if width > 0 {
        lemma_hex_text_shape(x / 16, (width - 1) as nat);
        let s = hex_text(x / 16, (width - 1) as nat);
        let t = s.push(hex_digit_char(x % 16));
        assert forall|i: int| 0 <= i < t.len() implies #[trigger] is_hex_char(t[i]) && (t[i] as int)
            < 128 by {
            if i < s.len() {
                assert(t[i] == s[i]);
                assert(is_hex_char(s[i]));
                assert((s[i] as int) < 128);
            }
        }
    }
}

/// Reading back a fixed-width hexadecimal rendering gives the number, when it fits.
pub proof fn lemma_hex_text_value(x: nat, width: nat)
    requires
        x < pow16(width),
    ensures
        hex_value(hex_text(x, width)) == x,
    decreases width,
{
    if width == 0 {
        assert(hex_text(x, width) =~= Seq::<char>::empty());
    } else {
        let w1 = (width - 1) as nat;
        assert(x / 16 < pow16(w1)) by (nonlinear_arith)
            requires
                x < 16 * pow16(w1),
        ;
        lemma_hex_text_value(x / 16, w1);
        let s = hex_text(x / 16, w1);
        let c = hex_digit_char(x % 16);
        assert(s.push(c).drop_last() =~= s);
        assert(hex_char_value(c) == x % 16);
        assert(x == (x / 16) * 16 + x % 16) by (nonlinear_arith);
    }
}

/// The character of the decimal digit `d`, as a one-character string.
pub fn dec_digit_str(d: u8) -> (r: &'static str)
    requires
        d < 10,
    ensures
        r@ == seq![dec_digit_char(d as nat)],
{
    proof {
        reveal_strlit("0");
        reveal_strlit("1");
        reveal_strlit("2");
        reveal_strlit("3");
        reveal_strlit("4");
        reveal_strlit("5");
        reveal_strlit("6");
        reveal_strlit("7");
        reveal_strlit("8");
        reveal_strlit("9");
    }
    if d == 0 {
        "0"
    } else if d == 1 {
        "1"
    } else if d == 2 {
        "2"
    } else if d == 3 {
        "3"
    } else if d == 4 {
        "4"
    } else if d == 5 {
        "5"
    } else if d == 6 {
        "6"
    } else if d == 7 {
        "7"
    } else if d == 8 {
        "8"
    } else {
        "9"
    }
}

/// The character of the hexadecimal digit `d`, lowercase, as a one-character string.
pub fn hex_digit_str(d: u8) -> (r: &'static str)
    requires
        d < 16,
    ensures
        r@ == seq![hex_digit_char(d as nat)],
{
    proof {
        reveal_strlit("a");
        reveal_strlit("b");
        reveal_strlit("c");
        reveal_strlit("d");
        reveal_strlit("e");
        reveal_strlit("f");
    }
    if d < 10 {
        dec_digit_str(d)
    } else if d == 10 {
        "a"
    } else if d == 11 {
        "b"
    } else if d == 12 {
        "c"
    } else if d == 13 {
        "d"
    } else if d == 14 {
        "e"
    } else {
        "f"
    }
}

/// Appends the decimal rendering of `n` to `s`.
pub fn push_decimal(s: &mut String, n: u64)
    ensures
        final(s)@ == old(s)@ + dec_text(n as nat),
    decreases n,
{
    if n >= 10 {
        push_decimal(s, n / 10);
    }
    let d = (n % 10) as u8;
    s.append(dec_digit_str(d));
    assert(n >= 10 ==> dec_text(n as nat) == dec_text((n / 10) as nat).push(dec_digit_char(
        (n % 10) as nat,
    )));
}

/// Appends the `{:x}` rendering of `n` to `s`.
pub fn push_hex_min(s: &mut String, n: u64)
    ensures
        final(s)@ == old(s)@ + hex_min_text(n as nat),
    decreases n,
{
    if n >= 16 {
        push_hex_min(s, n / 16);
    }
    let d = (n % 16) as u8;
    s.append(hex_digit_str(d));
}

/// Appends the lowest `width` hexadecimal digits of `x` to `s`, zero-padded.
pub fn push_hex_fixed(s: &mut String, x: u64, width: u8)
    ensures
        final(s)@ == old(s)@ + hex_text(x as nat, width as nat),
    decreases width,
{
    if width > 0 {
        push_hex_fixed(s, x / 16, width - 1);
        let d = (x % 16) as u8;
        s.append(hex_digit_str(d));
    }
}

/// The decimal rendering of `n` as a new string.
pub fn decimal_string(n: u64) -> (r: String)
    ensures
        r@ == dec_text(n as nat),
{
    let mut s = String::new();
    push_decimal(&mut s, n);
    s
}

/// A copy of the string slice `s`.
pub fn string_of(s: &str) -> (r: String)
    ensures
        r@ == s@,
{
    String::from_str(s)
}

/// Whether `s` starts with `p`.
pub fn starts_with(s: &str, p: &str) -> (r: bool)
    ensures
        r == has_prefix(s@, p@),
{
    let n = s.unicode_len();
    let m = p.unicode_len();
    if m > n {
        return false;
    }
    let mut i: usize = 0;
    while i < m
        invariant
            n == s@.len(),
            m == p@.len(),
            m <= n,
            i <= m,
            forall|j: int| 0 <= j < i ==> s@[j] == p@[j],
        decreases m - i,
    {
        if s.get_char(i) != p.get_char(i) {
            assert(s@.subrange(0, m as int)[i as int] != p@[i as int]);
            return false;
        }
        i = i + 1;
    }
    assert(s@.subrange(0, m as int) =~= p@);
    true
}

/// Whether the two string slices hold the same characters.
pub fn str_equal(a: &str, b: &str) -> (r: bool)
    ensures
        r == (a@ == b@),
{
    let n = a.unicode_len();
    let m = b.unicode_len();
    if n != m {
        return false;
    }
    let mut i: usize = 0;
    while i < n
        invariant
            n == a@.len(),
            m == b@.len(),
            n == m,
            i <= n,
            forall|j: int| 0 <= j < i ==> a@[j] == b@[j],
        decreases n - i,
    {
        if a.get_char(i) != b.get_char(i) {
            return false;
        }
        i = i + 1;
    }
    assert(a@ =~= b@);
    true
}

/// Whether `c` has the Unicode `White_Space` property (the whitespace of
/// `char::is_whitespace` and `str::trim`): tab to carriage return, space,
/// next line, no-break space, Ogham space mark, the spaces from en quad to
/// hair space, line and paragraph separators, narrow no-break space, medium
/// mathematical space and ideographic space.
pub open spec fn unicode_whitespace(c: char) -> bool {
    let n = c as u32;
    (9 <= n && n <= 13) || n == 0x20 || n == 0x85 || n == 0xA0 || n == 0x1680 || (0x2000 <= n
        && n <= 0x200A) || n == 0x2028 || n == 0x2029 || n == 0x202F || n == 0x205F || n == 0x3000
}

/// Whether `c` is whitespace.
pub fn is_whitespace(c: char) -> (r: bool)
    ensures
        r == unicode_whitespace(c),
{
    let n = c as u32;
    (9 <= n && n <= 13) || n == 0x20 || n == 0x85 || n == 0xA0 || n == 0x1680 || (0x2000 <= n
        && n <= 0x200A) || n == 0x2028 || n == 0x2029 || n == 0x202F || n == 0x205F || n == 0x3000
}

/// The number of whitespace characters at the start of `s`.
pub open spec fn leading_ws(s: Seq<char>) -> nat
    decreases s.len(),
{
    if s.len() > 0 && unicode_whitespace(s[0]) {
        1 + leading_ws(s.drop_first())
    } else {
        0
    }
}

/// The number of whitespace characters at the end of `s`.
pub open spec fn trailing_ws(s: Seq<char>) -> nat
    decreases s.len(),
{
    if s.len() > 0 && unicode_whitespace(s.last()) {
        1 + trailing_ws(s.drop_last())
    } else {
        0
    }
}

/// `s` without its leading and trailing whitespace.
pub open spec fn trim_text(s: Seq<char>) -> Seq<char> {
    if leading_ws(s) == s.len() {
        Seq::empty()
    } else {
        s.subrange(leading_ws(s) as int, s.len() - trailing_ws(s))
    }
}

proof fn lemma_leading_ws(s: Seq<char>, i: int)
    requires
        0 <= i <= s.len(),
        forall|j: int| 0 <= j < i ==> unicode_whitespace(#[trigger] s[j]),
        i == s.len() || !unicode_whitespace(s[i]),
    ensures
        leading_ws(s) == i,
    decreases i,
{
    if i > 0 {
        let d = s.drop_first();
        assert forall|j: int| 0 <= j < i - 1 implies unicode_whitespace(#[trigger] d[j]) by {
            assert(d[j] == s[j + 1]);
        }
        if i - 1 < d.len() {
            assert(d[i - 1] == s[i]);
        }
        lemma_leading_ws(d, i - 1);
    }
}

proof fn lemma_trailing_ws(s: Seq<char>, k: int)
    requires
        0 <= k <= s.len(),
        forall|j: int| s.len() - k <= j < s.len() ==> unicode_whitespace(#[trigger] s[j]),
        k == s.len() || !unicode_whitespace(s[s.len() - k - 1]),
    ensures
        trailing_ws(s) == k,
    decreases k,
{
    if k > 0 {
        let d = s.drop_last();
        assert forall|j: int| d.len() - (k - 1) <= j < d.len() implies unicode_whitespace(
            #[trigger] d[j],
        ) by {
            assert(d[j] == s[j]);
        }
        if k - 1 < d.len() {
            assert(d[d.len() - (k - 1) - 1] == s[s.len() - k - 1]);
        }
        lemma_trailing_ws(d, k - 1);
    }
}

/// `s` without its leading and trailing whitespace (`str::trim`).
pub fn trim(s: &str) -> (r: String)
    ensures
        r@ == trim_text(s@),
{
    let n = s.unicode_len();
    let mut i: usize = 0;
    while i < n && is_whitespace(s.get_char(i))
        invariant
            n == s@.len(),
            i <= n,
            forall|j: int| 0 <= j < i ==> unicode_whitespace(#[trigger] s@[j]),
        decreases n - i,
    {
        i = i + 1;
    }
    proof {
        lemma_leading_ws(s@, i as int);
    }
    if i == n {
        return String::new();
    }
    let mut e: usize = n;
    while e > i && is_whitespace(s.get_char(e - 1))
        invariant
            n == s@.len(),
            i < n,
            !unicode_whitespace(s@[i as int]),
            i < e <= n,
            forall|j: int| e <= j < n ==> unicode_whitespace(#[trigger] s@[j]),
        decreases e,
    {
        e = e - 1;
    }
    proof {
        lemma_trailing_ws(s@, n - e);
    }
    string_of(s.substring_char(i, e))
}

/// The decimal rendering of a signed integer: a minus sign before the
/// digits of a negative one.
pub open spec fn int_text(i: int) -> Seq<char> {
    if i < 0 {
        seq!['-'] + dec_text((-i) as nat)
    } else {
        dec_text(i as nat)
    }
}

/// Appends the decimal rendering of the signed `n` to `s`.
pub fn push_signed_decimal(s: &mut String, n: i32)
    ensures
        final(s)@ == old(s)@ + int_text(n as int),
{
    if n < 0 {
        s.append("-");
        proof {
            reveal_strlit("-");
        }
        let m: u64 = (0i64 - n as i64) as u64;
        push_decimal(s, m);
    } else {
        push_decimal(s, n as u64);
    }
    assert(final(s)@ =~= old(s)@ + int_text(n as int)) by {
        if n < 0 {
            assert(old(s)@ + seq!['-'] + dec_text((-(n as int)) as nat) =~= old(s)@ + (seq!['-'] + dec_text((-(n as int)) as nat)));
        }
    }
}

/// Whether `p` occurs in `s` as a run of consecutive characters.
pub open spec fn contains_text(s: Seq<char>, p: Seq<char>) -> bool {
    exists|i: int| 0 <= i && i + p.len() <= s.len() && #[trigger] s.subrange(i, i + p.len()) == p
}

/// Whether `p` occurs in `s` at the position `i`.
fn occurs_at(s: &str, p: &str, i: usize) -> (r: bool)
    requires
        i + p@.len() <= s@.len(),
    ensures
        r == (s@.subrange(i as int, i + p@.len()) == p@),
{
    let m = p.unicode_len();
    let n = s.unicode_len();
    let mut j: usize = 0;
    while j < m
        invariant
            m == p@.len(),
            n == s@.len(),
            i + m <= s@.len(),
            j <= m,
            forall|k: int| 0 <= k < j ==> s@[i + k] == p@[k],
        decreases m - j,
    {
        if s.get_char(i + j) != p.get_char(j) {
            assert(s@.subrange(i as int, i + m)[j as int] != p@[j as int]);
            return false;
        }
        j = j + 1;
    }
    assert(s@.subrange(i as int, i + m) =~= p@);
    true
}

/// Whether `p` occurs in `s`.
pub fn contains(s: &str, p: &str) -> (r: bool)
    ensures
        r == contains_text(s@, p@),
{
    let n = s.unicode_len();
    let m = p.unicode_len();
    if m > n {
        return false;
    }
    if m == 0 {
        assert(s@.subrange(0int, 0int + p@.len()) =~= p@);
        return true;
    }
    let mut i: usize = 0;
    while i <= n - m
        invariant
            n == s@.len(),
            m == p@.len(),
            1 <= m <= n,
            i <= n - m + 1,
            forall|k: int| 0 <= k < i ==> #[trigger] s@.subrange(k, k + m) != p@,
        decreases n - i,
    {
        if occurs_at(s, p, i) {
            return true;
        }
        i = i + 1;
    }
    false
}

/// The value of a decimal digit character.
pub open spec fn dec_char_value(c: char) -> nat {
    (c as int - '0' as int) as nat
}

/// The number that the decimal digits `s` denote, most significant first.
pub open spec fn dec_value(s: Seq<char>) -> nat
    decreases s.len(),
{
    if s.len() == 0 {
        0
    } else {
        dec_value(s.drop_last()) * 10 + dec_char_value(s.last())
    }
}

proof fn lemma_dec_digit_value(d: nat)
    requires
        d < 10,
    ensures
        dec_char_value(dec_digit_char(d)) == d,
{
    if d == 0 {
    } else if d == 1 {
    } else if d == 2 {
    } else if d == 3 {
    } else if d == 4 {
    } else if d == 5 {
    } else if d == 6 {
    } else if d == 7 {
    } else if d == 8 {
    } else {
        assert(d == 9);
    }
}

/// Reading back a decimal rendering gives the number, so distinct numbers
/// have distinct renderings.
pub proof fn lemma_dec_text_value(n: nat)
    ensures
        dec_value(dec_text(n)) == n,
    decreases n,
{
    let t = dec_text(n);
    if n < 10 {
        lemma_dec_digit_value(n);
        assert(t.drop_last() =~= Seq::<char>::empty());
        assert(dec_value(t.drop_last()) == 0);
        assert(t.last() == dec_digit_char(n));
        assert(dec_value(t) == dec_value(t.drop_last()) * 10 + dec_char_value(t.last()));
    } else {
        lemma_dec_text_value(n / 10);
        lemma_dec_digit_value(n % 10);
        assert(t.drop_last() =~= dec_text(n / 10));
        assert(t.last() == dec_digit_char(n % 10));
        assert(dec_value(t) == dec_value(t.drop_last()) * 10 + dec_char_value(t.last()));
        assert(n == (n / 10) * 10 + n % 10);
    }
}

proof fn lemma_leading_ws_props(s: Seq<char>)
    ensures
        leading_ws(s) <= s.len(),
        forall|j: int| 0 <= j < leading_ws(s) ==> unicode_whitespace(#[trigger] s[j]),
        leading_ws(s) < s.len() ==> !unicode_whitespace(s[leading_ws(s) as int]),
    decreases s.len(),
{
    if s.len() > 0 && unicode_whitespace(s[0]) {
        let d = s.drop_first();
        lemma_leading_ws_props(d);
        assert forall|j: int| 0 <= j < leading_ws(s) implies unicode_whitespace(#[trigger] s[j]) by {
            if j > 0 {
                assert(s[j] == d[j - 1]);
            }
        }
        if leading_ws(s) < s.len() {
            assert(s[leading_ws(s) as int] == d[leading_ws(d) as int]);
        }
    }
}

proof fn lemma_trailing_ws_props(s: Seq<char>)
    ensures
        trailing_ws(s) <= s.len(),
        forall|j: int| s.len() - trailing_ws(s) <= j < s.len() ==> unicode_whitespace(#[trigger] s[j]),
        trailing_ws(s) < s.len() ==> !unicode_whitespace(s[s.len() - trailing_ws(s) - 1]),
    decreases s.len(),
{
    if s.len() > 0 && unicode_whitespace(s.last()) {
        let d = s.drop_last();
        lemma_trailing_ws_props(d);
        assert forall|j: int| s.len() - trailing_ws(s) <= j < s.len() implies unicode_whitespace(
            #[trigger] s[j],
        ) by {
            if j < s.len() - 1 {
                assert(s[j] == d[j]);
            }
        }
        if trailing_ws(s) < s.len() {
            assert(s[s.len() - trailing_ws(s) - 1] == d[d.len() - trailing_ws(d) - 1]);
        }
    }
}

/// Trimming cuts off whitespace and nothing else: what remains is a stretch
/// of the text, everything before and after it is whitespace, and it neither
/// starts nor ends with whitespace.
pub proof fn lemma_trim_cuts_only_whitespace(s: Seq<char>)
    ensures
        exists|a: int, b: int|
            0 <= a <= b <= s.len() && #[trigger] s.subrange(a, b) == trim_text(s) && (forall|j: int|
                0 <= j < a ==> unicode_whitespace(#[trigger] s[j])) && (forall|j: int|
                b <= j < s.len() ==> unicode_whitespace(#[trigger] s[j])),
        trim_text(s).len() > 0 ==> !unicode_whitespace(trim_text(s)[0]) && !unicode_whitespace(
            trim_text(s).last(),
        ),
{
    lemma_leading_ws_props(s);
    lemma_trailing_ws_props(s);
    let lw = leading_ws(s) as int;
    let tw = trailing_ws(s) as int;
    if lw == s.len() {
        assert(s.subrange(lw, lw) =~= trim_text(s));
        assert(forall|j: int| lw <= j < s.len() ==> unicode_whitespace(#[trigger] s[j]));
    } else {
        if lw >= s.len() - tw {
            assert(unicode_whitespace(s[lw]));
        }
        let b = s.len() - tw;
        assert(s.subrange(lw, b) == trim_text(s));
        assert(trim_text(s)[0] == s[lw]);
        assert(trim_text(s).last() == s[b - 1]);
    }
}

} // verus!
