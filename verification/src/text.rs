//! Text helpers with exact specifications: Unicode white space, trimming,
//! prefix tests and number formatting.

use vstd::prelude::*;

verus! {

/// The Unicode `White_Space` property, which `char::is_whitespace` and
/// `str::trim` use.
pub open spec fn is_white_space(c: char) -> bool {
    let u = c as u32;
    ||| 0x9 <= u <= 0xD
    ||| u == 0x20
    ||| u == 0x85
    ||| u == 0xA0
    ||| u == 0x1680
    ||| 0x2000 <= u <= 0x200A
    ||| u == 0x2028
    ||| u == 0x2029
    ||| u == 0x202F
    ||| u == 0x205F
    ||| u == 0x3000
}

/// Drops leading white space.
pub open spec fn trim_start(s: Seq<char>) -> Seq<char>
    decreases s.len(),
{
    if s.len() > 0 && is_white_space(s[0]) {
        trim_start(s.drop_first())
    } else {
        s
    }
}

/// Drops trailing white space.
pub open spec fn trim_end(s: Seq<char>) -> Seq<char>
    decreases s.len(),
{
    if s.len() > 0 && is_white_space(s.last()) {
        trim_end(s.drop_last())
    } else {
        s
    }
}

/// What `str::trim` returns.
pub open spec fn trim(s: Seq<char>) -> Seq<char> {
    trim_end(trim_start(s))
}

/// Whether `c` has the `White_Space` property.
pub fn char_is_white_space(c: char) -> (r: bool)
    ensures
        r == is_white_space(c),
{
    let u = c as u32;
    (0x9 <= u && u <= 0xD) || u == 0x20 || u == 0x85 || u == 0xA0 || u == 0x1680 || (0x2000 <= u
        && u <= 0x200A) || u == 0x2028 || u == 0x2029 || u == 0x202F || u == 0x205F || u == 0x3000
}

proof fn lemma_trim_start_step(s: Seq<char>, i: int)
    requires
        0 <= i < s.len(),
        is_white_space(s[i]),
    ensures
        trim_start(s.subrange(i, s.len() as int)) == trim_start(s.subrange(i + 1, s.len() as int)),
{
    assert(s.subrange(i, s.len() as int).drop_first() =~= s.subrange(i + 1, s.len() as int));
}

proof fn lemma_trim_end_step(s: Seq<char>, i: int, j: int)
    requires
        0 <= i < j <= s.len(),
        is_white_space(s[j - 1]),
    ensures
        trim_end(s.subrange(i, j)) == trim_end(s.subrange(i, j - 1)),
{
    assert(s.subrange(i, j).drop_last() =~= s.subrange(i, j - 1));
}

/// `s` with leading and trailing white space removed, as `str::trim` gives it.
pub fn trim_str(s: &str) -> (r: String)
    ensures
        r@ == trim(s@),
{
    let n = s.unicode_len();
    let mut i: usize = 0;
    proof {
        assert(s@.subrange(0, n as int) =~= s@);
    }
    while i < n && char_is_white_space(s.get_char(i))
        invariant
            i <= n,
            n == s@.len(),
            trim_start(s@) == trim_start(s@.subrange(i as int, n as int)),
        decreases n - i,
    {
        proof {
            lemma_trim_start_step(s@, i as int);
        }
        i = i + 1;
    }
    let mut j: usize = n;
    proof {
        assert(trim_start(s@.subrange(i as int, n as int)) == s@.subrange(i as int, n as int));
    }
    while j > i && char_is_white_space(s.get_char(j - 1))
        invariant
            i <= j <= n,
            n == s@.len(),
            trim(s@) == trim_end(s@.subrange(i as int, j as int)),
            i < n ==> !is_white_space(s@[i as int]),
        decreases j,
    {
        proof {
            lemma_trim_end_step(s@, i as int, j as int);
        }
        j = j - 1;
    }
    let piece = s.substring_char(i, j);
    proof {
        if i < j {
            assert(!is_white_space(s@.subrange(i as int, j as int).last()));
        }
    }
    piece.to_owned()
}


/// Appends `c` to `s` (`String::push`).
#[verifier::external_body]
pub(crate) fn push_char(s: &mut String, c: char)
    ensures
        final(s)@ == old(s)@.push(c),
{
    s.push(c);
}

/// Appends the characters of `t` to `s`.
pub fn push_str(s: &mut String, t: &str)
    ensures
        final(s)@ == old(s)@ + t@,
{
    s.append(t);
}

/// Whether `a` and `b` hold the same characters.
pub fn str_equal(a: &str, b: &str) -> (r: bool)
    ensures
        r == (a@ == b@),
{
    let n = a.unicode_len();
    let m = b.unicode_len();
    if n != m {
        return false;
    }
    let mut i: usize = 0;
    while i < n
        invariant
            i <= n,
            n == a@.len(),
            m == b@.len(),
            n == m,
            forall|k: int| 0 <= k < i ==> a@[k] == b@[k],
        decreases n - i,
    {
        if a.get_char(i) != b.get_char(i) {
            return false;
        }
        i = i + 1;
    }
    proof {
        assert(a@ =~= b@);
    }
    true
}

/// Whether `s` begins with `prefix` (`str::starts_with` with a string pattern).
pub fn starts_with(s: &str, prefix: &str) -> (r: bool)
    ensures
        r == prefix@.is_prefix_of(s@),
{
    let n = s.unicode_len();
    let m = prefix.unicode_len();
    if m > n {
        return false;
    }
    let mut i: usize = 0;
    while i < m
        invariant
            i <= m <= n,
            n == s@.len(),
            m == prefix@.len(),
            forall|k: int| 0 <= k < i ==> prefix@[k] == s@[k],
        decreases m - i,
    {
        if s.get_char(i) != prefix.get_char(i) {
            return false;
        }
        i = i + 1;
    }
    true
}

/// The character of a decimal digit.
pub open spec fn digit_char(d: nat) -> char
    recommends
        d < 10,
{
    (48 + d) as char
}

/// The decimal representation of `n`, without sign or padding.
pub open spec fn decimal(n: nat) -> Seq<char>
    decreases n,
{
    if n < 10 {
        seq![digit_char(n)]
    } else {
        decimal(n / 10).push(digit_char(n % 10))
    }
}

/// `s` left-padded with `'0'` up to `width` characters (`{:0width}`).
pub open spec fn zero_padded(s: Seq<char>, width: nat) -> Seq<char> {
    if s.len() >= width {
        s
    } else {
        Seq::new((width - s.len()) as nat, |i: int| '0') + s
    }
}

fn digit_to_char(d: u64) -> (c: char)
    requires
        d < 10,
    ensures
        c == digit_char(d as nat),
{
    let b: u8 = 48u8 + (d as u8);
    b as char
}

/// Appends the decimal representation of `n` to `s`.
pub fn push_decimal(s: &mut String, n: u64)
    ensures
        final(s)@ == old(s)@ + decimal(n as nat),
    decreases n,
{
    if n < 10 {
        push_char(s, digit_to_char(n));
    } else {
        push_decimal(s, n / 10);
        push_char(s, digit_to_char(n % 10));
        proof {
            assert(old(s)@ + decimal(n as nat) =~= old(s)@ + decimal((n / 10) as nat) + seq![
                digit_char((n % 10) as nat),
            ]);
        }
    }
}

/// The decimal representation of `n` (`n.to_string()`).
pub fn decimal_string(n: u64) -> (r: String)
    ensures
        r@ == decimal(n as nat),
{
    let mut s = String::new();
    push_decimal(&mut s, n);
    proof {
        assert(Seq::<char>::empty() + decimal(n as nat) =~= decimal(n as nat));
    }
    s
}

proof fn lemma_decimal_len_pos(n: nat)
    ensures
        decimal(n).len() >= 1,
    decreases n,
{
    if n >= 10 {
        lemma_decimal_len_pos(n / 10);
    }
}

/// Appends `n` in decimal, left-padded with zeros to `width` characters.
pub fn push_zero_padded(s: &mut String, n: u64, width: usize)
    ensures
        final(s)@ == old(s)@ + zero_padded(decimal(n as nat), width as nat),
{
    let d = decimal_string(n);
    let len = d.as_str().unicode_len();
    let mut k: usize = len;
    let ghost start = s@;
    while k < width
        invariant
            len == decimal(n as nat).len(),
            len <= k,
            k <= width || len > width,
            len >= width ==> k == len,
            s@ == start + Seq::new((k - len) as nat, |i: int| '0'),
        decreases width - k,
    {
        push_char(s, '0');
        proof {
            assert(start + Seq::new((k + 1 - len) as nat, |i: int| '0') =~= start + Seq::new(
                (k - len) as nat,
                |i: int| '0',
            ).push('0'));
        }
        k = k + 1;
    }
    push_str(s, d.as_str());
    proof {
        if len >= width {
            assert(Seq::new((k - len) as nat, |i: int| '0') =~= Seq::<char>::empty());
            assert(s@ =~= start + decimal(n as nat));
        } else {
            assert(k == width);
            assert(s@ =~= start + (Seq::new((width - len) as nat, |i: int| '0') + decimal(
                n as nat,
            )));
        }
    }
}

/// The upper-case hexadecimal digit for `d < 16`.
pub open spec fn hex_digit_upper(d: nat) -> char
    recommends
        d < 16,
{
    if d < 10 {
        (48 + d) as char
    } else {
        (55 + d) as char
    }
}

/// `v` as exactly four upper-case hexadecimal digits (`{:04X}` of a `u16`).
pub open spec fn hex4_upper(v: u16) -> Seq<char> {
    seq![
        hex_digit_upper((v / 4096) as nat),
        hex_digit_upper(((v / 256) % 16) as nat),
        hex_digit_upper(((v / 16) % 16) as nat),
        hex_digit_upper((v % 16) as nat),
    ]
}

fn hex_digit_to_char(d: u16) -> (c: char)
    requires
        d < 16,
    ensures
        c == hex_digit_upper(d as nat),
{
    if d < 10 {
        (48u8 + d as u8) as char
    } else {
        (55u8 + d as u8) as char
    }
}

/// Formats `v` as four upper-case hexadecimal digits.
pub fn format_hex4_upper(v: u16) -> (r: String)
    ensures
        r@ == hex4_upper(v),
{
    let mut s = String::new();
    push_char(&mut s, hex_digit_to_char(v / 4096));
    push_char(&mut s, hex_digit_to_char((v / 256) % 16));
    push_char(&mut s, hex_digit_to_char((v / 16) % 16));
    push_char(&mut s, hex_digit_to_char(v % 16));
    proof {
        assert(s@ =~= hex4_upper(v));
    }
    s
}

/// The lower-case hexadecimal digit for `d < 16`.
pub open spec fn hex_digit_lower(d: nat) -> char
    recommends
        d < 16,
{
    if d < 10 {
        (48 + d) as char
    } else {
        (87 + d) as char
    }
}

/// `v` as exactly four lower-case hexadecimal digits (`{:04x}` of a `u16`).
pub open spec fn hex4_lower(v: u16) -> Seq<char> {
    seq![
        hex_digit_lower((v / 4096) as nat),
        hex_digit_lower(((v / 256) % 16) as nat),
        hex_digit_lower(((v / 16) % 16) as nat),
        hex_digit_lower((v % 16) as nat),
    ]
}

/// `n` in lower-case hexadecimal without padding (`{:x}`).
pub open spec fn hex_lower(n: nat) -> Seq<char>
    decreases n,
{
    if n < 16 {
        seq![hex_digit_lower(n)]
    } else {
        hex_lower(n / 16).push(hex_digit_lower(n % 16))
    }
}

fn hex_digit_to_lower_char(d: u16) -> (c: char)
    requires
        d < 16,
    ensures
        c == hex_digit_lower(d as nat),
{
    if d < 10 {
        (48u8 + d as u8) as char
    } else {
        (87u8 + d as u8) as char
    }
}

/// Appends `v` as four lower-case hexadecimal digits.
pub fn push_hex4_lower(s: &mut String, v: u16)
    ensures
        final(s)@ == old(s)@ + hex4_lower(v),
{
    push_char(s, hex_digit_to_lower_char(v / 4096));
    push_char(s, hex_digit_to_lower_char((v / 256) % 16));
    push_char(s, hex_digit_to_lower_char((v / 16) % 16));
    push_char(s, hex_digit_to_lower_char(v % 16));
    proof {
        assert(s@ =~= old(s)@ + hex4_lower(v));
    }
}


/// Whether `c` is a hexadecimal digit in either case (`char::to_digit(16)`).
pub open spec fn is_hex_digit(c: char) -> bool {
    ('0' <= c && c <= '9') || ('a' <= c && c <= 'f') || ('A' <= c && c <= 'F')
}

/// The value of a hexadecimal digit.
pub open spec fn hex_digit_value(c: char) -> nat {
    if '0' <= c && c <= '9' {
        (c as nat - 48) as nat
    } else if 'a' <= c && c <= 'f' {
        (c as nat - 87) as nat
    } else {
        (c as nat - 55) as nat
    }
}

/// The number that a sequence of hexadecimal digits denotes.
pub open spec fn hex_value(d: Seq<char>) -> nat
    decreases d.len(),
{
    if d.len() == 0 {
        0
    } else {
        hex_value(d.drop_last()) * 16 + hex_digit_value(d.last())
    }
}

/// Removes every leading `"0x"` (`str::trim_start_matches("0x")`).
pub open spec fn strip_hex_prefixes(s: Seq<char>) -> Seq<char>
    decreases s.len(),
{
    if s.len() >= 2 && s[0] == '0' && s[1] == 'x' {
        strip_hex_prefixes(s.subrange(2, s.len() as int))
    } else {
        s
    }
}

/// What `u16::from_str_radix(s, 16)` accepts and returns: an optional `'+'`,
/// then at least one hexadecimal digit, with a value that fits in 16 bits.
pub open spec fn parse_u16_radix16(s: Seq<char>) -> Option<u16> {
    if s.len() > 0 && s[0] == '+' {
        parse_hex_digits_u16(s.drop_first())
    } else {
        parse_hex_digits_u16(s)
    }
}

/// The value of a non-empty run of hexadecimal digits, if it fits in 16 bits.
pub open spec fn parse_hex_digits_u16(d: Seq<char>) -> Option<u16> {
    if d.len() > 0 && (forall|i: int| 0 <= i < d.len() ==> is_hex_digit(#[trigger] d[i]))
        && hex_value(d) <= 0xFFFF {
        Some(hex_value(d) as u16)
    } else {
        None
    }
}

/// A hexadecimal USB identifier as the bridge reads it: trimmed, with leading
/// `"0x"` removed, then parsed in radix 16.
pub open spec fn parse_hex_id(s: Seq<char>) -> Option<u16> {
    parse_u16_radix16(strip_hex_prefixes(trim(s)))
}

proof fn lemma_hex_value_prefix_le(d: Seq<char>, k: int)
    requires
        0 <= k <= d.len(),
    ensures
        hex_value(d.take(k)) <= hex_value(d),
    decreases d.len() - k,
{
    if k < d.len() {
        lemma_hex_value_prefix_le(d, k + 1);
        assert(d.take(k + 1).drop_last() =~= d.take(k));
    } else {
        assert(d.take(k) =~= d);
    }
}

fn hex_char_value(c: char) -> (r: Option<u32>)
    ensures
        r is Some <==> is_hex_digit(c),
        r is Some ==> r->0 == hex_digit_value(c) && r->0 < 16,
{
    if '0' <= c && c <= '9' {
        Some(c as u32 - 48)
    } else if 'a' <= c && c <= 'f' {
        Some(c as u32 - 87)
    } else if 'A' <= c && c <= 'F' {
        Some(c as u32 - 55)
    } else {
        None
    }
}

/// Parses `s` from character `i` on as `u16::from_str_radix(.., 16)` does.
fn parse_radix16_from(s: &str, i: usize) -> (r: Option<u16>)
    requires
        i <= s@.len(),
    ensures
        r == parse_u16_radix16(s@.subrange(i as int, s@.len() as int)),
{
    let n = s.unicode_len();
    let ghost stripped = s@.subrange(i as int, n as int);
    let mut start = i;
    if i < n && s.get_char(i) == '+' {
        start = i + 1;
    }
    let ghost d = s@.subrange(start as int, n as int);
    proof {
        if i < n && s@[i as int] == '+' {
            assert(stripped.drop_first() =~= d);
        } else {
            assert(stripped =~= d);
        }
        assert(parse_u16_radix16(stripped) == parse_hex_digits_u16(d));
    }
    if start >= n {
        return None;
    }
    let mut acc: u32 = 0;
    let mut k: usize = start;
    while k < n
        invariant
            start <= k <= n,
            n == s@.len(),
            d == s@.subrange(start as int, n as int),
            acc == hex_value(d.take(k - start)),
            acc <= 0xFFFF,
            forall|j: int| 0 <= j < k - start ==> is_hex_digit(#[trigger] d[j]),
            i <= n,
            parse_u16_radix16(s@.subrange(i as int, n as int)) == parse_hex_digits_u16(d),
        decreases n - k,
    {
        let c = s.get_char(k);
        let v = match hex_char_value(c) {
            Some(v) => v,
            None => {
                proof {
                    assert(!is_hex_digit(d[k - start]));
                }
                return None;
            },
        };
        proof {
            assert(d.take(k + 1 - start).drop_last() =~= d.take(k - start));
            assert(d.take(k + 1 - start).last() == c);
        }
        acc = acc * 16 + v;
        if acc > 0xFFFF {
            proof {
                if forall|j: int| 0 <= j < d.len() ==> is_hex_digit(#[trigger] d[j]) {
                    lemma_hex_value_prefix_le(d, k + 1 - start);
                }
            }
            return None;
        }
        k = k + 1;
    }
    proof {
        assert(d.take(n - start) =~= d);
    }
    Some(acc as u16)
}

/// `u16::from_str_radix(s, 16)`, with any error collapsed to `None`.
pub fn parse_u16_radix16_str(s: &str) -> (r: Option<u16>)
    ensures
        r == parse_u16_radix16(s@),
{
    proof {
        assert(s@.subrange(0, s@.len() as int) =~= s@);
    }
    parse_radix16_from(s, 0)
}

/// Parses a hexadecimal USB identifier such as `"04b8"` or `" 0x0E15 "`.
pub fn parse_hex_id_str(value: &str) -> (r: Option<u16>)
    ensures
        r == parse_hex_id(value@),
{
    let t = trim_str(value);
    let s = t.as_str();
    let n = s.unicode_len();
    let mut i: usize = 0;
    proof {
        assert(s@.subrange(0, n as int) =~= s@);
    }
    while n - i >= 2 && s.get_char(i) == '0' && s.get_char(i + 1) == 'x'
        invariant
            i <= n,
            n == s@.len(),
            strip_hex_prefixes(s@) == strip_hex_prefixes(s@.subrange(i as int, n as int)),
        decreases n - i,
    {
        proof {
            let r = s@.subrange(i as int, n as int);
            assert(r.subrange(2, r.len() as int) =~= s@.subrange(i + 2, n as int));
        }
        i = i + 2;
    }
    proof {
        let stripped = s@.subrange(i as int, n as int);
        assert(strip_hex_prefixes(stripped) == stripped);
    }
    parse_radix16_from(s, i)
}


proof fn lemma_hex_digit_roundtrip(d: nat)
    requires
        d < 16,
    ensures
        is_hex_digit(hex_digit_upper(d)),
        hex_digit_value(hex_digit_upper(d)) == d,
        !is_white_space(hex_digit_upper(d)),
        hex_digit_upper(d) != 'x',
        hex_digit_upper(d) != '+',
{
}

/// An identifier printed as four upper-case hexadecimal digits reads back as
/// the same number, so a device listed by the USB scan can be addressed with
/// the identifiers shown for it.
pub proof fn law_hex4_reads_back(v: u16)
    ensures
        parse_hex_id(hex4_upper(v)) == Some(v),
        parse_u16_radix16(hex4_upper(v)) == Some(v),
{
    let s = hex4_upper(v);
    let d0 = (v / 4096) as nat;
    let d1 = ((v / 256) % 16) as nat;
    let d2 = ((v / 16) % 16) as nat;
    let d3 = (v % 16) as nat;
    lemma_hex_digit_roundtrip(d0);
    lemma_hex_digit_roundtrip(d1);
    lemma_hex_digit_roundtrip(d2);
    lemma_hex_digit_roundtrip(d3);
    assert(trim_start(s) == s);
    assert(trim_end(s) == s);
    assert(strip_hex_prefixes(s) == s);
    assert(s.drop_last().drop_last().drop_last().drop_last() =~= Seq::<char>::empty());
    assert(s.drop_last().drop_last().drop_last() =~= seq![s[0]]);
    assert(s.drop_last().drop_last() =~= seq![s[0], s[1]]);
    assert(s.drop_last() =~= seq![s[0], s[1], s[2]]);
    assert(s[0] == hex_digit_upper(d0) && s[1] == hex_digit_upper(d1) && s[2] == hex_digit_upper(
        d2,
    ) && s[3] == hex_digit_upper(d3));
    assert(hex_value(seq![s[0]]) == d0) by {
        assert(seq![s[0]].drop_last() =~= Seq::<char>::empty());
        assert(seq![s[0]].last() == s[0]);
        assert(hex_value(Seq::<char>::empty()) == 0);
    }
    assert(hex_value(seq![s[0], s[1]]) == d0 * 16 + d1) by {
        assert(seq![s[0], s[1]].drop_last() =~= seq![s[0]]);
    }
    assert(hex_value(seq![s[0], s[1], s[2]]) == (d0 * 16 + d1) * 16 + d2) by {
        assert(seq![s[0], s[1], s[2]].drop_last() =~= seq![s[0], s[1]]);
    }
    assert(hex_value(s) == ((d0 * 16 + d1) * 16 + d2) * 16 + d3);
    assert(((d0 * 16 + d1) * 16 + d2) * 16 + d3 == v) by (nonlinear_arith)
        requires
            d0 == (v / 4096) as nat,
            d1 == ((v / 256) % 16) as nat,
            d2 == ((v / 16) % 16) as nat,
            d3 == (v % 16) as nat,
            v < 65536,
    ;
    assert(forall|i: int| 0 <= i < s.len() ==> is_hex_digit(#[trigger] s[i]));
}

proof fn lemma_hex_digits_read_back(d: Seq<char>)
    requires
        d.len() > 0,
        forall|i: int| 0 <= i < d.len() ==> is_hex_digit(#[trigger] d[i]),
        hex_value(d) <= 0xFFFF,
    ensures
        parse_hex_id(d) == Some(hex_value(d) as u16),
        parse_hex_id("0x"@ + d) == Some(hex_value(d) as u16),
{
    assert(is_hex_digit(d[0]) && is_hex_digit(d.last()));
    assert(trim_start(d) == d);
    assert(trim_end(d) == d);
    if d.len() >= 2 {
        assert(is_hex_digit(d[1]));
    }
    assert(strip_hex_prefixes(d) == d);
    reveal_strlit("0x");
    let p = "0x"@ + d;
    assert(p[0] == '0' && p[1] == 'x');
    assert(p.last() == d.last());
    assert(trim_start(p) == p);
    assert(trim_end(p) == p);
    assert(p.subrange(2, p.len() as int) =~= d);
    assert(strip_hex_prefixes(p) == strip_hex_prefixes(d));
}

proof fn lemma_hex_lower_digit_roundtrip(d: nat)
    requires
        d < 16,
    ensures
        is_hex_digit(hex_digit_lower(d)),
        hex_digit_value(hex_digit_lower(d)) == d,
{
}

proof fn lemma_hex_lower_value(n: nat)
    ensures
        hex_lower(n).len() > 0,
        hex_value(hex_lower(n)) == n,
        forall|i: int| 0 <= i < hex_lower(n).len() ==> is_hex_digit(#[trigger] hex_lower(n)[i]),
    decreases n,
{
    if n < 16 {
        lemma_hex_lower_digit_roundtrip(n);
        let t = seq![hex_digit_lower(n)];
        assert(t.drop_last() =~= Seq::<char>::empty());
        assert(hex_value(Seq::<char>::empty()) == 0);
        assert(t.last() == hex_digit_lower(n));
        assert(hex_value(t) == hex_value(t.drop_last()) * 16 + hex_digit_value(t.last()));
    } else {
        lemma_hex_lower_digit_roundtrip(n % 16);
        lemma_hex_lower_value(n / 16);
        let h = hex_lower(n / 16);
        let c = hex_digit_lower(n % 16);
        assert(h.push(c).drop_last() =~= h);
        assert(h.push(c).last() == c);
        assert(hex_digit_value(c) == n % 16);
        assert(hex_value(h.push(c)) == hex_value(h) * 16 + hex_digit_value(c));
        assert((n / 16) * 16 + n % 16 == n);
        assert forall|i: int| 0 <= i < h.push(c).len() implies is_hex_digit(#[trigger] h.push(c)[i]) by {
            if i < h.len() {
                assert(h.push(c)[i] == h[i]);
            }
        }
    }
}

proof fn lemma_hex4_lower_value(v: u16)
    ensures
        hex_value(hex4_lower(v)) == v,
        forall|i: int| 0 <= i < 4 ==> is_hex_digit(#[trigger] hex4_lower(v)[i]),
{
    let s = hex4_lower(v);
    let d0 = (v / 4096) as nat;
    let d1 = ((v / 256) % 16) as nat;
    let d2 = ((v / 16) % 16) as nat;
    let d3 = (v % 16) as nat;
    lemma_hex_lower_digit_roundtrip(d0);
    lemma_hex_lower_digit_roundtrip(d1);
    lemma_hex_lower_digit_roundtrip(d2);
    lemma_hex_lower_digit_roundtrip(d3);
    assert(s.drop_last() =~= seq![s[0], s[1], s[2]]);
    assert(s[0] == hex_digit_lower(d0) && s[1] == hex_digit_lower(d1) && s[2] == hex_digit_lower(
        d2,
    ) && s[3] == hex_digit_lower(d3));
    assert(hex_value(seq![s[0]]) == d0) by {
        assert(seq![s[0]].drop_last() =~= Seq::<char>::empty());
        assert(seq![s[0]].last() == s[0]);
        assert(hex_value(Seq::<char>::empty()) == 0);
    }
    assert(hex_value(seq![s[0], s[1]]) == d0 * 16 + d1) by {
        assert(seq![s[0], s[1]].drop_last() =~= seq![s[0]]);
    }
    assert(hex_value(seq![s[0], s[1], s[2]]) == (d0 * 16 + d1) * 16 + d2) by {
        assert(seq![s[0], s[1], s[2]].drop_last() =~= seq![s[0], s[1]]);
    }
    assert(hex_value(s) == ((d0 * 16 + d1) * 16 + d2) * 16 + d3);
    assert(((d0 * 16 + d1) * 16 + d2) * 16 + d3 == v) by (nonlinear_arith)
        requires
            d0 == (v / 4096) as nat,
            d1 == ((v / 256) % 16) as nat,
            d2 == ((v / 16) % 16) as nat,
            d3 == (v % 16) as nat,
            v < 65536,
    ;
}

/// A USB identifier reads back as the same number however the bridge or the
/// user prints it: four upper-case digits (`{:04X}`, as the USB scan shows
/// it), four lower-case digits (`{:04x}`), or lower-case digits after `0x`
/// (`0x{:x}` and `0x{:04x}`).
pub proof fn law_hex_ids_read_back(v: u16)
    ensures
        parse_hex_id(hex4_upper(v)) == Some(v),
        parse_hex_id(hex4_lower(v)) == Some(v),
        parse_hex_id("0x"@ + hex4_lower(v)) == Some(v),
        parse_hex_id("0x"@ + hex_lower(v as nat)) == Some(v),
{
    law_hex4_reads_back(v);
    lemma_hex4_lower_value(v);
    lemma_hex_digits_read_back(hex4_lower(v));
    lemma_hex_lower_value(v as nat);
    lemma_hex_digits_read_back(hex_lower(v as nat));
}

} // verus!
