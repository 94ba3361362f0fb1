//! Reading and writing colors as `#rrggbb` hex codes.
//!
//! The reader takes the text after every leading `#` and accepts exactly six
//! hex digits (either case), read as three bytes; like slicing a `str` at
//! the byte offsets `2` and `4`, it is not meant for a text whose six bytes
//! split a character there. The writer produces lowercase, zero padded
//! digits.

use vstd::prelude::*;

verus! {

/// The characters of `s` after every leading `#` is removed.
pub open spec fn trim_hashes(s: Seq<char>) -> Seq<char>
    decreases s.len(),
{
    if s.len() > 0 && s[0] == '#' {
        trim_hashes(s.drop_first())
    } else {
        s
    }
}

/// The value of a hexadecimal digit (either case), if `c` is one.
pub open spec fn hex_digit_value(c: char) -> Option<u8> {
    let x = c as u32;
    if 48 <= x <= 57 {
        Some((x - 48) as u8)
    } else if 97 <= x <= 102 {
        Some((x - 87) as u8)
    } else if 65 <= x <= 70 {
        Some((x - 55) as u8)
    } else {
        None
    }
}

/// The byte that two hex digits `a` and `b` denote (`rr`), if both are
/// hex digits.
pub open spec fn hex_pair_value(a: char, b: char) -> Option<u8> {
    match (hex_digit_value(a), hex_digit_value(b)) {
        (Some(x), Some(y)) => Some((x * 16 + y) as u8),
        _ => None,
    }
}

/// The color that a hex code denotes: six characters after the leading `#`s,
/// read as three pairs.
pub open spec fn parse_hex_spec(s: Seq<char>) -> Option<(u8, u8, u8)> {
    let h = trim_hashes(s);
    if h.len() == 6 {
        match (hex_pair_value(h[0], h[1]), hex_pair_value(h[2], h[3]), hex_pair_value(h[4], h[5])) {
            (Some(r), Some(g), Some(b)) => Some((r, g, b)),
            _ => None,
        }
    } else {
        None
    }
}

/// The number of bytes of a character in UTF-8.
pub open spec fn utf8_width(c: char) -> nat {
    let x = c as u32;
    if x < 0x80 {
        1
    } else if x < 0x800 {
        2
    } else if x < 0x10000 {
        3
    } else {
        4
    }
}

/// The number of bytes of a text in UTF-8.
pub open spec fn utf8_len(s: Seq<char>) -> nat
    decreases s.len(),
{
    if s.len() == 0 {
        0
    } else {
        utf8_width(s[0]) + utf8_len(s.drop_first())
    }
}

/// Whether byte `n` of the UTF-8 text of `s` starts a character (or is its
/// end).
pub open spec fn boundary_at(s: Seq<char>, n: nat) -> bool
    decreases s.len(),
{
    if n == 0 {
        true
    } else if s.len() == 0 {
        false
    } else if utf8_width(s[0]) > n {
        false
    } else {
        boundary_at(s.drop_first(), (n - utf8_width(s[0])) as nat)
    }
}

/// Holds when reading `s` slices its text in the middle of a character: the
/// text after the `#`s is six bytes long, but byte 2 or byte 4 does not start
/// a character. Slicing a `str` there panics.
pub open spec fn hex_slicing_panics(s: Seq<char>) -> bool {
    let h = trim_hashes(s);
    utf8_len(h) == 6 && !(boundary_at(h, 2) && boundary_at(h, 4))
}

/// The sixteen lowercase hexadecimal digits.
pub open spec fn hex_digits() -> Seq<char> {
    seq!['0', '1', '2', '3', '4', '5', '6', '7', '8', '9', 'a', 'b', 'c', 'd', 'e', 'f']
}

/// The two lowercase hex digits of a byte (`{:02x}`).
pub open spec fn byte_hex(v: u8) -> Seq<char> {
    seq![hex_digits()[(v / 16) as int], hex_digits()[(v % 16) as int]]
}

/// `rrggbb` for a color.
pub open spec fn strip_spec(c: (u8, u8, u8)) -> Seq<char> {
    byte_hex(c.0) + byte_hex(c.1) + byte_hex(c.2)
}

/// `#rrggbb` for a color.
pub open spec fn hex_spec(c: (u8, u8, u8)) -> Seq<char> {
    seq!['#'] + strip_spec(c)
}

/// The lowercase hex digits of a number, without leading zeros (`{:x}`).
pub open spec fn lower_hex(n: nat) -> Seq<char>
    decreases n,
{
    if n < 16 {
        seq![hex_digits()[n as int]]
    } else {
        lower_hex(n / 16) + seq![hex_digits()[(n % 16) as int]]
    }
}

/// The ten decimal digits.
pub open spec fn dec_digits() -> Seq<char> {
    seq!['0', '1', '2', '3', '4', '5', '6', '7', '8', '9']
}

/// The decimal text of a byte (`{}`), without leading zeros.
pub open spec fn dec_spec(v: u8) -> Seq<char> {
    if v < 10 {
        seq![dec_digits()[v as int]]
    } else if v < 100 {
        seq![dec_digits()[(v / 10) as int], dec_digits()[(v % 10) as int]]
    } else {
        seq![
            dec_digits()[(v / 100) as int],
            dec_digits()[((v / 10) % 10) as int],
            dec_digits()[(v % 10) as int],
        ]
    }
}

/// The characters of a string slice, in order.
pub fn chars_of(s: &str) -> (v: Vec<char>)
    ensures
        v@ == s@,
{
    let mut v: Vec<char> = Vec::new();
    for c in it: s.chars()
        invariant
            v@ == it.seq().take(it.index() as int),
            it.seq() == s@,
    {
        v.push(c);
    }
    v
}

fn digit_value(c: char) -> (r: Option<u8>)
    ensures
        r == hex_digit_value(c),
{
    let x = c as u32;
    if 48 <= x && x <= 57 {
        Some((x - 48) as u8)
    } else if 97 <= x && x <= 102 {
        Some((x - 87) as u8)
    } else if 65 <= x && x <= 70 {
        Some((x - 55) as u8)
    } else {
        None
    }
}

fn pair_value(a: char, b: char) -> (r: Option<u8>)
    ensures
        r == hex_pair_value(a, b),
{
    match (digit_value(a), digit_value(b)) {
        (Some(x), Some(y)) => Some(x * 16 + y),
        _ => None,
    }
}

proof fn lemma_trim_hashes_skip(s: Seq<char>, i: int)
    requires
        0 <= i <= s.len(),
        forall|j: int| 0 <= j < i ==> s[j] == '#',
    ensures
        trim_hashes(s) == trim_hashes(s.skip(i)),
    decreases i,
{
    if i > 0 {
        lemma_trim_hashes_skip(s.drop_first(), i - 1);
        assert(s.drop_first().skip(i - 1) =~= s.skip(i));
    } else {
        assert(s.skip(0) =~= s);
    }
}

/// Reads a hex color code: any number of leading `#`, then `rrggbb`.
pub fn parse_hex_rgb(val: &str) -> (r: Option<(u8, u8, u8)>)
    requires
        !hex_slicing_panics(val@),
    ensures
        r == parse_hex_spec(val@),
{
    let v = chars_of(val);
    let n = v.len();
    let mut i: usize = 0;
    while i < n && v[i] == '#'
        invariant
            i <= n,
            n == v@.len(),
            forall|j: int| 0 <= j < i ==> v@[j] == '#',
        decreases n - i,
    {
        i = i + 1;
    }
    proof {
        lemma_trim_hashes_skip(v@, i as int);
        let t = v@.skip(i as int);
        if t.len() > 0 {
            assert(t[0] != '#');
        }
        assert(trim_hashes(t) == t);
    }
    if n - i != 6 {
        return None;
    }
    let r = pair_value(v[i], v[i + 1]);
    let g = pair_value(v[i + 2], v[i + 3]);
    let b = pair_value(v[i + 4], v[i + 5]);
    match (r, g, b) {
        (Some(r), Some(g), Some(b)) => Some((r, g, b)),
        _ => None,
    }
}

fn width_of(c: char) -> (w: u64)
    ensures
        w == utf8_width(c),
{
    let x = c as u32;
    if x < 0x80 {
        1
    } else if x < 0x800 {
        2
    } else if x < 0x10000 {
        3
    } else {
        4
    }
}

/// The UTF-8 length of the characters from `i` on, or 7 when that is more
/// than 6.
fn capped_utf8_len(v: &Vec<char>, i: usize) -> (r: u64)
    requires
        i <= v@.len(),
    ensures
        r == (if utf8_len(v@.skip(i as int)) > 6 {
            7
        } else {
            utf8_len(v@.skip(i as int))
        }),
    decreases v@.len() - i,
{
    if i == v.len() {
        assert(v@.skip(i as int).len() == 0);
        return 0;
    }
    let rest = capped_utf8_len(v, i + 1);
    let w = width_of(v[i]);
    assert(v@.skip(i as int).drop_first() =~= v@.skip(i + 1));
    assert(v@.skip(i as int)[0] == v@[i as int]);
    if rest + w > 6 {
        7
    } else {
        rest + w
    }
}

fn boundary_from(v: &Vec<char>, i: usize, n: u64) -> (r: bool)
    requires
        i <= v@.len(),
    ensures
        r == boundary_at(v@.skip(i as int), n as nat),
    decreases v@.len() - i,
{
    if n == 0 {
        return true;
    }
    if i == v.len() {
        assert(v@.skip(i as int).len() == 0);
        return false;
    }
    let w = width_of(v[i]);
    assert(v@.skip(i as int).drop_first() =~= v@.skip(i + 1));
    assert(v@.skip(i as int)[0] == v@[i as int]);
    if w > n {
        false
    } else {
        boundary_from(v, i + 1, n - w)
    }
}

/// Whether reading `val` as a hex code would slice it in the middle of a
/// character.
pub fn hex_slicing_would_panic(val: &str) -> (r: bool)
    ensures
        r == hex_slicing_panics(val@),
{
    let v = chars_of(val);
    let n = v.len();
    let mut i: usize = 0;
    while i < n && v[i] == '#'
        invariant
            i <= n,
            n == v@.len(),
            forall|j: int| 0 <= j < i ==> v@[j] == '#',
        decreases n - i,
    {
        i = i + 1;
    }
    proof {
        lemma_trim_hashes_skip(v@, i as int);
        let t = v@.skip(i as int);
        if t.len() > 0 {
            assert(t[0] != '#');
        }
        assert(trim_hashes(t) == t);
    }
    capped_utf8_len(&v, i) == 6 && !(boundary_from(&v, i, 2) && boundary_from(&v, i, 4))
}

/// A hexadecimal digit of the value `d` as a one-character string.
pub fn hex_digit_str(d: u8) -> (s: &'static str)
    requires
        d < 16,
    ensures
        s@ == seq![hex_digits()[d as int]],
{
    let digits = "0123456789abcdef";
    proof {
        reveal_strlit("0123456789abcdef");
        assert(digits@ =~= hex_digits());
    }
    let s = digits.substring_char(d as usize, d as usize + 1);
    assert(s@ =~= seq![hex_digits()[d as int]]);
    s
}

/// A decimal digit of the value `d` as a one-character string.
pub fn dec_digit_str(d: u8) -> (s: &'static str)
    requires
        d < 10,
    ensures
        s@ == seq![dec_digits()[d as int]],
{
    let digits = "0123456789";
    proof {
        reveal_strlit("0123456789");
        assert(digits@ =~= dec_digits());
    }
    let s = digits.substring_char(d as usize, d as usize + 1);
    assert(s@ =~= seq![dec_digits()[d as int]]);
    s
}

/// Appends the two lowercase hex digits of `v` to `out`.
pub fn push_byte_hex(out: &mut String, v: u8)
    ensures
        final(out)@ == old(out)@ + byte_hex(v),
{
    out.append(hex_digit_str(v / 16));
    out.append(hex_digit_str(v % 16));
}

proof fn lemma_lower_hex_len(n: nat)
    ensures
        lower_hex(n).len() >= 1,
        n >= 16 ==> lower_hex(n).len() >= 2,
    decreases n,
{
    if n >= 16 {
        lemma_lower_hex_len(n / 16);
    }
}

/// Different numbers are written as different lowercase hex texts, so a
/// cache key tells digests apart.
pub proof fn law_lower_hex_injective(a: nat, b: nat)
    requires
        lower_hex(a) == lower_hex(b),
    ensures
        a == b,
    decreases a,
{
    lemma_lower_hex_len(a);
    lemma_lower_hex_len(b);
    let ha = lower_hex(a);
    if a < 16 && b < 16 {
        assert(ha[0] == hex_digits()[a as int]);
        assert(ha[0] == hex_digits()[b as int]);
    } else if a >= 16 && b >= 16 {
        let pa = lower_hex(a / 16);
        let pb = lower_hex(b / 16);
        assert(ha == pa + seq![hex_digits()[(a % 16) as int]]);
        assert(ha == pb + seq![hex_digits()[(b % 16) as int]]);
        assert(ha.last() == hex_digits()[(a % 16) as int]);
        assert(ha.last() == hex_digits()[(b % 16) as int]);
        assert(a % 16 == b % 16);
        assert(pa =~= ha.drop_last());
        assert(pb =~= ha.drop_last());
        law_lower_hex_injective(a / 16, b / 16);
    } else {
        assert(false);
    }
}

/// Whether every character of `s` is a decimal digit `0`..`9`.
pub open spec fn all_dec_digits(s: Seq<char>) -> bool {
    forall|i: int| 0 <= i < s.len() ==> '0' <= #[trigger] s[i] && s[i] <= '9'
}

/// The number that a text of decimal digits denotes, read as a base-10
/// numeral: the value of the digits before the last, times ten, plus the
/// last digit.
pub open spec fn dec_numeral_value(s: Seq<char>) -> int
    decreases s.len(),
{
    if s.len() == 0 {
        0
    } else {
        dec_numeral_value(s.drop_last()) * 10 + (s.last() as int - '0' as int)
    }
}

proof fn lemma_dec_digit_code(d: int)
    requires
        0 <= d < 10,
    ensures
        dec_digits()[d] as int == '0' as int + d,
{
    assert(dec_digits()[0] == '0');
    assert(dec_digits()[1] == '1');
    assert(dec_digits()[2] == '2');
    assert(dec_digits()[3] == '3');
    assert(dec_digits()[4] == '4');
    assert(dec_digits()[5] == '5');
    assert(dec_digits()[6] == '6');
    assert(dec_digits()[7] == '7');
    assert(dec_digits()[8] == '8');
    assert(dec_digits()[9] == '9');
}

/// The decimal text of a byte (as `rgb` and the terminal escapes write it)
/// is a numeral of one to three digits, without a leading zero unless the
/// byte is zero, that reads back as the byte.
pub proof fn law_dec_reads_back(v: u8)
    ensures
        1 <= dec_spec(v).len() <= 3,
        all_dec_digits(dec_spec(v)),
        dec_numeral_value(dec_spec(v)) == v,
        dec_spec(v)[0] == '0' ==> v == 0,
{
    let t = dec_spec(v);
    let d2 = v as int % 10;
    lemma_dec_digit_code(d2);
    if v < 10 {
        assert(t.drop_last() =~= Seq::<char>::empty());
        assert(dec_numeral_value(t.drop_last()) == 0);
        assert(dec_numeral_value(t) == d2);
    } else if v < 100 {
        let d1 = v as int / 10;
        lemma_dec_digit_code(d1);
        let a = t.drop_last();
        assert(a =~= seq![t[0]]);
        assert(a.drop_last() =~= Seq::<char>::empty());
        assert(dec_numeral_value(a.drop_last()) == 0);
        assert(dec_numeral_value(a) == d1);
        assert(dec_numeral_value(t) == d1 * 10 + d2);
    } else {
        let d0 = v as int / 100;
        let d1 = (v as int / 10) % 10;
        lemma_dec_digit_code(d0);
        lemma_dec_digit_code(d1);
        let a = t.drop_last();
        let b = a.drop_last();
        assert(a =~= seq![t[0], t[1]]);
        assert(b =~= seq![t[0]]);
        assert(b.drop_last() =~= Seq::<char>::empty());
        assert(dec_numeral_value(b.drop_last()) == 0);
        assert(dec_numeral_value(b) == d0);
        assert(dec_numeral_value(a) == d0 * 10 + d1);
        assert(dec_numeral_value(t) == (d0 * 10 + d1) * 10 + d2);
        assert(v as int == d0 * 100 + d1 * 10 + d2);
    }
}

/// Appends the lowercase hex digits of `n`, without leading zeros, to `out`.
pub fn push_lower_hex(out: &mut String, n: u64)
    ensures
        final(out)@ == old(out)@ + lower_hex(n as nat),
    decreases n,
{
    if n >= 16 {
        push_lower_hex(out, n / 16);
    }
    let d: u64 = n % 16;
    out.append(hex_digit_str(d as u8));
    assert(out@ =~= old(out)@ + lower_hex(n as nat));
}

/// Appends the decimal text of `v` to `out`.
pub fn push_byte_dec(out: &mut String, v: u8)
    ensures
        final(out)@ == old(out)@ + dec_spec(v),
        all_dec_digits(final(out)@.skip(old(out)@.len() as int)),
        dec_numeral_value(final(out)@.skip(old(out)@.len() as int)) == v,
{
    if v < 10 {
        out.append(dec_digit_str(v));
    } else if v < 100 {
        out.append(dec_digit_str(v / 10));
        out.append(dec_digit_str(v % 10));
    } else {
        out.append(dec_digit_str(v / 100));
        out.append(dec_digit_str((v / 10) % 10));
        out.append(dec_digit_str(v % 10));
    }
    proof {
        law_dec_reads_back(v);
        assert(out@.skip(old(out)@.len() as int) =~= dec_spec(v));
    }
}

/// Reading the code that a color is written as gives the color back, with or
/// without the leading `#`, and reading it never slices inside a character.
pub proof fn lemma_hex_roundtrip(c: (u8, u8, u8))
    ensures
        parse_hex_spec(hex_spec(c)) == Some(c),
        parse_hex_spec(strip_spec(c)) == Some(c),
        !hex_slicing_panics(hex_spec(c)),
        !hex_slicing_panics(strip_spec(c)),
{
    lemma_byte_hex_reads_back(c.0);
    lemma_byte_hex_reads_back(c.1);
    lemma_byte_hex_reads_back(c.2);
    let s = strip_spec(c);
    assert(s[0] == byte_hex(c.0)[0]);
    assert(s[0] != '#');
    assert(trim_hashes(s) == s);
    let h = hex_spec(c);
    assert(h.drop_first() =~= s);
    assert(trim_hashes(h) == trim_hashes(s));
    assert(s[1] == byte_hex(c.0)[1]);
    assert(s[2] == byte_hex(c.1)[0]);
    assert(s[3] == byte_hex(c.1)[1]);
    assert(s[4] == byte_hex(c.2)[0]);
    assert(s[5] == byte_hex(c.2)[1]);
    assert forall|i: int| 0 <= i < 6 implies utf8_width(#[trigger] s[i]) == 1 by {
        assert(hex_digits().contains(s[i]));
    }
    assert(boundary_at(s, 2) && boundary_at(s, 4)) by {
        reveal_with_fuel(boundary_at, 5);
        assert(utf8_width(s[0]) == 1 && utf8_width(s[1]) == 1);
        assert(utf8_width(s[2]) == 1 && utf8_width(s[3]) == 1);
        assert(s.drop_first().drop_first()[0] == s[2]);
        assert(s.drop_first().drop_first()[1] == s[3]);
    }
}

proof fn lemma_byte_hex_reads_back(v: u8)
    ensures
        byte_hex(v).len() == 2,
        byte_hex(v)[0] != '#',
        hex_pair_value(byte_hex(v)[0], byte_hex(v)[1]) == Some(v),
{
    lemma_hex_digit_reads_back(v / 16);
    lemma_hex_digit_reads_back(v % 16);
}

proof fn lemma_hex_digit_reads_back(d: u8)
    requires
        d < 16,
    ensures
        hex_digit_value(hex_digits()[d as int]) == Some(d),
        hex_digits()[d as int] != '#',
{
    assert(hex_digits()[0] == '0');
    assert(hex_digits()[1] == '1');
    assert(hex_digits()[2] == '2');
    assert(hex_digits()[3] == '3');
    assert(hex_digits()[4] == '4');
    assert(hex_digits()[5] == '5');
    assert(hex_digits()[6] == '6');
    assert(hex_digits()[7] == '7');
    assert(hex_digits()[8] == '8');
    assert(hex_digits()[9] == '9');
    assert(hex_digits()[10] == 'a');
    assert(hex_digits()[11] == 'b');
    assert(hex_digits()[12] == 'c');
    assert(hex_digits()[13] == 'd');
    assert(hex_digits()[14] == 'e');
    assert(hex_digits()[15] == 'f');
}

} // verus!
