//! Verified wire codec primitives.
//!
//! Domain objects travel inside encrypted event content. The content is a
//! self-delimiting text format built from two primitives: fixed-width
//! lowercase hexadecimal numbers, and length-prefixed character runs (a
//! sixteen-digit hexadecimal length followed by exactly that many
//! characters). Every encoder comes with a parser and a proof that parsing
//! inverts encoding.

use vstd::prelude::*;

verus! {

/// Powers of sixteen: the place values of hexadecimal digits.
pub open spec fn pow16(n: nat) -> nat
    decreases n,
{
    if n == 0 {
        1
    } else {
        16 * pow16((n - 1) as nat)
    }
}

pub proof fn lemma_pow16_pos(n: nat)
    ensures
        pow16(n) >= 1,
    decreases n,
{
    if n > 0 {
        lemma_pow16_pos((n - 1) as nat);
    }
}

pub proof fn lemma_pow16_increases(m: nat, n: nat)
    requires
        m <= n,
    ensures
        pow16(m) <= pow16(n),
    decreases n,
{
    if m < n {
        lemma_pow16_increases(m, (n - 1) as nat);
        lemma_pow16_pos((n - 1) as nat);
    }
}

/// The hexadecimal digit character for a value below sixteen.
pub open spec fn hex_char(d: nat) -> char {
    if d == 0 {
        '0'
    } else if d == 1 {
        '1'
    } else if d == 2 {
        '2'
    } else if d == 3 {
        '3'
    } else if d == 4 {
        '4'
    } else if d == 5 {
        '5'
    } else if d == 6 {
        '6'
    } else if d == 7 {
        '7'
    } else if d == 8 {
        '8'
    } else if d == 9 {
        '9'
    } else if d == 10 {
        'a'
    } else if d == 11 {
        'b'
    } else if d == 12 {
        'c'
    } else if d == 13 {
        'd'
    } else if d == 14 {
        'e'
    } else {
        'f'
    }
}

/// The value of a hexadecimal digit character, if it is one.
pub open spec fn hex_val(c: char) -> Option<u8> {
    if c == '0' {
        Some(0u8)
    } else if c == '1' {
        Some(1u8)
    } else if c == '2' {
        Some(2u8)
    } else if c == '3' {
        Some(3u8)
    } else if c == '4' {
        Some(4u8)
    } else if c == '5' {
        Some(5u8)
    } else if c == '6' {
        Some(6u8)
    } else if c == '7' {
        Some(7u8)
    } else if c == '8' {
        Some(8u8)
    } else if c == '9' {
        Some(9u8)
    } else if c == 'a' {
        Some(10u8)
    } else if c == 'b' {
        Some(11u8)
    } else if c == 'c' {
        Some(12u8)
    } else if c == 'd' {
        Some(13u8)
    } else if c == 'e' {
        Some(14u8)
    } else if c == 'f' {
        Some(15u8)
    } else {
        None
    }
}

pub proof fn lemma_hex_char_val(d: nat)
    requires
        d < 16,
    ensures
        hex_val(hex_char(d)) == Some(d as u8),
{
}

/// A number written as `width` hexadecimal digits, most significant first.
pub open spec fn spec_hex(x: nat, width: nat) -> Seq<char>
    decreases width,
{
    if width == 0 {
        Seq::empty()
    } else {
        spec_hex(x / 16, (width - 1) as nat).push(hex_char(x % 16))
    }
}

pub proof fn lemma_spec_hex_len(x: nat, width: nat)
    ensures
        spec_hex(x, width).len() == width,
    decreases width,
{
    if width > 0 {
        lemma_spec_hex_len(x / 16, (width - 1) as nat);
    }
}

/// Each digit of the encoding is the corresponding place value of the number.
pub proof fn lemma_spec_hex_index(x: nat, width: nat, i: int)
    requires
        0 <= i < width,
    ensures
        spec_hex(x, width).len() == width,
        spec_hex(x, width)[i] == hex_char((x / pow16((width - 1 - i) as nat)) % 16),
    decreases width,
{
    lemma_spec_hex_len(x, width);
    if i == width - 1 {
        lemma_pow16_pos(0);
        assert(pow16(0) == 1);
        assert(x / pow16(0) == x) by {
            assert(pow16(0) == 1);
        }
    } else {
        lemma_spec_hex_index(x / 16, (width - 1) as nat, i);
        let k = (width - 1 - i) as nat;
        assert((x / 16) / pow16((k - 1) as nat) == x / pow16(k)) by {
            lemma_pow16_pos((k - 1) as nat);
            vstd::arithmetic::div_mod::lemma_div_denominator(
                x as int,
                16,
                pow16((k - 1) as nat) as int,
            );
            assert(16 * pow16((k - 1) as nat) == pow16(k));
        }
    }
}

/// The number denoted by a sequence of hexadecimal digits, most significant
/// first; `None` if any character is not a digit.
pub open spec fn spec_parse_hex(s: Seq<char>) -> Option<nat>
    decreases s.len(),
{
    if s.len() == 0 {
        Some(0nat)
    } else {
        match spec_parse_hex(s.drop_last()) {
            Some(hi) => match hex_val(s.last()) {
                Some(d) => Some((hi * 16 + d) as nat),
                None => None,
            },
            None => None,
        }
    }
}

/// Parsing inverts encoding: the digits of `x` denote `x`.
pub proof fn lemma_hex_round_trip(x: nat, width: nat)
    requires
        x < pow16(width),
    ensures
        spec_parse_hex(spec_hex(x, width)) == Some(x),
    decreases width,
{
    if width == 0 {
        assert(x == 0);
    } else {
        let s = spec_hex(x, width);
        lemma_spec_hex_len(x, width);
        assert(s.drop_last() =~= spec_hex(x / 16, (width - 1) as nat));
        assert(x / 16 < pow16((width - 1) as nat)) by {
            lemma_pow16_pos((width - 1) as nat);
            vstd::arithmetic::div_mod::lemma_multiply_divide_lt(
                x as int,
                16,
                pow16((width - 1) as nat) as int,
            );
        }
        lemma_hex_round_trip(x / 16, (width - 1) as nat);
        lemma_hex_char_val(x % 16);
        assert((x / 16) * 16 + x % 16 == x) by {
            vstd::arithmetic::div_mod::lemma_fundamental_div_mod(x as int, 16);
        }
    }
}

/// The numeric value of a digit string is bounded by its place count.
pub proof fn lemma_parse_hex_bound(s: Seq<char>)
    ensures
        match spec_parse_hex(s) {
            Some(v) => v < pow16(s.len()),
            None => true,
        },
    decreases s.len(),
{
    if s.len() > 0 {
        lemma_parse_hex_bound(s.drop_last());
        if spec_parse_hex(s.drop_last()) is Some && hex_val(s.last()) is Some {
            let hi = spec_parse_hex(s.drop_last()).unwrap();
            let d = hex_val(s.last()).unwrap();
            assert(hi * 16 + d < pow16(s.len())) by {
                assert(hi <= pow16((s.len() - 1) as nat) - 1);
                assert(hi * 16 <= (pow16((s.len() - 1) as nat) - 1) * 16) by (nonlinear_arith)
                    requires
                        hi <= pow16((s.len() - 1) as nat) - 1,
                ;
                assert(16 * pow16((s.len() - 1) as nat) == pow16(s.len()));
            }
        }
    }
}

/// The largest place value this codec uses, written out.
pub proof fn lemma_pow16_32_val()
    ensures
        pow16(16) == 0x10000000000000000,
        pow16(32) == 0x100000000000000000000000000000000,
{
    assert(pow16(0) == 1);
    assert(pow16(1) == 0x10);
    assert(pow16(2) == 0x100);
    assert(pow16(3) == 0x1000);
    assert(pow16(4) == 0x10000);
    assert(pow16(5) == 0x100000);
    assert(pow16(6) == 0x1000000);
    assert(pow16(7) == 0x10000000);
    assert(pow16(8) == 0x100000000);
    assert(pow16(9) == 0x1000000000);
    assert(pow16(10) == 0x10000000000);
    assert(pow16(11) == 0x100000000000);
    assert(pow16(12) == 0x1000000000000);
    assert(pow16(13) == 0x10000000000000);
    assert(pow16(14) == 0x100000000000000);
    assert(pow16(15) == 0x1000000000000000);
    assert(pow16(16) == 0x10000000000000000);
    assert(pow16(17) == 0x100000000000000000);
    assert(pow16(18) == 0x1000000000000000000);
    assert(pow16(19) == 0x10000000000000000000);
    assert(pow16(20) == 0x100000000000000000000);
    assert(pow16(21) == 0x1000000000000000000000);
    assert(pow16(22) == 0x10000000000000000000000);
    assert(pow16(23) == 0x100000000000000000000000);
    assert(pow16(24) == 0x1000000000000000000000000);
    assert(pow16(25) == 0x10000000000000000000000000);
    assert(pow16(26) == 0x100000000000000000000000000);
    assert(pow16(27) == 0x1000000000000000000000000000);
    assert(pow16(28) == 0x10000000000000000000000000000);
    assert(pow16(29) == 0x100000000000000000000000000000);
    assert(pow16(30) == 0x1000000000000000000000000000000);
    assert(pow16(31) == 0x10000000000000000000000000000000);
    assert(pow16(32) == 0x100000000000000000000000000000000);
}

/// One hexadecimal digit as a borrowed one-character string.
fn hex_char_str(d: u8) -> (s: &'static str)
    requires
        d < 16,
    ensures
        s@ =~= seq![hex_char(d as nat)],
{
    proof {
        reveal_strlit("0");
        reveal_strlit("1");
        reveal_strlit("2");
        reveal_strlit("3");
        reveal_strlit("4");
        reveal_strlit("5");
        reveal_strlit("6");
        reveal_strlit("7");
        reveal_strlit("8");
        reveal_strlit("9");
        reveal_strlit("a");
        reveal_strlit("b");
        reveal_strlit("c");
        reveal_strlit("d");
        reveal_strlit("e");
        reveal_strlit("f");
    }
    if d == 0 {
        "0"
    } else if d == 1 {
        "1"
    } else if d == 2 {
        "2"
    } else if d == 3 {
        "3"
    } else if d == 4 {
        "4"
    } else if d == 5 {
        "5"
    } else if d == 6 {
        "6"
    } else if d == 7 {
        "7"
    } else if d == 8 {
        "8"
    } else if d == 9 {
        "9"
    } else if d == 10 {
        "a"
    } else if d == 11 {
        "b"
    } else if d == 12 {
        "c"
    } else if d == 13 {
        "d"
    } else if d == 14 {
        "e"
    } else {
        "f"
    }
}

/// Sixteen to the `n`th power, executable.
fn pow16_exec(n: u32) -> (r: u128)
    requires
        n <= 31,
    ensures
        r == pow16(n as nat),
{
    let mut r: u128 = 1;
    let mut i: u32 = 0;
    while i < n
        invariant
            i <= n <= 31,
            r == pow16(i as nat),
        decreases n - i,
    {
        proof {
            lemma_pow16_increases((i + 1) as nat, 31);
            lemma_pow16_32_val();
            assert(16 * pow16(31nat) == pow16(32nat));
        }
        r = r * 16;
        i = i + 1;
    }
    r
}

/// Append the `width`-digit hexadecimal form of `x` to `out`.
pub fn append_hex(out: &mut String, x: u128, width: u32)
    requires
        width <= 32,
        x < pow16(width as nat),
    ensures
        final(out)@ == old(out)@ + spec_hex(x as nat, width as nat),
{
    let ghost full = spec_hex(x as nat, width as nat);
    proof {
        lemma_spec_hex_len(x as nat, width as nat);
    }
    let mut i: u32 = 0;
    while i < width
        invariant
            i <= width <= 32,
            x < pow16(width as nat),
            full == spec_hex(x as nat, width as nat),
            full.len() == width,
            out@ == old(out)@ + full.take(i as int),
        decreases width - i,
    {
        let k: u32 = width - 1 - i;
        let p: u128 = pow16_exec(k);
        proof {
            lemma_pow16_pos(k as nat);
        }
        let d: u128 = (x / p) % 16;
        proof {
            lemma_spec_hex_index(x as nat, width as nat, i as int);
            assert((x as nat / pow16(k as nat)) % 16 == ((x / p) % 16) as nat);
            assert(full[i as int] == hex_char(d as nat));
        }
        out.append(hex_char_str(d as u8));
        proof {
            assert(out@ =~= old(out)@ + full.take((i + 1) as int));
        }
        i = i + 1;
    }
    proof {
        assert(full.take(width as int) =~= full);
    }
}

/// The value of one character as a hexadecimal digit.
fn hex_val_exec(c: char) -> (r: Option<u8>)
    ensures
        r == hex_val(c),
{
    if c == '0' {
        Some(0)
    } else if c == '1' {
        Some(1)
    } else if c == '2' {
        Some(2)
    } else if c == '3' {
        Some(3)
    } else if c == '4' {
        Some(4)
    } else if c == '5' {
        Some(5)
    } else if c == '6' {
        Some(6)
    } else if c == '7' {
        Some(7)
    } else if c == '8' {
        Some(8)
    } else if c == '9' {
        Some(9)
    } else if c == 'a' {
        Some(10)
    } else if c == 'b' {
        Some(11)
    } else if c == 'c' {
        Some(12)
    } else if c == 'd' {
        Some(13)
    } else if c == 'e' {
        Some(14)
    } else if c == 'f' {
        Some(15)
    } else {
        None
    }
}

/// Parse `width` hexadecimal digits of `s` starting at `pos`.
///
/// Returns the denoted number; `None` if the input is too short or a
/// character is not a digit.
pub fn parse_hex(s: &str, pos: usize, width: u32) -> (r: Option<u128>)
    requires
        width <= 32,
        pos + width <= usize::MAX,
    ensures
        pos + width <= s@.len() ==> r == match spec_parse_hex(
            s@.subrange(pos as int, pos + width),
        ) {
            Some(v) => Some(v as u128),
            None => None,
        },
        pos + width > s@.len() ==> r is None,
{
    let n = s.unicode_len();
    if pos > n || width as usize > n - pos {
        return None;
    }
    let ghost window = s@.subrange(pos as int, pos + width);
    let mut acc: u128 = 0;
    let mut i: u32 = 0;
    while i < width
        invariant
            i <= width <= 32,
            pos + width <= usize::MAX,
            pos + width <= s@.len(),
            window == s@.subrange(pos as int, pos + width),
            Some(acc as nat) == spec_parse_hex(window.take(i as int)),
            acc < pow16(i as nat),
        decreases width - i,
    {
        let c = s.get_char(pos + i as usize);
        proof {
            assert(window.take((i + 1) as int).drop_last() =~= window.take(i as int));
            assert(window.take((i + 1) as int).last() == s@[pos + i as int]);
        }
        match hex_val_exec(c) {
            Some(d) => {
                proof {
                    assert(acc * 16 + d < pow16((i + 1) as nat)) by {
                        assert(acc <= pow16(i as nat) - 1);
                        assert(acc * 16 <= (pow16(i as nat) - 1) * 16) by (nonlinear_arith)
                            requires
                                acc <= pow16(i as nat) - 1,
                        ;
                        assert(16 * pow16(i as nat) == pow16((i + 1) as nat));
                    }
                    lemma_pow16_increases((i + 1) as nat, 32nat);
                    lemma_pow16_32_val();
                }
                acc = acc * 16 + d as u128;
            },
            None => {
                proof {
                    assert(window.take(width as int) =~= window);
                    lemma_parse_none_extends(window, (i + 1) as int);
                }
                return None;
            },
        }
        i = i + 1;
    }
    proof {
        assert(window.take(width as int) =~= window);
    }
    Some(acc)
}

/// A parse position after reading `width` digits at `pos`.
pub open spec fn spec_parse_hex_at(s: Seq<char>, pos: int, width: nat) -> Option<(nat, int)> {
    if 0 <= pos && pos + width <= s.len() {
        match spec_parse_hex(s.subrange(pos, pos + width)) {
            Some(v) => Some((v, pos + width)),
            None => None,
        }
    } else {
        None
    }
}

/// If the window at `pos` holds the digits of `x`, parsing there yields `x`.
pub proof fn lemma_parse_hex_at_frame(s: Seq<char>, pos: int, x: nat, width: nat)
    requires
        0 <= pos,
        pos + width <= s.len(),
        x < pow16(width),
        s.subrange(pos, pos + width) == spec_hex(x, width),
    ensures
        spec_parse_hex_at(s, pos, width) == Some((x, pos + width)),
{
    lemma_hex_round_trip(x, width);
}

/// A character run, written as a sixteen-digit length then the characters.
pub open spec fn spec_lpstr(v: Seq<char>) -> Seq<char> {
    spec_hex(v.len(), 16) + v
}

/// Parse a length-prefixed character run at `pos`.
pub open spec fn spec_parse_lpstr_at(s: Seq<char>, pos: int) -> Option<(Seq<char>, int)> {
    match spec_parse_hex_at(s, pos, 16) {
        Some((n, p)) => if p + n <= s.len() {
            Some((s.subrange(p, p + n), p + n))
        } else {
            None
        },
        None => None,
    }
}

/// If the window at `pos` holds the encoding of `v`, parsing yields `v`.
pub proof fn lemma_parse_lpstr_frame(s: Seq<char>, pos: int, v: Seq<char>)
    requires
        0 <= pos,
        pos + 16 + v.len() <= s.len(),
        v.len() < pow16(16),
        s.subrange(pos, pos + 16 + v.len()) == spec_lpstr(v),
    ensures
        spec_parse_lpstr_at(s, pos) == Some((v, pos + 16 + v.len())),
{
    lemma_spec_hex_len(v.len(), 16);
    assert(s.subrange(pos, pos + 16) =~= spec_hex(v.len(), 16)) by {
        assert forall|i: int| 0 <= i < 16 implies s.subrange(pos, pos + 16)[i] == spec_hex(
            v.len(),
            16,
        )[i] by {
            assert(s.subrange(pos, pos + 16 + v.len())[i] == spec_lpstr(v)[i]);
        }
    }
    lemma_parse_hex_at_frame(s, pos, v.len(), 16);
    assert(s.subrange(pos + 16, pos + 16 + v.len()) =~= v) by {
        assert forall|i: int| 0 <= i < v.len() implies s.subrange(pos + 16, pos + 16 + v.len())[i]
            == v[i] by {
            assert(s.subrange(pos, pos + 16 + v.len())[16 + i] == spec_lpstr(v)[16 + i]);
        }
    }
}

/// Append the length-prefixed encoding of `v` to `out`.
pub fn append_lpstr(out: &mut String, v: &str)
    ensures
        final(out)@ == old(out)@ + spec_lpstr(v@),
{
    let n = v.unicode_len();
    proof {
        lemma_pow16_32_val();
    }
    append_hex(out, n as u128, 16);
    out.append(v);
}

/// Parse a length-prefixed character run of `s` starting at `pos`.
pub fn parse_lpstr(s: &str, pos: usize) -> (r: Option<(String, usize)>)
    ensures
        match r {
            Some((v, p)) => spec_parse_lpstr_at(s@, pos as int) == Some((v@, p as int)) && p
                <= s@.len(),
            None => spec_parse_lpstr_at(s@, pos as int) is None,
        },
{
    let total = s.unicode_len();
    if pos > total || total - pos < 16 {
        return None;
    }
    let n128 = match parse_hex(s, pos, 16) {
        Some(x) => x,
        None => {
            return None;
        },
    };
    proof {
        lemma_parse_hex_bound(s@.subrange(pos as int, pos + 16));
        lemma_pow16_32_val();
    }
    if n128 > (total - (pos + 16)) as u128 {
        return None;
    }
    let n = n128 as usize;
    let body = s.substring_char(pos + 16, pos + 16 + n);
    Some((body.to_owned(), pos + 16 + n))
}

/// Whether `s` begins with `prefix`.
pub open spec fn spec_starts_with(s: Seq<char>, prefix: Seq<char>) -> bool {
    prefix.len() <= s.len() && s.subrange(0, prefix.len() as int) == prefix
}

/// Whether `needle` occurs in `s` as a contiguous run.
pub open spec fn spec_contains_sub(s: Seq<char>, needle: Seq<char>) -> bool {
    exists|off: int|
        0 <= off && off + needle.len() <= s.len() && #[trigger] s.subrange(off, off + needle.len())
            == needle
}

/// Whether the text begins with the prefix.
pub fn str_starts_with(s: &str, prefix: &str) -> (r: bool)
    ensures
        r == spec_starts_with(s@, prefix@),
{
    let n = s.unicode_len();
    let m = prefix.unicode_len();
    if m > n {
        return false;
    }
    let mut i: usize = 0;
    while i < m
        invariant
            i <= m,
            m == prefix@.len(),
            m <= n == s@.len(),
            forall|j: int| 0 <= j < i ==> s@[j] == prefix@[j],
        decreases m - i,
    {
        if s.get_char(i) != prefix.get_char(i) {
            proof {
                assert(s@.subrange(0, m as int)[i as int] != prefix@[i as int]);
            }
            return false;
        }
        i = i + 1;
    }
    proof {
        assert(s@.subrange(0, m as int) =~= prefix@);
    }
    true
}

/// Whether the text at offset `off` matches `needle` exactly.
fn matches_at(s: &str, off: usize, needle: &str) -> (r: bool)
    requires
        off + needle@.len() <= s@.len(),
        s@.len() <= usize::MAX,
    ensures
        r == (s@.subrange(off as int, off + needle@.len()) == needle@),
{
    let m = needle.unicode_len();
    let mut i: usize = 0;
    while i < m
        invariant
            i <= m,
            m == needle@.len(),
            off + m <= s@.len(),
            s@.len() <= usize::MAX,
            forall|j: int| 0 <= j < i ==> s@[off + j] == needle@[j],
        decreases m - i,
    {
        if s.get_char(off + i) != needle.get_char(i) {
            proof {
                assert(s@.subrange(off as int, off + needle@.len())[i as int] != needle@[i as int]);
            }
            return false;
        }
        i = i + 1;
    }
    proof {
        assert(s@.subrange(off as int, off + needle@.len()) =~= needle@);
    }
    true
}

/// Whether the needle occurs in the text.
pub fn str_contains_sub(s: &str, needle: &str) -> (r: bool)
    ensures
        r == spec_contains_sub(s@, needle@),
{
    let n = s.unicode_len();
    let m = needle.unicode_len();
    if m > n {
        return false;
    }
    if m == 0 {
        proof {
            assert(s@.subrange(0, 0 + needle@.len() as int) =~= needle@);
        }
        return true;
    }
    let mut off: usize = 0;
    while off <= n - m
        invariant
            off <= n - m + 1,
            1 <= m <= n,
            m == needle@.len(),
            n == s@.len(),
            forall|o: int|
                0 <= o < off ==> #[trigger] s@.subrange(o, o + needle@.len()) != needle@,
        decreases n - off,
    {
        if matches_at(s, off, needle) {
            return true;
        }
        off = off + 1;
    }
    false
}

/// Once a prefix fails to parse, every extension fails too.
proof fn lemma_parse_none_extends(s: Seq<char>, i: int)
    requires
        0 <= i <= s.len(),
        spec_parse_hex(s.take(i)) is None,
    ensures
        spec_parse_hex(s) is None,
    decreases s.len() - i,
{
    if i < s.len() {
        assert(s.take(i + 1).drop_last() =~= s.take(i));
        lemma_parse_none_extends(s, i + 1);
    } else {
        assert(s.take(i) =~= s);
    }
}

} // verus!
