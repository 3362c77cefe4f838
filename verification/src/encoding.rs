//! The textual and binary encodings that travel on the wire: hexadecimal keys, base64 handshake
//! keys and big-endian integers.
use vstd::prelude::*;
use vstd::utf8::*;

verus! {

/// The lower-case hexadecimal digit of a value below 16.
pub open spec fn hex_digit(v: int) -> char {
    if v < 10 {
        (48 + v) as char
    } else {
        (87 + v) as char
    }
}

/// The lower-case hexadecimal text of a byte string, two digits a byte, high digit first.
pub open spec fn hex_text(b: Seq<u8>) -> Seq<char> {
    Seq::new(
        2 * b.len(),
        |i: int|
            if i % 2 == 0 {
                hex_digit(b[i / 2] as int / 16)
            } else {
                hex_digit(b[i / 2] as int % 16)
            },
    )
}

/// The value of one hexadecimal digit in either case; `None` of any other byte.
pub open spec fn hex_value(c: u8) -> Option<int> {
    if 48 <= c <= 57 {
        Some(c - 48)
    } else if 65 <= c <= 70 {
        Some(c - 55)
    } else if 97 <= c <= 102 {
        Some(c - 87)
    } else {
        None
    }
}

/// Whether every byte of `s` is a hexadecimal digit.
pub open spec fn all_hex(s: Seq<u8>) -> bool {
    forall|i: int| 0 <= i < s.len() ==> (#[trigger] hex_value(s[i])) is Some
}

/// Whether the byte at `i` is the first of `s` that is no hexadecimal digit.
pub open spec fn first_not_hex(s: Seq<u8>, i: int) -> bool {
    &&& 0 <= i < s.len()
    &&& hex_value(s[i]) is None
    &&& all_hex(s.take(i))
}

/// The bytes that an even number of hexadecimal digits denotes.
pub open spec fn hex_bytes(s: Seq<u8>) -> Seq<u8> {
    Seq::new(
        s.len() / 2,
        |i: int| (16 * hex_value(s[2 * i])->0 + hex_value(s[2 * i + 1])->0) as u8,
    )
}

/// The text that [`hex_text`] writes is ASCII and reads back as the bytes it was made from.
pub proof fn hex_text_reads_back(b: Seq<u8>)
    ensures
        is_ascii_chars(hex_text(b)),
        encode_utf8(hex_text(b)).len() == 2 * b.len(),
        all_hex(encode_utf8(hex_text(b))),
        hex_bytes(encode_utf8(hex_text(b))) == b,
{
    let t = hex_text(b);
    let s = encode_utf8(t);
    is_ascii_chars_encode_utf8(t);
    assert forall|i: int| 0 <= i < s.len() implies (#[trigger] hex_value(s[i])) is Some by {
        assert(t[i] as u8 == s[i]);
    }
    assert forall|i: int| 0 <= i < b.len() implies #[trigger] hex_bytes(s)[i] == b[i] by {
        assert(t[2 * i] as u8 == s[2 * i]);
        assert(t[2 * i + 1] as u8 == s[2 * i + 1]);
        assert((2 * i) / 2 == i);
        assert((2 * i + 1) / 2 == i);
        assert(hex_value(s[2 * i]) == Some(b[i] as int / 16));
        assert(hex_value(s[2 * i + 1]) == Some(b[i] as int % 16));
    }
    assert(hex_bytes(s) =~= b);
}

/// The digit of the standard base64 alphabet for a value below 64.
pub open spec fn base64_digit(v: int) -> u8 {
    if v < 26 {
        (65 + v) as u8
    } else if v < 52 {
        (71 + v) as u8
    } else if v < 62 {
        (v - 4) as u8
    } else if v == 62 {
        43
    } else {
        47
    }
}

/// The padded standard base64 text of a byte string, as ASCII bytes: four digits for every three
/// bytes, and `=` in the places that a final group of one or two bytes leaves open.
pub open spec fn base64_text(b: Seq<u8>) -> Seq<u8>
    decreases b.len(),
{
    if b.len() == 0 {
        Seq::empty()
    } else if b.len() == 1 {
        seq![base64_digit(b[0] as int / 4), base64_digit(b[0] as int % 4 * 16), 61u8, 61u8]
    } else if b.len() == 2 {
        seq![
            base64_digit(b[0] as int / 4),
            base64_digit(b[0] as int % 4 * 16 + b[1] as int / 16),
            base64_digit(b[1] as int % 16 * 4),
            61u8,
        ]
    } else {
        seq![
            base64_digit(b[0] as int / 4),
            base64_digit(b[0] as int % 4 * 16 + b[1] as int / 16),
            base64_digit(b[1] as int % 16 * 4 + b[2] as int / 64),
            base64_digit(b[2] as int % 64),
        ] + base64_text(b.skip(3))
    }
}

/// Different values below 64 have different digits, and none of them is the padding byte.
proof fn base64_digit_injective(u: int, v: int)
    requires
        0 <= u < 64,
        0 <= v < 64,
    ensures
        base64_digit(u) == base64_digit(v) ==> u == v,
        base64_digit(u) != 61,
        32 < base64_digit(u) < 127,
{
}

/// The length of a base64 text.
pub proof fn base64_text_len(b: Seq<u8>)
    ensures
        base64_text(b).len() == (b.len() + 2) / 3 * 4,
    decreases b.len(),
{
    if b.len() >= 3 {
        base64_text_len(b.skip(3));
    }
}

/// A base64 text is made of visible ASCII characters.
pub proof fn base64_text_ascii(b: Seq<u8>)
    ensures
        forall|i: int| 0 <= i < base64_text(b).len() ==> 32 < #[trigger] base64_text(b)[i] < 127,
    decreases b.len(),
{
    if b.len() >= 3 {
        base64_text_ascii(b.skip(3));
        let t = base64_text(b);
        let rest = base64_text(b.skip(3));
        assert forall|i: int| 0 <= i < t.len() implies 32 < #[trigger] t[i] < 127 by {
            if i >= 4 {
                assert(t[i] == rest[i - 4]);
            }
        }
    }
}

/// Two groups of three bytes with the same four digits are the same.
proof fn base64_group_injective(a: Seq<u8>, b: Seq<u8>)
    requires
        a.len() >= 3,
        b.len() >= 3,
        base64_text(a) == base64_text(b),
    ensures
        a[0] == b[0],
        a[1] == b[1],
        a[2] == b[2],
{
    let s = base64_text(a);
    let t = base64_text(b);
    let (a0, a1, a2) = (a[0] as int, a[1] as int, a[2] as int);
    let (b0, b1, b2) = (b[0] as int, b[1] as int, b[2] as int);
    assert(s[0] == base64_digit(a0 / 4) && t[0] == base64_digit(b0 / 4));
    assert(s[1] == base64_digit(a0 % 4 * 16 + a1 / 16));
    assert(t[1] == base64_digit(b0 % 4 * 16 + b1 / 16));
    assert(s[2] == base64_digit(a1 % 16 * 4 + a2 / 64));
    assert(t[2] == base64_digit(b1 % 16 * 4 + b2 / 64));
    assert(s[3] == base64_digit(a2 % 64) && t[3] == base64_digit(b2 % 64));
    base64_digit_injective(a0 / 4, b0 / 4);
    base64_digit_injective(a0 % 4 * 16 + a1 / 16, b0 % 4 * 16 + b1 / 16);
    base64_digit_injective(a1 % 16 * 4 + a2 / 64, b1 % 16 * 4 + b2 / 64);
    base64_digit_injective(a2 % 64, b2 % 64);
    assert(a0 % 4 == b0 % 4 && a1 / 16 == b1 / 16);
    assert(a1 % 16 == b1 % 16 && a2 / 64 == b2 / 64);
}

/// Two byte strings with the same base64 text are the same.
pub proof fn base64_text_injective(a: Seq<u8>, b: Seq<u8>)
    requires
        base64_text(a) == base64_text(b),
    ensures
        a == b,
    decreases a.len(),
{
    base64_text_len(a);
    base64_text_len(b);
    let s = base64_text(a);
    if a.len() == 0 {
        assert(a =~= b);
    } else {
        assert(s[0] == base64_text(b)[0] && s[1] == base64_text(b)[1]);
        assert(s[2] == base64_text(b)[2] && s[3] == base64_text(b)[3]);
        base64_digit_injective(a[0] as int / 4, b[0] as int / 4);
        if a.len() >= 3 {
            base64_digit_injective(a[2] as int % 64, 0);
            base64_digit_injective(a[1] as int % 16 * 4 + a[2] as int / 64, 0);
        }
        if b.len() >= 3 {
            base64_digit_injective(b[2] as int % 64, 0);
            base64_digit_injective(b[1] as int % 16 * 4 + b[2] as int / 64, 0);
        }
        if a.len() == 2 {
            base64_digit_injective(a[1] as int % 16 * 4, 0);
        }
        if b.len() == 2 {
            base64_digit_injective(b[1] as int % 16 * 4, 0);
        }
        if a.len() == 1 {
            assert(b.len() == 1);
            base64_digit_injective(a[0] as int % 4 * 16, b[0] as int % 4 * 16);
            assert(a =~= b);
        } else if a.len() == 2 {
            assert(b.len() == 2);
            base64_digit_injective(
                a[0] as int % 4 * 16 + a[1] as int / 16,
                b[0] as int % 4 * 16 + b[1] as int / 16,
            );
            base64_digit_injective(a[1] as int % 16 * 4, b[1] as int % 16 * 4);
            assert(a =~= b);
        } else {
            assert(b.len() >= 3);
            assert(base64_text(a.skip(3)) =~= s.skip(4));
            assert(base64_text(b.skip(3)) =~= base64_text(b).skip(4));
            base64_text_injective(a.skip(3), b.skip(3));
            assert(a =~= a.take(3) + a.skip(3));
            assert(b =~= b.take(3) + b.skip(3));
            base64_group_injective(a, b);
            assert(a.take(3) =~= b.take(3));
        }
    }
}

/// The last `n` base-256 digits of `x`, most significant first.
pub open spec fn be_bytes(x: int, n: nat) -> Seq<u8>
    decreases n,
{
    if n == 0 {
        Seq::empty()
    } else {
        be_bytes(x / 256, (n - 1) as nat).push((x % 256) as u8)
    }
}

/// The number whose base-256 digits are `s`, most significant first.
pub open spec fn be_value(s: Seq<u8>) -> int
    decreases s.len(),
{
    if s.len() == 0 {
        0
    } else {
        256 * be_value(s.drop_last()) + s.last()
    }
}

/// Every digit string of `n` digits is the digits of its own value.
pub proof fn be_bytes_of_value(s: Seq<u8>)
    ensures
        be_bytes(be_value(s), s.len()) == s,
        0 <= be_value(s),
    decreases s.len(),
{
    if s.len() == 0 {
        assert(be_bytes(be_value(s), 0) =~= s);
    } else {
        be_bytes_of_value(s.drop_last());
        let v = be_value(s.drop_last());
        assert((256 * v + s.last()) / 256 == v);
        assert((256 * v + s.last()) % 256 == s.last());
        assert(be_bytes(be_value(s), s.len()) =~= s);
    }
}

/// Big-endian digits have the length asked for.
pub proof fn be_bytes_len(x: int, n: nat)
    ensures
        be_bytes(x, n).len() == n,
    decreases n,
{
    if n > 0 {
        be_bytes_len(x / 256, (n - 1) as nat);
    }
}

/// The eight big-endian digits of a 64-bit number have that number as their value.
pub proof fn be_value_of_u64(x: u64)
    ensures
        be_bytes(x as int, 8).len() == 8,
        be_value(be_bytes(x as int, 8)) == x,
{
    reveal_with_fuel(be_bound, 9);
    be_value_of_digits(x as int, 8, 0x1_0000_0000_0000_0000);
    be_bytes_len(x as int, 8);
}

/// Big-endian digits of a number that fits them have that number as their value.
proof fn be_value_of_digits(x: int, n: nat, bound: int)
    requires
        0 <= x < bound,
        bound == be_bound(n),
    ensures
        be_value(be_bytes(x, n)) == x,
    decreases n,
{
    reveal_with_fuel(be_bound, 2);
    if n > 0 {
        be_value_of_digits(x / 256, (n - 1) as nat, be_bound((n - 1) as nat));
        let s = be_bytes(x, n);
        assert(s.drop_last() =~= be_bytes(x / 256, (n - 1) as nat));
    }
}

/// The number of values that `n` base-256 digits have.
spec fn be_bound(n: nat) -> int
    decreases n,
{
    if n == 0 {
        1
    } else {
        256 * be_bound((n - 1) as nat)
    }
}

/// The byte string of which `text` is the base64 text, where there is one.
pub open spec fn base64_decoded(text: Seq<u8>) -> Option<Seq<u8>> {
    if exists|d: Seq<u8>| #[trigger] base64_text(d) == text {
        Some(choose|d: Seq<u8>| #[trigger] base64_text(d) == text)
    } else {
        None
    }
}

/// A base64 text decodes to the bytes that it was made from.
pub proof fn base64_decodes(d: Seq<u8>)
    ensures
        base64_decoded(base64_text(d)) == Some(d),
{
    let chosen = choose|x: Seq<u8>| #[trigger] base64_text(x) == base64_text(d);
    base64_text_injective(chosen, d);
}

/// The value of `n` digits is one of the values that `n` digits have.
proof fn be_value_bound(s: Seq<u8>)
    ensures
        0 <= be_value(s) < be_bound(s.len()),
    decreases s.len(),
{
    if s.len() > 0 {
        be_value_bound(s.drop_last());
    }
}

/// The eight bytes of a 64-bit number, most significant first.
pub fn u64_to_be(x: u64) -> (bytes: Vec<u8>)
    ensures
        bytes@ == be_bytes(x as int, 8),
{
    let mut bytes: Vec<u8> = vec![0u8; 8];
    let mut rest: u64 = x;
    let mut i: usize = 8;
    proof {
        be_bytes_len(x as int, 8);
        assert(be_bytes(x as int, 8) =~= be_bytes(rest as int, 8) + bytes@.skip(8));
    }
    while i > 0
        invariant
            i <= 8,
            bytes@.len() == 8,
            be_bytes(x as int, 8) == be_bytes(rest as int, i as nat) + bytes@.skip(i as int),
        decreases i,
    {
        let ghost before = bytes@;
        let ghost high = be_bytes(rest as int / 256, (i - 1) as nat);
        bytes.set(i - 1, (rest % 256) as u8);
        assert(bytes@.skip(i - 1) =~= seq![(rest % 256) as u8] + before.skip(i as int));
        assert(high.push((rest % 256) as u8) + before.skip(i as int) =~= high + bytes@.skip(i - 1));
        rest = rest / 256;
        i = i - 1;
    }
    assert(be_bytes(rest as int, 0) + bytes@.skip(0) =~= bytes@);
    bytes
}

/// The 64-bit number with the given eight bytes, most significant first.
pub fn u64_from_be(bytes: &[u8]) -> (x: u64)
    requires
        bytes@.len() == 8,
    ensures
        x == be_value(bytes@),
{
    let mut x: u64 = 0;
    let mut i: usize = 0;
    proof {
        assert(bytes@.take(0) =~= Seq::<u8>::empty());
    }
    while i < 8
        invariant
            i <= 8,
            bytes@.len() == 8,
            x == be_value(bytes@.take(i as int)),
        decreases 8 - i,
    {
        proof {
            reveal_with_fuel(be_bound, 9);
            be_value_bound(bytes@.take(i as int));
            be_value_bound(bytes@.take(i + 1));
            be_bound_monotonic((i + 1) as nat, 8);
            assert(bytes@.take(i + 1).drop_last() =~= bytes@.take(i as int));
        }
        x = 256 * x + bytes[i] as u64;
        i = i + 1;
    }
    assert(bytes@.take(8) =~= bytes@);
    x
}

/// More digits have more values.
proof fn be_bound_monotonic(m: nat, n: nat)
    requires
        m <= n,
    ensures
        1 <= be_bound(m) <= be_bound(n),
    decreases n,
{
    if m < n {
        be_bound_monotonic(m, (n - 1) as nat);
    } else if n > 0 {
        be_bound_monotonic((m - 1) as nat, (n - 1) as nat);
    }
}

/// The value of eight digits is a 64-bit number.
pub proof fn be_value_fits(s: Seq<u8>)
    requires
        s.len() == 8,
    ensures
        0 <= be_value(s) <= u64::MAX,
{
    be_value_bound(s);
    reveal_with_fuel(be_bound, 9);
}

/// Big-endian digits end with the remainder of a division by 256, and start with the digits of the
/// quotient; and the value of digits goes by the same rule.
pub proof fn digits_go_by_256(x: int, n: nat, s: Seq<u8>, last: u8)
    requires
        n > 0,
    ensures
        be_bytes(x, n).len() == n,
        be_bytes(x, n).last() == x % 256,
        be_bytes(x, n).drop_last() == be_bytes(x / 256, (n - 1) as nat),
        be_value(Seq::empty()) == 0,
        be_value(s.push(last)) == 256 * be_value(s) + last,
{
    be_bytes_len(x, n);
    be_bytes_len(x / 256, (n - 1) as nat);
    assert(be_bytes(x, n).drop_last() =~= be_bytes(x / 256, (n - 1) as nat));
    assert(s.push(last).drop_last() =~= s);
}

} // verus!
