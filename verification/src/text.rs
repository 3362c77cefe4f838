//! Plain text built character by character: numbers, lists and addresses.
use vstd::prelude::*;
use vstd::string::*;

verus! {

/// The parts one after the other, with the separator between neighbours.
pub open spec fn joined(parts: Seq<Seq<char>>, separator: Seq<char>) -> Seq<char>
    decreases parts.len(),
{
    if parts.len() == 0 {
        Seq::empty()
    } else if parts.len() == 1 {
        parts[0]
    } else {
        joined(parts.drop_last(), separator) + separator + parts.last()
    }
}

/// The decimal digits of a number, without leading zeros.
pub open spec fn decimal_text(n: nat) -> Seq<char>
    decreases n,
{
    if n < 10 {
        seq![(48 + n) as char]
    } else {
        decimal_text(n / 10).push((48 + n % 10) as char)
    }
}

/// The lower-case hexadecimal digits of a number, without leading zeros.
pub open spec fn hexadecimal_text(n: nat) -> Seq<char>
    decreases n,
{
    if n < 16 {
        seq![crate::encoding::hex_digit(n as int)]
    } else {
        hexadecimal_text(n / 16).push(crate::encoding::hex_digit((n % 16) as int))
    }
}

/// The elements in decimal, with a comma and a space between them, in square brackets.
pub open spec fn byte_list_text(bytes: Seq<u8>) -> Seq<char> {
    "["@ + joined(bytes.map_values(|b: u8| decimal_text(b as nat)), ", "@) + "]"@
}

/// The four bytes of an IPv4 address in decimal, with dots between them.
pub open spec fn ipv4_text(address: Seq<u8>) -> Seq<char> {
    joined(address.map_values(|b: u8| decimal_text(b as nat)), "."@)
}

/// The eight 16-bit segments of an IPv6 address.
pub open spec fn ipv6_segments(address: Seq<u8>) -> Seq<u16> {
    Seq::new(8, |i: int| (256 * address[2 * i] + address[2 * i + 1]) as u16)
}

/// How many segments in a row are zero from position `start` on.
pub open spec fn zeros_from(segments: Seq<u16>, start: int) -> int
    decreases segments.len() - start,
{
    if 0 <= start < segments.len() && segments[start] == 0 {
        1 + zeros_from(segments, start + 1)
    } else {
        0
    }
}

/// Where the longest run of zeros starts among the first `n` positions; the first such position
/// where several runs are equally long.
pub open spec fn longest_zeros(segments: Seq<u16>, n: int) -> int
    decreases n,
{
    if n <= 1 {
        0
    } else {
        let best = longest_zeros(segments, n - 1);
        if zeros_from(segments, n - 1) > zeros_from(segments, best) {
            n - 1
        } else {
            best
        }
    }
}

/// Segments in hexadecimal, with colons between them.
pub open spec fn segments_text(segments: Seq<u16>) -> Seq<char> {
    joined(segments.map_values(|s: u16| hexadecimal_text(s as nat)), ":"@)
}

/// Whether the address is an IPv4 address mapped into IPv6.
pub open spec fn ipv4_mapped(address: Seq<u8>) -> bool {
    &&& forall|i: int| 0 <= i < 10 ==> #[trigger] address[i] == 0
    &&& address[10] == 255
    &&& address[11] == 255
}

/// The canonical text of an IPv6 address: a mapped IPv4 address in dotted form behind `::ffff:`;
/// of any other the segments, the first longest run of two or more zero segments given as `::`.
pub open spec fn ipv6_text(address: Seq<u8>) -> Seq<char> {
    let segments = ipv6_segments(address);
    let start = longest_zeros(segments, 8);
    let count = zeros_from(segments, start);
    if ipv4_mapped(address) {
        "::ffff:"@ + ipv4_text(address.skip(12))
    } else if count > 1 {
        segments_text(segments.take(start)) + "::"@ + segments_text(segments.skip(start + count))
    } else {
        segments_text(segments)
    }
}

/// Appends a number in decimal.
pub fn push_decimal(text: &mut String, n: u64)
    ensures
        final(text)@ == old(text)@ + decimal_text(n as nat),
    decreases n,
{
    if n >= 10 {
        push_decimal(text, n / 10);
    }
    let digit: u8 = 48 + (n % 10) as u8;
    text.push(digit as char);
}

/// Appends a number in lower-case hexadecimal.
pub fn push_hexadecimal(text: &mut String, n: u16)
    ensures
        final(text)@ == old(text)@ + hexadecimal_text(n as nat),
    decreases n,
{
    if n >= 16 {
        push_hexadecimal(text, n / 16);
    }
    let value: u8 = (n % 16) as u8;
    let digit: u8 = if value < 10 {
        48 + value
    } else {
        87 + value
    };
    text.push(digit as char);
}

/// A joined list grows by a separator and a part.
proof fn joined_push(parts: Seq<Seq<char>>, part: Seq<char>, separator: Seq<char>)
    ensures
        joined(parts.push(part), separator) == if parts.len() == 0 {
            part
        } else {
            joined(parts, separator) + separator + part
        },
{
    assert(parts.push(part).drop_last() =~= parts);
}

/// The characters of several texts.
pub open spec fn views(texts: Seq<String>) -> Seq<Seq<char>> {
    texts.map_values(|t: String| t@)
}

/// The texts one after the other, with the separator between neighbours.
pub fn join(texts: &[String], separator: &str) -> (text: String)
    ensures
        text@ == joined(views(texts@), separator@),
{
    let mut text = String::new();
    let mut i: usize = 0;
    while i < texts.len()
        invariant
            i <= texts@.len(),
            text@ == joined(views(texts@.take(i as int)), separator@),
        decreases texts@.len() - i,
    {
        proof {
            assert(views(texts@.take(i + 1)) =~= views(texts@.take(i as int)).push(
                texts@[i as int]@,
            ));
            joined_push(views(texts@.take(i as int)), texts@[i as int]@, separator@);
        }
        if i > 0 {
            text.append(separator);
        }
        text.append(texts[i].as_str());
        i = i + 1;
        assert(text@ =~= joined(views(texts@.take(i as int)), separator@));
    }
    assert(texts@.take(i as int) =~= texts@);
    text
}

/// Appends bytes in decimal, with a separator between them.
pub fn push_decimals(text: &mut String, bytes: &[u8], separator: &str)
    ensures
        final(text)@ == old(text)@ + joined(
            bytes@.map_values(|b: u8| decimal_text(b as nat)),
            separator@,
        ),
{
    let ghost part = |b: u8| decimal_text(b as nat);
    let mut i: usize = 0;
    while i < bytes.len()
        invariant
            i <= bytes@.len(),
            part == (|b: u8| decimal_text(b as nat)),
            text@ == old(text)@ + joined(bytes@.take(i as int).map_values(part), separator@),
        decreases bytes@.len() - i,
    {
        proof {
            assert(bytes@.take(i + 1).map_values(part) =~= bytes@.take(i as int).map_values(
                part,
            ).push(decimal_text(bytes@[i as int] as nat)));
            joined_push(
                bytes@.take(i as int).map_values(part),
                decimal_text(bytes@[i as int] as nat),
                separator@,
            );
        }
        if i > 0 {
            text.append(separator);
        }
        push_decimal(text, bytes[i] as u64);
        i = i + 1;
    }
    assert(bytes@.take(i as int) =~= bytes@);
}

/// Appends segments in hexadecimal, with colons between them.
pub fn push_segments(text: &mut String, segments: &[u16])
    ensures
        final(text)@ == old(text)@ + segments_text(segments@),
{
    let ghost part = |s: u16| hexadecimal_text(s as nat);
    let mut i: usize = 0;
    while i < segments.len()
        invariant
            i <= segments@.len(),
            part == (|s: u16| hexadecimal_text(s as nat)),
            text@ == old(text)@ + joined(segments@.take(i as int).map_values(part), ":"@),
        decreases segments@.len() - i,
    {
        proof {
            assert(segments@.take(i + 1).map_values(part) =~= segments@.take(i as int).map_values(
                part,
            ).push(hexadecimal_text(segments@[i as int] as nat)));
            joined_push(
                segments@.take(i as int).map_values(part),
                hexadecimal_text(segments@[i as int] as nat),
                ":"@,
            );
        }
        if i > 0 {
            text.append(":");
        }
        push_hexadecimal(text, segments[i]);
        i = i + 1;
    }
    assert(segments@.take(i as int) =~= segments@);
}

/// The `Debug` form of a byte vector.
pub fn byte_list(bytes: &[u8]) -> (text: String)
    ensures
        text@ == byte_list_text(bytes@),
{
    let mut text = String::new();
    text.append("[");
    push_decimals(&mut text, bytes, ", ");
    text.append("]");
    text
}

/// The text of an IPv4 address.
pub fn ipv4(address: &[u8; 4]) -> (text: String)
    ensures
        text@ == ipv4_text(address@),
{
    let mut text = String::new();
    push_decimals(&mut text, address.as_slice(), ".");
    text
}

/// A run of zeros stays inside the segments.
proof fn zeros_from_bounds(segments: Seq<u16>, start: int)
    requires
        0 <= start <= segments.len(),
    ensures
        0 <= zeros_from(segments, start) <= segments.len() - start,
    decreases segments.len() - start,
{
    if start < segments.len() && segments[start] == 0 {
        zeros_from_bounds(segments, start + 1);
    }
}

/// The start of the longest run is one of the positions looked at.
proof fn longest_zeros_bounds(segments: Seq<u16>, n: int)
    requires
        n >= 1,
    ensures
        0 <= longest_zeros(segments, n) < n,
    decreases n,
{
    if n > 1 {
        longest_zeros_bounds(segments, n - 1);
    }
}

/// No run among the first `n` positions is longer than the one that [`longest_zeros`] finds, and
/// every run as long starts at it or later.
pub proof fn longest_zeros_is_first_longest(segments: Seq<u16>, n: int, start: int)
    requires
        0 <= start < n,
    ensures
        zeros_from(segments, start) <= zeros_from(segments, longest_zeros(segments, n)),
        zeros_from(segments, start) == zeros_from(segments, longest_zeros(segments, n))
            ==> longest_zeros(segments, n) <= start,
    decreases n,
{
    if n > 1 {
        longest_zeros_bounds(segments, n - 1);
        if start < n - 1 {
            longest_zeros_is_first_longest(segments, n - 1, start);
        }
    }
}

/// How many segments in a row are zero from a position on.
fn count_zeros(segments: &[u16], start: usize) -> (count: usize)
    requires
        start <= segments@.len(),
    ensures
        count == zeros_from(segments@, start as int),
    decreases segments@.len() - start,
{
    if start < segments.len() && segments[start] == 0 {
        proof {
            zeros_from_bounds(segments@, start + 1);
        }
        1 + count_zeros(segments, start + 1)
    } else {
        0
    }
}

/// Whether an address is an IPv4 address mapped into IPv6.
fn is_ipv4_mapped(address: &[u8; 16]) -> (mapped: bool)
    ensures
        mapped == ipv4_mapped(address@),
{
    let mut i: usize = 0;
    while i < 10
        invariant
            i <= 10,
            forall|j: int| 0 <= j < i ==> #[trigger] address@[j] == 0,
        decreases 10 - i,
    {
        if address[i] != 0 {
            return false;
        }
        i = i + 1;
    }
    address[10] == 255 && address[11] == 255
}

/// The text of an IPv6 address.
pub fn ipv6(address: &[u8; 16]) -> (text: String)
    ensures
        text@ == ipv6_text(address@),
{
    let mut text = String::new();
    if is_ipv4_mapped(address) {
        text.append("::ffff:");
        let tail = vstd::slice::slice_subrange(address.as_slice(), 12, 16);
        assert(tail@ =~= address@.skip(12));
        push_decimals(&mut text, tail, ".");
        return text;
    }
    let mut segments: Vec<u16> = Vec::new();
    let mut i: usize = 0;
    while i < 8
        invariant
            i <= 8,
            segments@ == ipv6_segments(address@).take(i as int),
        decreases 8 - i,
    {
        segments.push(256 * (address[2 * i] as u16) + address[2 * i + 1] as u16);
        assert(segments@ =~= ipv6_segments(address@).take(i + 1));
        i = i + 1;
    }
    assert(segments@ =~= ipv6_segments(address@));
    let mut start: usize = 0;
    let mut count: usize = count_zeros(segments.as_slice(), 0);
    let mut n: usize = 1;
    while n < 8
        invariant
            1 <= n <= 8,
            segments@.len() == 8,
            start == longest_zeros(segments@, n as int),
            count == zeros_from(segments@, start as int),
        decreases 8 - n,
    {
        let here: usize = count_zeros(segments.as_slice(), n);
        if here > count {
            start = n;
            count = here;
        }
        n = n + 1;
    }
    proof {
        longest_zeros_bounds(segments@, 8);
        zeros_from_bounds(segments@, start as int);
    }
    if count > 1 {
        let before = vstd::slice::slice_subrange(segments.as_slice(), 0, start);
        let after = vstd::slice::slice_subrange(segments.as_slice(), start + count, 8);
        assert(before@ =~= segments@.take(start as int));
        assert(after@ =~= segments@.skip(start + count));
        push_segments(&mut text, before);
        text.append("::");
        push_segments(&mut text, after);
    } else {
        push_segments(&mut text, segments.as_slice());
    }
    text
}

/// Whether a text is made of decimal digits.
pub open spec fn all_decimal(text: Seq<char>) -> bool {
    forall|i: int| 0 <= i < text.len() ==> '0' <= #[trigger] text[i] <= '9'
}

/// The number that decimal digits stand for.
pub open spec fn decimal_value(text: Seq<char>) -> int
    decreases text.len(),
{
    if text.len() == 0 {
        0
    } else {
        10 * decimal_value(text.drop_last()) + (text.last() as int - '0' as int)
    }
}

/// A number in decimal is made of digits, of which the first is no zero unless it is the only one,
/// and reads back as the number.
pub proof fn decimals_read_back(n: nat)
    ensures
        all_decimal(decimal_text(n)),
        decimal_text(n).len() > 0,
        decimal_text(n)[0] == '0' ==> n == 0,
        n < 10 <==> decimal_text(n).len() == 1,
        decimal_value(decimal_text(n)) == n,
    decreases n,
{
    let t = decimal_text(n);
    reveal_with_fuel(decimal_value, 2);
    if n < 10 {
        assert(t.drop_last() =~= Seq::<char>::empty());
    } else {
        decimals_read_back(n / 10);
        assert(t.drop_last() =~= decimal_text(n / 10));
        assert(t[0] == decimal_text(n / 10)[0]);
    }
}

/// The number that lower-case hexadecimal digits stand for.
pub open spec fn hexadecimal_value(text: Seq<char>) -> int
    decreases text.len(),
{
    if text.len() == 0 {
        0
    } else {
        let c = text.last();
        16 * hexadecimal_value(text.drop_last()) + if c <= '9' {
            c as int - '0' as int
        } else {
            c as int - 'a' as int + 10
        }
    }
}

/// A number in hexadecimal is made of lower-case digits, of which the first is no zero unless it is
/// the only one, and reads back as the number.
pub proof fn hexadecimals_read_back(n: nat)
    ensures
        forall|i: int|
            0 <= i < hexadecimal_text(n).len() ==> '0' <= #[trigger] hexadecimal_text(n)[i] <= '9'
                || 'a' <= hexadecimal_text(n)[i] <= 'f',
        hexadecimal_text(n).len() > 0,
        hexadecimal_text(n)[0] == '0' ==> n == 0,
        n < 16 <==> hexadecimal_text(n).len() == 1,
        hexadecimal_value(hexadecimal_text(n)) == n,
    decreases n,
{
    let t = hexadecimal_text(n);
    reveal_with_fuel(hexadecimal_value, 2);
    if n < 16 {
        assert(t.drop_last() =~= Seq::<char>::empty());
    } else {
        hexadecimals_read_back(n / 16);
        assert(t.drop_last() =~= hexadecimal_text(n / 16));
        assert(t[0] == hexadecimal_text(n / 16)[0]);
    }
}

/// Lists are joined part by part: an empty list to nothing, a single part to itself, and two lists to
/// the one, a separator, and the other.
pub proof fn lists_join_part_by_part(
    a: Seq<Seq<char>>,
    b: Seq<Seq<char>>,
    part: Seq<char>,
    separator: Seq<char>,
)
    requires
        a.len() > 0,
        b.len() > 0,
    ensures
        joined(Seq::empty(), separator) == Seq::<char>::empty(),
        joined(seq![part], separator) == part,
        joined(a + b, separator) == joined(a, separator) + separator + joined(b, separator),
    decreases b.len(),
{
    assert((a + b).drop_last() =~= a + b.drop_last());
    assert((a + b).last() == b.last());
    if b.len() == 1 {
        assert(a + b.drop_last() =~= a);
        assert(joined(a + b, separator) =~= joined(a, separator) + separator + joined(
            b,
            separator,
        ));
    } else {
        lists_join_part_by_part(a, b.drop_last(), part, separator);
        assert(joined(a + b, separator) =~= joined(a, separator) + separator + joined(
            b,
            separator,
        ));
    }
}

/// What is seen of several texts is each of them, in order.
pub proof fn texts_are_seen_in_order(texts: Seq<String>)
    ensures
        views(texts).len() == texts.len(),
        forall|i: int| 0 <= i < texts.len() ==> #[trigger] views(texts)[i] == texts[i]@,
{
}

/// Texts of digits behind a separator that ends with no digit can be told from what is before them.
proof fn last_digits_are_told_apart(
    x: Seq<char>,
    p: Seq<char>,
    y: Seq<char>,
    q: Seq<char>,
    separator: Seq<char>,
)
    requires
        separator.len() > 0,
        !('0' <= separator.last() <= '9'),
        all_decimal(p),
        all_decimal(q),
        x + separator + p == y + separator + q,
    ensures
        x == y,
        p == q,
{
    let s = x + separator + p;
    let t = y + separator + q;
    let n = s.len();
    assert(s[x.len() + separator.len() - 1] == separator.last());
    assert(t[y.len() + separator.len() - 1] == separator.last());
    if p.len() < q.len() {
        assert(t[n - p.len() - 1] == q[q.len() - p.len() - 1]);
    } else if q.len() < p.len() {
        assert(s[n - q.len() - 1] == p[p.len() - q.len() - 1]);
    }
    assert(x.len() == y.len());
    assert forall|i: int| 0 <= i < x.len() implies x[i] == y[i] by {
        assert(s[i] == x[i]);
        assert(t[i] == y[i]);
    }
    assert forall|i: int| 0 <= i < p.len() implies p[i] == q[i] by {
        assert(s[x.len() + separator.len() + i] == p[i]);
        assert(t[x.len() + separator.len() + i] == q[i]);
    }
    assert(x =~= y);
    assert(p =~= q);
}

/// Lists of bytes in decimal are the same only where the bytes are.
proof fn decimals_differ(a: Seq<u8>, b: Seq<u8>, separator: Seq<char>)
    requires
        separator.len() > 0,
        !('0' <= separator.last() <= '9'),
        joined(a.map_values(|x: u8| decimal_text(x as nat)), separator) == joined(
            b.map_values(|x: u8| decimal_text(x as nat)),
            separator,
        ),
    ensures
        a == b,
    decreases a.len(),
{
    let f = |x: u8| decimal_text(x as nat);
    let s = a.map_values(f);
    let t = b.map_values(f);
    if a.len() > 0 {
        decimals_read_back(a.last() as nat);
        assert(s.last() == decimal_text(a.last() as nat));
        assert(s.drop_last() =~= a.drop_last().map_values(f));
    }
    if b.len() > 0 {
        decimals_read_back(b.last() as nat);
        assert(t.last() == decimal_text(b.last() as nat));
        assert(t.drop_last() =~= b.drop_last().map_values(f));
    }
    if a.len() == 0 || b.len() == 0 {
        assert(joined(s, separator).len() == 0);
        assert(a =~= b);
    } else if a.len() == 1 && b.len() == 1 {
        assert(a =~= b);
    } else if a.len() == 1 {
        let rest = joined(t.drop_last(), separator);
        assert(joined(t, separator)[rest.len() + separator.len() - 1] == separator.last());
    } else if b.len() == 1 {
        let rest = joined(s.drop_last(), separator);
        assert(joined(s, separator)[rest.len() + separator.len() - 1] == separator.last());
    } else {
        last_digits_are_told_apart(
            joined(s.drop_last(), separator),
            s.last(),
            joined(t.drop_last(), separator),
            t.last(),
            separator,
        );
        decimals_differ(a.drop_last(), b.drop_last(), separator);
        assert(a =~= a.drop_last().push(a.last()));
        assert(b =~= b.drop_last().push(b.last()));
    }
}

/// Two byte strings with the same list are the same.
pub proof fn byte_lists_differ(a: Seq<u8>, b: Seq<u8>)
    requires
        byte_list_text(a) == byte_list_text(b),
    ensures
        a == b,
{
    reveal_strlit("[");
    reveal_strlit("]");
    reveal_strlit(", ");
    let f = |x: u8| decimal_text(x as nat);
    let s = joined(a.map_values(f), ", "@);
    let t = joined(b.map_values(f), ", "@);
    assert(byte_list_text(a).subrange(1, 1 + s.len() as int) =~= s);
    assert(byte_list_text(b).subrange(1, 1 + t.len() as int) =~= t);
    assert(s.len() == byte_list_text(a).len() - 2);
    assert(t.len() == byte_list_text(b).len() - 2);
    assert(s =~= t);
    decimals_differ(a, b, ", "@);
}

/// An IPv4 address is told by its four bytes in decimal, with dots between them.
pub proof fn ipv4_addresses_are_dotted(address: Seq<u8>)
    requires
        address.len() == 4,
    ensures
        ipv4_text(address) == decimal_text(address[0] as nat) + "."@ + decimal_text(
            address[1] as nat,
        ) + "."@ + decimal_text(address[2] as nat) + "."@ + decimal_text(address[3] as nat),
{
    let f = |x: u8| decimal_text(x as nat);
    let parts = address.map_values(f);
    let three = parts.drop_last();
    let two = three.drop_last();
    let one = two.drop_last();
    assert(one[0] == decimal_text(address[0] as nat));
    assert(two.last() == decimal_text(address[1] as nat));
    assert(three.last() == decimal_text(address[2] as nat));
    assert(parts.last() == decimal_text(address[3] as nat));
    reveal_with_fuel(joined, 5);
}

/// Two IPv4 addresses with the same text are the same.
pub proof fn ipv4_addresses_differ(a: Seq<u8>, b: Seq<u8>)
    requires
        ipv4_text(a) == ipv4_text(b),
    ensures
        a == b,
{
    reveal_strlit(".");
    decimals_differ(a, b, "."@);
}

/// Segments are told one by one, in hexadecimal, with colons between them.
pub proof fn segments_are_told_one_by_one(a: Seq<u16>, b: Seq<u16>, segment: u16)
    requires
        a.len() > 0,
        b.len() > 0,
    ensures
        segments_text(Seq::empty()) == Seq::<char>::empty(),
        segments_text(seq![segment]) == hexadecimal_text(segment as nat),
        segments_text(a + b) == segments_text(a) + ":"@ + segments_text(b),
{
    let f = |x: u16| hexadecimal_text(x as nat);
    assert(Seq::<u16>::empty().map_values(f) =~= Seq::<Seq<char>>::empty());
    assert(seq![segment].map_values(f) =~= seq![hexadecimal_text(segment as nat)]);
    assert((a + b).map_values(f) =~= a.map_values(f) + b.map_values(f));
    lists_join_part_by_part(
        a.map_values(f),
        b.map_values(f),
        hexadecimal_text(segment as nat),
        ":"@,
    );
}

/// The run of zeros that starts at a position is a run of zeros, and ends at a segment that is none
/// or with the address.
proof fn zeros_from_is_a_run(segments: Seq<u16>, start: int)
    requires
        0 <= start <= segments.len(),
    ensures
        0 <= zeros_from(segments, start) <= segments.len() - start,
        forall|i: int|
            start <= i < start + zeros_from(segments, start) ==> #[trigger] segments[i] == 0,
        start + zeros_from(segments, start) < segments.len() ==> segments[start + zeros_from(
            segments,
            start,
        )] != 0,
    decreases segments.len() - start,
{
    if start < segments.len() && segments[start] == 0 {
        zeros_from_is_a_run(segments, start + 1);
    }
}

/// Whether so many segments from a position on are zeros.
pub open spec fn is_run(segments: Seq<u16>, start: int, count: int) -> bool {
    &&& 0 <= start
    &&& 0 <= count
    &&& start + count <= segments.len()
    &&& forall|i: int| start <= i < start + count ==> #[trigger] segments[i] == 0
}

/// A run of zeros is no longer than the zeros from its start on.
proof fn runs_are_counted(segments: Seq<u16>, start: int, count: int)
    requires
        is_run(segments, start, count),
    ensures
        count <= zeros_from(segments, start),
    decreases count,
{
    if count > 0 {
        assert(segments[start] == 0);
        runs_are_counted(segments, start + 1, count - 1);
    } else {
        zeros_from_is_a_run(segments, start);
    }
}

/// An IPv6 address is told in its canonical form. An address that has an IPv4 address mapped into it
/// is told by that one, dotted, behind `::ffff:`. Any other is told by its eight segments of two
/// bytes each, except that one run of zeros of two or more, if there is any, is told as `::`: a
/// longest one, and the first of those.
pub proof fn ipv6_addresses_are_canonical(address: Seq<u8>) -> (run: (int, int))
    requires
        address.len() == 16,
    ensures
        ({
            let segments = ipv6_segments(address);
            let (start, count) = run;
            let mapped = (forall|i: int| 0 <= i < 10 ==> #[trigger] address[i] == 0) && address[10]
                == 255 && address[11] == 255;
            &&& segments.len() == 8
            &&& forall|i: int|
                0 <= i < 8 ==> #[trigger] segments[i] == 256 * address[2 * i] + address[2 * i + 1]
            &&& mapped ==> ipv6_text(address) == "::ffff:"@ + ipv4_text(address.skip(12))
            &&& is_run(segments, start, count)
            &&& forall|s: int, c: int| #[trigger] is_run(segments, s, c) ==> c <= count
            &&& forall|s: int| #[trigger] is_run(segments, s, count) && count > 0 ==> start <= s
            &&& !mapped && count < 2 ==> ipv6_text(address) == segments_text(segments)
            &&& !mapped && count >= 2 ==> ipv6_text(address) == segments_text(segments.take(start))
                + "::"@ + segments_text(segments.skip(start + count))
        }),
{
    let segments = ipv6_segments(address);
    let start = longest_zeros(segments, 8);
    let count = zeros_from(segments, start);
    longest_zeros_bounds(segments, 8);
    zeros_from_is_a_run(segments, start);
    assert forall|s: int, c: int| #[trigger] is_run(segments, s, c) implies c <= count by {
        if s < 8 {
            runs_are_counted(segments, s, c);
            longest_zeros_is_first_longest(segments, 8, s);
        }
    }
    assert forall|s: int| #[trigger] is_run(segments, s, count) && count > 0 implies start
        <= s by {
        runs_are_counted(segments, s, count);
        longest_zeros_is_first_longest(segments, 8, s);
    }
    (start, count)
}

/// A list of bytes is told in square brackets, each byte in decimal, with a comma and a space between
/// two of them.
pub proof fn byte_lists_are_told_in_brackets(a: Seq<u8>, b: Seq<u8>, byte: u8)
    requires
        a.len() > 0,
        b.len() > 0,
    ensures
        byte_list_text(Seq::empty()) == "[]"@,
        byte_list_text(seq![byte]) == "["@ + decimal_text(byte as nat) + "]"@,
        byte_list_text(a + b) == byte_list_text(a).drop_last() + ", "@ + byte_list_text(b).skip(1),
{
    let f = |x: u8| decimal_text(x as nat);
    reveal_strlit("[");
    reveal_strlit("]");
    reveal_strlit("[]");
    assert(Seq::<u8>::empty().map_values(f) =~= Seq::<Seq<char>>::empty());
    assert(byte_list_text(Seq::empty()) =~= "[]"@);
    assert(seq![byte].map_values(f) =~= seq![decimal_text(byte as nat)]);
    assert((a + b).map_values(f) =~= a.map_values(f) + b.map_values(f));
    lists_join_part_by_part(a.map_values(f), b.map_values(f), decimal_text(byte as nat), ", "@);
    let x = joined(a.map_values(f), ", "@);
    let y = joined(b.map_values(f), ", "@);
    assert(byte_list_text(a).drop_last() =~= "["@ + x);
    assert(byte_list_text(b).skip(1) =~= y + "]"@);
    assert(byte_list_text(a + b) =~= ("["@ + x) + ", "@ + (y + "]"@));
}

} // verus!
