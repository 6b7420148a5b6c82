//! Texts: their order, containment of one in another, and decimal numerals.
//!
//! Order and containment are stated of characters and worked out on the
//! bytes of the UTF-8 encoding; that both come to the same is proved here.

use vstd::prelude::*;
use vstd::string::*;
use vstd::utf8::char_is_scalar;
use vstd::utf8::char_u32_cast;
use vstd::utf8::decode_utf8;
use vstd::utf8::decode_utf8_split;
use vstd::utf8::encode_scalar;
use vstd::utf8::encode_utf8;
use vstd::utf8::encode_utf8_decode_utf8;
use vstd::utf8::encode_utf8_first_scalar;
use vstd::utf8::encode_utf8_valid_utf8;
use vstd::utf8::has_width_1_encoding;
use vstd::utf8::has_width_2_encoding;
use vstd::utf8::has_width_3_encoding;
use vstd::utf8::is_char_boundary;
use vstd::utf8::is_char_boundary_iff_not_is_continuation_byte;
use vstd::utf8::is_scalar;
use vstd::utf8::length_of_first_scalar;
use vstd::utf8::pop_first_scalar;
use vstd::utf8::valid_first_scalar;
use vstd::utf8::valid_utf8;
use vstd::utf8::valid_utf8_split;

verus! {

/// The order of byte strings: the first byte that differs decides, and a
/// proper prefix comes before what it is a prefix of.
pub open spec fn lex_le(a: Seq<u8>, b: Seq<u8>) -> bool
    decreases a.len(),
{
    if a.len() == 0 {
        true
    } else if b.len() == 0 {
        false
    } else if a[0] == b[0] {
        lex_le(a.drop_first(), b.drop_first())
    } else {
        a[0] < b[0]
    }
}

/// The order of texts: the first character that differs decides, by its
/// code, and a proper beginning comes before what it is a beginning of.
pub open spec fn text_le(a: Seq<char>, b: Seq<char>) -> bool
    decreases a.len(),
{
    if a.len() == 0 {
        true
    } else if b.len() == 0 {
        false
    } else if a[0] == b[0] {
        text_le(a.drop_first(), b.drop_first())
    } else {
        (a[0] as u32) < (b[0] as u32)
    }
}

/// Where two byte strings first differ, that byte decides their order.
proof fn lemma_first_difference_decides(u: Seq<u8>, v: Seq<u8>, k: int)
    requires
        0 <= k < u.len(),
        k < v.len(),
        forall|j: int| 0 <= j < k ==> u[j] == v[j],
        u[k] != v[k],
    ensures
        lex_le(u, v) == (u[k] < v[k]),
    decreases k,
{
    if k > 0 {
        let u1 = u.drop_first();
        let v1 = v.drop_first();
        assert forall|j: int| 0 <= j < k - 1 implies u1[j] == v1[j] by {
            assert(u1[j] == u[j + 1] && v1[j] == v[j + 1]);
        }
        lemma_first_difference_decides(u1, v1, k - 1);
    }
}

/// A beginning that two byte strings share does not show in their order.
proof fn lemma_shared_beginning(e: Seq<u8>, x: Seq<u8>, y: Seq<u8>)
    ensures
        lex_le(e + x, e + y) == lex_le(x, y),
    decreases e.len(),
{
    if e.len() == 0 {
        assert(e + x =~= x);
        assert(e + y =~= y);
    } else {
        assert((e + x)[0] == (e + y)[0]);
        assert((e + x).drop_first() =~= e.drop_first() + x);
        assert((e + y).drop_first() =~= e.drop_first() + y);
        lemma_shared_beginning(e.drop_first(), x, y);
    }
}

/// A scalar of one byte is that byte.
proof fn lemma_width_1(s: u32)
    by (bit_vector)
    requires
        s <= 0x7f,
    ensures
        ((s & 0x7f) as u8) <= 0x7f,
        ((s & 0x7f) as u8) as u32 == s,
{
}

/// Of two scalars of two bytes, the smaller has the smaller first byte, or
/// the same first byte and the smaller second.
proof fn lemma_width_2(s: u32, t: u32)
    by (bit_vector)
    requires
        0x80 <= s <= 0x7ff,
        0x80 <= t <= 0x7ff,
        s < t,
    ensures
        (0xc0u8 | (((s >> 6) & 0x1f) as u8)) < (0xc0u8 | (((t >> 6) & 0x1f) as u8))
            || ((0xc0u8 | (((s >> 6) & 0x1f) as u8)) == (0xc0u8 | (((t >> 6) & 0x1f) as u8))
            && (0x80u8 | ((s & 0x3f) as u8)) < (0x80u8 | ((t & 0x3f) as u8))),
{
}

/// Of two scalars of three bytes, the smaller has the smaller byte where
/// the two first differ.
proof fn lemma_width_3(s: u32, t: u32)
    by (bit_vector)
    requires
        0x800 <= s <= 0xffff,
        0x800 <= t <= 0xffff,
        s < t,
    ensures
        (0xe0u8 | (((s >> 12) & 0x0f) as u8)) < (0xe0u8 | (((t >> 12) & 0x0f) as u8))
            || ((0xe0u8 | (((s >> 12) & 0x0f) as u8)) == (0xe0u8 | (((t >> 12) & 0x0f) as u8))
            && ((0x80u8 | (((s >> 6) & 0x3f) as u8)) < (0x80u8 | (((t >> 6) & 0x3f) as u8))
            || ((0x80u8 | (((s >> 6) & 0x3f) as u8)) == (0x80u8 | (((t >> 6) & 0x3f) as u8))
            && (0x80u8 | ((s & 0x3f) as u8)) < (0x80u8 | ((t & 0x3f) as u8))))),
{
}

/// Of two scalars of four bytes, the smaller has the smaller byte where
/// the two first differ.
proof fn lemma_width_4(s: u32, t: u32)
    by (bit_vector)
    requires
        0x10000 <= s <= 0x10ffff,
        0x10000 <= t <= 0x10ffff,
        s < t,
    ensures
        (0xf0u8 | (((s >> 18) & 0x7) as u8)) < (0xf0u8 | (((t >> 18) & 0x7) as u8))
            || ((0xf0u8 | (((s >> 18) & 0x7) as u8)) == (0xf0u8 | (((t >> 18) & 0x7) as u8))
            && ((0x80u8 | (((s >> 12) & 0x3f) as u8)) < (0x80u8 | (((t >> 12) & 0x3f) as u8))
            || ((0x80u8 | (((s >> 12) & 0x3f) as u8)) == (0x80u8 | (((t >> 12) & 0x3f) as u8))
            && ((0x80u8 | (((s >> 6) & 0x3f) as u8)) < (0x80u8 | (((t >> 6) & 0x3f) as u8))
            || ((0x80u8 | (((s >> 6) & 0x3f) as u8)) == (0x80u8 | (((t >> 6) & 0x3f) as u8))
            && (0x80u8 | ((s & 0x3f) as u8)) < (0x80u8 | ((t & 0x3f) as u8))))))),
{
}

/// The first byte of a longer encoding is larger than that of a shorter.
proof fn lemma_leading_ranges(s: u32)
    by (bit_vector)
    ensures
        0xc0 <= (0xc0u8 | (((s >> 6) & 0x1f) as u8)) <= 0xdf,
        0xe0 <= (0xe0u8 | (((s >> 12) & 0x0f) as u8)) <= 0xef,
        0xf0 <= (0xf0u8 | (((s >> 18) & 0x7) as u8)) <= 0xf7,
{
}

/// The encodings of two scalars differ first in a byte that is smaller
/// for the smaller scalar.
proof fn lemma_scalar_order(s: u32, t: u32) -> (k: int)
    requires
        is_scalar(s),
        is_scalar(t),
        s < t,
    ensures
        0 <= k < encode_scalar(s).len(),
        k < encode_scalar(t).len(),
        forall|j: int| 0 <= j < k ==> encode_scalar(s)[j] == encode_scalar(t)[j],
        encode_scalar(s)[k] < encode_scalar(t)[k],
{
    let es = encode_scalar(s);
    let et = encode_scalar(t);
    lemma_leading_ranges(s);
    lemma_leading_ranges(t);
    if has_width_1_encoding(s) {
        lemma_width_1(s);
        if has_width_1_encoding(t) {
            lemma_width_1(t);
        }
        0
    } else if has_width_2_encoding(s) {
        if has_width_2_encoding(t) {
            lemma_width_2(s, t);
            if es[0] < et[0] {
                0
            } else {
                1
            }
        } else {
            0
        }
    } else if has_width_3_encoding(s) {
        if has_width_3_encoding(t) {
            lemma_width_3(s, t);
            if es[0] < et[0] {
                0
            } else if es[1] < et[1] {
                1
            } else {
                2
            }
        } else {
            0
        }
    } else {
        lemma_width_4(s, t);
        if es[0] < et[0] {
            0
        } else if es[1] < et[1] {
            1
        } else if es[2] < et[2] {
            2
        } else {
            3
        }
    }
}

/// The order of texts is the byte order of their UTF-8 encodings, which
/// is the order Rust gives to `str`.
pub proof fn lemma_order_by_bytes(a: Seq<char>, b: Seq<char>)
    ensures
        text_le(a, b) == lex_le(encode_utf8(a), encode_utf8(b)),
    decreases a.len(),
{
    if a.len() == 0 {
    } else if b.len() == 0 {
        encode_utf8_first_scalar(a);
    } else {
        let s = a[0] as u32;
        let t = b[0] as u32;
        let x = encode_utf8(a.drop_first());
        let y = encode_utf8(b.drop_first());
        char_is_scalar(a[0]);
        char_is_scalar(b[0]);
        if a[0] == b[0] {
            lemma_shared_beginning(encode_scalar(s), x, y);
            lemma_order_by_bytes(a.drop_first(), b.drop_first());
        } else {
            char_u32_cast(a[0], s);
            char_u32_cast(b[0], t);
            assert(s != t);
            let u = encode_utf8(a);
            let v = encode_utf8(b);
            if s < t {
                let k = lemma_scalar_order(s, t);
                assert forall|j: int| 0 <= j <= k implies u[j] == encode_scalar(s)[j] && v[j]
                    == encode_scalar(t)[j] by {}
                lemma_first_difference_decides(u, v, k);
            } else {
                let k = lemma_scalar_order(t, s);
                assert forall|j: int| 0 <= j <= k implies u[j] == encode_scalar(s)[j] && v[j]
                    == encode_scalar(t)[j] by {}
                lemma_first_difference_decides(u, v, k);
            }
        }
    }
}

/// Every text is below or equal to itself.
pub proof fn lemma_text_le_reflexive(a: Seq<char>)
    ensures
        text_le(a, a),
    decreases a.len(),
{
    if a.len() > 0 {
        lemma_text_le_reflexive(a.drop_first());
    }
}

/// Of two texts one is below or equal to the other.
pub proof fn lemma_text_le_total(a: Seq<char>, b: Seq<char>)
    ensures
        text_le(a, b) || text_le(b, a),
    decreases a.len(),
{
    if a.len() > 0 && b.len() > 0 {
        if a[0] == b[0] {
            lemma_text_le_total(a.drop_first(), b.drop_first());
        } else {
            char_u32_cast(a[0], a[0] as u32);
            char_u32_cast(b[0], b[0] as u32);
        }
    }
}

/// The order of texts is transitive.
pub proof fn lemma_text_le_transitive(a: Seq<char>, b: Seq<char>, c: Seq<char>)
    requires
        text_le(a, b),
        text_le(b, c),
    ensures
        text_le(a, c),
    decreases a.len(),
{
    if a.len() > 0 && b.len() > 0 && c.len() > 0 {
        if a[0] == b[0] && b[0] == c[0] {
            lemma_text_le_transitive(a.drop_first(), b.drop_first(), c.drop_first());
        } else {
            char_u32_cast(a[0], a[0] as u32);
            char_u32_cast(b[0], b[0] as u32);
            char_u32_cast(c[0], c[0] as u32);
        }
    }
}

/// Two texts of which neither comes after the other are the same text.
pub proof fn lemma_text_le_antisymmetric(a: Seq<char>, b: Seq<char>)
    requires
        text_le(a, b),
        text_le(b, a),
    ensures
        a == b,
    decreases a.len(),
{
    if a.len() > 0 && b.len() > 0 {
        char_u32_cast(a[0], a[0] as u32);
        char_u32_cast(b[0], b[0] as u32);
        lemma_text_le_antisymmetric(a.drop_first(), b.drop_first());
        assert(a =~= seq![a[0]] + a.drop_first());
        assert(b =~= seq![b[0]] + b.drop_first());
    } else {
        assert(a =~= b);
    }
}

/// Whether `a` comes before `b`, or equals it, in the order of byte strings.
pub fn bytes_le(a: &[u8], b: &[u8]) -> (r: bool)
    ensures
        r == lex_le(a@, b@),
{
    let mut i: usize = 0;
    proof {
        assert(a@.skip(0) =~= a@);
        assert(b@.skip(0) =~= b@);
    }
    while i < a.len() && i < b.len()
        invariant
            i <= a.len(),
            i <= b.len(),
            lex_le(a@, b@) == lex_le(a@.skip(i as int), b@.skip(i as int)),
        decreases a.len() - i,
    {
        proof {
            assert(a@.skip(i as int).drop_first() =~= a@.skip(i + 1));
            assert(b@.skip(i as int).drop_first() =~= b@.skip(i + 1));
        }
        if a[i] != b[i] {
            return a[i] < b[i];
        }
        i += 1;
    }
    i == a.len()
}

/// Whether `a` comes before `b`, or equals it, in the order of texts.
pub fn str_le(a: &str, b: &str) -> (r: bool)
    ensures
        r == text_le(a@, b@),
{
    proof {
        lemma_order_by_bytes(a@, b@);
    }
    bytes_le(a.as_bytes(), b.as_bytes())
}

/// `needle` stands in `hay` at offset `at`.
pub open spec fn occurs_at(hay: Seq<u8>, needle: Seq<u8>, at: int) -> bool {
    &&& 0 <= at
    &&& at + needle.len() <= hay.len()
    &&& hay.subrange(at, at + needle.len()) == needle
}

/// `needle` stands somewhere in `hay`.
pub open spec fn occurs(hay: Seq<u8>, needle: Seq<u8>) -> bool {
    exists|at: int| occurs_at(hay, needle, at)
}

/// `needle` is a part of `hay`: its characters stand somewhere in `hay`,
/// one behind the other.
pub open spec fn text_contains(hay: Seq<char>, needle: Seq<char>) -> bool {
    exists|at: int|
        0 <= at && at + needle.len() <= hay.len() && #[trigger] hay.subrange(
            at,
            at + needle.len(),
        ) == needle
}

/// The encoding of two texts joined is their encodings joined.
pub proof fn lemma_encode_joined(a: Seq<char>, b: Seq<char>)
    ensures
        encode_utf8(a + b) == encode_utf8(a) + encode_utf8(b),
    decreases a.len(),
{
    if a.len() == 0 {
        assert(a + b =~= b);
        assert(encode_utf8(a) + encode_utf8(b) =~= encode_utf8(b));
    } else {
        assert((a + b)[0] == a[0]);
        assert((a + b).drop_first() =~= a.drop_first() + b);
        lemma_encode_joined(a.drop_first(), b);
        assert(encode_utf8(a + b) =~= encode_utf8(a) + encode_utf8(b));
    }
}

proof fn lemma_prefix_ends_on_boundary(bytes: Seq<u8>, m: int)
    requires
        valid_utf8(bytes),
        0 <= m <= bytes.len(),
        valid_utf8(bytes.subrange(0, m)),
    ensures
        is_char_boundary(bytes, m),
    decreases m,
{
    if m > 0 {
        let head = bytes.subrange(0, m);
        assert(head.len() == m);
        assert(valid_first_scalar(head));
        assert(valid_first_scalar(bytes));
        assert(head[0] == bytes[0]);
        let len = length_of_first_scalar(bytes);
        assert(len == length_of_first_scalar(head));
        assert(1 <= len <= m);
        let rest = pop_first_scalar(bytes);
        assert(pop_first_scalar(head) =~= rest.subrange(0, m - len));
        lemma_prefix_ends_on_boundary(rest, m - len);
    }
}

/// A text is a part of another just when its encoding stands somewhere in
/// the encoding of the other: an encoded text can only begin and end where
/// a character of the other begins or ends.
pub proof fn lemma_contains_by_bytes(hay: Seq<char>, needle: Seq<char>)
    ensures
        text_contains(hay, needle) <==> occurs(encode_utf8(hay), encode_utf8(needle)),
{
    let hb = encode_utf8(hay);
    let nb = encode_utf8(needle);
    if text_contains(hay, needle) {
        let at = choose|at: int|
            0 <= at && at + needle.len() <= hay.len() && #[trigger] hay.subrange(
                at,
                at + needle.len(),
            ) == needle;
        let a = hay.subrange(0, at);
        let b = hay.subrange(at + needle.len(), hay.len() as int);
        assert(hay =~= a + needle + b);
        lemma_encode_joined(a + needle, b);
        lemma_encode_joined(a, needle);
        let ab = encode_utf8(a);
        assert(hb.subrange(ab.len() as int, (ab.len() + nb.len()) as int) =~= nb);
        assert(occurs_at(hb, nb, ab.len() as int));
    }
    if occurs(hb, nb) {
        let i = choose|i: int| occurs_at(hb, nb, i);
        if needle.len() == 0 {
            assert(hay.subrange(0, 0int + needle.len()) =~= needle);
        } else {
            let m = nb.len() as int;
            encode_utf8_valid_utf8(hay);
            encode_utf8_valid_utf8(needle);
            encode_utf8_first_scalar(needle);
            assert(m >= 1);
            assert(hb.subrange(i, i + m)[0] == nb[0]);
            assert(hb[i] == nb[0]);
            is_char_boundary_iff_not_is_continuation_byte(hb, i);
            assert(is_char_boundary(hb, i));
            valid_utf8_split(hb, i);
            decode_utf8_split(hb, i);
            let p = hb.subrange(0, i);
            let q = hb.subrange(i, hb.len() as int);
            assert(q.subrange(0, m) =~= nb);
            lemma_prefix_ends_on_boundary(q, m);
            valid_utf8_split(q, m);
            decode_utf8_split(q, m);
            let a = decode_utf8(p);
            let b = decode_utf8(q.subrange(m, q.len() as int));
            encode_utf8_decode_utf8(hay);
            encode_utf8_decode_utf8(needle);
            assert(decode_utf8(q) =~= needle + b);
            assert(hay =~= a + (needle + b));
            assert(hay.subrange(a.len() as int, a.len() as int + needle.len()) =~= needle);
        }
    }
}

fn bytes_match_at(hay: &[u8], needle: &[u8], at: usize) -> (r: bool)
    requires
        at + needle.len() <= hay.len(),
    ensures
        r == occurs_at(hay@, needle@, at as int),
{
    let mut j: usize = 0;
    while j < needle.len()
        invariant
            j <= needle.len(),
            at + needle.len() <= hay.len(),
            forall|k: int| 0 <= k < j ==> hay@[at + k] == needle@[k],
        decreases needle.len() - j,
    {
        if hay[at + j] != needle[j] {
            proof {
                let part = hay@.subrange(at as int, at + needle.len());
                assert(part[j as int] == hay@[at + j]);
            }
            return false;
        }
        j += 1;
    }
    proof {
        assert(hay@.subrange(at as int, at + needle.len()) =~= needle@);
    }
    true
}

/// Whether the bytes of `needle` stand somewhere in `hay`.
pub fn bytes_contain(hay: &[u8], needle: &[u8]) -> (r: bool)
    ensures
        r == occurs(hay@, needle@),
{
    if needle.len() > hay.len() {
        return false;
    }
    let last: usize = hay.len() - needle.len();
    let mut at: usize = 0;
    loop
        invariant
            last == hay.len() - needle.len(),
            at <= last,
            forall|k: int| 0 <= k < at ==> !occurs_at(hay@, needle@, k),
        decreases last - at,
    {
        if bytes_match_at(hay, needle, at) {
            return true;
        }
        if at == last {
            return false;
        }
        at += 1;
    }
}

/// Whether `needle` is a part of `hay`.
pub fn contains(hay: &str, needle: &str) -> (r: bool)
    ensures
        r == text_contains(hay@, needle@),
{
    proof {
        lemma_contains_by_bytes(hay@, needle@);
    }
    bytes_contain(hay.as_bytes(), needle.as_bytes())
}

/// The character of a decimal digit.
pub open spec fn digit(d: nat) -> char {
    if d == 0 {
        '0'
    } else if d == 1 {
        '1'
    } else if d == 2 {
        '2'
    } else if d == 3 {
        '3'
    } else if d == 4 {
        '4'
    } else if d == 5 {
        '5'
    } else if d == 6 {
        '6'
    } else if d == 7 {
        '7'
    } else if d == 8 {
        '8'
    } else {
        '9'
    }
}

/// The decimal numeral of a number, without sign or leading zeros.
pub open spec fn decimal(n: nat) -> Seq<char>
    decreases n,
{
    if n < 10 {
        seq![digit(n)]
    } else {
        decimal(n / 10).push(digit(n % 10))
    }
}

fn digit_str(d: u64) -> (r: &'static str)
    requires
        d < 10,
    ensures
        r@ == seq![digit(d as nat)],
{
    proof {
        reveal_strlit("0");
        reveal_strlit("1");
        reveal_strlit("2");
        reveal_strlit("3");
        reveal_strlit("4");
        reveal_strlit("5");
        reveal_strlit("6");
        reveal_strlit("7");
        reveal_strlit("8");
        reveal_strlit("9");
    }
    let r = if d == 0 {
        "0"
    } else if d == 1 {
        "1"
    } else if d == 2 {
        "2"
    } else if d == 3 {
        "3"
    } else if d == 4 {
        "4"
    } else if d == 5 {
        "5"
    } else if d == 6 {
        "6"
    } else if d == 7 {
        "7"
    } else if d == 8 {
        "8"
    } else {
        "9"
    };
    assert(r@ =~= seq![digit(d as nat)]);
    r
}

/// Writes a number as its decimal numeral.
pub fn decimal_string(n: u64) -> (r: String)
    ensures
        r@ == decimal(n as nat),
    decreases n,
{
    if n < 10 {
        digit_str(n).to_owned()
    } else {
        let head = decimal_string(n / 10);
        let r = head.concat(digit_str(n % 10));
        assert(r@ =~= decimal(n as nat));
        r
    }
}

/// What `str::trim` makes of a text.
pub uninterp spec fn trimmed(text: Seq<char>) -> Seq<char>;

/// `str::trim` of the standard library, which returns the text without the
/// white space at its two ends. The contract only names that result.
#[verifier::external_body]
pub(crate) fn trim<'a>(text: &'a str) -> (r: &'a str)
    ensures
        r@ == trimmed(text@),
{
    text.trim()
}

} // verus!
