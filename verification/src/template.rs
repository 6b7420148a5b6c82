//! Templates of addresses: a text with a mark where a station's id goes.

use crate::text::lemma_encode_joined;
use vstd::prelude::*;
use vstd::string::*;
use vstd::utf8::decode_utf8_split;
use vstd::utf8::encode_utf8;
use vstd::utf8::encode_utf8_decode_utf8;
use vstd::utf8::encode_utf8_first_scalar;
use vstd::utf8::encode_utf8_valid_utf8;
use vstd::utf8::is_ascii_chars_encode_utf8;
use vstd::utf8::is_char_boundary;
use vstd::utf8::is_char_boundary_iff_not_is_continuation_byte;
use vstd::utf8::valid_utf8;
use vstd::utf8::valid_utf8_split;

verus! {

/// The mark that stands for the id.
pub const ID_MARK: &'static str = "{}";

/// The mark stands in `template` from the character with index `at` on.
pub open spec fn marked_at(template: Seq<char>, at: int) -> bool {
    &&& 0 <= at
    &&& at + ID_MARK@.len() <= template.len()
    &&& template.subrange(at, at + ID_MARK@.len()) == ID_MARK@
}

/// What a template is split into: nothing if it holds no mark; else what
/// stands before its first mark and what stands behind that mark.
pub open spec fn is_split(template: Seq<char>, r: Option<(Seq<char>, Seq<char>)>) -> bool {
    match r {
        None => forall|at: int| !marked_at(template, at),
        Some((before, after)) => {
            &&& template == before + ID_MARK@ + after
            &&& forall|at: int| 0 <= at < before.len() ==> !marked_at(template, at)
        },
    }
}

spec fn mark_bytes_at(bytes: Seq<u8>, at: int) -> bool {
    &&& 0 <= at
    &&& at + 2 <= bytes.len()
    &&& bytes[at] == 0x7b
    &&& bytes[at + 1] == 0x7d
}

proof fn lemma_mark_bytes()
    ensures
        ID_MARK@.len() == 2,
        encode_utf8(ID_MARK@) == seq![0x7bu8, 0x7du8],
{
    reveal_strlit("{}");
    assert(ID_MARK@ =~= seq!['{', '}']);
    is_ascii_chars_encode_utf8(ID_MARK@);
    assert(encode_utf8(ID_MARK@) =~= seq![0x7bu8, 0x7du8]);
}

/// Where the mark stands in a template, its two bytes stand in the
/// template's encoding, behind the encoding of what comes before.
proof fn lemma_mark_in_bytes(template: Seq<char>, at: int)
    requires
        marked_at(template, at),
    ensures
        mark_bytes_at(encode_utf8(template), encode_utf8(template.subrange(0, at)).len() as int),
{
    lemma_mark_bytes();
    let a = template.subrange(0, at);
    let b = template.subrange(at + 2, template.len() as int);
    assert(template =~= a + ID_MARK@ + b);
    lemma_encode_joined(a + ID_MARK@, b);
    lemma_encode_joined(a, ID_MARK@);
}

/// A proper beginning of a text has a shorter encoding than the text.
proof fn lemma_shorter_beginning(text: Seq<char>, at: int)
    requires
        0 <= at < text.len(),
    ensures
        encode_utf8(text.subrange(0, at)).len() < encode_utf8(text).len(),
{
    let a = text.subrange(0, at);
    let b = text.subrange(at, text.len() as int);
    assert(text =~= a + b);
    lemma_encode_joined(a, b);
    encode_utf8_first_scalar(b);
}

/// Splits a template at its first mark into what stands before the mark
/// and what stands behind it. A template without a mark gives `None`.
pub fn split_template(template: &str) -> (r: Option<(String, String)>)
    ensures
        is_split(
            template@,
            match r {
                Some((before, after)) => Some((before@, after@)),
                None => None,
            },
        ),
{
    let bytes = template.as_bytes();
    let n: usize = bytes.len();
    let mut at: usize = 0;
    while n - at > 1
        invariant
            n == bytes@.len(),
            at <= n,
            bytes@ == encode_utf8(template@),
            forall|k: int| 0 <= k < at ==> !mark_bytes_at(bytes@, k),
        decreases n - at,
    {
        if bytes[at] == 0x7b && bytes[at + 1] == 0x7d {
            proof {
                encode_utf8_valid_utf8(template@);
                is_char_boundary_iff_not_is_continuation_byte(bytes@, at as int);
            }
            let (before, rest) = template.split_at(at);
            proof {
                let rb = rest.spec_bytes();
                valid_utf8_split(bytes@, at as int);
                assert(rb =~= bytes@.subrange(at as int, n as int));
                assert(rb[0] == 0x7b && rb[1] == 0x7d);
                reveal_with_fuel(is_char_boundary, 3);
                reveal_with_fuel(valid_utf8, 3);
                assert(is_char_boundary(rb, 2));
            }
            let (mark, after) = rest.split_at(2);
            proof {
                let rb = rest.spec_bytes();
                lemma_mark_bytes();
                assert(mark.spec_bytes() =~= seq![0x7bu8, 0x7du8]);
                encode_utf8_decode_utf8(template@);
                encode_utf8_decode_utf8(before@);
                encode_utf8_decode_utf8(rest@);
                encode_utf8_decode_utf8(mark@);
                encode_utf8_decode_utf8(after@);
                encode_utf8_decode_utf8(ID_MARK@);
                decode_utf8_split(bytes@, at as int);
                encode_utf8_valid_utf8(rest@);
                decode_utf8_split(rb, 2);
                assert(mark@ == ID_MARK@);
                assert(rest@ =~= mark@ + after@);
                assert(template@ =~= before@ + rest@);
                assert(template@ =~= before@ + ID_MARK@ + after@);
                assert(encode_utf8(before@).len() == at);
                assert forall|k: int| 0 <= k < before@.len() implies !marked_at(
                    template@,
                    k,
                ) by {
                    if marked_at(template@, k) {
                        lemma_mark_in_bytes(template@, k);
                        assert(template@.subrange(0, k) =~= before@.subrange(0, k));
                        lemma_shorter_beginning(before@, k);
                    }
                }
            }
            return Some((before.to_owned(), after.to_owned()));
        }
        at += 1;
    }
    proof {
        assert forall|k: int| !marked_at(template@, k) by {
            if marked_at(template@, k) {
                lemma_mark_in_bytes(template@, k);
                let j = encode_utf8(template@.subrange(0, k)).len() as int;
                assert(mark_bytes_at(bytes@, j));
                assert(j < at);
            }
        }
    }
    None
}

} // verus!
