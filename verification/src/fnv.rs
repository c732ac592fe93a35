//! The hash by which prometheus tells names and label values apart: 64-bit FNV-1a.
use vstd::prelude::*;

verus! {

/// The hash of nothing.
pub const BASIS: u64 = 0xcbf29ce484222325;

/// The hash after one more byte.
pub open spec fn hash_byte(hash: u64, byte: u8) -> u64 {
    ((hash ^ (byte as u64)) * 0x100000001b3u64) as u64
}

/// The hash after more bytes.
pub open spec fn hash_bytes(hash: u64, bytes: Seq<u8>) -> u64
    decreases bytes.len(),
{
    if bytes.len() == 0 {
        hash
    } else {
        hash_bytes(hash_byte(hash, bytes[0]), bytes.drop_first())
    }
}

/// The hash of a text, in UTF-8, and of the byte that ends it.
pub open spec fn name_hash(name: Seq<char>) -> u64 {
    hash_byte(hash_bytes(BASIS, vstd::utf8::encode_utf8(name)), 0xff)
}

/// The hash of several texts, in UTF-8, one right after the other.
pub open spec fn values_hash(values: Seq<Seq<char>>) -> u64
    decreases values.len(),
{
    if values.len() == 0 {
        BASIS
    } else {
        hash_bytes(values_hash(values.drop_last()), vstd::utf8::encode_utf8(values.last()))
    }
}

/// The hash after the characters of an ASCII text from `i` on.
pub open spec fn hash_ascii(hash: u64, text: Seq<char>, i: int) -> u64
    decreases text.len() - i,
{
    if i < 0 || i >= text.len() {
        hash
    } else {
        hash_ascii(hash_byte(hash, text[i] as u8), text, i + 1)
    }
}

/// Whether a text is ASCII.
pub open spec fn is_ascii(text: Seq<char>) -> bool {
    forall|i: int| 0 <= i < text.len() ==> 0 <= (#[trigger] text[i]) as int <= 0x7f
}

/// In UTF-8, an ASCII character is the byte of its number.
pub proof fn lemma_hash_ascii(hash: u64, text: Seq<char>, i: int)
    requires
        is_ascii(text),
        0 <= i <= text.len(),
    ensures
        hash_bytes(hash, vstd::utf8::encode_utf8(text.skip(i))) == hash_ascii(hash, text, i),
    decreases text.len() - i,
{
    let rest = text.skip(i);
    if i < text.len() {
        let c = text[i];
        let byte = c as u8;
        assert(rest[0] == c);
        assert(rest.drop_first() =~= text.skip(i + 1));
        assert(vstd::utf8::encode_scalar(c as u32) =~= seq![byte]) by {
            let n = c as u32;
            assert(n == c as int && byte == c as int);
            assert(n & 0x7f == n) by (bit_vector)
                requires
                    n <= 0x7f,
            ;
        }
        assert(vstd::utf8::encode_utf8(rest) =~= seq![byte] + vstd::utf8::encode_utf8(text.skip(i + 1)));
        assert(vstd::utf8::encode_utf8(rest).drop_first() =~= vstd::utf8::encode_utf8(text.skip(i + 1)));
        lemma_hash_ascii(hash_byte(hash, byte), text, i + 1);
    } else {
        assert(rest.len() == 0);
        assert(vstd::utf8::encode_utf8(rest).len() == 0);
    }
}

/// A text is hashed after another by going on with its hash.
pub proof fn lemma_hash_append(hash: u64, text: Seq<char>, more: Seq<char>, i: int)
    requires
        0 <= i <= text.len(),
    ensures
        hash_ascii(hash, text + more, i) == hash_ascii(hash_ascii(hash, text, i), more, 0),
    decreases text.len() - i,
{
    if i < text.len() {
        lemma_hash_append(hash_byte(hash, text[i] as u8), text, more, i + 1);
    } else {
        lemma_hash_shift(hash, text, more, 0);
    }
}

/// What stands before the rest of a text does not matter to its hash.
proof fn lemma_hash_shift(hash: u64, text: Seq<char>, more: Seq<char>, i: int)
    requires
        0 <= i <= more.len(),
    ensures
        hash_ascii(hash, text + more, text.len() + i) == hash_ascii(hash, more, i),
    decreases more.len() - i,
{
    if i < more.len() {
        lemma_hash_shift(hash_byte(hash, more[i] as u8), text, more, i + 1);
    }
}

} // verus!
