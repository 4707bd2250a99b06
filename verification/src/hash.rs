//! Labels that tell texts apart without showing them.
use std::collections::hash_map::DefaultHasher;
use std::hash::{Hash, Hasher};

use vstd::endian::endianness;
use vstd::prelude::*;
use vstd::std_specs::hash::DefaultHasherAdditionalSpecFns;
use vstd::string::*;
use vstd::utf8::encode_utf8;

use crate::numeral::{hexadecimal, push_hexadecimal};

verus! {

/// What `Hash::hash` on a byte slice writes to a hasher. It depends on the bytes and, as the
/// documentation of `Hash` has it, on the width of `usize` and on the byte order.
pub uninterp spec fn slice_hash_input(bytes: Seq<u8>, usize_bits: nat, big_endian: bool) -> Seq<
    Seq<u8>,
>;

/// Calls `<[u8] as Hash>::hash`. The contract claims that what it writes to the hasher is a
/// function of the bytes, on machines of one width and one byte order.
#[verifier::external_body]
fn write_slice(bytes: &[u8], hasher: &mut DefaultHasher)
    ensures
        final(hasher)@ == old(hasher)@ + slice_hash_input(
            bytes@,
            usize::BITS as nat,
            endianness() is Big,
        ),
{
    bytes.hash(hasher)
}

/// The label of a digest: `hash_` and the digest in sixteen hexadecimal digits.
pub open spec fn digest_label(digest: u64) -> Seq<char> {
    "hash_"@ + hexadecimal(digest as nat, 16)
}

/// The label of the digest of some bytes, on this machine.
pub open spec fn bytes_label(bytes: Seq<u8>) -> Seq<char> {
    digest_label(
        DefaultHasher::spec_finish(
            slice_hash_input(bytes, usize::BITS as nat, endianness() is Big),
        ),
    )
}

/// The label of a text: that of its bytes.
pub open spec fn text_label(text: Seq<char>) -> Seq<char> {
    bytes_label(encode_utf8(text))
}

/// Writes a digest as a label.
pub fn label_digest(digest: u64) -> (label: String)
    ensures
        label@ == digest_label(digest),
{
    let mut label = "hash_".to_string();
    push_hexadecimal(&mut label, digest, 16);
    label
}

/// The label of some bytes.
pub fn hash_bytes_hex(bytes: &[u8]) -> (label: String)
    ensures
        label@ == bytes_label(bytes@),
{
    let mut hasher = DefaultHasher::new();
    write_slice(bytes, &mut hasher);
    proof {
        let input = slice_hash_input(bytes@, usize::BITS as nat, endianness() is Big);
        assert(Seq::<Seq<u8>>::empty() + input =~= input);
    }
    label_digest(hasher.finish())
}

/// The label of a text.
pub fn hash_text_hex(raw: &str) -> (label: String)
    ensures
        label@ == text_label(raw@),
{
    hash_bytes_hex(raw.as_bytes())
}

} // verus!
