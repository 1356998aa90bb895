//! The machine's byte order: learned once from `to_ne_bytes`, then used to
//! encode and decode integers the way the machine lays them out.
use vstd::bytes::{spec_u16_to_le_bytes, spec_u32_from_le_bytes, spec_u32_to_le_bytes, spec_u64_to_le_bytes};
use vstd::prelude::*;

verus! {

/// The order in which the machine lays out the bytes of an integer.
#[derive(Clone, Copy, Debug, PartialEq, Eq, Structural)]
pub enum ByteOrder {
    Little,
    Big,
}

/// `b` is the machine-order encoding of `v`: little- or big-endian.
pub open spec fn is_ne_bytes(v: u64, b: Seq<u8>) -> bool {
    b == spec_u64_to_le_bytes(v) || b == spec_u64_to_le_bytes(v).reverse()
}

/// `u64::to_ne_bytes`: the eight bytes of `v` in the machine's byte order,
/// which std documents as the platform's native order; that order is
/// little- or big-endian, and nothing here says which.
#[verifier::external_body]
pub(crate) fn u64_to_ne_bytes(v: u64) -> (r: [u8; 8])
    ensures
        is_ne_bytes(v, r@),
{
    v.to_ne_bytes()
}

/// The eight bytes of `v` in byte order `o`.
pub open spec fn u64_bytes(v: u64, o: ByteOrder) -> Seq<u8> {
    in_order(spec_u64_to_le_bytes(v), o)
}

/// The word that four bytes `b` encode in byte order `o`.
pub open spec fn u32_from_bytes(b: Seq<u8>, o: ByteOrder) -> u32 {
    match o {
        ByteOrder::Little => spec_u32_from_le_bytes(b),
        ByteOrder::Big => spec_u32_from_le_bytes(b.reverse()),
    }
}

/// The machine's byte order, read off the bytes that `u64::to_ne_bytes`
/// gives for 1: which of the two it is depends on the machine.
pub fn machine_byte_order() -> (r: ByteOrder) {
    let one = u64_to_ne_bytes(1);
    if one[0] == 1 {
        ByteOrder::Little
    } else {
        ByteOrder::Big
    }
}

pub proof fn lemma_u64_bytes_len(v: u64, o: ByteOrder)
    ensures
        u64_bytes(v, o).len() == 8,
{
    vstd::bytes::lemma_auto_spec_u64_to_from_le_bytes();
}

/// Little-endian bytes `le` put in byte order `o`.
pub open spec fn in_order(le: Seq<u8>, o: ByteOrder) -> Seq<u8> {
    match o {
        ByteOrder::Little => le,
        ByteOrder::Big => le.reverse(),
    }
}

/// The two bytes of `v` in byte order `o`.
pub open spec fn u16_bytes(v: u16, o: ByteOrder) -> Seq<u8> {
    in_order(spec_u16_to_le_bytes(v), o)
}

/// The four bytes of `v` in byte order `o`.
pub open spec fn u32_bytes(v: u32, o: ByteOrder) -> Seq<u8> {
    in_order(spec_u32_to_le_bytes(v), o)
}

/// Puts the little-endian bytes `le` in byte order `o`.
fn put_in_order(le: Vec<u8>, o: ByteOrder) -> (r: Vec<u8>)
    ensures
        r@ == in_order(le@, o),
{
    match o {
        ByteOrder::Little => le,
        ByteOrder::Big => {
            let mut r: Vec<u8> = Vec::new();
            let mut i: usize = le.len();
            while i > 0
                invariant
                    i <= le@.len(),
                    r@ == le@.subrange(i as int, le@.len() as int).reverse(),
                decreases i,
            {
                i -= 1;
                r.push(le[i]);
                proof {
                    assert(r@ =~= le@.subrange(i as int, le@.len() as int).reverse());
                }
            }
            proof {
                assert(le@.subrange(0, le@.len() as int) =~= le@);
            }
            r
        },
    }
}

/// The eight bytes of `v` in byte order `o`.
pub fn encode_u64(v: u64, o: ByteOrder) -> (r: Vec<u8>)
    ensures
        r@ == u64_bytes(v, o),
{
    put_in_order(vstd::bytes::u64_to_le_bytes(v), o)
}

/// The four bytes of `v` in byte order `o`.
pub fn encode_u32(v: u32, o: ByteOrder) -> (r: Vec<u8>)
    ensures
        r@ == u32_bytes(v, o),
        r@.len() == 4,
{
    let le = vstd::bytes::u32_to_le_bytes(v);
    put_in_order(le, o)
}

/// The two bytes of `v` in byte order `o`.
pub fn encode_u16(v: u16, o: ByteOrder) -> (r: Vec<u8>)
    ensures
        r@ == u16_bytes(v, o),
        r@.len() == 2,
{
    let le = vstd::bytes::u16_to_le_bytes(v);
    put_in_order(le, o)
}

/// The word that four bytes `b` encode in byte order `o`.
pub fn decode_u32(b: [u8; 4], o: ByteOrder) -> (r: u32)
    ensures
        r == u32_from_bytes(b@, o),
{
    match o {
        ByteOrder::Little => vstd::bytes::u32_from_le_bytes(b.as_slice()),
        ByteOrder::Big => {
            let rev: [u8; 4] = [b[3], b[2], b[1], b[0]];
            proof {
                assert(rev@ =~= b@.reverse());
            }
            vstd::bytes::u32_from_le_bytes(rev.as_slice())
        },
    }
}

} // verus!
