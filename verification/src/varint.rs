//! Base-128 variable-length integers, as the invite wire format uses them.
//!
//! A value is emitted least-significant group first, seven bits per byte;
//! every byte except the last has its high bit set.

use vstd::prelude::*;

verus! {

/// The byte sequence that encodes `n`.
pub open spec fn varint_bytes(n: nat) -> Seq<u8>
    decreases n,
{
    if n < 128 {
        seq![n as u8]
    } else {
        seq![(128 + (n % 128)) as u8] + varint_bytes(n / 128)
    }
}

/// Reads one varint from the front of `b`: the value and what follows it,
/// or `None` when `b` is empty or ends inside the varint.
pub open spec fn take_varint(b: Seq<u8>) -> Option<(nat, Seq<u8>)>
    decreases b.len(),
{
    if b.len() == 0 {
        None
    } else if b[0] < 128 {
        Some((b[0] as nat, b.skip(1)))
    } else {
        match take_varint(b.skip(1)) {
            Some((hi, rest)) => Some(((b[0] - 128) as nat + 128 * hi, rest)),
            None => None,
        }
    }
}

/// A successful read consumes at least one byte.
pub proof fn lemma_take_varint_shrinks(b: Seq<u8>)
    ensures
        take_varint(b) matches Some(r) ==> r.1.len() < b.len(),
    decreases b.len(),
{
    if b.len() > 0 && b[0] >= 128 {
        lemma_take_varint_shrinks(b.skip(1));
    }
}

/// Decoding inverts encoding, whatever follows the varint.
pub proof fn lemma_varint_round_trip(n: nat, rest: Seq<u8>)
    ensures
        take_varint(varint_bytes(n) + rest) == Some((n, rest)),
    decreases n,
{
    let whole = varint_bytes(n) + rest;
    if n < 128 {
        assert(whole[0] == n as u8);
        assert(whole.skip(1) =~= rest);
    } else {
        lemma_varint_round_trip(n / 128, rest);
        assert(whole[0] == (128 + (n % 128)) as u8);
        assert(whole.skip(1) =~= varint_bytes(n / 128) + rest);
        assert((whole[0] - 128) as nat + 128 * (n / 128) == n);
    }
}

/// Appends the encoding of `n` to `out`.
pub fn push_varint(out: &mut Vec<u8>, n: u64)
    ensures
        final(out)@ == old(out)@ + varint_bytes(n as nat),
{
    let mut v: u64 = n;
    while v >= 128
        invariant
            out@ + varint_bytes(v as nat) == old(out)@ + varint_bytes(n as nat),
        decreases v,
    {
        out.push(((v % 128) + 128) as u8);
        v = v / 128;
    }
    out.push(v as u8);
    assert(varint_bytes(v as nat) =~= seq![v as u8]);
}

/// Reads one varint starting at `pos`: the value and the position just past
/// it. `None` means the bytes are malformed there, or the value does not fit
/// in 64 bits.
pub fn read_varint(b: &Vec<u8>, pos: usize) -> (r: Option<(u64, usize)>)
    requires
        pos <= b@.len(),
    ensures
        r matches Some(p) ==> {
            &&& pos < p.1 <= b@.len()
            &&& take_varint(b@.skip(pos as int)) == Some((p.0 as nat, b@.skip(p.1 as int)))
        },
        r is None ==> (match take_varint(b@.skip(pos as int)) {
            None => true,
            Some(p) => p.0 > u64::MAX,
        }),
    decreases b@.len() - pos,
{
    if pos >= b.len() {
        assert(b@.skip(pos as int) =~= Seq::<u8>::empty());
        return None;
    }
    let byte = b[pos];
    let ghost tail = b@.skip(pos as int);
    assert(tail[0] == byte);
    if byte < 128 {
        assert(tail.skip(1) =~= b@.skip(pos as int + 1));
        Some((byte as u64, pos + 1))
    } else {
        assert(tail.skip(1) =~= b@.skip(pos as int + 1));
        match read_varint(b, pos + 1) {
            None => None,
            Some((hi, next)) => {
                let low: u64 = (byte - 128) as u64;
                if hi > (u64::MAX - low) / 128 {
                    proof {
                        let spec_hi = take_varint(tail.skip(1)).unwrap().0;
                        assert(spec_hi == hi as nat);
                        assert(low as nat + 128 * spec_hi > u64::MAX) by (nonlinear_arith)
                            requires
                                spec_hi > ((u64::MAX - low) / 128) as nat,
                                low < 128,
                                u64::MAX - low >= 128 * ((u64::MAX - low) / 128),
                        {}
                    }
                    None
                } else {
                    proof {
                        assert(low + 128 * hi <= u64::MAX) by (nonlinear_arith)
                            requires
                                hi <= (u64::MAX - low) / 128,
                                low < 128,
                                u64::MAX - low >= 128 * ((u64::MAX - low) / 128),
                        {}
                    }
                    Some((low + 128 * hi, next))
                }
            },
        }
    }
}

} // verus!
