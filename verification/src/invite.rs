//! The invite wire format.
//!
//! An invite is a portable bearer credential: a two-field binary message
//! holding a shared secret and the target host's public key, each a
//! length-delimited bytes field (field 1 and field 2 of a protocol-buffer
//! message). A field left empty is omitted; unknown fields are skipped, so
//! a decoder tolerates additions. The text form of an invite is the base-58
//! encoding of these bytes (see [`crate::b58_fingerprint`]).

use vstd::prelude::*;
use crate::base58::{b58_of, b58_encode, b58_decode};
use crate::b58_fingerprint::{compressed_point_of, fingerprint_of};
use crate::errors::SignalingError;
use crate::varint::{varint_bytes, take_varint, lemma_take_varint_shrinks, lemma_varint_round_trip,
    push_varint, read_varint};

verus! {

/// An invite's contents: a shared secret and the host's public key,
/// both raw bytes.
#[derive(Debug, PartialEq, Eq)]
pub struct InviteCode {
    pub secret: Vec<u8>,
    pub host_public_key: Vec<u8>,
}

/// What an [`InviteCode`] holds, mathematically.
#[verifier::ext_equal]
pub struct InviteContents {
    pub secret: Seq<u8>,
    pub host_public_key: Seq<u8>,
}

impl View for InviteCode {
    type V = InviteContents;

    open spec fn view(&self) -> InviteContents {
        InviteContents { secret: self.secret@, host_public_key: self.host_public_key@ }
    }
}

impl InviteContents {
    /// An invite with both fields empty: what decoding starts from.
    pub open spec fn empty() -> InviteContents {
        InviteContents { secret: Seq::empty(), host_public_key: Seq::empty() }
    }
}

/// One length-delimited field: tag byte, length, payload. An empty payload
/// is not emitted at all.
pub open spec fn field_bytes(tag: u8, data: Seq<u8>) -> Seq<u8> {
    if data.len() == 0 {
        Seq::empty()
    } else {
        seq![tag] + varint_bytes(data.len()) + data
    }
}

/// The canonical encoding of an invite: field 1 (secret), then field 2
/// (host public key), empty fields omitted.
pub open spec fn spec_encode_invite(m: InviteContents) -> Seq<u8> {
    field_bytes(0x0a, m.secret) + field_bytes(0x12, m.host_public_key)
}

/// Decodes the fields of `b` into `acc`, last occurrence of a field winning.
/// `None` means malformed: a truncated field, a varint over 64 bits, or a
/// wire type this format never uses.
pub open spec fn spec_decode_fields(b: Seq<u8>, acc: InviteContents) -> Option<InviteContents>
    decreases b.len(),
    via spec_decode_fields_decreases
{
    if b.len() == 0 {
        Some(acc)
    } else {
        match take_varint(b) {
            None => None,
            Some((key, rest)) => {
                if key > u64::MAX {
                    None
                } else if key % 8 == 2 {
                    match take_varint(rest) {
                        None => None,
                        Some((len, rest2)) => {
                            if len > u64::MAX || rest2.len() < len {
                                None
                            } else {
                                let data = rest2.take(len as int);
                                let rest3 = rest2.skip(len as int);
                                if key / 8 == 1 {
                                    spec_decode_fields(rest3, InviteContents { secret: data, ..acc })
                                } else if key / 8 == 2 {
                                    spec_decode_fields(rest3, InviteContents { host_public_key: data, ..acc })
                                } else {
                                    spec_decode_fields(rest3, acc)
                                }
                            }
                        },
                    }
                } else if key % 8 == 0 {
                    match take_varint(rest) {
                        None => None,
                        Some((v, rest2)) => {
                            if v > u64::MAX {
                                None
                            } else {
                                spec_decode_fields(rest2, acc)
                            }
                        },
                    }
                } else if key % 8 == 1 {
                    if rest.len() < 8 {
                        None
                    } else {
                        spec_decode_fields(rest.skip(8), acc)
                    }
                } else if key % 8 == 5 {
                    if rest.len() < 4 {
                        None
                    } else {
                        spec_decode_fields(rest.skip(4), acc)
                    }
                } else {
                    None
                }
            },
        }
    }
}

#[via_fn]
proof fn spec_decode_fields_decreases(b: Seq<u8>, acc: InviteContents) {
    lemma_take_varint_shrinks(b);
    if b.len() > 0 {
        match take_varint(b) {
            Some((key, rest)) => lemma_take_varint_shrinks(rest),
            None => (),
        }
    }
}

/// What a byte string decodes to as an invite, starting from empty fields.
pub open spec fn spec_decode_invite(b: Seq<u8>) -> Option<InviteContents> {
    spec_decode_fields(b, InviteContents::empty())
}

/// Appends all of `data` to `out`.
fn push_bytes(out: &mut Vec<u8>, data: &Vec<u8>)
    ensures
        final(out)@ == old(out)@ + data@,
{
    let mut i: usize = 0;
    while i < data.len()
        invariant
            i <= data@.len(),
            out@ == old(out)@ + data@.take(i as int),
        decreases data@.len() - i,
    {
        out.push(data[i]);
        assert(data@.take(i as int) + seq![data@[i as int]] =~= data@.take(i as int + 1));
        i = i + 1;
    }
    assert(data@.take(data@.len() as int) =~= data@);
}

/// Serializes an invite into its wire bytes.
pub fn encode_invite(m: &InviteCode) -> (r: Vec<u8>)
    ensures
        r@ == spec_encode_invite(m@),
{
    let mut out: Vec<u8> = Vec::new();
    if m.secret.len() > 0 {
        out.push(0x0a);
        push_varint(&mut out, m.secret.len() as u64);
        push_bytes(&mut out, &m.secret);
    }
    assert(out@ =~= field_bytes(0x0a, m.secret@));
    if m.host_public_key.len() > 0 {
        out.push(0x12);
        push_varint(&mut out, m.host_public_key.len() as u64);
        push_bytes(&mut out, &m.host_public_key);
    }
    assert(out@ =~= spec_encode_invite(m@));
    out
}

/// Copies `b[start..end]` into a fresh vector.
fn copy_range(b: &Vec<u8>, start: usize, end: usize) -> (r: Vec<u8>)
    requires
        start <= end <= b@.len(),
    ensures
        r@ == b@.subrange(start as int, end as int),
{
    let mut out: Vec<u8> = Vec::new();
    let mut i: usize = start;
    while i < end
        invariant
            start <= i <= end <= b@.len(),
            out@ == b@.subrange(start as int, i as int),
        decreases end - i,
    {
        out.push(b[i]);
        assert(b@.subrange(start as int, i as int) + seq![b@[i as int]]
            =~= b@.subrange(start as int, i as int + 1));
        i = i + 1;
    }
    out
}

/// Parses invite wire bytes. Malformed input yields `InvalidInvite`,
/// never a panic.
pub fn decode_invite(b: &Vec<u8>) -> (r: Result<InviteCode, SignalingError>)
    ensures
        r matches Ok(m) ==> spec_decode_invite(b@) == Some(m@),
        r is Err ==> r == Err::<InviteCode, SignalingError>(SignalingError::InvalidInvite)
            && spec_decode_invite(b@) is None,
{
    let mut pos: usize = 0;
    let mut secret: Vec<u8> = Vec::new();
    let mut host_public_key: Vec<u8> = Vec::new();
    proof {
        assert(b@.skip(0) =~= b@);
        assert(InviteContents { secret: secret@, host_public_key: host_public_key@ }
            =~= InviteContents::empty());
    }
    while pos < b.len()
        invariant
            pos <= b@.len(),
            spec_decode_invite(b@) == spec_decode_fields(
                b@.skip(pos as int),
                InviteContents { secret: secret@, host_public_key: host_public_key@ },
            ),
        decreases b@.len() - pos,
    {
        let ghost acc = InviteContents { secret: secret@, host_public_key: host_public_key@ };
        match read_varint(b, pos) {
            None => {
                return Err(SignalingError::InvalidInvite);
            },
            Some((key, p1)) => {
                let wire_type = key % 8;
                if wire_type == 2 {
                    match read_varint(b, p1) {
                        None => {
                            return Err(SignalingError::InvalidInvite);
                        },
                        Some((len, p2)) => {
                            if len > (b.len() - p2) as u64 {
                                return Err(SignalingError::InvalidInvite);
                            }
                            let end = p2 + (len as usize);
                            let data = copy_range(b, p2, end);
                            proof {
                                let rest2 = b@.skip(p2 as int);
                                assert(rest2.take(len as int) =~= b@.subrange(p2 as int, end as int));
                                assert(rest2.skip(len as int) =~= b@.skip(end as int));
                            }
                            if key / 8 == 1 {
                                secret = data;
                            } else if key / 8 == 2 {
                                host_public_key = data;
                            }
                            pos = end;
                        },
                    }
                } else if wire_type == 0 {
                    match read_varint(b, p1) {
                        None => {
                            return Err(SignalingError::InvalidInvite);
                        },
                        Some((_v, p2)) => {
                            pos = p2;
                        },
                    }
                } else if wire_type == 1 {
                    if b.len() - p1 < 8 {
                        proof {
                            assert(b@.skip(p1 as int).len() < 8);
                        }
                        return Err(SignalingError::InvalidInvite);
                    }
                    proof {
                        assert(b@.skip(p1 as int).skip(8) =~= b@.skip(p1 as int + 8));
                    }
                    pos = p1 + 8;
                } else if wire_type == 5 {
                    if b.len() - p1 < 4 {
                        proof {
                            assert(b@.skip(p1 as int).len() < 4);
                        }
                        return Err(SignalingError::InvalidInvite);
                    }
                    proof {
                        assert(b@.skip(p1 as int).skip(4) =~= b@.skip(p1 as int + 4));
                    }
                    pos = p1 + 4;
                } else {
                    return Err(SignalingError::InvalidInvite);
                }
            },
        }
    }
    proof {
        assert(b@.skip(pos as int) =~= Seq::<u8>::empty());
    }
    Ok(InviteCode { secret, host_public_key })
}

/// The slug an invite resolves its host to: the base-58 text of the public
/// key it carries.
pub open spec fn invite_slug_of(m: InviteContents) -> Seq<char> {
    b58_of(m.host_public_key)
}

/// Renders an invite as portable text: base-58 over its wire bytes.
pub fn make_invite(m: &InviteCode) -> (r: String)
    ensures
        r@ == b58_of(spec_encode_invite(m@)),
{
    let bytes = encode_invite(m);
    b58_encode(bytes.as_slice())
}

/// Parses the text form of an invite. It succeeds exactly on the base-58
/// rendering of well-formed invite bytes; anything else is `InvalidInvite`.
pub fn decode_invite_text(s: &str) -> (r: Result<InviteCode, SignalingError>)
    ensures
        r matches Ok(m) ==> exists|raw: Seq<u8>|
            b58_of(raw) == s@ && spec_decode_invite(raw) == Some(m@),
        r matches Ok(m) ==> forall|raw: Seq<u8>|
            b58_of(raw) == s@ ==> spec_decode_invite(raw) == Some(m@),
        r is Err ==> r == Err::<InviteCode, SignalingError>(SignalingError::InvalidInvite),
        r is Err ==> forall|raw: Seq<u8>|
            b58_of(raw) == s@ ==> spec_decode_invite(raw) is None,
{
    match b58_decode(s) {
        None => Err(SignalingError::InvalidInvite),
        Some(bytes) => {
            match decode_invite(&bytes) {
                Ok(m) => {
                    proof {
                        assert(b58_of(bytes@) == s@ && spec_decode_invite(bytes@) == Some(m@));
                    }
                    Ok(m)
                },
                Err(e) => Err(e),
            }
        },
    }
}

/// Law: an invite whose public-key field holds the compressed point of a
/// host's identity key resolves to the same slug as fingerprinting that key
/// directly.
pub proof fn lemma_invite_slug_matches_fingerprint(m: InviteContents, pem: Seq<char>)
    requires
        m.host_public_key == compressed_point_of(pem),
        m.secret.len() <= u64::MAX,
        m.host_public_key.len() <= u64::MAX,
    ensures
        spec_decode_invite(spec_encode_invite(m)) matches Some(d)
            && invite_slug_of(d) == fingerprint_of(pem),
{
    lemma_invite_round_trip(m);
}

/// Decoding one encoded field consumes it and records its payload.
proof fn lemma_decode_one_field(field: u64, data: Seq<u8>, rest: Seq<u8>, acc: InviteContents)
    requires
        1 <= field <= 2,
        0 < data.len() <= u64::MAX,
    ensures
        spec_decode_fields(seq![(8 * field + 2) as u8] + varint_bytes(data.len()) + data + rest, acc)
            == spec_decode_fields(
                rest,
                if field == 1 {
                    InviteContents { secret: data, ..acc }
                } else {
                    InviteContents { host_public_key: data, ..acc }
                },
            ),
{
    let tag = (8 * field + 2) as u8;
    let whole = seq![tag] + varint_bytes(data.len()) + data + rest;
    assert(whole[0] == tag && tag < 128);
    assert(whole.skip(1) =~= varint_bytes(data.len()) + (data + rest));
    lemma_varint_round_trip(data.len(), data + rest);
    assert(take_varint(whole) == Some((tag as nat, whole.skip(1))));
    let rest2 = data + rest;
    assert(rest2.take(data.len() as int) =~= data);
    assert(rest2.skip(data.len() as int) =~= rest);
}

/// Round trip: decoding a canonically encoded invite reproduces it exactly.
/// (Field lengths are bounded so that their varints fit the decoder's
/// 64-bit arithmetic; every in-memory invite satisfies the bound.)
pub proof fn lemma_invite_round_trip(m: InviteContents)
    requires
        m.secret.len() <= u64::MAX,
        m.host_public_key.len() <= u64::MAX,
    ensures
        spec_decode_invite(spec_encode_invite(m)) == Some(m),
{
    let acc0 = InviteContents::empty();
    let f1 = field_bytes(0x0a, m.secret);
    let f2 = field_bytes(0x12, m.host_public_key);
    if m.secret.len() == 0 {
        assert(spec_encode_invite(m) =~= f2);
        if m.host_public_key.len() == 0 {
            assert(spec_encode_invite(m).len() == 0);
            assert(acc0 =~= m);
        } else {
            assert(f2 =~= seq![18u8] + varint_bytes(m.host_public_key.len()) + m.host_public_key
                + Seq::<u8>::empty());
            lemma_decode_one_field(2, m.host_public_key, Seq::empty(), acc0);
            assert(InviteContents { host_public_key: m.host_public_key, ..acc0 } =~= m);
        }
    } else {
        let after1 = InviteContents { secret: m.secret, ..acc0 };
        assert(spec_encode_invite(m) =~= seq![10u8] + varint_bytes(m.secret.len()) + m.secret + f2);
        lemma_decode_one_field(1, m.secret, f2, acc0);
        if m.host_public_key.len() == 0 {
            assert(f2.len() == 0);
            assert(after1 =~= m);
        } else {
            assert(f2 =~= seq![18u8] + varint_bytes(m.host_public_key.len()) + m.host_public_key
                + Seq::<u8>::empty());
            lemma_decode_one_field(2, m.host_public_key, Seq::empty(), after1);
            assert(InviteContents { host_public_key: m.host_public_key, ..after1 } =~= m);
        }
    }
}

} // verus!
