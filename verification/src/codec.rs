//! Wire form of the registration handshake. A registration is signed over
//! its deterministic serialization with the signature field cleared: the
//! protocol-buffer encoding of the message `{ region = 1, timestamp = 2,
//! signer = 3, signature = 4 }`, in which fields holding their default value
//! (zero, or empty bytes) are omitted, so the cleared signature contributes
//! no bytes at all.

use vstd::prelude::*;

verus! {

/// Wire tag of the `region` field (field 1, varint).
pub const REGION_TAG: u8 = 0x08;

/// Wire tag of the `timestamp` field (field 2, varint).
pub const TIMESTAMP_TAG: u8 = 0x10;

/// Wire tag of the `signer` field (field 3, length-delimited).
pub const SIGNER_TAG: u8 = 0x1a;

/// Base-128 varint encoding, least significant group first, high bit set on
/// every byte but the last.
pub open spec fn varint_bytes(n: nat) -> Seq<u8>
    decreases n,
{
    if n < 0x80 {
        seq![n as u8]
    } else {
        seq![(0x80 + n % 0x80) as u8] + varint_bytes(n / 0x80)
    }
}

/// The bytes the `region` field contributes: nothing for the default region
/// code zero.
pub open spec fn region_field_bytes(region: u32) -> Seq<u8> {
    if region == 0 {
        Seq::empty()
    } else {
        seq![REGION_TAG] + varint_bytes(region as nat)
    }
}

/// The bytes the `timestamp` field contributes: nothing for zero.
pub open spec fn timestamp_field_bytes(timestamp: u64) -> Seq<u8> {
    if timestamp == 0 {
        Seq::empty()
    } else {
        seq![TIMESTAMP_TAG] + varint_bytes(timestamp as nat)
    }
}

/// The bytes the `signer` field contributes: nothing when empty, else the
/// tag, the length as a varint, and the key bytes themselves.
pub open spec fn signer_field_bytes(signer: Seq<u8>) -> Seq<u8> {
    if signer.len() == 0 {
        Seq::empty()
    } else {
        seq![SIGNER_TAG] + varint_bytes(signer.len()) + signer
    }
}

/// The deterministic byte form a registration is signed over: the encoded
/// message with its signature field cleared (and therefore absent).
pub open spec fn registration_encoding(region: u32, timestamp: u64, signer: Seq<u8>) -> Seq<u8> {
    region_field_bytes(region) + timestamp_field_bytes(timestamp) + signer_field_bytes(signer)
}

/// Append the varint encoding of `value` to `out`.
fn push_varint(out: &mut Vec<u8>, value: u64)
    ensures
        final(out)@ == old(out)@ + varint_bytes(value as nat),
{
    let ghost goal = out@ + varint_bytes(value as nat);
    let mut n: u64 = value;
    while n >= 0x80
        invariant
            out@ + varint_bytes(n as nat) =~= goal,
        decreases n,
    {
        let ghost n0 = n as nat;
        let ghost seen = out@;
        let b: u8 = (n % 0x80) as u8 + 0x80;
        out.push(b);
        n = n / 0x80;
        proof {
            assert(varint_bytes(n0) == seq![b] + varint_bytes(n as nat));
            assert(out@ + varint_bytes(n as nat) =~= seen + varint_bytes(n0));
        }
    }
    out.push(n as u8);
    proof {
        assert(varint_bytes(n as nat) =~= seq![n as u8]);
        assert(final(out)@ =~= goal);
    }
}

/// The byte form a registration with these fields is signed over. Equals
/// [`registration_encoding`] of the same values.
pub fn registration_signing_bytes(region: u32, timestamp: u64, signer: &Vec<u8>) -> (out: Vec<u8>)
    ensures
        out@ == registration_encoding(region, timestamp, signer@),
{
    let mut out: Vec<u8> = Vec::new();
    if region != 0 {
        out.push(REGION_TAG);
        push_varint(&mut out, region as u64);
        proof {
            assert(out@ =~= region_field_bytes(region));
        }
    }
    let ghost after_region = out@;
    if timestamp != 0 {
        out.push(TIMESTAMP_TAG);
        push_varint(&mut out, timestamp);
        proof {
            assert(out@ =~= after_region + timestamp_field_bytes(timestamp));
        }
    }
    let ghost after_timestamp = out@;
    if signer.len() > 0 {
        out.push(SIGNER_TAG);
        push_varint(&mut out, signer.len() as u64);
        let ghost before_key = out@;
        let mut i: usize = 0;
        while i < signer.len()
            invariant
                i <= signer.len(),
                out@ =~= before_key + signer@.take(i as int),
            decreases signer.len() - i,
        {
            out.push(signer[i]);
            proof {
                assert(signer@.take(i + 1) =~= signer@.take(i as int).push(signer@[i as int]));
            }
            i = i + 1;
        }
        proof {
            assert(signer@.take(signer.len() as int) =~= signer@);
            assert(out@ =~= after_timestamp + signer_field_bytes(signer@));
        }
    }
    proof {
        assert(out@ =~= registration_encoding(region, timestamp, signer@));
    }
    out
}

} // verus!
