use vstd::prelude::*;
use crate::crypto::{sha256, sha256_of};
use crate::encode::{put_bytes, put_byte, put_varint, spec_varint};

verus! {

/// The canonical pay-to-public-key-hash locking script:
/// OP_DUP OP_HASH160 <push-20 hash> OP_EQUALVERIFY OP_CHECKSIG.
pub open spec fn spec_p2pkh_script(h: Seq<u8>) -> Seq<u8> {
    seq![0x76u8, 0xa9u8, 0x14u8] + h + seq![0x88u8, 0xacu8]
}

/// The canonical pay-to-witness-public-key-hash locking script:
/// OP_0 <push-20 hash>.
pub open spec fn spec_p2wpkh_script(h: Seq<u8>) -> Seq<u8> {
    seq![0x00u8, 0x14u8] + h
}

/// The canonical pay-to-taproot locking script:
/// OP_1 <push-32 tweaked-output-key>.
pub open spec fn spec_p2tr_script(k: Seq<u8>) -> Seq<u8> {
    seq![0x51u8, 0x20u8] + k
}

/// Builds the p2pkh locking script for a 20-byte hash.
pub fn p2pkh_script(h: &Vec<u8>) -> (r: Vec<u8>)
    requires
        h@.len() == 20,
    ensures
        r@ == spec_p2pkh_script(h@),
        r@.len() == 25,
{
    let mut out: Vec<u8> = Vec::new();
    put_byte(&mut out, 0x76u8);
    put_byte(&mut out, 0xa9u8);
    put_byte(&mut out, 0x14u8);
    put_bytes(&mut out, h);
    put_byte(&mut out, 0x88u8);
    put_byte(&mut out, 0xacu8);
    proof {
        assert(out@ =~= spec_p2pkh_script(h@));
    }
    out
}

/// Builds the p2wpkh locking script for a 20-byte hash.
pub fn p2wpkh_script(h: &Vec<u8>) -> (r: Vec<u8>)
    requires
        h@.len() == 20,
    ensures
        r@ == spec_p2wpkh_script(h@),
        r@.len() == 22,
{
    let mut out: Vec<u8> = Vec::new();
    put_byte(&mut out, 0x00u8);
    put_byte(&mut out, 0x14u8);
    put_bytes(&mut out, h);
    proof {
        assert(out@ =~= spec_p2wpkh_script(h@));
    }
    out
}

/// Builds the p2tr locking script for a 32-byte output key.
pub fn p2tr_script(k: &Vec<u8>) -> (r: Vec<u8>)
    requires
        k@.len() == 32,
    ensures
        r@ == spec_p2tr_script(k@),
        r@.len() == 34,
{
    let mut out: Vec<u8> = Vec::new();
    put_byte(&mut out, 0x51u8);
    put_byte(&mut out, 0x20u8);
    put_bytes(&mut out, k);
    proof {
        assert(out@ =~= spec_p2tr_script(k@));
    }
    out
}

/// The ASCII bytes of the BIP-341 leaf-hash tag.
pub open spec fn spec_tap_leaf_tag() -> Seq<u8> {
    seq![0x54u8, 0x61u8, 0x70u8, 0x4cu8, 0x65u8, 0x61u8, 0x66u8]
}

/// The ASCII bytes of the BIP-341 sighash tag.
pub open spec fn spec_tap_sighash_tag() -> Seq<u8> {
    seq![0x54u8, 0x61u8, 0x70u8, 0x53u8, 0x69u8, 0x67u8, 0x68u8, 0x61u8, 0x73u8, 0x68u8]
}

/// Builds the leaf-hash tag bytes.
pub fn tap_leaf_tag() -> (r: Vec<u8>)
    ensures
        r@ == spec_tap_leaf_tag(),
{
    let mut out: Vec<u8> = Vec::new();
    out.push(0x54u8);
    out.push(0x61u8);
    out.push(0x70u8);
    out.push(0x4cu8);
    out.push(0x65u8);
    out.push(0x61u8);
    out.push(0x66u8);
    proof {
        assert(out@ =~= spec_tap_leaf_tag());
    }
    out
}

/// Builds the sighash tag bytes.
pub fn tap_sighash_tag() -> (r: Vec<u8>)
    ensures
        r@ == spec_tap_sighash_tag(),
{
    let mut out: Vec<u8> = Vec::new();
    out.push(0x54u8);
    out.push(0x61u8);
    out.push(0x70u8);
    out.push(0x53u8);
    out.push(0x69u8);
    out.push(0x67u8);
    out.push(0x68u8);
    out.push(0x61u8);
    out.push(0x73u8);
    out.push(0x68u8);
    proof {
        assert(out@ =~= spec_tap_sighash_tag());
    }
    out
}

/// The BIP-340 tagged hash: SHA256(SHA256(tag) || SHA256(tag) || msg).
pub open spec fn spec_tagged_hash(tag: Seq<u8>, msg: Seq<u8>) -> Seq<u8> {
    sha256_of(sha256_of(tag) + sha256_of(tag) + msg)
}

/// Computes the tagged hash of a message.
pub fn tagged_hash(tag: &Vec<u8>, msg: &Vec<u8>) -> (r: Vec<u8>)
    ensures
        r@ == spec_tagged_hash(tag@, msg@),
        r@.len() == 32,
{
    let th = sha256(tag);
    let mut buf: Vec<u8> = Vec::new();
    put_bytes(&mut buf, &th);
    put_bytes(&mut buf, &th);
    put_bytes(&mut buf, msg);
    proof {
        assert(buf@ =~= sha256_of(tag@) + sha256_of(tag@) + msg@);
    }
    sha256(&buf)
}

/// The BIP-341 tap-leaf hash of a script under the tapscript leaf version:
/// tagged-hash("TapLeaf", 0xc0 || compact-size(len) || script).
pub open spec fn spec_tap_leaf_hash(script: Seq<u8>) -> Seq<u8> {
    spec_tagged_hash(spec_tap_leaf_tag(), seq![0xc0u8] + spec_varint(script.len() as u64) + script)
}

/// Computes the tap-leaf hash of a script.
pub fn tap_leaf_hash(script: &Vec<u8>) -> (r: Vec<u8>)
    ensures
        r@ == spec_tap_leaf_hash(script@),
        r@.len() == 32,
{
    let tag = tap_leaf_tag();
    let mut msg: Vec<u8> = Vec::new();
    put_byte(&mut msg, 0xc0u8);
    put_varint(&mut msg, script.len() as u64);
    put_bytes(&mut msg, script);
    proof {
        assert(msg@ =~= seq![0xc0u8] + spec_varint(script@.len() as u64) + script@);
    }
    tagged_hash(&tag, &msg)
}

} // verus!
