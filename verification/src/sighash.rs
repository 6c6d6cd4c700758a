use vstd::prelude::*;
use crate::crypto::{sha256, sha256_of};
use crate::encode::{
    put_byte, put_bytes, put_u32_le, put_u64_le, put_varint, spec_ser_outs, spec_u32_le,
    spec_u64_le, spec_varint, lemma_take_snoc,
};
use crate::script::{
    p2pkh_script, spec_p2pkh_script, spec_tagged_hash, spec_tap_sighash_tag, tagged_hash,
    tap_sighash_tag,
};
use crate::types::{ClassV, ClassifiedInput, OutV, SighashEntry, SighashMethod, TxOutRec,
    class_views, out_views};

verus! {

/// Every input is serialized with the final sequence number.
pub const SEQUENCE_FINAL: u32 = 0xffff_ffff;

/// Concatenated outpoints of the spent inputs.
pub open spec fn spec_prevouts(s: Seq<ClassV>) -> Seq<u8>
    decreases s.len(),
{
    if s.len() == 0 {
        Seq::empty()
    } else {
        spec_prevouts(s.drop_last()) + s.last().txid + spec_u32_le(s.last().vout)
    }
}

/// Concatenated amounts of the spent inputs.
pub open spec fn spec_amounts(s: Seq<ClassV>) -> Seq<u8>
    decreases s.len(),
{
    if s.len() == 0 {
        Seq::empty()
    } else {
        spec_amounts(s.drop_last()) + spec_u64_le(s.last().amount)
    }
}

/// Concatenated length-prefixed script_pubkeys of the spent inputs.
pub open spec fn spec_spks(s: Seq<ClassV>) -> Seq<u8>
    decreases s.len(),
{
    if s.len() == 0 {
        Seq::empty()
    } else {
        spec_spks(s.drop_last()) + spec_varint(s.last().script_pubkey.len() as u64)
            + s.last().script_pubkey
    }
}

/// Concatenated sequence numbers of the spent inputs.
pub open spec fn spec_sequences(s: Seq<ClassV>) -> Seq<u8>
    decreases s.len(),
{
    if s.len() == 0 {
        Seq::empty()
    } else {
        spec_sequences(s.drop_last()) + spec_u32_le(SEQUENCE_FINAL)
    }
}

/// The legacy signature preimage for input i: the transaction serialized
/// with that input's script_sig replaced by the prevout's script_pubkey
/// and every other script_sig empty, then the 4-byte sighash type ALL.
pub open spec fn spec_legacy_preimage(
    version: u32,
    lock_time: u32,
    ins: Seq<ClassV>,
    outs: Seq<OutV>,
    i: int,
) -> Seq<u8> {
    spec_u32_le(version) + spec_varint(ins.len() as u64) + spec_legacy_ins(ins, i) + spec_varint(
        outs.len() as u64,
    ) + spec_ser_outs(outs) + spec_u32_le(lock_time) + spec_u32_le(1u32)
}

/// The input section of a legacy preimage: script_sig is the signed
/// input's script_pubkey at position i, empty elsewhere.
pub open spec fn spec_legacy_ins(s: Seq<ClassV>, i: int) -> Seq<u8>
    decreases s.len(),
{
    if s.len() == 0 {
        Seq::empty()
    } else {
        spec_legacy_ins(s.drop_last(), i) + s.last().txid + spec_u32_le(s.last().vout) + (if i
            == s.len() - 1 {
            spec_varint(s.last().script_pubkey.len() as u64) + s.last().script_pubkey
        } else {
            spec_varint(0u64)
        }) + spec_u32_le(SEQUENCE_FINAL)
    }
}

/// The BIP-143 signature preimage for input i of a p2wpkh spend, sighash
/// type ALL: version, double-SHA256 commitments to prevouts, sequences and
/// outputs, the outpoint, the p2pkh-form script code of the witness
/// program hash, amount, sequence, lock time and type.
pub open spec fn spec_bip143_preimage(
    version: u32,
    lock_time: u32,
    ins: Seq<ClassV>,
    outs: Seq<OutV>,
    i: int,
) -> Seq<u8> {
    let script_code = spec_p2pkh_script(ins[i].script_pubkey.skip(2));
    spec_u32_le(version) + sha256_of(sha256_of(spec_prevouts(ins))) + sha256_of(
        sha256_of(spec_sequences(ins)),
    ) + ins[i].txid + spec_u32_le(ins[i].vout) + spec_varint(script_code.len() as u64)
        + script_code + spec_u64_le(ins[i].amount) + spec_u32_le(SEQUENCE_FINAL) + sha256_of(
        sha256_of(spec_ser_outs(outs)),
    ) + spec_u32_le(lock_time) + spec_u32_le(1u32)
}

/// The BIP-341 signature message for input i: epoch, hash type (ALL with
/// the single-prevout bit when one_prevout is set, DEFAULT otherwise),
/// version, lock time, the single-SHA256 commitments unless one_prevout,
/// the outputs commitment, the spend type (script-path bit from the leaf
/// hash), then the spent input itself or its index, and for script-path
/// spends the leaf hash, key version and code-separator position.
pub open spec fn spec_taproot_message(
    version: u32,
    lock_time: u32,
    ins: Seq<ClassV>,
    outs: Seq<OutV>,
    i: int,
) -> Seq<u8> {
    let c = ins[i];
    let hash_type: u8 = if c.one_prevout {
        0x81u8
    } else {
        0x00u8
    };
    let spend_type: u8 = if c.leaf_hash.len() > 0 {
        0x02u8
    } else {
        0x00u8
    };
    seq![0x00u8, hash_type] + spec_u32_le(version) + spec_u32_le(lock_time) + (if !c.one_prevout {
        sha256_of(spec_prevouts(ins)) + sha256_of(spec_amounts(ins)) + sha256_of(spec_spks(ins))
            + sha256_of(spec_sequences(ins))
    } else {
        Seq::empty()
    }) + sha256_of(spec_ser_outs(outs)) + seq![spend_type] + (if c.one_prevout {
        c.txid + spec_u32_le(c.vout) + spec_u64_le(c.amount) + spec_varint(
            c.script_pubkey.len() as u64,
        ) + c.script_pubkey + spec_u32_le(SEQUENCE_FINAL)
    } else {
        spec_u32_le(i as u32)
    }) + (if c.leaf_hash.len() > 0 {
        c.leaf_hash + seq![0x00u8] + spec_u32_le(0xffff_ffffu32)
    } else {
        Seq::empty()
    })
}

/// The sighash of input i under the algorithm its class dictates.
pub open spec fn spec_sighash(
    version: u32,
    lock_time: u32,
    ins: Seq<ClassV>,
    outs: Seq<OutV>,
    i: int,
) -> Seq<u8> {
    match ins[i].method {
        SighashMethod::Legacy => sha256_of(
            sha256_of(spec_legacy_preimage(version, lock_time, ins, outs, i)),
        ),
        SighashMethod::Segwit => sha256_of(
            sha256_of(spec_bip143_preimage(version, lock_time, ins, outs, i)),
        ),
        SighashMethod::Taproot => spec_tagged_hash(
            spec_tap_sighash_tag(),
            spec_taproot_message(version, lock_time, ins, outs, i),
        ),
    }
}

/// Double SHA-256.
pub fn sha256d(b: &Vec<u8>) -> (r: Vec<u8>)
    ensures
        r@ == sha256_of(sha256_of(b@)),
        r@.len() == 32,
{
    let a = sha256(b);
    sha256(&a)
}

/// Concatenates the outpoints of the inputs.
fn prevouts_concat(ins: &Vec<ClassifiedInput>) -> (r: Vec<u8>)
    ensures
        r@ == spec_prevouts(class_views(ins@)),
{
    let ghost views = class_views(ins@);
    let mut out: Vec<u8> = Vec::new();
    let mut i: usize = 0;
    proof {
        assert(out@ =~= spec_prevouts(views.take(0)));
    }
    while i < ins.len()
        invariant
            0 <= i <= ins@.len(),
            views == class_views(ins@),
            views.len() == ins@.len(),
            forall|j: int| 0 <= j < ins@.len() ==> views[j] == #[trigger] ins@[j]@,
            out@ == spec_prevouts(views.take(i as int)),
        decreases ins.len() - i,
    {
        put_bytes(&mut out, &ins[i].txid);
        put_u32_le(&mut out, ins[i].vout);
        proof {
            lemma_take_snoc(views, i as int);
            assert(out@ =~= spec_prevouts(views.take(i + 1)));
        }
        i = i + 1;
    }
    proof {
        assert(views.take(views.len() as int) =~= views);
    }
    out
}

/// Concatenates the amounts of the inputs.
fn amounts_concat(ins: &Vec<ClassifiedInput>) -> (r: Vec<u8>)
    ensures
        r@ == spec_amounts(class_views(ins@)),
{
    let ghost views = class_views(ins@);
    let mut out: Vec<u8> = Vec::new();
    let mut i: usize = 0;
    proof {
        assert(out@ =~= spec_amounts(views.take(0)));
    }
    while i < ins.len()
        invariant
            0 <= i <= ins@.len(),
            views == class_views(ins@),
            views.len() == ins@.len(),
            forall|j: int| 0 <= j < ins@.len() ==> views[j] == #[trigger] ins@[j]@,
            out@ == spec_amounts(views.take(i as int)),
        decreases ins.len() - i,
    {
        put_u64_le(&mut out, ins[i].amount);
        proof {
            lemma_take_snoc(views, i as int);
            assert(out@ =~= spec_amounts(views.take(i + 1)));
        }
        i = i + 1;
    }
    proof {
        assert(views.take(views.len() as int) =~= views);
    }
    out
}

/// Concatenates the length-prefixed script_pubkeys of the inputs.
fn spks_concat(ins: &Vec<ClassifiedInput>) -> (r: Vec<u8>)
    ensures
        r@ == spec_spks(class_views(ins@)),
{
    let ghost views = class_views(ins@);
    let mut out: Vec<u8> = Vec::new();
    let mut i: usize = 0;
    proof {
        assert(out@ =~= spec_spks(views.take(0)));
    }
    while i < ins.len()
        invariant
            0 <= i <= ins@.len(),
            views == class_views(ins@),
            views.len() == ins@.len(),
            forall|j: int| 0 <= j < ins@.len() ==> views[j] == #[trigger] ins@[j]@,
            out@ == spec_spks(views.take(i as int)),
        decreases ins.len() - i,
    {
        put_varint(&mut out, ins[i].script_pubkey.len() as u64);
        put_bytes(&mut out, &ins[i].script_pubkey);
        proof {
            lemma_take_snoc(views, i as int);
            assert(out@ =~= spec_spks(views.take(i + 1)));
        }
        i = i + 1;
    }
    proof {
        assert(views.take(views.len() as int) =~= views);
    }
    out
}

/// Concatenates the sequence numbers of the inputs.
fn sequences_concat(ins: &Vec<ClassifiedInput>) -> (r: Vec<u8>)
    ensures
        r@ == spec_sequences(class_views(ins@)),
{
    let ghost views = class_views(ins@);
    let mut out: Vec<u8> = Vec::new();
    let mut i: usize = 0;
    proof {
        assert(out@ =~= spec_sequences(views.take(0)));
    }
    while i < ins.len()
        invariant
            0 <= i <= ins@.len(),
            views == class_views(ins@),
            views.len() == ins@.len(),
            out@ == spec_sequences(views.take(i as int)),
        decreases ins.len() - i,
    {
        put_u32_le(&mut out, SEQUENCE_FINAL);
        proof {
            lemma_take_snoc(views, i as int);
            assert(out@ =~= spec_sequences(views.take(i + 1)));
        }
        i = i + 1;
    }
    proof {
        assert(views.take(views.len() as int) =~= views);
    }
    out
}

/// Concatenates the serialized outputs.
fn outs_concat(outs: &Vec<TxOutRec>) -> (r: Vec<u8>)
    ensures
        r@ == spec_ser_outs(out_views(outs@)),
{
    let mut out: Vec<u8> = Vec::new();
    crate::encode::put_outs(&mut out, outs);
    proof {
        assert(out@ =~= spec_ser_outs(out_views(outs@)));
    }
    out
}

/// Copies a byte vector from an offset on.
fn skip_bytes(b: &Vec<u8>, n: usize) -> (r: Vec<u8>)
    requires
        n <= b@.len(),
    ensures
        r@ == b@.skip(n as int),
{
    let mut r: Vec<u8> = Vec::new();
    let mut i: usize = n;
    while i < b.len()
        invariant
            n <= i <= b@.len(),
            r@.len() == i - n,
            forall|j: int| 0 <= j < r@.len() ==> r@[j] == b@[j + n],
        decreases b.len() - i,
    {
        r.push(b[i]);
        i = i + 1;
    }
    proof {
        assert(r@ =~= b@.skip(n as int));
    }
    r
}

/// Builds the legacy preimage for input i.
fn legacy_preimage(
    version: u32,
    lock_time: u32,
    ins: &Vec<ClassifiedInput>,
    outs: &Vec<TxOutRec>,
    i: usize,
) -> (r: Vec<u8>)
    requires
        i < ins@.len(),
    ensures
        r@ == spec_legacy_preimage(version, lock_time, class_views(ins@), out_views(outs@),
            i as int),
{
    let ghost views = class_views(ins@);
    let mut out: Vec<u8> = Vec::new();
    put_u32_le(&mut out, version);
    put_varint(&mut out, ins.len() as u64);
    let ghost base = out@;
    let mut j: usize = 0;
    proof {
        assert(out@ =~= base + spec_legacy_ins(views.take(0), i as int));
    }
    while j < ins.len()
        invariant
            0 <= j <= ins@.len(),
            i < ins@.len(),
            views == class_views(ins@),
            views.len() == ins@.len(),
            forall|k: int| 0 <= k < ins@.len() ==> views[k] == #[trigger] ins@[k]@,
            out@ == base + spec_legacy_ins(views.take(j as int), i as int),
        decreases ins.len() - j,
    {
        put_bytes(&mut out, &ins[j].txid);
        put_u32_le(&mut out, ins[j].vout);
        if j == i {
            put_varint(&mut out, ins[j].script_pubkey.len() as u64);
            put_bytes(&mut out, &ins[j].script_pubkey);
        } else {
            put_varint(&mut out, 0u64);
        }
        put_u32_le(&mut out, SEQUENCE_FINAL);
        proof {
            lemma_take_snoc(views, j as int);
            assert(out@ =~= base + spec_legacy_ins(views.take(j + 1), i as int));
        }
        j = j + 1;
    }
    proof {
        assert(views.take(views.len() as int) =~= views);
    }
    put_varint(&mut out, outs.len() as u64);
    crate::encode::put_outs(&mut out, outs);
    put_u32_le(&mut out, lock_time);
    put_u32_le(&mut out, 1u32);
    proof {
        assert(out@ =~= spec_legacy_preimage(version, lock_time, views, out_views(outs@),
            i as int));
    }
    out
}

/// Builds the BIP-143 preimage for input i.
fn bip143_preimage(
    version: u32,
    lock_time: u32,
    ins: &Vec<ClassifiedInput>,
    outs: &Vec<TxOutRec>,
    i: usize,
) -> (r: Vec<u8>)
    requires
        i < ins@.len(),
        ins@[i as int]@.script_pubkey.len() == 22,
    ensures
        r@ == spec_bip143_preimage(version, lock_time, class_views(ins@), out_views(outs@),
            i as int),
{
    let ghost views = class_views(ins@);
    let prevouts = prevouts_concat(ins);
    let hash_prevouts = sha256d(&prevouts);
    let sequences = sequences_concat(ins);
    let hash_sequences = sha256d(&sequences);
    let outs_ser = outs_concat(outs);
    let hash_outputs = sha256d(&outs_ser);
    let wpkh = skip_bytes(&ins[i].script_pubkey, 2);
    let script_code = p2pkh_script(&wpkh);
    let mut out: Vec<u8> = Vec::new();
    put_u32_le(&mut out, version);
    put_bytes(&mut out, &hash_prevouts);
    put_bytes(&mut out, &hash_sequences);
    put_bytes(&mut out, &ins[i].txid);
    put_u32_le(&mut out, ins[i].vout);
    put_varint(&mut out, script_code.len() as u64);
    put_bytes(&mut out, &script_code);
    put_u64_le(&mut out, ins[i].amount);
    put_u32_le(&mut out, SEQUENCE_FINAL);
    put_bytes(&mut out, &hash_outputs);
    put_u32_le(&mut out, lock_time);
    put_u32_le(&mut out, 1u32);
    proof {
        assert(out@ =~= spec_bip143_preimage(version, lock_time, views, out_views(outs@),
            i as int));
    }
    out
}

/// Builds the BIP-341 signature message for input i.
fn taproot_message(
    version: u32,
    lock_time: u32,
    ins: &Vec<ClassifiedInput>,
    outs: &Vec<TxOutRec>,
    i: usize,
) -> (r: Vec<u8>)
    requires
        i < ins@.len(),
        ins@.len() <= 0xffff_ffff,
    ensures
        r@ == spec_taproot_message(version, lock_time, class_views(ins@), out_views(outs@),
            i as int),
{
    let ghost views = class_views(ins@);
    let one_prevout = ins[i].one_prevout;
    let script_path = ins[i].leaf_hash.len() > 0;
    let mut out: Vec<u8> = Vec::new();
    put_byte(&mut out, 0x00u8);
    put_byte(&mut out, if one_prevout { 0x81u8 } else { 0x00u8 });
    put_u32_le(&mut out, version);
    put_u32_le(&mut out, lock_time);
    if !one_prevout {
        let prevouts = prevouts_concat(ins);
        let h1 = sha256(&prevouts);
        put_bytes(&mut out, &h1);
        let amounts = amounts_concat(ins);
        let h2 = sha256(&amounts);
        put_bytes(&mut out, &h2);
        let spks = spks_concat(ins);
        let h3 = sha256(&spks);
        put_bytes(&mut out, &h3);
        let sequences = sequences_concat(ins);
        let h4 = sha256(&sequences);
        put_bytes(&mut out, &h4);
    }
    let outs_ser = outs_concat(outs);
    let ho = sha256(&outs_ser);
    put_bytes(&mut out, &ho);
    put_byte(&mut out, if script_path { 0x02u8 } else { 0x00u8 });
    if one_prevout {
        put_bytes(&mut out, &ins[i].txid);
        put_u32_le(&mut out, ins[i].vout);
        put_u64_le(&mut out, ins[i].amount);
        put_varint(&mut out, ins[i].script_pubkey.len() as u64);
        put_bytes(&mut out, &ins[i].script_pubkey);
        put_u32_le(&mut out, SEQUENCE_FINAL);
    } else {
        put_u32_le(&mut out, i as u32);
    }
    if script_path {
        put_bytes(&mut out, &ins[i].leaf_hash);
        put_byte(&mut out, 0x00u8);
        put_u32_le(&mut out, 0xffff_ffffu32);
    }
    proof {
        assert(out@ =~= spec_taproot_message(version, lock_time, views, out_views(outs@),
            i as int));
    }
    out
}

/// Computes the sighash for input i under the algorithm its class
/// dictates.
pub fn sighash_for_input(
    version: u32,
    lock_time: u32,
    ins: &Vec<ClassifiedInput>,
    outs: &Vec<TxOutRec>,
    i: usize,
) -> (r: Vec<u8>)
    requires
        i < ins@.len(),
        ins@.len() <= 0xffff_ffff,
        ins@[i as int]@.method == SighashMethod::Segwit ==> ins@[i as int]@.script_pubkey.len()
            == 22,
    ensures
        r@ == spec_sighash(version, lock_time, class_views(ins@), out_views(outs@), i as int),
        r@.len() == 32,
{
    let method = ins[i].method;
    match method {
        SighashMethod::Legacy => {
            let pre = legacy_preimage(version, lock_time, ins, outs, i);
            sha256d(&pre)
        },
        SighashMethod::Segwit => {
            let pre = bip143_preimage(version, lock_time, ins, outs, i);
            sha256d(&pre)
        },
        SighashMethod::Taproot => {
            let msg = taproot_message(version, lock_time, ins, outs, i);
            let tag = tap_sighash_tag();
            tagged_hash(&tag, &msg)
        },
    }
}

/// The parallel sighash entries of the selected inputs.
pub open spec fn spec_sighash_entries(
    version: u32,
    lock_time: u32,
    ins: Seq<ClassV>,
    outs: Seq<OutV>,
) -> Seq<crate::types::SighashEntryV> {
    Seq::new(
        ins.len(),
        |i: int|
            crate::types::SighashEntryV {
                sighash: spec_sighash(version, lock_time, ins, outs, i),
                method: ins[i].method,
                leaf_hash: ins[i].leaf_hash,
            },
    )
}

/// Computes one sighash entry per selected input.
pub fn compute_sighashes(
    version: u32,
    lock_time: u32,
    ins: &Vec<ClassifiedInput>,
    outs: &Vec<TxOutRec>,
) -> (r: Vec<SighashEntry>)
    requires
        ins@.len() <= 0xffff_ffff,
        forall|i: int|
            0 <= i < ins@.len() && (#[trigger] ins@[i]@.method) == SighashMethod::Segwit
                ==> ins@[i]@.script_pubkey.len() == 22,
    ensures
        r@.map_values(|e: SighashEntry| e@) == spec_sighash_entries(
            version,
            lock_time,
            class_views(ins@),
            out_views(outs@),
        ),
        forall|i: int| 0 <= i < r@.len() ==> (#[trigger] r@[i]@).sighash.len() == 32,
{
    let ghost views = class_views(ins@);
    let ghost goal = spec_sighash_entries(version, lock_time, views, out_views(outs@));
    let mut r: Vec<SighashEntry> = Vec::new();
    let mut i: usize = 0;
    while i < ins.len()
        invariant
            0 <= i <= ins@.len(),
            views == class_views(ins@),
            views.len() == ins@.len(),
            forall|j: int| 0 <= j < ins@.len() ==> views[j] == #[trigger] ins@[j]@,
            ins@.len() <= 0xffff_ffff,
            forall|j: int|
                0 <= j < ins@.len() && (#[trigger] ins@[j]@.method) == SighashMethod::Segwit
                    ==> ins@[j]@.script_pubkey.len() == 22,
            goal == spec_sighash_entries(version, lock_time, views, out_views(outs@)),
            r@.len() == i,
            forall|j: int| 0 <= j < i ==> (#[trigger] r@[j])@ == goal[j],
            forall|j: int| 0 <= j < i ==> (#[trigger] r@[j]@).sighash.len() == 32,
        decreases ins.len() - i,
    {
        let h = sighash_for_input(version, lock_time, ins, outs, i);
        let mut leaf: Vec<u8> = Vec::new();
        put_bytes(&mut leaf, &ins[i].leaf_hash);
        let entry = SighashEntry { sighash: h, method: ins[i].method, leaf_hash: leaf };
        proof {
            assert(leaf@ =~= ins@[i as int]@.leaf_hash);
            assert(entry@ == goal[i as int]);
        }
        r.push(entry);
        i = i + 1;
    }
    proof {
        assert(r@.map_values(|e: SighashEntry| e@) =~= goal);
    }
    r
}

} // verus!
