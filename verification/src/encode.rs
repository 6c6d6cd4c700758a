use vstd::prelude::*;
use crate::crypto::sha256_of;
use crate::types::OutV;

verus! {

/// Little-endian bytes of a 32-bit value.
pub open spec fn spec_u32_le(n: u32) -> Seq<u8> {
    seq![
        (n & 0xff) as u8,
        ((n >> 8) & 0xff) as u8,
        ((n >> 16) & 0xff) as u8,
        ((n >> 24) & 0xff) as u8,
    ]
}

/// Little-endian bytes of a 64-bit value.
pub open spec fn spec_u64_le(n: u64) -> Seq<u8> {
    seq![
        (n & 0xff) as u8,
        ((n >> 8) & 0xff) as u8,
        ((n >> 16) & 0xff) as u8,
        ((n >> 24) & 0xff) as u8,
        ((n >> 32) & 0xff) as u8,
        ((n >> 40) & 0xff) as u8,
        ((n >> 48) & 0xff) as u8,
        ((n >> 56) & 0xff) as u8,
    ]
}

/// Bitcoin's variable-length integer encoding.
pub open spec fn spec_varint(n: u64) -> Seq<u8> {
    if n < 0xfd {
        seq![n as u8]
    } else if n <= 0xffff {
        seq![0xfdu8, (n & 0xff) as u8, ((n >> 8) & 0xff) as u8]
    } else if n <= 0xffffffff {
        seq![0xfeu8] + spec_u32_le(n as u32)
    } else {
        seq![0xffu8] + spec_u64_le(n)
    }
}

/// A minimal script push of up to 255 bytes: a direct push opcode below
/// 76 bytes, OP_PUSHDATA1 above.
pub open spec fn spec_push(b: Seq<u8>) -> Seq<u8>
    recommends
        b.len() <= 255,
{
    if b.len() <= 75 {
        seq![b.len() as u8] + b
    } else {
        seq![0x4cu8, b.len() as u8] + b
    }
}

/// Appends bytes to a buffer.
pub fn put_bytes(out: &mut Vec<u8>, b: &Vec<u8>)
    ensures
        final(out)@ == old(out)@ + b@,
{
    out.extend_from_slice(b.as_slice());
    proof {
        assert(out@ =~= old(out)@ + b@);
    }
}

/// Appends one byte.
pub fn put_byte(out: &mut Vec<u8>, b: u8)
    ensures
        final(out)@ == old(out)@ + seq![b],
{
    out.push(b);
    proof {
        assert(out@ =~= old(out)@ + seq![b]);
    }
}

/// Appends a 32-bit value in little-endian order.
pub fn put_u32_le(out: &mut Vec<u8>, n: u32)
    ensures
        final(out)@ == old(out)@ + spec_u32_le(n),
{
    out.push((n & 0xff) as u8);
    out.push(((n >> 8) & 0xff) as u8);
    out.push(((n >> 16) & 0xff) as u8);
    out.push(((n >> 24) & 0xff) as u8);
    proof {
        assert(out@ =~= old(out)@ + spec_u32_le(n));
    }
}

/// Appends a 64-bit value in little-endian order.
pub fn put_u64_le(out: &mut Vec<u8>, n: u64)
    ensures
        final(out)@ == old(out)@ + spec_u64_le(n),
{
    out.push((n & 0xff) as u8);
    out.push(((n >> 8) & 0xff) as u8);
    out.push(((n >> 16) & 0xff) as u8);
    out.push(((n >> 24) & 0xff) as u8);
    out.push(((n >> 32) & 0xff) as u8);
    out.push(((n >> 40) & 0xff) as u8);
    out.push(((n >> 48) & 0xff) as u8);
    out.push(((n >> 56) & 0xff) as u8);
    proof {
        assert(out@ =~= old(out)@ + spec_u64_le(n));
    }
}

/// Appends a variable-length integer.
pub fn put_varint(out: &mut Vec<u8>, n: u64)
    ensures
        final(out)@ == old(out)@ + spec_varint(n),
{
    if n < 0xfd {
        out.push(n as u8);
        proof {
            assert(out@ =~= old(out)@ + spec_varint(n));
        }
    } else if n <= 0xffff {
        out.push(0xfdu8);
        out.push((n & 0xff) as u8);
        out.push(((n >> 8) & 0xff) as u8);
        proof {
            assert(out@ =~= old(out)@ + spec_varint(n));
        }
    } else if n <= 0xffffffff {
        out.push(0xfeu8);
        put_u32_le(out, n as u32);
        proof {
            assert(out@ =~= old(out)@ + spec_varint(n));
        }
    } else {
        out.push(0xffu8);
        put_u64_le(out, n);
        proof {
            assert(out@ =~= old(out)@ + spec_varint(n));
        }
    }
}

/// Appends a minimal script push.
pub fn put_push(out: &mut Vec<u8>, b: &Vec<u8>)
    requires
        b@.len() <= 255,
    ensures
        final(out)@ == old(out)@ + spec_push(b@),
{
    if b.len() <= 75 {
        out.push(b.len() as u8);
        put_bytes(out, b);
        proof {
            assert(out@ =~= old(out)@ + spec_push(b@));
        }
    } else {
        out.push(0x4cu8);
        out.push(b.len() as u8);
        put_bytes(out, b);
        proof {
            assert(out@ =~= old(out)@ + spec_push(b@));
        }
    }
}

/// One wire-level input: outpoint, unlocking script, witness stack and
/// sequence number.
pub ghost struct WireInV {
    pub txid: Seq<u8>,
    pub vout: u32,
    pub script_sig: Seq<u8>,
    pub witness: Seq<Seq<u8>>,
    pub sequence: u32,
}

/// A claimed input ready for serialization.
#[derive(Clone, Debug)]
pub struct ClaimedInput {
    pub txid: Vec<u8>,
    pub vout: u32,
    pub script_sig: Vec<u8>,
    pub witness: Vec<Vec<u8>>,
    pub sequence: u32,
}

impl View for ClaimedInput {
    type V = WireInV;

    open spec fn view(&self) -> WireInV {
        WireInV {
            txid: self.txid@,
            vout: self.vout,
            script_sig: self.script_sig@,
            witness: self.witness@.map_values(|w: Vec<u8>| w@),
            sequence: self.sequence,
        }
    }
}

/// View of a sequence of claimed inputs.
pub open spec fn wire_views(s: Seq<ClaimedInput>) -> Seq<WireInV> {
    s.map_values(|c: ClaimedInput| c@)
}

/// Serialization of one input without its witness.
pub open spec fn spec_ser_in(i: WireInV) -> Seq<u8> {
    i.txid + spec_u32_le(i.vout) + spec_varint(i.script_sig.len() as u64) + i.script_sig
        + spec_u32_le(i.sequence)
}

/// Serialization of a list of inputs.
pub open spec fn spec_ser_ins(s: Seq<WireInV>) -> Seq<u8>
    decreases s.len(),
{
    if s.len() == 0 {
        Seq::empty()
    } else {
        spec_ser_ins(s.drop_last()) + spec_ser_in(s.last())
    }
}

/// Serialization of one output.
pub open spec fn spec_ser_out(o: OutV) -> Seq<u8> {
    spec_u64_le(o.value) + spec_varint(o.script_pubkey.len() as u64) + o.script_pubkey
}

/// Serialization of a list of outputs.
pub open spec fn spec_ser_outs(s: Seq<OutV>) -> Seq<u8>
    decreases s.len(),
{
    if s.len() == 0 {
        Seq::empty()
    } else {
        spec_ser_outs(s.drop_last()) + spec_ser_out(s.last())
    }
}

/// Serialization of the items of one witness stack.
pub open spec fn spec_ser_witness_items(s: Seq<Seq<u8>>) -> Seq<u8>
    decreases s.len(),
{
    if s.len() == 0 {
        Seq::empty()
    } else {
        spec_ser_witness_items(s.drop_last()) + spec_varint(s.last().len() as u64) + s.last()
    }
}

/// Serialization of one witness stack: item count, then each item with its
/// length.
pub open spec fn spec_ser_witness(s: Seq<Seq<u8>>) -> Seq<u8> {
    spec_varint(s.len() as u64) + spec_ser_witness_items(s)
}

/// Serialization of the witness section: one stack per input.
pub open spec fn spec_ser_witnesses(s: Seq<WireInV>) -> Seq<u8>
    decreases s.len(),
{
    if s.len() == 0 {
        Seq::empty()
    } else {
        spec_ser_witnesses(s.drop_last()) + spec_ser_witness(s.last().witness)
    }
}

/// Whether any input carries a witness item.
pub open spec fn spec_has_witness(s: Seq<WireInV>) -> bool {
    exists|i: int| 0 <= i < s.len() && #[trigger] s[i].witness.len() > 0
}

/// The legacy serialization: version, inputs, outputs, lock time, with no
/// witness data.
pub open spec fn spec_ser_tx_legacy(
    version: u32,
    ins: Seq<WireInV>,
    outs: Seq<OutV>,
    lock_time: u32,
) -> Seq<u8> {
    spec_u32_le(version) + spec_varint(ins.len() as u64) + spec_ser_ins(ins) + spec_varint(
        outs.len() as u64,
    ) + spec_ser_outs(outs) + spec_u32_le(lock_time)
}

/// The wire serialization: segwit layout with marker and flag when any
/// input has a witness item, the legacy layout otherwise.
pub open spec fn spec_ser_tx(
    version: u32,
    ins: Seq<WireInV>,
    outs: Seq<OutV>,
    lock_time: u32,
) -> Seq<u8> {
    if spec_has_witness(ins) {
        spec_u32_le(version) + seq![0x00u8, 0x01u8] + spec_varint(ins.len() as u64) + spec_ser_ins(
            ins,
        ) + spec_varint(outs.len() as u64) + spec_ser_outs(outs) + spec_ser_witnesses(ins)
            + spec_u32_le(lock_time)
    } else {
        spec_ser_tx_legacy(version, ins, outs, lock_time)
    }
}

/// The transaction id in display order: the reversed double-SHA256 of the
/// legacy serialization.
pub open spec fn spec_txid(
    version: u32,
    ins: Seq<WireInV>,
    outs: Seq<OutV>,
    lock_time: u32,
) -> Seq<u8> {
    sha256_of(sha256_of(spec_ser_tx_legacy(version, ins, outs, lock_time))).reverse()
}

/// take of one more element splits off the element itself.
pub proof fn lemma_take_snoc<T>(s: Seq<T>, i: int)
    requires
        0 <= i < s.len(),
    ensures
        s.take(i + 1).drop_last() == s.take(i),
        s.take(i + 1).last() == s[i],
{
    assert(s.take(i + 1).drop_last() =~= s.take(i));
}

/// Appends the input section.
pub fn put_ins(out: &mut Vec<u8>, ins: &Vec<ClaimedInput>)
    ensures
        final(out)@ == old(out)@ + spec_ser_ins(wire_views(ins@)),
{
    let ghost views = wire_views(ins@);
    let mut i: usize = 0;
    proof {
        assert(views.take(0) =~= Seq::<WireInV>::empty());
        assert(out@ =~= old(out)@ + spec_ser_ins(views.take(0)));
    }
    while i < ins.len()
        invariant
            0 <= i <= ins.len(),
            views == wire_views(ins@),
            views.len() == ins@.len(),
            forall|j: int| 0 <= j < ins@.len() ==> views[j] == #[trigger] ins@[j]@,
            out@ == old(out)@ + spec_ser_ins(views.take(i as int)),
        decreases ins.len() - i,
    {
        let inp = &ins[i];
        put_bytes(out, &inp.txid);
        put_u32_le(out, inp.vout);
        put_varint(out, inp.script_sig.len() as u64);
        put_bytes(out, &inp.script_sig);
        put_u32_le(out, inp.sequence);
        proof {
            lemma_take_snoc(views, i as int);
            assert(out@ =~= old(out)@ + spec_ser_ins(views.take(i + 1)));
        }
        i = i + 1;
    }
    proof {
        assert(views.take(ins@.len() as int) =~= views);
    }
}

/// Appends the output section.
pub fn put_outs(out: &mut Vec<u8>, outs: &Vec<crate::types::TxOutRec>)
    ensures
        final(out)@ == old(out)@ + spec_ser_outs(crate::types::out_views(outs@)),
{
    let ghost views = crate::types::out_views(outs@);
    let mut i: usize = 0;
    proof {
        assert(views.take(0) =~= Seq::<OutV>::empty());
        assert(out@ =~= old(out)@ + spec_ser_outs(views.take(0)));
    }
    while i < outs.len()
        invariant
            0 <= i <= outs.len(),
            views == crate::types::out_views(outs@),
            views.len() == outs@.len(),
            forall|j: int| 0 <= j < outs@.len() ==> views[j] == #[trigger] outs@[j]@,
            out@ == old(out)@ + spec_ser_outs(views.take(i as int)),
        decreases outs.len() - i,
    {
        let o = &outs[i];
        put_u64_le(out, o.value);
        put_varint(out, o.script_pubkey.len() as u64);
        put_bytes(out, &o.script_pubkey);
        proof {
            lemma_take_snoc(views, i as int);
            assert(out@ =~= old(out)@ + spec_ser_outs(views.take(i + 1)));
        }
        i = i + 1;
    }
    proof {
        assert(views.take(outs@.len() as int) =~= views);
    }
}

/// Appends one witness stack.
pub fn put_witness(out: &mut Vec<u8>, w: &Vec<Vec<u8>>)
    ensures
        final(out)@ == old(out)@ + spec_ser_witness(w@.map_values(|x: Vec<u8>| x@)),
{
    let ghost views = w@.map_values(|x: Vec<u8>| x@);
    put_varint(out, w.len() as u64);
    let ghost base = out@;
    let mut i: usize = 0;
    proof {
        assert(views.take(0) =~= Seq::<Seq<u8>>::empty());
        assert(out@ =~= base + spec_ser_witness_items(views.take(0)));
    }
    while i < w.len()
        invariant
            0 <= i <= w.len(),
            views == w@.map_values(|x: Vec<u8>| x@),
            views.len() == w@.len(),
            forall|j: int| 0 <= j < w@.len() ==> views[j] == #[trigger] w@[j]@,
            out@ == base + spec_ser_witness_items(views.take(i as int)),
        decreases w.len() - i,
    {
        let item = &w[i];
        put_varint(out, item.len() as u64);
        put_bytes(out, item);
        proof {
            lemma_take_snoc(views, i as int);
            assert(out@ =~= base + spec_ser_witness_items(views.take(i + 1)));
        }
        i = i + 1;
    }
    proof {
        assert(views.take(w@.len() as int) =~= views);
        assert(out@ =~= old(out)@ + spec_ser_witness(views));
    }
}

/// Appends the witness section, one stack per input.
pub fn put_witnesses(out: &mut Vec<u8>, ins: &Vec<ClaimedInput>)
    ensures
        final(out)@ == old(out)@ + spec_ser_witnesses(wire_views(ins@)),
{
    let ghost views = wire_views(ins@);
    let mut i: usize = 0;
    proof {
        assert(views.take(0) =~= Seq::<WireInV>::empty());
        assert(out@ =~= old(out)@ + spec_ser_witnesses(views.take(0)));
    }
    while i < ins.len()
        invariant
            0 <= i <= ins.len(),
            views == wire_views(ins@),
            views.len() == ins@.len(),
            forall|j: int| 0 <= j < ins@.len() ==> views[j] == #[trigger] ins@[j]@,
            out@ == old(out)@ + spec_ser_witnesses(views.take(i as int)),
        decreases ins.len() - i,
    {
        put_witness(out, &ins[i].witness);
        proof {
            lemma_take_snoc(views, i as int);
            assert(out@ =~= old(out)@ + spec_ser_witnesses(views.take(i + 1)));
        }
        i = i + 1;
    }
    proof {
        assert(views.take(ins@.len() as int) =~= views);
    }
}

/// Whether any of the claimed inputs carries a witness item.
pub fn has_witness(ins: &Vec<ClaimedInput>) -> (r: bool)
    ensures
        r == spec_has_witness(wire_views(ins@)),
{
    let ghost views = wire_views(ins@);
    let mut i: usize = 0;
    while i < ins.len()
        invariant
            0 <= i <= ins.len(),
            views == wire_views(ins@),
            views.len() == ins@.len(),
            forall|j: int| 0 <= j < ins@.len() ==> views[j] == #[trigger] ins@[j]@,
            forall|j: int| 0 <= j < i ==> #[trigger] views[j].witness.len() == 0,
        decreases ins.len() - i,
    {
        if ins[i].witness.len() > 0 {
            proof {
                assert(views[i as int].witness.len() > 0);
            }
            return true;
        }
        i = i + 1;
    }
    false
}

/// Serializes a transaction in the legacy layout, witnesses stripped.
pub fn ser_tx_legacy(
    version: u32,
    ins: &Vec<ClaimedInput>,
    outs: &Vec<crate::types::TxOutRec>,
    lock_time: u32,
) -> (r: Vec<u8>)
    ensures
        r@ == spec_ser_tx_legacy(version, wire_views(ins@), crate::types::out_views(outs@), lock_time),
{
    let mut out: Vec<u8> = Vec::new();
    put_u32_le(&mut out, version);
    put_varint(&mut out, ins.len() as u64);
    put_ins(&mut out, ins);
    put_varint(&mut out, outs.len() as u64);
    put_outs(&mut out, outs);
    put_u32_le(&mut out, lock_time);
    proof {
        assert(out@ =~= spec_ser_tx_legacy(
            version,
            wire_views(ins@),
            crate::types::out_views(outs@),
            lock_time,
        ));
    }
    out
}

/// Serializes a transaction in the canonical wire layout.
pub fn ser_tx(
    version: u32,
    ins: &Vec<ClaimedInput>,
    outs: &Vec<crate::types::TxOutRec>,
    lock_time: u32,
) -> (r: Vec<u8>)
    ensures
        r@ == spec_ser_tx(version, wire_views(ins@), crate::types::out_views(outs@), lock_time),
{
    if has_witness(ins) {
        let mut out: Vec<u8> = Vec::new();
        put_u32_le(&mut out, version);
        put_byte(&mut out, 0x00u8);
        put_byte(&mut out, 0x01u8);
        put_varint(&mut out, ins.len() as u64);
        put_ins(&mut out, ins);
        put_varint(&mut out, outs.len() as u64);
        put_outs(&mut out, outs);
        put_witnesses(&mut out, ins);
        put_u32_le(&mut out, lock_time);
        proof {
            assert(out@ =~= spec_ser_tx(
                version,
                wire_views(ins@),
                crate::types::out_views(outs@),
                lock_time,
            ));
        }
        out
    } else {
        ser_tx_legacy(version, ins, outs, lock_time)
    }
}

/// Reverses a byte vector.
pub fn reverse_bytes(b: &Vec<u8>) -> (r: Vec<u8>)
    ensures
        r@ == b@.reverse(),
{
    let mut r: Vec<u8> = Vec::new();
    let mut i: usize = b.len();
    while i > 0
        invariant
            0 <= i <= b.len(),
            r@.len() == b@.len() - i,
            forall|j: int| 0 <= j < r@.len() ==> r@[j] == b@[b@.len() - 1 - j],
        decreases i,
    {
        i = i - 1;
        r.push(b[i]);
    }
    proof {
        assert(r@ =~= b@.reverse());
    }
    r
}

} // verus!
