use vstd::prelude::*;
use crate::crypto::{control_block_check, control_block_decodes};
use crate::encode::{put_push, spec_push, ClaimedInput, WireInV, wire_views};
use crate::sighash::SEQUENCE_FINAL;
use crate::types::{ClaimPlan, ClaimPlanV, ClassV, ClassifiedInput, ErrorKind, class_views};

verus! {

/// The unlocking pair of one input: script_sig bytes and witness stack.
pub ghost struct ClaimV {
    pub script_sig: Seq<u8>,
    pub witness: Seq<Seq<u8>>,
}

/// The unlocking pair a claim plan and a signature assemble to:
/// p2pkh pushes the signature and the key material in the script_sig and
/// leaves the witness empty; p2wpkh carries signature and program hash as
/// the two witness items; taproot key-path carries the signature alone;
/// taproot script-path carries signature, script payload and control
/// block; a custom input passes the caller's script_sig and witness items
/// through unchanged, in content and order, and uses no signature. A
/// signature or key push beyond 255 bytes cannot be serialized; a
/// malformed control block is an invalid script.
pub open spec fn spec_claim(c: ClaimPlanV, sig: Seq<u8>) -> Result<ClaimV, ErrorKind> {
    match c {
        ClaimPlanV::P2pkh(pb) => if sig.len() > 255 || pb.len() > 255 {
            Err(ErrorKind::SerializationFailure)
        } else {
            Ok(ClaimV { script_sig: spec_push(sig) + spec_push(pb), witness: Seq::empty() })
        },
        ClaimPlanV::P2wpkh(h) => Ok(ClaimV { script_sig: Seq::empty(), witness: seq![sig, h] }),
        ClaimPlanV::P2trKeyPath => Ok(ClaimV { script_sig: Seq::empty(), witness: seq![sig] }),
        ClaimPlanV::P2trScriptPath { payload, control_block } => if control_block_decodes(
            control_block,
        ) {
            Ok(ClaimV { script_sig: Seq::empty(), witness: seq![sig, payload, control_block] })
        } else {
            Err(ErrorKind::InvalidScript)
        },
        ClaimPlanV::Custom { script_sig, witness_items } => Ok(
            ClaimV { script_sig, witness: witness_items },
        ),
    }
}

/// Assembles the unlocking pair of one input from its claim plan and its
/// signature.
pub fn build_claim(c: &ClaimPlan, sig: &Vec<u8>) -> (r: Result<(Vec<u8>, Vec<Vec<u8>>), ErrorKind>)
    ensures
        match r {
            Ok(p) => spec_claim(c@, sig@) == Ok::<ClaimV, ErrorKind>(
                ClaimV { script_sig: p.0@, witness: p.1@.map_values(|w: Vec<u8>| w@) },
            ),
            Err(e) => spec_claim(c@, sig@) == Err::<ClaimV, ErrorKind>(e),
        },
{
    match c {
        ClaimPlan::P2pkh(pb) => {
            if sig.len() > 255 || pb.len() > 255 {
                Err(ErrorKind::SerializationFailure)
            } else {
                let mut ss: Vec<u8> = Vec::new();
                put_push(&mut ss, sig);
                put_push(&mut ss, pb);
                let w: Vec<Vec<u8>> = Vec::new();
                proof {
                    assert(ss@ =~= spec_push(sig@) + spec_push(pb@));
                    assert(w@.map_values(|x: Vec<u8>| x@) =~= Seq::<Seq<u8>>::empty());
                }
                Ok((ss, w))
            }
        },
        ClaimPlan::P2wpkh(h) => {
            let ss: Vec<u8> = Vec::new();
            let mut w: Vec<Vec<u8>> = Vec::new();
            w.push(sig.clone());
            w.push(h.clone());
            proof {
                assert(w@.map_values(|x: Vec<u8>| x@) =~= seq![sig@, h@]);
            }
            Ok((ss, w))
        },
        ClaimPlan::P2trKeyPath => {
            let ss: Vec<u8> = Vec::new();
            let mut w: Vec<Vec<u8>> = Vec::new();
            w.push(sig.clone());
            proof {
                assert(w@.map_values(|x: Vec<u8>| x@) =~= seq![sig@]);
            }
            Ok((ss, w))
        },
        ClaimPlan::P2trScriptPath { payload, control_block } => {
            if control_block_check(control_block) {
                let ss: Vec<u8> = Vec::new();
                let mut w: Vec<Vec<u8>> = Vec::new();
                w.push(sig.clone());
                w.push(payload.clone());
                w.push(control_block.clone());
                proof {
                    assert(w@.map_values(|x: Vec<u8>| x@) =~= seq![sig@, payload@,
                        control_block@]);
                }
                Ok((ss, w))
            } else {
                Err(ErrorKind::InvalidScript)
            }
        },
        ClaimPlan::Custom { script_sig, witness_items } => {
            let ss = script_sig.clone();
            let w = crate::types::clone_items(witness_items);
            proof {
                assert(w@.map_values(|x: Vec<u8>| x@) =~= witness_items@.map_values(
                    |x: Vec<u8>| x@,
                ));
            }
            Ok((ss, w))
        },
    }
}

/// The wire-level input a classified input and its signature claim to.
pub open spec fn spec_claimed(c: ClassV, sig: Seq<u8>) -> Result<WireInV, ErrorKind> {
    match spec_claim(c.claim, sig) {
        Ok(p) => Ok(
            WireInV {
                txid: c.txid,
                vout: c.vout,
                script_sig: p.script_sig,
                witness: p.witness,
                sequence: SEQUENCE_FINAL,
            },
        ),
        Err(e) => Err(e),
    }
}

/// Claims every selected input with its parallel signature; the first
/// failing input decides the error.
pub open spec fn spec_claims_all(ins: Seq<ClassV>, sigs: Seq<Seq<u8>>) -> Result<
    Seq<WireInV>,
    ErrorKind,
>
    recommends
        ins.len() == sigs.len(),
    decreases ins.len(),
{
    if ins.len() == 0 {
        Ok(Seq::empty())
    } else {
        match spec_claims_all(ins.drop_last(), sigs.drop_last()) {
            Err(e) => Err(e),
            Ok(ws) => match spec_claimed(ins.last(), sigs.last()) {
                Err(e) => Err(e),
                Ok(w) => Ok(ws.push(w)),
            },
        }
    }
}

/// An error at position i, after a clean prefix, decides the whole claim
/// assembly.
proof fn lemma_claims_all_err(ins: Seq<ClassV>, sigs: Seq<Seq<u8>>, i: int, e: ErrorKind)
    requires
        ins.len() == sigs.len(),
        0 <= i < ins.len(),
        spec_claims_all(ins.take(i), sigs.take(i)) is Ok,
        spec_claimed(ins[i], sigs[i]) == Err::<WireInV, ErrorKind>(e),
    ensures
        spec_claims_all(ins, sigs) == Err::<Seq<WireInV>, ErrorKind>(e),
    decreases ins.len(),
{
    if i + 1 == ins.len() {
        assert(ins.drop_last() =~= ins.take(i));
        assert(sigs.drop_last() =~= sigs.take(i));
    } else {
        assert(ins.drop_last().take(i) =~= ins.take(i));
        assert(sigs.drop_last().take(i) =~= sigs.take(i));
        lemma_claims_all_err(ins.drop_last(), sigs.drop_last(), i, e);
    }
}

/// Claims every selected input with its parallel signature.
pub fn claims_all(ins: &Vec<ClassifiedInput>, sigs: &Vec<Vec<u8>>) -> (r: Result<
    Vec<ClaimedInput>,
    ErrorKind,
>)
    requires
        ins@.len() == sigs@.len(),
    ensures
        match r {
            Ok(ws) => spec_claims_all(class_views(ins@), crate::types::byte_views(sigs@)) == Ok::<
                Seq<WireInV>,
                ErrorKind,
            >(wire_views(ws@)),
            Err(e) => spec_claims_all(class_views(ins@), crate::types::byte_views(sigs@)) == Err::<
                Seq<WireInV>,
                ErrorKind,
            >(e),
        },
{
    let ghost cviews = class_views(ins@);
    let ghost sviews = crate::types::byte_views(sigs@);
    let mut out: Vec<ClaimedInput> = Vec::new();
    let mut i: usize = 0;
    proof {
        assert(cviews.take(0) =~= Seq::<ClassV>::empty());
        assert(sviews.take(0) =~= Seq::<Seq<u8>>::empty());
        assert(wire_views(out@) =~= Seq::<WireInV>::empty());
    }
    while i < ins.len()
        invariant
            0 <= i <= ins@.len(),
            ins@.len() == sigs@.len(),
            cviews == class_views(ins@),
            sviews == crate::types::byte_views(sigs@),
            cviews.len() == ins@.len(),
            sviews.len() == sigs@.len(),
            forall|j: int| 0 <= j < ins@.len() ==> cviews[j] == #[trigger] ins@[j]@,
            forall|j: int| 0 <= j < sigs@.len() ==> sviews[j] == #[trigger] sigs@[j]@,
            spec_claims_all(cviews.take(i as int), sviews.take(i as int)) == Ok::<
                Seq<WireInV>,
                ErrorKind,
            >(wire_views(out@)),
        decreases ins.len() - i,
    {
        let pair = match build_claim(&ins[i].claim, &sigs[i]) {
            Ok(p) => p,
            Err(e) => {
                proof {
                    lemma_claims_all_err(cviews, sviews, i as int, e);
                }
                return Err(e);
            },
        };
        let w = ClaimedInput {
            txid: ins[i].txid.clone(),
            vout: ins[i].vout,
            script_sig: pair.0,
            witness: pair.1,
            sequence: SEQUENCE_FINAL,
        };
        proof {
            crate::encode::lemma_take_snoc(cviews, i as int);
            crate::encode::lemma_take_snoc(sviews, i as int);
            assert(spec_claimed(cviews[i as int], sviews[i as int]) == Ok::<WireInV, ErrorKind>(
                w@,
            ));
            assert(wire_views(out@.push(w)) =~= wire_views(out@).push(w@));
        }
        out.push(w);
        i = i + 1;
    }
    proof {
        assert(cviews.take(cviews.len() as int) =~= cviews);
        assert(sviews.take(sviews.len() as int) =~= sviews);
    }
    Ok(out)
}

} // verus!
