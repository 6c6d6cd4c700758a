use vstd::prelude::*;
use crate::classify::{classify_all, process_recipients, spec_classify_all, spec_outputs};
use crate::claim::{claims_all, spec_claims_all};
use crate::crypto::seckey_decodes;
use crate::encode::{reverse_bytes, ser_tx, ser_tx_legacy, spec_ser_tx, spec_txid};
use crate::select::{
    lemma_selected_membership, lemma_sum_take_snoc,
    select_inputs, spec_selected,
};
use crate::sighash::{compute_sighashes, sha256d, spec_sighash_entries};
use crate::signer::{sign_all, spec_signatures};
use crate::types::{
    ClassV, ClassifiedInput, ErrorKind, lock_time_value, OutV, PreSigningOutput, SighashEntry,
    SighashEntryV, SigningOutput, SigningRequest, SignerMode, spec_lock_time, sum_amounts,
    sum_values, TxOutRec, byte_views, class_views, out_views, wf_class,
};

verus! {

/// A stand-in for coin-registry integrations that this core does not
/// model.
pub struct PlaceHolder;

/// This core offers no JSON-based signing.
pub struct NoJsonSigner;

/// The Bitcoin transaction signing core: preimage hashing, signing and
/// compilation of a declarative request into wire bytes.
pub struct BitcoinEntry;

/// Ghost result of preimage hashing.
pub ghost struct PreV {
    pub sighashes: Seq<SighashEntryV>,
    pub inputs: Seq<ClassV>,
    pub outputs: Seq<OutV>,
}

/// Ghost result of compilation.
pub ghost struct SignedV {
    pub encoded: Seq<u8>,
    pub transaction_id: Seq<u8>,
    pub fee: u64,
}

/// Ghost view of a preimage response.
pub open spec fn pre_view(p: PreSigningOutput) -> PreV {
    PreV {
        sighashes: p.sighashes@.map_values(|e: SighashEntry| e@),
        inputs: class_views(p.utxo_inputs@),
        outputs: out_views(p.utxo_outputs@),
    }
}

/// Ghost view of a signing response.
pub open spec fn signed_view(s: SigningOutput) -> SignedV {
    SignedV { encoded: s.encoded@, transaction_id: s.transaction_id@, fee: s.fee }
}

/// The classified-and-selected plan of a request: its processed outputs,
/// and the inputs its selector chooses. The first failing output decides
/// the error, then the first failing input, then the funds check.
pub open spec fn spec_plan(req: SigningRequest) -> Result<(Seq<ClassV>, Seq<OutV>), ErrorKind> {
    match spec_outputs(req.outputs@) {
        Err(e) => Err(e),
        Ok(outs) => match spec_classify_all(req.inputs@) {
            Err(e) => Err(e),
            Ok(cls) => match spec_selected(cls, req.input_selector, sum_values(outs)) {
                Err(e) => Err(e),
                Ok(sel) => Ok((sel, outs)),
            },
        },
    }
}

/// Whether a selected input carries raw caller-supplied claim material.
pub open spec fn has_custom(s: Seq<ClassV>) -> bool {
    exists|i: int|
        0 <= i < s.len() && (#[trigger] s[i].claim) matches crate::types::ClaimPlanV::Custom {
            ..
        }
}

/// What preimage hashing returns: one sighash entry per selected input,
/// beside the selected inputs and the processed outputs. A custom input
/// declares no sighash algorithm or locking script, so a selection that
/// contains one cannot be hashed and is refused rather than hashed wrong.
pub open spec fn spec_preimage(req: SigningRequest) -> Result<PreV, ErrorKind> {
    match spec_plan(req) {
        Err(e) => Err(e),
        Ok(plan) => if has_custom(plan.0) {
            Err(ErrorKind::UnsupportedVariant)
        } else {
            Ok(
                PreV {
                    sighashes: spec_sighash_entries(
                        req.version as u32,
                        spec_lock_time(req.lock_time),
                        plan.0,
                        plan.1,
                    ),
                    inputs: plan.0,
                    outputs: plan.1,
                },
            )
        },
    }
}

/// The fee a selection implies, saturated to 64 bits.
pub open spec fn spec_fee(total_in: int, total_out: int) -> u64 {
    let d = total_in - total_out;
    if d < 0 {
        0u64
    } else if d > 0xffff_ffff_ffff_ffff {
        0xffff_ffff_ffff_ffffu64
    } else {
        d as u64
    }
}

/// What compilation returns: the wire bytes of the claimed transaction,
/// its display-order transaction id, and the implied fee. A signature
/// count differing from the selected input count is an error.
pub open spec fn spec_compile(req: SigningRequest, sigs: Seq<Seq<u8>>) -> Result<
    SignedV,
    ErrorKind,
> {
    match spec_plan(req) {
        Err(e) => Err(e),
        Ok(plan) => if sigs.len() != plan.0.len() {
            Err(ErrorKind::SignatureCountMismatch)
        } else {
            match spec_claims_all(plan.0, sigs) {
                Err(e) => Err(e),
                Ok(wires) => Ok(
                    SignedV {
                        encoded: spec_ser_tx(
                            req.version as u32,
                            wires,
                            plan.1,
                            spec_lock_time(req.lock_time),
                        ),
                        transaction_id: spec_txid(
                            req.version as u32,
                            wires,
                            plan.1,
                            spec_lock_time(req.lock_time),
                        ),
                        fee: spec_fee(sum_amounts(plan.0), sum_values(plan.1)),
                    },
                ),
            }
        },
    }
}

/// What deterministic signing returns: the compilation of the request
/// under the deterministic signatures of its own preimage hashes. Signing
/// fails exactly when the private key is not a valid secret key.
pub open spec fn spec_sign(req: SigningRequest) -> Result<SignedV, ErrorKind> {
    match spec_preimage(req) {
        Err(e) => Err(e),
        Ok(p) => if !seckey_decodes(req.private_key@) {
            Err(ErrorKind::SigningFailure)
        } else {
            spec_compile(
                req,
                spec_signatures(
                    p.inputs,
                    p.sighashes.map_values(|e: SighashEntryV| e.sighash),
                    req.private_key@,
                ),
            )
        },
    }
}

/// Prefix sums of output values, one element longer.
proof fn lemma_sumv_take_snoc(s: Seq<OutV>, k: int)
    requires
        0 <= k < s.len(),
    ensures
        sum_values(s.take(k + 1)) == sum_values(s.take(k)) + s[k].value,
{
    crate::encode::lemma_take_snoc(s, k);
    assert(sum_values(s.take(k + 1)) == sum_values(s.take(k + 1).drop_last()) + s.take(
        k + 1,
    ).last().value);
}

/// Sums the values of processed outputs.
fn total_out_value(outs: &Vec<TxOutRec>) -> (r: u128)
    ensures
        r as int == sum_values(out_views(outs@)),
{
    let ghost views = out_views(outs@);
    let mut total: u128 = 0;
    let mut i: usize = 0;
    proof {
        assert(views.take(0) =~= Seq::<OutV>::empty());
    }
    while i < outs.len()
        invariant
            0 <= i <= outs@.len(),
            views == out_views(outs@),
            views.len() == outs@.len(),
            forall|j: int| 0 <= j < outs@.len() ==> views[j] == #[trigger] outs@[j]@,
            total as int == sum_values(views.take(i as int)),
            total as int <= i * 0xffff_ffff_ffff_ffff,
        decreases outs.len() - i,
    {
        proof {
            lemma_sumv_take_snoc(views, i as int);
            assert((i + 1) * 0xffff_ffff_ffff_ffff == i * 0xffff_ffff_ffff_ffff
                + 0xffff_ffff_ffff_ffff) by (nonlinear_arith);
            assert(outs@.len() * 0xffff_ffff_ffff_ffff < 0x1_0000_0000_0000_0000
                * 0xffff_ffff_ffff_ffff) by (nonlinear_arith)
                requires
                    outs@.len() < 0x1_0000_0000_0000_0000,
            ;
            assert(i * 0xffff_ffff_ffff_ffff <= outs@.len() * 0xffff_ffff_ffff_ffff)
                by (nonlinear_arith)
                requires
                    0 <= i <= outs@.len(),
            ;
        }
        total = total + outs[i].value as u128;
        i = i + 1;
    }
    proof {
        assert(views.take(views.len() as int) =~= views);
    }
    total
}

/// Sums the amounts of classified inputs.
fn total_in_amount(ins: &Vec<ClassifiedInput>) -> (r: u128)
    ensures
        r as int == sum_amounts(class_views(ins@)),
{
    let ghost views = class_views(ins@);
    let mut total: u128 = 0;
    let mut i: usize = 0;
    proof {
        assert(views.take(0) =~= Seq::<ClassV>::empty());
    }
    while i < ins.len()
        invariant
            0 <= i <= ins@.len(),
            views == class_views(ins@),
            views.len() == ins@.len(),
            forall|j: int| 0 <= j < ins@.len() ==> views[j] == #[trigger] ins@[j]@,
            total as int == sum_amounts(views.take(i as int)),
            total as int <= i * 0xffff_ffff_ffff_ffff,
        decreases ins.len() - i,
    {
        proof {
            lemma_sum_take_snoc(views, i as int);
            assert((i + 1) * 0xffff_ffff_ffff_ffff == i * 0xffff_ffff_ffff_ffff
                + 0xffff_ffff_ffff_ffff) by (nonlinear_arith);
            assert(ins@.len() * 0xffff_ffff_ffff_ffff < 0x1_0000_0000_0000_0000
                * 0xffff_ffff_ffff_ffff) by (nonlinear_arith)
                requires
                    ins@.len() < 0x1_0000_0000_0000_0000,
            ;
            assert(i * 0xffff_ffff_ffff_ffff <= ins@.len() * 0xffff_ffff_ffff_ffff)
                by (nonlinear_arith)
                requires
                    0 <= i <= ins@.len(),
            ;
        }
        total = total + ins[i].amount as u128;
        i = i + 1;
    }
    proof {
        assert(views.take(views.len() as int) =~= views);
    }
    total
}

/// Classifies, selects and proves the selected inputs well formed.
fn plan_request(req: &SigningRequest) -> (r: Result<
    (Vec<ClassifiedInput>, Vec<TxOutRec>, u128),
    ErrorKind,
>)
    ensures
        match r {
            Ok(p) => spec_plan(*req) == Ok::<(Seq<ClassV>, Seq<OutV>), ErrorKind>(
                (class_views(p.0@), out_views(p.1@)),
            ) && (forall|j: int| 0 <= j < p.0@.len() ==> wf_class(#[trigger] p.0@[j]@))
                && p.0@.len() <= req.inputs@.len() && p.2 as int == sum_values(out_views(p.1@)),
            Err(e) => spec_plan(*req) == Err::<(Seq<ClassV>, Seq<OutV>), ErrorKind>(e),
        },
{
    let outs = match process_recipients(&req.outputs) {
        Ok(o) => o,
        Err(e) => {
            return Err(e);
        },
    };
    let cls = match classify_all(&req.inputs) {
        Ok(c) => c,
        Err(e) => {
            return Err(e);
        },
    };
    let ghost cviews = class_views(cls@);
    proof {
        assert(spec_classify_all(req.inputs@) == Ok::<Seq<ClassV>, ErrorKind>(cviews));
        assert(req.inputs@.len() == cviews.len()) by {
            lemma_classify_all_len(req.inputs@);
        }
    }
    let required = total_out_value(&outs);
    let sel = match select_inputs(cls, req.input_selector, required) {
        Ok(s) => s,
        Err(e) => {
            return Err(e);
        },
    };
    proof {
        lemma_selected_membership(cviews, req.input_selector, required as int);
        let selv = class_views(sel@);
        assert forall|j: int| 0 <= j < sel@.len() implies wf_class(#[trigger] sel@[j]@) by {
            assert(selv[j] == sel@[j]@);
            let k = choose|k: int| 0 <= k < cviews.len() && selv[j] == cviews[k];
            assert(wf_class(cviews[k]));
        }
        if req.input_selector == crate::types::InputSelector::AutomaticAscending {
            crate::select::lemma_sort_asc_permutes(cviews);
            crate::select::lemma_count_needed_minimal(
                crate::select::sort_asc(cviews),
                required as int,
            );
        }
    }
    Ok((sel, outs, required))
}

/// A classification that succeeds yields one classified input per input.
proof fn lemma_classify_all_len(s: Seq<crate::types::Input>)
    ensures
        spec_classify_all(s) matches Ok(cs) ==> cs.len() == s.len(),
    decreases s.len(),
{
    if s.len() > 0 {
        lemma_classify_all_len(s.drop_last());
    }
}

/// Whether any of the classified inputs carries a custom claim.
fn contains_custom(ins: &Vec<ClassifiedInput>) -> (r: bool)
    ensures
        r == has_custom(class_views(ins@)),
{
    let ghost views = class_views(ins@);
    let mut i: usize = 0;
    while i < ins.len()
        invariant
            0 <= i <= ins@.len(),
            views == class_views(ins@),
            views.len() == ins@.len(),
            forall|j: int| 0 <= j < ins@.len() ==> views[j] == #[trigger] ins@[j]@,
            forall|j: int|
                0 <= j < i ==> !((#[trigger] views[j].claim) matches
                crate::types::ClaimPlanV::Custom { .. }),
        decreases ins.len() - i,
    {
        let is_custom = match &ins[i].claim {
            crate::types::ClaimPlan::Custom { .. } => true,
            _ => false,
        };
        if is_custom {
            proof {
                assert(views[i as int].claim matches crate::types::ClaimPlanV::Custom { .. });
            }
            return true;
        }
        i = i + 1;
    }
    false
}

impl BitcoinEntry {
    /// Computes the signature preimage hashes of a request: classifies its
    /// inputs, selects those that cover the outputs, and emits one sighash
    /// entry per selected input, each 32 bytes. A custom input among the
    /// selected ones is refused: it declares no sighash algorithm.
    pub fn preimage_hashes(&self, req: &SigningRequest) -> (r: Result<
        PreSigningOutput,
        ErrorKind,
    >)
        requires
            req.inputs@.len() <= 0xffff_ffff,
        ensures
            match r {
                Ok(p) => spec_preimage(*req) == Ok::<PreV, ErrorKind>(pre_view(p)),
                Err(e) => spec_preimage(*req) == Err::<PreV, ErrorKind>(e),
            },
            r matches Ok(p) ==> p.sighashes@.len() == p.utxo_inputs@.len() && forall|i: int|
                0 <= i < p.sighashes@.len() ==> (#[trigger] p.sighashes@[i]@).sighash.len() == 32,
    {
        let plan = match plan_request(req) {
            Ok(p) => p,
            Err(e) => {
                return Err(e);
            },
        };
        let (sel, outs, _required) = plan;
        if contains_custom(&sel) {
            return Err(ErrorKind::UnsupportedVariant);
        }
        let version = #[verifier::truncate] (req.version as u32);
        let lock_time = lock_time_value(&req.lock_time);
        let entries = compute_sighashes(version, lock_time, &sel, &outs);
        proof {
            assert(entries@.map_values(|e: SighashEntry| e@) == spec_sighash_entries(
                version,
                lock_time,
                class_views(sel@),
                out_views(outs@),
            ));
        }
        Ok(PreSigningOutput { sighashes: entries, utxo_inputs: sel, utxo_outputs: outs })
    }

    /// Compiles a request and externally produced signatures, parallel to
    /// the selected inputs, into the signed wire bytes, the transaction id
    /// and the implied fee. A custom input's script_sig and witness items
    /// pass through unchanged; its parallel signature is not used.
    pub fn compile(&self, req: &SigningRequest, signatures: &Vec<Vec<u8>>) -> (r: Result<
        SigningOutput,
        ErrorKind,
    >)
        requires
            req.inputs@.len() <= 0xffff_ffff,
        ensures
            match r {
                Ok(s) => spec_compile(*req, byte_views(signatures@)) == Ok::<SignedV, ErrorKind>(
                    signed_view(s),
                ),
                Err(e) => spec_compile(*req, byte_views(signatures@)) == Err::<
                    SignedV,
                    ErrorKind,
                >(e),
            },
    {
        let plan = match plan_request(req) {
            Ok(p) => p,
            Err(e) => {
                return Err(e);
            },
        };
        let (sel, outs, required) = plan;
        if signatures.len() != sel.len() {
            return Err(ErrorKind::SignatureCountMismatch);
        }
        let wires = match claims_all(&sel, signatures) {
            Ok(w) => w,
            Err(e) => {
                return Err(e);
            },
        };
        let version = #[verifier::truncate] (req.version as u32);
        let lock_time = lock_time_value(&req.lock_time);
        let encoded = ser_tx(version, &wires, &outs, lock_time);
        let legacy = ser_tx_legacy(version, &wires, &outs, lock_time);
        let txid_rev = sha256d(&legacy);
        let transaction_id = reverse_bytes(&txid_rev);
        let total_in = total_in_amount(&sel);
        proof {
            assert(total_in as int >= required as int) by {
                let cviews = spec_plan(*req)->Ok_0.0;
                assert(spec_selected(cviews, req.input_selector, required as int) is Ok
                    ==> sum_amounts(cviews) >= required as int);
            }
        }
        let diff: u128 = total_in - required;
        let fee: u64 = if diff > 0xffff_ffff_ffff_ffffu128 {
            0xffff_ffff_ffff_ffffu64
        } else {
            diff as u64
        };
        Ok(SigningOutput { encoded, transaction_id, fee })
    }

    /// Signs a request end to end: preimage hashes, signatures under the
    /// request's private key, and compilation. In the deterministic mode
    /// the whole result is a function of the request alone, so two calls
    /// on one request return byte-identical output.
    ///
    /// The private key is borrowed from the request and not retained; the
    /// caller owns the buffer and its zeroization after the call.
    pub fn sign(&self, req: &SigningRequest, mode: SignerMode) -> (r: Result<
        SigningOutput,
        ErrorKind,
    >)
        requires
            req.inputs@.len() <= 0xffff_ffff,
        ensures
            mode == SignerMode::Deterministic ==> match r {
                Ok(s) => spec_sign(*req) == Ok::<SignedV, ErrorKind>(signed_view(s)),
                Err(e) => spec_sign(*req) == Err::<SignedV, ErrorKind>(e),
            },
            spec_preimage(*req) matches Err(e) ==> r == Err::<SigningOutput, ErrorKind>(e),
            spec_preimage(*req) is Ok && !seckey_decodes(req.private_key@) ==> r == Err::<
                SigningOutput,
                ErrorKind,
            >(ErrorKind::SigningFailure),
            r matches Ok(s) ==> exists|sigs: Seq<Seq<u8>>|
                #[trigger] spec_compile(*req, sigs) == Ok::<SignedV, ErrorKind>(signed_view(s)),
    {
        let pre = match self.preimage_hashes(req) {
            Ok(p) => p,
            Err(e) => {
                return Err(e);
            },
        };
        proof {
            assert(pre.utxo_inputs@.len() == pre.sighashes@.len());
        }
        let sigs = match sign_all(&req.private_key, &pre.utxo_inputs, &pre.sighashes, mode) {
            Ok(s) => s,
            Err(e) => {
                return Err(e);
            },
        };
        let out = match self.compile(req, &sigs) {
            Ok(o) => o,
            Err(e) => {
                proof {
                    if mode == SignerMode::Deterministic {
                        lemma_entry_sighash_views(pre);
                    }
                }
                return Err(e);
            },
        };
        proof {
            if mode == SignerMode::Deterministic {
                lemma_entry_sighash_views(pre);
            }
            assert(spec_compile(*req, byte_views(sigs@)) == Ok::<SignedV, ErrorKind>(
                signed_view(out),
            ));
        }
        Ok(out)
    }
}

/// The sighash column of a preimage response's entries.
proof fn lemma_entry_sighash_views(p: PreSigningOutput)
    ensures
        p.sighashes@.map_values(|e: SighashEntry| e@).map_values(|e: SighashEntryV| e.sighash)
            =~= p.sighashes@.map_values(|e: SighashEntry| e@.sighash),
{
}

} // verus!
