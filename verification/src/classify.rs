use vstd::prelude::*;
use crate::crypto::{
    compress_pubkey, compressed_pubkey_of, hash160, hash160_of, pubkey_decodes, tweak_pubkey,
    tweaked_output_key_of,
};
use crate::script::{
    p2pkh_script, p2tr_script, p2wpkh_script, spec_p2pkh_script, spec_p2tr_script,
    spec_p2wpkh_script, spec_tap_leaf_hash, tap_leaf_hash,
};
use crate::types::{
    BuilderInput, BuilderOutput, ClaimPlan, ClaimPlanV, ClassV, ClassifiedInput, ErrorKind, Input,
    InputVariant, Output, OutputRecipient, OutV, PkOrHash, TxOutRec, class_views, out_views,
};

verus! {

/// The 20-byte hash a p2pkh condition locks to: the hash as given, or
/// HASH160 of the public key's bytes as given.
pub open spec fn spec_pubkey_hash(p: PkOrHash) -> Result<Seq<u8>, ErrorKind> {
    match p {
        PkOrHash::Hash(h) => if h@.len() == 20 {
            Ok(h@)
        } else {
            Err(ErrorKind::InvalidKey)
        },
        PkOrHash::Pubkey(pk) => if pubkey_decodes(pk@) {
            Ok(hash160_of(pk@))
        } else {
            Err(ErrorKind::InvalidKey)
        },
    }
}

/// The 20-byte hash a p2wpkh condition locks to: the hash as given, or
/// HASH160 of the compressed SEC encoding of the public key.
pub open spec fn spec_witness_pubkey_hash(p: PkOrHash) -> Result<Seq<u8>, ErrorKind> {
    match p {
        PkOrHash::Hash(h) => if h@.len() == 20 {
            Ok(h@)
        } else {
            Err(ErrorKind::InvalidKey)
        },
        PkOrHash::Pubkey(pk) => if pubkey_decodes(pk@) {
            Ok(hash160_of(compressed_pubkey_of(pk@)))
        } else {
            Err(ErrorKind::InvalidKey)
        },
    }
}

/// Derives the 20-byte p2pkh hash from a key-or-hash descriptor.
pub fn pubkey_hash_of(p: &PkOrHash) -> (r: Result<Vec<u8>, ErrorKind>)
    ensures
        match r {
            Ok(h) => spec_pubkey_hash(*p) == Ok::<Seq<u8>, ErrorKind>(h@) && h@.len() == 20,
            Err(e) => spec_pubkey_hash(*p) == Err::<Seq<u8>, ErrorKind>(e),
        },
{
    match p {
        PkOrHash::Hash(h) => {
            if h.len() == 20 {
                Ok(h.clone())
            } else {
                Err(ErrorKind::InvalidKey)
            }
        },
        PkOrHash::Pubkey(pk) => {
            match compress_pubkey(pk) {
                Some(_) => Ok(hash160(pk)),
                Option::None => Err(ErrorKind::InvalidKey),
            }
        },
    }
}

/// Derives the 20-byte p2wpkh hash from a key-or-hash descriptor.
pub fn witness_pubkey_hash_of(p: &PkOrHash) -> (r: Result<Vec<u8>, ErrorKind>)
    ensures
        match r {
            Ok(h) => spec_witness_pubkey_hash(*p) == Ok::<Seq<u8>, ErrorKind>(h@) && h@.len()
                == 20,
            Err(e) => spec_witness_pubkey_hash(*p) == Err::<Seq<u8>, ErrorKind>(e),
        },
{
    match p {
        PkOrHash::Hash(h) => {
            if h.len() == 20 {
                Ok(h.clone())
            } else {
                Err(ErrorKind::InvalidKey)
            }
        },
        PkOrHash::Pubkey(pk) => {
            match compress_pubkey(pk) {
                Some(c) => Ok(hash160(&c)),
                Option::None => Err(ErrorKind::InvalidKey),
            }
        },
    }
}

/// The raw descriptor bytes a p2pkh claim pushes as its second item.
pub open spec fn spec_pk_or_hash_bytes(p: PkOrHash) -> Seq<u8> {
    match p {
        PkOrHash::Hash(h) => h@,
        PkOrHash::Pubkey(pk) => pk@,
    }
}

/// Assembles the classified view of an input.
pub open spec fn spec_class_of(
    i: Input,
    spk: Seq<u8>,
    method: crate::types::SighashMethod,
    leaf_hash: Seq<u8>,
    claim: ClaimPlanV,
) -> ClassV {
    ClassV {
        txid: i.txid@,
        vout: i.vout,
        amount: i.amount,
        script_pubkey: spk,
        method,
        leaf_hash,
        one_prevout: i.one_prevout,
        claim,
    }
}

/// Maps one input to its sighash algorithm, script_pubkey, optional
/// tap-leaf hash and claim material. A custom input carries the caller's
/// raw script_sig and witness as its claim; it declares no sighash
/// algorithm or locking script of its own, so its method and script fields
/// are placeholders that the preimage engine refuses to hash. The p2sh and
/// p2wsh conditions are unsupported; a txid that is not 32 bytes is a
/// missing field.
pub open spec fn spec_classify(i: Input) -> Result<ClassV, ErrorKind> {
    if i.txid@.len() != 32 {
        Err(ErrorKind::MissingField)
    } else {
        match i.variant {
            InputVariant::Builder(b) => match b {
                BuilderInput::P2pkh(poh) => match spec_pubkey_hash(poh) {
                    Ok(h) => Ok(
                        spec_class_of(
                            i,
                            spec_p2pkh_script(h),
                            crate::types::SighashMethod::Legacy,
                            Seq::empty(),
                            ClaimPlanV::P2pkh(spec_pk_or_hash_bytes(poh)),
                        ),
                    ),
                    Err(e) => Err(e),
                },
                BuilderInput::P2wpkh(poh) => match spec_witness_pubkey_hash(poh) {
                    Ok(h) => Ok(
                        spec_class_of(
                            i,
                            spec_p2wpkh_script(h),
                            crate::types::SighashMethod::Segwit,
                            Seq::empty(),
                            ClaimPlanV::P2wpkh(h),
                        ),
                    ),
                    Err(e) => Err(e),
                },
                BuilderInput::P2trKeyPath(pk) => if pubkey_decodes(pk@) {
                    Ok(
                        spec_class_of(
                            i,
                            spec_p2tr_script(tweaked_output_key_of(pk@, Seq::empty())),
                            crate::types::SighashMethod::Taproot,
                            Seq::empty(),
                            ClaimPlanV::P2trKeyPath,
                        ),
                    )
                } else {
                    Err(ErrorKind::InvalidKey)
                },
                BuilderInput::P2trScriptPath { payload, control_block } => Ok(
                    spec_class_of(
                        i,
                        payload@,
                        crate::types::SighashMethod::Taproot,
                        spec_tap_leaf_hash(payload@),
                        ClaimPlanV::P2trScriptPath {
                            payload: payload@,
                            control_block: control_block@,
                        },
                    ),
                ),
                BuilderInput::P2sh(_) => Err(ErrorKind::UnsupportedVariant),
                BuilderInput::P2wsh(_) => Err(ErrorKind::UnsupportedVariant),
            },
            InputVariant::Custom { script_sig, witness_items } => Ok(
                spec_class_of(
                    i,
                    Seq::empty(),
                    crate::types::SighashMethod::Legacy,
                    Seq::empty(),
                    ClaimPlanV::Custom {
                        script_sig: script_sig@,
                        witness_items: witness_items@.map_values(|w: Vec<u8>| w@),
                    },
                ),
            ),
        }
    }
}

/// Sighash/variant coherence: a p2pkh input is classified legacy, a
/// p2wpkh input segwit, and both taproot conditions taproot; the key-path
/// and non-taproot classes carry no leaf hash, and the script-path class
/// carries exactly the tap-leaf hash of its payload. A custom input keeps
/// the caller's raw claim material and carries no leaf hash.
pub proof fn lemma_sighash_variant_coherence(i: Input)
    ensures
        spec_classify(i) matches Ok(c) ==> match i.variant {
            InputVariant::Builder(b) => match b {
                BuilderInput::P2pkh(_) => c.method == crate::types::SighashMethod::Legacy
                    && c.leaf_hash.len() == 0,
                BuilderInput::P2wpkh(_) => c.method == crate::types::SighashMethod::Segwit
                    && c.leaf_hash.len() == 0,
                BuilderInput::P2trKeyPath(_) => c.method == crate::types::SighashMethod::Taproot
                    && c.leaf_hash.len() == 0,
                BuilderInput::P2trScriptPath { payload, .. } => c.method
                    == crate::types::SighashMethod::Taproot && c.leaf_hash == spec_tap_leaf_hash(
                    payload@,
                ),
                _ => false,
            },
            InputVariant::Custom { script_sig, witness_items } => c.leaf_hash.len() == 0
                && c.claim == (ClaimPlanV::Custom {
                script_sig: script_sig@,
                witness_items: witness_items@.map_values(|w: Vec<u8>| w@),
            }),
        },
{
}

/// The classified view of a classification result.
pub open spec fn class_result_view(r: Result<ClassifiedInput, ErrorKind>) -> Result<
    ClassV,
    ErrorKind,
> {
    match r {
        Ok(c) => Ok(c@),
        Err(e) => Err(e),
    }
}

/// Classifies one input.
pub fn classify_input(i: &Input) -> (r: Result<ClassifiedInput, ErrorKind>)
    ensures
        class_result_view(r) == spec_classify(*i),
        r matches Ok(c) ==> crate::types::wf_class(c@),
        r matches Ok(c) ==> (c@.claim matches ClaimPlanV::P2trScriptPath { .. }
            ==> c@.leaf_hash.len() == 32),
        r matches Ok(c) ==> (!(c@.claim matches ClaimPlanV::P2trScriptPath { .. })
            ==> c@.leaf_hash.len() == 0),
{
    if i.txid.len() != 32 {
        return Err(ErrorKind::MissingField);
    }
    match &i.variant {
        InputVariant::Builder(b) => match b {
            BuilderInput::P2pkh(poh) => {
                let h = match pubkey_hash_of(poh) {
                    Ok(h) => h,
                    Err(e) => {
                        return Err(e);
                    },
                };
                let raw = match poh {
                    PkOrHash::Hash(x) => x.clone(),
                    PkOrHash::Pubkey(x) => x.clone(),
                };
                Ok(
                    ClassifiedInput {
                        txid: i.txid.clone(),
                        vout: i.vout,
                        amount: i.amount,
                        script_pubkey: p2pkh_script(&h),
                        method: crate::types::SighashMethod::Legacy,
                        leaf_hash: Vec::new(),
                        one_prevout: i.one_prevout,
                        claim: ClaimPlan::P2pkh(raw),
                    },
                )
            },
            BuilderInput::P2wpkh(poh) => {
                let h = match witness_pubkey_hash_of(poh) {
                    Ok(h) => h,
                    Err(e) => {
                        return Err(e);
                    },
                };
                let spk = p2wpkh_script(&h);
                Ok(
                    ClassifiedInput {
                        txid: i.txid.clone(),
                        vout: i.vout,
                        amount: i.amount,
                        script_pubkey: spk,
                        method: crate::types::SighashMethod::Segwit,
                        leaf_hash: Vec::new(),
                        one_prevout: i.one_prevout,
                        claim: ClaimPlan::P2wpkh(h),
                    },
                )
            },
            BuilderInput::P2trKeyPath(pk) => {
                let empty_root: Vec<u8> = Vec::new();
                let tweaked = match tweak_pubkey(pk, &empty_root) {
                    Some(t) => t,
                    Option::None => {
                        return Err(ErrorKind::InvalidKey);
                    },
                };
                Ok(
                    ClassifiedInput {
                        txid: i.txid.clone(),
                        vout: i.vout,
                        amount: i.amount,
                        script_pubkey: p2tr_script(&tweaked),
                        method: crate::types::SighashMethod::Taproot,
                        leaf_hash: Vec::new(),
                        one_prevout: i.one_prevout,
                        claim: ClaimPlan::P2trKeyPath,
                    },
                )
            },
            BuilderInput::P2trScriptPath { payload, control_block } => {
                Ok(
                    ClassifiedInput {
                        txid: i.txid.clone(),
                        vout: i.vout,
                        amount: i.amount,
                        script_pubkey: payload.clone(),
                        method: crate::types::SighashMethod::Taproot,
                        leaf_hash: tap_leaf_hash(payload),
                        one_prevout: i.one_prevout,
                        claim: ClaimPlan::P2trScriptPath {
                            payload: payload.clone(),
                            control_block: control_block.clone(),
                        },
                    },
                )
            },
            BuilderInput::P2sh(_) => Err(ErrorKind::UnsupportedVariant),
            BuilderInput::P2wsh(_) => Err(ErrorKind::UnsupportedVariant),
        },
        InputVariant::Custom { script_sig, witness_items } => {
            Ok(
                ClassifiedInput {
                    txid: i.txid.clone(),
                    vout: i.vout,
                    amount: i.amount,
                    script_pubkey: Vec::new(),
                    method: crate::types::SighashMethod::Legacy,
                    leaf_hash: Vec::new(),
                    one_prevout: i.one_prevout,
                    claim: ClaimPlan::Custom {
                        script_sig: script_sig.clone(),
                        witness_items: crate::types::clone_items(witness_items),
                    },
                },
            )
        },
    }
}

/// Classifies a list of inputs; the first failing input decides the error.
pub open spec fn spec_classify_all(s: Seq<Input>) -> Result<Seq<ClassV>, ErrorKind>
    decreases s.len(),
{
    if s.len() == 0 {
        Ok(Seq::empty())
    } else {
        match spec_classify_all(s.drop_last()) {
            Err(e) => Err(e),
            Ok(cs) => match spec_classify(s.last()) {
                Err(e) => Err(e),
                Ok(c) => Ok(cs.push(c)),
            },
        }
    }
}

/// Classifies every input of a request.
pub fn classify_all(inputs: &Vec<Input>) -> (r: Result<Vec<ClassifiedInput>, ErrorKind>)
    ensures
        match r {
            Ok(cs) => spec_classify_all(inputs@) == Ok::<Seq<ClassV>, ErrorKind>(
                class_views(cs@),
            ) && forall|j: int|
                0 <= j < cs@.len() ==> crate::types::wf_class(#[trigger] cs@[j]@),
            Err(e) => spec_classify_all(inputs@) == Err::<Seq<ClassV>, ErrorKind>(e),
        },
{
    let mut out: Vec<ClassifiedInput> = Vec::new();
    let mut i: usize = 0;
    proof {
        assert(inputs@.take(0) =~= Seq::<Input>::empty());
        assert(class_views(out@) =~= Seq::<ClassV>::empty());
    }
    while i < inputs.len()
        invariant
            0 <= i <= inputs.len(),
            spec_classify_all(inputs@.take(i as int)) == Ok::<Seq<ClassV>, ErrorKind>(
                class_views(out@),
            ),
            forall|j: int| 0 <= j < out@.len() ==> crate::types::wf_class(#[trigger] out@[j]@),
        decreases inputs.len() - i,
    {
        let c = match classify_input(&inputs[i]) {
            Ok(c) => c,
            Err(e) => {
                proof {
                    lemma_classify_all_err(inputs@, i as int, e);
                }
                return Err(e);
            },
        };
        proof {
            crate::encode::lemma_take_snoc(inputs@, i as int);
            assert(class_views(out@.push(c)) =~= class_views(out@).push(c@));
        }
        out.push(c);
        i = i + 1;
    }
    proof {
        assert(inputs@.take(inputs@.len() as int) =~= inputs@);
    }
    Ok(out)
}

/// An error at position i, after a clean prefix, decides the whole
/// classification.
proof fn lemma_classify_all_err(s: Seq<Input>, i: int, e: ErrorKind)
    requires
        0 <= i < s.len(),
        spec_classify_all(s.take(i)) is Ok,
        spec_classify(s[i]) == Err::<ClassV, ErrorKind>(e),
    ensures
        spec_classify_all(s) == Err::<Seq<ClassV>, ErrorKind>(e),
    decreases s.len(),
{
    if i + 1 == s.len() {
        assert(s.drop_last() =~= s.take(i));
    } else {
        assert(s.drop_last().take(i) =~= s.take(i));
        lemma_classify_all_err(s.drop_last(), i, e);
    }
}

/// The script a recipient's spending condition locks to.
pub open spec fn spec_output_spk(o: Output) -> Result<Seq<u8>, ErrorKind> {
    match o.recipient {
        OutputRecipient::ScriptPubkey(s) => Ok(s@),
        OutputRecipient::Builder(b) => match b {
            BuilderOutput::P2pkh(poh) => match spec_pubkey_hash(poh) {
                Ok(h) => Ok(spec_p2pkh_script(h)),
                Err(e) => Err(e),
            },
            BuilderOutput::P2wpkh(poh) => match spec_witness_pubkey_hash(poh) {
                Ok(h) => Ok(spec_p2wpkh_script(h)),
                Err(e) => Err(e),
            },
            BuilderOutput::P2trKeyPath(pk) => if pubkey_decodes(pk@) {
                Ok(spec_p2tr_script(tweaked_output_key_of(pk@, Seq::empty())))
            } else {
                Err(ErrorKind::InvalidKey)
            },
            BuilderOutput::P2trScriptPath { internal_key, node_hash } => if node_hash@.len()
                != 32 {
                Err(ErrorKind::InvalidScript)
            } else if pubkey_decodes(internal_key@) {
                Ok(spec_p2tr_script(tweaked_output_key_of(internal_key@, node_hash@)))
            } else {
                Err(ErrorKind::InvalidKey)
            },
            BuilderOutput::P2sh(_) => Err(ErrorKind::UnsupportedVariant),
            BuilderOutput::P2wsh(_) => Err(ErrorKind::UnsupportedVariant),
        },
        OutputRecipient::FromAddress(_) => Err(ErrorKind::UnsupportedVariant),
    }
}

/// The processed view of one output.
pub open spec fn spec_output(o: Output) -> Result<OutV, ErrorKind> {
    match spec_output_spk(o) {
        Ok(spk) => Ok(OutV { value: o.amount, script_pubkey: spk }),
        Err(e) => Err(e),
    }
}

/// Processes a list of outputs; the first failing output decides the
/// error.
pub open spec fn spec_outputs(s: Seq<Output>) -> Result<Seq<OutV>, ErrorKind>
    decreases s.len(),
{
    if s.len() == 0 {
        Ok(Seq::empty())
    } else {
        match spec_outputs(s.drop_last()) {
            Err(e) => Err(e),
            Ok(os) => match spec_output(s.last()) {
                Err(e) => Err(e),
                Ok(o) => Ok(os.push(o)),
            },
        }
    }
}

/// Derives the locking script of one output recipient.
pub fn output_spk(o: &Output) -> (r: Result<Vec<u8>, ErrorKind>)
    ensures
        match r {
            Ok(spk) => spec_output_spk(*o) == Ok::<Seq<u8>, ErrorKind>(spk@),
            Err(e) => spec_output_spk(*o) == Err::<Seq<u8>, ErrorKind>(e),
        },
{
    match &o.recipient {
        OutputRecipient::ScriptPubkey(s) => Ok(s.clone()),
        OutputRecipient::Builder(b) => match b {
            BuilderOutput::P2pkh(poh) => {
                match pubkey_hash_of(poh) {
                    Ok(h) => Ok(p2pkh_script(&h)),
                    Err(e) => Err(e),
                }
            },
            BuilderOutput::P2wpkh(poh) => {
                match witness_pubkey_hash_of(poh) {
                    Ok(h) => Ok(p2wpkh_script(&h)),
                    Err(e) => Err(e),
                }
            },
            BuilderOutput::P2trKeyPath(pk) => {
                let empty_root: Vec<u8> = Vec::new();
                match tweak_pubkey(pk, &empty_root) {
                    Some(t) => Ok(p2tr_script(&t)),
                    Option::None => Err(ErrorKind::InvalidKey),
                }
            },
            BuilderOutput::P2trScriptPath { internal_key, node_hash } => {
                if node_hash.len() != 32 {
                    Err(ErrorKind::InvalidScript)
                } else {
                    match tweak_pubkey(internal_key, node_hash) {
                        Some(t) => Ok(p2tr_script(&t)),
                        Option::None => Err(ErrorKind::InvalidKey),
                    }
                }
            },
            BuilderOutput::P2sh(_) => Err(ErrorKind::UnsupportedVariant),
            BuilderOutput::P2wsh(_) => Err(ErrorKind::UnsupportedVariant),
        },
        OutputRecipient::FromAddress(_) => Err(ErrorKind::UnsupportedVariant),
    }
}

/// Processes every output of a request into amount and locking script.
pub fn process_recipients(outputs: &Vec<Output>) -> (r: Result<Vec<TxOutRec>, ErrorKind>)
    ensures
        match r {
            Ok(os) => spec_outputs(outputs@) == Ok::<Seq<OutV>, ErrorKind>(out_views(os@)),
            Err(e) => spec_outputs(outputs@) == Err::<Seq<OutV>, ErrorKind>(e),
        },
{
    let mut out: Vec<TxOutRec> = Vec::new();
    let mut i: usize = 0;
    proof {
        assert(outputs@.take(0) =~= Seq::<Output>::empty());
        assert(out_views(out@) =~= Seq::<OutV>::empty());
    }
    while i < outputs.len()
        invariant
            0 <= i <= outputs.len(),
            spec_outputs(outputs@.take(i as int)) == Ok::<Seq<OutV>, ErrorKind>(out_views(out@)),
        decreases outputs.len() - i,
    {
        let spk = match output_spk(&outputs[i]) {
            Ok(s) => s,
            Err(e) => {
                proof {
                    lemma_outputs_err(outputs@, i as int, e);
                }
                return Err(e);
            },
        };
        let rec = TxOutRec { value: outputs[i].amount, script_pubkey: spk };
        proof {
            crate::encode::lemma_take_snoc(outputs@, i as int);
            assert(out_views(out@.push(rec)) =~= out_views(out@).push(rec@));
        }
        out.push(rec);
        i = i + 1;
    }
    proof {
        assert(outputs@.take(outputs@.len() as int) =~= outputs@);
    }
    Ok(out)
}

/// An error at position i, after a clean prefix, decides the whole output
/// processing.
proof fn lemma_outputs_err(s: Seq<Output>, i: int, e: ErrorKind)
    requires
        0 <= i < s.len(),
        spec_outputs(s.take(i)) is Ok,
        spec_output(s[i]) == Err::<OutV, ErrorKind>(e),
    ensures
        spec_outputs(s) == Err::<Seq<OutV>, ErrorKind>(e),
    decreases s.len(),
{
    if i + 1 == s.len() {
        assert(s.drop_last() =~= s.take(i));
    } else {
        assert(s.drop_last().take(i) =~= s.take(i));
        lemma_outputs_err(s.drop_last(), i, e);
    }
}

} // verus!
