use vstd::prelude::*;
use crate::crypto::{
    ecdsa_sign, ecdsa_der_sig_of, schnorr_sig_of, schnorr_sign_aux_rand, schnorr_sign_no_aux,
    seckey_decodes, tap_tweak_seckey, tweaked_seckey_of,
};
use crate::types::{ClassV, ClassifiedInput, ErrorKind, SighashEntry, SighashMethod, SignerMode,
    byte_views, class_views};

verus! {

/// The signature bytes the deterministic signer emits for one input:
/// a DER ECDSA signature with the appended sighash-type byte ALL for the
/// legacy and segwit classes; a 64-byte Schnorr signature for taproot,
/// under the tap-tweaked key for key-path spends and the untweaked key for
/// script-path spends, with the sighash-type byte appended only when the
/// type is not DEFAULT, that is only for single-prevout inputs.
pub open spec fn spec_signature_for(
    method: SighashMethod,
    leaf_hash: Seq<u8>,
    one_prevout: bool,
    key: Seq<u8>,
    sighash: Seq<u8>,
) -> Seq<u8> {
    match method {
        SighashMethod::Legacy => ecdsa_der_sig_of(key, sighash) + seq![0x01u8],
        SighashMethod::Segwit => ecdsa_der_sig_of(key, sighash) + seq![0x01u8],
        SighashMethod::Taproot => {
            let base = if leaf_hash.len() > 0 {
                schnorr_sig_of(key, sighash)
            } else {
                schnorr_sig_of(tweaked_seckey_of(key), sighash)
            };
            if one_prevout {
                base + seq![0x81u8]
            } else {
                base
            }
        },
    }
}

/// Signs one sighash under the algorithm its class dictates.
fn sign_one(
    key: &Vec<u8>,
    method: SighashMethod,
    leaf_hash: &Vec<u8>,
    one_prevout: bool,
    sighash: &Vec<u8>,
    mode: SignerMode,
) -> (r: Result<Vec<u8>, ErrorKind>)
    requires
        sighash@.len() == 32,
    ensures
        r is Ok <==> seckey_decodes(key@),
        r matches Err(e) ==> e == ErrorKind::SigningFailure,
        mode == SignerMode::Deterministic ==> (r matches Ok(s) ==> s@ == spec_signature_for(
            method,
            leaf_hash@,
            one_prevout,
            key@,
            sighash@,
        )),
        (method == SighashMethod::Legacy || method == SighashMethod::Segwit) ==> (
        r matches Ok(s) ==> s@ == spec_signature_for(method, leaf_hash@, one_prevout, key@,
            sighash@,
        )),
        r matches Ok(s) ==> s@.len() <= 255,
{
    match method {
        SighashMethod::Legacy | SighashMethod::Segwit => {
            match ecdsa_sign(key, sighash) {
                Some(mut der) => {
                    der.push(0x01u8);
                    proof {
                        assert(der@ =~= ecdsa_der_sig_of(key@, sighash@) + seq![0x01u8]);
                    }
                    Ok(der)
                },
                Option::None => Err(ErrorKind::SigningFailure),
            }
        },
        SighashMethod::Taproot => {
            let signing_key: Vec<u8> = if leaf_hash.len() > 0 {
                let mut k: Vec<u8> = Vec::new();
                crate::encode::put_bytes(&mut k, key);
                proof {
                    assert(k@ =~= key@);
                }
                k
            } else {
                match tap_tweak_seckey(key) {
                    Some(t) => t,
                    Option::None => {
                        return Err(ErrorKind::SigningFailure);
                    },
                }
            };
            let base = match mode {
                SignerMode::Deterministic => schnorr_sign_no_aux(&signing_key, sighash),
                SignerMode::AuxRandom => schnorr_sign_aux_rand(&signing_key, sighash),
            };
            match base {
                Some(mut sig) => {
                    if one_prevout {
                        sig.push(0x81u8);
                    }
                    proof {
                        if mode == SignerMode::Deterministic {
                            assert(sig@ =~= spec_signature_for(
                                method,
                                leaf_hash@,
                                one_prevout,
                                key@,
                                sighash@,
                            ));
                        }
                    }
                    Ok(sig)
                },
                Option::None => Err(ErrorKind::SigningFailure),
            }
        },
    }
}

/// The deterministic signatures parallel to the selected inputs.
pub open spec fn spec_signatures(
    ins: Seq<ClassV>,
    sighashes: Seq<Seq<u8>>,
    key: Seq<u8>,
) -> Seq<Seq<u8>> {
    Seq::new(
        ins.len(),
        |i: int|
            spec_signature_for(ins[i].method, ins[i].leaf_hash, ins[i].one_prevout, key, sighashes[i]),
    )
}

/// Signs every selected input's sighash. Fails exactly when the private
/// key is not a valid secp256k1 secret key.
pub fn sign_all(
    key: &Vec<u8>,
    ins: &Vec<ClassifiedInput>,
    entries: &Vec<SighashEntry>,
    mode: SignerMode,
) -> (r: Result<Vec<Vec<u8>>, ErrorKind>)
    requires
        ins@.len() == entries@.len(),
        forall|i: int| 0 <= i < entries@.len() ==> (#[trigger] entries@[i]@).sighash.len() == 32,
    ensures
        r is Ok <==> seckey_decodes(key@),
        r matches Err(e) ==> e == ErrorKind::SigningFailure,
        r matches Ok(sigs) ==> sigs@.len() == ins@.len(),
        mode == SignerMode::Deterministic ==> (r matches Ok(sigs) ==> byte_views(sigs@)
            == spec_signatures(
            class_views(ins@),
            entries@.map_values(|e: SighashEntry| e@.sighash),
            key@,
        )),
        r matches Ok(sigs) ==> forall|i: int|
            0 <= i < sigs@.len() ==> (#[trigger] sigs@[i]@).len() <= 255,
        r matches Ok(sigs) ==> forall|i: int|
            0 <= i < sigs@.len() && ((#[trigger] ins@[i]@).method == SighashMethod::Legacy
                || ins@[i]@.method == SighashMethod::Segwit) ==> sigs@[i]@ == spec_signature_for(
                ins@[i]@.method,
                ins@[i]@.leaf_hash,
                ins@[i]@.one_prevout,
                key@,
                entries@[i]@.sighash,
            ),
{
    let ghost goal = spec_signatures(
        class_views(ins@),
        entries@.map_values(|e: SighashEntry| e@.sighash),
        key@,
    );
    let mut out: Vec<Vec<u8>> = Vec::new();
    let mut i: usize = 0;
    while i < ins.len()
        invariant
            0 <= i <= ins@.len(),
            ins@.len() == entries@.len(),
            forall|j: int| 0 <= j < entries@.len() ==> (#[trigger] entries@[j]@).sighash.len()
                == 32,
            goal == spec_signatures(
                class_views(ins@),
                entries@.map_values(|e: SighashEntry| e@.sighash),
                key@,
            ),
            out@.len() == i,
            i > 0 ==> seckey_decodes(key@),
            mode == SignerMode::Deterministic ==> forall|j: int|
                0 <= j < i ==> (#[trigger] out@[j])@ == goal[j],
            forall|j: int| 0 <= j < i ==> (#[trigger] out@[j])@.len() <= 255,
            forall|j: int|
                0 <= j < i && ((#[trigger] ins@[j]@).method == SighashMethod::Legacy
                    || ins@[j]@.method == SighashMethod::Segwit) ==> out@[j]@
                    == spec_signature_for(
                    ins@[j]@.method,
                    ins@[j]@.leaf_hash,
                    ins@[j]@.one_prevout,
                    key@,
                    entries@[j]@.sighash,
                ),
        decreases ins.len() - i,
    {
        proof {
            assert(entries@[i as int]@.sighash.len() == 32);
        }
        let sig = match sign_one(
            key,
            ins[i].method,
            &ins[i].leaf_hash,
            ins[i].one_prevout,
            &entries[i].sighash,
            mode,
        ) {
            Ok(s) => s,
            Err(e) => {
                return Err(e);
            },
        };
        out.push(sig);
        i = i + 1;
    }
    if ins.len() == 0 {
        // An empty input list exercises the key once so that failure is
        // still decided by the key alone.
        if tap_tweak_seckey(key).is_none() {
            return Err(ErrorKind::SigningFailure);
        }
    }
    proof {
        if mode == SignerMode::Deterministic {
            assert(byte_views(out@) =~= goal);
        }
    }
    Ok(out)
}

} // verus!
