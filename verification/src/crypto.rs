use vstd::prelude::*;

verus! {

// Names for the results of the outside cryptographic routines. Each is a
// pure function of its arguments; the wrappers below state which routine
// each name stands for.

pub uninterp spec fn sha256_of(b: Seq<u8>) -> Seq<u8>;

pub uninterp spec fn hash160_of(b: Seq<u8>) -> Seq<u8>;

pub uninterp spec fn pubkey_decodes(b: Seq<u8>) -> bool;

pub uninterp spec fn compressed_pubkey_of(b: Seq<u8>) -> Seq<u8>;

pub uninterp spec fn tweaked_output_key_of(pk: Seq<u8>, merkle_root: Seq<u8>) -> Seq<u8>;

pub uninterp spec fn seckey_decodes(b: Seq<u8>) -> bool;

pub uninterp spec fn tweaked_seckey_of(b: Seq<u8>) -> Seq<u8>;

pub uninterp spec fn ecdsa_der_sig_of(sk: Seq<u8>, msg: Seq<u8>) -> Seq<u8>;

pub uninterp spec fn schnorr_sig_of(sk: Seq<u8>, msg: Seq<u8>) -> Seq<u8>;

pub uninterp spec fn control_block_decodes(b: Seq<u8>) -> bool;

/// Relies on bitcoin::hashes::sha256::Hash::hash: the 32-byte SHA-256
/// digest, a function of the input bytes alone.
#[verifier::external_body]
pub(crate) fn sha256(b: &Vec<u8>) -> (r: Vec<u8>)
    ensures
        r@ == sha256_of(b@),
        r@.len() == 32,
{
    let h = <bitcoin::hashes::sha256::Hash as bitcoin::hashes::Hash>::hash(b.as_slice());
    <bitcoin::hashes::sha256::Hash as bitcoin::hashes::Hash>::to_byte_array(h).to_vec()
}

/// Relies on bitcoin::hashes::hash160::Hash::hash: the 20-byte
/// RIPEMD160-of-SHA256 digest, a function of the input bytes alone.
#[verifier::external_body]
pub(crate) fn hash160(b: &Vec<u8>) -> (r: Vec<u8>)
    ensures
        r@ == hash160_of(b@),
        r@.len() == 20,
{
    let h = <bitcoin::hashes::hash160::Hash as bitcoin::hashes::Hash>::hash(b.as_slice());
    <bitcoin::hashes::hash160::Hash as bitcoin::hashes::Hash>::to_byte_array(h).to_vec()
}

/// Relies on bitcoin::PublicKey::from_slice, which accepts exactly the
/// valid 33-byte compressed and 65-byte uncompressed SEC encodings, and on
/// secp256k1::PublicKey::serialize for the canonical compressed form.
#[verifier::external_body]
pub(crate) fn compress_pubkey(b: &Vec<u8>) -> (r: Option<Vec<u8>>)
    ensures
        r is Some <==> pubkey_decodes(b@),
        r is Some ==> b@.len() == 33 || b@.len() == 65,
        r matches Some(c) ==> c@ == compressed_pubkey_of(b@) && c@.len() == 33,
{
    match bitcoin::PublicKey::from_slice(b.as_slice()) {
        Ok(pk) => Some(pk.inner.serialize().to_vec()),
        Err(_) => None,
    }
}

/// Relies on bitcoin::key::TapTweak for XOnlyPublicKey: the BIP-341 output
/// key for the given internal key and merkle root (empty bytes meaning no
/// script tree), a function of the two arguments alone. The underlying
/// routine aborts only when the tweak leaves the curve, which cannot be
/// reached by any known input.
#[verifier::external_body]
pub(crate) fn tweak_pubkey(pk: &Vec<u8>, merkle_root: &Vec<u8>) -> (r: Option<Vec<u8>>)
    requires
        merkle_root@.len() == 0 || merkle_root@.len() == 32,
    ensures
        r is Some <==> pubkey_decodes(pk@),
        r matches Some(t) ==> t@ == tweaked_output_key_of(pk@, merkle_root@) && t@.len() == 32,
{
    let parsed = match bitcoin::PublicKey::from_slice(pk.as_slice()) {
        Ok(p) => p,
        Err(_) => return None,
    };
    let xonly = bitcoin::secp256k1::XOnlyPublicKey::from(parsed.inner);
    let root = if merkle_root.len() == 32 {
        Some(<bitcoin::taproot::TapNodeHash as bitcoin::hashes::Hash>::from_slice(merkle_root.as_slice()).unwrap())
    } else {
        None
    };
    let secp = bitcoin::secp256k1::Secp256k1::new();
    let (out, _parity) = bitcoin::key::TapTweak::tap_tweak(xonly, &secp, root);
    Some(out.serialize().to_vec())
}

/// Relies on bitcoin::key::TapTweak for KeyPair with an empty merkle root:
/// the tweaked secret key bytes, a function of the secret key alone.
/// secp256k1::KeyPair::from_seckey_slice accepts exactly the 32-byte
/// encodings of valid secret keys; the tweaked pair is again a KeyPair,
/// so its secret bytes are such an encoding.
#[verifier::external_body]
pub(crate) fn tap_tweak_seckey(sk: &Vec<u8>) -> (r: Option<Vec<u8>>)
    ensures
        r is Some <==> seckey_decodes(sk@),
        r matches Some(t) ==> t@ == tweaked_seckey_of(sk@) && t@.len() == 32 && seckey_decodes(
            t@,
        ),
{
    let secp = bitcoin::secp256k1::Secp256k1::new();
    let kp = match bitcoin::secp256k1::KeyPair::from_seckey_slice(&secp, sk.as_slice()) {
        Ok(k) => k,
        Err(_) => return None,
    };
    let tweaked = bitcoin::key::TapTweak::tap_tweak(kp, &secp, None);
    Some(bitcoin::secp256k1::KeyPair::from(tweaked).secret_bytes().to_vec())
}

/// Relies on secp256k1::Secp256k1::sign_ecdsa with the RFC6979 nonce: a
/// low-S DER-encoded signature of at most 72 bytes, a function of the
/// secret key and the 32-byte message alone.
#[verifier::external_body]
pub(crate) fn ecdsa_sign(sk: &Vec<u8>, msg: &Vec<u8>) -> (r: Option<Vec<u8>>)
    requires
        msg@.len() == 32,
    ensures
        r is Some <==> seckey_decodes(sk@),
        r matches Some(s) ==> s@ == ecdsa_der_sig_of(sk@, msg@) && s@.len() <= 72,
{
    let secp = bitcoin::secp256k1::Secp256k1::new();
    let key = match bitcoin::secp256k1::SecretKey::from_slice(sk.as_slice()) {
        Ok(k) => k,
        Err(_) => return None,
    };
    let m = bitcoin::secp256k1::Message::from_slice(msg.as_slice()).unwrap();
    Some(secp.sign_ecdsa(&m, &key).serialize_der().to_vec())
}

/// Relies on secp256k1::Secp256k1::sign_schnorr_no_aux_rand: a 64-byte
/// BIP-340 signature with zero auxiliary randomness, a function of the
/// secret key and the 32-byte message alone.
#[verifier::external_body]
pub(crate) fn schnorr_sign_no_aux(sk: &Vec<u8>, msg: &Vec<u8>) -> (r: Option<Vec<u8>>)
    requires
        msg@.len() == 32,
    ensures
        r is Some <==> seckey_decodes(sk@),
        r matches Some(s) ==> s@ == schnorr_sig_of(sk@, msg@) && s@.len() == 64,
{
    let secp = bitcoin::secp256k1::Secp256k1::new();
    let kp = match bitcoin::secp256k1::KeyPair::from_seckey_slice(&secp, sk.as_slice()) {
        Ok(k) => k,
        Err(_) => return None,
    };
    let m = bitcoin::secp256k1::Message::from_slice(msg.as_slice()).unwrap();
    Some(secp.sign_schnorr_no_aux_rand(&m, &kp).as_ref().to_vec())
}

/// Relies on secp256k1::Secp256k1::sign_schnorr, which draws fresh
/// auxiliary randomness: a 64-byte BIP-340 signature. Nothing beyond its
/// length holds of every outcome.
#[verifier::external_body]
pub(crate) fn schnorr_sign_aux_rand(sk: &Vec<u8>, msg: &Vec<u8>) -> (r: Option<Vec<u8>>)
    requires
        msg@.len() == 32,
    ensures
        r is Some <==> seckey_decodes(sk@),
        r matches Some(s) ==> s@.len() == 64,
{
    let secp = bitcoin::secp256k1::Secp256k1::new();
    let kp = match bitcoin::secp256k1::KeyPair::from_seckey_slice(&secp, sk.as_slice()) {
        Ok(k) => k,
        Err(_) => return None,
    };
    let m = bitcoin::secp256k1::Message::from_slice(msg.as_slice()).unwrap();
    Some(secp.sign_schnorr(&m, &kp).as_ref().to_vec())
}

/// Relies on bitcoin::taproot::ControlBlock::decode: whether the bytes are
/// a well-formed control block (parity and leaf-version byte, a valid
/// 32-byte internal key, a merkle path of whole 32-byte nodes, at most 128
/// of them), a function of the bytes alone.
#[verifier::external_body]
pub(crate) fn control_block_check(b: &Vec<u8>) -> (r: bool)
    ensures
        r == control_block_decodes(b@),
{
    bitcoin::taproot::ControlBlock::decode(b.as_slice()).is_ok()
}

} // verus!
