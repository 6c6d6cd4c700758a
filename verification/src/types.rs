use vstd::prelude::*;

verus! {

/// The closed set of error kinds a signing call can report.
#[derive(Clone, Copy, Debug, PartialEq, Eq, Structural)]
pub enum ErrorKind {
    InvalidKey,
    InvalidScript,
    UnsupportedVariant,
    MissingField,
    InsufficientFunds,
    SignatureCountMismatch,
    SigningFailure,
    SerializationFailure,
}

/// The sighash algorithm an input's class dictates.
#[derive(Clone, Copy, Debug, PartialEq, Eq, Structural)]
pub enum SighashMethod {
    Legacy,
    Segwit,
    Taproot,
}

/// How the set of spent inputs is chosen.
#[derive(Clone, Copy, Debug, PartialEq, Eq, Structural)]
pub enum InputSelector {
    UseAll,
    AutomaticAscending,
}

/// The transaction-level lock time carried by a request.
#[derive(Clone, Copy, Debug, PartialEq, Eq, Structural)]
pub enum LockTime {
    Blocks(u32),
    Seconds(u32),
    Unset,
}

/// Whether Schnorr signing draws fresh auxiliary randomness or fixes it
/// to zero for reproducible signatures.
#[derive(Clone, Copy, Debug, PartialEq, Eq, Structural)]
pub enum SignerMode {
    Deterministic,
    AuxRandom,
}

/// A spending-condition parameter: either a raw SEC-encoded public key or
/// a precomputed 20-byte HASH160.
#[derive(Clone, Debug)]
pub enum PkOrHash {
    Pubkey(Vec<u8>),
    Hash(Vec<u8>),
}

/// A declarative input spending condition.
#[derive(Clone, Debug)]
pub enum BuilderInput {
    P2sh(Vec<u8>),
    P2pkh(PkOrHash),
    P2wsh(Vec<u8>),
    P2wpkh(PkOrHash),
    P2trKeyPath(Vec<u8>),
    P2trScriptPath { payload: Vec<u8>, control_block: Vec<u8> },
}

/// An input is either built from a spending condition or carries raw
/// caller-supplied claim material.
#[derive(Clone, Debug)]
pub enum InputVariant {
    Builder(BuilderInput),
    Custom { script_sig: Vec<u8>, witness_items: Vec<Vec<u8>> },
}

/// One UTXO being spent.
#[derive(Clone, Debug)]
pub struct Input {
    pub txid: Vec<u8>,
    pub vout: u32,
    pub amount: u64,
    pub one_prevout: bool,
    pub variant: InputVariant,
}

/// A declarative output spending condition.
#[derive(Clone, Debug)]
pub enum BuilderOutput {
    P2sh(Vec<u8>),
    P2pkh(PkOrHash),
    P2wsh(Vec<u8>),
    P2wpkh(PkOrHash),
    P2trKeyPath(Vec<u8>),
    P2trScriptPath { internal_key: Vec<u8>, node_hash: Vec<u8> },
}

/// Where an output pays to.
#[derive(Clone, Debug)]
pub enum OutputRecipient {
    Builder(BuilderOutput),
    ScriptPubkey(Vec<u8>),
    FromAddress(String),
}

/// One transaction output to emit.
#[derive(Clone, Debug)]
pub struct Output {
    pub amount: u64,
    pub recipient: OutputRecipient,
}

/// A full signing request: one request in, one signed transaction out.
#[derive(Clone, Debug)]
pub struct SigningRequest {
    pub version: i32,
    pub lock_time: LockTime,
    pub private_key: Vec<u8>,
    pub input_selector: InputSelector,
    pub inputs: Vec<Input>,
    pub outputs: Vec<Output>,
}

/// The claim material a classified input carries for later assembly of
/// its script_sig and witness.
#[derive(Clone, Debug)]
pub enum ClaimPlan {
    /// The raw public key or hash bytes, pushed as the second script_sig item.
    P2pkh(Vec<u8>),
    /// The 20-byte witness-program hash, the second witness item.
    P2wpkh(Vec<u8>),
    P2trKeyPath,
    P2trScriptPath { payload: Vec<u8>, control_block: Vec<u8> },
    /// The caller's raw unlocking material, passed through unchanged.
    Custom { script_sig: Vec<u8>, witness_items: Vec<Vec<u8>> },
}

/// Ghost mirror of `ClaimPlan`.
pub ghost enum ClaimPlanV {
    P2pkh(Seq<u8>),
    P2wpkh(Seq<u8>),
    P2trKeyPath,
    P2trScriptPath { payload: Seq<u8>, control_block: Seq<u8> },
    Custom { script_sig: Seq<u8>, witness_items: Seq<Seq<u8>> },
}

impl View for ClaimPlan {
    type V = ClaimPlanV;

    open spec fn view(&self) -> ClaimPlanV {
        match self {
            ClaimPlan::P2pkh(b) => ClaimPlanV::P2pkh(b@),
            ClaimPlan::P2wpkh(b) => ClaimPlanV::P2wpkh(b@),
            ClaimPlan::P2trKeyPath => ClaimPlanV::P2trKeyPath,
            ClaimPlan::P2trScriptPath { payload, control_block } => ClaimPlanV::P2trScriptPath {
                payload: payload@,
                control_block: control_block@,
            },
            ClaimPlan::Custom { script_sig, witness_items } => ClaimPlanV::Custom {
                script_sig: script_sig@,
                witness_items: witness_items@.map_values(|w: Vec<u8>| w@),
            },
        }
    }
}

/// Copies a list of byte strings, item for item.
pub fn clone_items(v: &Vec<Vec<u8>>) -> (r: Vec<Vec<u8>>)
    ensures
        r@.len() == v@.len(),
        forall|j: int| 0 <= j < v@.len() ==> (#[trigger] r@[j])@ == v@[j]@,
        byte_views(r@) == byte_views(v@),
{
    let mut r: Vec<Vec<u8>> = Vec::new();
    let mut i: usize = 0;
    while i < v.len()
        invariant
            0 <= i <= v@.len(),
            r@.len() == i,
            forall|j: int| 0 <= j < i ==> (#[trigger] r@[j])@ == v@[j]@,
        decreases v.len() - i,
    {
        r.push(v[i].clone());
        i = i + 1;
    }
    proof {
        assert(byte_views(r@) =~= byte_views(v@));
    }
    r
}

/// A classified input: the outcome of mapping an input variant to its
/// sighash algorithm, script_pubkey and optional tap-leaf hash.
#[derive(Clone, Debug)]
pub struct ClassifiedInput {
    pub txid: Vec<u8>,
    pub vout: u32,
    pub amount: u64,
    pub script_pubkey: Vec<u8>,
    pub method: SighashMethod,
    /// Empty for every class but taproot script-path.
    pub leaf_hash: Vec<u8>,
    pub one_prevout: bool,
    pub claim: ClaimPlan,
}

/// Ghost mirror of `ClassifiedInput`.
pub ghost struct ClassV {
    pub txid: Seq<u8>,
    pub vout: u32,
    pub amount: u64,
    pub script_pubkey: Seq<u8>,
    pub method: SighashMethod,
    pub leaf_hash: Seq<u8>,
    pub one_prevout: bool,
    pub claim: ClaimPlanV,
}

impl View for ClassifiedInput {
    type V = ClassV;

    open spec fn view(&self) -> ClassV {
        ClassV {
            txid: self.txid@,
            vout: self.vout,
            amount: self.amount,
            script_pubkey: self.script_pubkey@,
            method: self.method,
            leaf_hash: self.leaf_hash@,
            one_prevout: self.one_prevout,
            claim: self.claim@,
        }
    }
}

/// A processed output: amount plus final script_pubkey bytes.
#[derive(Clone, Debug)]
pub struct TxOutRec {
    pub value: u64,
    pub script_pubkey: Vec<u8>,
}

/// Ghost mirror of `TxOutRec`.
pub ghost struct OutV {
    pub value: u64,
    pub script_pubkey: Seq<u8>,
}

impl View for TxOutRec {
    type V = OutV;

    open spec fn view(&self) -> OutV {
        OutV { value: self.value, script_pubkey: self.script_pubkey@ }
    }
}

/// One sighash to be signed, parallel to a selected input.
#[derive(Clone, Debug)]
pub struct SighashEntry {
    pub sighash: Vec<u8>,
    pub method: SighashMethod,
    pub leaf_hash: Vec<u8>,
}

/// Ghost mirror of `SighashEntry`.
pub ghost struct SighashEntryV {
    pub sighash: Seq<u8>,
    pub method: SighashMethod,
    pub leaf_hash: Seq<u8>,
}

impl View for SighashEntry {
    type V = SighashEntryV;

    open spec fn view(&self) -> SighashEntryV {
        SighashEntryV { sighash: self.sighash@, method: self.method, leaf_hash: self.leaf_hash@ }
    }
}

/// The result of `preimage_hashes`: sighashes parallel to the selected
/// inputs, plus the selected inputs and processed outputs themselves.
#[derive(Clone, Debug)]
pub struct PreSigningOutput {
    pub sighashes: Vec<SighashEntry>,
    pub utxo_inputs: Vec<ClassifiedInput>,
    pub utxo_outputs: Vec<TxOutRec>,
}

/// The result of `compile` or `sign`: the wire bytes, the display-order
/// transaction id, and the implied fee.
#[derive(Clone, Debug)]
pub struct SigningOutput {
    pub encoded: Vec<u8>,
    pub transaction_id: Vec<u8>,
    pub fee: u64,
}

/// View of a sequence of classified inputs.
pub open spec fn class_views(s: Seq<ClassifiedInput>) -> Seq<ClassV> {
    s.map_values(|c: ClassifiedInput| c@)
}

/// View of a sequence of processed outputs.
pub open spec fn out_views(s: Seq<TxOutRec>) -> Seq<OutV> {
    s.map_values(|o: TxOutRec| o@)
}

/// View of a sequence of byte vectors.
pub open spec fn byte_views(s: Seq<Vec<u8>>) -> Seq<Seq<u8>> {
    s.map_values(|b: Vec<u8>| b@)
}

/// The u32 a request's lock time serializes to.
pub open spec fn spec_lock_time(lt: LockTime) -> u32 {
    match lt {
        LockTime::Blocks(v) => v,
        LockTime::Seconds(v) => v,
        LockTime::Unset => 0u32,
    }
}

/// Reads the lock-time value a request carries, zero when unset.
pub fn lock_time_value(lt: &LockTime) -> (r: u32)
    ensures
        r == spec_lock_time(*lt),
{
    match lt {
        LockTime::Blocks(v) => *v,
        LockTime::Seconds(v) => *v,
        LockTime::Unset => 0u32,
    }
}

/// A classified segwit input always carries the 22-byte p2wpkh locking
/// script its script code is read from.
pub open spec fn wf_class(c: ClassV) -> bool {
    c.method == SighashMethod::Segwit ==> c.script_pubkey.len() == 22
}

/// Sum of the amounts of a sequence of classified inputs.
pub open spec fn sum_amounts(s: Seq<ClassV>) -> int
    decreases s.len(),
{
    if s.len() == 0 {
        0
    } else {
        sum_amounts(s.drop_last()) + s.last().amount
    }
}

/// Sum of the values of a sequence of processed outputs.
pub open spec fn sum_values(s: Seq<OutV>) -> int
    decreases s.len(),
{
    if s.len() == 0 {
        0
    } else {
        sum_values(s.drop_last()) + s.last().value
    }
}

} // verus!
