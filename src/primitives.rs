//! Plain-value forms of the chain objects that the changesets carry.
use vstd::prelude::*;

verus! {

/// A 32-byte hash or identifier, held as four 64-bit words.
#[derive(Clone, Copy, Debug, PartialEq, Eq, Structural)]
pub struct Hash32 {
    pub w0: u64,
    pub w1: u64,
    pub w2: u64,
    pub w3: u64,
}

/// Identifier of a block.
pub type BlockHash = Hash32;

/// Identifier of a transaction.
pub type Txid = Hash32;

/// Identifier of a derivation path (keychain).
pub type DescriptorId = Hash32;

impl Hash32 {
    pub fn new(w0: u64, w1: u64, w2: u64, w3: u64) -> (r: Hash32)
        ensures
            r == (Hash32 { w0, w1, w2, w3 }),
    {
        Hash32 { w0, w1, w2, w3 }
    }

    pub fn all_zero() -> (r: Hash32)
        ensures
            r == (Hash32 { w0: 0, w1: 0, w2: 0, w3: 0 }),
    {
        Hash32 { w0: 0, w1: 0, w2: 0, w3: 0 }
    }
}

/// The network a wallet is bound to.
#[derive(Clone, Copy, Debug, PartialEq, Eq, Structural)]
pub enum Network {
    Bitcoin,
    Testnet,
    Testnet4,
    Signet,
    Regtest,
}

/// A block's height together with its hash.
#[derive(Clone, Copy, Debug, PartialEq, Eq, Structural)]
pub struct BlockId {
    pub height: u32,
    pub hash: BlockHash,
}

/// An anchor: a block that a transaction was confirmed in, and the
/// approximate confirmation time.
#[derive(Clone, Copy, Debug, PartialEq, Eq, Structural)]
pub struct ConfirmationBlockTime {
    pub block_id: BlockId,
    pub confirmation_time: u64,
}

/// A reference to one output of a transaction.
#[derive(Clone, Copy, Debug, PartialEq, Eq, Structural)]
pub struct OutPoint {
    pub txid: Txid,
    pub vout: u32,
}

impl OutPoint {
    pub fn new(txid: Txid, vout: u32) -> (r: OutPoint)
        ensures
            r == (OutPoint { txid, vout }),
    {
        OutPoint { txid, vout }
    }
}

/// A spending script, as bytes.
#[derive(Debug)]
pub struct ScriptBuf {
    pub bytes: Vec<u8>,
}

impl View for ScriptBuf {
    type V = Seq<u8>;

    open spec fn view(&self) -> Seq<u8> {
        self.bytes@
    }
}

/// Values whose copy keeps their view.
pub trait Duplicate: View + Sized {
    fn duplicate(&self) -> (r: Self)
        ensures
            r@ == self@,
    ;
}

/// Keys that can be compared.
pub trait KeyEq: Sized {
    fn key_eq(&self, o: &Self) -> (r: bool)
        ensures
            r == (*self == *o),
    ;
}

/// Values whose views can be compared.
pub trait ViewEq: View + Sized {
    fn view_eq(&self, o: &Self) -> (r: bool)
        ensures
            r == (self@ == o@),
    ;
}

impl KeyEq for u32 {
    fn key_eq(&self, o: &u32) -> (r: bool) {
        *self == *o
    }
}

impl KeyEq for Hash32 {
    fn key_eq(&self, o: &Hash32) -> (r: bool) {
        *self == *o
    }
}

impl KeyEq for OutPoint {
    fn key_eq(&self, o: &OutPoint) -> (r: bool) {
        *self == *o
    }
}

impl KeyEq for (Hash32, u32) {
    fn key_eq(&self, o: &(Hash32, u32)) -> (r: bool) {
        self.0 == o.0 && self.1 == o.1
    }
}

impl KeyEq for (ConfirmationBlockTime, Hash32) {
    fn key_eq(&self, o: &(ConfirmationBlockTime, Hash32)) -> (r: bool) {
        self.0 == o.0 && self.1 == o.1
    }
}

impl ViewEq for Option<Hash32> {
    fn view_eq(&self, o: &Option<Hash32>) -> (r: bool) {
        *self == *o
    }
}

/// Whether two lists hold values with the same views, in the same order.
pub fn all_view_eq<V: ViewEq>(a: &Vec<V>, b: &Vec<V>) -> (r: bool)
    ensures
        r == (a@.map_values(|x: V| x@) == b@.map_values(|x: V| x@)),
{
    if a.len() != b.len() {
        proof {
            assert(a@.map_values(|x: V| x@).len() != b@.map_values(|x: V| x@).len());
        }
        return false;
    }
    let mut i: usize = 0;
    while i < a.len()
        invariant
            i <= a@.len(),
            a@.len() == b@.len(),
            forall|j: int| 0 <= j < i ==> #[trigger] a@[j]@ == b@[j]@,
        decreases a@.len() - i,
    {
        if !a[i].view_eq(&b[i]) {
            proof {
                assert(a@.map_values(|x: V| x@)[i as int] != b@.map_values(|x: V| x@)[i as int]);
            }
            return false;
        }
        i = i + 1;
    }
    assert(a@.map_values(|x: V| x@) =~= b@.map_values(|x: V| x@));
    true
}

impl ScriptBuf {
    pub fn new() -> (r: ScriptBuf)
        ensures
            r@ == Seq::<u8>::empty(),
    {
        ScriptBuf { bytes: Vec::new() }
    }

    pub fn from_bytes(bytes: Vec<u8>) -> (r: ScriptBuf)
        ensures
            r@ == bytes@,
    {
        ScriptBuf { bytes }
    }
}

impl Duplicate for ScriptBuf {
    fn duplicate(&self) -> (r: ScriptBuf) {
        let mut bytes: Vec<u8> = Vec::new();
        let mut i: usize = 0;
        while i < self.bytes.len()
            invariant
                i <= self.bytes@.len(),
                bytes@ == self.bytes@.take(i as int),
            decreases self.bytes@.len() - i,
        {
            bytes.push(self.bytes[i]);
            i = i + 1;
            assert(bytes@ =~= self.bytes@.take(i as int));
        }
        assert(bytes@ =~= self.bytes@);
        ScriptBuf { bytes }
    }
}

impl ViewEq for ScriptBuf {
    fn view_eq(&self, o: &ScriptBuf) -> (r: bool) {
        if self.bytes.len() != o.bytes.len() {
            return false;
        }
        let mut i: usize = 0;
        while i < self.bytes.len()
            invariant
                i <= self.bytes@.len(),
                self.bytes@.len() == o.bytes@.len(),
                forall|j: int| 0 <= j < i ==> self.bytes@[j] == o.bytes@[j],
            decreases self.bytes@.len() - i,
        {
            if self.bytes[i] != o.bytes[i] {
                return false;
            }
            i = i + 1;
        }
        assert(self.bytes@ =~= o.bytes@);
        true
    }
}

/// What a transaction output is, as plain values.
pub struct TxOutModel {
    pub value: u64,
    pub script_pubkey: Seq<u8>,
}

/// A transaction output: an amount and the script that locks it.
#[derive(Debug)]
pub struct TxOut {
    pub value: u64,
    pub script_pubkey: ScriptBuf,
}

impl View for TxOut {
    type V = TxOutModel;

    open spec fn view(&self) -> TxOutModel {
        TxOutModel { value: self.value, script_pubkey: self.script_pubkey@ }
    }
}

impl Duplicate for TxOut {
    fn duplicate(&self) -> (r: TxOut) {
        TxOut { value: self.value, script_pubkey: self.script_pubkey.duplicate() }
    }
}

impl ViewEq for TxOut {
    fn view_eq(&self, o: &TxOut) -> (r: bool) {
        self.value == o.value && self.script_pubkey.view_eq(&o.script_pubkey)
    }
}

/// What a transaction input is, as plain values.
pub struct TxInModel {
    pub previous_output: OutPoint,
    pub script_sig: Seq<u8>,
    pub sequence: u32,
    pub witness: Seq<Seq<u8>>,
}

/// The sequence number of an input that opts out of every relative lock.
pub const SEQUENCE_MAX: u32 = 0xFFFF_FFFF;

/// A transaction input: the output it spends and what unlocks it.
#[derive(Debug)]
pub struct TxIn {
    pub previous_output: OutPoint,
    pub script_sig: ScriptBuf,
    pub sequence: u32,
    pub witness: Vec<ScriptBuf>,
}

pub open spec fn views_of(v: Seq<ScriptBuf>) -> Seq<Seq<u8>> {
    v.map_values(|s: ScriptBuf| s@)
}

impl View for TxIn {
    type V = TxInModel;

    open spec fn view(&self) -> TxInModel {
        TxInModel {
            previous_output: self.previous_output,
            script_sig: self.script_sig@,
            sequence: self.sequence,
            witness: views_of(self.witness@),
        }
    }
}

impl TxIn {
    /// An input spending `previous_output`, with an empty unlocking script,
    /// the largest sequence number and no witness.
    pub fn spending(previous_output: OutPoint) -> (r: TxIn)
        ensures
            r@ == (TxInModel {
                previous_output,
                script_sig: Seq::empty(),
                sequence: SEQUENCE_MAX,
                witness: Seq::empty(),
            }),
    {
        let r = TxIn {
            previous_output,
            script_sig: ScriptBuf::new(),
            sequence: SEQUENCE_MAX,
            witness: Vec::new(),
        };
        assert(r@.witness =~= Seq::<Seq<u8>>::empty());
        r
    }
}

impl ViewEq for TxIn {
    fn view_eq(&self, o: &TxIn) -> (r: bool) {
        let w = all_view_eq(&self.witness, &o.witness);
        assert(views_of(self.witness@) == self.witness@.map_values(|x: ScriptBuf| x@));
        assert(views_of(o.witness@) == o.witness@.map_values(|x: ScriptBuf| x@));
        self.previous_output == o.previous_output && self.script_sig.view_eq(&o.script_sig)
            && self.sequence == o.sequence && w
    }
}

impl Duplicate for TxIn {
    fn duplicate(&self) -> (r: TxIn) {
        let mut witness: Vec<ScriptBuf> = Vec::new();
        let mut i: usize = 0;
        while i < self.witness.len()
            invariant
                i <= self.witness@.len(),
                witness@.len() == i,
                forall|k: int| 0 <= k < i ==> #[trigger] witness@[k]@ == self.witness@[k]@,
            decreases self.witness@.len() - i,
        {
            witness.push(self.witness[i].duplicate());
            i = i + 1;
        }
        assert(views_of(witness@) =~= views_of(self.witness@));
        TxIn {
            previous_output: self.previous_output,
            script_sig: self.script_sig.duplicate(),
            sequence: self.sequence,
            witness,
        }
    }
}

/// What a transaction is, as plain values.
pub struct TransactionModel {
    pub version: i32,
    pub lock_time: u32,
    pub input: Seq<TxInModel>,
    pub output: Seq<TxOutModel>,
}

/// A transaction: version, absolute lock time, inputs and outputs.
#[derive(Debug)]
pub struct Transaction {
    pub version: i32,
    pub lock_time: u32,
    pub input: Vec<TxIn>,
    pub output: Vec<TxOut>,
}

impl View for Transaction {
    type V = TransactionModel;

    open spec fn view(&self) -> TransactionModel {
        TransactionModel {
            version: self.version,
            lock_time: self.lock_time,
            input: self.input@.map_values(|i: TxIn| i@),
            output: self.output@.map_values(|o: TxOut| o@),
        }
    }
}

impl ViewEq for Transaction {
    fn view_eq(&self, o: &Transaction) -> (r: bool) {
        self.version == o.version && self.lock_time == o.lock_time && all_view_eq(
            &self.input,
            &o.input,
        ) && all_view_eq(&self.output, &o.output)
    }
}

impl Duplicate for Transaction {
    fn duplicate(&self) -> (r: Transaction) {
        let mut input: Vec<TxIn> = Vec::new();
        let mut i: usize = 0;
        while i < self.input.len()
            invariant
                i <= self.input@.len(),
                input@.len() == i,
                forall|k: int| 0 <= k < i ==> #[trigger] input@[k]@ == self.input@[k]@,
            decreases self.input@.len() - i,
        {
            input.push(self.input[i].duplicate());
            i = i + 1;
        }
        assert(input@.map_values(|x: TxIn| x@) =~= self.input@.map_values(|x: TxIn| x@));
        let mut output: Vec<TxOut> = Vec::new();
        let mut j: usize = 0;
        while j < self.output.len()
            invariant
                j <= self.output@.len(),
                output@.len() == j,
                forall|k: int| 0 <= k < j ==> #[trigger] output@[k]@ == self.output@[k]@,
            decreases self.output@.len() - j,
        {
            output.push(self.output[j].duplicate());
            j = j + 1;
        }
        assert(output@.map_values(|x: TxOut| x@) =~= self.output@.map_values(|x: TxOut| x@));
        Transaction { version: self.version, lock_time: self.lock_time, input, output }
    }
}

/// A version-one transaction with no lock time, one input spending output
/// zero of `txid`, and one output of `amount` locked by an empty script.
pub open spec fn one_inp_one_out(txid: Txid, amount: u64) -> TransactionModel {
    TransactionModel {
        version: 1,
        lock_time: 0,
        input: seq![
            TxInModel {
                previous_output: OutPoint { txid, vout: 0 },
                script_sig: Seq::empty(),
                sequence: SEQUENCE_MAX,
                witness: Seq::empty(),
            },
        ],
        output: seq![TxOutModel { value: amount, script_pubkey: Seq::empty() }],
    }
}

pub fn create_one_inp_one_out_tx(txid: Txid, amount: u64) -> (r: Transaction)
    ensures
        r@ == one_inp_one_out(txid, amount),
{
    let mut input: Vec<TxIn> = Vec::new();
    input.push(TxIn::spending(OutPoint::new(txid, 0)));
    let mut output: Vec<TxOut> = Vec::new();
    output.push(TxOut { value: amount, script_pubkey: ScriptBuf::new() });
    let r = Transaction { version: 1, lock_time: 0, input, output };
    assert(r@.input =~= seq![
        TxInModel {
            previous_output: OutPoint { txid, vout: 0 },
            script_sig: Seq::empty(),
            sequence: SEQUENCE_MAX,
            witness: Seq::empty(),
        },
    ]);
    assert(r@.output =~= seq![TxOutModel { value: amount, script_pubkey: Seq::empty() }]);
    r
}

} // verus!
