use vstd::prelude::*;
use crate::error::WalletError;
use crate::fee::ScriptKind;
use crate::tx::{TxIn, TxOut, UnsignedTx};

verus! {

/// Largest data push that script evaluation accepts.
pub const MAX_ELEMENT_SIZE: usize = 520;

/// A signature over one input together with the public key it belongs to.
#[derive(Debug, Clone, PartialEq, Eq)]
pub struct PartialSig {
    pub pubkey: Vec<u8>,
    pub signature: Vec<u8>,
}

/// Signing data for one input of a PSBT.
#[derive(Debug, Clone, PartialEq, Eq)]
pub struct PsbtInput {
    pub kind: ScriptKind,
    pub partial_sigs: Vec<PartialSig>,
    pub redeem_script: Option<Vec<u8>>,
    pub final_script_sig: Option<Vec<u8>>,
    pub final_script_witness: Option<Vec<Vec<u8>>>,
}

/// A partially signed transaction: the unsigned transaction and one signing
/// record per input.
#[derive(Debug, Clone, PartialEq, Eq)]
pub struct Psbt {
    pub unsigned_tx: UnsignedTx,
    pub inputs: Vec<PsbtInput>,
}

/// A transaction ready for broadcast: every input carries its unlocking data.
#[derive(Debug, Clone, PartialEq, Eq)]
pub struct Transaction {
    pub version: i32,
    pub lock_time: u32,
    pub inputs: Vec<TxIn>,
    pub outputs: Vec<TxOut>,
    pub script_sigs: Vec<Vec<u8>>,
    pub witnesses: Vec<Vec<Vec<u8>>>,
}

/// Where an input stands on its way to being spendable.
#[derive(Debug, Clone, Copy, PartialEq, Eq)]
pub enum InputState {
    Unsigned,
    PartiallySigned,
    Finalized,
}

pub open spec fn is_final(i: PsbtInput) -> bool {
    i.final_script_sig is Some || i.final_script_witness is Some
}

pub open spec fn state_of(i: PsbtInput) -> InputState {
    if is_final(i) {
        InputState::Finalized
    } else if i.partial_sigs@.len() > 0 {
        InputState::PartiallySigned
    } else {
        InputState::Unsigned
    }
}

pub open spec fn all_final(s: Seq<PsbtInput>) -> bool {
    forall|k: int| 0 <= k < s.len() ==> is_final(#[trigger] s[k])
}

/// The input has a signature, and a redeem script where its kind needs one,
/// all small enough to be pushed.
pub open spec fn can_finalize(i: PsbtInput) -> bool {
    &&& i.partial_sigs@.len() > 0
    &&& i.partial_sigs@[0].pubkey@.len() <= MAX_ELEMENT_SIZE
    &&& i.partial_sigs@[0].signature@.len() <= MAX_ELEMENT_SIZE
    &&& i.kind == ScriptKind::ShWpkh ==> (i.redeem_script matches Some(rs) && rs@.len()
        <= MAX_ELEMENT_SIZE)
}

/// The script bytes that push `d` onto the stack with the shortest opcode.
pub open spec fn push_data(d: Seq<u8>) -> Seq<u8> {
    if d.len() < 76 {
        seq![d.len() as u8] + d
    } else if d.len() < 256 {
        seq![0x4cu8, d.len() as u8] + d
    } else {
        seq![0x4du8, (d.len() % 256) as u8, (d.len() / 256) as u8] + d
    }
}

/// The unlocking data a finalized input of this kind carries.
pub open spec fn final_script_sig_of(i: PsbtInput) -> Option<Seq<u8>> {
    let ps = i.partial_sigs@[0];
    match i.kind {
        ScriptKind::Wpkh => None,
        ScriptKind::ShWpkh => Some(push_data(i.redeem_script->Some_0@)),
        ScriptKind::Pkh => Some(push_data(ps.signature@) + push_data(ps.pubkey@)),
    }
}

pub open spec fn witness_has(w: Vec<Vec<u8>>, sig: Seq<u8>, pk: Seq<u8>) -> bool {
    w@.len() == 2 && w@[0]@ == sig && w@[1]@ == pk
}

/// `n` is `o` after finalization: signing data cleared, unlocking data set.
pub open spec fn finalized_from(o: PsbtInput, n: PsbtInput) -> bool {
    let ps = o.partial_sigs@[0];
    &&& n.kind == o.kind
    &&& n.partial_sigs@.len() == 0
    &&& n.redeem_script is None
    &&& match (final_script_sig_of(o), n.final_script_sig) {
        (None, None) => true,
        (Some(a), Some(b)) => b@ == a,
        _ => false,
    }
    &&& match n.final_script_witness {
        None => o.kind == ScriptKind::Pkh,
        Some(w) => o.kind != ScriptKind::Pkh && witness_has(w, ps.signature@, ps.pubkey@),
    }
}

/// One step of the input state machine: a finalized input and one that lacks
/// data stay as they are; any other becomes finalized.
pub open spec fn finalize_step(o: PsbtInput, n: PsbtInput) -> bool {
    if is_final(o) || !can_finalize(o) {
        n == o
    } else {
        finalized_from(o, n)
    }
}

pub open spec fn same_output(a: TxOut, b: TxOut) -> bool {
    a.value == b.value && a.script_pubkey@ == b.script_pubkey@
}

/// The unlocking data a finalized input contributes to the transaction; an
/// absent script or witness contributes an empty one.
pub open spec fn unlocks_as(i: PsbtInput, script_sig: Vec<u8>, witness: Vec<Vec<u8>>) -> bool {
    &&& match i.final_script_sig {
        Some(s) => script_sig@ == s@,
        None => script_sig@.len() == 0,
    }
    &&& match i.final_script_witness {
        Some(w) => witness@.len() == w@.len() && forall|x: int|
            0 <= x < w@.len() ==> (#[trigger] witness@[x])@ == w@[x]@,
        None => witness@.len() == 0,
    }
}

/// `t` is the transaction held in `p`, with each input's unlocking data.
pub open spec fn extracted_from(p: Psbt, t: Transaction) -> bool {
    &&& t.version == p.unsigned_tx.version
    &&& t.lock_time == p.unsigned_tx.lock_time
    &&& t.inputs@ == p.unsigned_tx.inputs@
    &&& t.outputs@.len() == p.unsigned_tx.outputs@.len()
    &&& forall|x: int| 0 <= x < t.outputs@.len() ==> same_output(#[trigger] t.outputs@[x], p.unsigned_tx.outputs@[x])
    &&& t.script_sigs@.len() == p.inputs@.len()
    &&& t.witnesses@.len() == p.inputs@.len()
    &&& forall|k: int| 0 <= k < p.inputs@.len() ==> unlocks_as(#[trigger] p.inputs@[k], t.script_sigs@[k], t.witnesses@[k])
}

fn copy_bytes(v: &Vec<u8>) -> (r: Vec<u8>)
    ensures
        r@ == v@,
{
    let mut r: Vec<u8> = Vec::new();
    let mut i: usize = 0;
    while i < v.len()
        invariant
            i <= v@.len(),
            r@ == v@.subrange(0, i as int),
        decreases v@.len() - i,
    {
        r.push(v[i]);
        i = i + 1;
        assert(r@ =~= v@.subrange(0, i as int));
    }
    assert(v@.subrange(0, v@.len() as int) =~= v@);
    r
}

/// Appends the push of `d` to `out`.
fn append_push(out: &mut Vec<u8>, d: &Vec<u8>)
    requires
        d@.len() <= MAX_ELEMENT_SIZE,
    ensures
        final(out)@ == old(out)@ + push_data(d@),
{
    let n = d.len();
    let ghost start = out@;
    if n < 76 {
        out.push(n as u8);
    } else if n < 256 {
        out.push(0x4c);
        out.push(n as u8);
    } else {
        out.push(0x4d);
        out.push((n % 256) as u8);
        out.push((n / 256) as u8);
    }
    let ghost head = out@;
    let mut i: usize = 0;
    while i < n
        invariant
            i <= n,
            n == d@.len(),
            out@ == head + d@.subrange(0, i as int),
        decreases n - i,
    {
        out.push(d[i]);
        i = i + 1;
        assert(out@ =~= head + d@.subrange(0, i as int));
    }
    assert(d@.subrange(0, n as int) =~= d@);
    assert(head =~= start + (push_data(d@).subrange(0, push_data(d@).len() - n)));
    assert(out@ =~= start + push_data(d@));
}

impl PsbtInput {
    /// An input with no signing data yet.
    pub fn new(kind: ScriptKind, redeem_script: Option<Vec<u8>>) -> (r: Self)
        ensures
            r.kind == kind,
            r.redeem_script == redeem_script,
            r.partial_sigs@.len() == 0,
            r.final_script_sig is None,
            r.final_script_witness is None,
    {
        PsbtInput {
            kind,
            partial_sigs: Vec::new(),
            redeem_script,
            final_script_sig: None,
            final_script_witness: None,
        }
    }

    pub fn state(&self) -> (r: InputState)
        ensures
            r == state_of(*self),
    {
        if self.final_script_sig.is_some() || self.final_script_witness.is_some() {
            InputState::Finalized
        } else if self.partial_sigs.len() > 0 {
            InputState::PartiallySigned
        } else {
            InputState::Unsigned
        }
    }

    pub fn is_finalized(&self) -> (r: bool)
        ensures
            r == is_final(*self),
    {
        self.final_script_sig.is_some() || self.final_script_witness.is_some()
    }

    fn ready(&self) -> (r: bool)
        ensures
            r == can_finalize(*self),
    {
        if self.partial_sigs.len() == 0 {
            return false;
        }
        let ps = &self.partial_sigs[0];
        if ps.pubkey.len() > MAX_ELEMENT_SIZE || ps.signature.len() > MAX_ELEMENT_SIZE {
            return false;
        }
        match self.kind {
            ScriptKind::ShWpkh => match &self.redeem_script {
                Some(rs) => rs.len() <= MAX_ELEMENT_SIZE,
                None => false,
            },
            _ => true,
        }
    }

    /// The finalized form of an input that `can_finalize`.
    fn finalized(&self) -> (r: PsbtInput)
        requires
            can_finalize(*self),
        ensures
            finalized_from(*self, r),
            is_final(r),
    {
        let ps = &self.partial_sigs[0];
        let script_sig = match self.kind {
            ScriptKind::Wpkh => None,
            ScriptKind::ShWpkh => {
                let mut s: Vec<u8> = Vec::new();
                match &self.redeem_script {
                    Some(rs) => append_push(&mut s, rs),
                    None => {},
                }
                assert(s@ =~= Seq::<u8>::empty() + push_data(self.redeem_script->Some_0@));
                Some(s)
            },
            ScriptKind::Pkh => {
                let mut s: Vec<u8> = Vec::new();
                append_push(&mut s, &ps.signature);
                append_push(&mut s, &ps.pubkey);
                assert(s@ =~= push_data(ps.signature@) + push_data(ps.pubkey@));
                Some(s)
            },
        };
        let witness = match self.kind {
            ScriptKind::Pkh => None,
            _ => {
                let mut w: Vec<Vec<u8>> = Vec::new();
                w.push(copy_bytes(&ps.signature));
                w.push(copy_bytes(&ps.pubkey));
                Some(w)
            },
        };
        PsbtInput {
            kind: self.kind,
            partial_sigs: Vec::new(),
            redeem_script: None,
            final_script_sig: script_sig,
            final_script_witness: witness,
        }
    }
}

impl Psbt {
    /// A PSBT for `tx` whose every input is of `kind` and carries no
    /// signatures yet. Script-hash-wrapped inputs carry the redeem script of
    /// the same position, so that a signer can rebuild the spending
    /// condition; `None` when the count of scripts differs from the count of
    /// inputs.
    pub fn for_signing(tx: UnsignedTx, kind: ScriptKind, redeem_scripts: &Vec<Vec<u8>>) -> (r: Option<Psbt>)
        ensures
            r is Some <==> (kind != ScriptKind::ShWpkh || redeem_scripts@.len() == tx.inputs@.len()),
            r matches Some(p) ==> {
                &&& p.unsigned_tx == tx
                &&& p.inputs@.len() == tx.inputs@.len()
                &&& forall|k: int|
                    0 <= k < p.inputs@.len() ==> {
                        &&& state_of(#[trigger] p.inputs@[k]) == InputState::Unsigned
                        &&& p.inputs@[k].kind == kind
                        &&& if kind == ScriptKind::ShWpkh {
                            p.inputs@[k].redeem_script matches Some(rs) && rs@ == redeem_scripts@[k]@
                        } else {
                            p.inputs@[k].redeem_script is None
                        }
                    }
            },
    {
        let wrapped = match kind {
            ScriptKind::ShWpkh => true,
            _ => false,
        };
        if wrapped && redeem_scripts.len() != tx.inputs.len() {
            return None;
        }
        let mut inputs: Vec<PsbtInput> = Vec::new();
        let mut i: usize = 0;
        while i < tx.inputs.len()
            invariant
                i <= tx.inputs@.len(),
                inputs@.len() == i,
                wrapped == (kind == ScriptKind::ShWpkh),
                wrapped ==> redeem_scripts@.len() == tx.inputs@.len(),
                forall|k: int|
                    0 <= k < i ==> {
                        &&& state_of(#[trigger] inputs@[k]) == InputState::Unsigned
                        &&& inputs@[k].kind == kind
                        &&& if kind == ScriptKind::ShWpkh {
                            inputs@[k].redeem_script matches Some(rs) && rs@ == redeem_scripts@[k]@
                        } else {
                            inputs@[k].redeem_script is None
                        }
                    },
            decreases tx.inputs@.len() - i,
        {
            let rs = if wrapped {
                Some(copy_bytes(&redeem_scripts[i]))
            } else {
                None
            };
            inputs.push(PsbtInput::new(kind, rs));
            i = i + 1;
        }
        Some(Psbt { unsigned_tx: tx, inputs })
    }

    pub fn is_fully_finalized(&self) -> (r: bool)
        ensures
            r == all_final(self.inputs@),
    {
        let mut i: usize = 0;
        while i < self.inputs.len()
            invariant
                i <= self.inputs@.len(),
                forall|k: int| 0 <= k < i ==> is_final(#[trigger] self.inputs@[k]),
            decreases self.inputs@.len() - i,
        {
            if !self.inputs[i].is_finalized() {
                return false;
            }
            i = i + 1;
        }
        true
    }

    /// Finalizes every input that has the data for it; the others are left
    /// as they are. Returns whether every input is now finalized.
    pub fn finalize(&mut self) -> (r: bool)
        ensures
            final(self).unsigned_tx == old(self).unsigned_tx,
            final(self).inputs@.len() == old(self).inputs@.len(),
            forall|k: int|
                0 <= k < old(self).inputs@.len() ==> finalize_step(
                    #[trigger] old(self).inputs@[k],
                    final(self).inputs@[k],
                ),
            r == all_final(final(self).inputs@),
    {
        let mut i: usize = 0;
        while i < self.inputs.len()
            invariant
                i <= self.inputs@.len(),
                self.unsigned_tx == old(self).unsigned_tx,
                self.inputs@.len() == old(self).inputs@.len(),
                forall|k: int|
                    0 <= k < i ==> finalize_step(
                        #[trigger] old(self).inputs@[k],
                        self.inputs@[k],
                    ),
                forall|k: int| i <= k < self.inputs@.len() ==> self.inputs@[k] == old(self).inputs@[k],
            decreases self.inputs@.len() - i,
        {
            if !self.inputs[i].is_finalized() && self.inputs[i].ready() {
                let f = self.inputs[i].finalized();
                self.inputs.set(i, f);
            }
            i = i + 1;
        }
        self.is_fully_finalized()
    }

    /// The signed transaction; refused unless every input is finalized.
    pub fn extract_tx(&self) -> (r: Result<Transaction, WalletError>)
        ensures
            r is Ok <==> all_final(self.inputs@),
            r is Err ==> r == Err::<Transaction, WalletError>(WalletError::NotFinalized),
            r matches Ok(t) ==> extracted_from(*self, t),
    {
        if !self.is_fully_finalized() {
            return Err(WalletError::NotFinalized);
        }
        let mut script_sigs: Vec<Vec<u8>> = Vec::new();
        let mut witnesses: Vec<Vec<Vec<u8>>> = Vec::new();
        let mut i: usize = 0;
        while i < self.inputs.len()
            invariant
                i <= self.inputs@.len(),
                script_sigs@.len() == i,
                witnesses@.len() == i,
                forall|k: int| 0 <= k < i ==> unlocks_as(#[trigger] self.inputs@[k], script_sigs@[k], witnesses@[k]),
            decreases self.inputs@.len() - i,
        {
            let inp = &self.inputs[i];
            let ss = match &inp.final_script_sig {
                Some(s) => copy_bytes(s),
                None => Vec::new(),
            };
            let mut w: Vec<Vec<u8>> = Vec::new();
            match &inp.final_script_witness {
                Some(items) => {
                    let mut j: usize = 0;
                    while j < items.len()
                        invariant
                            j <= items@.len(),
                            w@.len() == j,
                            forall|x: int| 0 <= x < j ==> (#[trigger] w@[x])@ == items@[x]@,
                        decreases items@.len() - j,
                    {
                        w.push(copy_bytes(&items[j]));
                        j = j + 1;
                    }
                },
                None => {},
            }
            script_sigs.push(ss);
            witnesses.push(w);
            assert(unlocks_as(self.inputs@[i as int], script_sigs@[i as int], witnesses@[i as int]));
            i = i + 1;
        }
        let mut ins: Vec<TxIn> = Vec::new();
        let mut k: usize = 0;
        while k < self.unsigned_tx.inputs.len()
            invariant
                k <= self.unsigned_tx.inputs@.len(),
                ins@ == self.unsigned_tx.inputs@.subrange(0, k as int),
            decreases self.unsigned_tx.inputs@.len() - k,
        {
            ins.push(self.unsigned_tx.inputs[k]);
            k = k + 1;
            assert(ins@ =~= self.unsigned_tx.inputs@.subrange(0, k as int));
        }
        assert(self.unsigned_tx.inputs@.subrange(0, k as int) =~= self.unsigned_tx.inputs@);
        let mut outs: Vec<TxOut> = Vec::new();
        let mut m: usize = 0;
        while m < self.unsigned_tx.outputs.len()
            invariant
                m <= self.unsigned_tx.outputs@.len(),
                outs@.len() == m,
                forall|x: int| 0 <= x < m ==> same_output(#[trigger] outs@[x], self.unsigned_tx.outputs@[x]),
            decreases self.unsigned_tx.outputs@.len() - m,
        {
            let o = &self.unsigned_tx.outputs[m];
            outs.push(TxOut { value: o.value, script_pubkey: copy_bytes(&o.script_pubkey) });
            m = m + 1;
        }
        Ok(
            Transaction {
                version: self.unsigned_tx.version,
                lock_time: self.unsigned_tx.lock_time,
                inputs: ins,
                outputs: outs,
                script_sigs,
                witnesses,
            },
        )
    }
}

} // verus!
