//! Deployed contracts: call-data encoding, and methods invoked through a
//! provider.
use vstd::prelude::*;
use crate::bindings::{BoundMethod, Deployable, Dispatch};
use crate::provider::{
    ExecRes, Provider, classify_spec, committed_of, created_spec, is_address, run_of, tx_of,
};
use crate::text::same_text;

verus! {

/// The Keccak-256 digest of the UTF-8 bytes of a text.
pub uninterp spec fn keccak_text(s: Seq<char>) -> Seq<u8>;

/// Relies on `revm::primitives::keccak256`: the 32-byte Keccak-256 digest of
/// the bytes of `s`.
#[verifier::external_body]
fn keccak_of(s: &str) -> (r: Vec<u8>)
    ensures
        r@ == keccak_text(s@),
        r@.len() == 32,
{
    revm::primitives::keccak256(s.as_bytes()).0.to_vec()
}

/// The selector of a signature: the first four bytes of its digest.
pub open spec fn selector_of(signature: Seq<char>) -> Seq<u8> {
    keccak_text(signature).subrange(0, 4)
}

/// The four-byte selector that dispatches to the function of `signature`.
pub fn selector(signature: &str) -> (r: Vec<u8>)
    ensures
        r@ == selector_of(signature@),
{
    let h = keccak_of(signature);
    let mut r: Vec<u8> = Vec::new();
    let mut i: usize = 0;
    while i < 4
        invariant
            h@.len() == 32,
            i <= 4,
            r@ == h@.subrange(0, i as int),
        decreases 4 - i,
    {
        r.push(h[i]);
        i = i + 1;
        assert(r@ =~= h@.subrange(0, i as int));
    }
    r
}

/// Argument words laid end to end.
pub open spec fn flat(ws: Seq<Seq<u8>>) -> Seq<u8>
    decreases ws.len(),
{
    if ws.len() == 0 {
        Seq::empty()
    } else {
        flat(ws.drop_last()) + ws.last()
    }
}

pub open spec fn views(ws: Seq<Vec<u8>>) -> Seq<Seq<u8>> {
    Seq::new(ws.len(), |i: int| ws[i]@)
}

/// Every word is 32 bytes.
pub open spec fn all_words(ws: Seq<Seq<u8>>) -> bool {
    forall|i: int| 0 <= i < ws.len() ==> (#[trigger] ws[i]).len() == 32
}

/// Call data: the selector followed by the argument words.
pub open spec fn call_data(sel: Seq<u8>, args: Seq<Seq<u8>>) -> Seq<u8> {
    sel + flat(args)
}

/// How the engine reads call data: a four-byte selector, then 32-byte words.
pub open spec fn split_call(d: Seq<u8>) -> Option<(Seq<u8>, Seq<Seq<u8>>)> {
    if d.len() >= 4 && (d.len() - 4) % 32 == 0 {
        Some((d.subrange(0, 4), Seq::new(((d.len() - 4) / 32) as nat, |i: int| d.subrange(4 + 32 * i, 4 + 32 * i + 32))))
    } else {
        None
    }
}

/// Encodes a call: the selector followed by the argument words.
pub fn encode_call(sel: &Vec<u8>, args: &Vec<Vec<u8>>) -> (r: Vec<u8>)
    ensures
        r@ == call_data(sel@, views(args@)),
{
    let mut out: Vec<u8> = Vec::new();
    let mut k: usize = 0;
    while k < sel.len()
        invariant
            k <= sel@.len(),
            out@ == sel@.subrange(0, k as int),
        decreases sel@.len() - k,
    {
        out.push(sel[k]);
        k = k + 1;
        assert(out@ =~= sel@.subrange(0, k as int));
    }
    assert(sel@.subrange(0, k as int) =~= sel@);
    let mut i: usize = 0;
    while i < args.len()
        invariant
            i <= args@.len(),
            out@ == sel@ + flat(views(args@).subrange(0, i as int)),
        decreases args@.len() - i,
    {
        let w = &args[i];
        let ghost before = out@;
        let mut k: usize = 0;
        while k < w.len()
            invariant
                k <= w@.len(),
                out@ == before + w@.subrange(0, k as int),
            decreases w@.len() - k,
        {
            out.push(w[k]);
            k = k + 1;
            assert(out@ =~= before + w@.subrange(0, k as int));
        }
        assert(views(args@).subrange(0, i + 1).drop_last() =~= views(args@).subrange(0, i as int));
        assert(w@.subrange(0, k as int) =~= w@);
        assert(out@ =~= sel@ + flat(views(args@).subrange(0, i + 1)));
        i = i + 1;
    }
    assert(views(args@).subrange(0, i as int) =~= views(args@));
    out
}

proof fn lemma_flat_words(ws: Seq<Seq<u8>>)
    requires
        all_words(ws),
    ensures
        flat(ws).len() == 32 * ws.len(),
        forall|i: int| 0 <= i < ws.len() ==> flat(ws).subrange(32 * i, 32 * i + 32) == #[trigger] ws[i],
    decreases ws.len(),
{
    if ws.len() > 0 {
        let p = ws.drop_last();
        assert(all_words(p)) by {
            assert forall|i: int| 0 <= i < p.len() implies (#[trigger] p[i]).len() == 32 by {
                assert(p[i] == ws[i]);
            }
        }
        lemma_flat_words(p);
        assert forall|i: int| 0 <= i < ws.len() implies flat(ws).subrange(32 * i, 32 * i + 32) == #[trigger] ws[i] by {
            if i < ws.len() - 1 {
                assert(flat(ws).subrange(32 * i, 32 * i + 32) =~= flat(p).subrange(32 * i, 32 * i + 32));
                assert(p[i] == ws[i]);
            } else {
                assert(flat(ws).subrange(32 * i, 32 * i + 32) =~= ws.last());
            }
        }
    }
}

/// Decoding the call data of a selector and 32-byte words gives back that
/// selector and those words, in order.
pub proof fn call_data_round_trip(sel: Seq<u8>, args: Seq<Seq<u8>>)
    requires
        sel.len() == 4,
        all_words(args),
    ensures
        split_call(call_data(sel, args)) == Some((sel, args)),
{
    lemma_flat_words(args);
    let d = call_data(sel, args);
    assert((d.len() - 4) / 32 == args.len()) by (nonlinear_arith)
        requires d.len() - 4 == 32 * args.len();
    let (s2, a2) = split_call(d).unwrap();
    assert(s2 =~= sel);
    assert forall|i: int| 0 <= i < args.len() implies a2[i] == args[i] by {
        assert(d.subrange(4 + 32 * i, 4 + 32 * i + 32) =~= flat(args).subrange(32 * i, 32 * i + 32));
    }
    assert(a2 =~= args);
}

/// Why a method invocation gave no value.
#[derive(Debug, PartialEq, Eq)]
pub enum CallError {
    /// No method has that identifier.
    UnknownMethod,
    /// The number of arguments differs from the method's inputs.
    ArgumentCount,
    /// The argument at this position is not a 32-byte word.
    BadArgument(usize),
    /// The contract reverted, with this data.
    Reverted(Vec<u8>),
    /// The execution halted, for this reason.
    Halted(String),
    /// The method declares an output but fewer than 32 bytes came back.
    ShortReturn(Vec<u8>),
}

/// The value of an invocation, given the method's output kind and the
/// classified execution result.
pub open spec fn method_result_spec(has_output: bool, res: ExecRes) -> Result<Option<Seq<u8>>, CallError> {
    match res {
        ExecRes::Success(d) => if !has_output {
            Ok(None)
        } else if d@.len() >= 32 {
            Ok(Some(d@.subrange(0, 32)))
        } else {
            Err(CallError::ShortReturn(d))
        },
        ExecRes::Revert(d) => Err(CallError::Reverted(d)),
        ExecRes::Halt(s) => Err(CallError::Halted(s)),
    }
}

pub open spec fn result_matches(r: Result<Option<Vec<u8>>, CallError>, s: Result<Option<Seq<u8>>, CallError>) -> bool {
    match (r, s) {
        (Ok(None), Ok(None)) => true,
        (Ok(Some(w)), Ok(Some(v))) => w@ == v,
        (Err(a), Err(b)) => a == b,
        _ => false,
    }
}

/// Decodes what an execution returned for a method: nothing when it declares
/// no output, else the first 32-byte word.
pub fn method_result(has_output: bool, res: ExecRes) -> (r: Result<Option<Vec<u8>>, CallError>)
    ensures
        result_matches(r, method_result_spec(has_output, res)),
{
    match res {
        ExecRes::Success(d) => {
            if !has_output {
                Ok(None)
            } else if d.len() >= 32 {
                let mut w: Vec<u8> = Vec::new();
                let mut i: usize = 0;
                while i < 32
                    invariant
                        d@.len() >= 32,
                        i <= 32,
                        w@ == d@.subrange(0, i as int),
                    decreases 32 - i,
                {
                    w.push(d[i]);
                    i = i + 1;
                    assert(w@ =~= d@.subrange(0, i as int));
                }
                Ok(Some(w))
            } else {
                Err(CallError::ShortReturn(d))
            }
        },
        ExecRes::Revert(d) => Err(CallError::Reverted(d)),
        ExecRes::Halt(s) => Err(CallError::Halted(s)),
    }
}

/// A deployed contract: its address and its bound methods.
pub struct ContractHandle {
    pub address: Vec<u8>,
    pub methods: Vec<BoundMethod>,
}

impl Deployable {
    /// Deploys the code from the provider's active sender; the handle holds
    /// the new address and this artifact's methods. `None` when the creation
    /// did not succeed.
    pub fn deploy(self, provider: &mut Provider) -> (r: Option<ContractHandle>)
        requires
            old(provider).wf(),
        ensures
            final(provider).wf(),
            final(provider).sender == old(provider).sender,
            final(provider).accounts() == committed_of(old(provider).accounts(),
                tx_of(old(provider).sender@, None, self.code@, 0)),
            match created_spec(run_of(old(provider).accounts(), tx_of(old(provider).sender@, None, self.code@, 0))) {
                Some(a) => r matches Some(h) && h.address == a && h.methods == self.methods,
                None => r is None,
            },
            r matches Some(h) ==> is_address(h.address@),
    {
        match provider.deploy(self.code) {
            Some(address) => Some(ContractHandle { address, methods: self.methods }),
            None => None,
        }
    }
}

impl ContractHandle {
    /// The position of the first method with identifier `ident`, if any.
    pub fn method_index(&self, ident: &str) -> (r: Option<usize>)
        ensures
            match r {
                Some(i) => i < self.methods@.len() && self.methods@[i as int].ident@ == ident@
                    && forall|k: int| 0 <= k < i ==> (#[trigger] self.methods@[k]).ident@ != ident@,
                None => forall|i: int| 0 <= i < self.methods@.len() ==> (#[trigger] self.methods@[i]).ident@ != ident@,
            },
    {
        let mut i: usize = 0;
        while i < self.methods.len()
            invariant
                i <= self.methods@.len(),
                forall|k: int| 0 <= k < i ==> (#[trigger] self.methods@[k]).ident@ != ident@,
            decreases self.methods@.len() - i,
        {
            if same_text(self.methods[i].ident.as_str(), ident) {
                return Some(i);
            }
            i = i + 1;
        }
        None
    }

    /// Invokes the (first) method `ident` with 32-byte argument words, sending
    /// the call data of its selector and the words to this contract's address
    /// from the active sender: read-only methods as a call whose changes are
    /// not committed, the others as a committed transaction. Returns the
    /// decoded output word, if the method declares one.
    #[verifier::loop_isolation(false)]
    pub fn invoke(&self, provider: &mut Provider, ident: &str, args: &Vec<Vec<u8>>) -> (r: Result<Option<Vec<u8>>, CallError>)
        requires
            old(provider).wf(),
            is_address(self.address@),
        ensures
            final(provider).wf(),
            final(provider).sender == old(provider).sender,
            (forall|i: int| 0 <= i < self.methods@.len() ==> (#[trigger] self.methods@[i]).ident@ != ident@)
                <==> r == Err::<Option<Vec<u8>>, _>(CallError::UnknownMethod),
            forall|i: int| 0 <= i < self.methods@.len() && (#[trigger] self.methods@[i]).ident@ == ident@
                && (forall|k: int| 0 <= k < i ==> self.methods@[k].ident@ != ident@) ==> {
                let m = self.methods@[i];
                let tx = tx_of(old(provider).sender@, Some(self.address@),
                    call_data(selector_of(m.signature@), views(args@)), 0);
                let ok_args = m.inputs@.len() == args@.len() && all_words(views(args@));
                &&& (m.inputs@.len() != args@.len() <==> r == Err::<Option<Vec<u8>>, _>(CallError::ArgumentCount))
                &&& ((m.inputs@.len() == args@.len() && !all_words(views(args@))) <==> (r matches Err(CallError::BadArgument(k))
                    && k < args@.len() && args@[k as int]@.len() != 32
                    && forall|j: int| 0 <= j < k ==> (#[trigger] args@[j])@.len() == 32))
                &&& (!ok_args ==> final(provider).accounts() == old(provider).accounts())
                &&& (ok_args ==> result_matches(r, method_result_spec(m.output is Some,
                    classify_spec(run_of(old(provider).accounts(), tx)))))
                &&& (ok_args && m.dispatch == Dispatch::Static ==> final(provider).accounts() == old(provider).accounts())
                &&& (ok_args && m.dispatch == Dispatch::Send
                    ==> final(provider).accounts() == committed_of(old(provider).accounts(), tx))
            },
    {
        let i = match self.method_index(ident) {
            Some(i) => i,
            None => {
                return Err(CallError::UnknownMethod);
            },
        };
        let m = &self.methods[i];
        if m.inputs.len() != args.len() {
            return Err(CallError::ArgumentCount);
        }
        let mut k: usize = 0;
        while k < args.len()
            invariant
                k <= args@.len(),
                forall|j: int| 0 <= j < k ==> (#[trigger] args@[j])@.len() == 32,
            decreases args@.len() - k,
        {
            if args[k].len() != 32 {
                assert(views(args@)[k as int] == args@[k as int]@);
                return Err(CallError::BadArgument(k));
            }
            k = k + 1;
        }
        assert(all_words(views(args@)));
        let data = encode_call(&selector(m.signature.as_str()), args);
        let res = match m.dispatch {
            Dispatch::Static => provider.staticcall(&self.address, data),
            Dispatch::Send => provider.send(&self.address, data),
        };
        method_result(m.output.is_some(), res)
    }
}

} // verus!
