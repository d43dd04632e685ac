//! The execution provider: one in-memory ledger, driven by deployment, call
//! and send transactions whose outcomes are classified.
use vstd::prelude::*;
use revm::db::{CacheDB, EmptyDB};
use revm::primitives::{Address, Bytes, ExecutionResult, Output, TxKind, U256};
use revm::Evm;

verus! {

/// revm's result of one executed transaction, read only by `outcome_of`.
#[verifier::external_type_specification]
#[verifier::external_body]
pub struct ExExecutionResult(ExecutionResult);

/// The engine together with its in-memory state database: accounts, code
/// and storage. Held whole, since `CacheDB` cannot be declared with its
/// `DatabaseRef` bound; only the functions below touch it.
#[verifier::external_body]
pub struct Ledger {
    evm: Evm<'static, (), CacheDB<EmptyDB>>,
}

/// Account addresses are 20 bytes.
pub open spec fn is_address(a: Seq<u8>) -> bool {
    a.len() == 20
}

/// The classified result of one call or send.
#[derive(Debug, PartialEq, Eq)]
pub enum ExecRes {
    /// Ran to the end: the returned bytes.
    Success(Vec<u8>),
    /// Rejected by the contract: the revert data.
    Revert(Vec<u8>),
    /// Ended abnormally, or could not be run: the reason.
    Halt(String),
}

/// What the engine reported for one transaction.
#[derive(Debug)]
pub enum EngineOutcome {
    /// Ran to the end, with the returned bytes and, for a creation, the
    /// address of the new contract.
    Success { output: Vec<u8>, created: Option<Vec<u8>> },
    Revert(Vec<u8>),
    Halt(String),
    /// The transaction was not valid and was not run.
    Rejected(String),
}

/// The classification of an engine outcome.
pub open spec fn classify_spec(o: EngineOutcome) -> ExecRes {
    match o {
        EngineOutcome::Success { output, created } => ExecRes::Success(output),
        EngineOutcome::Revert(b) => ExecRes::Revert(b),
        EngineOutcome::Halt(s) => ExecRes::Halt(s),
        EngineOutcome::Rejected(s) => ExecRes::Halt(s),
    }
}

/// The address that a creation outcome yields: only a success does.
pub open spec fn created_spec(o: EngineOutcome) -> Option<Vec<u8>> {
    match o {
        EngineOutcome::Success { output, created } => created,
        _ => None,
    }
}

/// Classifies an engine outcome as success, revert or halt; a transaction
/// that could not be run counts as halted.
pub fn classify(o: EngineOutcome) -> (r: ExecRes)
    ensures
        r == classify_spec(o),
{
    match o {
        EngineOutcome::Success { output, created } => ExecRes::Success(output),
        EngineOutcome::Revert(b) => ExecRes::Revert(b),
        EngineOutcome::Halt(s) => ExecRes::Halt(s),
        EngineOutcome::Rejected(s) => ExecRes::Halt(s),
    }
}

/// The address of the contract that a creation outcome deployed, if any.
pub fn created_address(o: EngineOutcome) -> (r: Option<Vec<u8>>)
    ensures
        r == created_spec(o),
{
    match o {
        EngineOutcome::Success { output, created } => created,
        _ => None,
    }
}

/// A creation that reverted, halted or was rejected deploys nothing.
pub proof fn failed_creation_has_no_address(o: EngineOutcome)
    requires
        !(o is Success),
    ensures
        created_spec(o) is None,
{
}

/// The accounts of a ledger, by address: balance, nonce, code, and storage
/// (slot to value).
pub uninterp spec fn ledger_accounts(l: Ledger) -> Map<Seq<u8>, (nat, nat, Seq<u8>, Map<nat, nat>)>;

/// The transaction loaded for the next run: caller, target (`None` for a
/// creation), data and value.
pub uninterp spec fn pending_tx(l: Ledger) -> (Seq<u8>, Option<Seq<u8>>, Seq<u8>, u128);

/// The engine's outcome of running a transaction on the given accounts.
pub uninterp spec fn run_of(accounts: Map<Seq<u8>, (nat, nat, Seq<u8>, Map<nat, nat>)>, tx: (Seq<u8>, Option<Seq<u8>>, Seq<u8>, u128)) -> EngineOutcome;

/// The accounts after running a transaction on them and committing its
/// state changes.
pub uninterp spec fn committed_of(accounts: Map<Seq<u8>, (nat, nat, Seq<u8>, Map<nat, nat>)>, tx: (Seq<u8>, Option<Seq<u8>>, Seq<u8>, u128)) -> Map<Seq<u8>, (nat, nat, Seq<u8>, Map<nat, nat>)>;

/// A transaction as the ledger reads it.
pub open spec fn tx_of(from: Seq<u8>, to: Option<Seq<u8>>, data: Seq<u8>, value: u128) -> (Seq<u8>, Option<Seq<u8>>, Seq<u8>, u128) {
    (from, to, data, value)
}

/// Relies on `Evm::builder` and `CacheDB::new`: an engine over an empty
/// in-memory database, which holds no accounts.
#[verifier::external_body]
fn empty_ledger() -> (r: Ledger)
    ensures
        ledger_accounts(r).dom().is_empty(),
{
    Ledger { evm: Evm::builder().with_db(CacheDB::new(EmptyDB::default())).build() }
}

/// Relies on `Evm::tx_mut` and the fields of revm's `TxEnv`: makes the next
/// transaction come from `from`, go to `to` (a creation when `None`) with
/// `data` and `value`. The accounts are not touched.
#[verifier::external_body]
fn load_tx(evm: &mut Ledger, from: &Vec<u8>, to: Option<&Vec<u8>>, data: &Vec<u8>, value: u128)
    requires
        is_address(from@),
        to matches Some(t) ==> is_address(t@),
    ensures
        ledger_accounts(*final(evm)) == ledger_accounts(*old(evm)),
        pending_tx(*final(evm)) == tx_of(from@, match to { Some(t) => Some(t@), None => None }, data@, value),
{
    let tx = evm.evm.tx_mut();
    tx.caller = Address::from_slice(from);
    tx.transact_to = match to {
        Some(t) => TxKind::Call(Address::from_slice(t)),
        None => TxKind::Create,
    };
    tx.data = Bytes::from(data.clone());
    tx.value = U256::from(value);
}

/// Relies on `Evm::transact_commit`: runs the loaded transaction and commits
/// its state changes. A created address is 20 bytes.
#[verifier::external_body]
fn transact_commit(evm: &mut Ledger) -> (r: EngineOutcome)
    ensures
        r == run_of(ledger_accounts(*old(evm)), pending_tx(*old(evm))),
        ledger_accounts(*final(evm)) == committed_of(ledger_accounts(*old(evm)), pending_tx(*old(evm))),
        r matches EngineOutcome::Success { created: Some(a), .. } ==> is_address(a@),
{
    match evm.evm.transact_commit() {
        Ok(res) => outcome_of(res),
        Err(e) => EngineOutcome::Rejected(format!("{:?}", e)),
    }
}

/// Relies on `Evm::transact`: runs the loaded transaction without committing
/// its state changes. A created address is 20 bytes.
#[verifier::external_body]
fn transact(evm: &mut Ledger) -> (r: EngineOutcome)
    ensures
        r == run_of(ledger_accounts(*old(evm)), pending_tx(*old(evm))),
        ledger_accounts(*final(evm)) == ledger_accounts(*old(evm)),
        r matches EngineOutcome::Success { created: Some(a), .. } ==> is_address(a@),
{
    match evm.evm.transact() {
        Ok(res) => outcome_of(res.result),
        Err(e) => EngineOutcome::Rejected(format!("{:?}", e)),
    }
}

/// Relies on revm's `ExecutionResult` and `Output`: moves their fields into an
/// engine outcome.
#[verifier::external_body]
fn outcome_of(res: ExecutionResult) -> EngineOutcome {
    match res {
        ExecutionResult::Success { output: Output::Call(b), .. } => {
            EngineOutcome::Success { output: b.to_vec(), created: None }
        },
        ExecutionResult::Success { output: Output::Create(b, a), .. } => {
            EngineOutcome::Success { output: b.to_vec(), created: a.map(|a| a.to_vec()) }
        },
        ExecutionResult::Revert { output, .. } => EngineOutcome::Revert(output.to_vec()),
        ExecutionResult::Halt { reason, .. } => EngineOutcome::Halt(format!("{:?}", reason)),
    }
}

/// One simulated ledger and the active sender used for its transactions.
pub struct Provider {
    /// The engine and its state database.
    pub evm: Ledger,
    /// The active sender.
    pub sender: Vec<u8>,
}

impl Default for Provider {
    /// A provider over an empty ledger, with the zero address as sender.
    fn default() -> (r: Provider)
        ensures
            r.wf(),
            r.sender@ == Seq::new(20, |i: int| 0u8),
            r.accounts().dom().is_empty(),
    {
        Provider::new()
    }
}

impl Provider {
    pub open spec fn wf(&self) -> bool {
        is_address(self.sender@)
    }

    /// The accounts of the ledger.
    pub open spec fn accounts(&self) -> Map<Seq<u8>, (nat, nat, Seq<u8>, Map<nat, nat>)> {
        ledger_accounts(self.evm)
    }

    /// A provider over an empty ledger, with the zero address as sender.
    pub fn new() -> (r: Provider)
        ensures
            r.wf(),
            r.sender@ == Seq::new(20, |i: int| 0u8),
            r.accounts().dom().is_empty(),
    {
        let mut sender: Vec<u8> = Vec::new();
        let mut i: usize = 0;
        while i < 20
            invariant
                i <= 20,
                sender@ == Seq::new(i as nat, |k: int| 0u8),
            decreases 20 - i,
        {
            sender.push(0u8);
            i = i + 1;
            assert(sender@ =~= Seq::new(i as nat, |k: int| 0u8));
        }
        Provider { evm: empty_ledger(), sender }
    }

    fn deploy_code(&mut self, code: Vec<u8>, value: u128) -> (r: Option<Vec<u8>>)
        requires
            old(self).wf(),
        ensures
            final(self).wf(),
            final(self).sender == old(self).sender,
            r == created_spec(run_of(old(self).accounts(), tx_of(old(self).sender@, None, code@, value))),
            final(self).accounts() == committed_of(old(self).accounts(), tx_of(old(self).sender@, None, code@, value)),
            !(run_of(old(self).accounts(), tx_of(old(self).sender@, None, code@, value)) is Success) ==> r is None,
            r matches Some(a) ==> is_address(a@),
    {
        load_tx(&mut self.evm, &self.sender, None, &code, value);
        let o = transact_commit(&mut self.evm);
        created_address(o)
    }

    fn call_from(&mut self, to: &Vec<u8>, data: Vec<u8>, value: u128) -> (r: ExecRes)
        requires
            old(self).wf(),
            is_address(to@),
        ensures
            final(self).wf(),
            final(self).sender == old(self).sender,
            r == classify_spec(run_of(old(self).accounts(), tx_of(old(self).sender@, Some(to@), data@, value))),
            final(self).accounts() == old(self).accounts(),
    {
        load_tx(&mut self.evm, &self.sender, Some(to), &data, value);
        classify(transact(&mut self.evm))
    }

    fn send_from(&mut self, to: &Vec<u8>, data: Vec<u8>, value: u128) -> (r: ExecRes)
        requires
            old(self).wf(),
            is_address(to@),
        ensures
            final(self).wf(),
            final(self).sender == old(self).sender,
            r == classify_spec(run_of(old(self).accounts(), tx_of(old(self).sender@, Some(to@), data@, value))),
            final(self).accounts() == committed_of(old(self).accounts(), tx_of(old(self).sender@, Some(to@), data@, value)),
    {
        load_tx(&mut self.evm, &self.sender, Some(to), &data, value);
        classify(transact_commit(&mut self.evm))
    }

    /// Deploys `code` from the active sender and commits the creation: the new
    /// contract's address, or `None` when the creation did not succeed.
    pub fn deploy(&mut self, code: Vec<u8>) -> (r: Option<Vec<u8>>)
        requires
            old(self).wf(),
        ensures
            final(self).wf(),
            final(self).sender == old(self).sender,
            r == created_spec(run_of(old(self).accounts(), tx_of(old(self).sender@, None, code@, 0))),
            final(self).accounts() == committed_of(old(self).accounts(), tx_of(old(self).sender@, None, code@, 0)),
            !(run_of(old(self).accounts(), tx_of(old(self).sender@, None, code@, 0)) is Success) ==> r is None,
            r matches Some(a) ==> is_address(a@),
    {
        self.deploy_code(code, 0)
    }

    /// Deploys `code` from the active sender, sending `value` with it.
    pub fn deploy_with_value(&mut self, code: Vec<u8>, value: u128) -> (r: Option<Vec<u8>>)
        requires
            old(self).wf(),
        ensures
            final(self).wf(),
            final(self).sender == old(self).sender,
            r == created_spec(run_of(old(self).accounts(), tx_of(old(self).sender@, None, code@, value))),
            final(self).accounts() == committed_of(old(self).accounts(), tx_of(old(self).sender@, None, code@, value)),
            !(run_of(old(self).accounts(), tx_of(old(self).sender@, None, code@, value)) is Success) ==> r is None,
            r matches Some(a) ==> is_address(a@),
    {
        self.deploy_code(code, value)
    }

    /// Runs a call to `to` from the active sender without committing its
    /// state changes.
    pub fn call(&mut self, to: &Vec<u8>, data: Vec<u8>) -> (r: ExecRes)
        requires
            old(self).wf(),
            is_address(to@),
        ensures
            final(self).wf(),
            final(self).sender == old(self).sender,
            r == classify_spec(run_of(old(self).accounts(), tx_of(old(self).sender@, Some(to@), data@, 0))),
            final(self).accounts() == old(self).accounts(),
    {
        self.call_from(to, data, 0)
    }

    /// A call that moves no value and commits nothing.
    pub fn staticcall(&mut self, to: &Vec<u8>, data: Vec<u8>) -> (r: ExecRes)
        requires
            old(self).wf(),
            is_address(to@),
        ensures
            final(self).wf(),
            final(self).sender == old(self).sender,
            r == classify_spec(run_of(old(self).accounts(), tx_of(old(self).sender@, Some(to@), data@, 0))),
            final(self).accounts() == old(self).accounts(),
    {
        self.call_from(to, data, 0)
    }

    /// Runs a transaction to `to` from the active sender and commits its
    /// state changes.
    pub fn send(&mut self, to: &Vec<u8>, data: Vec<u8>) -> (r: ExecRes)
        requires
            old(self).wf(),
            is_address(to@),
        ensures
            final(self).wf(),
            final(self).sender == old(self).sender,
            r == classify_spec(run_of(old(self).accounts(), tx_of(old(self).sender@, Some(to@), data@, 0))),
            final(self).accounts() == committed_of(old(self).accounts(), tx_of(old(self).sender@, Some(to@), data@, 0)),
    {
        self.send_from(to, data, 0)
    }

    /// Like `send`, moving `value` with the transaction.
    pub fn send_value(&mut self, to: &Vec<u8>, data: Vec<u8>, value: u128) -> (r: ExecRes)
        requires
            old(self).wf(),
            is_address(to@),
        ensures
            final(self).wf(),
            final(self).sender == old(self).sender,
            r == classify_spec(run_of(old(self).accounts(), tx_of(old(self).sender@, Some(to@), data@, value))),
            final(self).accounts() == committed_of(old(self).accounts(), tx_of(old(self).sender@, Some(to@), data@, value)),
    {
        self.send_from(to, data, value)
    }

    /// Makes `who` the sender of all later transactions.
    pub fn impersonate(&mut self, who: Vec<u8>)
        requires
            is_address(who@),
        ensures
            final(self).wf(),
            final(self).sender == who,
            final(self).evm == old(self).evm,
    {
        self.sender = who;
    }
}

} // verus!
