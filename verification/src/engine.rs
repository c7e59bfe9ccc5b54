//! The dispatcher core: one state per client account, records applied in
//! arrival order.
//!
//! An [`Engine`] owns every account's [`State`], creating each lazily on
//! the first record that addresses it. [`Engine::submit`] applies one
//! record to its account — and only that account — exactly as
//! [`spec_submit`] says; [`Engine::snapshot`] returns one [`Account`] per
//! client ever addressed. The concurrent front (per-account worker tasks
//! fed by bounded inboxes) preserves per-account arrival order and drains
//! all workers before a snapshot, so its observable behaviour is this
//! sequential engine's; that front lives outside the library and calls in
//! here.

use vstd::prelude::*;

use crate::account::{self, Account};
use crate::state::{self, spec_apply, spec_try_from, State, StateView, Transaction};
use crate::transaction::TransactionRecord;
use std::collections::HashMap;

verus! {

/// What submitting one record does to the map of account states: the
/// addressed account's state is created if absent — also when the record
/// itself is rejected — and the record, if convertible, is applied to it.
/// No other account is touched.
pub open spec fn spec_submit(
    m: Map<account::Id, StateView>,
    rec: TransactionRecord,
) -> (Map<account::Id, StateView>, state::Result<()>) {
    let s0 = if m.contains_key(rec.client) {
        m[rec.client]
    } else {
        StateView::new_state(rec.client)
    };
    match spec_try_from(rec) {
        Ok(tx) => {
            let (s1, r) = spec_apply(tx, s0);
            (m.insert(rec.client, s1), r)
        },
        Err(e) => (m.insert(rec.client, s0), Err(e)),
    }
}

/// Sequential application of a sequence of records, first to last: the
/// state after a run is the fold of `spec_submit` over the records in
/// submission order.
pub open spec fn spec_run(
    m: Map<account::Id, StateView>,
    recs: Seq<TransactionRecord>,
) -> Map<account::Id, StateView>
    decreases recs.len(),
{
    if recs.len() == 0 {
        m
    } else {
        spec_run(spec_submit(m, recs[0]).0, recs.drop_first())
    }
}

/// The engine: every client account's state, reached through an index
/// from client id to its slot.
pub struct Engine {
    index: HashMap<account::Id, usize>,
    states: Vec<State>,
}

impl View for Engine {
    type V = Map<account::Id, StateView>;

    /// The engine's view: the map from each known client id to the view
    /// of its state.
    closed spec fn view(&self) -> Map<account::Id, StateView> {
        Map::new(
            |id: account::Id| self.index@.contains_key(id),
            |id: account::Id| self.states@[self.index@[id] as int]@,
        )
    }
}

impl Engine {
    /// Well-formed: the index and the slots agree — every indexed id maps
    /// to a slot holding that account, every slot is indexed under its
    /// account's id, and every state satisfies its invariants.
    pub closed spec fn wf(self) -> bool {
        &&& forall|id: account::Id| #[trigger]
            self.index@.contains_key(id) ==> self.index@[id] < self.states@.len()
                && self.states@[self.index@[id] as int]@.account.id == id
        &&& forall|i: int|
            0 <= i < self.states@.len() ==> {
                &&& (#[trigger] self.states@[i])@.inv()
                &&& self.index@.contains_key(self.states@[i]@.account.id)
                &&& self.index@[self.states@[i]@.account.id] == i
            }
    }

    /// Creates an engine with no accounts.
    pub fn new() -> (r: Engine)
        ensures
            r.wf(),
            r@ == Map::<account::Id, StateView>::empty(),
    {
        let r = Engine { index: HashMap::new(), states: Vec::new() };
        proof {
            assert(r@ =~= Map::<account::Id, StateView>::empty());
        }
        r
    }

    /// Applies one record to the account it addresses, creating that
    /// account's state first if this is the first record for it. Errors
    /// are reported to the caller; the states of all other accounts are
    /// untouched either way.
    pub fn submit(&mut self, record: TransactionRecord) -> (r: state::Result<()>)
        requires
            old(self).wf(),
        ensures
            final(self).wf(),
            (final(self)@, r) == spec_submit(old(self)@, record),
    {
        let client = record.client;
        let idx: usize = match self.index.get(&client) {
            Some(i) => *i,
            None => {
                let i = self.states.len();
                self.states.push(State::new(client));
                self.index.insert(client, i);
                i
            },
        };
        proof {
            assert(self.wf());
            assert(self.index@.contains_key(client) && self.index@[client] == idx);
            assert(self@ =~= old(self)@.insert(client, entry_or_new(old(self)@, client)));
        }
        let tx = match Transaction::try_from_record(record) {
            Err(e) => {
                return Err(e);
            },
            Ok(tx) => tx,
        };
        let st = &mut self.states[idx];
        let r = tx.apply(st);
        proof {
            assert(self.wf());
            assert(self@ =~= spec_submit(old(self)@, record).0);
        }
        r
    }

    /// Returns the balances of every account ever addressed by a
    /// submitted record — also those whose every transaction failed —
    /// with exactly one entry per account.
    pub fn snapshot(&self) -> (accounts: Vec<Account>)
        requires
            self.wf(),
        ensures
            forall|i: int, j: int|
                0 <= i < j < accounts@.len() ==> accounts@[i]@.id != accounts@[j]@.id,
            forall|i: int|
                0 <= i < accounts@.len() ==> self@.contains_key((#[trigger] accounts@[i])@.id)
                    && accounts@[i]@ == self@[accounts@[i]@.id].account,
            forall|id: account::Id| #[trigger]
                self@.contains_key(id) ==> exists|i: int|
                    0 <= i < accounts@.len() && (#[trigger] accounts@[i])@.id == id,
    {
        let mut accounts: Vec<Account> = Vec::new();
        let n = self.states.len();
        for pos in 0..n
            invariant
                n == self.states@.len(),
                self.wf(),
                accounts@.len() == pos,
                forall|i: int|
                    0 <= i < pos ==> #[trigger] accounts@[i] == self.states@[i].account,
        {
            let entry = &self.states[pos];
            accounts.push(entry.account);
        }
        proof {
            assert forall|id: account::Id| #[trigger]
                self@.contains_key(id) implies exists|i: int|
                0 <= i < accounts@.len() && (#[trigger] accounts@[i])@.id == id by {
                let i = self.index@[id] as int;
                assert(accounts@[i]@.id == id);
            }
        }
        accounts
    }

    /// Submits a whole sequence of records, first to last: afterwards the
    /// engine holds exactly the fold of the records over the initial
    /// state, so within each account the submission order is the applied
    /// order.
    pub fn run_records(&mut self, records: &Vec<TransactionRecord>)
        requires
            old(self).wf(),
        ensures
            final(self).wf(),
            final(self)@ == spec_run(old(self)@, records@),
    {
        let n = records.len();
        for pos in 0..n
            invariant
                n == records@.len(),
                self.wf(),
                self@ == spec_run(old(self)@, records@.take(pos as int)),
        {
            let record = records[pos];
            proof {
                lemma_run_push(old(self)@, records@.take(pos as int), record);
                assert(records@.take(pos as int).push(record) =~= records@.take(pos + 1));
            }
            let _ = self.submit(record);
        }
        proof {
            assert(records@.take(n as int) =~= records@);
        }
    }
}

/// The state the submitted record starts from: the client's existing
/// state, or a fresh one if this client was never seen.
pub open spec fn entry_or_new(m: Map<account::Id, StateView>, id: account::Id) -> StateView {
    if m.contains_key(id) {
        m[id]
    } else {
        StateView::new_state(id)
    }
}

/// Running one more record is submitting it to the state the earlier
/// records produced.
pub proof fn lemma_run_push(
    m: Map<account::Id, StateView>,
    recs: Seq<TransactionRecord>,
    rec: TransactionRecord,
)
    ensures
        spec_run(m, recs.push(rec)) == spec_submit(spec_run(m, recs), rec).0,
    decreases recs.len(),
{
    if recs.len() == 0 {
        assert(recs.push(rec)[0] == rec);
        assert(recs.push(rec).drop_first() =~= Seq::<TransactionRecord>::empty());
        assert(spec_run(m, recs.push(rec)) == spec_run(
            spec_submit(m, rec).0,
            Seq::<TransactionRecord>::empty(),
        ));
        assert(spec_run(spec_submit(m, rec).0, Seq::<TransactionRecord>::empty())
            == spec_submit(m, rec).0);
        assert(spec_run(m, recs) == m);
    } else {
        assert(recs.push(rec)[0] == recs[0]);
        assert(recs.push(rec).drop_first() =~= recs.drop_first().push(rec));
        assert(spec_run(m, recs.push(rec)) == spec_run(
            spec_submit(m, recs[0]).0,
            recs.drop_first().push(rec),
        ));
        lemma_run_push(spec_submit(m, recs[0]).0, recs.drop_first(), rec);
        assert(spec_run(m, recs) == spec_run(spec_submit(m, recs[0]).0, recs.drop_first()));
    }
}

/// Sequential runs compose: running `a` then `b` is running `a + b`.
pub proof fn lemma_run_append(
    m: Map<account::Id, StateView>,
    a: Seq<TransactionRecord>,
    b: Seq<TransactionRecord>,
)
    ensures
        spec_run(m, a + b) == spec_run(spec_run(m, a), b),
    decreases a.len(),
{
    if a.len() == 0 {
        assert(a + b =~= b);
    } else {
        assert((a + b)[0] == a[0]);
        assert((a + b).drop_first() =~= a.drop_first() + b);
        lemma_run_append(spec_submit(m, a[0]).0, a.drop_first(), b);
    }
}

/// Every submitted record registers its client: afterwards the map holds
/// an entry for it, every earlier account is still there, and no other
/// account's state has changed.
pub proof fn lemma_submit_registers_client(m: Map<account::Id, StateView>, rec: TransactionRecord)
    ensures
        spec_submit(m, rec).0.contains_key(rec.client),
        forall|id: account::Id| #[trigger]
            m.contains_key(id) ==> spec_submit(m, rec).0.contains_key(id),
        forall|id: account::Id|
            id != rec.client ==> spec_submit(m, rec).0.contains_key(id) == m.contains_key(id),
        forall|id: account::Id|
            id != rec.client && #[trigger] m.contains_key(id) ==> spec_submit(m, rec).0[id]
                == m[id],
{
}

/// Every account's invariants hold and every state sits under its own
/// account id.
pub open spec fn states_inv(m: Map<account::Id, StateView>) -> bool {
    forall|id: account::Id| #[trigger]
        m.contains_key(id) ==> m[id].inv() && m[id].account.id == id
}

/// One submission keeps every account's invariants: `available + held ==
/// total` and non-negative balances hold at every observable point.
pub proof fn lemma_submit_preserves_inv(m: Map<account::Id, StateView>, rec: TransactionRecord)
    requires
        states_inv(m),
    ensures
        states_inv(spec_submit(m, rec).0),
{
    let s0 = entry_or_new(m, rec.client);
    match spec_try_from(rec) {
        Ok(tx) => {
            state::lemma_apply_preserves_inv(tx, s0);
        },
        Err(_) => {},
    }
}

/// A whole run keeps every account's invariants.
pub proof fn lemma_run_preserves_inv(m: Map<account::Id, StateView>, recs: Seq<TransactionRecord>)
    requires
        states_inv(m),
    ensures
        states_inv(spec_run(m, recs)),
    decreases recs.len(),
{
    if recs.len() > 0 {
        lemma_submit_preserves_inv(m, recs[0]);
        lemma_run_preserves_inv(spec_submit(m, recs[0]).0, recs.drop_first());
    }
}

/// Order insensitivity across accounts: two submissions addressing
/// different accounts can be swapped without changing the resulting map
/// of states, and neither submission's own result changes.
pub proof fn lemma_submit_commutes(
    m: Map<account::Id, StateView>,
    r1: TransactionRecord,
    r2: TransactionRecord,
)
    requires
        r1.client != r2.client,
    ensures
        spec_submit(spec_submit(m, r1).0, r2).0 == spec_submit(spec_submit(m, r2).0, r1).0,
        spec_submit(spec_submit(m, r2).0, r1).1 == spec_submit(m, r1).1,
        spec_submit(spec_submit(m, r1).0, r2).1 == spec_submit(m, r2).1,
{
    assert(spec_submit(spec_submit(m, r1).0, r2).0 =~= spec_submit(spec_submit(m, r2).0, r1).0);
}

} // verus!
