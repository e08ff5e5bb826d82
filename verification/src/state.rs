//! The account book: every client's ledger, and the routing of records.
//!
//! `Clients` is the registry mapping client id to ledger. It is a
//! `hashbrown::HashMap` held behind trusted wrappers, like the stores of
//! `crate::store`. `route` applies one record to the owning ledger, creating
//! it on first sight of the client; `report_rows` reads the registry out as
//! summary rows.

use vstd::prelude::*;

use crate::client::{Client, LedgerView, row_matches, step, step_result};
use crate::error::TxError;
use crate::transaction::TransactionData;

verus! {

/// The registry of all client ledgers, keyed by client id. Holds a
/// `hashbrown::HashMap<u16, Client>`.
#[verifier::external_body]
#[derive(Debug)]
pub struct Clients {
    ledgers: hashbrown::HashMap<u16, Client>,
}

/// What the registry holds: each known client id mapped to its ledger.
pub uninterp spec fn clients_map(c: Clients) -> Map<u16, Client>;

/// The contents of a registry with no clients.
pub open spec fn no_clients() -> Map<u16, Client> {
    Map::empty()
}

impl Clients {
    /// Relies on `hashbrown::HashMap::new`: the new map is empty.
    #[verifier::external_body]
    pub(crate) fn new() -> (r: Clients)
        ensures
            clients_map(r) == no_clients(),
    {
        Clients { ledgers: hashbrown::HashMap::new() }
    }

    /// Relies on `hashbrown::HashMap::remove`: takes the ledger of the given
    /// client out of the registry and returns it, or returns nothing when
    /// the client is unknown.
    #[verifier::external_body]
    pub(crate) fn take(&mut self, client_id: u16) -> (r: Option<Client>)
        ensures
            clients_map(*final(self)) == clients_map(*old(self)).remove(client_id),
            r == (if clients_map(*old(self)).contains_key(client_id) {
                Some(clients_map(*old(self))[client_id])
            } else {
                None::<Client>
            }),
    {
        self.ledgers.remove(&client_id)
    }

    /// Relies on `hashbrown::HashMap::insert`: the ledger is stored under the
    /// id, replacing any earlier one.
    #[verifier::external_body]
    pub(crate) fn insert(&mut self, client_id: u16, client: Client)
        ensures
            clients_map(*final(self)) == clients_map(*old(self)).insert(client_id, client),
    {
        self.ledgers.insert(client_id, client);
    }

    /// Relies on `hashbrown::HashMap::keys`: every known client id, each
    /// once, in no promised order (the iteration order of a hash map is not
    /// a function of its contents).
    #[verifier::external_body]
    pub(crate) fn ids(&self) -> (r: Vec<u16>)
        ensures
            r@.no_duplicates(),
            forall|id: u16| #[trigger] r@.contains(id) <==> clients_map(*self).contains_key(id),
    {
        self.ledgers.keys().copied().collect()
    }

    /// Relies on `hashbrown::HashMap::get`: the ledger recorded under the
    /// id, or nothing when the client is unknown.
    #[verifier::external_body]
    pub(crate) fn get(&self, client_id: u16) -> (r: Option<&Client>)
        ensures
            r == (if clients_map(*self).contains_key(client_id) {
                Some(&clients_map(*self)[client_id])
            } else {
                None::<&Client>
            }),
    {
        self.ledgers.get(&client_id)
    }
}

/// Every ledger of the registry is well formed.
pub open spec fn clients_wf(m: Map<u16, Client>) -> bool {
    forall|id: u16| m.contains_key(id) ==> (#[trigger] m[id])@.wf()
}

/// The run's state: where the records come from, and the account book they
/// are folded into.
#[derive(Debug)]
pub struct State {
    /// The name of the input the records are read from.
    pub filename: String,
    /// The account book.
    pub clients: Clients,
}

impl State {
    /// A fresh state: the given input name and an empty account book.
    pub fn new(filename: String) -> (s: State)
        ensures
            s.filename == filename,
            clients_map(s.clients) == no_clients(),
    {
        State { filename, clients: Clients::new() }
    }

    /// The name of the input.
    pub fn filename(&self) -> (r: &str)
        ensures
            r@ == self.filename@,
    {
        self.filename.as_str()
    }
}

/// Applies one record to the ledger of its client, creating the ledger on
/// first sight of the client. The ledger moves by exactly one `step`; every
/// other ledger is untouched; the result is exactly `step_result` of the
/// owning ledger — the rejection of the record, if any, even on the record
/// that creates its ledger.
pub fn route(clients: &mut Clients, client_id: u16, tx_id: u32, data: TransactionData) -> (r:
    Result<(), TxError>)
    requires
        clients_wf(clients_map(*old(clients))),
    ensures
        ({
            let pre = clients_map(*old(clients));
            let prev = if pre.contains_key(client_id) {
                pre[client_id]@
            } else {
                LedgerView::initial()
            };
            &&& clients_map(*final(clients)).contains_key(client_id)
            &&& clients_map(*final(clients))[client_id]@ == step(prev, tx_id, data)
            &&& clients_map(*final(clients)).dom() == pre.dom().insert(client_id)
            &&& forall|id: u16|
                id != client_id && pre.contains_key(id) ==> clients_map(*final(clients))[id]
                    == #[trigger] pre[id]
            &&& r == step_result(prev, tx_id, data)
        }),
        clients_wf(clients_map(*final(clients))),
{
    let mut ledger = match clients.take(client_id) {
        Some(ledger) => ledger,
        None => Client::default(),
    };
    let r = ledger.process_tx(tx_id, data);
    clients.insert(client_id, ledger);
    proof {
        assert(clients_map(*clients).dom() =~= clients_map(*old(clients)).dom().insert(
            client_id,
        ));
    }
    r
}

/// The row renders the ledger of some client known to the account book.
pub open spec fn row_of_some_client(row: Seq<String>, m: Map<u16, Client>) -> bool {
    exists|id: u16| #[trigger] m.contains_key(id) && row_matches(row, m[id]@, id)
}

/// The id sequence pairs the rows with the account book, one to one: it is
/// duplicate-free, as long as the rows, each row renders the ledger of its
/// id, and every known client's id is in it.
pub open spec fn rows_match_ids(rows: Seq<Vec<String>>, ids: Seq<u16>, m: Map<u16, Client>) -> bool {
    &&& ids.no_duplicates()
    &&& ids.len() == rows.len()
    &&& forall|i: int|
        0 <= i < rows.len() ==> m.contains_key(#[trigger] ids[i]) && row_matches(
            rows[i]@,
            m[ids[i]]@,
            ids[i],
        )
    &&& forall|id: u16| #[trigger] m.contains_key(id) ==> ids.contains(id)
}

/// The rows are exactly one summary row for each client of the account book,
/// in some order.
pub open spec fn rows_report(rows: Seq<Vec<String>>, m: Map<u16, Client>) -> bool {
    exists|ids: Seq<u16>| #[trigger] rows_match_ids(rows, ids, m)
}

/// Reads the account book out as summary rows, exactly one per known client,
/// in no promised order: some duplicate-free id sequence pairs each row with
/// the ledger it renders and covers every known client, so no ledger is
/// skipped and none is reported twice.
pub fn report_rows(clients: &Clients) -> (rows: Vec<Vec<String>>)
    requires
        clients_wf(clients_map(*clients)),
    ensures
        rows_report(rows@, clients_map(*clients)),
        forall|i: int|
            0 <= i < rows@.len() ==> row_of_some_client(#[trigger] rows@[i]@, clients_map(*clients)),
        forall|id: u16|
            clients_map(*clients).contains_key(id) ==> exists|i: int|
                0 <= i < rows@.len() && row_matches(
                    #[trigger] rows@[i]@,
                    clients_map(*clients)[id]@,
                    id,
                ),
{
    let ids = clients.ids();
    let mut rows: Vec<Vec<String>> = Vec::new();
    let mut k: usize = 0;
    while k < ids.len()
        invariant
            clients_wf(clients_map(*clients)),
            ids@.no_duplicates(),
            forall|id: u16| #[trigger] ids@.contains(id) <==> clients_map(*clients).contains_key(
                id,
            ),
            rows@.len() == k,
            k <= ids@.len(),
            forall|j: int|
                0 <= j < k ==> clients_map(*clients).contains_key(#[trigger] ids@[j])
                    && row_matches(rows@[j]@, clients_map(*clients)[ids@[j]]@, ids@[j]),
        decreases ids@.len() - k,
    {
        let id = ids[k];
        proof {
            assert(ids@.contains(ids@[k as int]));
        }
        match clients.get(id) {
            Some(ledger) => {
                rows.push(ledger.get_record(id));
            },
            None => {
                proof {
                    assert(false);
                }
            },
        }
        k = k + 1;
    }
    proof {
        assert(rows_match_ids(rows@, ids@, clients_map(*clients)));
        assert forall|id: u16| clients_map(*clients).contains_key(id) implies exists|i: int|
            0 <= i < rows@.len() && row_matches(#[trigger] rows@[i]@, clients_map(*clients)[id]@, id) by {
            let j = ids@.index_of(id);
            assert(ids@.contains(id));
            assert(0 <= j < ids@.len() && ids@[j] == id);
            assert(row_matches(rows@[j]@, clients_map(*clients)[id]@, id));
        }
        assert forall|i: int| 0 <= i < rows@.len() implies row_of_some_client(
            #[trigger] rows@[i]@,
            clients_map(*clients),
        ) by {
            let id = ids@[i];
            assert(ids@.contains(id));
            assert(clients_map(*clients).contains_key(id) && row_matches(
                rows@[i]@,
                clients_map(*clients)[id]@,
                id,
            ));
        }
    }
    rows
}

} // verus!
