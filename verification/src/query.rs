//! Deciding a connections query: which backend serves a chain, and what
//! comes out of the endpoint's answer. The endpoint itself — transport,
//! runtime, pagination — is a collaborator outside this library.

use vstd::prelude::*;

use vstd::string::StrSliceExecFns;
use vstd::string::StringExecFns;

use crate::ident::{str_eq, ChainId, ConnectionId};

verus! {

/// The closed set of chain backends a query can dispatch to. An
/// unrecognized backend is a fatal configuration error, not a
/// recoverable one.
#[derive(Debug, Clone, Copy, PartialEq, Eq, Structural)]
pub enum ChainBackend {
    CosmosSdk,
    Substrate,
}

/// A connection listed by a chain endpoint: its identifier and the raw
/// committed connection end.
#[derive(Debug)]
pub struct IdentifiedConnection {
    pub connection_id: ConnectionId,
    pub end_bytes: Vec<u8>,
}

/// Asks a configured chain for the identifiers of its connections.
#[derive(Debug)]
pub struct QueryConnectionsCmd {
    pub chain_id: ChainId,
}

impl QueryConnectionsCmd {
    pub fn new(chain_id: ChainId) -> (r: QueryConnectionsCmd)
        ensures
            r.chain_id@ == chain_id@,
    {
        QueryConnectionsCmd { chain_id }
    }

    /// The message shown when the chain is not in the configuration.
    pub fn not_found_message(&self) -> (r: String)
        ensures
            r@ == "chain '"@ + self.chain_id@ + "' not found in configuration file"@,
    {
        let head = String::from_str("chain '").concat(self.chain_id.as_str());
        let whole = head.concat("' not found in configuration file");
        assert(whole@ =~= "chain '"@ + self.chain_id@ + "' not found in configuration file"@);
        whole
    }
}

/// Decides which backend serves a chain from the account prefix in its
/// configuration; exactly `cosmos` and `substrate` are known.
pub fn classify_backend(account_prefix: &str) -> (r: Option<ChainBackend>)
    ensures
        account_prefix@ == "cosmos"@ ==> r == Some(ChainBackend::CosmosSdk),
        account_prefix@ == "substrate"@ ==> r == Some(ChainBackend::Substrate),
        account_prefix@ != "cosmos"@ && account_prefix@ != "substrate"@ ==> r is None,
{
    proof {
        reveal_strlit("cosmos");
        reveal_strlit("substrate");
        assert("cosmos"@.len() == 6);
        assert("substrate"@.len() == 9);
        assert("cosmos"@ != "substrate"@);
    }
    if str_eq(account_prefix, "cosmos") {
        Some(ChainBackend::CosmosSdk)
    } else if str_eq(account_prefix, "substrate") {
        Some(ChainBackend::Substrate)
    } else {
        None
    }
}

/// The identifiers of the listed connections, in their listed order.
pub fn connection_ids(connections: &Vec<IdentifiedConnection>) -> (r: Vec<ConnectionId>)
    ensures
        r@.len() == connections@.len(),
        forall|i: int| 0 <= i < r@.len() ==> (#[trigger] r@[i])@ == connections@[i].connection_id@,
{
    let mut out: Vec<ConnectionId> = Vec::new();
    let mut i: usize = 0;
    while i < connections.len()
        invariant
            0 <= i <= connections@.len(),
            out@.len() == i,
            forall|j: int|
                0 <= j < i ==> (#[trigger] out@[j])@ == connections@[j].connection_id@,
        decreases connections@.len() - i,
    {
        out.push(connections[i].connection_id.clone());
        i = i + 1;
    }
    out
}

} // verus!
