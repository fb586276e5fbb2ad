//! The client update state machine.
//!
//! A `ClientRecord` holds everything the hosting chain keeps for one
//! client: its identifiers, its trusted state, and the consensus states
//! stored per verified height. The four lifecycle transitions — create,
//! update, misbehaviour, upgrade — each either succeed, replacing state
//! wholesale and emitting exactly one event, or fail, leaving the record
//! untouched.

use vstd::prelude::*;

use crate::errors::Error;
use crate::events::{ClientMisbehaviour, CreateClient, InnerAny, UpdateClient, UpgradeClient};
use crate::grandpa::{update_ok, ClientState, ConsensusState, GrandpaClient, Header, MerkleProof};
use crate::height::{height_lt, Height};
use crate::ident::{ClientId, ClientType};

verus! {

/// Everything the hosting chain keeps for one client.
#[derive(Debug)]
pub struct ClientRecord {
    pub client_id: ClientId,
    pub client_type: ClientType,
    pub client_state: ClientState,
    pub consensus_states: Vec<(Height, ConsensusState)>,
}

impl ClientRecord {
    /// The stored heights of this record's consensus states.
    pub open spec fn stored_heights(self) -> Seq<Height> {
        self.consensus_states@.map_values(|p: (Height, ConsensusState)| p.0)
    }

    /// Well-formedness: consensus states are keyed uniquely, no key lies
    /// beyond the latest trusted height, and the latest height has one.
    pub open spec fn wf(self) -> bool {
        &&& (forall|i: int, j: int|
            0 <= i < j < self.stored_heights().len() ==> self.stored_heights()[i]
                != self.stored_heights()[j])
        &&& (forall|i: int|
            0 <= i < self.stored_heights().len() ==> !height_lt(
                self.client_state.latest_height,
                #[trigger] self.stored_heights()[i],
            ))
        &&& (exists|i: int|
            0 <= i < self.stored_heights().len() && #[trigger] self.stored_heights()[i]
                == self.client_state.latest_height)
    }

    pub fn latest_height(&self) -> (r: Height)
        ensures
            r == self.client_state.latest_height,
    {
        self.client_state.latest_height
    }

    pub fn is_frozen(&self) -> (r: bool)
        ensures
            r == self.client_state.frozen,
    {
        self.client_state.frozen
    }

    /// Creates a client: the one transition out of `Uninitialized`. The
    /// initial state must be active; a frozen initial state is malformed.
    pub fn create(
        client_id: ClientId,
        client_type: ClientType,
        client_state: ClientState,
        consensus_state: ConsensusState,
    ) -> (r: Result<(ClientRecord, CreateClient), Error>)
        ensures
            client_state.frozen ==> (r matches Err(e) && e == Error::MalformedInput),
            !client_state.frozen ==> (r matches Ok(p) && {
                &&& p.0.wf()
                &&& p.0.client_id@ == client_id@
                &&& p.0.client_type@ == client_type@
                &&& p.0.client_state == client_state
                &&& p.1.client_id.client_id@ == client_id@
                &&& p.1.client_type.client_type@ == client_type@
                &&& p.1.consensus_height.consensus_height == client_state.latest_height
            }),
    {
        if client_state.frozen {
            return Err(Error::MalformedInput);
        }
        let event = CreateClient::new(
            client_id.clone(),
            client_type.clone(),
            client_state.latest_height,
        );
        let mut consensus_states: Vec<(Height, ConsensusState)> = Vec::new();
        consensus_states.push((client_state.latest_height, consensus_state));
        let record = ClientRecord { client_id, client_type, client_state, consensus_states };
        proof {
            assert(record.stored_heights() =~= seq![client_state.latest_height]);
            assert(record.stored_heights()[0] == record.client_state.latest_height);
        }
        Ok((record, event))
    }

    /// Updates a client with one header: `Active → Active` at a strictly
    /// greater height. On any failure the record is exactly as it was.
    /// `raw_header` is the submitted payload as it arrived on the wire;
    /// the event carries it for auditors.
    pub fn update(&mut self, header: &Header, raw_header: InnerAny) -> (r: Result<
        UpdateClient,
        Error,
    >)
        requires
            old(self).wf(),
        ensures
            final(self).wf(),
            old(self).client_state.frozen ==> (r matches Err(e) && e == Error::ClientFrozen),
            !old(self).client_state.frozen && !height_lt(
                old(self).client_state.latest_height,
                header.height,
            ) ==> (r matches Err(e) && e == Error::HeaderVerificationFailed),
            r is Err ==> *final(self) == *old(self),
            update_ok(old(self).client_state, *header) ==> (r matches Ok(ev) && {
                &&& final(self).client_state == (ClientState {
                    latest_height: header.height,
                    frozen: false,
                })
                &&& final(self).client_id@ == old(self).client_id@
                &&& final(self).client_type@ == old(self).client_type@
                &&& final(self).consensus_states@.len() == old(self).consensus_states@.len() + 1
                &&& ev.client_id.client_id@ == old(self).client_id@
                &&& ev.client_type.client_type@ == old(self).client_type@
                &&& ev.consensus_height.consensus_height == header.height
                &&& ev.consensus_heights.consensus_heights@ == seq![header.height]
                &&& ev.header.header.type_url@ == raw_header.type_url@
                &&& ev.header.header.value@ == raw_header.value@
            }),
    {
        let verifier = GrandpaClient;
        let (new_state, new_consensus) = match verifier.check_header_and_update_state(
            &self.client_state,
            header,
        ) {
            Ok(p) => p,
            Err(e) => {
                return Err(e);
            },
        };
        let ghost before = self.stored_heights();
        self.consensus_states.push((header.height, new_consensus));
        self.client_state = new_state;
        proof {
            assert(self.stored_heights() =~= before.push(header.height));
            assert(self.stored_heights()[before.len() as int]
                == self.client_state.latest_height);
            assert forall|i: int, j: int|
                0 <= i < j < self.stored_heights().len() implies self.stored_heights()[i]
                != self.stored_heights()[j] by {
                if j == before.len() as int {
                    assert(!height_lt(old(self).client_state.latest_height, before[i]));
                }
            }
        }
        let mut heights: Vec<Height> = Vec::new();
        heights.push(header.height);
        assert(heights@ =~= seq![header.height]);
        Ok(
            UpdateClient::new(
                self.client_id.clone(),
                self.client_type.clone(),
                header.height,
                heights,
                raw_header,
            ),
        )
    }

    /// Freezes a client on evidence of misbehaviour: two distinct headers
    /// for the same height. Anything else is rejected and the record is
    /// exactly as it was.
    pub fn misbehaviour(&mut self, first: &Header, second: &Header) -> (r: Result<
        ClientMisbehaviour,
        Error,
    >)
        requires
            old(self).wf(),
        ensures
            final(self).wf(),
            old(self).client_state.frozen ==> (r matches Err(e) && e == Error::ClientFrozen),
            !old(self).client_state.frozen && !(first.height == second.height
                && first.state_root@ != second.state_root@) ==> (r matches Err(e) && e
                == Error::HeaderVerificationFailed),
            r is Err ==> *final(self) == *old(self),
            !old(self).client_state.frozen && first.height == second.height && first.state_root@
                != second.state_root@ ==> (r matches Ok(ev) && {
                &&& final(self).client_state == (ClientState {
                    latest_height: old(self).client_state.latest_height,
                    frozen: true,
                })
                &&& final(self).client_id@ == old(self).client_id@
                &&& final(self).client_type@ == old(self).client_type@
                &&& final(self).consensus_states@ == old(self).consensus_states@
                &&& ev.client_id.client_id@ == old(self).client_id@
                &&& ev.client_type.client_type@ == old(self).client_type@
            }),
    {
        if self.client_state.frozen {
            return Err(Error::ClientFrozen);
        }
        let same_height = first.height.revision_number() == second.height.revision_number()
            && first.height.revision_height() == second.height.revision_height();
        let conflicting = !bytes_eq(&first.state_root, &second.state_root);
        if !(same_height && conflicting) {
            return Err(Error::HeaderVerificationFailed);
        }
        self.client_state = ClientState {
            latest_height: self.client_state.latest_height,
            frozen: true,
        };
        proof {
            assert(self.stored_heights() =~= old(self).stored_heights());
        }
        Ok(ClientMisbehaviour::new(self.client_id.clone(), self.client_type.clone()))
    }

    /// Upgrades a client after a chain-initiated breaking change, once
    /// the upgrade proofs verify: `Active → Active` with new parameters
    /// at a strictly greater height.
    pub fn upgrade(
        &mut self,
        new_state: &ClientState,
        new_consensus: &ConsensusState,
        proof_upgrade_client: MerkleProof,
        proof_upgrade_consensus_state: MerkleProof,
    ) -> (r: Result<UpgradeClient, Error>)
        requires
            old(self).wf(),
        ensures
            final(self).wf(),
            old(self).client_state.frozen ==> (r matches Err(e) && e == Error::ClientFrozen),
            !old(self).client_state.frozen && (new_state.frozen || !height_lt(
                old(self).client_state.latest_height,
                new_state.latest_height,
            )) ==> (r matches Err(e) && e == Error::HeaderVerificationFailed),
            r is Err ==> *final(self) == *old(self),
            !old(self).client_state.frozen && !new_state.frozen && height_lt(
                old(self).client_state.latest_height,
                new_state.latest_height,
            ) ==> (r matches Ok(ev) && {
                &&& final(self).client_state == *new_state
                &&& final(self).client_id@ == old(self).client_id@
                &&& final(self).client_type@ == old(self).client_type@
                &&& ev.client_id.client_id@ == old(self).client_id@
                &&& ev.client_type.client_type@ == old(self).client_type@
                &&& ev.consensus_height.consensus_height == new_state.latest_height
            }),
    {
        if self.client_state.frozen {
            return Err(Error::ClientFrozen);
        }
        if new_state.frozen || !self.client_state.latest_height.lt(&new_state.latest_height) {
            return Err(Error::HeaderVerificationFailed);
        }
        let verifier = GrandpaClient;
        let (upgraded, _checked) = match verifier.verify_upgrade_and_update_state(
            new_state,
            new_consensus,
            proof_upgrade_client,
            proof_upgrade_consensus_state,
        ) {
            Ok(p) => p,
            Err(e) => {
                return Err(e);
            },
        };
        let ghost before = self.stored_heights();
        self.consensus_states.push((upgraded.latest_height, new_consensus.duplicate()));
        self.client_state = upgraded;
        proof {
            assert(self.stored_heights() =~= before.push(upgraded.latest_height));
            assert(self.stored_heights()[before.len() as int]
                == self.client_state.latest_height);
            assert forall|i: int, j: int|
                0 <= i < j < self.stored_heights().len() implies self.stored_heights()[i]
                != self.stored_heights()[j] by {
                if j == before.len() as int {
                    assert(!height_lt(old(self).client_state.latest_height, before[i]));
                }
            }
        }
        Ok(
            UpgradeClient::new(
                self.client_id.clone(),
                self.client_type.clone(),
                upgraded.latest_height,
            ),
        )
    }
}

/// Byte-for-byte comparison of two buffers.
fn bytes_eq(a: &Vec<u8>, b: &Vec<u8>) -> (r: bool)
    ensures
        r == (a@ == b@),
{
    if a.len() != b.len() {
        assert(a@ != b@);
        return false;
    }
    let mut i: usize = 0;
    while i < a.len()
        invariant
            a@.len() == b@.len(),
            0 <= i <= a@.len(),
            forall|j: int| 0 <= j < i ==> a@[j] == b@[j],
        decreases a@.len() - i,
    {
        if a[i] != b[i] {
            return false;
        }
        i = i + 1;
    }
    assert(a@ =~= b@);
    true
}

// ---------------------------------------------------------------------------
// Laws of the state machine
// ---------------------------------------------------------------------------

/// The trusted state after accepting `h`.
pub open spec fn advance(cs: ClientState, h: Header) -> ClientState {
    ClientState { latest_height: h.height, frozen: cs.frozen }
}

/// The trusted state after a whole run of headers, or nothing as soon as
/// one of them is rejected.
pub open spec fn run_updates(cs: ClientState, hs: Seq<Header>) -> Option<ClientState>
    decreases hs.len(),
{
    if hs.len() == 0 {
        Some(cs)
    } else if update_ok(cs, hs[0]) {
        run_updates(advance(cs, hs[0]), hs.drop_first())
    } else {
        None
    }
}

/// Monotonicity: across any run of accepted updates, the trusted height
/// strictly increases.
pub proof fn lemma_update_monotonic(cs: ClientState, hs: Seq<Header>)
    requires
        run_updates(cs, hs) is Some,
        hs.len() > 0,
    ensures
        height_lt(cs.latest_height, run_updates(cs, hs)->Some_0.latest_height),
    decreases hs.len(),
{
    if hs.len() == 1 {
    } else {
        lemma_update_monotonic(advance(cs, hs[0]), hs.drop_first());
    }
}

/// Freeze exclusivity: a frozen client accepts no update, so no run of
/// one or more updates on it succeeds.
pub proof fn lemma_frozen_rejects_updates(cs: ClientState, hs: Seq<Header>)
    requires
        cs.frozen,
        hs.len() > 0,
    ensures
        run_updates(cs, hs) is None,
{
}

} // verus!
