//! The GRANDPA light client: header ingestion, proof verification and
//! upgrades for chains finalized by GRANDPA.
//!
//! Every operation is a pure function of its inputs. This instantiation
//! does not check GRANDPA finality votes — that cryptographic math is a
//! collaborator's concern — but it does enforce the contract every client
//! type owes the protocol: a frozen client rejects everything with
//! `ClientFrozen`, and a header whose claimed height is not strictly
//! greater than the trusted height fails with `HeaderVerificationFailed`.

use vstd::prelude::*;

use crate::errors::Error;
use crate::height::{height_lt, Height};
use crate::ident::{ChannelId, ClientId, ConnectionId, PortId};

verus! {

/// A committed digest of the remote chain's state at one height.
#[derive(Debug, Clone)]
pub struct CommitmentRoot {
    pub bytes: Vec<u8>,
}

/// The path prefix proofs are checked under.
#[derive(Debug, Clone)]
pub struct CommitmentPrefix {
    pub bytes: Vec<u8>,
}

/// Opaque proof bytes; consumed, never constructed, by verification.
#[derive(Debug, Clone)]
pub struct CommitmentProofBytes {
    pub bytes: Vec<u8>,
}

/// An opaque Merkle proof carried by a client upgrade.
#[derive(Debug, Clone)]
pub struct MerkleProof {
    pub bytes: Vec<u8>,
}

/// A packet sequence number.
#[derive(Debug, Clone, Copy, PartialEq, Eq, Structural)]
pub struct Sequence {
    pub value: u64,
}

/// One end of a connection, as the remote chain committed it.
#[derive(Debug, Clone)]
pub struct ConnectionEnd {
    pub bytes: Vec<u8>,
}

/// One end of a channel, as the remote chain committed it.
#[derive(Debug, Clone)]
pub struct ChannelEnd {
    pub bytes: Vec<u8>,
}

/// The untrusted update payload a relayer submits: a claimed height, the
/// state root it carries, and the finality justification for it.
#[derive(Debug, Clone)]
pub struct Header {
    pub height: Height,
    pub state_root: Vec<u8>,
    pub justification: Vec<u8>,
}

/// What the chain trusts about one client: the latest verified height and
/// whether the client was frozen on misbehaviour. Replaced wholesale on
/// each successful update.
#[derive(Debug, Clone, Copy, PartialEq, Eq, Structural)]
pub struct ClientState {
    pub latest_height: Height,
    pub frozen: bool,
}

impl ClientState {
    /// The state after trusting `header`: its height becomes the latest.
    pub fn with_header(&self, header: &Header) -> (r: ClientState)
        ensures
            r == (ClientState { latest_height: header.height, frozen: self.frozen }),
    {
        ClientState { latest_height: header.height, frozen: self.frozen }
    }
}

/// The finality metadata kept for one verified height: the commitment
/// root headers and proofs are checked against. Immutable once stored.
#[derive(Debug, Clone)]
pub struct ConsensusState {
    pub root: CommitmentRoot,
}

/// A byte-for-byte copy of a buffer.
pub(crate) fn copy_bytes(v: &Vec<u8>) -> (r: Vec<u8>)
    ensures
        r@ == v@,
{
    let mut out: Vec<u8> = Vec::new();
    let mut i: usize = 0;
    while i < v.len()
        invariant
            0 <= i <= v@.len(),
            out@ == v@.take(i as int),
        decreases v@.len() - i,
    {
        out.push(v[i]);
        proof {
            assert(v@.take(i as int + 1) =~= v@.take(i as int).push(v@[i as int]));
        }
        i = i + 1;
    }
    assert(v@.take(v@.len() as int) =~= v@);
    out
}

impl ConsensusState {
    /// The consensus state a header induces: its state root becomes the
    /// commitment root.
    pub fn from_header(header: &Header) -> (r: ConsensusState)
        ensures
            r.root.bytes@ == header.state_root@,
    {
        ConsensusState { root: CommitmentRoot { bytes: copy_bytes(&header.state_root) } }
    }

    /// A copy of this consensus state with the same root.
    pub fn duplicate(&self) -> (r: ConsensusState)
        ensures
            r.root.bytes@ == self.root.bytes@,
    {
        ConsensusState { root: CommitmentRoot { bytes: copy_bytes(&self.root.bytes) } }
    }
}

/// An update is accepted exactly when the client is active and the header
/// claims a strictly greater height than the trusted one.
pub open spec fn update_ok(cs: ClientState, h: Header) -> bool {
    !cs.frozen && height_lt(cs.latest_height, h.height)
}

/// The GRANDPA instantiation of the client type interface.
#[derive(Debug, Clone, Copy, PartialEq, Eq, Structural)]
pub struct GrandpaClient;

impl GrandpaClient {
    /// Validates `header` against `client_state` and, on success, returns
    /// the new trusted state with the consensus state the header induces.
    pub fn check_header_and_update_state(
        &self,
        client_state: &ClientState,
        header: &Header,
    ) -> (r: Result<(ClientState, ConsensusState), Error>)
        ensures
            client_state.frozen ==> (r matches Err(e) && e == Error::ClientFrozen),
            !client_state.frozen && !height_lt(client_state.latest_height, header.height) ==> (
            r matches Err(e) && e == Error::HeaderVerificationFailed),
            update_ok(*client_state, *header) ==> (r matches Ok(p) && p.0 == (ClientState {
                latest_height: header.height,
                frozen: false,
            }) && p.1.root.bytes@ == header.state_root@),
    {
        if client_state.frozen {
            return Err(Error::ClientFrozen);
        }
        if !client_state.latest_height.lt(&header.height) {
            return Err(Error::HeaderVerificationFailed);
        }
        Ok((client_state.with_header(header), ConsensusState::from_header(header)))
    }

    /// Checks a proof that the remote chain's view of another client's
    /// consensus state matches the expected one. This instantiation
    /// checks only the frozen status; the proof math is out of scope.
    pub fn verify_client_consensus_state(
        &self,
        client_state: &ClientState,
        height: Height,
        prefix: &CommitmentPrefix,
        proof: &CommitmentProofBytes,
        client_id: &ClientId,
        consensus_height: Height,
        expected_consensus_state: &ConsensusState,
    ) -> (r: Result<(), Error>)
        ensures
            client_state.frozen ==> (r matches Err(e) && e == Error::ClientFrozen),
            !client_state.frozen ==> r is Ok,
    {
        if client_state.frozen {
            return Err(Error::ClientFrozen);
        }
        Ok(())
    }

    /// Checks a proof of a connection end committed on the remote chain.
    pub fn verify_connection_state(
        &self,
        client_state: &ClientState,
        height: Height,
        prefix: &CommitmentPrefix,
        proof: &CommitmentProofBytes,
        connection_id: Option<&ConnectionId>,
        expected_connection_end: &ConnectionEnd,
    ) -> (r: Result<(), Error>)
        ensures
            client_state.frozen ==> (r matches Err(e) && e == Error::ClientFrozen),
            !client_state.frozen ==> r is Ok,
    {
        if client_state.frozen {
            return Err(Error::ClientFrozen);
        }
        Ok(())
    }

    /// Checks a proof of a channel end committed on the remote chain.
    pub fn verify_channel_state(
        &self,
        client_state: &ClientState,
        height: Height,
        prefix: &CommitmentPrefix,
        proof: &CommitmentProofBytes,
        port_id: &PortId,
        channel_id: &ChannelId,
        expected_channel_end: &ChannelEnd,
    ) -> (r: Result<(), Error>)
        ensures
            client_state.frozen ==> (r matches Err(e) && e == Error::ClientFrozen),
            !client_state.frozen ==> r is Ok,
    {
        if client_state.frozen {
            return Err(Error::ClientFrozen);
        }
        Ok(())
    }

    /// Checks a proof of another client's full state on the remote chain.
    pub fn verify_client_full_state(
        &self,
        client_state: &ClientState,
        height: Height,
        root: &CommitmentRoot,
        prefix: &CommitmentPrefix,
        client_id: &ClientId,
        proof: &CommitmentProofBytes,
        expected_client_state: &ClientState,
    ) -> (r: Result<(), Error>)
        ensures
            client_state.frozen ==> (r matches Err(e) && e == Error::ClientFrozen),
            !client_state.frozen ==> r is Ok,
    {
        if client_state.frozen {
            return Err(Error::ClientFrozen);
        }
        Ok(())
    }

    /// Checks a proof that a packet commitment exists at the given path.
    pub fn verify_packet_data(
        &self,
        client_state: &ClientState,
        height: Height,
        proof: &CommitmentProofBytes,
        port_id: &PortId,
        channel_id: &ChannelId,
        seq: &Sequence,
        data: String,
    ) -> (r: Result<(), Error>)
        ensures
            client_state.frozen ==> (r matches Err(e) && e == Error::ClientFrozen),
            !client_state.frozen ==> r is Ok,
    {
        if client_state.frozen {
            return Err(Error::ClientFrozen);
        }
        Ok(())
    }

    /// Checks a proof that a packet acknowledgement exists at the path.
    pub fn verify_packet_acknowledgement(
        &self,
        client_state: &ClientState,
        height: Height,
        proof: &CommitmentProofBytes,
        port_id: &PortId,
        channel_id: &ChannelId,
        seq: &Sequence,
        data: Vec<u8>,
    ) -> (r: Result<(), Error>)
        ensures
            client_state.frozen ==> (r matches Err(e) && e == Error::ClientFrozen),
            !client_state.frozen ==> r is Ok,
    {
        if client_state.frozen {
            return Err(Error::ClientFrozen);
        }
        Ok(())
    }

    /// Checks a proof of the next expected receive sequence number.
    pub fn verify_next_sequence_recv(
        &self,
        client_state: &ClientState,
        height: Height,
        proof: &CommitmentProofBytes,
        port_id: &PortId,
        channel_id: &ChannelId,
        seq: &Sequence,
    ) -> (r: Result<(), Error>)
        ensures
            client_state.frozen ==> (r matches Err(e) && e == Error::ClientFrozen),
            !client_state.frozen ==> r is Ok,
    {
        if client_state.frozen {
            return Err(Error::ClientFrozen);
        }
        Ok(())
    }

    /// Checks a non-membership proof: no packet receipt at the path.
    pub fn verify_packet_receipt_absence(
        &self,
        client_state: &ClientState,
        height: Height,
        proof: &CommitmentProofBytes,
        port_id: &PortId,
        channel_id: &ChannelId,
        seq: &Sequence,
    ) -> (r: Result<(), Error>)
        ensures
            client_state.frozen ==> (r matches Err(e) && e == Error::ClientFrozen),
            !client_state.frozen ==> r is Ok,
    {
        if client_state.frozen {
            return Err(Error::ClientFrozen);
        }
        Ok(())
    }

    /// Verifies a chain-initiated upgrade's proofs and returns the
    /// post-upgrade client and consensus state pair.
    pub fn verify_upgrade_and_update_state(
        &self,
        client_state: &ClientState,
        consensus_state: &ConsensusState,
        proof_upgrade_client: MerkleProof,
        proof_upgrade_consensus_state: MerkleProof,
    ) -> (r: Result<(ClientState, ConsensusState), Error>)
        ensures
            client_state.frozen ==> (r matches Err(e) && e == Error::ClientFrozen),
            !client_state.frozen ==> (r matches Ok(p) && p.0 == *client_state && p.1.root.bytes@
                == consensus_state.root.bytes@),
    {
        if client_state.frozen {
            return Err(Error::ClientFrozen);
        }
        Ok((*client_state, consensus_state.duplicate()))
    }
}

} // verus!
