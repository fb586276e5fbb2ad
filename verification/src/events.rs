//! Structured events for client lifecycle transitions.
//!
//! Each transition of the update state machine emits exactly one event.
//! An event owns copies of its attribute values, and every attribute can
//! be written independently as a tagged key/value pair for chain logs, as
//! canonical binary for off-chain storage, and — for binary payloads — as
//! lowercase hex text.

use vstd::prelude::*;

use vstd::string::StrSliceExecFns;
use vstd::string::StringExecFns;

use crate::height::Height;
use crate::hexcode::{bytes_of_hex, hex_of_bytes, hex_seq, hex_val, valid_hex};
use crate::ident::{is_id_char, str_eq, valid_identifier, ClientId, ClientType};
use crate::text::{
    height_text, height_to_text, heights_text, heights_to_text, parse_height, parse_height_text,
    parse_heights, parse_heights_text,
};

verus! {

/// The `key` of the attribute carrying the client identifier.
pub const CLIENT_ID_ATTRIBUTE_KEY: &'static str = "client_id";

/// The `key` of the attribute carrying the client type.
pub const CLIENT_TYPE_ATTRIBUTE_KEY: &'static str = "client_type";

/// The `key` of the attribute carrying the single consensus height.
pub const CONSENSUS_HEIGHT_ATTRIBUTE_KEY: &'static str = "consensus_height";

/// The `key` of the attribute carrying the comma-joined consensus heights.
pub const CONSENSUS_HEIGHTS_ATTRIBUTE_KEY: &'static str = "consensus_heights";

/// The `key` of the attribute carrying the hex text of the header payload.
pub const HEADER_ATTRIBUTE_KEY: &'static str = "header";

/// One tagged key/value pair of an on-chain event log.
#[derive(Debug, Clone)]
pub struct EventAttribute {
    pub key: String,
    pub value: String,
}

/// An event as it appears in a chain's log: a kind tag and its attributes.
#[derive(Debug, Clone)]
pub struct IbcEvent {
    pub kind: String,
    pub attributes: Vec<EventAttribute>,
}

/// `a` is the tagged pair `key=value`.
pub open spec fn attr_is(a: EventAttribute, key: Seq<char>, value: Seq<char>) -> bool {
    a.key@ == key && a.value@ == value
}

/// An opaque protobuf-style payload: a type URL and raw bytes. Carried by
/// update events so an auditor can recover the submitted header.
#[derive(Debug, Clone)]
pub struct InnerAny {
    pub type_url: String,
    pub value: Vec<u8>,
}

/// The attribute holding a client identifier.
#[derive(Debug, Clone)]
pub struct ClientIdAttribute {
    pub client_id: ClientId,
}

impl ClientIdAttribute {
    pub fn new(client_id: ClientId) -> (r: ClientIdAttribute)
        ensures
            r.client_id@ == client_id@,
    {
        ClientIdAttribute { client_id }
    }

    /// The tagged key/value form: `client_id = <identifier>`.
    pub fn tagged(&self) -> (r: EventAttribute)
        ensures
            attr_is(r, "client_id"@, self.client_id@),
    {
        EventAttribute {
            key: String::from_str(CLIENT_ID_ATTRIBUTE_KEY),
            value: String::from_str(self.client_id.as_str()),
        }
    }

    /// Reads the tagged form back; accepts exactly the pairs the writer
    /// produces for a well-formed identifier.
    pub fn from_tagged(a: &EventAttribute) -> (r: Option<ClientIdAttribute>)
        ensures
            a.key@ == "client_id"@ && valid_identifier(a.value@) ==> (r matches Some(x)
                && x.client_id@ == a.value@),
            !(a.key@ == "client_id"@ && valid_identifier(a.value@)) ==> r is None,
    {
        if !str_eq(a.key.as_str(), CLIENT_ID_ATTRIBUTE_KEY) {
            return None;
        }
        match ClientId::new(String::from_str(a.value.as_str())) {
            Ok(id) => Some(ClientIdAttribute { client_id: id }),
            Err(_) => None,
        }
    }
}

/// The attribute holding a client type tag.
#[derive(Debug, Clone)]
pub struct ClientTypeAttribute {
    pub client_type: ClientType,
}

impl ClientTypeAttribute {
    pub fn new(client_type: ClientType) -> (r: ClientTypeAttribute)
        ensures
            r.client_type@ == client_type@,
    {
        ClientTypeAttribute { client_type }
    }

    /// The tagged key/value form: `client_type = <identifier>`.
    pub fn tagged(&self) -> (r: EventAttribute)
        ensures
            attr_is(r, "client_type"@, self.client_type@),
    {
        EventAttribute {
            key: String::from_str(CLIENT_TYPE_ATTRIBUTE_KEY),
            value: String::from_str(self.client_type.as_str()),
        }
    }

    /// Reads the tagged form back; accepts exactly the pairs the writer
    /// produces for a well-formed identifier.
    pub fn from_tagged(a: &EventAttribute) -> (r: Option<ClientTypeAttribute>)
        ensures
            a.key@ == "client_type"@ && valid_identifier(a.value@) ==> (r matches Some(x)
                && x.client_type@ == a.value@),
            !(a.key@ == "client_type"@ && valid_identifier(a.value@)) ==> r is None,
    {
        if !str_eq(a.key.as_str(), CLIENT_TYPE_ATTRIBUTE_KEY) {
            return None;
        }
        match ClientType::new(String::from_str(a.value.as_str())) {
            Ok(t) => Some(ClientTypeAttribute { client_type: t }),
            Err(_) => None,
        }
    }
}

/// The attribute holding one consensus height.
#[derive(Debug, Clone, Copy, PartialEq, Eq, Structural)]
pub struct ConsensusHeightAttribute {
    pub consensus_height: Height,
}

impl ConsensusHeightAttribute {
    pub fn new(consensus_height: Height) -> (r: ConsensusHeightAttribute)
        ensures
            r.consensus_height == consensus_height,
    {
        ConsensusHeightAttribute { consensus_height }
    }

    /// The tagged key/value form: `consensus_height = "r-h"`.
    pub fn tagged(&self) -> (r: EventAttribute)
        ensures
            attr_is(r, "consensus_height"@, height_text(self.consensus_height)),
    {
        EventAttribute {
            key: String::from_str(CONSENSUS_HEIGHT_ATTRIBUTE_KEY),
            value: height_to_text(&self.consensus_height),
        }
    }

    /// Reads the tagged form back; accepts exactly the key together with a
    /// parseable height text.
    pub fn from_tagged(a: &EventAttribute) -> (r: Option<ConsensusHeightAttribute>)
        ensures
            a.key@ == "consensus_height"@ ==> r == match parse_height_text(a.value@) {
                Some(h) => Some(ConsensusHeightAttribute { consensus_height: h }),
                None => None::<ConsensusHeightAttribute>,
            },
            a.key@ != "consensus_height"@ ==> r is None,
    {
        if !str_eq(a.key.as_str(), CONSENSUS_HEIGHT_ATTRIBUTE_KEY) {
            return None;
        }
        match parse_height(a.value.as_str()) {
            Some(h) => Some(ConsensusHeightAttribute { consensus_height: h }),
            None => None,
        }
    }
}

/// The attribute holding every consensus height an update installed.
#[derive(Debug, Clone)]
pub struct ConsensusHeightsAttribute {
    pub consensus_heights: Vec<Height>,
}

impl ConsensusHeightsAttribute {
    pub fn new(consensus_heights: Vec<Height>) -> (r: ConsensusHeightsAttribute)
        ensures
            r.consensus_heights@ == consensus_heights@,
    {
        ConsensusHeightsAttribute { consensus_heights }
    }

    /// The tagged key/value form: `consensus_heights = "r-h,r-h,..."`.
    pub fn tagged(&self) -> (r: EventAttribute)
        ensures
            attr_is(r, "consensus_heights"@, heights_text(self.consensus_heights@)),
    {
        EventAttribute {
            key: String::from_str(CONSENSUS_HEIGHTS_ATTRIBUTE_KEY),
            value: heights_to_text(&self.consensus_heights),
        }
    }

    /// Reads the tagged form back; accepts exactly the key together with a
    /// parseable list of heights.
    pub fn from_tagged(a: &EventAttribute) -> (r: Option<ConsensusHeightsAttribute>)
        ensures
            a.key@ == "consensus_heights"@ ==> match r {
                Some(x) => parse_heights_text(a.value@) == Some(x.consensus_heights@),
                None => parse_heights_text(a.value@) is None,
            },
            a.key@ != "consensus_heights"@ ==> r is None,
    {
        if !str_eq(a.key.as_str(), CONSENSUS_HEIGHTS_ATTRIBUTE_KEY) {
            return None;
        }
        match parse_heights(a.value.as_str()) {
            Some(v) => Some(ConsensusHeightsAttribute { consensus_heights: v }),
            None => None,
        }
    }
}

/// The attribute holding the raw header payload an update carried.
#[derive(Debug, Clone)]
pub struct HeaderAttribute {
    pub header: InnerAny,
}

impl HeaderAttribute {
    pub fn new(header: InnerAny) -> (r: HeaderAttribute)
        ensures
            r.header.type_url@ == header.type_url@,
            r.header.value@ == header.value@,
    {
        HeaderAttribute { header }
    }

    /// The tagged key/value form: `header = <hex of the payload bytes>`.
    /// As on chain, only the payload bytes are logged, not the type URL.
    pub fn tagged(&self) -> (r: EventAttribute)
        ensures
            attr_is(r, "header"@, hex_seq(self.header.value@)),
    {
        EventAttribute {
            key: String::from_str(HEADER_ATTRIBUTE_KEY),
            value: hex_of_bytes(self.header.value.as_slice()),
        }
    }

    /// Reads the payload bytes back from the tagged form; accepts exactly
    /// the key together with well-formed hex text.
    pub fn bytes_from_tagged(a: &EventAttribute) -> (r: Option<Vec<u8>>)
        ensures
            a.key@ == "header"@ && valid_hex(a.value@) ==> (r matches Some(v) && v@ == hex_val(
                a.value@,
            )),
            !(a.key@ == "header"@ && valid_hex(a.value@)) ==> r is None,
    {
        if !str_eq(a.key.as_str(), HEADER_ATTRIBUTE_KEY) {
            return None;
        }
        bytes_of_hex(a.value.as_str())
    }
}

} // verus!

// ---------------------------------------------------------------------------
// The four lifecycle events
// ---------------------------------------------------------------------------

verus! {

/// Signals the creation of a new on-chain client.
#[derive(Debug, Clone)]
pub struct CreateClient {
    pub client_id: ClientIdAttribute,
    pub client_type: ClientTypeAttribute,
    pub consensus_height: ConsensusHeightAttribute,
}

impl CreateClient {
    pub fn new(client_id: ClientId, client_type: ClientType, consensus_height: Height) -> (r:
        CreateClient)
        ensures
            r.client_id.client_id@ == client_id@,
            r.client_type.client_type@ == client_type@,
            r.consensus_height.consensus_height == consensus_height,
    {
        CreateClient {
            client_id: ClientIdAttribute::new(client_id),
            client_type: ClientTypeAttribute::new(client_type),
            consensus_height: ConsensusHeightAttribute::new(consensus_height),
        }
    }

    pub fn client_id(&self) -> (r: &ClientId)
        ensures
            r@ == self.client_id.client_id@,
    {
        &self.client_id.client_id
    }

    pub fn client_type(&self) -> (r: &ClientType)
        ensures
            r@ == self.client_type.client_type@,
    {
        &self.client_type.client_type
    }

    pub fn consensus_height(&self) -> (r: &Height)
        ensures
            *r == self.consensus_height.consensus_height,
    {
        &self.consensus_height.consensus_height
    }

    /// The tagged form: kind `create_client` and exactly the attributes
    /// `client_id`, `client_type`, `consensus_height`, in that order.
    pub fn tagged_event(&self) -> (r: IbcEvent)
        ensures
            r.kind@ == "create_client"@,
            r.attributes@.len() == 3,
            attr_is(r.attributes@[0], "client_id"@, self.client_id.client_id@),
            attr_is(r.attributes@[1], "client_type"@, self.client_type.client_type@),
            attr_is(
                r.attributes@[2],
                "consensus_height"@,
                height_text(self.consensus_height.consensus_height),
            ),
    {
        let mut attributes: Vec<EventAttribute> = Vec::new();
        attributes.push(self.client_id.tagged());
        attributes.push(self.client_type.tagged());
        attributes.push(self.consensus_height.tagged());
        IbcEvent { kind: String::from_str("create_client"), attributes }
    }
}

/// Signals a successful update of an on-chain client.
#[derive(Debug, Clone)]
pub struct UpdateClient {
    pub client_id: ClientIdAttribute,
    pub client_type: ClientTypeAttribute,
    // Kept beside `consensus_heights` so older consumers of the log keep
    // seeing the single height they expect.
    pub consensus_height: ConsensusHeightAttribute,
    pub consensus_heights: ConsensusHeightsAttribute,
    pub header: HeaderAttribute,
}

impl UpdateClient {
    pub fn new(
        client_id: ClientId,
        client_type: ClientType,
        consensus_height: Height,
        consensus_heights: Vec<Height>,
        header: InnerAny,
    ) -> (r: UpdateClient)
        ensures
            r.client_id.client_id@ == client_id@,
            r.client_type.client_type@ == client_type@,
            r.consensus_height.consensus_height == consensus_height,
            r.consensus_heights.consensus_heights@ == consensus_heights@,
            r.header.header.type_url@ == header.type_url@,
            r.header.header.value@ == header.value@,
    {
        UpdateClient {
            client_id: ClientIdAttribute::new(client_id),
            client_type: ClientTypeAttribute::new(client_type),
            consensus_height: ConsensusHeightAttribute::new(consensus_height),
            consensus_heights: ConsensusHeightsAttribute::new(consensus_heights),
            header: HeaderAttribute::new(header),
        }
    }

    pub fn client_id(&self) -> (r: &ClientId)
        ensures
            r@ == self.client_id.client_id@,
    {
        &self.client_id.client_id
    }

    pub fn client_type(&self) -> (r: &ClientType)
        ensures
            r@ == self.client_type.client_type@,
    {
        &self.client_type.client_type
    }

    pub fn consensus_height(&self) -> (r: &Height)
        ensures
            *r == self.consensus_height.consensus_height,
    {
        &self.consensus_height.consensus_height
    }

    pub fn consensus_heights(&self) -> (r: &Vec<Height>)
        ensures
            r@ == self.consensus_heights.consensus_heights@,
    {
        &self.consensus_heights.consensus_heights
    }

    pub fn header(&self) -> (r: &InnerAny)
        ensures
            r.type_url@ == self.header.header.type_url@,
            r.value@ == self.header.header.value@,
    {
        &self.header.header
    }

    /// The tagged form: kind `update_client` and exactly the attributes
    /// `client_id`, `client_type`, `consensus_height`,
    /// `consensus_heights`, `header`, in that order.
    pub fn tagged_event(&self) -> (r: IbcEvent)
        ensures
            r.kind@ == "update_client"@,
            r.attributes@.len() == 5,
            attr_is(r.attributes@[0], "client_id"@, self.client_id.client_id@),
            attr_is(r.attributes@[1], "client_type"@, self.client_type.client_type@),
            attr_is(
                r.attributes@[2],
                "consensus_height"@,
                height_text(self.consensus_height.consensus_height),
            ),
            attr_is(
                r.attributes@[3],
                "consensus_heights"@,
                heights_text(self.consensus_heights.consensus_heights@),
            ),
            attr_is(r.attributes@[4], "header"@, hex_seq(self.header.header.value@)),
    {
        let mut attributes: Vec<EventAttribute> = Vec::new();
        attributes.push(self.client_id.tagged());
        attributes.push(self.client_type.tagged());
        attributes.push(self.consensus_height.tagged());
        attributes.push(self.consensus_heights.tagged());
        attributes.push(self.header.tagged());
        IbcEvent { kind: String::from_str("update_client"), attributes }
    }
}

/// Signals that an on-chain client was frozen on evidence of misbehaviour.
#[derive(Debug, Clone)]
pub struct ClientMisbehaviour {
    pub client_id: ClientIdAttribute,
    pub client_type: ClientTypeAttribute,
}

impl ClientMisbehaviour {
    pub fn new(client_id: ClientId, client_type: ClientType) -> (r: ClientMisbehaviour)
        ensures
            r.client_id.client_id@ == client_id@,
            r.client_type.client_type@ == client_type@,
    {
        ClientMisbehaviour {
            client_id: ClientIdAttribute::new(client_id),
            client_type: ClientTypeAttribute::new(client_type),
        }
    }

    pub fn client_id(&self) -> (r: &ClientId)
        ensures
            r@ == self.client_id.client_id@,
    {
        &self.client_id.client_id
    }

    pub fn client_type(&self) -> (r: &ClientType)
        ensures
            r@ == self.client_type.client_type@,
    {
        &self.client_type.client_type
    }

    /// The tagged form: kind `client_misbehaviour` and exactly the
    /// attributes `client_id`, `client_type`, in that order.
    pub fn tagged_event(&self) -> (r: IbcEvent)
        ensures
            r.kind@ == "client_misbehaviour"@,
            r.attributes@.len() == 2,
            attr_is(r.attributes@[0], "client_id"@, self.client_id.client_id@),
            attr_is(r.attributes@[1], "client_type"@, self.client_type.client_type@),
    {
        let mut attributes: Vec<EventAttribute> = Vec::new();
        attributes.push(self.client_id.tagged());
        attributes.push(self.client_type.tagged());
        IbcEvent { kind: String::from_str("client_misbehaviour"), attributes }
    }
}

/// Signals a chain-initiated upgrade of an on-chain client.
#[derive(Debug, Clone)]
pub struct UpgradeClient {
    pub client_id: ClientIdAttribute,
    pub client_type: ClientTypeAttribute,
    pub consensus_height: ConsensusHeightAttribute,
}

impl UpgradeClient {
    pub fn new(client_id: ClientId, client_type: ClientType, consensus_height: Height) -> (r:
        UpgradeClient)
        ensures
            r.client_id.client_id@ == client_id@,
            r.client_type.client_type@ == client_type@,
            r.consensus_height.consensus_height == consensus_height,
    {
        UpgradeClient {
            client_id: ClientIdAttribute::new(client_id),
            client_type: ClientTypeAttribute::new(client_type),
            consensus_height: ConsensusHeightAttribute::new(consensus_height),
        }
    }

    pub fn client_id(&self) -> (r: &ClientId)
        ensures
            r@ == self.client_id.client_id@,
    {
        &self.client_id.client_id
    }

    pub fn client_type(&self) -> (r: &ClientType)
        ensures
            r@ == self.client_type.client_type@,
    {
        &self.client_type.client_type
    }

    pub fn consensus_height(&self) -> (r: &Height)
        ensures
            *r == self.consensus_height.consensus_height,
    {
        &self.consensus_height.consensus_height
    }

    /// The tagged form: kind `upgrade_client` and exactly the attributes
    /// `client_id`, `client_type`, `consensus_height`, in that order.
    pub fn tagged_event(&self) -> (r: IbcEvent)
        ensures
            r.kind@ == "upgrade_client"@,
            r.attributes@.len() == 3,
            attr_is(r.attributes@[0], "client_id"@, self.client_id.client_id@),
            attr_is(r.attributes@[1], "client_type"@, self.client_type.client_type@),
            attr_is(
                r.attributes@[2],
                "consensus_height"@,
                height_text(self.consensus_height.consensus_height),
            ),
    {
        let mut attributes: Vec<EventAttribute> = Vec::new();
        attributes.push(self.client_id.tagged());
        attributes.push(self.client_type.tagged());
        attributes.push(self.consensus_height.tagged());
        IbcEvent { kind: String::from_str("upgrade_client"), attributes }
    }
}

} // verus!

// ---------------------------------------------------------------------------
// Canonical binary form of each attribute
// ---------------------------------------------------------------------------

verus! {

use crate::codec::{
    bin_any, bin_heights, bin_height, bin_string, encode_bytes, encode_height, encode_heights,
    encode_string, read_any_at, read_height_at, read_heights_at, read_string_at, sdec_any,
    sdec_height, sdec_heights, sdec_string, all_chars_ascii,
};

/// Identifier characters are ASCII, and identifiers are short.
pub proof fn lemma_identifier_ascii(s: Seq<char>)
    requires
        valid_identifier(s),
    ensures
        all_chars_ascii(s),
        s.len() <= u32::MAX,
{
    assert forall|i: int| 0 <= i < s.len() implies ((#[trigger] s[i]) as int) < 128 by {
        assert(is_id_char(s[i]));
    }
}

impl ClientIdAttribute {
    /// The canonical binary form: the identifier as a length-prefixed
    /// ASCII string.
    pub fn canonical_bytes(&self) -> (r: Vec<u8>)
        requires
            valid_identifier(self.client_id@),
        ensures
            r@ == bin_string(self.client_id@),
    {
        proof {
            lemma_identifier_ascii(self.client_id@);
        }
        let mut out: Vec<u8> = Vec::new();
        encode_string(&mut out, self.client_id.as_str());
        assert(out@ =~= bin_string(self.client_id@));
        out
    }

    /// Reads the canonical form back; the whole buffer must be one
    /// well-formed identifier string.
    pub fn from_canonical(b: &[u8]) -> (r: Option<ClientIdAttribute>)
        ensures
            match r {
                Some(x) => sdec_string(b@) == Some((x.client_id@, Seq::<u8>::empty()))
                    && valid_identifier(x.client_id@),
                None => !(sdec_string(b@) matches Some(p) && p.1.len() == 0 && valid_identifier(
                    p.0,
                )),
            },
    {
        assert(b@.skip(0) =~= b@);
        let (s, p) = match read_string_at(b, 0) {
            Some(q) => q,
            None => {
                return None;
            },
        };
        if p != b.len() {
            return None;
        }
        assert(b@.skip(p as int) =~= Seq::<u8>::empty());
        match ClientId::new(s) {
            Ok(id) => Some(ClientIdAttribute { client_id: id }),
            Err(_) => None,
        }
    }
}

impl ClientTypeAttribute {
    /// The canonical binary form: the identifier as a length-prefixed
    /// ASCII string.
    pub fn canonical_bytes(&self) -> (r: Vec<u8>)
        requires
            valid_identifier(self.client_type@),
        ensures
            r@ == bin_string(self.client_type@),
    {
        proof {
            lemma_identifier_ascii(self.client_type@);
        }
        let mut out: Vec<u8> = Vec::new();
        encode_string(&mut out, self.client_type.as_str());
        assert(out@ =~= bin_string(self.client_type@));
        out
    }

    /// Reads the canonical form back; the whole buffer must be one
    /// well-formed identifier string.
    pub fn from_canonical(b: &[u8]) -> (r: Option<ClientTypeAttribute>)
        ensures
            match r {
                Some(x) => sdec_string(b@) == Some((x.client_type@, Seq::<u8>::empty()))
                    && valid_identifier(x.client_type@),
                None => !(sdec_string(b@) matches Some(p) && p.1.len() == 0 && valid_identifier(
                    p.0,
                )),
            },
    {
        assert(b@.skip(0) =~= b@);
        let (s, p) = match read_string_at(b, 0) {
            Some(q) => q,
            None => {
                return None;
            },
        };
        if p != b.len() {
            return None;
        }
        assert(b@.skip(p as int) =~= Seq::<u8>::empty());
        match ClientType::new(s) {
            Ok(t) => Some(ClientTypeAttribute { client_type: t }),
            Err(_) => None,
        }
    }
}

impl ConsensusHeightAttribute {
    /// The canonical binary form: two fixed-width little-endian numbers.
    pub fn canonical_bytes(&self) -> (r: Vec<u8>)
        ensures
            r@ == bin_height(self.consensus_height),
    {
        let mut out: Vec<u8> = Vec::new();
        encode_height(&mut out, &self.consensus_height);
        assert(out@ =~= bin_height(self.consensus_height));
        out
    }

    /// Reads the canonical form back; the whole buffer must be one height.
    pub fn from_canonical(b: &[u8]) -> (r: Option<ConsensusHeightAttribute>)
        ensures
            match r {
                Some(x) => sdec_height(b@) == Some(
                    (x.consensus_height, Seq::<u8>::empty()),
                ),
                None => !(sdec_height(b@) matches Some(p) && p.1.len() == 0),
            },
    {
        assert(b@.skip(0) =~= b@);
        let (h, p) = match read_height_at(b, 0) {
            Some(q) => q,
            None => {
                return None;
            },
        };
        if p != b.len() {
            return None;
        }
        assert(b@.skip(p as int) =~= Seq::<u8>::empty());
        Some(ConsensusHeightAttribute { consensus_height: h })
    }
}

impl ConsensusHeightsAttribute {
    /// The canonical binary form: a counted list of heights.
    pub fn canonical_bytes(&self) -> (r: Vec<u8>)
        requires
            self.consensus_heights@.len() <= u32::MAX,
        ensures
            r@ == bin_heights(self.consensus_heights@),
    {
        let mut out: Vec<u8> = Vec::new();
        encode_heights(&mut out, &self.consensus_heights);
        assert(out@ =~= bin_heights(self.consensus_heights@));
        out
    }

    /// Reads the canonical form back; the whole buffer must be one counted
    /// list of heights.
    pub fn from_canonical(b: &[u8]) -> (r: Option<ConsensusHeightsAttribute>)
        ensures
            match r {
                Some(x) => sdec_heights(b@) == Some(
                    (x.consensus_heights@, Seq::<u8>::empty()),
                ),
                None => !(sdec_heights(b@) matches Some(p) && p.1.len() == 0),
            },
    {
        assert(b@.skip(0) =~= b@);
        let (v, p) = match read_heights_at(b, 0) {
            Some(q) => q,
            None => {
                return None;
            },
        };
        if p != b.len() {
            return None;
        }
        assert(b@.skip(p as int) =~= Seq::<u8>::empty());
        Some(ConsensusHeightsAttribute { consensus_heights: v })
    }
}

impl HeaderAttribute {
    /// The canonical binary form: the payload's type URL as a
    /// length-prefixed ASCII string, then its raw bytes, length-prefixed.
    pub fn canonical_bytes(&self) -> (r: Vec<u8>)
        requires
            all_chars_ascii(self.header.type_url@),
            self.header.type_url@.len() <= u32::MAX,
            self.header.value@.len() <= u32::MAX,
        ensures
            r@ == bin_any(self.header.type_url@, self.header.value@),
    {
        let mut out: Vec<u8> = Vec::new();
        encode_string(&mut out, self.header.type_url.as_str());
        encode_bytes(&mut out, self.header.value.as_slice());
        assert(out@ =~= bin_any(self.header.type_url@, self.header.value@));
        out
    }

    /// Reads the canonical form back; the whole buffer must be one opaque
    /// payload.
    pub fn from_canonical(b: &[u8]) -> (r: Option<HeaderAttribute>)
        ensures
            match r {
                Some(x) => sdec_any(b@) == Some(
                    ((x.header.type_url@, x.header.value@), Seq::<u8>::empty()),
                ),
                None => !(sdec_any(b@) matches Some(p) && p.1.len() == 0),
            },
    {
        assert(b@.skip(0) =~= b@);
        let (type_url, value, p) = match read_any_at(b, 0) {
            Some(q) => q,
            None => {
                return None;
            },
        };
        if p != b.len() {
            return None;
        }
        assert(b@.skip(p as int) =~= Seq::<u8>::empty());
        Some(HeaderAttribute { header: InnerAny { type_url, value } })
    }
}

} // verus!
