//! Validated text identifiers: chains, clients, connections, channels and
//! ports are all named by short strings drawn from a fixed character set.

use vstd::prelude::*;

use crate::errors::Error;
use vstd::string::StrSliceExecFns;

verus! {

/// Characters an identifier may contain: ASCII letters, digits, and the
/// separators `.`, `_`, `-`.
pub open spec fn is_id_char(c: char) -> bool {
    ('a' <= c && c <= 'z') || ('A' <= c && c <= 'Z') || ('0' <= c && c <= '9') || c == '.'
        || c == '_' || c == '-'
}

/// A well-formed identifier: non-empty, at most 128 characters, every
/// character from the identifier alphabet.
pub open spec fn valid_identifier(s: Seq<char>) -> bool {
    1 <= s.len() <= 128 && (forall|i: int| 0 <= i < s.len() ==> is_id_char(#[trigger] s[i]))
}

/// Checks a candidate identifier against `valid_identifier`.
fn check_identifier(s: &str) -> (r: bool)
    ensures
        r == valid_identifier(s@),
{
    let len = s.unicode_len();
    if len < 1 || len > 128 {
        return false;
    }
    let mut i: usize = 0;
    while i < len
        invariant
            len == s@.len(),
            1 <= len <= 128,
            0 <= i <= len,
            forall|j: int| 0 <= j < i ==> is_id_char(#[trigger] s@[j]),
        decreases len - i,
    {
        let c = s.get_char(i);
        let ok = ('a' <= c && c <= 'z') || ('A' <= c && c <= 'Z') || ('0' <= c && c <= '9')
            || c == '.' || c == '_' || c == '-';
        if !ok {
            return false;
        }
        i = i + 1;
    }
    true
}


/// Character-for-character string comparison.
pub(crate) fn str_eq(a: &str, b: &str) -> (r: bool)
    ensures
        r == (a@ == b@),
{
    let la = a.unicode_len();
    let lb = b.unicode_len();
    if la != lb {
        assert(a@ != b@);
        return false;
    }
    let mut i: usize = 0;
    while i < la
        invariant
            la == a@.len(),
            la == b@.len(),
            0 <= i <= la,
            forall|j: int| 0 <= j < i ==> a@[j] == b@[j],
        decreases la - i,
    {
        if a.get_char(i) != b.get_char(i) {
            return false;
        }
        i = i + 1;
    }
    assert(a@ =~= b@);
    true
}

/// Identifies one light client hosted on a chain, e.g. `07-grandpa-0`.
#[derive(Debug)]
pub struct ClientId {
    text: String,
}

impl View for ClientId {
    type V = Seq<char>;

    closed spec fn view(&self) -> Seq<char> {
        self.text@
    }
}

impl ClientId {
    /// Accepts exactly the well-formed identifiers; anything else is a
    /// malformed input.
    pub fn new(text: String) -> (r: Result<ClientId, Error>)
        ensures
            valid_identifier(text@) ==> (r matches Ok(id) && id@ == text@),
            !valid_identifier(text@) ==> (r matches Err(e) && e == Error::MalformedInput),
    {
        if check_identifier(text.as_str()) {
            Ok(ClientId { text })
        } else {
            Err(Error::MalformedInput)
        }
    }

    pub fn as_str(&self) -> (r: &str)
        ensures
            r@ == self@,
    {
        self.text.as_str()
    }
}

impl Clone for ClientId {
    fn clone(&self) -> (r: ClientId)
        ensures
            r@ == self@,
    {
        ClientId { text: self.text.clone() }
    }
}

/// Names the consensus algorithm a client runs, e.g. `07-grandpa`.
#[derive(Debug)]
pub struct ClientType {
    text: String,
}

impl View for ClientType {
    type V = Seq<char>;

    closed spec fn view(&self) -> Seq<char> {
        self.text@
    }
}

impl ClientType {
    /// Accepts exactly the well-formed identifiers; anything else is a
    /// malformed input.
    pub fn new(text: String) -> (r: Result<ClientType, Error>)
        ensures
            valid_identifier(text@) ==> (r matches Ok(t) && t@ == text@),
            !valid_identifier(text@) ==> (r matches Err(e) && e == Error::MalformedInput),
    {
        if check_identifier(text.as_str()) {
            Ok(ClientType { text })
        } else {
            Err(Error::MalformedInput)
        }
    }

    pub fn as_str(&self) -> (r: &str)
        ensures
            r@ == self@,
    {
        self.text.as_str()
    }
}

impl Clone for ClientType {
    fn clone(&self) -> (r: ClientType)
        ensures
            r@ == self@,
    {
        ClientType { text: self.text.clone() }
    }
}

/// Identifies a chain in a relayer's configuration.
#[derive(Debug, Clone)]
pub struct ChainId {
    text: String,
}

impl View for ChainId {
    type V = Seq<char>;

    closed spec fn view(&self) -> Seq<char> {
        self.text@
    }
}

impl ChainId {
    /// Accepts exactly the well-formed identifiers; anything else is a
    /// malformed input.
    pub fn new(text: String) -> (r: Result<ChainId, Error>)
        ensures
            valid_identifier(text@) ==> (r matches Ok(id) && id@ == text@),
            !valid_identifier(text@) ==> (r matches Err(e) && e == Error::MalformedInput),
    {
        if check_identifier(text.as_str()) {
            Ok(ChainId { text })
        } else {
            Err(Error::MalformedInput)
        }
    }

    pub fn as_str(&self) -> (r: &str)
        ensures
            r@ == self@,
    {
        self.text.as_str()
    }
}

/// Identifies a connection end on a chain.
#[derive(Debug)]
pub struct ConnectionId {
    text: String,
}

impl View for ConnectionId {
    type V = Seq<char>;

    closed spec fn view(&self) -> Seq<char> {
        self.text@
    }
}

impl ConnectionId {
    /// Accepts exactly the well-formed identifiers; anything else is a
    /// malformed input.
    pub fn new(text: String) -> (r: Result<ConnectionId, Error>)
        ensures
            valid_identifier(text@) ==> (r matches Ok(id) && id@ == text@),
            !valid_identifier(text@) ==> (r matches Err(e) && e == Error::MalformedInput),
    {
        if check_identifier(text.as_str()) {
            Ok(ConnectionId { text })
        } else {
            Err(Error::MalformedInput)
        }
    }

    pub fn as_str(&self) -> (r: &str)
        ensures
            r@ == self@,
    {
        self.text.as_str()
    }
}

impl Clone for ConnectionId {
    fn clone(&self) -> (r: ConnectionId)
        ensures
            r@ == self@,
    {
        ConnectionId { text: self.text.clone() }
    }
}

/// Identifies a channel end on a chain.
#[derive(Debug, Clone)]
pub struct ChannelId {
    text: String,
}

impl View for ChannelId {
    type V = Seq<char>;

    closed spec fn view(&self) -> Seq<char> {
        self.text@
    }
}

impl ChannelId {
    /// Accepts exactly the well-formed identifiers; anything else is a
    /// malformed input.
    pub fn new(text: String) -> (r: Result<ChannelId, Error>)
        ensures
            valid_identifier(text@) ==> (r matches Ok(id) && id@ == text@),
            !valid_identifier(text@) ==> (r matches Err(e) && e == Error::MalformedInput),
    {
        if check_identifier(text.as_str()) {
            Ok(ChannelId { text })
        } else {
            Err(Error::MalformedInput)
        }
    }

    pub fn as_str(&self) -> (r: &str)
        ensures
            r@ == self@,
    {
        self.text.as_str()
    }
}

/// Identifies a port bound to a channel.
#[derive(Debug, Clone)]
pub struct PortId {
    text: String,
}

impl View for PortId {
    type V = Seq<char>;

    closed spec fn view(&self) -> Seq<char> {
        self.text@
    }
}

impl PortId {
    /// Accepts exactly the well-formed identifiers; anything else is a
    /// malformed input.
    pub fn new(text: String) -> (r: Result<PortId, Error>)
        ensures
            valid_identifier(text@) ==> (r matches Ok(id) && id@ == text@),
            !valid_identifier(text@) ==> (r matches Err(e) && e == Error::MalformedInput),
    {
        if check_identifier(text.as_str()) {
            Ok(PortId { text })
        } else {
            Err(Error::MalformedInput)
        }
    }

    pub fn as_str(&self) -> (r: &str)
        ensures
            r@ == self@,
    {
        self.text.as_str()
    }
}

} // verus!
