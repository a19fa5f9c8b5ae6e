use vstd::prelude::*;
use vstd::utf8::encode_utf8;

verus! {

/// Stable peer identifier supplied by the application.
#[derive(Clone, Eq, Debug, Hash, PartialOrd, Ord, Default)]
pub struct PeerId(pub String);

/// The UTF-8 bytes of a peer identifier.
pub open spec fn peer_bytes(p: PeerId) -> Seq<u8> {
    encode_utf8(p.0@)
}

impl PartialEq for PeerId {
    fn eq(&self, other: &PeerId) -> (r: bool) {
        self.0 == other.0
    }
}

impl vstd::std_specs::cmp::PartialEqSpecImpl for PeerId {
    open spec fn obeys_eq_spec() -> bool {
        true
    }

    open spec fn eq_spec(&self, other: &PeerId) -> bool {
        self.0@ == other.0@
    }
}

impl PeerId {
    /// The identifier `value`.
    pub fn new(value: String) -> (r: PeerId)
        ensures
            r.0@ == value@,
    {
        PeerId(value)
    }

    /// The empty identifier.
    pub fn unspecified() -> (r: PeerId)
        ensures
            r.0@ == Seq::<char>::empty(),
    {
        PeerId(String::new())
    }

    /// The identifier `*`, which stands for every peer.
    pub fn broadcast() -> (r: PeerId)
        ensures
            r.0@ == seq!['*'],
    {
        let s = "*";
        proof {
            reveal_strlit("*");
        }
        PeerId(s.to_owned())
    }

    /// Whether the identifier is empty.
    pub fn is_unspecified(&self) -> (r: bool)
        ensures
            r == (self.0@.len() == 0),
    {
        self.0.as_str().is_empty()
    }

    /// Whether the identifier is `*`.
    pub fn is_broadcast(&self) -> (r: bool)
        ensures
            r == (self.0@ == seq!['*']),
    {
        let s = "*";
        proof {
            reveal_strlit("*");
        }
        let star = s.to_owned();
        assert(star@ =~= seq!['*']);
        let r = self.0.eq(&star);
        assert(r == (self.0@ == star@));
        r
    }

    /// The identifier as text.
    pub fn as_str(&self) -> (r: &str)
        ensures
            r@ == self.0@,
    {
        self.0.as_str()
    }

    /// A copy of the identifier.
    pub fn duplicate(&self) -> (r: PeerId)
        ensures
            r == *self,
    {
        PeerId(self.0.clone())
    }
}

impl AsRef<str> for PeerId {
    fn as_ref(&self) -> (r: &str)
        ensures
            r@ == self.0@,
    {
        self.0.as_str()
    }
}

impl From<&str> for PeerId {
    fn from(value: &str) -> (r: PeerId)
        ensures
            r.0@ == value@,
    {
        PeerId(value.to_owned())
    }
}

impl vstd::std_specs::convert::FromSpecImpl<&str> for PeerId {
    // A `String` is not determined by its characters in specifications, so the exact result
    // is stated on `from` itself.
    open spec fn obeys_from_spec() -> bool {
        false
    }

    open spec fn from_spec(value: &str) -> PeerId {
        arbitrary()
    }
}

impl From<String> for PeerId {
    fn from(value: String) -> (r: PeerId) {
        PeerId(value)
    }
}

impl vstd::std_specs::convert::FromSpecImpl<String> for PeerId {
    open spec fn obeys_from_spec() -> bool {
        true
    }

    open spec fn from_spec(value: String) -> PeerId {
        PeerId(value)
    }
}

impl From<PeerId> for String {
    fn from(value: PeerId) -> (r: String) {
        value.0
    }
}

impl vstd::std_specs::convert::FromSpecImpl<PeerId> for String {
    open spec fn obeys_from_spec() -> bool {
        true
    }

    open spec fn from_spec(value: PeerId) -> String {
        value.0
    }
}

} // verus!
