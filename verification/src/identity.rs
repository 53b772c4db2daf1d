use vstd::prelude::*;

verus! {

/// The bytes of the well-known anonymous identity: a single tag byte 4.
pub open spec fn anonymous_bytes() -> Seq<u8> {
    seq![4u8]
}

/// An opaque caller identity: the raw bytes of the caller's principal, as
/// the host resolves and delivers them. The library never interprets these
/// bytes beyond equality and the anonymous sentinel.
pub struct Identity {
    pub bytes: Vec<u8>,
}

/// The bytes a principal's textual form decodes to, or nothing when the
/// text is not a well-formed principal.
pub uninterp spec fn principal_bytes_of(text: Seq<char>) -> Option<Seq<u8>>;

/// Relies on candid::Principal::from_text: decodes the textual principal
/// form (dash-grouped base32 with a leading checksum) into the principal's
/// bytes. The outcome depends on the text alone, and the call never panics.
#[verifier::external_body]
pub(crate) fn parse_principal(text: &str) -> (r: Option<Identity>)
    ensures
        (r is Some) == (principal_bytes_of(text@) is Some),
        r matches Some(id) ==> principal_bytes_of(text@) == Some(id@),
{
    match candid::Principal::from_text(text) {
        Ok(p) => Some(Identity { bytes: p.as_slice().to_vec() }),
        Err(_) => None,
    }
}

impl View for Identity {
    type V = Seq<u8>;

    open spec fn view(&self) -> Seq<u8> {
        self.bytes@
    }
}

impl Identity {
    pub fn from_bytes(bytes: Vec<u8>) -> (r: Identity)
        ensures
            r@ == bytes@,
    {
        Identity { bytes }
    }

    /// Whether this is the well-known anonymous caller.
    pub fn is_anonymous(&self) -> (r: bool)
        ensures
            r == (self@ == anonymous_bytes()),
    {
        let r = self.bytes.len() == 1 && self.bytes[0] == 4u8;
        proof {
            if r {
                assert(self@ =~= anonymous_bytes());
            }
        }
        r
    }

    /// Byte-for-byte equality of two identities.
    pub fn same_as(&self, other: &Identity) -> (r: bool)
        ensures
            r == (self@ == other@),
    {
        if self.bytes.len() != other.bytes.len() {
            return false;
        }
        let n = self.bytes.len();
        let mut i: usize = 0;
        while i < n
            invariant
                i <= n,
                n == self.bytes.len(),
                n == other.bytes.len(),
                forall|j: int| 0 <= j < i ==> self@[j] == other@[j],
            decreases n - i,
        {
            if self.bytes[i] != other.bytes[i] {
                return false;
            }
            i += 1;
        }
        proof {
            assert(self@ =~= other@);
        }
        true
    }

    /// A fresh copy of this identity.
    pub fn duplicate(&self) -> (r: Identity)
        ensures
            r@ == self@,
    {
        let n = self.bytes.len();
        let mut bytes: Vec<u8> = Vec::new();
        let mut i: usize = 0;
        while i < n
            invariant
                i <= n,
                n == self.bytes.len(),
                bytes@ == self@.take(i as int),
            decreases n - i,
        {
            bytes.push(self.bytes[i]);
            proof {
                assert(self@.take(i as int).push(self@[i as int]) =~= self@.take(i + 1 as int));
            }
            i += 1;
        }
        proof {
            assert(self@.take(n as int) =~= self@);
        }
        Identity { bytes }
    }
}

} // verus!
