//! The revocation store: the set of token texts invalidated by sign-out.
//! A token once inserted stays forever; membership is decided by the exact
//! text.
use crate::bytesutil::bytes_eq;
use crate::strings::text_bytes;
use vstd::prelude::*;

verus! {

/// The revoked token texts. Entries are only ever added.
pub struct RevocationStore {
    revoked: Vec<String>,
}

impl RevocationStore {
    /// Whether the token with these bytes has been revoked.
    pub closed spec fn spec_has(&self, token: Seq<u8>) -> bool {
        exists|i: int|
            0 <= i < self.revoked@.len() && text_bytes(#[trigger] self.revoked@[i]@) == token
    }

    pub fn new() -> (r: RevocationStore)
        ensures
            forall|t: Seq<u8>| !r.spec_has(t),
    {
        RevocationStore { revoked: Vec::new() }
    }

    /// Revoke a token: it is in the store afterwards, and nothing else
    /// changes.
    pub fn insert(&mut self, token: String)
        ensures
            final(self).spec_has(text_bytes(token@)),
            forall|t: Seq<u8>| #[trigger]
                final(self).spec_has(t) <==> old(self).spec_has(t) || t == text_bytes(token@),
    {
        let ghost prev = self.revoked@;
        self.revoked.push(token);
        proof {
            assert forall|t: Seq<u8>| #[trigger]
                self.spec_has(t) <==> old(self).spec_has(t) || t == text_bytes(token@) by {
                if self.spec_has(t) {
                    let i = choose|i: int|
                        0 <= i < self.revoked@.len() && text_bytes(
                            #[trigger] self.revoked@[i]@,
                        ) == t;
                    if i < prev.len() {
                        assert(text_bytes(prev[i]@) == t);
                    }
                }
                if old(self).spec_has(t) {
                    let i = choose|i: int|
                        0 <= i < prev.len() && text_bytes(#[trigger] prev[i]@) == t;
                    assert(text_bytes(self.revoked@[i]@) == t);
                }
                if t == text_bytes(token@) {
                    assert(text_bytes(self.revoked@[self.revoked@.len() - 1]@) == t);
                }
            }
        }
    }

    /// Whether this exact token text is in the store.
    pub fn contains(&self, token: &str) -> (r: bool)
        ensures
            r == self.spec_has(text_bytes(token@)),
    {
        let n: usize = self.revoked.len();
        let mut i: usize = 0;
        while i < n
            invariant
                i <= n,
                n == self.revoked@.len(),
                forall|j: int|
                    0 <= j < i ==> text_bytes(#[trigger] self.revoked@[j]@) != text_bytes(token@),
            decreases n - i,
        {
            let entry: &String = &self.revoked[i];
            if bytes_eq(entry.as_str().as_bytes(), token.as_bytes()) {
                return true;
            }
            i = i + 1;
        }
        false
    }
}

} // verus!
