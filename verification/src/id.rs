//! Paste identifiers: allocation of a fresh random 32-bit identifier and
//! the derivation of the public URL path segment from an identifier and the
//! entry it names.

use vstd::prelude::*;
use vstd::string::StringExecFns;
use crate::form::StoredEntry;
use crate::num;

verus! {

/// A paste identifier: an opaque random 32-bit value that becomes the
/// primary key of the stored entry and seeds its public URL.
#[derive(Clone, Copy, PartialEq, Eq, Structural)]
pub struct Id {
    pub value: u32,
}

/// Relies on `rand::random`: a fresh draw from the thread-local generator.
/// Nothing is promised of which value comes back.
#[verifier::external_body]
fn random_u32() -> u32 {
    rand::random::<u32>()
}

impl Id {
    /// Allocate a fresh random identifier.  No uniqueness check happens
    /// here; collisions are the persistence collaborator's concern.
    pub fn generate() -> Id {
        Id { value: random_u32() }
    }

    /// The URL path segment for this identifier and `entry`: the
    /// identifier in decimal, then `.` and the extension when one is
    /// present.
    pub open spec fn spec_url_path(self, entry: StoredEntry) -> Seq<char> {
        let base = num::spec_dec_u64(self.value as nat);
        match entry.extension {
            Some(x) => base + "."@ + x@,
            None => base,
        }
    }

    /// Derive the URL path segment, exactly as `spec_url_path` describes.
    pub fn to_url_path(&self, entry: &StoredEntry) -> (s: String)
        ensures
            s@ == self.spec_url_path(*entry),
    {
        let mut s = num::u64_to_dec(self.value as u64);
        match &entry.extension {
            Some(x) => {
                s.append(".");
                s.append(x.as_str());
                proof {
                    assert(s@ =~= self.spec_url_path(*entry));
                }
            },
            None => {
            },
        }
        s
    }
}

} // verus!
