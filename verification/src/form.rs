//! Form normalization: the pure, total transformation from a raw submitted
//! form to the canonical persistence-ready record.

use vstd::prelude::*;
use crate::num;
use crate::text;

verus! {

/// A submitted form, exactly as the client sent it.  All values are
/// untrusted text; there are no invariants beyond field presence.
pub struct Entry {
    pub text: String,
    pub extension: Option<String>,
    pub expires: Option<String>,
    pub password: String,
    pub title: String,
    pub burn_after_reading: Option<String>,
}

/// The normalized, persistence-ready record for a paste.  The owner id is
/// absent after normalization and filled in by the insertion planner.
pub struct StoredEntry {
    pub text: String,
    pub extension: Option<String>,
    pub expires: Option<u32>,
    pub burn_after_reading: Option<bool>,
    pub uid: Option<i64>,
    pub password: Option<String>,
    pub title: Option<String>,
}

/// Well-formedness of a stored entry: a present expiry is strictly
/// positive, and present password and title are non-empty.
pub open spec fn entry_wf(r: StoredEntry) -> bool {
    &&& (r.expires matches Some(n) ==> n >= 1)
    &&& (r.password matches Some(p) ==> p@.len() > 0)
    &&& (r.title matches Some(t) ==> t@.len() > 0)
}

/// What a submitted expiry token yields: the parsed value when it is a
/// strictly positive integer that fits in 32 bits, absent on any failure.
pub open spec fn spec_expires(s: Seq<char>) -> Option<u32> {
    match num::spec_parse_u32(s) {
        Some(n) => if n >= 1 {
            Some(n)
        } else {
            None
        },
        None => None,
    }
}

/// The full normalization relation between a submitted form and its
/// canonical record: text and extension pass through unchanged, the expiry
/// token degrades to absent on any parse failure, the burn flag is true
/// exactly on the literal value `on`, empty password and title become
/// absent, and the owner id is left unset.
pub open spec fn is_normalization_of(r: StoredEntry, form: Entry) -> bool {
    &&& r.text@ == form.text@
    &&& match form.extension {
        Some(x) => r.extension matches Some(y) && y@ == x@,
        None => r.extension is None,
    }
    &&& r.expires == match form.expires {
        Some(s) => spec_expires(s@),
        None => None::<u32>,
    }
    &&& r.burn_after_reading == match form.burn_after_reading {
        Some(s) => Some(s@ == "on"@),
        None => None::<bool>,
    }
    &&& r.uid is None
    &&& if form.password@.len() == 0 {
        r.password is None
    } else {
        r.password matches Some(p) && p@ == form.password@
    }
    &&& if form.title@.len() == 0 {
        r.title is None
    } else {
        r.title matches Some(t) && t@ == form.title@
    }
}

/// Parse a submitted expiry token, exactly as `spec_expires` describes.
pub fn parse_expires(s: &str) -> (r: Option<u32>)
    ensures
        r == spec_expires(s@),
{
    match num::parse_u32(s) {
        Some(n) => if n >= 1 {
            Some(n)
        } else {
            None
        },
        None => None,
    }
}

/// Normalize a submitted form into its canonical record.  Total: every
/// form yields a well-formed record, malformed optional fields degrade to
/// absent and are never an error.
pub fn normalize(form: &Entry) -> (r: StoredEntry)
    ensures
        is_normalization_of(r, *form),
        entry_wf(r),
{
    let burn_after_reading = match &form.burn_after_reading {
        Some(s) => Some(text::str_eq(s.as_str(), "on")),
        None => None,
    };
    let expires = match &form.expires {
        Some(s) => parse_expires(s.as_str()),
        None => None,
    };
    let extension = match &form.extension {
        Some(x) => Some(x.clone()),
        None => None,
    };
    let password = if form.password.as_str().is_empty() {
        None
    } else {
        Some(form.password.clone())
    };
    let title = if form.title.as_str().is_empty() {
        None
    } else {
        Some(form.title.clone())
    };
    StoredEntry {
        text: form.text.clone(),
        extension,
        expires,
        burn_after_reading,
        uid: None,
        password,
        title,
    }
}

/// Two optional strings hold the same text, or are both absent.
pub open spec fn option_str_eq(a: Option<String>, b: Option<String>) -> bool {
    match (a, b) {
        (Some(x), Some(y)) => x@ == y@,
        (None, None) => true,
        _ => false,
    }
}

/// Normalization is a pure function: any two records normalized from the
/// same form agree on every observable field.
pub proof fn lemma_normalize_deterministic(form: Entry, r1: StoredEntry, r2: StoredEntry)
    requires
        is_normalization_of(r1, form),
        is_normalization_of(r2, form),
    ensures
        r1.text@ == r2.text@,
        option_str_eq(r1.extension, r2.extension),
        r1.expires == r2.expires,
        r1.burn_after_reading == r2.burn_after_reading,
        r1.uid == r2.uid,
        option_str_eq(r1.password, r2.password),
        option_str_eq(r1.title, r2.title),
{
}

/// The burn-after-reading flag of the normalized record is `true` exactly
/// when the submitted value is the literal `on`; any other present value
/// yields `false`, and an absent field stays absent.
pub proof fn lemma_burn_iff_on(form: Entry, r: StoredEntry)
    requires
        is_normalization_of(r, form),
    ensures
        form.burn_after_reading is Some ==> (r.burn_after_reading == Some(true) <==> form.burn_after_reading->0@ == "on"@),
        form.burn_after_reading is Some && form.burn_after_reading->0@ != "on"@
            ==> r.burn_after_reading == Some(false),
        form.burn_after_reading is None ==> r.burn_after_reading is None,
{
}

/// A present expiry in a normalized record is strictly positive and is the
/// exact value of the submitted token; a token that is non-numeric, zero,
/// or too large for 32 bits always yields an absent expiry.
pub proof fn lemma_expires_degrades(s: Seq<char>)
    ensures
        spec_expires(s) matches Some(n) ==> 1 <= n <= u32::MAX && num::all_digits(
            num::unsigned_digits(s),
        ) && num::dec_val(num::unsigned_digits(s)) == n,
        !(num::unsigned_digits(s).len() > 0 && num::all_digits(num::unsigned_digits(s)))
            ==> spec_expires(s) is None,
        num::all_digits(num::unsigned_digits(s)) && num::dec_val(num::unsigned_digits(s)) == 0
            ==> spec_expires(s) is None,
        num::all_digits(num::unsigned_digits(s)) && num::dec_val(num::unsigned_digits(s))
            > u32::MAX ==> spec_expires(s) is None,
{
    let d = num::unsigned_digits(s);
    if d.len() > 0 && num::all_digits(d) {
        num::lemma_dec_val_nonneg(d);
    }
}

} // verus!
