//! The insertion pipeline's decisions: resolving the owner identity from
//! the optional `uid` cookie and assembling the record, redirect location
//! and owner cookie of a successful insertion.  The surrounding handler
//! performs the I/O: it extracts the form and headers, runs identifier
//! generation off the request task, calls the persistence collaborator and
//! sends the response.

use vstd::prelude::*;
use vstd::string::StringExecFns;
use crate::form::Entry;
use crate::form::StoredEntry;
use crate::form::entry_wf;
use crate::form::is_normalization_of;
use crate::form::normalize;
use crate::id::Id;
use crate::num;
use crate::text;

verus! {

/// The failures that abort an insertion.  Each is fatal for the request
/// and surfaced; none is retried.
#[derive(Clone, Copy, PartialEq, Eq, Debug, Structural)]
pub enum InsertError {
    /// The unit of work dispatched to generate the identifier could not be
    /// completed.
    IdentifierAllocation,
    /// A `uid` cookie was presented but its value is not a decimal integer.
    CookieParsing,
    /// The storage collaborator failed to persist the entry.
    Persistence,
}

/// How the owner identity of this insertion is obtained.
#[derive(Clone, Copy, PartialEq, Eq, Debug, Structural)]
pub enum OwnerAction {
    /// Reuse the owner id carried by the verified `uid` cookie.
    Use(i64),
    /// No cookie was presented: allocate a fresh id from the persistence
    /// collaborator's monotonic counter.
    Allocate,
}

/// Decide the owner identity from the optional, already-verified `uid`
/// cookie value: reuse the parsed value, fail on a value that is not a
/// decimal integer, and ask for a fresh allocation when no cookie came.
pub fn resolve_owner(cookie: Option<&str>) -> (r: Result<OwnerAction, InsertError>)
    ensures
        r == match cookie {
            None => Ok::<OwnerAction, InsertError>(OwnerAction::Allocate),
            Some(c) => match num::spec_parse_i64(c@) {
                Some(v) => Ok::<OwnerAction, InsertError>(OwnerAction::Use(v)),
                None => Err::<OwnerAction, InsertError>(InsertError::CookieParsing),
            },
        },
{
    match cookie {
        None => Ok(OwnerAction::Allocate),
        Some(c) => match num::parse_i64(c) {
            Some(v) => Ok(OwnerAction::Use(v)),
            None => Err(InsertError::CookieParsing),
        },
    }
}

/// The `uid` cookie a successful insertion sets on its response.
pub struct CookiePlan {
    pub name: String,
    pub value: String,
    pub http_only: bool,
    pub secure: bool,
    pub same_site_strict: bool,
}

/// Everything the handler needs to finish a successful insertion: the
/// record to persist, the redirect location, and the owner cookie.
pub struct InsertPlan {
    pub entry: StoredEntry,
    pub location: String,
    pub cookie: CookiePlan,
}

/// The entry of a plan is the normalization of the submitted form with the
/// resolved owner id filled in.
pub open spec fn is_planned_entry(r: StoredEntry, form: Entry, uid: i64) -> bool {
    &&& is_normalization_of((StoredEntry { uid: None::<i64>, ..r }), form)
    &&& r.uid == Some(uid)
}

/// The redirect location of an entry: `/`, then `burn/` for a
/// burn-after-reading paste, then the identifier's URL path segment.
pub open spec fn spec_location(id: Id, entry: StoredEntry) -> Seq<char> {
    let burn: Seq<char> = if entry.burn_after_reading == Some(true) {
        "burn/"@
    } else {
        Seq::<char>::empty()
    };
    "/"@ + burn + id.spec_url_path(entry)
}

/// Assemble a successful insertion: normalize the form, fill in the owner
/// id, derive the redirect location (namespaced under `burn/` for a
/// burn-after-reading paste), and plan the owner cookie with `HttpOnly`,
/// `SameSite=Strict`, and `Secure` exactly as the transport heuristic
/// decided.
pub fn plan_insert(form: &Entry, id: Id, uid: i64, secure: bool) -> (p: InsertPlan)
    ensures
        is_planned_entry(p.entry, *form, uid),
        entry_wf(p.entry),
        p.location@ == spec_location(id, p.entry),
        p.cookie.name@ == "uid"@,
        p.cookie.value@ == num::spec_dec_i64(uid as int),
        p.cookie.http_only,
        p.cookie.same_site_strict,
        p.cookie.secure == secure,
{
    let mut entry = normalize(form);
    entry.uid = Some(uid);
    let path = id.to_url_path(&entry);
    let burn = match entry.burn_after_reading {
        Some(b) => b,
        None => false,
    };
    let mut location = String::from_str("/");
    if burn {
        location.append("burn/");
    }
    location.append(path.as_str());
    proof {
        assert(location@ =~= spec_location(id, entry));
    }
    let cookie = CookiePlan {
        name: String::from_str("uid"),
        value: num::i64_to_dec(uid),
        http_only: true,
        secure,
        same_site_strict: true,
    };
    InsertPlan { entry, location, cookie }
}

/// Every redirect location is rooted: it begins with `/`.
pub proof fn lemma_location_rooted(id: Id, entry: StoredEntry)
    ensures
        spec_location(id, entry).len() >= 1,
        spec_location(id, entry)[0] == '/',
{
    reveal_strlit("/");
}

/// A burn-after-reading entry's redirect location always begins with
/// `/burn/`.
pub proof fn lemma_burn_location_prefix(id: Id, entry: StoredEntry)
    requires
        entry.burn_after_reading == Some(true),
    ensures
        text::has_prefix(spec_location(id, entry), "/burn/"@),
{
    reveal_strlit("/");
    reveal_strlit("burn/");
    reveal_strlit("/burn/");
    assert(spec_location(id, entry).subrange(0, "/burn/"@.len() as int) =~= "/burn/"@);
}

/// A client that presents the `uid` cookie planned by an earlier insertion
/// is assigned the same owner id again: the planned cookie value parses
/// back to the owner id it was written for.
pub proof fn lemma_cookie_reuses_owner(uid: i64, c: Seq<char>)
    requires
        c == num::spec_dec_i64(uid as int),
    ensures
        num::spec_parse_i64(c) == Some(uid),
{
    num::lemma_dec_i64_roundtrip(uid);
}

} // verus!
