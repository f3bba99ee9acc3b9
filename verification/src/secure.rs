//! The origin-security heuristic: an approximate, header-based test for
//! whether the inbound connection is TLS-protected, used solely to decide
//! whether the owner cookie carries the `Secure` attribute.  `false` is the
//! safe default whenever the evidence is inconclusive.

use vstd::prelude::*;
use vstd::string::StrSliceExecFns;
use crate::text;

verus! {

/// The header evidence for a TLS connection: the Origin value is `https://`
/// followed by text that begins with the exact Host value.
pub open spec fn secure_origin(host: Seq<char>, origin: Seq<char>) -> bool {
    &&& text::has_prefix(origin, "https://"@)
    &&& text::has_prefix(origin.skip("https://"@.len() as int), host)
}

/// Decide whether the request plausibly arrived over TLS.  Returns `false`
/// whenever the Host or Origin header is missing, and `true` exactly when
/// the Origin starts with `https://` and the remainder starts with the
/// exact Host value.
pub fn is_secure_transport(host: Option<&str>, origin: Option<&str>) -> (r: bool)
    ensures
        r == match (host, origin) {
            (Some(h), Some(o)) => secure_origin(h@, o@),
            _ => false,
        },
{
    match (host, origin) {
        (Some(h), Some(o)) => {
            if text::str_has_prefix(o, "https://") {
                let plen = "https://".unicode_len();
                text::str_has_prefix_from(o, plen, h)
            } else {
                false
            }
        },
        _ => false,
    }
}

} // verus!
