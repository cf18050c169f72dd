//! The access decision behind the shared-secret header: with no key
//! configured the API is open; with one, only a matching header passes.

use vstd::prelude::*;

verus! {

/// Whether a request passes: no configured key (or an empty one) admits
/// everyone; otherwise the provided key must match exactly.
pub open spec fn spec_auth_allows(
    configured: Option<Seq<char>>,
    provided: Option<Seq<char>>,
) -> bool {
    match configured {
        None => true,
        Some(k) => k.len() == 0 || provided == Some(k),
    }
}

/// Decides a request, given the configured key and the key the request
/// carries.
pub fn api_key_auth(configured: Option<&String>, provided: Option<&String>) -> (r: bool)
    ensures
        r == spec_auth_allows(
            crate::document::opt_key(configured),
            crate::document::opt_key(provided),
        ),
{
    match configured {
        None => true,
        Some(k) => {
            if k.as_str().unicode_len() == 0 {
                true
            } else {
                match provided {
                    Some(p) => {
                        let r = *p == *k;
                        proof {
                            if p@ == k@ {
                                assert(crate::document::opt_key(provided) == Some(k@));
                            }
                        }
                        r
                    },
                    None => false,
                }
            }
        },
    }
}

} // verus!
