//! SchaleNetwork settings: the stored value of each setting, or its default.
use vstd::prelude::*;

use crate::manga::opt_view;
use crate::text::push_str;

verus! {

/// The preferred image width: the stored one, or `1280`.
pub fn get_quality(stored: Option<String>) -> (r: String)
    ensures
        r@ == match opt_view(stored) {
            Some(q) => q,
            None => "1280"@,
        },
{
    match stored {
        Some(q) => q,
        None => {
            let mut s = String::new();
            push_str(&mut s, "1280");
            s
        },
    }
}

/// The clearance token for page access, unless none or an empty one is stored.
pub fn get_clearance(stored: Option<String>) -> (r: Option<String>)
    ensures
        opt_view(r) == match opt_view(stored) {
            Some(t) => if t.len() > 0 {
                Some(t)
            } else {
                None
            },
            None => None,
        },
{
    match stored {
        Some(t) => if t.as_str().is_empty() {
            None
        } else {
            Some(t)
        },
        None => None,
    }
}

/// Whether titles lose their bracketed parts: the stored choice, or no.
pub fn get_remove_brackets(stored: Option<bool>) -> (r: bool)
    ensures
        r == match stored {
            Some(b) => b,
            None => false,
        },
{
    match stored {
        Some(b) => b,
        None => false,
    }
}

} // verus!
