//! Small shared helpers for the command surface.
use vstd::prelude::*;

use crate::report::EditError;
use crate::text::idx_of;

verus! {

/// Splits a `KEY=VALUE` argument at its first equals sign.
pub fn parse_key_val(s: &str) -> (r: Result<(String, String), EditError>)
    ensures
        r is Ok <==> idx_of(s@, '=') < s@.len(),
        r matches Ok(p) ==> {
            &&& p.0@ == s@.subrange(0, idx_of(s@, '='))
            &&& p.1@ == s@.subrange(idx_of(s@, '=') + 1, s@.len() as int)
        },
        r matches Err(e) ==> e is BadValue,
{
    proof {
        crate::text::lemma_idx_of(s@, '=');
    }
    let n = s.unicode_len();
    let i = crate::text::find_char(s, '=');
    if i == n {
        Err(EditError::BadValue("Invalid KEY=VALUE format: no `=` found".to_owned()))
    } else {
        let k = s.substring_char(0, i).to_owned();
        let v = s.substring_char(i + 1, n).to_owned();
        Ok((k, v))
    }
}

} // verus!
