use vstd::prelude::*;

use crate::text::str_eq;

verus! {

/// OpenSSL moves its certificates after install.
pub fn supports(formula: &str) -> (r: bool)
    ensures
        r == (formula@ == "openssl@3"@),
{
    str_eq(formula, "openssl@3")
}

} // verus!
