//! What the channel to the controller reports.

use vstd::prelude::*;

verus! {

/// `display_interface::DisplayError`, the error with which a channel
/// rejects a write. The driver never looks into it: it takes the error
/// from the caller and hands the same error back, so nothing is claimed of
/// what it holds.
#[verifier::external_type_specification]
#[verifier::external_body]
pub struct ExDisplayError(display_interface::DisplayError);

} // verus!
