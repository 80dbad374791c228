//! Where the identities of connections come from.

use vstd::prelude::*;
use crate::model::PlayerId;

verus! {

/// Makes up an identity for a new connection with `uuid::Uuid::new_v4`
/// and keeps its 128 bits, as `uuid::Uuid::as_u128` gives them.
///
/// Nothing is claimed of the value: it is drawn at random.
#[verifier::external_body]
pub(crate) fn fresh_identity() -> (id: PlayerId) {
    PlayerId(uuid::Uuid::new_v4().as_u128())
}

} // verus!
