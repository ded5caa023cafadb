//! Identifier allocation. Every user, room, consumer and track identifier
//! is an unguessable random string minted server-side at the moment of
//! allocation.

use vstd::prelude::*;

verus! {

/// Unique identifier for a consumer connection.
pub type ConsumerId = String;

/// Unique identifier for a track.
pub type TrackId = String;

/// Relies on uuid's `Uuid::new_v4` and its `Display` form: a freshly
/// drawn random version-4 identifier, rendered as 36 lowercase
/// hyphenated characters. The value is random, so nothing is promised
/// of it beyond its length.
#[verifier::external_body]
pub(crate) fn fresh_id() -> (r: String)
    ensures
        r@.len() == 36,
{
    uuid::Uuid::new_v4().to_string()
}

/// Generates a unique consumer identifier.
pub fn generate_consumer_id() -> (r: ConsumerId)
    ensures
        r@.len() == 36,
{
    fresh_id()
}

/// Generates a unique track identifier.
pub fn generate_track_id() -> (r: TrackId)
    ensures
        r@.len() == 36,
{
    fresh_id()
}

} // verus!
