//! What the host and a viewer say to each other.

use vstd::prelude::*;

verus! {

/// A message on the signaling socket. An offer and its answer carry all
/// candidates with them.
#[derive(Debug)]
pub enum SignalMessage {
    Offer {
        sdp: String,
        /// "lite" asks for the light stream.
        profile: Option<String>,
        /// "webcodecs" asks for bare access units on a data channel.
        video_path: Option<String>,
    },
    Answer { sdp: String },
}

} // verus!
