//! Types and logic for clients of the meh.com deal API.
use vstd::prelude::*;

pub mod deal;
pub mod entry;
pub mod poll;
pub mod schedule;
pub mod text;
pub mod timestamp;
pub mod video;
pub mod watch;

pub use deal::{Attribute, Deal, Item, Launch, PurchaseQuantity, Story, Theme};
pub use entry::{mod_main, E};
pub use poll::{Answer, Poll};
pub use timestamp::Timestamp;
pub use video::Video;
pub use watch::format_duration;

verus! {

/// The response from a call to the meh api endpoint.
#[derive(Debug, Clone, PartialEq, Eq)]
pub struct Response {
    /// The current deal.
    pub deal: Deal,
    /// The current poll.
    pub poll: Option<Poll>,
    /// The current video.
    pub video: Option<Video>,
}

/// Forum topic information.
#[derive(Debug, Clone, PartialEq, Eq)]
pub struct Topic {
    /// How many people commented on it?
    pub comment_count: u32,
    /// When was this created?
    pub created_at: Timestamp,
    /// Unique ID.
    pub id: String,
    /// How many replies to it?
    pub reply_count: u32,
    /// Where can you find it?
    pub url: String,
    /// Total vote count.
    pub vote_count: u32,
}

/// Builds a meh api url using the provided `api_key`.
pub fn construct_url(api_key: &str) -> (url: String)
    ensures
        url@ == "https://api.meh.com/1/current.json?apikey="@ + api_key@,
{
    let mut url = String::from_str("https://api.meh.com/1/current.json?apikey=");
    url.append(api_key);
    url
}

} // verus!
