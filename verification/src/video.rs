//! The current video on meh.com.
use vstd::prelude::*;

use crate::timestamp::Timestamp;
use crate::Topic;

verus! {

/// The current video.
#[derive(Debug, Clone, PartialEq, Eq)]
pub struct Video {
    /// Unique ID.
    pub id: String,
    /// When did it start?
    pub start_date: Timestamp,
    /// What is it called?
    pub title: String,
    /// Where can I find it?
    pub url: String,
    /// Forum Topic Information.
    pub topic: Topic,
}

} // verus!
