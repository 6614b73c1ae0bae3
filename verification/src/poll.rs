//! The current poll on meh.com.
use vstd::prelude::*;

use crate::timestamp::Timestamp;
use crate::Topic;

verus! {

/// The current poll.
#[derive(Debug, Clone, PartialEq, Eq)]
pub struct Poll {
    /// All the current answers.
    pub answers: Vec<Answer>,
    /// Unique id for this poll.
    pub id: String,
    /// When did this poll start?
    pub start_date: Timestamp,
    /// The poll question.
    pub title: String,
    /// Forum topic info.
    pub topic: Option<Topic>,
}

/// One answer of a poll.
#[derive(Debug, Clone, PartialEq, Eq)]
pub struct Answer {
    /// Unique ID.
    pub id: String,
    /// Option text.
    pub text: String,
    /// How many people mashed this one.
    pub vote_count: u32,
}

} // verus!
