//! The chat channels that announcements and replies go to.

use vstd::prelude::*;

verus! {

/// A destination channel.
#[derive(Clone, Copy, Debug, PartialEq, Eq, Structural)]
pub enum SlackChannel {
    Aws,
    Rust,
    Kubernetes,
    Python,
    BattleBots,
    Library,
}

/// The identifier of a channel.
pub open spec fn channel_id(c: SlackChannel) -> Seq<char> {
    match c {
        SlackChannel::Aws => "CA6MUA4LU"@,
        SlackChannel::Rust => "C8EHWNKHV"@,
        SlackChannel::Kubernetes => "C91DM9Y6S"@,
        SlackChannel::Python => "C6DTBQK4P"@,
        SlackChannel::BattleBots => "CD31RPEFR"@,
        SlackChannel::Library => "CE2L5QUGP"@,
    }
}

impl SlackChannel {
    pub fn id(&self) -> (r: &'static str)
        ensures
            r@ == channel_id(*self),
    {
        match self {
            SlackChannel::Aws => "CA6MUA4LU",
            SlackChannel::Rust => "C8EHWNKHV",
            SlackChannel::Kubernetes => "C91DM9Y6S",
            SlackChannel::Python => "C6DTBQK4P",
            SlackChannel::BattleBots => "CD31RPEFR",
            SlackChannel::Library => "CE2L5QUGP",
        }
    }
}

} // verus!
