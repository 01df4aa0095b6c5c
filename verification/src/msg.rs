//! The message protocol: the closed set of events exchanged between the hub
//! and its workers.

use vstd::prelude::*;

verus! {

/// The atomic unit of state-changing information exchanged over the protocol.
///
/// Each variant carries enough to apply an idempotent-or-monotonic update to
/// a replicated state store; messages have no identity or deduplication field.
#[derive(Debug)]
pub enum Message {
    /// Advance the replicated wrapping counter by one.
    IncrementCounter,
    /// Overwrite the replicated last-seen external value (UTF-8 bytes).
    NewValue(Vec<u8>),
}

/// Mathematical model of a [`Message`].
pub enum MessageModel {
    IncrementCounter,
    NewValue(Seq<u8>),
}

impl View for Message {
    type V = MessageModel;

    open spec fn view(&self) -> MessageModel {
        match self {
            Message::IncrementCounter => MessageModel::IncrementCounter,
            Message::NewValue(v) => MessageModel::NewValue(v@),
        }
    }
}

impl Clone for Message {
    fn clone(&self) -> (r: Self)
        ensures
            r@ == self@,
    {
        match self {
            Message::IncrementCounter => Message::IncrementCounter,
            Message::NewValue(v) => {
                let c = v.clone();
                proof {
                    assert(c@ =~= v@);
                }
                Message::NewValue(c)
            },
        }
    }
}

} // verus!
