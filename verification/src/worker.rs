//! The worker client: the per-worker-process side of the protocol.
//!
//! A worker's loop runs two directions. Upstream, locally-originated
//! messages (from the control-plane trigger's handoff queue) are framed
//! with [`crate::codec::frame_line`] and written to the hub. Downstream,
//! each line read from the hub is decoded and applied to the process's
//! replicated state store — that is [`apply_line`]. The connection itself
//! and the handoff queue are process plumbing outside this crate.

use vstd::prelude::*;

use crate::codec::DecodeError;
use crate::codec::decode_framed;
use crate::codec::decode_spec;
use crate::codec::framed_strip;
use crate::msg::Message;
use crate::msg::MessageModel;
use crate::store::Store;
use crate::store::apply_model;

verus! {

/// One step of the worker's downstream direction: decode a line received
/// from the hub and apply the message to this process's store.
///
/// A malformed line is a fatal protocol violation for the worker's
/// synchronization loop: nothing is applied and the caller must stop the
/// loop, leaving the store exactly as it was.
pub fn apply_line(store: &mut Store, line: &[u8]) -> (r: Result<(), DecodeError>)
    ensures
        match r {
            Ok(_) => {
                &&& decode_spec(framed_strip(line@)) is Some
                &&& final(store)@ == apply_model(
                    old(store)@,
                    decode_spec(framed_strip(line@))->Some_0,
                )
            },
            Err(_) => {
                &&& decode_spec(framed_strip(line@)) is None
                &&& final(store)@ == old(store)@
            },
        },
{
    match decode_framed(line) {
        Ok(m) => {
            store.apply(&m);
            Ok(())
        },
        Err(e) => Err(e),
    }
}

/// The message the control-plane trigger originates: a management-interface
/// invocation enqueues exactly one counter increment for the hub to
/// distribute to every worker, the invoking one included.
pub fn control_message() -> (m: Message)
    ensures
        m@ == MessageModel::IncrementCounter,
{
    Message::IncrementCounter
}

/// The message the external event poller hands to the hub after a
/// successful poll: the polled value, wrapped as a replicated overwrite of
/// the last-known external value.
pub fn poller_message(value: Vec<u8>) -> (m: Message)
    ensures
        m@ == MessageModel::NewValue(value@),
{
    Message::NewValue(value)
}

} // verus!
