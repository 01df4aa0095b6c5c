//! The replicated state store: the per-process structure that the message
//! protocol keeps consistent across the hub's workers.
//!
//! Immutable configuration is fixed at initialization; the mutable fields
//! change only through [`Store::apply`], so cross-process consistency is
//! purely a consequence of every process applying the same messages.

use vstd::prelude::*;

use crate::msg::Message;
use crate::msg::MessageModel;

verus! {

/// Host-supplied configuration, read once at process start and never
/// mutated afterwards.
pub struct StoreConfig {
    /// A display name.
    pub name: Vec<u8>,
    /// A numeric parameter.
    pub count: u32,
}

/// One process's copy of the replicated state.
pub struct Store {
    name: Vec<u8>,
    count: u32,
    counter: u32,
    value: Vec<u8>,
}

/// Mathematical model of a [`Store`].
pub struct StoreModel {
    pub name: Seq<u8>,
    pub count: u32,
    pub counter: u32,
    pub value: Seq<u8>,
}

impl View for Store {
    type V = StoreModel;

    closed spec fn view(&self) -> StoreModel {
        StoreModel { name: self.name@, count: self.count, counter: self.counter, value: self.value@ }
    }
}

/// The placeholder held by the external-value field before the first
/// external value arrives: the bytes `Dog URL not set yet`.
pub open spec fn unset_value() -> Seq<u8> {
    seq![0x44u8, 0x6F, 0x67, 0x20, 0x55, 0x52, 0x4C, 0x20, 0x6E, 0x6F, 0x74, 0x20, 0x73, 0x65, 0x74, 0x20, 0x79, 0x65, 0x74]
}

/// The store a process starts from, given its configuration.
pub open spec fn initial_store(name: Seq<u8>, count: u32) -> StoreModel {
    StoreModel { name: name, count: count, counter: 0, value: unset_value() }
}

/// What applying one message does to the replicated fields: the counter
/// advances by one modulo wraparound, or the external value is overwritten
/// (last write wins). Configuration fields never change.
pub open spec fn apply_model(s: StoreModel, m: MessageModel) -> StoreModel {
    match m {
        MessageModel::IncrementCounter => StoreModel {
            counter: ((s.counter + 1) % 0x1_0000_0000) as u32,
            ..s
        },
        MessageModel::NewValue(v) => StoreModel { value: v, ..s },
    }
}

/// Applying a sequence of messages, first message first.
pub open spec fn apply_all(s: StoreModel, msgs: Seq<MessageModel>) -> StoreModel
    decreases msgs.len(),
{
    if msgs.len() == 0 {
        s
    } else {
        apply_all(apply_model(s, msgs[0]), msgs.skip(1))
    }
}

/// The per-process slot the store lives in, enforcing the startup protocol
/// with the host: initialization happens exactly once, before any read or
/// update. Violating that protocol is a fatal programming error, so the
/// operations require it rather than recover from it; the process plumbing
/// must check before calling and fail as loudly as the host expects.
pub struct StateCell {
    inner: Option<Store>,
}

impl StateCell {
    /// Whether the slot has been initialized.
    pub closed spec fn is_initialized(&self) -> bool {
        self.inner is Some
    }

    /// The model of the store held in the slot.
    pub closed spec fn store_model(&self) -> StoreModel
        recommends
            self.is_initialized(),
    {
        self.inner->0@
    }

    /// Whether the slot has been initialized; the process plumbing checks
    /// this before reading, since reading first would be fatal.
    pub fn initialized(&self) -> (r: bool)
        ensures
            r == self.is_initialized(),
    {
        self.inner.is_some()
    }

    /// The empty slot every process starts with.
    pub fn empty() -> (c: StateCell)
        ensures
            !c.is_initialized(),
    {
        StateCell { inner: None }
    }

    /// Initialize the slot from the host-supplied configuration. Callable
    /// exactly once: a second call would be a startup-protocol violation.
    pub fn initialize(&mut self, config: StoreConfig)
        requires
            !old(self).is_initialized(),
        ensures
            final(self).is_initialized(),
            final(self).store_model() == initial_store(config.name@, config.count),
    {
        self.inner = Some(Store::initialize(config));
    }

    /// Read access to the store; a consistent snapshot is whatever the
    /// borrow observes, since nothing mutates the slot while it is shared.
    pub fn store(&self) -> (r: &Store)
        requires
            self.is_initialized(),
        ensures
            r@ == self.store_model(),
    {
        match &self.inner {
            Some(s) => s,
            None => unreached(),
        }
    }

    /// Apply one replicated update to the store in the slot.
    pub fn apply(&mut self, m: &Message)
        requires
            old(self).is_initialized(),
        ensures
            final(self).is_initialized(),
            final(self).store_model() == apply_model(old(self).store_model(), m@),
    {
        match &mut self.inner {
            Some(s) => s.apply(m),
            None => {
                proof {
                    assert(false);
                }
            },
        }
    }
}

/// Law: applying any sequence of `IncrementCounter` messages advances the
/// counter by exactly the number of messages, modulo wraparound, from any
/// starting store. Every ordering of such messages is such a sequence, so
/// delivery order cannot change the result; reads never mutate the store,
/// so interleaved reads cannot either.
pub proof fn lemma_increments_add_up(s: StoreModel, msgs: Seq<MessageModel>)
    requires
        forall|i: int| 0 <= i < msgs.len() ==> msgs[i] is IncrementCounter,
    ensures
        apply_all(s, msgs).counter == (s.counter + msgs.len()) % 0x1_0000_0000,
    decreases msgs.len(),
{
    if msgs.len() == 0 {
        vstd::arithmetic::div_mod::lemma_small_mod(s.counter as nat, 0x1_0000_0000);
    } else {
        assert(msgs[0] is IncrementCounter);
        let s1 = apply_model(s, msgs[0]);
        lemma_increments_add_up(s1, msgs.skip(1));
        vstd::arithmetic::div_mod::lemma_add_mod_noop_right(
            msgs.len() - 1,
            s.counter + 1,
            0x1_0000_0000,
        );
    }
}

/// Law: `NewValue` is last-write-wins. Applying `NewValue(v)` makes a read
/// of the store return exactly `v`, and a subsequent `NewValue(v2)`
/// overwrites it with `v2`.
pub proof fn lemma_new_value_overwrites(s: StoreModel, v: Seq<u8>, v2: Seq<u8>)
    ensures
        apply_model(s, MessageModel::NewValue(v)).value == v,
        apply_model(apply_model(s, MessageModel::NewValue(v)), MessageModel::NewValue(v2)).value
            == v2,
{
}

impl Store {
    /// Build the process's store from its host-supplied configuration.
    pub fn initialize(config: StoreConfig) -> (s: Store)
        ensures
            s@ == initial_store(config.name@, config.count),
    {
        let mut value: Vec<u8> = Vec::new();
        value.push(0x44);
        value.push(0x6F);
        value.push(0x67);
        value.push(0x20);
        value.push(0x55);
        value.push(0x52);
        value.push(0x4C);
        value.push(0x20);
        value.push(0x6E);
        value.push(0x6F);
        value.push(0x74);
        value.push(0x20);
        value.push(0x73);
        value.push(0x65);
        value.push(0x74);
        value.push(0x20);
        value.push(0x79);
        value.push(0x65);
        value.push(0x74);
        proof {
            assert(value@ =~= unset_value());
        }
        Store { name: config.name, count: config.count, counter: 0, value }
    }

    /// Apply one replicated update under exclusive access; each message
    /// mutates exactly one field, as [`apply_model`] states.
    pub fn apply(&mut self, m: &Message)
        ensures
            final(self)@ == apply_model(old(self)@, m@),
    {
        match m {
            Message::IncrementCounter => {
                self.counter = self.counter.wrapping_add(1);
            },
            Message::NewValue(v) => {
                let c = v.clone();
                proof {
                    assert(c@ =~= v@);
                }
                self.value = c;
            },
        }
    }

    /// The immutable display name.
    pub fn name(&self) -> (r: &Vec<u8>)
        ensures
            r@ == self@.name,
    {
        &self.name
    }

    /// The immutable numeric parameter.
    pub fn count(&self) -> (r: u32)
        ensures
            r == self@.count,
    {
        self.count
    }

    /// The replicated wrapping counter.
    pub fn counter(&self) -> (r: u32)
        ensures
            r == self@.counter,
    {
        self.counter
    }

    /// The replicated last-known external value.
    pub fn value(&self) -> (r: &Vec<u8>)
        ensures
            r@ == self@.value,
    {
        &self.value
    }
}

} // verus!
