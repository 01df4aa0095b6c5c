use sync_hub::msg::Message;
use sync_hub::store::StateCell;
use sync_hub::store::Store;
use sync_hub::store::StoreConfig;

fn fresh_store() -> Store {
    Store::initialize(StoreConfig {
        name: b"This is the default name".to_vec(),
        count: 0,
    })
}

#[test]
fn initialization_defaults() {
    let s = Store::initialize(StoreConfig {
        name: b"Rusty".to_vec(),
        count: 7,
    });
    assert_eq!(s.name(), &b"Rusty".to_vec());
    assert_eq!(s.count(), 7);
    assert_eq!(s.counter(), 0);
    assert_eq!(s.value(), &b"Dog URL not set yet".to_vec());
}

#[test]
fn increments_add_up() {
    let mut s = fresh_store();
    for _ in 0..5 {
        s.apply(&Message::IncrementCounter);
    }
    assert_eq!(s.counter(), 5);
}

#[test]
fn increment_touches_only_the_counter() {
    let mut s = fresh_store();
    s.apply(&Message::IncrementCounter);
    assert_eq!(s.value(), &b"Dog URL not set yet".to_vec());
    assert_eq!(s.count(), 0);
}

#[test]
fn new_value_last_write_wins() {
    let mut s = fresh_store();
    s.apply(&Message::NewValue(b"first".to_vec()));
    assert_eq!(s.value(), &b"first".to_vec());
    s.apply(&Message::NewValue(b"second".to_vec()));
    assert_eq!(s.value(), &b"second".to_vec());
    assert_eq!(s.counter(), 0);
}

#[test]
fn state_cell_initializes_once_then_serves() {
    let mut cell = StateCell::empty();
    cell.initialize(StoreConfig {
        name: b"proc".to_vec(),
        count: 3,
    });
    cell.apply(&Message::IncrementCounter);
    cell.apply(&Message::NewValue(b"v".to_vec()));
    assert_eq!(cell.store().counter(), 1);
    assert_eq!(cell.store().value(), &b"v".to_vec());
    assert_eq!(cell.store().count(), 3);
}
