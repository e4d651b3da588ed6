//! Stored values and their expiry.

use vstd::prelude::*;
use vstd::slice::slice_to_vec;

verus! {

/// What a key holds: a binary-safe string or a list of text elements.
#[derive(Clone, Debug, PartialEq, Eq)]
pub enum Value {
    String(Vec<u8>),
    List(Vec<String>),
}

/// The mathematical value of a [`Value`].
pub enum ValueView {
    String(Seq<u8>),
    List(Seq<Seq<char>>),
}

impl View for Value {
    type V = ValueView;

    open spec fn view(&self) -> ValueView {
        match self {
            Value::String(bytes) => ValueView::String(bytes@),
            Value::List(items) => ValueView::List(items.deep_view()),
        }
    }
}

impl Value {
    /// The bytes of a string value.
    pub fn to_vec(&self) -> (bytes: Vec<u8>)
        requires
            self is String,
        ensures
            self@ == ValueView::String(bytes@),
    {
        match self {
            Value::String(v) => slice_to_vec(v.as_slice()),
            Value::List(_) => Vec::new(),
        }
    }
}

/// An entry of the store: a value, and the time from which it counts as
/// absent. Times are milliseconds on the server's clock.
#[derive(Clone, Debug, PartialEq, Eq)]
pub struct Data {
    pub value: Value,
    pub expires_at: Option<u64>,
}

/// The mathematical value of a [`Data`].
pub struct DataView {
    pub value: ValueView,
    pub expires_at: Option<u64>,
}

impl View for Data {
    type V = DataView;

    open spec fn view(&self) -> DataView {
        DataView { value: self.value@, expires_at: self.expires_at }
    }
}

impl DataView {
    /// Whether the entry counts as absent at time `now`: it has an expiry
    /// time and `now` is at or past it.
    pub open spec fn expired(self, now: u64) -> bool {
        match self.expires_at {
            Some(expiry) => now >= expiry,
            None => false,
        }
    }
}

impl Data {
    /// Whether the entry counts as absent at time `now`. An entry without an
    /// expiry time never does.
    pub fn expired(&self, now: u64) -> (gone: bool)
        ensures
            gone == self@.expired(now),
    {
        match self.expires_at {
            Some(expiry) => now >= expiry,
            None => false,
        }
    }
}

/// The store as the commands see it: the value of each entry, by key.
pub type StoreView = Map<Seq<char>, DataView>;

/// The entry under `key` that is there at time `now`: an expired entry
/// counts as absent.
pub open spec fn live(store: StoreView, key: Seq<char>, now: u64) -> Option<DataView> {
    if store.contains_key(key) && !store[key].expired(now) {
        Some(store[key])
    } else {
        None
    }
}

} // verus!
