//! What the key-value store in flash holds, and what becomes of its answers.
use crate::text::text64;
use vstd::prelude::*;

verus! {

/// An item of the key-value store.
pub enum FlashItem {
    Flag(bool),
    Text(Seq<char>),
}

/// The contents of the key-value store.
pub type Flash = Map<u8, FlashItem>;

/// The flag under `key`, if there is one.
pub open spec fn flag_at(flash: Flash, key: u8) -> Option<bool> {
    if flash.contains_key(key) {
        match flash[key] {
            FlashItem::Flag(b) => Some(b),
            FlashItem::Text(_) => None,
        }
    } else {
        None
    }
}

/// The text under `key`, if there is one.
pub open spec fn text_at(flash: Flash, key: u8) -> Option<Seq<char>> {
    if flash.contains_key(key) {
        match flash[key] {
            FlashItem::Flag(_) => None,
            FlashItem::Text(t) => Some(t),
        }
    } else {
        None
    }
}

/// A value on its way into the store.
pub enum FlashValue {
    Flag(bool),
    Text(heapless::String<64>),
}

impl FlashValue {
    pub open spec fn item(self) -> FlashItem {
        match self {
            FlashValue::Flag(b) => FlashItem::Flag(b),
            FlashValue::Text(t) => FlashItem::Text(text64(t)),
        }
    }
}

/// The text of an optional string.
pub open spec fn opt_text(t: Option<heapless::String<64>>) -> Option<Seq<char>> {
    match t {
        Some(t) => Some(text64(t)),
        None => None,
    }
}

/// A store's answer to a fetch; `None` where nothing usable lies under the key.
pub enum FlashReply {
    Flag(Option<bool>),
    Text(Option<heapless::String<64>>),
}

/// Whether a write went through. `attempt` is `None` where the store was never initialised.
pub fn store_succeeded<E>(attempt: Option<Result<(), E>>) -> (stored: bool)
    ensures
        stored == (attempt is Some && attempt->0 is Ok),
{
    match attempt {
        Some(Ok(())) => true,
        _ => false,
    }
}

/// What a read brought. `attempt` is `None` where the store was never initialised; such a
/// read, a failed one and one that found nothing all bring nothing.
pub fn fetched_item<T, E>(attempt: Option<Result<Option<T>, E>>) -> (item: Option<T>)
    ensures
        item == match attempt {
            Some(Ok(found)) => found,
            _ => None,
        },
{
    match attempt {
        Some(Ok(found)) => found,
        _ => None,
    }
}

/// A write counts only where the store was there and took it, and a read brings only what the store
/// found.
pub proof fn law_store_has_to_be_there<T, E>(
    write: Option<Result<(), E>>,
    stored: bool,
    read: Option<Result<Option<T>, E>>,
    item: Option<T>,
)
    requires
        call_ensures(store_succeeded::<E>, (write,), stored),
        call_ensures(fetched_item::<T, E>, (read,), item),
    ensures
        stored <==> write matches Some(Ok(_)),
        item matches Some(found) ==> read == Some(Ok::<Option<T>, E>(Some(found))),
        item is None ==> read is None || read->0 is Err || read == Some(Ok::<Option<T>, E>(None)),
{
}

} // verus!
