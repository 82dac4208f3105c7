//! Single settings that are kept in flash, with a copy in RAM.
use vstd::prelude::*;

verus! {

/// What a setting starts with.
pub struct FieldStart<T> {
    /// The value in RAM.
    pub value: T,
    /// Whether the value is to be written to flash as well.
    pub store: bool,
}

/// What a setting starts with, given what a fetch from flash found.
pub open spec fn field_start<T>(fetched: Option<T>, default: T) -> FieldStart<T> {
    match fetched {
        Some(value) => FieldStart { value, store: false },
        None => FieldStart { value: default, store: true },
    }
}

/// Starts a setting: with the value in flash, and on first boot with the default, which is then
/// written to flash too.
pub fn start_field<T>(fetched: Option<T>, default: T) -> (r: FieldStart<T>)
    ensures
        r == field_start(fetched, default),
{
    match fetched {
        Some(value) => FieldStart { value, store: false },
        None => FieldStart { value: default, store: true },
    }
}

/// Takes a new value over into RAM where it was stored in flash, and says whether it was.
pub fn set_field<T>(field: &mut T, value: T, stored: bool) -> (r: bool)
    ensures
        r == stored,
        *final(field) == if stored {
            value
        } else {
            *old(field)
        },
{
    if stored {
        *field = value;
        true
    } else {
        false
    }
}

/// The flash after a write that was tried.
pub open spec fn flash_after<T>(flash: Map<u8, T>, key: u8, value: T, stored: bool) -> Map<u8, T> {
    if stored {
        flash.insert(key, value)
    } else {
        flash
    }
}

/// What a fetch finds.
pub open spec fn in_flash<T>(flash: Map<u8, T>, key: u8) -> Option<T> {
    if flash.contains_key(key) {
        Some(flash[key])
    } else {
        None
    }
}

/// What a start makes of the flash.
pub open spec fn flash_after_start<T>(
    flash: Map<u8, T>,
    key: u8,
    default: T,
    stored: bool,
) -> Map<u8, T> {
    let start = field_start(in_flash(flash, key), default);
    if start.store {
        flash_after(flash, key, start.value, stored)
    } else {
        flash
    }
}

/// The value that a setting starts with.
pub open spec fn start_value<T>(flash: Map<u8, T>, key: u8, default: T) -> T {
    field_start(in_flash(flash, key), default).value
}

/// A setting that was changed starts with the new value from then on, whatever the default is.
pub proof fn law_change_survives_restart<T>(flash: Map<u8, T>, key: u8, value: T, default: T)
    ensures
        start_value(flash_after(flash, key, value, true), key, default) == value,
{
}

/// The default counts on the first boot only: once it was written, it is the value that later
/// starts find, even with another default.
pub proof fn law_default_is_for_first_boot<T>(
    flash: Map<u8, T>,
    key: u8,
    default: T,
    later_default: T,
)
    ensures
        ({
            let settled = flash_after_start(flash, key, default, true);
            &&& start_value(settled, key, later_default) == start_value(flash, key, default)
            &&& forall|stored: bool|
                flash_after_start(settled, key, later_default, stored) == settled
        }),
{
}

/// A change that could not be stored leaves the flash, and so the value of the next start, as it
/// was.
pub proof fn law_failed_change_changes_nothing<T>(flash: Map<u8, T>, key: u8, value: T)
    ensures
        flash_after(flash, key, value, false) == flash,
{
}

/// A change leaves every other setting as it was.
pub proof fn law_settings_are_independent<T>(
    flash: Map<u8, T>,
    key: u8,
    other: u8,
    value: T,
    stored: bool,
    default: T,
)
    requires
        key != other,
    ensures
        start_value(flash_after(flash, key, value, stored), other, default) == start_value(
            flash,
            other,
            default,
        ),
{
}

/// A setting starts with what flash holds, which is not written again; where flash holds nothing it
/// starts with the default, which is written.
pub proof fn law_setting_starts_with_what_is_kept<T>(
    fetched: Option<T>,
    default: T,
    r: FieldStart<T>,
)
    requires
        call_ensures(start_field::<T>, (fetched, default), r),
    ensures
        fetched matches Some(kept) ==> r.value == kept && !r.store,
        fetched is None ==> r.value == default && r.store,
{
}

/// A new value counts exactly where it was stored; otherwise the old one stays.
pub proof fn law_setting_follows_flash<T>(field: &mut T, value: T, stored: bool, r: bool)
    requires
        call_ensures(set_field::<T>, (field, value, stored), r),
    ensures
        r == stored,
        stored ==> *final(field) == value,
        !stored ==> *final(field) == *old(field),
{
}

} // verus!
