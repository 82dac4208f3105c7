//! Keys of the WiFi configuration in the key-value store.
use vstd::prelude::*;

verus! {

pub const KEY_AP_ENABLED: u8 = 0;

pub const KEY_AP_SSID: u8 = 1;

pub const KEY_AP_PASSWORD: u8 = 2;

pub const KEY_AP_GATEWAY_IP: u8 = 3;

pub const KEY_STA_ENABLED: u8 = 4;

pub const KEY_HOSTNAME: u8 = 5;

pub const KEY_COUNTRY_CODE: u8 = 6;

/// The most network slots for which every slot has keys of its own.
pub const MAX_SLOTS: usize = 123;

/// The key of slot `i`'s SSID.
pub open spec fn ssid_key(i: int) -> u8 {
    (10 + (2 * i) % 256) as u8
}

/// The key of slot `i`'s password.
pub open spec fn pw_key(i: int) -> u8 {
    (11 + (2 * i) % 256) as u8
}

/// The key of slot `i`'s SSID. The slot number wraps at 128, and the sum has to stay in a byte.
pub fn sta_ssid_key(i: usize) -> (key: u8)
    requires
        2 * i <= usize::MAX,
        10 + (2 * i) % 256 <= u8::MAX,
    ensures
        key == 10 + (2 * i) % 256,
        key == ssid_key(i as int),
{
    let twice: usize = i * 2;
    assert(twice as u8 == twice % 256) by (bit_vector);
    10 + twice as u8
}

/// The key of slot `i`'s password. The slot number wraps at 128, and the sum has to stay in a byte.
pub fn sta_pw_key(i: usize) -> (key: u8)
    requires
        2 * i <= usize::MAX,
        11 + (2 * i) % 256 <= u8::MAX,
    ensures
        key == 11 + (2 * i) % 256,
        key == pw_key(i as int),
{
    let twice: usize = i * 2;
    assert(twice as u8 == twice % 256) by (bit_vector);
    11 + twice as u8
}

/// Whether `key` is one of the keys outside the slots.
pub open spec fn is_scalar_key(key: u8) -> bool {
    key <= KEY_COUNTRY_CODE
}

/// No two slots share a key, no slot's SSID shares one with a password, and no slot shares
/// one with the fields outside the slots.
pub proof fn law_slot_keys_distinct(i: int, j: int)
    requires
        0 <= i < MAX_SLOTS,
        0 <= j < MAX_SLOTS,
    ensures
        ssid_key(i) == ssid_key(j) ==> i == j,
        pw_key(i) == pw_key(j) ==> i == j,
        ssid_key(i) != pw_key(j),
        !is_scalar_key(ssid_key(i)),
        !is_scalar_key(pw_key(i)),
{
}

/// A store with at most twenty slots keeps to the keys from 0 to 49.
pub proof fn law_keys_reserved(i: int)
    requires
        0 <= i < 20,
    ensures
        10 <= ssid_key(i) < pw_key(i) <= 49,
{
}

/// The keys of slot `i` are the `i`th pair from 10 on: its SSID under the even key, its password
/// under the odd one behind it.
pub proof fn law_slot_has_a_pair_of_keys(i: usize, ssid: u8, password: u8)
    requires
        i < 123,
        call_ensures(sta_ssid_key, (i,), ssid),
        call_ensures(sta_pw_key, (i,), password),
    ensures
        ssid == 10 + 2 * i,
        password == 11 + 2 * i,
{
}

} // verus!
