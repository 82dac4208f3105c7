//! Verified building blocks for ESP32 firmware: a WiFi configuration that outlasts restarts, the
//! connection loop, a captive portal, sessions and logins, and firmware updates.

pub mod text;
pub mod time;

pub mod fields;
pub mod flash;
pub mod keys;

pub mod signals;
pub mod wifi_api;
pub mod wifi_boot;
pub mod wifi_changes;
pub mod wifi_config;
pub mod wifi_laws;
pub mod wifi_restart;
pub mod wifi_start;
pub mod wifi_task;

pub mod connection;
pub mod radio;

pub mod dns;
pub mod services;

pub mod auth;
pub mod cookie;
pub mod nonce;
pub mod session;

pub mod ota;
