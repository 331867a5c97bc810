//! Presence of AirPods over Bluetooth LE, and the rule that only one instance
//! of the application runs.
//!
//! - [`address`]: device addresses and their texts.
//! - [`crypto`], [`rpa`]: keys, the block cipher, and whose key made an address.
//! - [`devices`], [`resolver`]: the known devices, and which advertiser is one.
//! - [`advert`]: what an advertisement says of wear and batteries.
//! - [`cooldown`], [`preferences`], [`reconnect`]: whether it leads to a
//!   connection attempt.
//! - [`supervisor`]: when advertisements are listened for at all.
//! - [`single_instance`]: which launch of the application stays.
pub mod address;
pub mod advert;
pub mod cooldown;
pub mod crypto;
pub mod devices;
pub mod preferences;
pub mod reconnect;
pub mod resolver;
pub mod rpa;
pub mod single_instance;
pub mod supervisor;
