//! Client-side authentication session manager for the CoSelPro procurement
//! database behind its REST gateway: credentials and their password digest,
//! time-limited bearer tokens with on-disk caching, expiry checks under a
//! safety margin, and sessions that gate every authenticated request on a
//! still-usable token and renew it without mutating the session they renew.
pub mod coselpro;
pub mod credentials;
pub mod crosses;
pub mod jsontext;
pub mod remote;
pub mod token;
