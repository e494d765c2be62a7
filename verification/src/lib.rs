//! A price ticker shown as an odometer: eight digit strips under a timestamp,
//! refreshed from a price feed once a minute.
//!
//! The crate holds the widget's state and rules. Fetching, timers and drawing
//! are left to the host, which feeds [`ticker::Msg`] values in and carries out
//! the [`ticker::Cmd`] values that come back.

pub mod digit;
pub mod feed;
pub mod price;
pub mod ticker;
