//! Visual identification of trading cards from photos.
//!
//! The pipeline extracts coarse colour features and a 64-bit perceptual
//! fingerprint from a decoded image, matches the fingerprint against a local
//! collection, and ranks remote catalog candidates by visual similarity.

pub mod card_features;
pub mod card_filter;
pub mod codec;
pub mod fingerprint;
pub mod hsv;
pub mod image_data;
pub mod local_match;
pub mod phash;
pub mod ranking;
pub mod recognition;
pub mod scryfall;
