//! A small verified core for a markdown page server: page-key resolution,
//! a render cache with a live-mode freshness policy, document composition
//! with exact `Content-Length` accounting, request-line routing against a
//! whitelist of static assets, and chunked framing of asset bytes.

pub mod asset_encoder;
pub mod html_composer;
pub mod markdown_loader;
pub mod router;
pub mod text;
