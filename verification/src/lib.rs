//! Verified core logic of four manga sources: request building, response
//! interpretation, string helpers and the page-list cipher of one site.

pub mod text;
pub mod decrypt;
pub mod num;
pub mod manga;
pub mod schale_models;
pub mod schale;
pub mod schale_settings;
pub mod hentainexus;
pub mod ninemanga;
pub mod readcomiconline;
pub mod laws;
pub mod listing_laws;
pub mod cipher_laws;
