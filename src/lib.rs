//! Downloads the images of a user's liked items: a single-shot OAuth2
//! redirect listener, a sequential walk of the paginated feed, enrichment
//! of each page with author names and image references, and a scheduler
//! that bounds how many downloads run at once.

pub mod auth;
pub mod bot;
pub mod config;
pub mod download;
pub mod feed;
pub mod oauth2_callback;
pub mod text;
