//! Building blocks for browser applications: request paths and error
//! handling, list-page state, theming, authentication models and the
//! decisions behind the generic UI components.
pub mod text;
pub mod http;
pub mod reactive;
pub mod theme;
pub mod components;
pub mod auth;
