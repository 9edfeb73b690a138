//! A verified request-admission core for a small HTTP-triggered email relay:
//! shared-secret authentication, per-identity sliding-window rate limiting,
//! message construction with configured defaults, and response mapping.

pub mod auth;
pub mod errors;
pub mod limiter;
pub mod message;
pub mod orchestrate;
pub mod respond;
pub mod settings;

pub use auth::AuthResult;
pub use errors::EmailError;
pub use limiter::RateLimit;
pub use message::{EmailRequest, OutboundMessage};
pub use respond::ApiResponse;
pub use settings::{AppSettings, EmailSettings, ServerSettings};
