//! Core of a gift-exchange coordination service: participants identify
//! themselves with a shared secret code, and each may ask once per yearly
//! period for a randomly chosen recipient, under fairness constraints
//! (no self-assignment, no recipient assigned twice in a period).

pub mod models;
pub mod ledger;
pub mod directory;
pub mod session;
pub mod clock;
pub mod engine;
pub mod laws;
pub mod service;

pub use models::AccessCode;
pub use models::AccessCodeWithDraw;
pub use models::CreateAccessCode;
pub use models::Draw;
pub use models::DrawRequest;
pub use models::DrawResult;
pub use models::LoginForm;
pub use service::routes;
