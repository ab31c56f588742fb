//! Verified core of an authentication service: token issuance and
//! verification, a TTL key-value session store, fixed-window rate limiting,
//! and the orchestration of sign-up, login, password-reset and
//! token-validation flows.

pub mod clock;
pub mod codec;
pub mod errors;
pub mod ident;
pub mod orchestrator;
pub mod password;
pub mod rate;
pub mod requests;
pub mod session;
pub mod settings;
pub mod users;

pub use codec::{Claims, TokenManager};
pub use errors::{AuthError, FieldError, TokenError};
pub use orchestrator::AuthOrchestrator;
pub use rate::RateLimiter;
pub use session::SessionStore;
pub use settings::Settings;
pub use users::{User, UserStore};
