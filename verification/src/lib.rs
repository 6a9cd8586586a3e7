//! Session-verification middleware core: a pluggable session-store contract,
//! the outcome model attached to each request, and the interceptor logic that
//! extracts a session token, consults the store, classifies the result, and
//! hands the request on unchanged.

pub mod laws;
pub mod layer;
pub mod manager;
pub mod service;
pub mod store;

pub use layer::SessionManagerLayer;
pub use manager::SessionManage;
pub use manager::UserData;
pub use manager::UserState;
pub use service::SessionManagerService;
