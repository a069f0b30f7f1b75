//! In-memory task-management core with per-user accounts and
//! session-scoped authorization.
//!
//! The library keeps four pieces of state — a user registry, a session
//! table, a task table and a monotonic id counter — and proves the
//! invariants that tie them together: usernames are unique, each caller
//! identity is bound to at most one session, task ids are strictly
//! increasing and never reused, and no task is visible or mutable except
//! through its owner.

pub mod errors;
pub mod identity;
pub mod laws;
pub mod registry;
pub mod sessions;
pub mod state;
pub mod tasks;

pub use errors::Error;
pub use identity::Identity;
pub use registry::LoginRequest;
pub use registry::RegisterRequest;
pub use registry::User;
pub use registry::UserRegistry;
pub use sessions::Session;
pub use sessions::SessionTable;
pub use state::AppState;
pub use tasks::CreateTaskPayload;
pub use tasks::Task;
pub use tasks::TaskStore;
