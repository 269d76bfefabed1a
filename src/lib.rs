//! Persistence and synchronisation core of a bookmark/tag store: the document model,
//! the encrypted envelope, the remote-address grammar and the per-request session.
pub mod git_url;
pub mod storage;
pub mod encryption;
pub mod session;
pub mod repo_path;
pub mod sync;
pub mod messaging;
pub mod json;
pub mod codec;
