//! Account storage logic: the e-mail lists, per-user paths, input checks, the
//! user/session/token rules and the conversation/message normalisations.
pub mod error;
pub mod util;
pub mod lists;
pub mod manager;
pub mod user_data;
pub mod users;
