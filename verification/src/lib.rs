//! A user list with an administrator: its records on disk, sign-in, and the
//! administrator's and users' account operations.

pub mod text;
pub mod person;
pub mod records;
pub mod session;
pub mod accounts;
pub mod panels;
