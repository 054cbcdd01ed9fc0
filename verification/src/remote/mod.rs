//! Remote file support: SSH and Docker connections, and the messages that go over them.

pub mod docker;
pub mod protocol;
pub mod ssh;
