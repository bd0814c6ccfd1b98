//! Groups the elements of a pull-based source into fixed-size groups of
//! length `N`, buffering a partially filled group until the source has
//! yielded enough elements to complete it.

pub mod chunks;
pub mod laws;
pub mod source;
