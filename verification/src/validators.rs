//! The validators: each function here makes one, closed over its parameters.
//! A validator takes a reference to a value and returns `Ok(())` or the
//! [`Invalid`](crate::report::Invalid) that says which rule the value broke.

pub mod contains;
pub mod eq_either;
pub mod length;
pub mod pattern;
pub mod range;

pub use self::contains::{
    alphanumeric, alphanumeric_dashes, contain_only, contains, not_contain, not_contain_any,
};
pub use self::eq_either::{either, eq};
pub use self::length::{length, length_if_present, max, min};
pub use self::pattern::{email, matching, try_email, try_matching, try_url, url};
pub use self::range::range;
