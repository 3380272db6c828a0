//! Resolution of the browser-automation driver release that matches a locally
//! installed browser: version numbers, the text formats they are read from,
//! the lookup of the required release and the decision whether to replace the
//! installed driver.
pub mod version;
pub mod parsers;
pub mod platform;
pub mod update;
