pub mod helpers;
pub mod json;
pub mod url;
