//! Rendering of HTTP responses for a terminal: a status line, the headers in
//! the order they arrived, and a body that is reformatted and highlighted when
//! the response declares itself to be JSON.

pub mod args;
pub mod body;
pub mod content_type;
pub mod highlight;
pub mod json;
pub mod render;
pub mod response;
pub mod text;
