//! Report rendering support owned by the library: escaping and embedded
//! styles. Writing report files is I/O done by the caller.

pub mod html;
pub mod junit;

pub use html::HtmlReporter;
pub use junit::JunitReporter;
