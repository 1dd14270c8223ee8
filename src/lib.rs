//! Console log rendering with a call-tree gutter: named branches opened and
//! closed by the caller are drawn as vertical guide bars beside each record.

pub mod color;
pub mod laws;
pub mod level;
pub mod logger;
pub mod output;
pub mod stack;
pub mod text;
mod widths;

pub use color::{color_for, Color, Style};
pub use level::Level;
pub use output::{banner, newline, spans, Span};
pub use stack::{enter_branch, exit_branch, BranchError, BranchStack, Mode};
pub use logger::{init, Malogany};
