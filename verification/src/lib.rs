//! Declarative package bundles for Homebrew: the recipe model, its KDL
//! format, the ordered installation procedure and the comparison of a
//! recipe with what is installed.
//!
//! Nothing here touches the machine. Every function computes, from the
//! recipe and from what the machine has answered so far, what is to be done
//! next or what the final verdict is; the caller performs the operations.

pub mod bundle;
pub mod diff;
pub mod host;
pub mod kdl;
pub mod order;
pub mod parse;
pub mod recipe;
pub mod text;

pub use bundle::{install, InstallError, Progress};
pub use diff::{print_diff, CommandError};
pub use host::{Command, Operation, Outcome};
pub use parse::{parse_recipe, ParseError};
pub use recipe::{ExpandedPath, Formula, Postinstall, Recipe};
