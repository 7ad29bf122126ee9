//! Structural audit of a home tree organised under four fixed roots, each
//! holding module directories that carry a README and a metadata file.
pub mod text;
pub mod paths;
pub mod tree;
pub mod seqs;
pub mod taxonomy;
pub mod meta;
pub mod violation;
pub mod audit;
pub mod report;
pub mod laws;
pub mod search;
pub mod stats;

pub use audit::get_violations;
pub use report::{audit, propose_fixes};
pub use search::{find_module, find_root, list_rooted_modules, search_by_tag, search_modules};
pub use meta::get_module_tags;
pub use taxonomy::{get_module_paths, get_root_paths};
pub use tree::{visit_all, Entry};
pub use stats::{get_all_tags, stats};
pub use violation::{Fix, Violation};
