//! Build status of packages, evaluations and jobsets on a Hydra instance:
//! resolution of loosely written queries into concrete lookups, and
//! extraction of typed status records from the pages that Hydra serves.

pub mod changes;
pub mod constants;
pub mod evaluation;
pub mod fetch_stable;
pub mod naming;
pub mod records;
pub mod release;
pub mod reports;
pub mod rows;
pub mod soup;
pub mod table;
pub mod text;
pub mod tree;

pub use fetch_stable::NixpkgsChannelVersion;
pub use naming::HydraCheckCli;
pub use soup::{SoupFind, TryAttr};
