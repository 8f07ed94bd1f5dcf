//! Named Git profiles: switching the `include.path` entries of a Git
//! configuration between profile fragments, and listing the profiles that a
//! profile directory holds.

pub mod cli;
pub mod config;
pub mod error;
pub mod list;
pub mod name;
pub mod path;
pub mod pattern;
pub mod profile_dir;
pub mod switch;

pub use cli::{Cli, Commands};
pub use config::{GitConfig, MemoryGitConfig};
pub use error::GitProfileError;
pub use list::{collect_profiles, list_profiles, profile_line, ProfileEntry, ProfileRecord};
pub use name::{is_valid_profile_name, validate_profile_name};
pub use path::{path_lies_under, profile_path};
pub use pattern::exact_value_pattern;
pub use profile_dir::{ConfigDirGitProfile, DefaultGitProfileDir, GitProfileDir};
pub use switch::{plan_switch, switch, switch_message, SwitchPlan};
