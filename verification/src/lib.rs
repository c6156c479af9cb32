//! Release-notes briefing for upgraded packages: parse the package manager's
//! transaction log, keep the upgrades of installed packages since a checkpoint
//! date, and resolve each upgraded package to a release-notes reference.

pub mod checkpoint;
pub mod date;
pub mod distribution;
pub mod formatting;
pub mod grouping;
pub mod name_map;
pub mod package;
pub mod pattern;
pub mod project_urls;
pub mod report;
pub mod resolver;
pub mod template;
pub mod text;
pub mod upgrade;
pub mod url_formats;
pub mod url_templates;
