//! Dependency ordering and migration-risk analysis for installed packages.

pub mod analysis;
pub mod brewfile;
pub mod classify;
pub mod classify_laws;
pub mod denylist;
pub mod graph;
pub mod listing;
pub mod migrator;
pub mod order;
pub mod order_laws;
pub mod outcome;
pub mod package;
pub mod reason;
pub mod report;
pub mod tap;
pub mod text;

pub use analysis::{analyze, analyze_package, sort_by_name};
pub use brewfile::brewfile_content;
pub use classify::find_transitive_problematic_deps;
pub use denylist::known_problematic_packages;
pub use graph::find_package;
pub use listing::{output_lines, parse_listing};
pub use migrator::HomebrewMigrator;
pub use order::topological_sort;
pub use outcome::{prompt_step, MigrationState, PromptAction};
pub use package::BrewPackage;
pub use reason::get_problematic_reason;
pub use report::{AnalysisReport, MigrateResult, MigrationReport, MigrationRisk, PackageAnalysis};
pub use tap::{non_core_tap, tap_from_info};
