//! The records that the analysis and a migration run hand to their callers.

use vstd::prelude::*;
use crate::package::texts;

verus! {

/// How risky moving a package is.
#[derive(PartialEq, Eq, Structural, Clone, Copy, Debug)]
pub enum MigrationRisk {
    /// No known issue.
    Safe,
    /// Depends, directly or through other packages, on a denied package.
    Risky,
    /// The package itself is denied: keep it where it is.
    KeepInHomebrew,
}

/// The verdict on one package.
#[derive(Debug, Clone)]
pub struct PackageAnalysis {
    pub name: String,
    pub version: String,
    pub risk: MigrationRisk,
    pub reason: String,
    pub problematic_dependencies: Vec<String>,
}

/// A verdict as plain values.
pub struct AnalysisView {
    pub name: Seq<char>,
    pub version: Seq<char>,
    pub risk: MigrationRisk,
    pub reason: Seq<char>,
    pub problematic: Seq<Seq<char>>,
}

impl View for PackageAnalysis {
    type V = AnalysisView;

    open spec fn view(&self) -> AnalysisView {
        AnalysisView {
            name: self.name@,
            version: self.version@,
            risk: self.risk,
            reason: self.reason@,
            problematic: texts(self.problematic_dependencies@),
        }
    }
}

/// The views of a list of verdicts.
pub open spec fn analysis_views(v: Seq<PackageAnalysis>) -> Seq<AnalysisView> {
    v.map_values(|a: PackageAnalysis| a@)
}

/// The verdicts on a package list, in three buckets.
#[derive(Debug, Clone)]
pub struct AnalysisReport {
    /// Packages that are safe to migrate.
    pub safe_to_migrate: Vec<PackageAnalysis>,
    /// Packages that depend on denied packages.
    pub risky: Vec<PackageAnalysis>,
    /// Packages that are denied themselves.
    pub should_keep_in_homebrew: Vec<PackageAnalysis>,
    /// How many packages were analysed.
    pub total_packages: usize,
}

impl AnalysisReport {
    /// An empty report.
    pub fn new() -> (r: AnalysisReport)
        ensures
            r.safe_to_migrate@.len() == 0,
            r.risky@.len() == 0,
            r.should_keep_in_homebrew@.len() == 0,
            r.total_packages == 0,
    {
        AnalysisReport {
            safe_to_migrate: Vec::new(),
            risky: Vec::new(),
            should_keep_in_homebrew: Vec::new(),
            total_packages: 0,
        }
    }

    /// A report from its buckets; the total must be the sum of their sizes.
    pub fn build(
        total: usize,
        safe: Vec<PackageAnalysis>,
        risky: Vec<PackageAnalysis>,
        keep: Vec<PackageAnalysis>,
    ) -> (r: AnalysisReport)
        requires
            total == safe@.len() + risky@.len() + keep@.len(),
        ensures
            r.total_packages == total,
            r.safe_to_migrate@ == safe@,
            r.risky@ == risky@,
            r.should_keep_in_homebrew@ == keep@,
    {
        AnalysisReport {
            safe_to_migrate: safe,
            risky,
            should_keep_in_homebrew: keep,
            total_packages: total,
        }
    }
}

/// How moving one package went.
#[derive(Debug)]
pub enum MigrateResult {
    Success { name: String, version: String },
    Failed { name: String, reason: String },
}

/// The outcome of a migration run.
#[derive(Debug)]
pub struct MigrationReport {
    pub total_formulae: usize,
    pub total_casks: usize,
    pub successful: Vec<String>,
    pub failed: Vec<(String, String)>,
    pub skipped: Vec<(String, String)>,
}

impl Default for MigrationReport {
    fn default() -> (r: MigrationReport)
        ensures
            r.total_formulae == 0,
            r.total_casks == 0,
            r.successful@.len() == 0,
            r.failed@.len() == 0,
            r.skipped@.len() == 0,
    {
        MigrationReport {
            total_formulae: 0,
            total_casks: 0,
            successful: Vec::new(),
            failed: Vec::new(),
            skipped: Vec::new(),
        }
    }
}

} // verus!
