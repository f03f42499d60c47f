//! The migrator: where the package manager lives, where the migration
//! state is kept, and the analysis and ordering run on its listings.

use vstd::prelude::*;
use std::path::PathBuf;
use crate::analysis::{analyze, bucket, sorted_by_name};
use crate::denylist::{known_problematic, known_problematic_packages};
use crate::order::{install_order, topological_sort};
use crate::package::BrewPackage;
use crate::report::{analysis_views, AnalysisReport, MigrationRisk};

verus! {

/// Where the migration state of a user with home directory `home` is kept.
pub open spec fn state_path(home: Seq<char>) -> Seq<char> {
    home + "/.zerobrew/migration_state.json"@
}

/// Settings of one migration session.
pub struct HomebrewMigrator {
    /// Installation prefix of the source package manager.
    pub homebrew_prefix: PathBuf,
    state_file: String,
    verbose: bool,
}

impl HomebrewMigrator {
    /// Installation prefix of the source package manager.
    pub closed spec fn prefix_spec(&self) -> PathBuf {
        self.homebrew_prefix
    }

    /// Path of the file that holds the migration state.
    pub closed spec fn state_file_spec(&self) -> Seq<char> {
        self.state_file@
    }

    /// Whether commands and their output are echoed.
    pub closed spec fn verbose_spec(&self) -> bool {
        self.verbose
    }

    /// A migrator for the package manager installed at `homebrew_prefix`,
    /// keeping its state under the home directory `home`.
    pub fn new(homebrew_prefix: PathBuf, home: &str, verbose: bool) -> (r: HomebrewMigrator)
        ensures
            r.prefix_spec() == homebrew_prefix,
            r.state_file_spec() == state_path(home@),
            r.verbose_spec() == verbose,
    {
        let mut state_file = String::from_str(home);
        state_file.append("/.zerobrew/migration_state.json");
        HomebrewMigrator { homebrew_prefix, state_file, verbose }
    }

    /// Path of the file that holds the migration state.
    pub fn state_file(&self) -> (r: &str)
        ensures
            r@ == self.state_file_spec(),
    {
        self.state_file.as_str()
    }

    /// Whether commands and their output are echoed.
    pub fn verbose(&self) -> (r: bool)
        ensures
            r == self.verbose_spec(),
    {
        self.verbose
    }

    /// The packages in install order; see `topological_sort`.
    pub fn topological_sort(&self, packages: &Vec<BrewPackage>) -> (r: Vec<BrewPackage>)
        ensures
            r@.len() == install_order(packages@).len(),
            forall|p: int|
                0 <= p < r@.len() ==> #[trigger] r@[p]@ == packages@[install_order(packages@)[p]]@,
    {
        topological_sort(packages)
    }

    /// The analysis of the listed packages against the known problematic
    /// names; see `analyze`.
    pub fn analyze_packages(&self, packages: &Vec<BrewPackage>) -> (r: AnalysisReport)
        ensures
            r.total_packages == packages@.len(),
            r.total_packages == r.safe_to_migrate@.len() + r.risky@.len()
                + r.should_keep_in_homebrew@.len(),
            analysis_views(r.safe_to_migrate@).to_multiset() == bucket(
                packages@,
                known_problematic(),
                packages@,
                MigrationRisk::Safe,
            ).to_multiset(),
            analysis_views(r.risky@).to_multiset() == bucket(
                packages@,
                known_problematic(),
                packages@,
                MigrationRisk::Risky,
            ).to_multiset(),
            analysis_views(r.should_keep_in_homebrew@).to_multiset() == bucket(
                packages@,
                known_problematic(),
                packages@,
                MigrationRisk::KeepInHomebrew,
            ).to_multiset(),
            sorted_by_name(analysis_views(r.safe_to_migrate@)),
            sorted_by_name(analysis_views(r.risky@)),
            sorted_by_name(analysis_views(r.should_keep_in_homebrew@)),
    {
        let denylist = known_problematic_packages();
        analyze(packages, &denylist)
    }
}

} // verus!
