//! Bookkeeping of a migration run: the report of what was moved, the
//! choices of the interactive mode, and the state kept between runs.

use vstd::prelude::*;
use std::collections::HashMap;
use std::path::PathBuf;
use crate::package::{texts, BrewPackage};
use crate::report::{MigrateResult, MigrationReport};
use crate::text::text_eq;

verus! {

#[verifier::external_type_specification]
#[verifier::external_body]
pub struct ExPathBuf(PathBuf);

/// Relies on `PathBuf::new`: an empty path.
pub assume_specification[ PathBuf::new ]() -> PathBuf;

/// The characters of each pair of strings.
pub open spec fn text_pairs(v: Seq<(String, String)>) -> Seq<(Seq<char>, Seq<char>)> {
    v.map_values(|p: (String, String)| (p.0@, p.1@))
}

/// The reason given for each cask that is passed over.
pub open spec fn cask_skip_reason() -> Seq<char> {
    "Casks not yet supported"@
}

impl MigrationReport {
    /// Adds the outcome of moving one package: its name to the successful
    /// ones, or its name and reason to the failed ones.
    pub fn record(&mut self, result: MigrateResult)
        ensures
            final(self).total_formulae == old(self).total_formulae,
            final(self).total_casks == old(self).total_casks,
            text_pairs(final(self).skipped@) == text_pairs(old(self).skipped@),
            match result {
                MigrateResult::Success { name, version } => {
                    &&& texts(final(self).successful@) == texts(old(self).successful@).push(name@)
                    &&& text_pairs(final(self).failed@) == text_pairs(old(self).failed@)
                },
                MigrateResult::Failed { name, reason } => {
                    &&& texts(final(self).successful@) == texts(old(self).successful@)
                    &&& text_pairs(final(self).failed@) == text_pairs(old(self).failed@).push(
                        (name@, reason@),
                    )
                },
            },
    {
        match result {
            MigrateResult::Success { name, version } => {
                let ghost before = self.successful@;
                let ghost n = name@;
                self.successful.push(name);
                assert(texts(self.successful@) =~= texts(before).push(n));
            },
            MigrateResult::Failed { name, reason } => {
                let ghost before = self.failed@;
                let ghost e = (name@, reason@);
                self.failed.push((name, reason));
                assert(text_pairs(self.failed@) =~= text_pairs(before).push(e));
            },
        }
    }

    /// Adds the package to the skipped ones, as passed over by the user.
    pub fn skip_by_user(&mut self, package: &BrewPackage)
        ensures
            final(self).total_formulae == old(self).total_formulae,
            final(self).total_casks == old(self).total_casks,
            texts(final(self).successful@) == texts(old(self).successful@),
            text_pairs(final(self).failed@) == text_pairs(old(self).failed@),
            text_pairs(final(self).skipped@) == text_pairs(old(self).skipped@).push(
                (package@.name, "User skipped"@),
            ),
    {
        let ghost before = self.skipped@;
        self.skipped.push((package.name.clone(), String::from_str("User skipped")));
        assert(text_pairs(self.skipped@) =~= text_pairs(before).push(
            (package@.name, "User skipped"@),
        ));
    }

    /// Adds each cask to the skipped ones, with the reason that casks are
    /// not supported yet.
    pub fn skip_casks(&mut self, casks: &Vec<BrewPackage>)
        ensures
            final(self).total_formulae == old(self).total_formulae,
            final(self).total_casks == old(self).total_casks,
            texts(final(self).successful@) == texts(old(self).successful@),
            text_pairs(final(self).failed@) == text_pairs(old(self).failed@),
            text_pairs(final(self).skipped@) == text_pairs(old(self).skipped@) + casks@.map_values(
                |c: BrewPackage| (c@.name, cask_skip_reason()),
            ),
    {
        let ghost start = text_pairs(self.skipped@);
        let ghost all = casks@.map_values(|c: BrewPackage| (c@.name, cask_skip_reason()));
        let mut i: usize = 0;
        assert(start =~= start + all.subrange(0, 0));
        while i < casks.len()
            invariant
                i <= casks.len(),
                all == casks@.map_values(|c: BrewPackage| (c@.name, cask_skip_reason())),
                text_pairs(self.skipped@) == start + all.subrange(0, i as int),
                self.total_formulae == old(self).total_formulae,
                self.total_casks == old(self).total_casks,
                self.successful@ == old(self).successful@,
                self.failed@ == old(self).failed@,
            decreases casks.len() - i,
        {
            let name = casks[i].name.clone();
            let reason = String::from_str("Casks not yet supported");
            let ghost before = self.skipped@;
            self.skipped.push((name, reason));
            assert(text_pairs(self.skipped@) =~= text_pairs(before).push(all[i as int]));
            assert(all.subrange(0, i + 1) =~= all.subrange(0, i as int).push(all[i as int]));
            i = i + 1;
        }
        assert(all.subrange(0, casks.len() as int) =~= all);
    }
}

impl MigrateResult {
    /// The outcome of installing `package` on the target side: success, or
    /// failure with the given reason.
    pub fn of_install(package: &BrewPackage, failure: Option<String>) -> (r: MigrateResult)
        ensures
            match failure {
                None => r matches MigrateResult::Success { name, version } && name@
                    == package@.name && version@ == package@.version,
                Some(why) => r matches MigrateResult::Failed { name, reason } && name@
                    == package@.name && reason@ == why@,
            },
    {
        match failure {
            None => MigrateResult::Success {
                name: package.name.clone(),
                version: package.version.clone(),
            },
            Some(reason) => MigrateResult::Failed { name: package.name.clone(), reason },
        }
    }
}

/// What to do with the package on offer in the interactive mode.
#[derive(PartialEq, Eq, Structural, Clone, Copy, Debug)]
pub enum PromptAction {
    /// Move the package.
    Migrate,
    /// Pass over it, noting that the user did.
    Skip,
    /// End the session.
    Stop,
    /// Go on to the next package without a note.
    Ignore,
}

/// The menu entries of the interactive prompt, in order.
pub open spec fn menu_choice(choice: Option<usize>) -> PromptAction {
    match choice {
        Some(0) => PromptAction::Migrate,
        Some(1) => PromptAction::Skip,
        Some(2) => PromptAction::Migrate,
        Some(3) => PromptAction::Stop,
        None => PromptAction::Stop,
        Some(_) => PromptAction::Ignore,
    }
}

/// One step of the interactive mode. `all_remaining` tells whether the
/// user asked to move every remaining package, and `choice` is the menu
/// entry picked at the prompt (`None` when the prompt failed), which counts
/// only when the prompt was shown. Gives the new `all_remaining` and the
/// action.
pub fn prompt_step(all_remaining: bool, choice: Option<usize>) -> (r: (bool, PromptAction))
    ensures
        all_remaining ==> r == (true, PromptAction::Migrate),
        !all_remaining ==> r == (choice == Some(2usize), menu_choice(choice)),
{
    if all_remaining {
        return (true, PromptAction::Migrate);
    }
    match choice {
        Some(0) => (false, PromptAction::Migrate),
        Some(1) => (false, PromptAction::Skip),
        Some(2) => (true, PromptAction::Migrate),
        Some(3) => (false, PromptAction::Stop),
        None => (false, PromptAction::Stop),
        Some(_) => (false, PromptAction::Ignore),
    }
}

/// The state kept between runs: what was moved and what failed.
#[derive(Debug)]
pub struct MigrationState {
    pub migrated_packages: HashMap<String, BrewPackage>,
    pub failed_packages: Vec<String>,
    pub homebrew_prefix: PathBuf,
}

impl Default for MigrationState {
    fn default() -> (r: MigrationState)
        ensures
            r.migrated_packages@ == Map::<String, BrewPackage>::empty(),
            r.failed_packages@.len() == 0,
    {
        MigrationState {
            migrated_packages: HashMap::new(),
            failed_packages: Vec::new(),
            homebrew_prefix: PathBuf::new(),
        }
    }
}

/// The first package of `pkgs` named `n`, if any.
pub open spec fn first_named(pkgs: Seq<BrewPackage>, n: Seq<char>) -> Option<int>
    decreases pkgs.len(),
{
    if pkgs.len() == 0 {
        None
    } else if pkgs[0]@.name == n {
        Some(0)
    } else {
        match first_named(pkgs.drop_first(), n) {
            Some(i) => Some(i + 1),
            None => None,
        }
    }
}

fn find_first_named(pkgs: &Vec<BrewPackage>, name: &str) -> (r: Option<usize>)
    ensures
        match r {
            Some(i) => i < pkgs@.len() && first_named(pkgs@, name@) == Some(i as int),
            None => first_named(pkgs@, name@) == None::<int>,
        },
{
    let mut i: usize = 0;
    assert(pkgs@.subrange(0, pkgs@.len() as int) =~= pkgs@);
    while i < pkgs.len()
        invariant
            i <= pkgs.len(),
            first_named(pkgs@, name@) == match first_named(pkgs@.subrange(i as int, pkgs@.len() as int), name@) {
                Some(k) => Some(k + i),
                None => None::<int>,
            },
        decreases pkgs.len() - i,
    {
        let ghost rest = pkgs@.subrange(i as int, pkgs@.len() as int);
        assert(rest.drop_first() =~= pkgs@.subrange(i + 1, pkgs@.len() as int));
        assert(rest[0] == pkgs@[i as int]);
        if text_eq(pkgs[i].name.as_str(), name) {
            return Some(i);
        }
        i = i + 1;
    }
    None
}

impl MigrationState {
    /// Records a run: the prefix it ran on, each successful name that is
    /// among the formulae (with the first formula of that name) as moved,
    /// and each failed name as failed.
    pub fn record_run(
        &mut self,
        homebrew_prefix: PathBuf,
        report: &MigrationReport,
        formulae: &Vec<BrewPackage>,
    )
        ensures
            final(self).homebrew_prefix == homebrew_prefix,
            texts(final(self).failed_packages@) == texts(old(self).failed_packages@)
                + text_pairs(report.failed@).map_values(|p: (Seq<char>, Seq<char>)| p.0),
    {
        self.homebrew_prefix = homebrew_prefix;
        let mut i: usize = 0;
        while i < report.successful.len()
            invariant
                i <= report.successful.len(),
                self.failed_packages@ == old(self).failed_packages@,
                self.homebrew_prefix == homebrew_prefix,
            decreases report.successful.len() - i,
        {
            let name = &report.successful[i];
            match find_first_named(formulae, name.as_str()) {
                Some(j) => {
                    self.migrated_packages.insert(name.clone(), formulae[j].duplicate());
                },
                None => {},
            }
            i = i + 1;
        }
        let ghost start = texts(self.failed_packages@);
        let ghost all = text_pairs(report.failed@).map_values(|p: (Seq<char>, Seq<char>)| p.0);
        let mut k: usize = 0;
        assert(start =~= start + all.subrange(0, 0));
        while k < report.failed.len()
            invariant
                k <= report.failed.len(),
                all == text_pairs(report.failed@).map_values(|p: (Seq<char>, Seq<char>)| p.0),
                texts(self.failed_packages@) == start + all.subrange(0, k as int),
                start == texts(old(self).failed_packages@),
                self.homebrew_prefix == homebrew_prefix,
            decreases report.failed.len() - k,
        {
            let name = report.failed[k].0.clone();
            let ghost before = self.failed_packages@;
            self.failed_packages.push(name);
            assert(texts(self.failed_packages@) =~= texts(before).push(all[k as int]));
            assert(all.subrange(0, k + 1) =~= all.subrange(0, k as int).push(all[k as int]));
            k = k + 1;
        }
        assert(all.subrange(0, report.failed.len() as int) =~= all);
    }
}

} // verus!
