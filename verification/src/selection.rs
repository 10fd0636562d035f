//! The ways in which a target can be chosen.

use crate::config::Config;
use vstd::prelude::*;

verus! {

/// A way to choose the target of a build.
#[derive(Debug, Clone, Copy, PartialEq, Eq)]
pub enum RepoSelectionMode {
    Manual,
    History,
    Account,
}

/// The ways that are offered, and the one that is marked at first.
#[derive(Debug, PartialEq, Eq)]
pub struct SelectionMenu {
    pub modes: Vec<RepoSelectionMode>,
    pub default_index: usize,
}

/// How a way to choose the target is presented.
pub open spec fn mode_label(mode: RepoSelectionMode) -> Seq<char> {
    match mode {
        RepoSelectionMode::Manual => "手动输入 namespace/repo/branch"@,
        RepoSelectionMode::History => "从过往成功记录选择"@,
        RepoSelectionMode::Account => "从账号名下获取仓库"@,
    }
}

impl RepoSelectionMode {
    /// The line that presents this way to choose the target.
    pub fn label(self) -> (r: String)
        ensures
            r@ == mode_label(self),
            r@ == (match self {
                RepoSelectionMode::Manual => "手动输入 namespace/repo/branch"@,
                RepoSelectionMode::History => "从过往成功记录选择"@,
                RepoSelectionMode::Account => "从账号名下获取仓库"@,
            }),
    {
        match self {
            RepoSelectionMode::Manual => "手动输入 namespace/repo/branch".to_owned(),
            RepoSelectionMode::History => "从过往成功记录选择".to_owned(),
            RepoSelectionMode::Account => "从账号名下获取仓库".to_owned(),
        }
    }
}

/// Offers the ways to choose a target. The record of successful builds is offered, and
/// marked at first, exactly when there is something in it.
pub fn selection_menu(config: &Config) -> (r: SelectionMenu)
    ensures
        config@.successful_targets.len() == 0 ==> r.modes@ == seq![
            RepoSelectionMode::Manual,
            RepoSelectionMode::Account,
        ] && r.default_index == 0,
        config@.successful_targets.len() > 0 ==> r.modes@ == seq![
            RepoSelectionMode::Manual,
            RepoSelectionMode::History,
            RepoSelectionMode::Account,
        ] && r.default_index == 1,
        config.successful_targets@.len() == 0 ==> r.modes@ == seq![
            RepoSelectionMode::Manual,
            RepoSelectionMode::Account,
        ] && r.default_index == 0,
        config.successful_targets@.len() > 0 ==> r.modes@ == seq![
            RepoSelectionMode::Manual,
            RepoSelectionMode::History,
            RepoSelectionMode::Account,
        ] && r.default_index == 1,
{
    let mut modes: Vec<RepoSelectionMode> = vec![
        RepoSelectionMode::Manual,
        RepoSelectionMode::Account,
    ];
    if config.successful_targets.is_empty() {
        SelectionMenu { modes, default_index: 0 }
    } else {
        modes.insert(1, RepoSelectionMode::History);
        SelectionMenu { modes, default_index: 1 }
    }
}

} // verus!
