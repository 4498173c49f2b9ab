//! Status records read from Hydra's pages, each with its view.

use vstd::prelude::*;

use crate::text::opt_view;

verus! {

/// Status of a build, an evaluation or a placeholder record.
#[derive(Debug, Clone, Copy, PartialEq, Eq, Structural)]
pub enum StatusIcon {
    Succeeded,
    Failed,
    Cancelled,
    Queued,
    Warning,
}

impl StatusIcon {
    /// The symbol that stands for the status.
    pub fn symbol(&self) -> (r: &'static str)
        ensures
            r@ == icon_symbol(*self),
    {
        match self {
            StatusIcon::Succeeded => "✔",
            StatusIcon::Failed => "✖",
            StatusIcon::Cancelled => "⏹",
            StatusIcon::Queued => "⧖",
            StatusIcon::Warning => "⚠",
        }
    }
}

pub open spec fn icon_symbol(i: StatusIcon) -> Seq<char> {
    match i {
        StatusIcon::Succeeded => "✔"@,
        StatusIcon::Failed => "✖"@,
        StatusIcon::Cancelled => "⏹"@,
        StatusIcon::Queued => "⧖"@,
        StatusIcon::Warning => "⚠"@,
    }
}

/// One build of a job, or one removed job.
#[derive(Debug, Clone)]
pub struct BuildStatus {
    pub icon: StatusIcon,
    pub success: bool,
    pub status: String,
    pub timestamp: Option<String>,
    pub build_id: Option<String>,
    pub build_url: Option<String>,
    pub name: Option<String>,
    pub arch: Option<String>,
    /// The record comes from a build listing with evaluation columns.
    pub evals: bool,
    pub job_name: Option<String>,
}

pub struct BuildStatusView {
    pub icon: StatusIcon,
    pub success: bool,
    pub status: Seq<char>,
    pub timestamp: Option<Seq<char>>,
    pub build_id: Option<Seq<char>>,
    pub build_url: Option<Seq<char>>,
    pub name: Option<Seq<char>>,
    pub arch: Option<Seq<char>>,
    pub evals: bool,
    pub job_name: Option<Seq<char>>,
}

impl View for BuildStatus {
    type V = BuildStatusView;

    open spec fn view(&self) -> BuildStatusView {
        BuildStatusView {
            icon: self.icon,
            success: self.success,
            status: self.status@,
            timestamp: opt_view(self.timestamp),
            build_id: opt_view(self.build_id),
            build_url: opt_view(self.build_url),
            name: opt_view(self.name),
            arch: opt_view(self.arch),
            evals: self.evals,
            job_name: opt_view(self.job_name),
        }
    }
}

/// A build record with the given icon and status text and nothing else.
pub open spec fn bare_build(icon: StatusIcon, status: Seq<char>) -> BuildStatusView {
    BuildStatusView {
        icon,
        success: false,
        status,
        timestamp: None,
        build_id: None,
        build_url: None,
        name: None,
        arch: None,
        evals: false,
        job_name: None,
    }
}

impl BuildStatus {
    /// A record that holds only an icon and a status text.
    pub fn bare(icon: StatusIcon, status: String) -> (r: BuildStatus)
        ensures
            r@ == bare_build(icon, status@),
    {
        BuildStatus {
            icon,
            success: false,
            status,
            timestamp: None,
            build_id: None,
            build_url: None,
            name: None,
            arch: None,
            evals: false,
            job_name: None,
        }
    }
}

pub open spec fn builds_view(v: Seq<BuildStatus>) -> Seq<BuildStatusView> {
    v.map_values(|b: BuildStatus| b@)
}

/// One evaluation of a jobset.
#[derive(Debug, Clone)]
pub struct EvalStatus {
    pub icon: StatusIcon,
    pub finished: Option<bool>,
    pub id: Option<u64>,
    pub url: Option<String>,
    pub datetime: Option<String>,
    pub relative: Option<String>,
    pub timestamp: Option<u64>,
    pub status: String,
    pub short_rev: Option<String>,
    pub input_changes: Option<String>,
    pub succeeded: Option<u64>,
    pub failed: Option<u64>,
    pub queued: Option<u64>,
    pub delta: Option<String>,
}

pub struct EvalStatusView {
    pub icon: StatusIcon,
    pub finished: Option<bool>,
    pub id: Option<u64>,
    pub url: Option<Seq<char>>,
    pub datetime: Option<Seq<char>>,
    pub relative: Option<Seq<char>>,
    pub timestamp: Option<u64>,
    pub status: Seq<char>,
    pub short_rev: Option<Seq<char>>,
    pub input_changes: Option<Seq<char>>,
    pub succeeded: Option<u64>,
    pub failed: Option<u64>,
    pub queued: Option<u64>,
    pub delta: Option<Seq<char>>,
}

impl View for EvalStatus {
    type V = EvalStatusView;

    open spec fn view(&self) -> EvalStatusView {
        EvalStatusView {
            icon: self.icon,
            finished: self.finished,
            id: self.id,
            url: opt_view(self.url),
            datetime: opt_view(self.datetime),
            relative: opt_view(self.relative),
            timestamp: self.timestamp,
            status: self.status@,
            short_rev: opt_view(self.short_rev),
            input_changes: opt_view(self.input_changes),
            succeeded: self.succeeded,
            failed: self.failed,
            queued: self.queued,
            delta: opt_view(self.delta),
        }
    }
}

/// An evaluation record with the given icon and status text and nothing else.
pub open spec fn bare_eval(icon: StatusIcon, status: Seq<char>) -> EvalStatusView {
    EvalStatusView {
        icon,
        finished: None,
        id: None,
        url: None,
        datetime: None,
        relative: None,
        timestamp: None,
        status,
        short_rev: None,
        input_changes: None,
        succeeded: None,
        failed: None,
        queued: None,
        delta: None,
    }
}

impl EvalStatus {
    /// A record that holds only an icon and a status text.
    pub fn bare(icon: StatusIcon, status: String) -> (r: EvalStatus)
        ensures
            r@ == bare_eval(icon, status@),
    {
        EvalStatus {
            icon,
            finished: None,
            id: None,
            url: None,
            datetime: None,
            relative: None,
            timestamp: None,
            status,
            short_rev: None,
            input_changes: None,
            succeeded: None,
            failed: None,
            queued: None,
            delta: None,
        }
    }
}

pub open spec fn evals_view(v: Seq<EvalStatus>) -> Seq<EvalStatusView> {
    v.map_values(|e: EvalStatus| e@)
}

/// One input of an evaluation or of a build.
#[derive(Debug, Clone)]
pub struct EvalInput {
    pub name: Option<String>,
    pub input_type: Option<String>,
    pub value: Option<String>,
    pub revision: Option<String>,
    pub store_path: Option<String>,
}

pub struct EvalInputView {
    pub name: Option<Seq<char>>,
    pub input_type: Option<Seq<char>>,
    pub value: Option<Seq<char>>,
    pub revision: Option<Seq<char>>,
    pub store_path: Option<Seq<char>>,
}

impl View for EvalInput {
    type V = EvalInputView;

    open spec fn view(&self) -> EvalInputView {
        EvalInputView {
            name: opt_view(self.name),
            input_type: opt_view(self.input_type),
            value: opt_view(self.value),
            revision: opt_view(self.revision),
            store_path: opt_view(self.store_path),
        }
    }
}

/// A change of one input between an evaluation and the one before.
#[derive(Debug, Clone)]
pub struct EvalInputChanges {
    pub input: String,
    pub description: String,
    pub url: Option<String>,
    pub revs: Option<(String, String)>,
    pub short_revs: Option<(String, String)>,
}

pub open spec fn pair_view(p: Option<(String, String)>) -> Option<(Seq<char>, Seq<char>)> {
    match p {
        Some((a, b)) => Some((a@, b@)),
        None => None,
    }
}

pub struct EvalInputChangesView {
    pub input: Seq<char>,
    pub description: Seq<char>,
    pub url: Option<Seq<char>>,
    pub revs: Option<(Seq<char>, Seq<char>)>,
    pub short_revs: Option<(Seq<char>, Seq<char>)>,
}

impl View for EvalInputChanges {
    type V = EvalInputChangesView;

    open spec fn view(&self) -> EvalInputChangesView {
        EvalInputChangesView {
            input: self.input@,
            description: self.description@,
            url: opt_view(self.url),
            revs: pair_view(self.revs),
            short_revs: pair_view(self.short_revs),
        }
    }
}

} // verus!
