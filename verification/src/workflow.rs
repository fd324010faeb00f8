//! Where a feature stands in the Spec-Kit workflow, read from its artifacts.
use vstd::prelude::*;
use crate::text::{chars_of, line_ranges, lines, starts_with, starts_with_range, trim, trim_range, trim_start};

verus! {

#[derive(Debug, Clone, Copy, PartialEq, Eq, PartialOrd, Ord, Structural)]
pub enum WorkflowStage {
    NotStarted,
    Specified,
    Clarified,
    Planned,
    TasksGenerated,
    Analyzed,
    Implementing,
    Implemented,
    /// Artifacts exist but don't match any recognized Spec-Kit template convention
    /// (e.g. produced by an incompatible template version) — a terminal degraded
    /// display state, not a step in the lifecycle sequence.
    Unknown,
}

pub open spec fn stage_label(s: WorkflowStage) -> Seq<char> {
    match s {
        WorkflowStage::NotStarted => "new"@,
        WorkflowStage::Specified => "spec"@,
        WorkflowStage::Clarified => "clar"@,
        WorkflowStage::Planned => "plan"@,
        WorkflowStage::TasksGenerated => "task"@,
        WorkflowStage::Analyzed => "anly"@,
        WorkflowStage::Implementing => "impl"@,
        WorkflowStage::Implemented => "impl"@,
        WorkflowStage::Unknown => "unk"@,
    }
}

impl WorkflowStage {
    /// Four-letter badge text.
    pub fn label(&self) -> (r: &'static str)
        ensures
            r@ == stage_label(*self),
    {
        match self {
            WorkflowStage::NotStarted => "new",
            WorkflowStage::Specified => "spec",
            WorkflowStage::Clarified => "clar",
            WorkflowStage::Planned => "plan",
            WorkflowStage::TasksGenerated => "task",
            WorkflowStage::Analyzed => "anly",
            WorkflowStage::Implementing => "impl",
            WorkflowStage::Implemented => "impl",
            WorkflowStage::Unknown => "unk",
        }
    }
}

/// A line (after leading blanks) that is a Markdown heading or a checklist item.
pub open spec fn structural_line(line: Seq<char>) -> bool {
    let t = trim_start(line);
    ||| starts_with(t, "#"@)
    ||| starts_with(t, "- [ ]"@)
    ||| starts_with(t, "- [x]"@)
    ||| starts_with(t, "- [X]"@)
}

/// A tasks or spec document is recognizable if it's empty (freshly generated, not
/// yet populated) or holds at least one Markdown heading or checklist line —
/// the minimal shape every Spec-Kit template produces.
pub open spec fn recognized_structure(content: Seq<char>) -> bool {
    trim(content).len() == 0 || exists|k: int|
        0 <= k < lines(content).len() && structural_line(#[trigger] lines(content)[k])
}

/// Some line starts with `## Clarification`.
pub open spec fn has_clarifications(content: Seq<char>) -> bool {
    exists|k: int|
        0 <= k < lines(content).len() && starts_with(
            #[trigger] lines(content)[k],
            "## Clarification"@,
        )
}

pub open spec fn done_line(t: Seq<char>) -> bool {
    starts_with(t, "- [x]"@) || starts_with(t, "- [X]"@)
}

pub open spec fn open_line(t: Seq<char>) -> bool {
    starts_with(t, "- [ ]"@)
}

/// Checked items among the lines.
pub open spec fn count_done(ls: Seq<Seq<char>>) -> nat
    decreases ls.len(),
{
    if ls.len() == 0 {
        0
    } else {
        count_done(ls.drop_last()) + if done_line(trim(ls.last())) {
            1nat
        } else {
            0nat
        }
    }
}

/// Checklist items among the lines, checked or not.
pub open spec fn count_total(ls: Seq<Seq<char>>) -> nat
    decreases ls.len(),
{
    if ls.len() == 0 {
        0
    } else {
        count_total(ls.drop_last()) + if done_line(trim(ls.last())) || open_line(trim(ls.last())) {
            1nat
        } else {
            0nat
        }
    }
}

/// `(done, total)` checklist counts of a tasks file, or nothing when it has no
/// checklist items.
pub open spec fn tasks_counts(content: Seq<char>) -> Option<(nat, nat)> {
    let total = count_total(lines(content));
    if total == 0 {
        None
    } else {
        Some((count_done(lines(content)), total))
    }
}

/// Literal patterns of the markdown checks.
struct MdPatterns {
    hash: Vec<char>,
    open: Vec<char>,
    done_lower: Vec<char>,
    done_upper: Vec<char>,
    clar: Vec<char>,
}

impl MdPatterns {
    spec fn wf(&self) -> bool {
        &&& self.hash@ == "#"@
        &&& self.open@ == "- [ ]"@
        &&& self.done_lower@ == "- [x]"@
        &&& self.done_upper@ == "- [X]"@
        &&& self.clar@ == "## Clarification"@
    }

    fn new() -> (r: Self)
        ensures
            r.wf(),
    {
        MdPatterns {
            hash: chars_of("#"),
            open: chars_of("- [ ]"),
            done_lower: chars_of("- [x]"),
            done_upper: chars_of("- [X]"),
            clar: chars_of("## Clarification"),
        }
    }
}

/// Whether a Markdown file's text has a shape this version can read.
pub fn has_recognized_markdown_structure(content: &str) -> (r: bool)
    ensures
        r == recognized_structure(content@),
{
    let v = chars_of(content);
    let pats = MdPatterns::new();
    let (a, b) = trim_range(&v, 0, v.len());
    assert(v@.subrange(0, v@.len() as int) =~= v@);
    if a == b {
        return true;
    }
    let ls = line_ranges(&v);
    let mut k: usize = 0;
    while k < ls.len()
        invariant
            v@ == content@,
            pats.wf(),
            ls@.len() == lines(v@).len(),
            forall|j: int|
                0 <= j < ls@.len() ==> {
                    &&& (#[trigger] ls@[j]).0 <= ls@[j].1 <= v@.len()
                    &&& v@.subrange(ls@[j].0 as int, ls@[j].1 as int) == lines(v@)[j]
                },
            k <= ls@.len(),
            forall|j: int| 0 <= j < k ==> !structural_line(#[trigger] lines(v@)[j]),
        decreases ls@.len() - k,
    {
        let (lo, hi) = ls[k];
        let (t, _e) = trim_range(&v, lo, hi);
        if starts_with_range(&v, t, hi, &pats.hash) || starts_with_range(&v, t, hi, &pats.open)
            || starts_with_range(&v, t, hi, &pats.done_lower) || starts_with_range(
            &v,
            t,
            hi,
            &pats.done_upper,
        ) {
            assert(structural_line(lines(v@)[k as int]));
            return true;
        }
        k = k + 1;
    }
    false
}

/// Whether a spec's text has a `## Clarification...` line.
pub fn spec_has_clarifications(content: &str) -> (r: bool)
    ensures
        r == has_clarifications(content@),
{
    let v = chars_of(content);
    let pats = MdPatterns::new();
    let ls = line_ranges(&v);
    let mut k: usize = 0;
    while k < ls.len()
        invariant
            v@ == content@,
            pats.wf(),
            ls@.len() == lines(v@).len(),
            forall|j: int|
                0 <= j < ls@.len() ==> {
                    &&& (#[trigger] ls@[j]).0 <= ls@[j].1 <= v@.len()
                    &&& v@.subrange(ls@[j].0 as int, ls@[j].1 as int) == lines(v@)[j]
                },
            k <= ls@.len(),
            forall|j: int|
                0 <= j < k ==> !starts_with(#[trigger] lines(v@)[j], "## Clarification"@),
        decreases ls@.len() - k,
    {
        let (lo, hi) = ls[k];
        if starts_with_range(&v, lo, hi, &pats.clar) {
            assert(starts_with(lines(v@)[k as int], "## Clarification"@));
            return true;
        }
        k = k + 1;
    }
    false
}

/// `(done, total)` checklist counts of a tasks file's text.
pub fn parse_tasks_progress(content: &str) -> (r: Option<(usize, usize)>)
    ensures
        (r is None) == (tasks_counts(content@) is None),
        r matches Some(p) ==> tasks_counts(content@) == Some((p.0 as nat, p.1 as nat)),
{
    let v = chars_of(content);
    let pats = MdPatterns::new();
    let ls = line_ranges(&v);
    let ghost all = lines(v@);
    let mut done: usize = 0;
    let mut total: usize = 0;
    let mut k: usize = 0;
    while k < ls.len()
        invariant
            v@ == content@,
            pats.wf(),
            all == lines(v@),
            ls@.len() == all.len(),
            forall|j: int|
                0 <= j < ls@.len() ==> {
                    &&& (#[trigger] ls@[j]).0 <= ls@[j].1 <= v@.len()
                    &&& v@.subrange(ls@[j].0 as int, ls@[j].1 as int) == all[j]
                },
            k <= ls@.len(),
            done <= total <= k,
            done == count_done(all.take(k as int)),
            total == count_total(all.take(k as int)),
        decreases ls@.len() - k,
    {
        assert(all.take(k + 1).drop_last() =~= all.take(k as int));
        assert(all.take(k + 1).last() == all[k as int]);
        let (lo, hi) = ls[k];
        let (a, b) = trim_range(&v, lo, hi);
        if starts_with_range(&v, a, b, &pats.done_lower) || starts_with_range(
            &v,
            a,
            b,
            &pats.done_upper,
        ) {
            done = done + 1;
            total = total + 1;
        } else if starts_with_range(&v, a, b, &pats.open) {
            total = total + 1;
        }
        k = k + 1;
    }
    assert(all.take(k as int) =~= all);
    if total == 0 {
        None
    } else {
        Some((done, total))
    }
}

/// What is known of an artifact file: absent, present but unreadable, or
/// its text.
#[derive(Debug)]
pub enum ArtifactText {
    Missing,
    Unreadable,
    Text(String),
}

/// What stage inference reads of a feature's artifacts.
#[derive(Debug)]
pub struct StageInputs {
    pub spec: ArtifactText,
    pub plan_present: bool,
    pub tasks: ArtifactText,
}

/// An unreadable file counts as recognized: reading it is a separate concern.
pub open spec fn text_recognized(a: ArtifactText) -> bool {
    match a {
        ArtifactText::Text(s) => recognized_structure(s@),
        _ => true,
    }
}

pub open spec fn text_counts(a: ArtifactText) -> Option<(nat, nat)> {
    match a {
        ArtifactText::Text(s) => tasks_counts(s@),
        _ => None,
    }
}

pub open spec fn text_clarified(a: ArtifactText) -> bool {
    match a {
        ArtifactText::Text(s) => has_clarifications(s@),
        _ => false,
    }
}

/// The stage a feature's artifacts show.
pub open spec fn stage_of(inp: StageInputs) -> WorkflowStage {
    let tasks_present = !(inp.tasks is Missing);
    let spec_present = !(inp.spec is Missing);
    if tasks_present && !text_recognized(inp.tasks) {
        WorkflowStage::Unknown
    } else if !tasks_present && spec_present && !inp.plan_present && !text_recognized(inp.spec) {
        WorkflowStage::Unknown
    } else if text_counts(inp.tasks) matches Some((d, t)) && t > 0 && d >= t {
        WorkflowStage::Implemented
    } else if text_counts(inp.tasks) matches Some((d, t)) && d > 0 {
        WorkflowStage::Implementing
    } else if tasks_present {
        WorkflowStage::TasksGenerated
    } else if inp.plan_present {
        WorkflowStage::Planned
    } else if spec_present && text_clarified(inp.spec) {
        WorkflowStage::Clarified
    } else if spec_present {
        WorkflowStage::Specified
    } else {
        WorkflowStage::NotStarted
    }
}

/// The workflow stage shown by a feature's spec, plan and tasks files.
pub fn infer_stage(inp: &StageInputs) -> (r: WorkflowStage)
    ensures
        r == stage_of(*inp),
{
    match &inp.tasks {
        ArtifactText::Text(t) => {
            if !has_recognized_markdown_structure(t.as_str()) {
                return WorkflowStage::Unknown;
            }
        },
        ArtifactText::Unreadable => {},
        ArtifactText::Missing => {
            match &inp.spec {
                ArtifactText::Text(s) => {
                    if !inp.plan_present && !has_recognized_markdown_structure(s.as_str()) {
                        return WorkflowStage::Unknown;
                    }
                },
                _ => {},
            }
        },
    }
    let status = match &inp.tasks {
        ArtifactText::Text(t) => parse_tasks_progress(t.as_str()),
        _ => None,
    };
    match status {
        Some((done, total)) => {
            if total > 0 && done >= total {
                return WorkflowStage::Implemented;
            }
            if done > 0 {
                return WorkflowStage::Implementing;
            }
        },
        None => {},
    }
    match &inp.tasks {
        ArtifactText::Missing => {},
        _ => {
            return WorkflowStage::TasksGenerated;
        },
    }
    if inp.plan_present {
        return WorkflowStage::Planned;
    }
    match &inp.spec {
        ArtifactText::Missing => WorkflowStage::NotStarted,
        ArtifactText::Unreadable => WorkflowStage::Specified,
        ArtifactText::Text(s) => {
            if spec_has_clarifications(s.as_str()) {
                WorkflowStage::Clarified
            } else {
                WorkflowStage::Specified
            }
        },
    }
}

/// Checklist progress of a tasks file.
pub struct TasksProgress {
    pub done: usize,
    pub total: usize,
}

impl TasksProgress {
    /// Progress read from the text of a tasks file; nothing when the file has
    /// no checklist items.
    pub fn from_file(content: &str) -> (r: Option<Self>)
        ensures
            (r is None) == (tasks_counts(content@) is None),
            r matches Some(p) ==> tasks_counts(content@) == Some((p.done as nat, p.total as nat)),
    {
        match parse_tasks_progress(content) {
            Some((done, total)) => Some(TasksProgress { done, total }),
            None => None,
        }
    }
}

/// A file whose checklist items are all checked shows the feature as
/// implemented; one with some but not all checked, as being implemented.
pub proof fn law_checklist_progress(inp: StageInputs)
    requires
        text_recognized(inp.tasks),
        text_counts(inp.tasks) is Some,
    ensures
        text_counts(inp.tasks) matches Some((d, t)) && d >= t ==> stage_of(inp)
            == WorkflowStage::Implemented,
        text_counts(inp.tasks) matches Some((d, t)) && 0 < d && d < t ==> stage_of(inp)
            == WorkflowStage::Implementing,
{
}

/// With no tasks file, a plan makes the feature Planned whatever its spec
/// says: a plan outranks clarifications and an unrecognized spec alike.
pub proof fn law_plan_without_tasks(inp: StageInputs)
    requires
        inp.tasks is Missing,
        inp.plan_present,
    ensures
        stage_of(inp) == WorkflowStage::Planned,
{
}

/// The stages below a plan: with neither tasks nor plan, no spec means not
/// started, an unreadable or unclarified recognized spec means specified, and
/// a recognized spec with clarifications means clarified. A tasks file whose
/// checklist has nothing checked yet (or that cannot be read) means the
/// tasks are generated, whatever the spec and plan.
pub proof fn law_stage_ladder(inp: StageInputs)
    ensures
        inp.tasks is Missing && !inp.plan_present && inp.spec is Missing ==> stage_of(inp)
            == WorkflowStage::NotStarted,
        inp.tasks is Missing && !inp.plan_present && inp.spec is Unreadable ==> stage_of(inp)
            == WorkflowStage::Specified,
        inp.tasks is Missing && !inp.plan_present && text_recognized(inp.spec) && !(inp.spec is Missing)
            ==> stage_of(inp) == if text_clarified(inp.spec) {
            WorkflowStage::Clarified
        } else {
            WorkflowStage::Specified
        },
        inp.tasks is Unreadable ==> stage_of(inp) == WorkflowStage::TasksGenerated,
        text_recognized(inp.tasks) && !(inp.tasks is Missing) && (text_counts(inp.tasks) is None
            || (text_counts(inp.tasks) matches Some((d, t)) && d == 0)) ==> stage_of(inp)
            == WorkflowStage::TasksGenerated,
{
}

} // verus!
