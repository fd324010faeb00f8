//! Actions run through the `specify` CLI, the command line each one becomes,
//! and the life cycle of a job running one.
use vstd::prelude::*;
use crate::registry::{CatalogTarget, catalog_noun};
use crate::text::{decimal, decimal_u8};

verus! {

#[derive(Debug, Clone, Copy, PartialEq, Eq, Structural)]
pub enum CliTarget {
    Extension,
    Preset,
}

pub open spec fn target_noun(t: CliTarget) -> Seq<char> {
    match t {
        CliTarget::Extension => "extension"@,
        CliTarget::Preset => "preset"@,
    }
}

impl CliTarget {
    /// The CLI noun: `extension` or `preset`.
    pub fn cmd_noun(&self) -> (r: &'static str)
        ensures
            r@ == target_noun(*self),
    {
        match self {
            CliTarget::Extension => "extension",
            CliTarget::Preset => "preset",
        }
    }
}

/// A `specify` invocation. `dev_path` holds the development path as text.
#[derive(Debug)]
pub enum CliAction {
    Search { target: CliTarget, query: Option<String>, tag: Option<String>, author: Option<String> },
    Info { target: CliTarget, id: String },
    List { target: CliTarget, available: bool },
    Add {
        target: CliTarget,
        id: String,
        priority: Option<u8>,
        dev_path: Option<String>,
        from_url: Option<String>,
    },
    Remove { target: CliTarget, id: String, keep_config: bool, force: bool },
    Enable { target: CliTarget, id: String },
    Disable { target: CliTarget, id: String },
    SetPriority { target: CliTarget, id: String, priority: u8 },
    Update { target: CliTarget, id: Option<String> },
    Resolve { name: String },
    CatalogList { target: CatalogTarget },
    /// `install_allowed: Some(_)` passes `--install-allowed` or
    /// `--no-install-allowed`; `None` omits the flag.
    CatalogAdd {
        target: CatalogTarget,
        url: String,
        name: String,
        priority: Option<u8>,
        install_allowed: Option<bool>,
    },
    CatalogRemove { target: CatalogTarget, name: String },
    IntegrationList,
    IntegrationInstall { key: String },
    IntegrationUninstall { key: String },
    IntegrationUpgrade { key: Option<String> },
    IntegrationUseDefault { key: String },
    IntegrationSwitch { key: String },
    IntegrationStatus { key: String },
    IntegrationGetInfo { key: String },
    WorkflowAdd { source: String },
    WorkflowRemove { id: String },
    WorkflowRun { source: String },
    WorkflowResume { run_id: String },
    WorkflowStatus { run_id: Option<String> },
    WorkflowGetInfo { id: String },
    WorkflowSearch { query: Option<String> },
    SelfCheck,
    SelfUpgrade,
}

impl Clone for CliAction {
    fn clone(&self) -> (r: Self)
        ensures
            r == *self,
    {
        match self {
            CliAction::Search { target, query, tag, author } => CliAction::Search {
                target: *target,
                query: query.clone(),
                tag: tag.clone(),
                author: author.clone(),
            },
            CliAction::Info { target, id } => CliAction::Info { target: *target, id: id.clone() },
            CliAction::List { target, available } => CliAction::List {
                target: *target,
                available: *available,
            },
            CliAction::Add { target, id, priority, dev_path, from_url } => CliAction::Add {
                target: *target,
                id: id.clone(),
                priority: *priority,
                dev_path: dev_path.clone(),
                from_url: from_url.clone(),
            },
            CliAction::Remove { target, id, keep_config, force } => CliAction::Remove {
                target: *target,
                id: id.clone(),
                keep_config: *keep_config,
                force: *force,
            },
            CliAction::Enable { target, id } => CliAction::Enable {
                target: *target,
                id: id.clone(),
            },
            CliAction::Disable { target, id } => CliAction::Disable {
                target: *target,
                id: id.clone(),
            },
            CliAction::SetPriority { target, id, priority } => CliAction::SetPriority {
                target: *target,
                id: id.clone(),
                priority: *priority,
            },
            CliAction::Update { target, id } => CliAction::Update {
                target: *target,
                id: id.clone(),
            },
            CliAction::Resolve { name } => CliAction::Resolve { name: name.clone() },
            CliAction::CatalogList { target } => CliAction::CatalogList { target: *target },
            CliAction::CatalogAdd { target, url, name, priority, install_allowed } =>
                CliAction::CatalogAdd {
                target: *target,
                url: url.clone(),
                name: name.clone(),
                priority: *priority,
                install_allowed: *install_allowed,
            },
            CliAction::CatalogRemove { target, name } => CliAction::CatalogRemove {
                target: *target,
                name: name.clone(),
            },
            CliAction::IntegrationList => CliAction::IntegrationList,
            CliAction::IntegrationInstall { key } => CliAction::IntegrationInstall {
                key: key.clone(),
            },
            CliAction::IntegrationUninstall { key } => CliAction::IntegrationUninstall {
                key: key.clone(),
            },
            CliAction::IntegrationUpgrade { key } => CliAction::IntegrationUpgrade {
                key: key.clone(),
            },
            CliAction::IntegrationUseDefault { key } => CliAction::IntegrationUseDefault {
                key: key.clone(),
            },
            CliAction::IntegrationSwitch { key } => CliAction::IntegrationSwitch {
                key: key.clone(),
            },
            CliAction::IntegrationStatus { key } => CliAction::IntegrationStatus {
                key: key.clone(),
            },
            CliAction::IntegrationGetInfo { key } => CliAction::IntegrationGetInfo {
                key: key.clone(),
            },
            CliAction::WorkflowAdd { source } => CliAction::WorkflowAdd { source: source.clone() },
            CliAction::WorkflowRemove { id } => CliAction::WorkflowRemove { id: id.clone() },
            CliAction::WorkflowRun { source } => CliAction::WorkflowRun { source: source.clone() },
            CliAction::WorkflowResume { run_id } => CliAction::WorkflowResume {
                run_id: run_id.clone(),
            },
            CliAction::WorkflowStatus { run_id } => CliAction::WorkflowStatus {
                run_id: run_id.clone(),
            },
            CliAction::WorkflowGetInfo { id } => CliAction::WorkflowGetInfo { id: id.clone() },
            CliAction::WorkflowSearch { query } => CliAction::WorkflowSearch {
                query: query.clone(),
            },
            CliAction::SelfCheck => CliAction::SelfCheck,
            CliAction::SelfUpgrade => CliAction::SelfUpgrade,
        }
    }
}

/// Actions that change the project (and so ask for confirmation first).
pub open spec fn destructive(a: CliAction) -> bool {
    match a {
        CliAction::Add { .. } | CliAction::Remove { .. } | CliAction::Enable { .. }
        | CliAction::Disable { .. } | CliAction::SetPriority { .. } | CliAction::Update { .. }
        | CliAction::CatalogAdd { .. } | CliAction::CatalogRemove { .. }
        | CliAction::IntegrationInstall { .. } | CliAction::IntegrationUninstall { .. }
        | CliAction::IntegrationUpgrade { .. } | CliAction::IntegrationUseDefault { .. }
        | CliAction::IntegrationSwitch { .. } | CliAction::WorkflowAdd { .. }
        | CliAction::WorkflowRemove { .. } | CliAction::WorkflowRun { .. }
        | CliAction::SelfUpgrade => true,
        _ => false,
    }
}

/// `prefix` followed by the value, or nothing when there is none.
pub open spec fn opt_part(prefix: Seq<char>, o: Option<String>) -> Seq<char> {
    match o {
        Some(s) => prefix + s@,
        None => Seq::empty(),
    }
}

/// `prefix` followed by the number, or nothing when there is none.
pub open spec fn opt_num(prefix: Seq<char>, o: Option<u8>) -> Seq<char> {
    match o {
        Some(n) => prefix + decimal(n as nat),
        None => Seq::empty(),
    }
}

pub open spec fn flag(set: bool, text: Seq<char>) -> Seq<char> {
    if set {
        text
    } else {
        Seq::empty()
    }
}

/// The shell command line an action runs.
pub open spec fn command_line(a: CliAction) -> Seq<char> {
    match a {
        CliAction::Search { target, query, tag, author } => "specify "@ + target_noun(target)
            + " search"@ + opt_part(" "@, query) + opt_part(" --tag "@, tag) + opt_part(
            " --author "@,
            author,
        ),
        CliAction::Info { target, id } => "specify "@ + target_noun(target) + " info "@ + id@,
        CliAction::List { target, available } => "specify "@ + target_noun(target) + " list"@
            + flag(available, " --available"@),
        CliAction::Add { target, id, priority, dev_path, from_url } => "specify "@ + target_noun(
            target,
        ) + " add "@ + id@ + opt_num(" --priority "@, priority) + opt_part(" --dev "@, dev_path)
            + opt_part(" --from "@, from_url),
        CliAction::Remove { target, id, keep_config, force } => "specify "@ + target_noun(target)
            + " remove "@ + id@ + flag(keep_config, " --keep-config"@) + flag(force, " --force"@),
        CliAction::Enable { target, id } => "specify "@ + target_noun(target) + " enable "@ + id@,
        CliAction::Disable { target, id } => "specify "@ + target_noun(target) + " disable "@
            + id@,
        CliAction::SetPriority { target, id, priority } => "specify "@ + target_noun(target)
            + " set-priority "@ + id@ + " "@ + decimal(priority as nat),
        CliAction::Update { target, id } => "specify "@ + target_noun(target) + " update"@
            + opt_part(" "@, id),
        CliAction::Resolve { name } => "specify preset resolve "@ + name@,
        CliAction::CatalogList { target } => "specify "@ + catalog_noun(target)
            + " catalog list"@,
        CliAction::CatalogAdd { target, url, name, priority, install_allowed } => "specify "@
            + catalog_noun(target) + " catalog add "@ + url@ + " "@ + name@ + opt_num(
            " --priority "@,
            priority,
        ) + match install_allowed {
            Some(true) => " --install-allowed"@,
            Some(false) => " --no-install-allowed"@,
            None => Seq::empty(),
        },
        CliAction::CatalogRemove { target, name } => "specify "@ + catalog_noun(target)
            + " catalog remove "@ + name@,
        CliAction::IntegrationList => "specify integration list"@,
        CliAction::IntegrationInstall { key } => "specify integration install "@ + key@,
        CliAction::IntegrationUninstall { key } => "specify integration uninstall "@ + key@,
        CliAction::IntegrationUpgrade { key } => "specify integration upgrade"@ + opt_part(
            " "@,
            key,
        ),
        CliAction::IntegrationUseDefault { key } => "specify integration use "@ + key@,
        CliAction::IntegrationSwitch { key } => "specify integration switch "@ + key@,
        CliAction::IntegrationStatus { key } => "specify integration status "@ + key@
            + " --json"@,
        CliAction::IntegrationGetInfo { key } => "specify integration info "@ + key@,
        CliAction::WorkflowAdd { source } => "specify workflow add "@ + source@,
        CliAction::WorkflowRemove { id } => "specify workflow remove "@ + id@,
        CliAction::WorkflowRun { source } => "specify workflow run "@ + source@,
        CliAction::WorkflowResume { run_id } => "specify workflow resume "@ + run_id@,
        CliAction::WorkflowStatus { run_id } => "specify workflow status"@ + opt_part(
            " "@,
            run_id,
        ),
        CliAction::WorkflowGetInfo { id } => "specify workflow info "@ + id@,
        CliAction::WorkflowSearch { query } => "specify workflow search"@ + opt_part(" "@, query),
        CliAction::SelfCheck => "specify self check"@,
        CliAction::SelfUpgrade => "specify self upgrade"@,
    }
}

/// Appends `prefix` and the value when there is one.
fn push_opt(cmd: &mut String, prefix: &str, o: &Option<String>)
    ensures
        final(cmd)@ == old(cmd)@ + opt_part(prefix@, *o),
{
    match o {
        Some(s) => {
            cmd.append(prefix);
            cmd.append(s.as_str());
        },
        None => {
            assert(old(cmd)@ + Seq::<char>::empty() =~= old(cmd)@);
        },
    }
}

/// Appends `prefix` and the number when there is one.
fn push_num(cmd: &mut String, prefix: &str, o: Option<u8>)
    ensures
        final(cmd)@ == old(cmd)@ + opt_num(prefix@, o),
{
    match o {
        Some(n) => {
            cmd.append(prefix);
            let d = decimal_u8(n);
            cmd.append(d.as_str());
        },
        None => {
            assert(old(cmd)@ + Seq::<char>::empty() =~= old(cmd)@);
        },
    }
}

/// Appends `text` when `set`.
fn push_flag(cmd: &mut String, set: bool, text: &str)
    ensures
        final(cmd)@ == old(cmd)@ + flag(set, text@),
{
    if set {
        cmd.append(text);
    } else {
        assert(old(cmd)@ + Seq::<char>::empty() =~= old(cmd)@);
    }
}

/// `"specify " + noun + tail`.
fn head(noun: &str, tail: &str) -> (r: String)
    ensures
        r@ == "specify "@ + noun@ + tail@,
{
    let mut cmd = "specify ".to_owned();
    cmd.append(noun);
    cmd.append(tail);
    cmd
}

/// `head + value`.
fn with_value(mut cmd: String, value: &String) -> (r: String)
    ensures
        r@ == cmd@ + value@,
{
    cmd.append(value.as_str());
    cmd
}

impl CliAction {
    /// Whether the action changes the project and so is confirmed first.
    pub fn is_destructive(&self) -> (r: bool)
        ensures
            r == destructive(*self),
    {
        match self {
            CliAction::Add { .. } | CliAction::Remove { .. } | CliAction::Enable { .. }
            | CliAction::Disable { .. } | CliAction::SetPriority { .. } | CliAction::Update { .. }
            | CliAction::CatalogAdd { .. } | CliAction::CatalogRemove { .. }
            | CliAction::IntegrationInstall { .. } | CliAction::IntegrationUninstall { .. }
            | CliAction::IntegrationUpgrade { .. } | CliAction::IntegrationUseDefault { .. }
            | CliAction::IntegrationSwitch { .. } | CliAction::WorkflowAdd { .. }
            | CliAction::WorkflowRemove { .. } | CliAction::WorkflowRun { .. }
            | CliAction::SelfUpgrade => true,
            _ => false,
        }
    }

    /// The command line this action runs.
    pub fn to_command_line(&self) -> (r: String)
        ensures
            r@ == command_line(*self),
    {
        match self {
            CliAction::Search { target, query, tag, author } => {
                let mut cmd = head(target.cmd_noun(), " search");
                push_opt(&mut cmd, " ", query);
                push_opt(&mut cmd, " --tag ", tag);
                push_opt(&mut cmd, " --author ", author);
                cmd
            },
            CliAction::Info { target, id } => with_value(head(target.cmd_noun(), " info "), id),
            CliAction::List { target, available } => {
                let mut cmd = head(target.cmd_noun(), " list");
                push_flag(&mut cmd, *available, " --available");
                cmd
            },
            CliAction::Add { target, id, priority, dev_path, from_url } => {
                let mut cmd = with_value(head(target.cmd_noun(), " add "), id);
                push_num(&mut cmd, " --priority ", *priority);
                push_opt(&mut cmd, " --dev ", dev_path);
                push_opt(&mut cmd, " --from ", from_url);
                cmd
            },
            CliAction::Remove { target, id, keep_config, force } => {
                let mut cmd = with_value(head(target.cmd_noun(), " remove "), id);
                push_flag(&mut cmd, *keep_config, " --keep-config");
                push_flag(&mut cmd, *force, " --force");
                cmd
            },
            CliAction::Enable { target, id } => with_value(head(target.cmd_noun(), " enable "), id),
            CliAction::Disable { target, id } => with_value(
                head(target.cmd_noun(), " disable "),
                id,
            ),
            CliAction::SetPriority { target, id, priority } => {
                let mut cmd = with_value(head(target.cmd_noun(), " set-priority "), id);
                cmd.append(" ");
                let d = decimal_u8(*priority);
                cmd.append(d.as_str());
                cmd
            },
            CliAction::Update { target, id } => {
                let mut cmd = head(target.cmd_noun(), " update");
                push_opt(&mut cmd, " ", id);
                cmd
            },
            CliAction::Resolve { name } => with_value("specify preset resolve ".to_owned(), name),
            CliAction::CatalogList { target } => head(target.cli(), " catalog list"),
            CliAction::CatalogAdd { target, url, name, priority, install_allowed } => {
                let mut cmd = with_value(head(target.cli(), " catalog add "), url);
                cmd.append(" ");
                cmd.append(name.as_str());
                push_num(&mut cmd, " --priority ", *priority);
                match install_allowed {
                    Some(true) => cmd.append(" --install-allowed"),
                    Some(false) => cmd.append(" --no-install-allowed"),
                    None => {
                        assert(cmd@ + Seq::<char>::empty() =~= cmd@);
                    },
                }
                cmd
            },
            CliAction::CatalogRemove { target, name } => with_value(
                head(target.cli(), " catalog remove "),
                name,
            ),
            CliAction::IntegrationList => "specify integration list".to_owned(),
            CliAction::IntegrationInstall { key } => with_value(
                "specify integration install ".to_owned(),
                key,
            ),
            CliAction::IntegrationUninstall { key } => with_value(
                "specify integration uninstall ".to_owned(),
                key,
            ),
            CliAction::IntegrationUpgrade { key } => {
                let mut cmd = "specify integration upgrade".to_owned();
                push_opt(&mut cmd, " ", key);
                cmd
            },
            CliAction::IntegrationUseDefault { key } => with_value(
                "specify integration use ".to_owned(),
                key,
            ),
            CliAction::IntegrationSwitch { key } => with_value(
                "specify integration switch ".to_owned(),
                key,
            ),
            CliAction::IntegrationStatus { key } => {
                let mut cmd = with_value("specify integration status ".to_owned(), key);
                cmd.append(" --json");
                cmd
            },
            CliAction::IntegrationGetInfo { key } => with_value(
                "specify integration info ".to_owned(),
                key,
            ),
            CliAction::WorkflowAdd { source } => with_value(
                "specify workflow add ".to_owned(),
                source,
            ),
            CliAction::WorkflowRemove { id } => with_value(
                "specify workflow remove ".to_owned(),
                id,
            ),
            CliAction::WorkflowRun { source } => with_value(
                "specify workflow run ".to_owned(),
                source,
            ),
            CliAction::WorkflowResume { run_id } => with_value(
                "specify workflow resume ".to_owned(),
                run_id,
            ),
            CliAction::WorkflowStatus { run_id } => {
                let mut cmd = "specify workflow status".to_owned();
                push_opt(&mut cmd, " ", run_id);
                cmd
            },
            CliAction::WorkflowGetInfo { id } => with_value(
                "specify workflow info ".to_owned(),
                id,
            ),
            CliAction::WorkflowSearch { query } => {
                let mut cmd = "specify workflow search".to_owned();
                push_opt(&mut cmd, " ", query);
                cmd
            },
            CliAction::SelfCheck => "specify self check".to_owned(),
            CliAction::SelfUpgrade => "specify self upgrade".to_owned(),
        }
    }
}

#[derive(Debug, Clone, Copy, PartialEq, Eq, Structural)]
pub enum JobStatus {
    Pending,
    Running,
    Succeeded,
    Failed,
}

/// A CLI action that has been started, with the output it has printed so far.
#[derive(Debug)]
pub struct CliJob {
    pub action: CliAction,
    pub command_line: String,
    pub status: JobStatus,
    pub output: String,
}

impl Clone for CliJob {
    fn clone(&self) -> (r: Self)
        ensures
            r == *self,
    {
        CliJob {
            action: self.action.clone(),
            command_line: self.command_line.clone(),
            status: self.status,
            output: self.output.clone(),
        }
    }
}

/// What the job runner reports while a command runs.
#[derive(Debug)]
pub enum CliEvent {
    OutputLine(String),
    Completed { success: bool },
}

impl Clone for CliEvent {
    fn clone(&self) -> (r: Self)
        ensures
            r == *self,
    {
        match self {
            CliEvent::OutputLine(l) => CliEvent::OutputLine(l.clone()),
            CliEvent::Completed { success } => CliEvent::Completed { success: *success },
        }
    }
}

/// Status after an event: any output means running; completion decides.
pub open spec fn status_after(status: JobStatus, e: CliEvent) -> JobStatus {
    match e {
        CliEvent::OutputLine(_) => JobStatus::Running,
        CliEvent::Completed { success } => if success {
            JobStatus::Succeeded
        } else {
            JobStatus::Failed
        },
    }
}

/// Output after an event: each output line is appended, separated by a
/// newline from what came before.
pub open spec fn output_after(output: Seq<char>, e: CliEvent) -> Seq<char> {
    match e {
        CliEvent::OutputLine(line) => if output.len() == 0 {
            line@
        } else {
            output.push('\n') + line@
        },
        CliEvent::Completed { .. } => output,
    }
}

impl CliJob {
    /// A pending job for `action`, with no output yet.
    pub fn new(action: CliAction) -> (r: Self)
        ensures
            r.action == action,
            r.command_line@ == command_line(action),
            r.status == JobStatus::Pending,
            r.output@.len() == 0,
    {
        let command_line = action.to_command_line();
        CliJob { action, command_line, status: JobStatus::Pending, output: String::new() }
    }

    /// Records one event reported by the running command.
    pub fn apply_event(&mut self, e: CliEvent)
        ensures
            final(self).status == status_after(old(self).status, e),
            final(self).output@ == output_after(old(self).output@, e),
            final(self).action == old(self).action,
            final(self).command_line == old(self).command_line,
    {
        match e {
            CliEvent::OutputLine(line) => {
                self.status = JobStatus::Running;
                if !self.output.as_str().is_empty() {
                    crate::text::push_char(&mut self.output, '\n');
                }
                self.output.append(line.as_str());
            },
            CliEvent::Completed { success } => {
                self.status = if success {
                    JobStatus::Succeeded
                } else {
                    JobStatus::Failed
                };
            },
        }
    }

    /// Whether the job is still pending or running.
    pub fn is_active(&self) -> (r: bool)
        ensures
            r == (self.status == JobStatus::Pending || self.status == JobStatus::Running),
    {
        match self.status {
            JobStatus::Pending | JobStatus::Running => true,
            _ => false,
        }
    }
}

/// Runs actions in a project directory (given as text).
pub struct SpecifyCliClient {
    pub project_root: String,
}

impl SpecifyCliClient {
    pub fn new(project_root: String) -> (r: Self)
        ensures
            r.project_root == project_root,
    {
        SpecifyCliClient { project_root }
    }
}

/// Setting `force` on a remove adds ` --force` at the very end of the command
/// line and changes nothing before it; setting `keep_config` adds
/// ` --keep-config` after the id, before any ` --force`.
pub proof fn law_remove_flags(target: CliTarget, id: String, keep_config: bool)
    ensures
        command_line(CliAction::Remove { target, id, keep_config, force: true }) == command_line(
            CliAction::Remove { target, id, keep_config, force: false },
        ) + " --force"@,
        command_line(CliAction::Remove { target, id, keep_config: true, force: false })
            == command_line(CliAction::Remove { target, id, keep_config: false, force: false })
            + " --keep-config"@,
{
    let base = "specify "@ + target_noun(target) + " remove "@ + id@;
    assert(base + flag(keep_config, " --keep-config"@) + flag(false, " --force"@) =~= base + flag(
        keep_config,
        " --keep-config"@,
    ));
    assert(base + flag(false, " --keep-config"@) =~= base);
}

} // verus!
