//! Starting agents: in a fresh Pane, or in the focused one where its shell is
//! at the prompt.
use crate::hierarchy::{unshown, Workspace};
use crate::launch::{quoted, shell_quote};
use crate::search_path::texts;
use crate::text::{clip, clipped, push_text, trim, trimmed};
use crate::types::{PaneId, SplitDir};
use vstd::prelude::*;

verus! {

/// The most characters of a prompt.
pub const MAX_PROMPT_CHARS: usize = 65_536;

/// An agent that can be started: its id, and the line that starts it.
#[derive(Debug)]
pub struct ResolvedAgent {
    pub id: String,
    pub line: String,
}

/// How a new task starts.
#[derive(Debug)]
pub struct TaskPlan {
    /// The prompt, cut to its limit.
    pub prompt: String,
    /// The arguments of the shell in the new Pane.
    pub args: Vec<String>,
    /// What is typed into the Pane once it runs.
    pub typed: Vec<String>,
    /// The title of the task that is recorded, where there is one.
    pub title: Option<String>,
}

/// The command of a Pane that runs `line` and then becomes a shell again.
pub open spec fn shell_command(line: Seq<char>, program: Seq<char>) -> Seq<Seq<char>> {
    seq!["-c"@, line + "; exec "@ + program]
}

fn write_command(line: &str, program: &str) -> (args: Vec<String>)
    ensures
        texts(args@) == shell_command(line@, program@),
{
    let mut text = line.to_owned();
    push_text(&mut text, "; exec ");
    push_text(&mut text, program);
    let mut args: Vec<String> = Vec::new();
    args.push("-c".to_owned());
    args.push(text);
    assert(texts(args@) =~= shell_command(line@, program@));
    args
}

/// What a relay announces in its Pane.
pub open spec fn relay_banner() -> Seq<char> {
    "printf '\\033[36m[relay] launching turn-based run\\033[0m\\n'\n"@
}

/// What is typed in place of an agent that cannot be started.
pub open spec fn fallback_line(agent: Option<Seq<char>>, prompt: Seq<char>) -> Seq<char> {
    match agent {
        Some(name) => "echo 'uniterm: agent "@ + name + " not found on PATH'\n"@,
        None => prompt + "\n"@,
    }
}

/// What is typed into the Pane of a new task.
pub open spec fn task_typed(
    relay: bool,
    agent: Option<Seq<char>>,
    prompt: Seq<char>,
    launched: bool,
) -> Seq<Seq<char>> {
    let banner = if relay {
        seq![relay_banner()]
    } else {
        Seq::empty()
    };
    if prompt.len() > 0 && !launched {
        banner.push(fallback_line(agent, prompt))
    } else {
        banner
    }
}

/// The title of a task: tagged with its Project where one was named.
pub open spec fn task_title(project: Option<Seq<char>>, prompt: Seq<char>) -> Option<Seq<char>> {
    if trimmed(prompt).len() == 0 {
        None
    } else {
        Some(
            match project {
                Some(name) => "# project "@ + name + ": "@ + trimmed(prompt),
                None => trimmed(prompt),
            },
        )
    }
}

/// A text, where there is one.
pub open spec fn given_text(text: Option<&str>) -> Option<Seq<char>> {
    match text {
        Some(t) => Some(t@),
        None => None,
    }
}

/// A text, where there is one.
pub open spec fn owned_text(text: Option<String>) -> Option<Seq<char>> {
    match text {
        Some(t) => Some(t@),
        None => None,
    }
}

fn write_title(project: Option<&str>, prompt: &str) -> (title: Option<String>)
    ensures
        owned_text(title) == task_title(given_text(project), prompt@),
{
    let core = trim(prompt);
    if core.as_str().is_empty() {
        assert(core@.len() == 0);
        return None;
    }
    assert(core@.len() > 0);
    match project {
        Some(name) => {
            let mut text = "# project ".to_owned();
            push_text(&mut text, name);
            push_text(&mut text, ": ");
            push_text(&mut text, core.as_str());
            Some(text)
        },
        None => Some(core),
    }
}

fn write_fallback(agent: Option<&str>, prompt: &str) -> (line: String)
    ensures
        line@ == fallback_line(given_text(agent), prompt@),
{
    match agent {
        Some(name) => {
            let mut line = "echo 'uniterm: agent ".to_owned();
            push_text(&mut line, name);
            push_text(&mut line, " not found on PATH'\n");
            line
        },
        None => {
            let mut line = prompt.to_owned();
            push_text(&mut line, "\n");
            line
        },
    }
}

/// Plan a new task: the agent is the new Pane's own command, so that nothing
/// typed races a shell that is still starting. Without an agent that can be
/// started, the prompt is typed; an empty prompt starts none. `resolved` is the
/// agent found for this prompt.
pub fn plan_new_task(
    prompt: &str,
    relay: bool,
    agent: Option<&str>,
    project: Option<&str>,
    resolved: Option<&ResolvedAgent>,
    program: &str,
) -> (plan: TaskPlan)
    ensures
        plan.prompt@ == clipped(prompt@, MAX_PROMPT_CHARS as nat),
        ({
            let launched = plan.prompt@.len() > 0 && resolved is Some;
            &&& texts(plan.args@) == if launched {
                shell_command(resolved.unwrap().line@, program@)
            } else {
                Seq::empty()
            }
            &&& texts(plan.typed@) == task_typed(relay, given_text(agent), plan.prompt@, launched)
        }),
        owned_text(plan.title) == task_title(given_text(project), plan.prompt@),
{
    let cut = clip(prompt, MAX_PROMPT_CHARS);
    let empty = cut.as_str().is_empty();
    assert(empty == (cut@.len() == 0));
    let mut typed: Vec<String> = Vec::new();
    if relay {
        typed.push(
            "printf '\\033[36m[relay] launching turn-based run\\033[0m\\n'\n".to_owned(),
        );
    }
    let ghost banner = if relay {
        seq![relay_banner()]
    } else {
        Seq::empty()
    };
    assert(texts(typed@) =~= banner);
    let args = match resolved {
        Some(found) => {
            if empty {
                Vec::new()
            } else {
                write_command(found.line.as_str(), program)
            }
        },
        None => Vec::new(),
    };
    assert(empty || resolved is None ==> texts(args@) =~= Seq::empty());
    if !empty && resolved.is_none() {
        let line = write_fallback(agent, cut.as_str());
        let ghost said = line@;
        typed.push(line);
        assert(texts(typed@) =~= banner.push(said));
    }
    let title = write_title(project, cut.as_str());
    TaskPlan { prompt: cut, args, typed, title }
}

/// Where an agent is to start.
#[derive(Clone, Copy, Debug, PartialEq, Eq, Structural)]
pub enum LaunchTarget {
    CurrentPane,
    NewPane,
    NewWindow,
}

/// Where an agent starts: a busy Pane would take the line as input to what runs
/// in it, so a new Pane is opened instead. `busy` says whether the focused Pane
/// has an agent or another program in front; `None` where it is gone.
pub fn launch_place(target: LaunchTarget, busy: Option<bool>) -> (place: Option<LaunchTarget>)
    ensures
        place == match target {
            LaunchTarget::CurrentPane => match busy {
                Some(true) => Some(LaunchTarget::NewPane),
                Some(false) => Some(LaunchTarget::CurrentPane),
                None => None,
            },
            _ => Some(target),
        },
{
    match target {
        LaunchTarget::CurrentPane => match busy {
            Some(b) => {
                if b {
                    Some(LaunchTarget::NewPane)
                } else {
                    Some(LaunchTarget::CurrentPane)
                }
            },
            None => None,
        },
        _ => Some(target),
    }
}

/// The line that is typed to start an agent in the focused Pane: it announces
/// the end of the session, so that the binding does not outlive the agent.
pub fn typed_launch_line(cmd: &str, session_end: &str) -> (line: String)
    ensures
        line@ == quoted(cmd@) + "; "@ + session_end@ + "\n"@,
{
    let mut line = shell_quote(cmd);
    push_text(&mut line, "; ");
    push_text(&mut line, session_end);
    push_text(&mut line, "\n");
    line
}

/// The arguments of the shell that runs an agent in a new Pane. `announced` is
/// its line with the announcements around it.
pub fn launch_args(announced: &str, program: &str) -> (args: Vec<String>)
    ensures
        texts(args@) == shell_command(announced@, program@),
{
    write_command(announced, program)
}

impl Workspace {
    /// Show the Pane of an agent that was started: beside the focused one, or in
    /// a Tab of its own.
    pub fn place_agent(&mut self, pane: PaneId, target: LaunchTarget)
        requires
            old(self)@.wf(),
            unshown(old(self)@.windows, pane),
        ensures
            final(self)@ == match target {
                LaunchTarget::NewWindow => old(self)@.push(pane),
                LaunchTarget::NewPane => old(self)@.split_active(pane, SplitDir::Horizontal),
                LaunchTarget::CurrentPane => old(self)@,
            },
            final(self)@.wf(),
            old(self)@.all_open() ==> final(self)@.all_open(),
    {
        match target {
            LaunchTarget::NewWindow => self.push_window(pane),
            LaunchTarget::NewPane => self.split_active_pane(pane, SplitDir::Horizontal),
            LaunchTarget::CurrentPane => {},
        }
    }

    /// Show the Pane of a new task: below the focused one.
    pub fn place_task(&mut self, pane: PaneId)
        requires
            old(self)@.wf(),
            unshown(old(self)@.windows, pane),
        ensures
            final(self)@ == old(self)@.split_active(pane, SplitDir::Vertical),
            final(self)@.wf(),
            old(self)@.all_open() ==> final(self)@.all_open(),
    {
        self.split_active_pane(pane, SplitDir::Vertical);
    }
}

} // verus!
