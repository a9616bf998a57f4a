//! Work on files for the file tree: it runs only while some client can see the
//! tree.
use crate::text::same_text;
use crate::types::ProjectId;
use vstd::prelude::*;

verus! {

/// Whose files the tree shows.
#[derive(Debug)]
pub struct FileTree {
    pub project: ProjectId,
    pub root: String,
}

/// What the runtime is asked to do.
#[derive(Debug)]
pub enum FileCommand {
    List { project: ProjectId, root: String, directory: String },
    /// Watch exactly these directories.
    Watch { project: ProjectId, root: String, directories: Vec<String> },
    /// Watch a working tree for changes, or none.
    WatchGit { project: ProjectId, tree: Option<String> },
    Mutate { project: ProjectId, root: String, operation: u64 },
    Open { project: ProjectId, path: String, command: String },
}

/// A choice made in the tree.
#[derive(Debug)]
pub enum FileAction {
    Idle,
    Redraw,
    Blur,
    /// Look into these directories again.
    Refresh(Vec<String>),
    /// A change of a file, by a number that stands for it.
    Mutate(u64),
    /// Open a file with an editor.
    Open { path: String, command: String },
    /// Put a path on the clipboard.
    Copy(String),
}

/// What is left to do about a choice.
#[derive(Debug)]
pub struct FileActionStep {
    /// Directories to list again.
    pub refresh: Vec<String>,
    pub send: Option<FileCommand>,
    pub clipboard: Option<String>,
    pub repaint: bool,
    pub sync_watches: bool,
}

/// What is left to do after the active Project changed.
#[derive(Debug)]
pub enum FileSync {
    /// There is no such Project.
    Nothing,
    /// List the root and watch. `reset` says that the tree holds another
    /// Project's files now, `focused` whether it has the focus.
    Refresh { reset: bool, focused: bool },
}

/// The commands that end the work on files.
pub open spec fn stopped(
    tree: FileTree,
    watch: FileCommand,
    git: FileCommand,
) -> bool {
    &&& watch matches FileCommand::Watch { project, root, directories } && project == tree.project
        && root == tree.root && directories@.len() == 0
    &&& git == FileCommand::WatchGit { project: tree.project, tree: None }
}

impl FileTree {
    pub fn new(project: ProjectId) -> (tree: FileTree)
        ensures
            tree.project == project,
            tree.root@ == Seq::<char>::empty(),
    {
        FileTree { project, root: String::new() }
    }

    /// Show the files of a Project.
    pub fn reset(&mut self, project: ProjectId, root: String)
        ensures
            *final(self) == (FileTree { project, root }),
    {
        self.project = project;
        self.root = root;
    }

    /// Show the active Project's files; the tree had the focus before where
    /// `focused` says so, and is to have it where `focus` does. The commands
    /// that end the work on the files shown before come along, where there was
    /// any.
    pub fn sync_file_manager(
        &mut self,
        active: Option<(ProjectId, String)>,
        focused: bool,
        focus: bool,
    ) -> (out: (FileSync, Option<(FileCommand, FileCommand)>))
        ensures
            match active {
                None => out.0 is Nothing && out.1 is None && *final(self) == *old(self),
                Some((id, root)) => {
                    let other = old(self).project != id || old(self).root@ != root@;
                    &&& out.0 == FileSync::Refresh {
                        reset: other,
                        focused: focus || (!other && focused),
                    }
                    &&& *final(self) == if other {
                        FileTree { project: id, root }
                    } else {
                        *old(self)
                    }
                    &&& match out.1 {
                        Some((watch, git)) => other && old(self).root@.len() > 0 && stopped(
                            *old(self),
                            watch,
                            git,
                        ),
                        None => !(other && old(self).root@.len() > 0),
                    }
                },
            },
    {
        let (id, root) = match active {
            Some(given) => given,
            None => {
                return (FileSync::Nothing, None);
            },
        };
        if self.project != id || !same_text(self.root.as_str(), root.as_str()) {
            let none = self.root.as_str().is_empty();
            assert(none == (self.root@.len() == 0));
            let commands = if none {
                None
            } else {
                Some(self.stop_file_watches())
            };
            self.reset(id, root);
            (FileSync::Refresh { reset: true, focused: focus }, commands)
        } else {
            (FileSync::Refresh { reset: false, focused: focused || focus }, None)
        }
    }

    /// Ask for a directory, while a client can see the tree and it is not being
    /// listed already.
    pub fn request_file_listing(
        &self,
        visible: bool,
        has_clients: bool,
        wanted: bool,
        directory: String,
    ) -> (command: Option<FileCommand>)
        ensures
            command == if visible && has_clients && wanted {
                Some(
                    FileCommand::List { project: self.project, root: self.root, directory },
                )
            } else {
                None
            },
    {
        if !visible || !has_clients || !wanted {
            return None;
        }
        Some(FileCommand::List { project: self.project, root: self.root.clone(), directory })
    }

    /// Watch the open directories, while a client can see the tree.
    pub fn sync_file_watches(&self, visible: bool, has_clients: bool, directories: Vec<String>) -> (
    command: Option<FileCommand>)
        ensures
            command == if visible && has_clients {
                Some(
                    FileCommand::Watch { project: self.project, root: self.root, directories },
                )
            } else {
                None
            },
    {
        if !visible || !has_clients {
            return None;
        }
        Some(FileCommand::Watch { project: self.project, root: self.root.clone(), directories })
    }

    /// Watch the working tree, while a client can see the file tree.
    pub fn sync_git_change_watch(&self, visible: bool, has_clients: bool) -> (command: Option<
        FileCommand,
    >)
        ensures
            command == if visible && has_clients {
                Some(FileCommand::WatchGit { project: self.project, tree: Some(self.root) })
            } else {
                None
            },
    {
        if !visible || !has_clients {
            return None;
        }
        Some(FileCommand::WatchGit { project: self.project, tree: Some(self.root.clone()) })
    }

    /// End the work on files.
    pub fn stop_file_watches(&self) -> (commands: (FileCommand, FileCommand))
        ensures
            stopped(*self, commands.0, commands.1),
    {
        (
            FileCommand::Watch {
                project: self.project,
                root: self.root.clone(),
                directories: Vec::new(),
            },
            FileCommand::WatchGit { project: self.project, tree: None },
        )
    }

    /// What a choice made in the tree leaves to do.
    pub open spec fn acted(self, action: FileAction, step: FileActionStep) -> bool {
        &&& step.repaint == !(action is Idle)
        &&& step.sync_watches == !(action is Idle)
        &&& match action {
            FileAction::Refresh(directories) => step.refresh == directories,
            _ => step.refresh@.len() == 0,
        }
        &&& step.send == match action {
            FileAction::Mutate(operation) => Some(
                FileCommand::Mutate { project: self.project, root: self.root, operation },
            ),
            FileAction::Open { path, command } => Some(
                FileCommand::Open { project: self.project, path, command },
            ),
            _ => None,
        }
        &&& step.clipboard == match action {
            FileAction::Copy(path) => Some(path),
            _ => None,
        }
    }

    /// Carry out a choice made in the tree.
    pub fn handle_file_action(&self, action: FileAction) -> (step: FileActionStep)
        ensures
            self.acted(action, step),
    {
        let mut step = FileActionStep {
            refresh: Vec::new(),
            send: None,
            clipboard: None,
            repaint: true,
            sync_watches: true,
        };
        match action {
            FileAction::Idle => {
                step.repaint = false;
                step.sync_watches = false;
            },
            FileAction::Redraw => {},
            FileAction::Blur => {},
            FileAction::Refresh(directories) => {
                step.refresh = directories;
            },
            FileAction::Mutate(operation) => {
                step.send = Some(
                    FileCommand::Mutate {
                        project: self.project,
                        root: self.root.clone(),
                        operation,
                    },
                );
            },
            FileAction::Open { path, command } => {
                step.send = Some(FileCommand::Open { project: self.project, path, command });
            },
            FileAction::Copy(path) => {
                step.clipboard = Some(path);
            },
        }
        step
    }
}

/// What became of keys in copy mode.
#[derive(Debug)]
pub enum CopyAction {
    Idle,
    Redraw,
    Exit,
    Copy(String),
}

/// What is left to do about them.
#[derive(Debug)]
pub enum CopyStep {
    /// The Pane is not in copy mode: the keys are for its program.
    NotCopying,
    Nothing,
    Repaint,
    /// Leave copy mode, with this text for the clipboard where there is one.
    Leave(Option<String>),
}

/// Whether copy mode is entered: the Pane is shown, and not in it yet.
pub fn enter_copy_mode(shown: bool, exists: bool, copying: bool) -> (enter: bool)
    ensures
        enter == (shown && exists && !copying),
{
    shown && exists && !copying
}

/// Carry out keys in copy mode.
pub fn handle_copy_input(copying: bool, action: CopyAction) -> (step: CopyStep)
    ensures
        step == if !copying {
            CopyStep::NotCopying
        } else {
            match action {
                CopyAction::Idle => CopyStep::Nothing,
                CopyAction::Redraw => CopyStep::Repaint,
                CopyAction::Exit => CopyStep::Leave(None),
                CopyAction::Copy(text) => CopyStep::Leave(Some(text)),
            }
        },
{
    if !copying {
        return CopyStep::NotCopying;
    }
    match action {
        CopyAction::Idle => CopyStep::Nothing,
        CopyAction::Redraw => CopyStep::Repaint,
        CopyAction::Exit => CopyStep::Leave(None),
        CopyAction::Copy(text) => CopyStep::Leave(Some(text)),
    }
}

} // verus!
