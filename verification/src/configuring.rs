//! Settings as the server takes them up: what a change of them shows, and what a
//! command that switches the view makes of them.
use crate::commands::{FileTreeChange, ViewState};
use crate::notify::Notifications;
use crate::replies::RuntimeSide;
use crate::run_recovery::GuardBounds;
use crate::server::{frame_of, framed, Server};
use crate::session::Session;
use crate::settings::{settings_done, Config, SettingsOutcome, SettingsPatch};
use vstd::prelude::*;

verus! {

/// A change of the settings that was taken up or refused.
#[derive(Debug)]
pub struct AppliedSettings {
    pub outcome: SettingsOutcome,
    /// What it leaves for the file tree.
    pub files: FileTreeChange,
}

impl Session {
    /// The session with the sidebars and the status line that settings ask for.
    /// A file tree that is not shown loses the focus.
    pub open spec fn reframed(self, config: Config) -> Session {
        let shown = Session {
            view: ViewState {
                sidebar: config.sidebar,
                file_sidebar: config.file_sidebar,
                ..self.view
            },
            frame: framed(config, self.frame.cols, self.frame.rows),
            ..self
        };
        Session {
            view: ViewState {
                files_focused: shown.files_visible() && self.view.files_focused,
                ..shown.view
            },
            ..shown
        }
    }
}

impl Server {
    /// Apply a change of the settings. What is shown follows them, and a file
    /// tree is read again where it is shown; where it is not, its watches end.
    /// Once no notification is to be delivered, none is kept or shown.
    pub fn apply_settings(&mut self, patch: SettingsPatch, bounds: GuardBounds) -> (out:
        AppliedSettings)
        requires
            old(self).wf(),
            bounds.max_active_runs >= 1,
            bounds.max_role_panes >= 1,
            bounds.max_iterations >= 1,
            bounds.max_elapsed_seconds >= 60,
        ensures
            final(self).wf(),
            settings_done(
                old(self).runtime.config,
                final(self).runtime.config,
                patch,
                bounds,
                out.outcome,
            ),
            match out.outcome {
                SettingsOutcome::Applied(effect) => {
                    let config = final(self).runtime.config;
                    &&& final(self).configured()
                    &&& *final(self) == (Server {
                        session: old(self).session.reframed(config),
                        runtime: RuntimeSide { config, ..old(self).runtime },
                        notifications: final(self).notifications,
                        toast: if effect.silence {
                            None
                        } else {
                            old(self).toast
                        },
                        ..*old(self)
                    })
                    &&& if effect.silence {
                        final(self).notifications.pending@.len() == 0
                    } else {
                        final(self).notifications == old(self).notifications
                    }
                    &&& out.files == if final(self).session.files_visible() {
                        FileTreeChange::Sync { focus: false }
                    } else {
                        FileTreeChange::Stop
                    }
                },
                _ => *final(self) == *old(self) && out.files is Nothing,
            },
    {
        let ghost before = self.runtime.config;
        let outcome = self.runtime.config.apply_settings(patch, bounds);
        assert(outcome is Applied || self.runtime.config == before);
        match &outcome {
            SettingsOutcome::Applied(effect) => {
                let silence = effect.silence;
                let files = self.show_settings(silence);
                AppliedSettings { outcome, files }
            },
            _ => AppliedSettings { outcome, files: FileTreeChange::Nothing },
        }
    }

    /// Show what the settings ask for.
    fn show_settings(&mut self, silence: bool) -> (files: FileTreeChange)
        requires
            old(self).wf(),
        ensures
            final(self).wf(),
            final(self).configured(),
            *final(self) == (Server {
                session: old(self).session.reframed(old(self).runtime.config),
                notifications: final(self).notifications,
                toast: if silence {
                    None
                } else {
                    old(self).toast
                },
                ..*old(self)
            }),
            if silence {
                final(self).notifications.pending@.len() == 0
            } else {
                final(self).notifications == old(self).notifications
            },
            files == if final(self).session.files_visible() {
                FileTreeChange::Sync { focus: false }
            } else {
                FileTreeChange::Stop
            },
    {
        let cols = self.session.frame.cols;
        let rows = self.session.frame.rows;
        self.session.frame = frame_of(&self.runtime.config, cols, rows);
        self.session.view.sidebar = self.runtime.config.sidebar;
        self.session.view.file_sidebar = self.runtime.config.file_sidebar;
        if silence {
            self.notifications = Notifications::new();
            self.toast = None;
        }
        if self.session.file_manager_visible() {
            FileTreeChange::Sync { focus: false }
        } else {
            self.session.view.files_focused = false;
            FileTreeChange::Stop
        }
    }

    /// The settings that the view shows: a command that switches a sidebar
    /// switches the setting with it.
    pub open spec fn viewed(self) -> Config {
        Config {
            sidebar: self.session.view.sidebar,
            file_sidebar: self.session.view.file_sidebar,
            ..self.runtime.config
        }
    }

    /// Make the settings say what the view shows.
    pub(crate) fn follow_view(&mut self)
        ensures
            *final(self) == (Server {
                session: Session {
                    frame: crate::canvas::Canvas {
                        sidebar: old(self).session.view.sidebar,
                        file_sidebar: old(self).session.view.file_sidebar,
                        ..old(self).session.frame
                    },
                    ..old(self).session
                },
                runtime: RuntimeSide { config: old(self).viewed(), ..old(self).runtime },
                ..*old(self)
            }),
            old(self).wf() ==> final(self).wf(),
    {
        let view = self.session.view;
        self.session.frame.sidebar = view.sidebar;
        self.session.frame.file_sidebar = view.file_sidebar;
        self.runtime.config.sidebar = view.sidebar;
        self.runtime.config.file_sidebar = view.file_sidebar;
    }
}

} // verus!
