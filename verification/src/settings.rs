//! Settings: what can be changed while the server runs, and within which
//! bounds.
use crate::guardrail::GuardLimits;
use crate::run_recovery::GuardBounds;
use crate::text::trim;
use vstd::prelude::*;

verus! {

/// The narrowest and widest left sidebar.
pub const MIN_SIDEBAR_WIDTH: u16 = 16;

pub const MAX_SIDEBAR_WIDTH: u16 = 40;

/// The narrowest and widest right sidebar.
pub const MIN_FILE_SIDEBAR_WIDTH: u16 = 22;

pub const MAX_FILE_SIDEBAR_WIDTH: u16 = 52;

/// The fewest and most lines of scrollback.
pub const MIN_SCROLLBACK: u64 = 100;

pub const MAX_SCROLLBACK: u64 = 1_000_000;

/// Where notifications go.
#[derive(Clone, Copy, Debug, PartialEq, Eq, Structural)]
pub enum NotificationDelivery {
    Off,
    /// A toast in the Workspace.
    Uniterm,
    /// The outer terminal.
    Terminal,
    /// The desktop.
    System,
}

/// The settings in force.
#[derive(Debug)]
pub struct Config {
    pub theme: String,
    pub status: bool,
    pub status_top: bool,
    pub sidebar: bool,
    pub sidebar_width: u16,
    pub file_sidebar: bool,
    pub file_sidebar_width: u16,
    pub notifications: NotificationDelivery,
    pub notify_completion: bool,
    pub focus_follows_mouse: bool,
    pub confirm_close: bool,
    pub confirm_tab_close: bool,
    pub scrollback_limit: u64,
    pub restore: bool,
    pub guardrails: GuardLimits,
    pub guardrail_allowed_projects: Vec<String>,
    pub editor: String,
    pub editor_rules: String,
}

/// A change of some settings. Lists that are written as text come parsed, or
/// with the reason why they cannot be.
#[derive(Debug)]
pub struct SettingsPatch {
    pub theme: Option<String>,
    pub status: Option<bool>,
    pub status_top: Option<bool>,
    pub sidebar: Option<bool>,
    pub sidebar_width: Option<u16>,
    pub file_sidebar: Option<bool>,
    pub file_sidebar_width: Option<u16>,
    pub notification_delivery: Option<NotificationDelivery>,
    pub notify_completion: Option<bool>,
    pub focus_follows_mouse: Option<bool>,
    pub confirm_close: Option<bool>,
    pub confirm_tab_close: Option<bool>,
    pub scrollback_limit: Option<u64>,
    pub restore: Option<bool>,
    pub guardrail_max_active_runs: Option<u16>,
    pub guardrail_max_role_panes: Option<u16>,
    pub guardrail_max_iterations: Option<u32>,
    pub guardrail_max_elapsed_minutes: Option<u64>,
    pub guardrail_allowed_projects: Option<Result<Vec<String>, String>>,
    pub editor: Option<String>,
    pub editor_rules: Option<Result<String, String>>,
}

/// What became of a change.
#[derive(Debug)]
pub enum SettingsOutcome {
    /// Nothing changed, for this reason.
    Refused(String),
    /// The editor is to be tried before it is set; nothing changed yet.
    ValidateEditor { editor: String, rules: String },
    Applied(SettingsEffect),
}

/// What else a change touches.
#[derive(Clone, Copy, Debug, PartialEq, Eq, Structural)]
pub struct SettingsEffect {
    /// The Panes get other default colors.
    pub recolor: bool,
    /// The Panes get another scrollback limit.
    pub scrollback: bool,
    /// Pending notifications are dropped.
    pub silence: bool,
}

/// A value moved into a range.
pub open spec fn clamped(n: int, low: int, high: int) -> int {
    if n < low {
        low
    } else if n > high {
        high
    } else {
        n
    }
}

fn clamp_u16(n: u16, low: u16, high: u16) -> (out: u16)
    ensures
        out == clamped(n as int, low as int, high as int),
{
    if n < low {
        low
    } else if n > high {
        high
    } else {
        n
    }
}

fn clamp_u32(n: u32, low: u32, high: u32) -> (out: u32)
    ensures
        out == clamped(n as int, low as int, high as int),
{
    if n < low {
        low
    } else if n > high {
        high
    } else {
        n
    }
}

pub(crate) fn clamp_u64(n: u64, low: u64, high: u64) -> (out: u64)
    ensures
        out == clamped(n as int, low as int, high as int),
{
    if n < low {
        low
    } else if n > high {
        high
    } else {
        n
    }
}

/// The new value where one is given.
pub open spec fn over<T>(new: Option<T>, old: T) -> T {
    match new {
        Some(value) => value,
        None => old,
    }
}

fn pick<T>(new: Option<T>, old: T) -> (out: T)
    ensures
        out == over(new, old),
{
    match new {
        Some(value) => value,
        None => old,
    }
}

fn pick_text(text: &mut String, new: Option<String>)
    ensures
        *final(text) == over(new, *old(text)),
{
    if let Some(value) = new {
        *text = value;
    }
}

fn pick_width(new: Option<u16>, old: u16, low: u16, high: u16) -> (out: u16)
    ensures
        out == match new {
            Some(w) => clamped(w as int, low as int, high as int),
            None => old as int,
        },
{
    match new {
        Some(w) => clamp_u16(w, low, high),
        None => old,
    }
}

fn pick_limit(new: Option<u64>, old: u64) -> (out: u64)
    ensures
        out == match new {
            Some(n) => clamped(n as int, MIN_SCROLLBACK as int, MAX_SCROLLBACK as int),
            None => old as int,
        },
{
    match new {
        Some(n) => clamp_u64(n, MIN_SCROLLBACK, MAX_SCROLLBACK),
        None => old,
    }
}

impl SettingsPatch {
    /// The change is about the editor.
    pub open spec fn edits(self) -> bool {
        self.editor is Some || self.editor_rules is Some
    }
}

impl GuardLimits {
    /// The limits after a change, within the bounds.
    pub open spec fn patched(self, patch: SettingsPatch, bounds: GuardBounds) -> GuardLimits {
        GuardLimits {
            max_active_runs: match patch.guardrail_max_active_runs {
                Some(n) => clamped(n as int, 1, bounds.max_active_runs as int) as u16,
                None => self.max_active_runs,
            },
            max_role_panes: match patch.guardrail_max_role_panes {
                Some(n) => clamped(n as int, 1, bounds.max_role_panes as int) as u16,
                None => self.max_role_panes,
            },
            max_iterations: match patch.guardrail_max_iterations {
                Some(n) => clamped(n as int, 1, bounds.max_iterations as int) as u32,
                None => self.max_iterations,
            },
            max_elapsed_seconds: match patch.guardrail_max_elapsed_minutes {
                Some(n) => (clamped(n as int, 1, bounds.max_elapsed_seconds as int / 60)
                    * 60) as u64,
                None => self.max_elapsed_seconds,
            },
        }
    }
}

impl GuardLimits {
    fn apply(&mut self, patch: &SettingsPatch, bounds: GuardBounds)
        requires
            bounds.max_active_runs >= 1,
            bounds.max_role_panes >= 1,
            bounds.max_iterations >= 1,
            bounds.max_elapsed_seconds >= 60,
        ensures
            *final(self) == old(self).patched(*patch, bounds),
    {
        if let Some(limit) = patch.guardrail_max_active_runs {
            self.max_active_runs = clamp_u16(limit, 1, bounds.max_active_runs);
        }
        if let Some(limit) = patch.guardrail_max_role_panes {
            self.max_role_panes = clamp_u16(limit, 1, bounds.max_role_panes);
        }
        if let Some(limit) = patch.guardrail_max_iterations {
            self.max_iterations = clamp_u32(limit, 1, bounds.max_iterations);
        }
        if let Some(minutes) = patch.guardrail_max_elapsed_minutes {
            let max_minutes: u64 = bounds.max_elapsed_seconds / 60;
            let kept: u64 = clamp_u64(minutes, 1, max_minutes);
            self.max_elapsed_seconds = kept * 60;
        }
    }
}

/// What a change of the settings does: one about the editor changes nothing yet,
/// and a list that cannot be parsed refuses the whole change.
pub open spec fn settings_done(
    before: Config,
    after: Config,
    patch: SettingsPatch,
    bounds: GuardBounds,
    outcome: SettingsOutcome,
) -> bool {
    if patch.edits() {
        &&& after == before
        &&& if before.asked_editor(patch).len() == 0 {
            outcome matches SettingsOutcome::Refused(why) && why@
                == "Default editor command cannot be empty"@
        } else {
            match patch.editor_rules {
                Some(Err(why)) => outcome == SettingsOutcome::Refused(why),
                Some(Ok(text)) => outcome matches SettingsOutcome::ValidateEditor { editor, rules }
                    && editor@ == before.asked_editor(patch) && rules == text,
                None => outcome matches SettingsOutcome::ValidateEditor { editor, rules } && editor@
                    == before.asked_editor(patch) && rules == before.editor_rules,
            }
        }
    } else {
        match patch.guardrail_allowed_projects {
            Some(Err(why)) => outcome == SettingsOutcome::Refused(why) && after == before,
            _ => {
                &&& after == before.patched(patch, bounds)
                &&& outcome == SettingsOutcome::Applied(
                    SettingsEffect {
                        recolor: patch.theme is Some,
                        scrollback: patch.scrollback_limit is Some,
                        silence: patch.notification_delivery == Some(NotificationDelivery::Off),
                    },
                )
            },
        }
    }
}

impl Config {
    /// The settings after a change.
    pub open spec fn patched(self, patch: SettingsPatch, bounds: GuardBounds) -> Config {
        Config {
            theme: over(patch.theme, self.theme),
            status: over(patch.status, self.status),
            status_top: over(patch.status_top, self.status_top),
            sidebar: over(patch.sidebar, self.sidebar),
            sidebar_width: match patch.sidebar_width {
                Some(w) => clamped(
                    w as int,
                    MIN_SIDEBAR_WIDTH as int,
                    MAX_SIDEBAR_WIDTH as int,
                ) as u16,
                None => self.sidebar_width,
            },
            file_sidebar: over(patch.file_sidebar, self.file_sidebar),
            file_sidebar_width: match patch.file_sidebar_width {
                Some(w) => clamped(
                    w as int,
                    MIN_FILE_SIDEBAR_WIDTH as int,
                    MAX_FILE_SIDEBAR_WIDTH as int,
                ) as u16,
                None => self.file_sidebar_width,
            },
            notifications: over(patch.notification_delivery, self.notifications),
            notify_completion: over(patch.notify_completion, self.notify_completion),
            focus_follows_mouse: over(patch.focus_follows_mouse, self.focus_follows_mouse),
            confirm_close: over(patch.confirm_close, self.confirm_close),
            confirm_tab_close: over(patch.confirm_tab_close, self.confirm_tab_close),
            scrollback_limit: match patch.scrollback_limit {
                Some(n) => clamped(n as int, MIN_SCROLLBACK as int, MAX_SCROLLBACK as int) as u64,
                None => self.scrollback_limit,
            },
            restore: over(patch.restore, self.restore),
            guardrails: self.guardrails.patched(patch, bounds),
            guardrail_allowed_projects: match patch.guardrail_allowed_projects {
                Some(Ok(list)) => list,
                _ => self.guardrail_allowed_projects,
            },
            editor: self.editor,
            editor_rules: self.editor_rules,
        }
    }

    /// The editor that a change asks for.
    pub open spec fn asked_editor(self, patch: SettingsPatch) -> Seq<char> {
        crate::text::trimmed(over(patch.editor, self.editor)@)
    }

    /// Apply a change. One about the editor changes nothing else, and is tried
    /// first; a list that cannot be parsed refuses the whole change.
    pub fn apply_settings(&mut self, patch: SettingsPatch, bounds: GuardBounds) -> (outcome:
        SettingsOutcome)
        requires
            bounds.max_active_runs >= 1,
            bounds.max_role_panes >= 1,
            bounds.max_iterations >= 1,
            bounds.max_elapsed_seconds >= 60,
        ensures
            settings_done(*old(self), *final(self), patch, bounds, outcome),
    {
        if patch.editor.is_some() || patch.editor_rules.is_some() {
            let editor = match patch.editor {
                Some(text) => trim(text.as_str()),
                None => trim(self.editor.as_str()),
            };
            if editor.as_str().is_empty() {
                assert(editor@.len() == 0);
                return SettingsOutcome::Refused(
                    "Default editor command cannot be empty".to_owned(),
                );
            }
            let rules = match patch.editor_rules {
                Some(Ok(text)) => text,
                Some(Err(why)) => {
                    return SettingsOutcome::Refused(why);
                },
                None => self.editor_rules.clone(),
            };
            return SettingsOutcome::ValidateEditor { editor, rules };
        }
        if let Some(Err(why)) = patch.guardrail_allowed_projects {
            return SettingsOutcome::Refused(why);
        }
        SettingsOutcome::Applied(self.apply_patch(patch, bounds))
    }

    fn apply_switches(&mut self, patch: &SettingsPatch)
        ensures
            *final(self) == (Config {
                status: over(patch.status, old(self).status),
                status_top: over(patch.status_top, old(self).status_top),
                sidebar: over(patch.sidebar, old(self).sidebar),
                file_sidebar: over(patch.file_sidebar, old(self).file_sidebar),
                restore: over(patch.restore, old(self).restore),
                ..*old(self)
            }),
    {
        self.status = pick(patch.status, self.status);
        self.status_top = pick(patch.status_top, self.status_top);
        self.sidebar = pick(patch.sidebar, self.sidebar);
        self.file_sidebar = pick(patch.file_sidebar, self.file_sidebar);
        self.restore = pick(patch.restore, self.restore);
    }

    fn apply_habits(&mut self, patch: &SettingsPatch)
        ensures
            *final(self) == (Config {
                notifications: over(patch.notification_delivery, old(self).notifications),
                notify_completion: over(patch.notify_completion, old(self).notify_completion),
                focus_follows_mouse: over(patch.focus_follows_mouse, old(self).focus_follows_mouse),
                confirm_close: over(patch.confirm_close, old(self).confirm_close),
                confirm_tab_close: over(patch.confirm_tab_close, old(self).confirm_tab_close),
                ..*old(self)
            }),
    {
        self.notifications = pick(patch.notification_delivery, self.notifications);
        self.notify_completion = pick(patch.notify_completion, self.notify_completion);
        self.focus_follows_mouse = pick(patch.focus_follows_mouse, self.focus_follows_mouse);
        self.confirm_close = pick(patch.confirm_close, self.confirm_close);
        self.confirm_tab_close = pick(patch.confirm_tab_close, self.confirm_tab_close);
    }

    fn apply_sizes(&mut self, patch: &SettingsPatch, bounds: GuardBounds)
        requires
            bounds.max_active_runs >= 1,
            bounds.max_role_panes >= 1,
            bounds.max_iterations >= 1,
            bounds.max_elapsed_seconds >= 60,
        ensures
            *final(self) == (Config {
                sidebar_width: old(self).patched(*patch, bounds).sidebar_width,
                file_sidebar_width: old(self).patched(*patch, bounds).file_sidebar_width,
                scrollback_limit: old(self).patched(*patch, bounds).scrollback_limit,
                guardrails: old(self).guardrails.patched(*patch, bounds),
                ..*old(self)
            }),
    {
        self.sidebar_width = pick_width(
            patch.sidebar_width,
            self.sidebar_width,
            MIN_SIDEBAR_WIDTH,
            MAX_SIDEBAR_WIDTH,
        );
        self.file_sidebar_width = pick_width(
            patch.file_sidebar_width,
            self.file_sidebar_width,
            MIN_FILE_SIDEBAR_WIDTH,
            MAX_FILE_SIDEBAR_WIDTH,
        );
        self.scrollback_limit = pick_limit(patch.scrollback_limit, self.scrollback_limit);
        self.guardrails.apply(patch, bounds);
    }

    fn apply_patch(&mut self, patch: SettingsPatch, bounds: GuardBounds) -> (effect: SettingsEffect)
        requires
            bounds.max_active_runs >= 1,
            bounds.max_role_panes >= 1,
            bounds.max_iterations >= 1,
            bounds.max_elapsed_seconds >= 60,
        ensures
            *final(self) == old(self).patched(patch, bounds),
            effect == (SettingsEffect {
                recolor: patch.theme is Some,
                scrollback: patch.scrollback_limit is Some,
                silence: patch.notification_delivery == Some(NotificationDelivery::Off),
            }),
    {
        let effect = SettingsEffect {
            recolor: patch.theme.is_some(),
            scrollback: patch.scrollback_limit.is_some(),
            silence: match patch.notification_delivery {
                Some(delivery) => delivery == NotificationDelivery::Off,
                None => false,
            },
        };
        self.apply_switches(&patch);
        self.apply_habits(&patch);
        self.apply_sizes(&patch, bounds);
        pick_text(&mut self.theme, patch.theme);
        if let Some(Ok(list)) = patch.guardrail_allowed_projects {
            self.guardrail_allowed_projects = list;
        }
        effect
    }
}

/// The settings as they are shown to the user.
#[derive(Debug)]
pub struct SettingsSnapshot {
    pub theme: String,
    pub status: bool,
    pub status_top: bool,
    pub sidebar: bool,
    pub sidebar_width: u16,
    pub file_sidebar: bool,
    pub file_sidebar_width: u16,
    pub notification_delivery: NotificationDelivery,
    pub notify_completion: bool,
    pub focus_follows_mouse: bool,
    pub confirm_close: bool,
    pub confirm_tab_close: bool,
    pub scrollback_limit: u64,
    pub restore: bool,
    pub guardrail_max_active_runs: u16,
    pub guardrail_max_role_panes: u16,
    pub guardrail_max_iterations: u32,
    pub guardrail_max_elapsed_minutes: u64,
    pub editor: String,
    pub editor_rules: String,
}

impl Config {
    /// The settings as they are shown: the time limit in whole minutes.
    pub fn settings_snapshot(&self) -> (shown: SettingsSnapshot)
        ensures
            shown == (SettingsSnapshot {
                theme: self.theme,
                status: self.status,
                status_top: self.status_top,
                sidebar: self.sidebar,
                sidebar_width: self.sidebar_width,
                file_sidebar: self.file_sidebar,
                file_sidebar_width: self.file_sidebar_width,
                notification_delivery: self.notifications,
                notify_completion: self.notify_completion,
                focus_follows_mouse: self.focus_follows_mouse,
                confirm_close: self.confirm_close,
                confirm_tab_close: self.confirm_tab_close,
                scrollback_limit: self.scrollback_limit,
                restore: self.restore,
                guardrail_max_active_runs: self.guardrails.max_active_runs,
                guardrail_max_role_panes: self.guardrails.max_role_panes,
                guardrail_max_iterations: self.guardrails.max_iterations,
                guardrail_max_elapsed_minutes: self.guardrails.max_elapsed_seconds / 60,
                editor: self.editor,
                editor_rules: self.editor_rules,
            }),
    {
        SettingsSnapshot {
            theme: self.theme.clone(),
            status: self.status,
            status_top: self.status_top,
            sidebar: self.sidebar,
            sidebar_width: self.sidebar_width,
            file_sidebar: self.file_sidebar,
            file_sidebar_width: self.file_sidebar_width,
            notification_delivery: self.notifications,
            notify_completion: self.notify_completion,
            focus_follows_mouse: self.focus_follows_mouse,
            confirm_close: self.confirm_close,
            confirm_tab_close: self.confirm_tab_close,
            scrollback_limit: self.scrollback_limit,
            restore: self.restore,
            guardrail_max_active_runs: self.guardrails.max_active_runs,
            guardrail_max_role_panes: self.guardrails.max_role_panes,
            guardrail_max_iterations: self.guardrails.max_iterations,
            guardrail_max_elapsed_minutes: self.guardrails.max_elapsed_seconds / 60,
            editor: self.editor.clone(),
            editor_rules: self.editor_rules.clone(),
        }
    }
}

/// No change of settings takes the limits of automation out of their bounds.
pub proof fn lemma_limits_stay_valid(
    limits: GuardLimits,
    patch: SettingsPatch,
    bounds: GuardBounds,
)
    requires
        limits.valid(bounds),
        bounds.max_elapsed_seconds >= 60,
    ensures
        limits.patched(patch, bounds).valid(bounds),
{
}

} // verus!
