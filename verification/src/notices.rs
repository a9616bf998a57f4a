//! How the user is told: by a toast, through the outer terminal, by the
//! desktop, and by sound.
use crate::detection::AgentStatus;
use crate::hierarchy::Workspace;
use crate::notify::{
    location_text, notice_body, notice_title, terminal_notice, terminal_notice_text, wants_attention,
    TOAST_MS,
};
use crate::session::Toast;
use crate::settings::NotificationDelivery;
use crate::types::PaneId;
use vstd::prelude::*;

verus! {

/// What a sound stands for.
#[derive(Clone, Copy, Debug, PartialEq, Eq, Structural)]
pub enum ChimeKind {
    Attention,
    Done,
}

/// A sound that every attached client is asked to play. `pane_active` says that
/// the agent's Pane has the focus.
#[derive(Clone, Copy, Debug, PartialEq, Eq, Structural)]
pub struct Chime {
    pub kind: ChimeKind,
    pub pane_active: bool,
}

/// How a change of an agent is told.
#[derive(Debug)]
pub enum Notice {
    Silent,
    Toast(Toast),
    /// Bytes for the outer terminals of the attached clients.
    Terminal(String),
    System { title: String, body: String },
}

/// The title of the notice.
pub open spec fn title_text(agent: Seq<char>, previous: AgentStatus, status: AgentStatus) -> Seq<
    char,
> {
    if wants_attention(previous, status) {
        agent + " needs input"@
    } else {
        agent + " finished"@
    }
}

/// The body of the notice.
pub open spec fn body_text(
    label: Seq<char>,
    location: Seq<char>,
    previous: AgentStatus,
    status: AgentStatus,
) -> Seq<char> {
    if wants_attention(previous, status) {
        label + " in "@ + location
    } else {
        location
    }
}

/// A change is told in the chosen way.
pub open spec fn told(
    delivery: NotificationDelivery,
    notice: Notice,
    pane: PaneId,
    title: Seq<char>,
    body: Seq<char>,
    now: u64,
) -> bool {
    match delivery {
        NotificationDelivery::Off => notice is Silent,
        NotificationDelivery::Uniterm => notice matches Notice::Toast(toast) && toast.pane == pane
            && toast.title@ == title && toast.body@ == body && toast.expires == now + TOAST_MS,
        NotificationDelivery::Terminal => notice matches Notice::Terminal(text) && text@
            == terminal_notice_text(title, body),
        NotificationDelivery::System => notice matches Notice::System { title: t, body: b } && t@
            == title && b@ == body,
    }
}

/// The agent whose status changed.
#[derive(Debug)]
pub struct ChangedAgent {
    pub pane: PaneId,
    /// The agent's name, and what its status is called.
    pub name: String,
    pub label: String,
    pub previous: AgentStatus,
    pub status: AgentStatus,
}

impl Workspace {
    /// Tell of a change of an agent. The sound goes with the notice, though the
    /// notice may be off.
    pub fn deliver_agent_notification(
        &self,
        workspace: &str,
        agent: &ChangedAgent,
        delivery: NotificationDelivery,
        sound: bool,
        now: u64,
    ) -> (out: (Option<Chime>, Notice))
        requires
            self@.wf(),
            now <= u64::MAX - TOAST_MS,
        ensures
            out.0 == if sound {
                Some(
                    Chime {
                        kind: if wants_attention(agent.previous, agent.status) {
                            ChimeKind::Attention
                        } else {
                            ChimeKind::Done
                        },
                        pane_active: self@.tab().active == agent.pane,
                    },
                )
            } else {
                None
            },
            told(
                delivery,
                out.1,
                agent.pane,
                title_text(agent.name@, agent.previous, agent.status),
                body_text(
                    agent.label@,
                    location_text(self@, agent.pane, workspace@),
                    agent.previous,
                    agent.status,
                ),
                now,
            ),
    {
        let title = notice_title(agent.name.as_str(), agent.previous, agent.status);
        let location = self.pane_location(agent.pane, workspace);
        let body = notice_body(agent.label.as_str(), location, agent.previous, agent.status);
        let chime = if sound {
            let attention = agent.status.needs_human() && !agent.previous.needs_human();
            Some(
                Chime {
                    kind: if attention {
                        ChimeKind::Attention
                    } else {
                        ChimeKind::Done
                    },
                    pane_active: self.windows[self.active_window].active == agent.pane,
                },
            )
        } else {
            None
        };
        let notice = match delivery {
            NotificationDelivery::Off => Notice::Silent,
            NotificationDelivery::Uniterm => Notice::Toast(
                Toast { pane: agent.pane, title, body, expires: now + TOAST_MS },
            ),
            NotificationDelivery::Terminal => Notice::Terminal(
                terminal_notice(title.as_str(), body.as_str()),
            ),
            NotificationDelivery::System => Notice::System { title, body },
        };
        (chime, notice)
    }

    /// The notice that a limit on runs was reached.
    pub fn show_guardrail_toast(&self, body: &str, now: u64) -> (toast: Toast)
        requires
            self@.wf(),
            now <= u64::MAX - TOAST_MS,
        ensures
            toast.pane == self@.tab().active,
            toast.title@ == "Guardrail"@,
            toast.body@ == body@,
            toast.expires == now + TOAST_MS,
    {
        Toast {
            pane: self.windows[self.active_window].active,
            title: "Guardrail".to_owned(),
            body: body.to_owned(),
            expires: now + TOAST_MS,
        }
    }
}

/// Take a toast away whose time is over; whether there was one.
pub fn expire_toast(toast: &mut Option<Toast>, now: u64) -> (gone: bool)
    ensures
        gone == (*old(toast) matches Some(shown) && shown.expires <= now),
        *final(toast) == if gone {
            None
        } else {
            *old(toast)
        },
{
    let over = match toast {
        Some(shown) => shown.expires <= now,
        None => false,
    };
    if over {
        *toast = None;
    }
    over
}

} // verus!
