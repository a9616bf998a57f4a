//! Commands as the server carries them out: what a command closes is closed
//! everywhere, not in the hierarchy alone.
use crate::canvas::Canvas;
use crate::closing::{lemma_forgotten_stays, Forgotten, PaneClosing};
use crate::commands::{is_saved, Command, CommandEffect, CommandInputs, FileTreeChange};
use crate::following::Shift;
use crate::hierarchy::{joined, tabs_of, unshown, Win, WorkspaceState};
use crate::layout::{lemma_panes_nonempty, lemma_with_split};
use crate::projects::{lemma_active_position, swapped};
use crate::reaper::TERM_GRACE_MS;
use crate::replies::RuntimeSide;
use crate::server::{ids_below, Server};
use crate::session::Session;
use crate::settings::Config;
use crate::tabs::{lemma_tabs_among, ClosedPane};
use crate::types::PaneId;
use vstd::prelude::*;

verus! {

/// A command that was carried out.
#[derive(Debug)]
pub struct ServerCommand {
    pub effect: CommandEffect,
    /// What each Pane that it closed leaves to do, in the order of closing.
    pub closings: Vec<PaneClosing>,
    /// Another Project became active without a Pane that was closed.
    pub follow: FileTreeChange,
}

/// What closings did to the hierarchy.
pub open spec fn closed_panes(closings: Seq<PaneClosing>) -> Seq<ClosedPane> {
    Seq::new(closings.len(), |i: int| closings[i].done)
}

/// The server went through `states` as Panes were closed in turn.
pub open spec fn closed_in_turn(
    states: Seq<Server>,
    panes: Seq<PaneId>,
    now: u64,
    closings: Seq<PaneClosing>,
) -> bool {
    &&& states.len() == closings.len() + 1
    &&& closings.len() <= panes.len()
    &&& forall|k: int|
        0 <= k < closings.len() ==> (#[trigger] states[k]).closed(
            states[k + 1],
            panes[k],
            now,
            closings[k],
        )
}

/// The notes of a Project are gone.
pub open spec fn notes_gone(server: Server, closing: PaneClosing) -> bool {
    closing.done.removed_project matches Some(project) ==> forall|key: Seq<char>|
        !#[trigger] server.project_notes@.dom().contains((project.0, key))
}

/// Only Panes that were shown before are shown, and `spawned`.
pub open spec fn shows_no_more(before: Seq<Win>, after: Seq<Win>, spawned: Option<PaneId>) -> bool {
    forall|q: PaneId|
        unshown(before, q) && spawned != Some(q) ==> #[trigger] unshown(after, q)
}

pub(crate) proof fn lemma_updated_tab(windows: Seq<Win>, w: int, win: Win, spawned: Option<PaneId>)
    requires
        0 <= w < windows.len(),
        forall|q: PaneId| #[trigger] win.shows(q) ==> windows[w].shows(q) || spawned == Some(q),
    ensures
        shows_no_more(windows, windows.update(w, win), spawned),
{
    let after = windows.update(w, win);
    assert forall|q: PaneId| unshown(windows, q) && spawned != Some(q) implies #[trigger] unshown(
        after,
        q,
    ) by {
        assert forall|i: int| 0 <= i < after.len() implies !(#[trigger] after[i]).shows(q) by {
            assert(!windows[i].shows(q));
            assert(!windows[w].shows(q));
        }
    }
}

/// A command that closes nothing shows no Pane but those shown before, and the
/// one opened for it.
proof fn lemma_commanded_shows(s: WorkspaceState, cmd: Command, inputs: CommandInputs)
    requires
        s.wf(),
        s.windows.len() <= usize::MAX,
        !(cmd is KillPane),
        inputs.neighbor matches Some(pane) ==> s.tab().shows(pane),
        inputs.resized matches Some(layout) ==> layout.panes() == s.tab().layout.panes(),
    ensures
        shows_no_more(s.windows, s.commanded(cmd, inputs).windows, inputs.spawned),
{
    let w = s.active_window;
    let win = s.windows[w];
    match cmd {
        Command::Split(axis) => {
            if let Some(pane) = inputs.spawned {
                let dir = crate::commands::split_dir(axis);
                lemma_with_split(win.layout, win.active, dir, pane);
                lemma_updated_tab(s.windows, w, joined(win, dir, pane), inputs.spawned);
            }
        },
        Command::NewWindow => {
            if let Some(pane) = inputs.spawned {
                crate::hierarchy::lemma_single(s.active_project, pane, None);
                let after = s.push(pane).windows;
                assert forall|q: PaneId|
                    unshown(s.windows, q) && inputs.spawned != Some(q) implies #[trigger] unshown(
                    after,
                    q,
                ) by {
                    assert forall|i: int| 0 <= i < after.len() implies !(
                    #[trigger] after[i]).shows(q) by {
                        if i < s.windows.len() {
                            assert(!s.windows[i].shows(q));
                        }
                    }
                }
            }
        },
        Command::Focus(_) => {
            if let Some(pane) = inputs.neighbor {
                lemma_updated_tab(s.windows, w, s.move_focus(pane).windows[w], None);
            }
        },
        Command::ZoomToggle => {
            lemma_updated_tab(s.windows, w, s.toggle_zoom().windows[w], None);
        },
        Command::LastPane => {
            if let Some(pane) = s.previous_pane() {
                lemma_updated_tab(s.windows, w, s.move_focus(pane).windows[w], None);
            }
        },
        Command::ResizePane(_) => {
            if let Some(layout) = inputs.resized {
                lemma_updated_tab(s.windows, w, Win { layout, ..win }, None);
            }
        },
        Command::MoveTab(direction) => {
            if let Some(at) = s.tab_move(direction) {
                lemma_active_position(s);
                lemma_tabs_among(s.windows, s.active_project, s.windows.len());
                let tabs = tabs_of(s.windows, s.active_project);
                let to = tabs[at] as int;
                assert(0 <= to < s.windows.len());
                let after = swapped(s.windows, w, to);
                assert forall|q: PaneId| unshown(s.windows, q) implies #[trigger] unshown(
                    after,
                    q,
                ) by {
                    assert forall|i: int| 0 <= i < after.len() implies !(
                    #[trigger] after[i]).shows(q) by {
                        assert(!s.windows[i].shows(q));
                        assert(!s.windows[w].shows(q));
                        assert(!s.windows[to].shows(q));
                    }
                }
            }
        },
        _ => {},
    }
}

pub(crate) proof fn lemma_ids_below(before: Seq<Win>, after: Seq<Win>, spawned: Option<PaneId>, next: int)
    requires
        ids_below(before, next),
        shows_no_more(before, after, spawned),
        spawned matches Some(pane) ==> pane.0 < next,
    ensures
        ids_below(after, next),
{
    assert forall|q: PaneId| #[trigger] unshown(after, q) || q.0 < next by {
        assert(unshown(before, q) || q.0 < next);
    }
}

/// Closing another Pane brings nothing of a closed one back.
proof fn lemma_stays_forgotten(
    before: Server,
    after: Server,
    pane: PaneId,
    gone: PaneId,
    now: u64,
    out: PaneClosing,
)
    requires
        before.wf(),
        before.session.workspace@.windows.len() <= usize::MAX,
        before.knows_nothing_of(gone),
        before.closed(after, pane, now, out),
    ensures
        after.knows_nothing_of(gone),
{
    let s = before.session.workspace@;
    crate::tabs::lemma_close_tabs(s, pane);
    assert(unshown(s.windows_without(pane), gone));
    lemma_forgotten_stays(
        before,
        after,
        pane,
        gone,
        now,
        Forgotten {
            ended: out.ended,
            instructions: out.instructions,
            servers_changed: out.servers_changed,
            watch: out.watch,
            retired: out.retired,
        },
    );
}

proof fn lemma_notes_stay_gone(
    before: Server,
    after: Server,
    pane: PaneId,
    now: u64,
    old_out: PaneClosing,
    out: PaneClosing,
)
    requires
        notes_gone(before, old_out),
        before.closed(after, pane, now, out),
    ensures
        notes_gone(after, old_out),
{
}

impl Command {
    /// The command closes Panes.
    pub open spec fn kills(self) -> bool {
        self is KillPane || self is KillWindow
    }
}

impl WorkspaceState {
    /// The Panes that a command closes.
    pub open spec fn killed(self, cmd: Command) -> Seq<PaneId> {
        match cmd {
            Command::KillPane => seq![self.tab().active],
            Command::KillWindow => self.tab().layout.panes(),
            _ => Seq::empty(),
        }
    }
}

impl Server {
    /// Close Panes in turn, until no Tab is left.
    fn close_in_turn(&mut self, panes: &Vec<PaneId>, now: u64) -> (closings: Vec<PaneClosing>)
        requires
            old(self).wf(),
            now <= u64::MAX - TERM_GRACE_MS,
            panes@.len() > 0,
        ensures
            exists|states: Seq<Server>|
                {
                    &&& #[trigger] closed_in_turn(states, panes@, now, closings@)
                    &&& states[0] == *old(self)
                    &&& states.last() == *final(self)
                },
            1 <= closings@.len() <= panes@.len(),
            forall|k: int| 0 <= k < closings@.len() - 1 ==> !(#[trigger] closings@[k]).done.stopped,
            !closings@.last().done.stopped ==> closings@.len() == panes@.len() && final(self).wf(),
            closings@.last().done.stopped == (final(self).session.workspace@.windows.len() == 0),
            forall|k: int|
                0 <= k < closings@.len() ==> final(self).knows_nothing_of(#[trigger] panes@[k]),
            forall|k: int|
                0 <= k < closings@.len() ==> notes_gone(*final(self), #[trigger] closings@[k]),
            old(self).unchanged_elsewhere(*final(self)),
    {
        let mut closings: Vec<PaneClosing> = Vec::new();
        let ghost mut states: Seq<Server> = seq![*self];
        let mut i: usize = 0;
        while i < panes.len()
            invariant
                i <= panes@.len(),
                panes@.len() > 0,
                now <= u64::MAX - TERM_GRACE_MS,
                closings@.len() == i,
                self.wf(),
                closed_in_turn(states, panes@, now, closings@),
                states[0] == *old(self),
                states.last() == *self,
                old(self).unchanged_elsewhere(*self),
                i > 0 ==> self.session.workspace@.windows.len() > 0,
                forall|k: int| 0 <= k < closings@.len() ==> !(#[trigger] closings@[k]).done.stopped,
                forall|k: int| 0 <= k < i ==> self.knows_nothing_of(#[trigger] panes@[k]),
                forall|k: int| 0 <= k < i ==> notes_gone(*self, #[trigger] closings@[k]),
            decreases panes@.len() - i,
        {
            let ghost before = *self;
            let ghost earlier = closings@;
            assert(self.session.workspace.windows.len() <= usize::MAX);
            let out = self.close_pane(panes[i], now);
            let stopped = out.done.stopped;
            let ghost said = out;
            closings.push(out);
            proof {
                let grown = states.push(*self);
                assert forall|k: int| 0 <= k < closings@.len() implies (#[trigger] grown[k]).closed(
                    grown[k + 1],
                    panes@[k],
                    now,
                    closings@[k],
                ) by {
                    if k < i {
                        assert(states[k].closed(states[k + 1], panes@[k], now, earlier[k]));
                    }
                }
                assert(grown.last() == *self);
                states = grown;
                assert(closed_in_turn(states, panes@, now, closings@));
                assert forall|k: int| 0 <= k < i + 1 implies self.knows_nothing_of(
                    #[trigger] panes@[k],
                ) by {
                    if k < i {
                        lemma_stays_forgotten(before, *self, panes@[i as int], panes@[k], now, said);
                    }
                }
                assert forall|k: int| 0 <= k < i + 1 implies notes_gone(
                    *self,
                    #[trigger] closings@[k],
                ) by {
                    if k < i {
                        assert(closings@[k] == earlier[k]);
                        lemma_notes_stay_gone(
                            before,
                            *self,
                            panes@[i as int],
                            now,
                            earlier[k],
                            said,
                        );
                    }
                }
            }
            i += 1;
            if stopped {
                assert(closed_in_turn(states, panes@, now, closings@));
                assert(states[0] == *old(self) && states.last() == *self);
                return closings;
            }
        }
        closings
    }

    /// What a command that closes no Pane does to the hierarchy and the view.
    pub(crate) fn command_session(&mut self, cmd: Command, inputs: CommandInputs) -> (effect: CommandEffect)
        requires
            old(self).wf(),
            !cmd.kills(),
            inputs.spawned matches Some(pane) ==> unshown(
                old(self).session.workspace@.windows,
                pane,
            ) && pane.0 < old(self).next_pane_id,
            inputs.neighbor matches Some(pane) ==> old(self).session.workspace@.tab().shows(pane),
            inputs.resized matches Some(layout) ==> layout.panes() == old(
                self,
            ).session.workspace@.tab().layout.panes(),
        ensures
            final(self).session.view == old(self).session.view.commanded(cmd),
            effect.files == old(self).session.view.file_tree(cmd),
            effect.relayout == old(self).session.workspace@.moves(cmd, inputs),
            effect.save_config == is_saved(cmd),
            effect.copy_mode == (cmd is CopyMode),
            effect.persist,
            effect.repaint == (effect.relayout || cmd is Overview || old(
                self,
            ).session.view.context_menu),
            effect.closed@.len() == 0,
            final(self).session.workspace@ == old(self).session.workspace@.commanded(cmd, inputs),
            *final(self) == (Server {
                session: Session {
                    workspace: final(self).session.workspace,
                    view: final(self).session.view,
                    ..old(self).session
                },
                ..*old(self)
            }),
            final(self).session.workspace@.windows.len() > 0 ==> final(self).wf(),
    {
        let ghost s = self.session.workspace@;
        assert(self.session.workspace.windows.len() <= usize::MAX);
        proof {
            lemma_commanded_shows(s, cmd, inputs);
            lemma_ids_below(
                s.windows,
                s.commanded(cmd, inputs).windows,
                inputs.spawned,
                self.next_pane_id as int,
            );
        }
        self.session.workspace.handle_command(
            &mut self.session.view,
            cmd,
            inputs,
        )
    }

    /// Carry out a command that closes no Pane. A sidebar that it switches is
    /// switched in the settings too.
    fn switch(&mut self, cmd: Command, inputs: CommandInputs) -> (out: ServerCommand)
        requires
            old(self).wf(),
            !cmd.kills(),
            inputs.spawned matches Some(pane) ==> unshown(
                old(self).session.workspace@.windows,
                pane,
            ) && pane.0 < old(self).next_pane_id,
            inputs.neighbor matches Some(pane) ==> old(self).session.workspace@.tab().shows(pane),
            inputs.resized matches Some(layout) ==> layout.panes() == old(
                self,
            ).session.workspace@.tab().layout.panes(),
        ensures
            final(self).session.view == old(self).session.view.commanded(cmd),
            out.effect.files == old(self).session.view.file_tree(cmd),
            out.effect.relayout == old(self).session.workspace@.moves(cmd, inputs),
            out.effect.save_config == is_saved(cmd),
            out.effect.copy_mode == (cmd is CopyMode),
            out.effect.persist,
            out.effect.repaint == (out.effect.relayout || cmd is Overview || old(
                self,
            ).session.view.context_menu),
            out.effect.closed@.len() == 0,
            out.closings@.len() == 0,
            out.follow == final(self).session.follows(
                old(self).session.workspace@.active_project,
                Shift::Activated,
            ),
            final(self).session.workspace@ == old(self).session.workspace@.commanded(cmd, inputs),
            *final(self) == (Server {
                session: Session {
                    workspace: final(self).session.workspace,
                    view: final(self).session.view,
                    frame: Canvas {
                        sidebar: final(self).session.view.sidebar,
                        file_sidebar: final(self).session.view.file_sidebar,
                        ..old(self).session.frame
                    },
                    ..old(self).session
                },
                runtime: RuntimeSide {
                    config: Config {
                        sidebar: final(self).session.view.sidebar,
                        file_sidebar: final(self).session.view.file_sidebar,
                        ..old(self).runtime.config
                    },
                    ..old(self).runtime
                },
                ..*old(self)
            }),
            final(self).session.workspace@.windows.len() > 0 ==> final(self).wf(),
            old(self).configured() ==> final(self).configured(),
    {
        let before = self.session.workspace.active_project;
        let effect = self.command_session(cmd, inputs);
        let ghost mid = *self;
        self.follow_view();
        assert(self.session.canvas() == mid.session.canvas());
        let closings: Vec<PaneClosing> = Vec::new();
        let follow = self.session.follow_project(before, Shift::Activated);
        ServerCommand { effect, closings, follow }
    }

    /// Carry out a command that closes Panes.
    #[verifier::rlimit(40)]
    #[verifier::spinoff_prover]
    fn kill(&mut self, cmd: Command, now: u64) -> (out: ServerCommand)
        requires
            old(self).wf(),
            cmd.kills(),
            now <= u64::MAX - TERM_GRACE_MS,
        ensures
            final(self).session.view == old(self).session.view.commanded(cmd),
            out.effect.files == old(self).session.view.file_tree(cmd),
            !out.effect.relayout,
            !out.effect.save_config,
            !out.effect.copy_mode,
            out.effect.persist == !(cmd is KillWindow
                && final(self).session.workspace@.windows.len() == 0),
            out.effect.repaint == (out.effect.persist && old(self).session.view.context_menu),
            out.effect.closed@ == closed_panes(out.closings@),
            ({
                let panes = old(self).session.workspace@.killed(cmd);
                let start = (Server {
                    session: Session {
                        view: old(self).session.view.commanded(cmd),
                        ..old(self).session
                    },
                    ..*old(self)
                });
                &&& exists|states: Seq<Server>|
                    {
                        &&& #[trigger] closed_in_turn(states, panes, now, out.closings@)
                        &&& states[0] == start
                        &&& states.last() == *final(self)
                    }
                &&& 1 <= out.closings@.len() <= panes.len()
                &&& out.follow is Nothing
                &&& forall|k: int|
                    0 <= k < out.closings@.len() - 1 ==> !(
                    #[trigger] out.closings@[k]).done.stopped
                &&& !out.closings@.last().done.stopped ==> out.closings@.len() == panes.len()
                &&& out.closings@.last().done.stopped == (
                final(self).session.workspace@.windows.len() == 0)
                &&& forall|k: int|
                    0 <= k < out.closings@.len() ==> final(self).knows_nothing_of(
                        #[trigger] panes[k],
                    )
                &&& forall|k: int|
                    0 <= k < out.closings@.len() ==> notes_gone(
                        *final(self),
                        #[trigger] out.closings@[k],
                    )
            }),
            final(self).session.workspace@.windows.len() > 0 ==> final(self).wf(),
    {
        let ghost s = self.session.workspace@;
        let dismissed = self.session.view.context_menu;
        let files = self.session.view.apply_command(cmd);
        let tab = self.session.workspace.active_window;
        proof {
            assert(s.windows[s.active_window].wf());
            lemma_panes_nonempty(s.tab().layout);
        }
        let panes = match cmd {
            Command::KillWindow => self.session.workspace.windows[tab].layout.pane_ids(),
            _ => {
                let mut one: Vec<PaneId> = Vec::new();
                one.push(self.session.workspace.windows[tab].active);
                one
            },
        };
        assert(panes@ =~= s.killed(cmd));
        let closings = self.close_in_turn(&panes, now);
        let window = match cmd {
            Command::KillWindow => true,
            _ => false,
        };
        let persist = !(window && closings[closings.len() - 1].done.stopped);
        let closed = list_closed(&closings);
        ServerCommand {
            effect: CommandEffect {
                relayout: false,
                repaint: persist && dismissed,
                save_config: false,
                copy_mode: false,
                files,
                closed,
                persist,
            },
            closings,
            follow: FileTreeChange::Nothing,
        }
    }

    /// Carry out a command. What it closes is closed everywhere: the server
    /// knows nothing of a closed Pane, nor of the notes of a Project that went
    /// with it.
    pub fn handle_command(&mut self, cmd: Command, inputs: CommandInputs, now: u64) -> (out:
        ServerCommand)
        requires
            old(self).wf(),
            now <= u64::MAX - TERM_GRACE_MS,
            inputs.spawned matches Some(pane) ==> unshown(
                old(self).session.workspace@.windows,
                pane,
            ) && pane.0 < old(self).next_pane_id,
            inputs.neighbor matches Some(pane) ==> old(self).session.workspace@.tab().shows(pane),
            inputs.resized matches Some(layout) ==> layout.panes() == old(
                self,
            ).session.workspace@.tab().layout.panes(),
        ensures
            final(self).session.view == old(self).session.view.commanded(cmd),
            out.effect.files == old(self).session.view.file_tree(cmd),
            out.effect.relayout == old(self).session.workspace@.moves(cmd, inputs),
            out.effect.save_config == is_saved(cmd),
            out.effect.copy_mode == (cmd is CopyMode),
            out.effect.persist == !(cmd is KillWindow
                && final(self).session.workspace@.windows.len() == 0),
            out.effect.repaint == (out.effect.persist && (out.effect.relayout || cmd is Overview
                || old(self).session.view.context_menu)),
            out.effect.closed@ == closed_panes(out.closings@),
            !cmd.kills() ==> {
                &&& out.closings@.len() == 0
                &&& out.follow == final(self).session.follows(
                    old(self).session.workspace@.active_project,
                    Shift::Activated,
                )
                &&& final(self).session.workspace@ == old(self).session.workspace@.commanded(
                    cmd,
                    inputs,
                )
                &&& *final(self) == (Server {
                    session: Session {
                        workspace: final(self).session.workspace,
                        view: final(self).session.view,
                        frame: Canvas {
                            sidebar: final(self).session.view.sidebar,
                            file_sidebar: final(self).session.view.file_sidebar,
                            ..old(self).session.frame
                        },
                        ..old(self).session
                    },
                    runtime: RuntimeSide {
                        config: Config {
                            sidebar: final(self).session.view.sidebar,
                            file_sidebar: final(self).session.view.file_sidebar,
                            ..old(self).runtime.config
                        },
                        ..old(self).runtime
                    },
                    ..*old(self)
                })
                &&& old(self).configured() ==> final(self).configured()
            },
            cmd.kills() ==> {
                let panes = old(self).session.workspace@.killed(cmd);
                let start = (Server {
                    session: Session {
                        view: old(self).session.view.commanded(cmd),
                        ..old(self).session
                    },
                    ..*old(self)
                });
                &&& exists|states: Seq<Server>|
                    {
                        &&& #[trigger] closed_in_turn(states, panes, now, out.closings@)
                        &&& states[0] == start
                        &&& states.last() == *final(self)
                    }
                &&& 1 <= out.closings@.len() <= panes.len()
                &&& out.follow is Nothing
                &&& forall|k: int|
                    0 <= k < out.closings@.len() - 1 ==> !(
                    #[trigger] out.closings@[k]).done.stopped
                &&& !out.closings@.last().done.stopped ==> out.closings@.len() == panes.len()
                &&& out.closings@.last().done.stopped == (
                final(self).session.workspace@.windows.len() == 0)
                &&& forall|k: int|
                    0 <= k < out.closings@.len() ==> final(self).knows_nothing_of(
                        #[trigger] panes[k],
                    )
                &&& forall|k: int|
                    0 <= k < out.closings@.len() ==> notes_gone(
                        *final(self),
                        #[trigger] out.closings@[k],
                    )
            },
            final(self).session.workspace@.windows.len() > 0 ==> final(self).wf(),
    {
        let kills = match cmd {
            Command::KillPane | Command::KillWindow => true,
            _ => false,
        };
        if !kills {
            return self.switch(cmd, inputs);
        }
        self.kill(cmd, now)
    }
}

fn list_closed(closings: &Vec<PaneClosing>) -> (list: Vec<ClosedPane>)
    ensures
        list@ == closed_panes(closings@),
{
    let mut list: Vec<ClosedPane> = Vec::new();
    let mut i: usize = 0;
    while i < closings.len()
        invariant
            i <= closings@.len(),
            list@ == closed_panes(closings@).take(i as int),
        decreases closings@.len() - i,
    {
        list.push(closings[i].done);
        i += 1;
        assert(list@ =~= closed_panes(closings@).take(i as int));
    }
    assert(closed_panes(closings@).take(i as int) =~= closed_panes(closings@));
    list
}

} // verus!
