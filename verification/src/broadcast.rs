//! What each client is sent: frames, the damage of a Pane, and titles. Nothing
//! is sent that the client shows already.
use crate::clients::{
    client_at, one_driver, tokens_distinct, ClientInfo, Clients, DirectAttachment,
};
use crate::text::same_text;
use crate::types::{PaneId, Rect, Token};
use vstd::prelude::*;

verus! {

/// A cell of the canvas.
#[derive(Clone, Copy, Debug, PartialEq, Eq, Structural)]
pub struct Cell {
    pub col: u16,
    pub row: u16,
}

/// What the clients that show the Workspace show.
#[derive(Debug)]
pub struct Shown {
    pub cursor: Option<Cell>,
    pub cursor_visible: Option<bool>,
    pub title: Option<String>,
}

/// The Pane whose output is to be sent, and what covers it.
#[derive(Clone, Copy, Debug, PartialEq, Eq, Structural)]
pub struct PaneOutput {
    /// The overview or a menu is open.
    pub covered: bool,
    /// Where the Pane is shown, if it is.
    pub rect: Option<Rect>,
    pub copying: bool,
    pub dirty: bool,
    /// Lines scrolled off the top since the last frame.
    pub scrolled: bool,
    pub cursor: Option<Cell>,
    pub cursor_visible: bool,
}

/// What is sent of a Pane's output.
#[derive(Clone, Copy, Debug, PartialEq, Eq, Structural)]
pub enum DamageStep {
    /// The Pane is not to be seen: forget the damage, a later frame shows all.
    Forget,
    /// The view of the Pane is frozen: keep the damage.
    Keep,
    /// The clients show it already.
    Nothing,
    /// Paint the damage at this place, by scrolling where that covers the whole
    /// width, and set the cursor's visibility where it changed.
    Paint { rect: Rect, scroll: bool, set_visible: Option<bool> },
}

/// What is sent of a Pane's output.
pub open spec fn damage(shown: Shown, out: PaneOutput, cols: u16) -> DamageStep {
    if out.covered {
        DamageStep::Forget
    } else {
        match out.rect {
            None => DamageStep::Forget,
            Some(rect) => if out.copying {
                DamageStep::Keep
            } else if !out.dirty && out.cursor == shown.cursor && shown.cursor_visible == Some(
                out.cursor_visible,
            ) {
                DamageStep::Nothing
            } else {
                DamageStep::Paint {
                    rect,
                    scroll: rect.x == 0 && rect.w == cols && out.scrolled,
                    set_visible: if shown.cursor_visible == Some(out.cursor_visible) {
                        None
                    } else {
                        Some(out.cursor_visible)
                    },
                }
            },
        }
    }
}

fn same_cell(a: Option<Cell>, b: Option<Cell>) -> (same: bool)
    ensures
        same == (a == b),
{
    match (a, b) {
        (Some(x), Some(y)) => x == y,
        (None, None) => true,
        _ => false,
    }
}

fn shows_visible(shown: Option<bool>, visible: bool) -> (same: bool)
    ensures
        same == (shown == Some(visible)),
{
    match shown {
        Some(v) => v == visible,
        None => false,
    }
}

/// The client takes frames of the Workspace.
pub open spec fn takes_frames(c: ClientInfo) -> bool {
    c.attached && !c.overlay
}

/// The tokens, among the first `n` clients, of those that take frames.
pub open spec fn frame_tokens(list: Seq<ClientInfo>, n: nat) -> Seq<Token>
    decreases n,
{
    if n == 0 {
        Seq::empty()
    } else {
        let rest = frame_tokens(list, (n - 1) as nat);
        if takes_frames(list[n - 1]) {
            rest.push(list[n - 1].token)
        } else {
            rest
        }
    }
}

/// The tokens, among the first `n` clients, of those that show the Workspace.
pub open spec fn attached_tokens(list: Seq<ClientInfo>, n: nat) -> Seq<Token>
    decreases n,
{
    if n == 0 {
        Seq::empty()
    } else {
        let rest = attached_tokens(list, (n - 1) as nat);
        if list[n - 1].attached {
            rest.push(list[n - 1].token)
        } else {
            rest
        }
    }
}

/// The client shows this Pane alone.
pub open spec fn shows_alone(c: ClientInfo, pane: PaneId) -> bool {
    c.direct matches Some(d) && d.pane == pane
}

/// The tokens, among the first `n` clients, of those that show a Pane alone.
pub open spec fn direct_tokens(list: Seq<ClientInfo>, pane: PaneId, n: nat) -> Seq<Token>
    decreases n,
{
    if n == 0 {
        Seq::empty()
    } else {
        let rest = direct_tokens(list, pane, (n - 1) as nat);
        if shows_alone(list[n - 1], pane) {
            rest.push(list[n - 1].token)
        } else {
            rest
        }
    }
}

impl Clients {
    /// The clients that take frames of the Workspace: not those that cover it.
    pub fn frame_clients(&self) -> (tokens: Vec<Token>)
        ensures
            tokens@ == frame_tokens(self.list@, self.list@.len()),
    {
        let mut tokens: Vec<Token> = Vec::new();
        let mut i: usize = 0;
        while i < self.list.len()
            invariant
                i <= self.list@.len(),
                tokens@ == frame_tokens(self.list@, i as nat),
            decreases self.list@.len() - i,
        {
            let c = self.list[i];
            if c.attached && !c.overlay {
                tokens.push(c.token);
            }
            i += 1;
        }
        tokens
    }

    /// The clients that show the Workspace, covered or not.
    pub fn attached_clients(&self) -> (tokens: Vec<Token>)
        ensures
            tokens@ == attached_tokens(self.list@, self.list@.len()),
    {
        let mut tokens: Vec<Token> = Vec::new();
        let mut i: usize = 0;
        while i < self.list.len()
            invariant
                i <= self.list@.len(),
                tokens@ == attached_tokens(self.list@, i as nat),
            decreases self.list@.len() - i,
        {
            if self.list[i].attached {
                tokens.push(self.list[i].token);
            }
            i += 1;
        }
        tokens
    }

    /// The clients that show a Pane alone.
    pub fn pane_clients(&self, pane: PaneId) -> (tokens: Vec<Token>)
        ensures
            tokens@ == direct_tokens(self.list@, pane, self.list@.len()),
    {
        let mut tokens: Vec<Token> = Vec::new();
        let mut i: usize = 0;
        while i < self.list.len()
            invariant
                i <= self.list@.len(),
                tokens@ == direct_tokens(self.list@, pane, i as nat),
            decreases self.list@.len() - i,
        {
            let there = match self.list[i].direct {
                Some(d) => d.pane == pane,
                None => false,
            };
            if there {
                tokens.push(self.list[i].token);
            }
            i += 1;
        }
        tokens
    }
}

/// What a client that shows a Pane alone is sent besides the Pane's damage.
#[derive(Clone, Copy, Debug, PartialEq, Eq, Structural)]
pub struct DirectPaint {
    pub token: Token,
    /// Show or hide the cursor; `None` where the client shows that already.
    pub set_visible: Option<bool>,
}

/// What the clients among the first `n` that show a Pane alone are sent.
pub open spec fn direct_paints(
    list: Seq<ClientInfo>,
    pane: PaneId,
    visible: bool,
    n: nat,
) -> Seq<DirectPaint>
    decreases n,
{
    if n == 0 {
        Seq::empty()
    } else {
        let rest = direct_paints(list, pane, visible, (n - 1) as nat);
        match list[n - 1].direct {
            Some(d) if d.pane == pane => rest.push(
                DirectPaint {
                    token: list[n - 1].token,
                    set_visible: if d.last_cursor_visible == Some(visible) {
                        None
                    } else {
                        Some(visible)
                    },
                },
            ),
            _ => rest,
        }
    }
}

/// A client, once it shows or hides the cursor of its Pane.
pub open spec fn with_cursor(c: ClientInfo, visible: bool) -> ClientInfo {
    match c.direct {
        Some(d) => ClientInfo {
            direct: Some(DirectAttachment { last_cursor_visible: Some(visible), ..d }),
            ..c
        },
        None => c,
    }
}

/// The clients, once those that show a Pane alone show or hide its cursor.
pub open spec fn with_cursors(list: Seq<ClientInfo>, pane: PaneId, visible: bool) -> Seq<
    ClientInfo,
> {
    Seq::new(
        list.len(),
        |i: int|
            if shows_alone(list[i], pane) {
                with_cursor(list[i], visible)
            } else {
                list[i]
            },
    )
}

/// Clients that keep their tokens, Panes and roles keep the invariant.
proof fn lemma_roles_kept(before: Seq<ClientInfo>, after: Seq<ClientInfo>)
    requires
        before.len() == after.len(),
        forall|k: int|
            0 <= k < before.len() ==> {
                &&& (#[trigger] after[k]).token == before[k].token
                &&& forall|pane: PaneId| after[k].drives(pane) == before[k].drives(pane)
            },
    ensures
        tokens_distinct(before) ==> tokens_distinct(after),
        one_driver(before) ==> one_driver(after),
{
    if tokens_distinct(before) {
        assert forall|i: int, j: int| 0 <= i < j < after.len() implies (#[trigger] after[i]).token
            != (#[trigger] after[j]).token by {
            assert(before[i].token != before[j].token);
        }
    }
    if one_driver(before) {
        assert forall|i: int, j: int, pane: PaneId|
            0 <= i < j < after.len() implies !(#[trigger] after[i].drives(pane)
            && #[trigger] after[j].drives(pane)) by {
            assert(before[i].drives(pane) == after[i].drives(pane));
            assert(before[j].drives(pane) == after[j].drives(pane));
        }
    }
}

impl Clients {
    /// Decide what the clients that show a Pane alone are sent of its output:
    /// its damage, and the cursor only where it comes or goes.
    pub fn broadcast_direct_pane_damage(&mut self, pane: PaneId, visible: bool) -> (paints: Vec<
        DirectPaint,
    >)
        ensures
            paints@ == direct_paints(old(self).list@, pane, visible, old(self).list@.len()),
            final(self).list@ == with_cursors(old(self).list@, pane, visible),
            final(self).cols == old(self).cols,
            final(self).rows == old(self).rows,
            old(self).wf() ==> final(self).wf(),
    {
        let ghost before = self.list@;
        let mut paints: Vec<DirectPaint> = Vec::new();
        let mut i: usize = 0;
        while i < self.list.len()
            invariant
                i <= self.list@.len(),
                self.list@.len() == before.len(),
                self.cols == old(self).cols,
                self.rows == old(self).rows,
                forall|k: int|
                    0 <= k < i ==> #[trigger] self.list@[k] == with_cursors(
                        before,
                        pane,
                        visible,
                    )[k],
                forall|k: int| i <= k < before.len() ==> #[trigger] self.list@[k] == before[k],
                paints@ == direct_paints(before, pane, visible, i as nat),
            decreases self.list@.len() - i,
        {
            assert(self.list@[i as int] == before[i as int]);
            if let Some(d) = self.list[i].direct {
                if d.pane == pane {
                    let known = match d.last_cursor_visible {
                        Some(shown) => shown == visible,
                        None => false,
                    };
                    paints.push(
                        DirectPaint {
                            token: self.list[i].token,
                            set_visible: if known {
                                None
                            } else {
                                Some(visible)
                            },
                        },
                    );
                    self.list[i].direct = Some(
                        DirectAttachment {
                            pane: d.pane,
                            role: d.role,
                            last_cursor_visible: Some(visible),
                        },
                    );
                }
            }
            i += 1;
        }
        assert(self.list@ =~= with_cursors(before, pane, visible));
        proof {
            lemma_roles_kept(before, self.list@);
        }
        paints
    }

    /// Note that a client was sent its Pane whole, with the cursor shown or
    /// hidden.
    pub fn full_repaint_direct_client(&mut self, token: Token, visible: bool)
        ensures
            final(self).list@ == match client_at(old(self).list@, token, 0) {
                Some(i) => old(self).list@.update(i, with_cursor(old(self).list@[i], visible)),
                None => old(self).list@,
            },
            final(self).cols == old(self).cols,
            final(self).rows == old(self).rows,
            old(self).wf() ==> final(self).wf(),
    {
        let ghost before = self.list@;
        if let Some(i) = self.position(token) {
            if let Some(d) = self.list[i].direct {
                self.list[i].direct = Some(
                    DirectAttachment {
                        pane: d.pane,
                        role: d.role,
                        last_cursor_visible: Some(visible),
                    },
                );
            }
            assert(self.list@ =~= before.update(i as int, with_cursor(before[i as int], visible)));
            proof {
                lemma_roles_kept(before, self.list@);
            }
        }
    }
}

/// What a client shows of the cursor is told once: repeated output of a Pane
/// whose cursor stays as it is asks for no change of it.
pub proof fn lemma_cursor_told_once(list: Seq<ClientInfo>, pane: PaneId, visible: bool, n: nat)
    requires
        n <= list.len(),
    ensures
        forall|k: int|
            0 <= k < direct_paints(with_cursors(list, pane, visible), pane, visible, n).len() ==> (
            #[trigger] direct_paints(
                with_cursors(list, pane, visible),
                pane,
                visible,
                n,
            )[k]).set_visible is None,
    decreases n,
{
    if n > 0 {
        lemma_cursor_told_once(list, pane, visible, (n - 1) as nat);
    }
}

/// A title is there and is not the one shown.
pub open spec fn title_changed(shown: Option<String>, title: Option<String>) -> bool {
    title matches Some(new) && !(shown matches Some(old_title) && old_title@ == new@)
}

impl Shown {
    pub fn new() -> (shown: Shown)
        ensures
            shown == (Shown { cursor: None, cursor_visible: None, title: None }),
    {
        Shown { cursor: None, cursor_visible: None, title: None }
    }

    /// Decide what is sent of a Pane's output. What is painted is then shown.
    pub fn broadcast_pane_damage(&mut self, out: PaneOutput, cols: u16) -> (step: DamageStep)
        ensures
            step == damage(*old(self), out, cols),
            *final(self) == if step is Paint {
                Shown {
                    cursor: out.cursor,
                    cursor_visible: Some(out.cursor_visible),
                    ..*old(self)
                }
            } else {
                *old(self)
            },
    {
        if out.covered {
            return DamageStep::Forget;
        }
        let rect = match out.rect {
            Some(rect) => rect,
            None => {
                return DamageStep::Forget;
            },
        };
        if out.copying {
            return DamageStep::Keep;
        }
        let kept = shows_visible(self.cursor_visible, out.cursor_visible);
        if !out.dirty && same_cell(out.cursor, self.cursor) && kept {
            return DamageStep::Nothing;
        }
        self.cursor = out.cursor;
        self.cursor_visible = Some(out.cursor_visible);
        DamageStep::Paint {
            rect,
            scroll: rect.x == 0 && rect.w == cols && out.scrolled,
            set_visible: if kept {
                None
            } else {
                Some(out.cursor_visible)
            },
        }
    }

    /// Note that a whole frame was sent to every client, with its title. The
    /// overview and menus park no cursor.
    pub fn full_repaint_all(
        &mut self,
        covered: bool,
        cursor: Option<Cell>,
        visible: bool,
        title: Option<String>,
    )
        ensures
            *final(self) == (Shown {
                cursor: if covered {
                    None
                } else {
                    cursor
                },
                cursor_visible: Some(visible),
                title,
            }),
    {
        self.cursor = if covered {
            None
        } else {
            cursor
        };
        self.cursor_visible = Some(visible);
        self.title = title;
    }

    /// Note that a whole frame was sent to one client. Its title counts as shown
    /// only where no other client shows the Workspace.
    pub fn full_repaint_client(
        &mut self,
        covered: bool,
        cursor: Option<Cell>,
        visible: bool,
        title: Option<String>,
        sole: bool,
    )
        ensures
            *final(self) == (Shown {
                cursor: if covered {
                    old(self).cursor
                } else {
                    cursor
                },
                cursor_visible: Some(visible),
                title: if sole {
                    title
                } else {
                    old(self).title
                },
            }),
    {
        if !covered {
            self.cursor = cursor;
        }
        self.cursor_visible = Some(visible);
        if sole {
            self.title = title;
        }
    }

    /// Whether the title is to be sent; it is then shown. No title leaves the
    /// last one.
    pub fn sync_window_titles(&mut self, title: Option<String>) -> (send: bool)
        ensures
            send == title_changed(old(self).title, title),
            *final(self) == if send {
                Shown { title, ..*old(self) }
            } else {
                *old(self)
            },
    {
        let changed = match (&title, &self.title) {
            (Some(new), Some(known)) => !same_text(new.as_str(), known.as_str()),
            (Some(_), None) => true,
            (None, _) => false,
        };
        if changed {
            self.title = title;
        }
        changed
    }
}

/// The same output twice: what was painted once is not sent again, and a title
/// that was sent is not sent again.
pub proof fn lemma_nothing_sent_twice(shown: Shown, out: PaneOutput, cols: u16, title: Option<String>)
    requires
        damage(shown, out, cols) is Paint,
    ensures
        ({
            let after = Shown {
                cursor: out.cursor,
                cursor_visible: Some(out.cursor_visible),
                ..shown
            };
            damage(after, PaneOutput { dirty: false, ..out }, cols) is Nothing
        }),
        title_changed(shown.title, title) ==> !title_changed(title, title),
{
}

/// The client is owed the last frame of a Pane that closes: it shows the
/// Workspace, lives, and had no room for the damage.
pub fn owes_final_frame(client: ClientInfo, repaint_pending: bool) -> (owed: bool)
    ensures
        owed == (client.attached && client.direct is None && !client.dead && repaint_pending),
{
    client.attached && client.direct.is_none() && !client.dead && repaint_pending
}

} // verus!
