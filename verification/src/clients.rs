//! Attached clients: the shared viewport, overlays, and clients that are
//! attached to a single Pane.
use crate::types::{PaneId, Token};
use vstd::prelude::*;

verus! {

/// What a client may do in the Pane that it is attached to.
#[derive(Clone, Copy, Debug, PartialEq, Eq, Structural)]
pub enum PaneAttachRole {
    Controller,
    Observer,
    Takeover,
}

impl PaneAttachRole {
    /// The role may type.
    pub open spec fn controls(self) -> bool {
        self == PaneAttachRole::Controller || self == PaneAttachRole::Takeover
    }

    /// Whether the role may type.
    pub fn can_control(&self) -> (can: bool)
        ensures
            can == self.controls(),
    {
        match self {
            PaneAttachRole::Controller | PaneAttachRole::Takeover => true,
            PaneAttachRole::Observer => false,
        }
    }
}

/// A client's attachment to a single Pane.
#[derive(Clone, Copy, Debug, PartialEq, Eq, Structural)]
pub struct DirectAttachment {
    pub pane: PaneId,
    pub role: PaneAttachRole,
    pub last_cursor_visible: Option<bool>,
}

/// One client.
#[derive(Clone, Copy, Debug, PartialEq, Eq, Structural)]
pub struct ClientInfo {
    pub token: Token,
    /// The client shows the Workspace.
    pub attached: bool,
    /// The client asked for a single Pane, and is held to that.
    pub direct_only: bool,
    pub direct: Option<DirectAttachment>,
    /// The client covers the canvas with a view of its own.
    pub overlay: bool,
    pub cols: u16,
    pub rows: u16,
    pub dead: bool,
}

/// All clients and the size of the canvas that they share.
#[derive(Debug)]
pub struct Clients {
    pub list: Vec<ClientInfo>,
    pub cols: u16,
    pub rows: u16,
}

/// A size of at least one.
pub open spec fn at_least_one(n: u16) -> u16 {
    if n == 0 {
        1
    } else {
        n
    }
}

fn not_zero(n: u16) -> (out: u16)
    ensures
        out == at_least_one(n),
{
    if n == 0 {
        1
    } else {
        n
    }
}

impl ClientInfo {
    /// The client shows the Workspace and lives.
    pub open spec fn watches(self) -> bool {
        self.attached && !self.dead
    }

    /// The client types into this Pane.
    pub open spec fn drives(self, pane: PaneId) -> bool {
        self.direct matches Some(d) && d.pane == pane && d.role.controls()
    }

    /// A client that has just connected.
    pub fn connected(token: Token, cols: u16, rows: u16) -> (client: ClientInfo)
        ensures
            client == (ClientInfo {
                token,
                attached: false,
                direct_only: false,
                direct: None,
                overlay: false,
                cols,
                rows,
                dead: false,
            }),
    {
        ClientInfo {
            token,
            attached: false,
            direct_only: false,
            direct: None,
            overlay: false,
            cols,
            rows,
            dead: false,
        }
    }

    fn is_watching(&self) -> (watching: bool)
        ensures
            watching == self.watches(),
    {
        self.attached && !self.dead
    }

    fn is_driving(&self, pane: PaneId) -> (driving: bool)
        ensures
            driving == self.drives(pane),
    {
        match &self.direct {
            Some(d) => d.pane == pane && d.role.can_control(),
            None => false,
        }
    }
}

/// The largest canvas that every watching client among the first `n` can show.
pub open spec fn viewport(list: Seq<ClientInfo>, n: nat) -> Option<(u16, u16)>
    decreases n,
{
    if n == 0 {
        None
    } else {
        let rest = viewport(list, (n - 1) as nat);
        let c = list[n - 1];
        if !c.watches() {
            rest
        } else {
            let w = at_least_one(c.cols);
            let h = at_least_one(c.rows);
            match rest {
                None => Some((w, h)),
                Some((a, b)) => Some(
                    (
                        if a <= w {
                            a
                        } else {
                            w
                        },
                        if b <= h {
                            b
                        } else {
                            h
                        },
                    ),
                ),
            }
        }
    }
}

/// The shared canvas fits every watching client, and is as wide and as high as
/// some watching client allows.
pub proof fn lemma_viewport_fits(list: Seq<ClientInfo>, n: nat)
    requires
        n <= list.len(),
    ensures
        viewport(list, n) is None <==> forall|i: int| 0 <= i < n ==> !(#[trigger] list[i]).watches(),
        viewport(list, n) matches Some((w, h)) ==> {
            &&& w >= 1 && h >= 1
            &&& forall|i: int|
                0 <= i < n && (#[trigger] list[i]).watches() ==> w <= at_least_one(list[i].cols) && h
                    <= at_least_one(list[i].rows)
            &&& exists|i: int|
                0 <= i < n && (#[trigger] list[i]).watches() && w == at_least_one(list[i].cols)
            &&& exists|i: int|
                0 <= i < n && (#[trigger] list[i]).watches() && h == at_least_one(list[i].rows)
        },
    decreases n,
{
    if n > 0 {
        lemma_viewport_fits(list, (n - 1) as nat);
        assert(list[n - 1].watches() || !list[n - 1].watches());
    }
}

/// The first client with this token, from position `i` on.
pub open spec fn client_at(list: Seq<ClientInfo>, token: Token, i: int) -> Option<int>
    decreases list.len() - i,
{
    if i < 0 || i >= list.len() {
        None
    } else if list[i].token == token {
        Some(i)
    } else {
        client_at(list, token, i + 1)
    }
}

proof fn lemma_client_at(list: Seq<ClientInfo>, token: Token, i: int)
    requires
        0 <= i,
    ensures
        client_at(list, token, i) matches Some(k) ==> i <= k < list.len() && list[k].token == token,
        client_at(list, token, i) is None ==> forall|k: int|
            i <= k < list.len() ==> (#[trigger] list[k]).token != token,
    decreases list.len() - i,
{
    if i < list.len() && list[i].token != token {
        lemma_client_at(list, token, i + 1);
    }
}

/// The client with this token, attached to the Workspace.
pub open spec fn attached_list(list: Seq<ClientInfo>, token: Token, cols: u16, rows: u16) -> Seq<
    ClientInfo,
> {
    match client_at(list, token, 0) {
        Some(i) => list.update(
            i,
            ClientInfo {
                attached: true,
                direct: None,
                cols: at_least_one(cols),
                rows: at_least_one(rows),
                ..list[i]
            },
        ),
        None => list,
    }
}

/// The client with this token, with another size.
pub open spec fn resized_list(list: Seq<ClientInfo>, token: Token, cols: u16, rows: u16) -> Seq<
    ClientInfo,
> {
    match client_at(list, token, 0) {
        Some(i) => list.update(
            i,
            ClientInfo { cols: at_least_one(cols), rows: at_least_one(rows), ..list[i] },
        ),
        None => list,
    }
}

/// No Pane is driven by two clients.
pub open spec fn one_driver(list: Seq<ClientInfo>) -> bool {
    forall|i: int, j: int, pane: PaneId|
        0 <= i < list.len() && 0 <= j < list.len() && #[trigger] list[i].drives(pane) && #[trigger] list[j].drives(pane) ==> i == j
}

/// Every client has its own token.
pub open spec fn tokens_distinct(list: Seq<ClientInfo>) -> bool {
    forall|i: int, j: int|
        0 <= i < j < list.len() ==> (#[trigger] list[i]).token != (#[trigger] list[j]).token
}

/// What became of a request for a single Pane.
#[derive(Debug)]
pub enum DirectOutcome {
    /// The Pane does not exist.
    Missing,
    /// Another client drives the Pane.
    Contested,
    /// The client is attached; those listed lost control.
    Attached { revoked: Vec<Token> },
}

/// Some other client drives the Pane.
pub open spec fn contested(list: Seq<ClientInfo>, token: Token, pane: PaneId) -> bool {
    exists|i: int|
        0 <= i < list.len() && (#[trigger] list[i]).token != token && list[i].drives(pane)
}

/// A client after another took control of the Pane.
pub open spec fn revoked_from(c: ClientInfo, token: Token, pane: PaneId) -> ClientInfo {
    if c.token != token && c.drives(pane) {
        match c.direct {
            Some(d) => ClientInfo {
                direct: Some(DirectAttachment { role: PaneAttachRole::Observer, ..d }),
                ..c
            },
            None => c,
        }
    } else {
        c
    }
}

/// The tokens, of the first `n` clients, that lose control.
pub open spec fn revoked_tokens(list: Seq<ClientInfo>, token: Token, pane: PaneId, n: nat) -> Seq<
    Token,
>
    decreases n,
{
    if n == 0 {
        Seq::empty()
    } else {
        let rest = revoked_tokens(list, token, pane, (n - 1) as nat);
        if list[n - 1].token != token && list[n - 1].drives(pane) {
            rest.push(list[n - 1].token)
        } else {
            rest
        }
    }
}

/// The client with this token set apart from the Workspace.
pub open spec fn set_apart(list: Seq<ClientInfo>, token: Token) -> Seq<ClientInfo> {
    match client_at(list, token, 0) {
        Some(i) => list.update(i, ClientInfo { direct_only: true, attached: false, ..list[i] }),
        None => list,
    }
}

/// The client with this token attached to a single Pane.
pub open spec fn directed(
    list: Seq<ClientInfo>,
    token: Token,
    pane: PaneId,
    role: PaneAttachRole,
) -> Seq<ClientInfo> {
    match client_at(list, token, 0) {
        Some(i) => list.update(
            i,
            ClientInfo {
                attached: false,
                overlay: false,
                direct: Some(DirectAttachment { pane, role, last_cursor_visible: None }),
                ..list[i]
            },
        ),
        None => list,
    }
}

/// The list after everyone else lost control of the Pane.
pub open spec fn taken_over(list: Seq<ClientInfo>, token: Token, pane: PaneId) -> Seq<ClientInfo> {
    Seq::new(list.len(), |i: int| revoked_from(list[i], token, pane))
}

/// The clients after a request for a single Pane.
pub open spec fn direct_list(
    list: Seq<ClientInfo>,
    token: Token,
    pane: PaneId,
    exists_pane: bool,
    role: PaneAttachRole,
) -> Seq<ClientInfo> {
    let apart = set_apart(list, token);
    if !exists_pane {
        apart
    } else if role == PaneAttachRole::Controller && contested(apart, token, pane) {
        apart
    } else if role == PaneAttachRole::Takeover {
        directed(taken_over(apart, token, pane), token, pane, role)
    } else {
        directed(apart, token, pane, role)
    }
}

proof fn lemma_client_at_same(a: Seq<ClientInfo>, b: Seq<ClientInfo>, token: Token, i: int)
    requires
        0 <= i,
        a.len() == b.len(),
        forall|k: int| 0 <= k < a.len() ==> (#[trigger] a[k]).token == (#[trigger] b[k]).token,
    ensures
        client_at(a, token, i) == client_at(b, token, i),
    decreases a.len() - i,
{
    if i < a.len() {
        assert(a[i].token == b[i].token);
        lemma_client_at_same(a, b, token, i + 1);
    }
}

/// However clients ask for Panes, no Pane comes to have two drivers: control is
/// refused while another has it, and a takeover ends the other's.
pub proof fn lemma_one_driver(
    list: Seq<ClientInfo>,
    token: Token,
    pane: PaneId,
    exists_pane: bool,
    role: PaneAttachRole,
)
    requires
        one_driver(list),
        tokens_distinct(list),
    ensures
        one_driver(direct_list(list, token, pane, exists_pane, role)),
        tokens_distinct(direct_list(list, token, pane, exists_pane, role)),
{
    let apart = set_apart(list, token);
    lemma_client_at(list, token, 0);
    assert forall|i: int| 0 <= i < list.len() implies (#[trigger] apart[i]).token == list[i].token
        && apart[i].direct == list[i].direct by {}
    assert forall|i: int, j: int, q: PaneId|
        0 <= i < apart.len() && 0 <= j < apart.len() && #[trigger] apart[i].drives(q) && #[trigger] apart[j].drives(q) implies i == j by {
        assert(list[i].drives(q) && list[j].drives(q));
    }
    let out = direct_list(list, token, pane, exists_pane, role);
    let mid = if role == PaneAttachRole::Takeover {
        taken_over(apart, token, pane)
    } else {
        apart
    };
    if exists_pane && !(role == PaneAttachRole::Controller && contested(apart, token, pane)) {
        lemma_client_at_same(list, mid, token, 0);
        assert(out == directed(mid, token, pane, role));
        assert forall|i: int| 0 <= i < list.len() implies (#[trigger] out[i]).token
            == list[i].token by {
            assert(mid[i].token == list[i].token);
        }
        assert forall|i: int, j: int, q: PaneId|
            0 <= i < out.len() && 0 <= j < out.len() && #[trigger] out[i].drives(q) && #[trigger] out[j].drives(q) implies i == j by {
            match client_at(list, token, 0) {
                Some(k) => {
                    if i != j {
                        if i == k || j == k {
                            let other = if i == k {
                                j
                            } else {
                                i
                            };
                            assert(out[k].direct == Some(
                                DirectAttachment { pane, role, last_cursor_visible: None },
                            ));
                            assert(q == pane);
                            assert(role.controls());
                            assert(out[other] == mid[other]);
                            assert(list[other].token != token);
                            if role == PaneAttachRole::Takeover {
                                assert(mid[other] == revoked_from(apart[other], token, pane));
                                assert(!mid[other].drives(pane));
                            } else {
                                assert(apart[other].drives(pane));
                                assert(contested(apart, token, pane));
                            }
                        } else {
                            assert(out[i] == mid[i] && out[j] == mid[j]);
                            assert(apart[i].drives(q) && apart[j].drives(q));
                        }
                    }
                },
                None => {
                    assert(out[i] == mid[i] && out[j] == mid[j]);
                    assert(apart[i].drives(q) && apart[j].drives(q));
                },
            }
        }
    }
}

/// Whether file work is to run.
#[derive(Clone, Copy, Debug, PartialEq, Eq, Structural)]
pub enum FileRuntime {
    Start,
    Keep,
    Stop,
}

/// File work runs only while some client can see the file tree.
pub open spec fn file_runtime(
    visible: bool,
    has_clients: bool,
    was_visible: bool,
    had_clients: bool,
) -> FileRuntime {
    if visible && has_clients {
        if was_visible && had_clients {
            FileRuntime::Keep
        } else {
            FileRuntime::Start
        }
    } else {
        FileRuntime::Stop
    }
}

/// Decide whether file work is to run.
pub fn reconcile_file_manager_runtime(
    visible: bool,
    has_clients: bool,
    was_visible: bool,
    had_clients: bool,
) -> (runtime: FileRuntime)
    ensures
        runtime == file_runtime(visible, has_clients, was_visible, had_clients),
{
    if visible && has_clients {
        if was_visible && had_clients {
            FileRuntime::Keep
        } else {
            FileRuntime::Start
        }
    } else {
        FileRuntime::Stop
    }
}

/// Some client shows the Workspace and lives.
pub open spec fn any_watching(list: Seq<ClientInfo>) -> bool {
    exists|i: int| 0 <= i < list.len() && (#[trigger] list[i]).watches()
}

/// How a client is repainted.
#[derive(Clone, Copy, Debug, PartialEq, Eq, Structural)]
pub enum RepaintTarget {
    /// The single Pane that it is attached to.
    Pane(PaneId),
    /// Nothing: it asked for a Pane and has none.
    Nothing,
    /// The Workspace; `sole` says that no other client shows it.
    Workspace { sole: bool },
}

/// The number of clients among the first `n` that show the Workspace.
pub open spec fn shown_count(list: Seq<ClientInfo>, n: nat) -> nat
    decreases n,
{
    if n == 0 {
        0
    } else {
        shown_count(list, (n - 1) as nat) + if list[n - 1].attached {
            1nat
        } else {
            0nat
        }
    }
}

impl Clients {
    /// Every client has its own token, and no Pane has two drivers.
    pub open spec fn wf(self) -> bool {
        tokens_distinct(self.list@) && one_driver(self.list@)
    }

    /// The canvas for these clients; without one that watches, it stays.
    pub open spec fn canvas_for(self, list: Seq<ClientInfo>) -> (u16, u16) {
        match viewport(list, list.len()) {
            Some(size) => size,
            None => (self.cols, self.rows),
        }
    }

    pub fn new(cols: u16, rows: u16) -> (clients: Clients)
        ensures
            clients.wf(),
            clients.list@.len() == 0,
            clients.cols == cols,
            clients.rows == rows,
    {
        Clients { list: Vec::new(), cols, rows }
    }

    /// Where a client stands in the list.
    pub fn position(&self, token: Token) -> (found: Option<usize>)
        ensures
            crate::hierarchy::index_of(found) == client_at(self.list@, token, 0),
            found matches Some(i) ==> i < self.list@.len() && self.list@[i as int].token == token,
    {
        let mut i: usize = 0;
        while i < self.list.len()
            invariant
                i <= self.list@.len(),
                client_at(self.list@, token, 0) == client_at(self.list@, token, i as int),
            decreases self.list@.len() - i,
        {
            if self.list[i].token == token {
                return Some(i);
            }
            i += 1;
        }
        None
    }

    /// Whether some client shows the Workspace.
    pub fn any_attached(&self) -> (any: bool)
        ensures
            any == any_watching(self.list@),
    {
        let mut i: usize = 0;
        while i < self.list.len()
            invariant
                i <= self.list@.len(),
                forall|j: int| 0 <= j < i ==> !(#[trigger] self.list@[j]).watches(),
            decreases self.list@.len() - i,
        {
            if self.list[i].is_watching() {
                return true;
            }
            i += 1;
        }
        false
    }

    /// Fit the canvas to the clients; whether it changed. The smallest client
    /// decides, so that one layout fits them all.
    pub fn recompute_client_geometry(&mut self) -> (changed: bool)
        ensures
            final(self).list == old(self).list,
            (final(self).cols, final(self).rows) == old(self).canvas_for(old(self).list@),
            changed == ((final(self).cols, final(self).rows) != (old(self).cols, old(self).rows)),
    {
        let mut size: Option<(u16, u16)> = None;
        let mut i: usize = 0;
        while i < self.list.len()
            invariant
                i <= self.list@.len(),
                size == viewport(self.list@, i as nat),
            decreases self.list@.len() - i,
        {
            if self.list[i].is_watching() {
                let w: u16 = not_zero(self.list[i].cols);
                let h: u16 = not_zero(self.list[i].rows);
                size = match size {
                    None => Some((w, h)),
                    Some((a, b)) => Some(
                        (
                            if a <= w {
                                a
                            } else {
                                w
                            },
                            if b <= h {
                                b
                            } else {
                                h
                            },
                        ),
                    ),
                };
            }
            i += 1;
        }
        match size {
            None => false,
            Some((cols, rows)) => {
                if cols == self.cols && rows == self.rows {
                    return false;
                }
                self.cols = cols;
                self.rows = rows;
                true
            },
        }
    }

    /// A client connects. It has no size before it attaches.
    pub fn connect(&mut self, token: Token)
        requires
            old(self).wf(),
            client_at(old(self).list@, token, 0) is None,
        ensures
            final(self).wf(),
            final(self).list@ == old(self).list@.push(
                ClientInfo {
                    token,
                    attached: false,
                    direct_only: false,
                    direct: None,
                    overlay: false,
                    cols: 0,
                    rows: 0,
                    dead: false,
                },
            ),
            final(self).cols == old(self).cols,
            final(self).rows == old(self).rows,
    {
        let ghost before = self.list@;
        proof {
            lemma_client_at(before, token, 0);
        }
        let client = ClientInfo::connected(token, 0, 0);
        self.list.push(client);
        proof {
            let list = self.list@;
            assert forall|i: int, j: int, q: PaneId|
                0 <= i < list.len() && 0 <= j < list.len() && #[trigger] list[i].drives(q) && #[trigger] list[j].drives(q) implies i == j by {
                assert(before[i].drives(q) && before[j].drives(q));
            }
        }
    }

    /// A client shows the Workspace; whether the canvas changed.
    pub fn attach(&mut self, token: Token, cols: u16, rows: u16) -> (changed: bool)
        requires
            old(self).wf(),
        ensures
            final(self).wf(),
            final(self).list@ == attached_list(old(self).list@, token, cols, rows),
            (final(self).cols, final(self).rows) == old(self).canvas_for(final(self).list@),
            changed == ((final(self).cols, final(self).rows) != (old(self).cols, old(self).rows)),
    {
        let ghost before = self.list@;
        if let Some(i) = self.position(token) {
            self.list[i].attached = true;
            self.list[i].direct = None;
            self.list[i].cols = not_zero(cols);
            self.list[i].rows = not_zero(rows);
            assert(self.list@ =~= attached_list(before, token, cols, rows));
        }
        proof {
            let list = self.list@;
            assert forall|i: int, j: int, q: PaneId|
                0 <= i < list.len() && 0 <= j < list.len() && #[trigger] list[i].drives(q) && #[trigger] list[j].drives(q) implies i == j by {
                assert(before[i].drives(q) && before[j].drives(q));
            }
            assert(tokens_distinct(list)) by {
                assert forall|i: int, j: int| 0 <= i < j < list.len() implies (
                #[trigger] list[i]).token != (#[trigger] list[j]).token by {
                    assert(before[i].token != before[j].token);
                }
            }
        }
        self.recompute_client_geometry()
    }

    /// A client has another size; whether the canvas changed.
    pub fn resize(&mut self, token: Token, cols: u16, rows: u16) -> (changed: bool)
        requires
            old(self).wf(),
        ensures
            final(self).wf(),
            final(self).list@ == resized_list(old(self).list@, token, cols, rows),
            (final(self).cols, final(self).rows) == old(self).canvas_for(final(self).list@),
            changed == ((final(self).cols, final(self).rows) != (old(self).cols, old(self).rows)),
    {
        let ghost before = self.list@;
        if let Some(i) = self.position(token) {
            self.list[i].cols = not_zero(cols);
            self.list[i].rows = not_zero(rows);
            assert(self.list@ =~= resized_list(before, token, cols, rows));
        }
        proof {
            let list = self.list@;
            assert forall|i: int, j: int, q: PaneId|
                0 <= i < list.len() && 0 <= j < list.len() && #[trigger] list[i].drives(q) && #[trigger] list[j].drives(q) implies i == j by {
                assert(before[i].drives(q) && before[j].drives(q));
            }
            assert forall|i: int, j: int| 0 <= i < j < list.len() implies (
            #[trigger] list[i]).token != (#[trigger] list[j]).token by {
                assert(before[i].token != before[j].token);
            }
        }
        self.recompute_client_geometry()
    }

    /// A client leaves; whether the canvas changed.
    pub fn remove(&mut self, token: Token) -> (changed: bool)
        requires
            old(self).wf(),
        ensures
            final(self).wf(),
            final(self).list@ == match client_at(old(self).list@, token, 0) {
                Some(i) => old(self).list@.remove(i),
                None => old(self).list@,
            },
            (final(self).cols, final(self).rows) == old(self).canvas_for(final(self).list@),
            changed == ((final(self).cols, final(self).rows) != (old(self).cols, old(self).rows)),
    {
        let ghost before = self.list@;
        if let Some(k) = self.position(token) {
            self.list.remove(k);
            proof {
                let list = self.list@;
                assert forall|i: int, j: int, q: PaneId|
                    0 <= i < list.len() && 0 <= j < list.len() && #[trigger] list[i].drives(q)
                        && #[trigger] list[j].drives(q) implies i == j by {
                    let a = if i < k {
                        i
                    } else {
                        i + 1
                    };
                    let b = if j < k {
                        j
                    } else {
                        j + 1
                    };
                    assert(before[a].drives(q) && before[b].drives(q));
                }
                assert forall|i: int, j: int| 0 <= i < j < list.len() implies (
                #[trigger] list[i]).token != (#[trigger] list[j]).token by {
                    let a = if i < k {
                        i
                    } else {
                        i + 1
                    };
                    let b = if j < k {
                        j
                    } else {
                        j + 1
                    };
                    assert(before[a].token != before[b].token);
                }
            }
        }
        self.recompute_client_geometry()
    }

    /// A client covers the canvas, or uncovers it.
    pub fn set_overlay(&mut self, token: Token, on: bool)
        requires
            old(self).wf(),
        ensures
            final(self).wf(),
            final(self).list@ == match client_at(old(self).list@, token, 0) {
                Some(i) => old(self).list@.update(
                    i,
                    ClientInfo { overlay: on, ..old(self).list@[i] },
                ),
                None => old(self).list@,
            },
            final(self).cols == old(self).cols,
            final(self).rows == old(self).rows,
    {
        let ghost before = self.list@;
        if let Some(i) = self.position(token) {
            self.list[i].overlay = on;
        }
        proof {
            let list = self.list@;
            assert forall|i: int, j: int, q: PaneId|
                0 <= i < list.len() && 0 <= j < list.len() && #[trigger] list[i].drives(q) && #[trigger] list[j].drives(q) implies i == j by {
                assert(before[i].drives(q) && before[j].drives(q));
            }
            assert forall|i: int, j: int| 0 <= i < j < list.len() implies (
            #[trigger] list[i]).token != (#[trigger] list[j]).token by {
                assert(before[i].token != before[j].token);
            }
        }
    }

    fn is_contested(&self, token: Token, pane: PaneId) -> (found: bool)
        ensures
            found == contested(self.list@, token, pane),
    {
        let mut i: usize = 0;
        while i < self.list.len()
            invariant
                i <= self.list@.len(),
                forall|j: int|
                    0 <= j < i ==> !((#[trigger] self.list@[j]).token != token
                        && self.list@[j].drives(pane)),
            decreases self.list@.len() - i,
        {
            if self.list[i].token != token && self.list[i].is_driving(pane) {
                return true;
            }
            i += 1;
        }
        false
    }

    fn revoke_others(&mut self, token: Token, pane: PaneId) -> (revoked: Vec<Token>)
        ensures
            final(self).list@ == taken_over(old(self).list@, token, pane),
            final(self).cols == old(self).cols,
            final(self).rows == old(self).rows,
            revoked@ == revoked_tokens(old(self).list@, token, pane, old(self).list@.len()),
    {
        let ghost before = self.list@;
        let mut revoked: Vec<Token> = Vec::new();
        let mut i: usize = 0;
        while i < self.list.len()
            invariant
                i <= self.list@.len(),
                self.list@.len() == before.len(),
                self.cols == old(self).cols,
                self.rows == old(self).rows,
                forall|k: int|
                    0 <= k < i ==> #[trigger] self.list@[k] == revoked_from(before[k], token, pane),
                forall|k: int| i <= k < before.len() ==> #[trigger] self.list@[k] == before[k],
                revoked@ == revoked_tokens(before, token, pane, i as nat),
            decreases self.list@.len() - i,
        {
            assert(self.list@[i as int] == before[i as int]);
            if self.list[i].token != token && self.list[i].is_driving(pane) {
                revoked.push(self.list[i].token);
                if let Some(d) = self.list[i].direct {
                    self.list[i].direct = Some(
                        DirectAttachment {
                            pane: d.pane,
                            role: PaneAttachRole::Observer,
                            last_cursor_visible: d.last_cursor_visible,
                        },
                    );
                }
            }
            i += 1;
        }
        assert(self.list@ =~= taken_over(before, token, pane));
        revoked
    }

    /// A client asks for a single Pane. It leaves the Workspace, whatever comes
    /// of the request; whether the canvas changed for that.
    pub fn attach_direct(
        &mut self,
        token: Token,
        pane: PaneId,
        exists_pane: bool,
        role: PaneAttachRole,
    ) -> (out: (DirectOutcome, bool))
        requires
            old(self).wf(),
        ensures
            final(self).wf(),
            final(self).list@ == direct_list(old(self).list@, token, pane, exists_pane, role),
            ({
                let apart = set_apart(old(self).list@, token);
                if !exists_pane {
                    out.0 is Missing
                } else if role == PaneAttachRole::Controller && contested(apart, token, pane) {
                    out.0 is Contested
                } else {
                    &&& out.0 matches DirectOutcome::Attached { revoked }
                    &&& revoked@ == if role == PaneAttachRole::Takeover {
                        revoked_tokens(apart, token, pane, apart.len())
                    } else {
                        Seq::empty()
                    }
                }
            }),
            ({
                let was_attached = client_at(old(self).list@, token, 0) matches Some(i) && old(
                    self,
                ).list@[i].attached;
                &&& (final(self).cols, final(self).rows) == if was_attached {
                    old(self).canvas_for(final(self).list@)
                } else {
                    (old(self).cols, old(self).rows)
                }
                &&& out.1 == ((final(self).cols, final(self).rows) != (
                    old(self).cols,
                    old(self).rows,
                ))
            }),
    {
        let ghost before = self.list@;
        proof {
            lemma_one_driver(before, token, pane, exists_pane, role);
        }
        let mut was_attached = false;
        if let Some(i) = self.position(token) {
            was_attached = self.list[i].attached;
            self.list[i].direct_only = true;
            self.list[i].attached = false;
        }
        let ghost apart = self.list@;
        assert(apart =~= set_apart(before, token));
        let outcome = if !exists_pane {
            DirectOutcome::Missing
        } else if role == PaneAttachRole::Controller && self.is_contested(token, pane) {
            DirectOutcome::Contested
        } else {
            let revoked = if role == PaneAttachRole::Takeover {
                self.revoke_others(token, pane)
            } else {
                Vec::new()
            };
            let ghost mid = self.list@;
            if let Some(i) = self.position(token) {
                self.list[i].attached = false;
                self.list[i].overlay = false;
                self.list[i].direct = Some(
                    DirectAttachment { pane, role, last_cursor_visible: None },
                );
            }
            assert(self.list@ =~= directed(mid, token, pane, role));
            DirectOutcome::Attached { revoked }
        };
        let changed = if was_attached {
            self.recompute_client_geometry()
        } else {
            false
        };
        (outcome, changed)
    }

    /// Decide how a client is repainted.
    pub fn repaint_target(&self, token: Token) -> (target: RepaintTarget)
        ensures
            target == match client_at(self.list@, token, 0) {
                Some(i) => match self.list@[i].direct {
                    Some(d) => RepaintTarget::Pane(d.pane),
                    None => if self.list@[i].direct_only {
                        RepaintTarget::Nothing
                    } else {
                        RepaintTarget::Workspace {
                            sole: shown_count(self.list@, self.list@.len()) <= 1,
                        }
                    },
                },
                None => RepaintTarget::Workspace {
                    sole: shown_count(self.list@, self.list@.len()) <= 1,
                },
            },
    {
        if let Some(i) = self.position(token) {
            if let Some(d) = self.list[i].direct {
                return RepaintTarget::Pane(d.pane);
            }
            if self.list[i].direct_only {
                return RepaintTarget::Nothing;
            }
        }
        let mut count: usize = 0;
        let mut i: usize = 0;
        while i < self.list.len()
            invariant
                i <= self.list@.len(),
                count == shown_count(self.list@, i as nat),
                count <= i,
            decreases self.list@.len() - i,
        {
            if self.list[i].attached {
                count += 1;
            }
            i += 1;
        }
        RepaintTarget::Workspace { sole: count <= 1 }
    }
}

} // verus!
