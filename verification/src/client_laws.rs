//! What a client can rely on: the size that it gives, the Pane that it asked
//! for, the bytes that are queued for it, and the answers that it waits for.
use crate::broadcast::{
    attached_tokens, damage, direct_paints, direct_tokens, frame_tokens, title_changed,
    with_cursors, PaneOutput, Shown,
};
use crate::clients::{
    any_watching, attached_list, client_at, contested, direct_list, file_runtime, resized_list,
    revoked_tokens, shown_count, viewport, ClientInfo, PaneAttachRole,
};
use crate::queue::{QueueState, WriteOutcome};
use crate::text::{lemma_newest_is_suffix, newest, utf8_len};
use crate::types::{PaneId, Token};
use crate::waits::{
    answered, holds_text, places_answered, reply_says, stands_at, waits_left, ClientWait, PaneSeen,
    PendingControlWait, WaitReply,
};
use vstd::prelude::*;

verus! {

proof fn lemma_client_from(list: Seq<ClientInfo>, i: int, from: int)
    requires
        0 <= from <= i < list.len(),
        forall|k: int| 0 <= k < i ==> (#[trigger] list[k]).token != list[i].token,
    ensures
        client_at(list, list[i].token, from) == Some(i),
    decreases i - from,
{
    if from < i {
        assert(list[from].token != list[i].token);
        lemma_client_from(list, i, from + 1);
    }
}

proof fn lemma_no_client(list: Seq<ClientInfo>, token: Token, from: int)
    requires
        0 <= from,
        forall|k: int| 0 <= k < list.len() ==> (#[trigger] list[k]).token != token,
    ensures
        client_at(list, token, from) is None,
    decreases list.len() - from,
{
    if from < list.len() {
        assert(list[from].token != token);
        lemma_no_client(list, token, from + 1);
    }
}

/// A client is found by its token.
pub proof fn lemma_client_found(list: Seq<ClientInfo>, i: int)
    requires
        0 <= i < list.len(),
        forall|k: int| 0 <= k < i ==> (#[trigger] list[k]).token != list[i].token,
    ensures
        client_at(list, list[i].token, 0) == Some(i),
{
    lemma_client_from(list, i, 0);
}

/// A client that attaches shows the Workspace in the size that it gives, and a
/// Pane that it had for itself no more; one that resizes changes its size alone.
/// A size is a cell at least, and no other client is touched.
pub proof fn lemma_attached_in_its_size(
    list: Seq<ClientInfo>,
    i: int,
    j: int,
    cols: u16,
    rows: u16,
)
    requires
        0 <= i < list.len(),
        forall|k: int| 0 <= k < i ==> (#[trigger] list[k]).token != list[i].token,
        0 <= j < list.len(),
    ensures
        ({
            let shown = attached_list(list, list[i].token, cols, rows);
            let sized = resized_list(list, list[i].token, cols, rows);
            &&& shown.len() == list.len() && sized.len() == list.len()
            &&& j != i ==> shown[j] == list[j] && sized[j] == list[j]
            &&& shown[i].attached && shown[i].direct is None
            &&& shown[i].token == list[i].token && shown[i].overlay == list[i].overlay
            &&& shown[i].direct_only == list[i].direct_only && shown[i].dead == list[i].dead
            &&& cols >= 1 ==> shown[i].cols == cols && sized[i].cols == cols
            &&& rows >= 1 ==> shown[i].rows == rows && sized[i].rows == rows
            &&& cols == 0 ==> shown[i].cols == 1 && sized[i].cols == 1
            &&& rows == 0 ==> shown[i].rows == 1 && sized[i].rows == 1
            &&& sized[i].attached == list[i].attached && sized[i].direct == list[i].direct
            &&& sized[i].token == list[i].token && sized[i].dead == list[i].dead
        }),
{
    lemma_client_from(list, i, 0);
}

/// A token that nobody has changes nobody.
pub proof fn lemma_unknown_client_changes_nothing(
    list: Seq<ClientInfo>,
    token: Token,
    cols: u16,
    rows: u16,
)
    requires
        forall|k: int| 0 <= k < list.len() ==> (#[trigger] list[k]).token != token,
    ensures
        attached_list(list, token, cols, rows) == list,
        resized_list(list, token, cols, rows) == list,
{
    lemma_no_client(list, token, 0);
}

/// The canvas is no larger than any live client that shows the Workspace, and
/// clients that show none of it do not count.
pub proof fn lemma_canvas_fits_the_clients(list: Seq<ClientInfo>, i: int)
    requires
        0 <= i < list.len(),
        list[i].attached && !list[i].dead,
    ensures
        viewport(list, list.len()) is Some,
        viewport(list, list.len()) matches Some((w, h)) ==> {
            &&& list[i].cols >= 1 ==> w <= list[i].cols
            &&& list[i].rows >= 1 ==> h <= list[i].rows
        },
        any_watching(list),
{
    assert(list[i].watches());
    crate::clients::lemma_viewport_fits(list, list.len());
}

/// With a single client the canvas is its size.
pub proof fn lemma_single_client_has_its_size(list: Seq<ClientInfo>, i: int)
    requires
        0 <= i < list.len(),
        list[i].attached && !list[i].dead,
        list[i].cols >= 1,
        list[i].rows >= 1,
        forall|k: int| 0 <= k < list.len() && k != i ==> !(#[trigger] list[k]).attached || list[k].dead,
    ensures
        viewport(list, list.len()) == Some((list[i].cols, list[i].rows)),
{
    assert(list[i].watches());
    crate::clients::lemma_viewport_fits(list, list.len());
}

/// Control of a Pane: one that asks for it is refused while another has it,
/// one that takes over has it and the other watches on, and one that watches
/// takes it from nobody.
pub proof fn lemma_control_of_a_pane(
    list: Seq<ClientInfo>,
    i: int,
    j: int,
    pane: PaneId,
    role: PaneAttachRole,
)
    requires
        0 <= i < list.len(),
        0 <= j < list.len(),
        i != j,
        forall|a: int, b: int|
            0 <= a < b < list.len() ==> (#[trigger] list[a]).token != (#[trigger] list[b]).token,
    ensures
        ({
            let after = direct_list(list, list[i].token, pane, true, role);
            let other = list[j].direct is Some && list[j].direct->0.pane == pane && !(
            list[j].direct->0.role is Observer);
            let had = list[j].direct is Some && list[j].direct->0.pane == pane;
            &&& after.len() == list.len()
            &&& after[i].direct_only && !after[i].attached
            &&& after[i].token == list[i].token
            &&& role is Controller && other ==> after[i].direct == list[i].direct
            &&& !(role is Controller) ==> {
                &&& after[i].direct is Some
                &&& after[i].direct->0.pane == pane
                &&& after[i].direct->0.role == role
                &&& after[i].direct->0.last_cursor_visible is None
                &&& !after[i].overlay
            }
            &&& role is Takeover && other ==> {
                &&& after[j].direct is Some
                &&& after[j].direct->0.pane == pane
                &&& after[j].direct->0.role is Observer
            }
            &&& !(role is Takeover && other) ==> after[j] == list[j]
            &&& after[j].attached == list[j].attached
            &&& had ==> after[j].direct is Some && after[j].direct->0.pane == pane
        }),
{
    let token = list[i].token;
    assert forall|k: int| 0 <= k < i implies (#[trigger] list[k]).token != list[i].token by {}
    lemma_client_from(list, i, 0);
    let apart = crate::clients::set_apart(list, token);
    assert(list[j].token != token) by {
        if j < i {
            assert(list[j].token != list[i].token);
        } else {
            assert(list[i].token != list[j].token);
        }
    }
    assert(apart[j] == list[j]);
    assert forall|k: int| 0 <= k < i implies (#[trigger] apart[k]).token != apart[i].token by {
        assert(list[k].token != list[i].token);
    }
    lemma_client_from(apart, i, 0);
    let mid = crate::clients::taken_over(apart, token, pane);
    assert forall|k: int| 0 <= k < i implies (#[trigger] mid[k]).token != mid[i].token by {
        assert(apart[k].token != apart[i].token);
    }
    lemma_client_from(mid, i, 0);
    if role is Controller && list[j].drives(pane) {
        assert(apart[j].token != token && apart[j].drives(pane));
        assert(contested(apart, token, pane));
    }
}

/// A Pane that nobody else drives is given to the client that asks for it.
pub proof fn lemma_free_pane_is_given(list: Seq<ClientInfo>, i: int, pane: PaneId, role: PaneAttachRole)
    requires
        0 <= i < list.len(),
        forall|a: int, b: int|
            0 <= a < b < list.len() ==> (#[trigger] list[a]).token != (#[trigger] list[b]).token,
        forall|k: int|
            0 <= k < list.len() && k != i && (#[trigger] list[k]).direct is Some && list[k].direct->0.pane
                == pane ==> list[k].direct->0.role is Observer,
    ensures
        ({
            let after = direct_list(list, list[i].token, pane, true, role);
            &&& after[i].direct is Some
            &&& after[i].direct->0.pane == pane
            &&& after[i].direct->0.role == role
            &&& !after[i].attached
        }),
{
    let token = list[i].token;
    assert forall|k: int| 0 <= k < i implies (#[trigger] list[k]).token != list[i].token by {}
    lemma_client_from(list, i, 0);
    let apart = crate::clients::set_apart(list, token);
    assert forall|k: int| 0 <= k < i implies (#[trigger] apart[k]).token != apart[i].token by {
        assert(list[k].token != list[i].token);
    }
    lemma_client_from(apart, i, 0);
    let mid = crate::clients::taken_over(apart, token, pane);
    assert forall|k: int| 0 <= k < i implies (#[trigger] mid[k]).token != mid[i].token by {
        assert(apart[k].token != apart[i].token);
    }
    lemma_client_from(mid, i, 0);
    if contested(apart, token, pane) {
        let k = choose|k: int|
            0 <= k < apart.len() && (#[trigger] apart[k]).token != token && apart[k].drives(pane);
        assert(k != i);
        assert(apart[k] == list[k]);
        assert(list[k].direct is Some);
    }
}

/// A Pane that does not exist is given to nobody: the client is held to asking
/// for a Pane all the same, and every other stays as it is.
pub proof fn lemma_missing_pane_is_not_given(
    list: Seq<ClientInfo>,
    i: int,
    j: int,
    pane: PaneId,
    role: PaneAttachRole,
)
    requires
        0 <= i < list.len(),
        forall|k: int| 0 <= k < i ==> (#[trigger] list[k]).token != list[i].token,
        0 <= j < list.len(),
    ensures
        ({
            let after = direct_list(list, list[i].token, pane, false, role);
            &&& after.len() == list.len()
            &&& j != i ==> after[j] == list[j]
            &&& after[i].direct == list[i].direct
            &&& after[i].direct_only && !after[i].attached
        }),
{
    lemma_client_from(list, i, 0);
}

/// The files are watched while they are to be seen by somebody: watching starts
/// when that begins, goes on while it lasts, and stops when it ends.
pub proof fn lemma_files_watched_while_seen(
    visible: bool,
    has_clients: bool,
    was_visible: bool,
    had_clients: bool,
)
    ensures
        ({
            let runtime = file_runtime(visible, has_clients, was_visible, had_clients);
            &&& runtime is Stop <==> !(visible && has_clients)
            &&& runtime is Start <==> visible && has_clients && !(was_visible && had_clients)
            &&& runtime is Keep <==> visible && has_clients && was_visible && had_clients
        }),
{
}

/// A second client that shows the Workspace is counted, and one that does not
/// is not.
pub proof fn lemma_who_shows_is_counted(list: Seq<ClientInfo>, n: nat)
    requires
        n <= list.len(),
    ensures
        shown_count(list, n) == 0 <==> forall|k: int| 0 <= k < n ==> !(#[trigger] list[k]).attached,
        shown_count(list, n) <= 1 <==> forall|a: int, b: int|
            0 <= a < b < n ==> !((#[trigger] list[a]).attached && (#[trigger] list[b]).attached),
    decreases n,
{
    if n > 0 {
        let m = (n - 1) as nat;
        lemma_who_shows_is_counted(list, m);
        if list[n - 1].attached {
            if shown_count(list, m) > 0 {
                let k = choose|k: int| 0 <= k < m && (#[trigger] list[k]).attached;
                assert(list[k].attached && list[n - 1].attached);
            }
        } else {
            if forall|a: int, b: int|
                0 <= a < b < n ==> !((#[trigger] list[a]).attached && (#[trigger] list[b]).attached) {
                assert forall|a: int, b: int| 0 <= a < b < m implies !((
                #[trigger] list[a]).attached && (#[trigger] list[b]).attached) by {}
            }
        }
    }
}

/// Bytes for a client that lives come after those that wait, whole and in
/// order. Where they do not fit, the client is let go with nothing left for it,
/// and one that is gone gets nothing.
pub proof fn lemma_bytes_queue_in_order(queue: QueueState, bytes: Seq<u8>)
    ensures
        ({
            let after = queue.queued(bytes);
            &&& queue.dead ==> after == queue
            &&& !queue.dead && queue.pending.len() + bytes.len() <= queue.limit ==> {
                &&& !after.dead
                &&& after.pending == queue.pending + bytes
                &&& after.render == queue.render
                &&& after.repaint_pending == queue.repaint_pending
            }
            &&& !queue.dead && queue.pending.len() + bytes.len() > queue.limit ==> {
                &&& after.dead
                &&& after.pending.len() == 0
                &&& after.render is None
            }
            &&& after.limit == queue.limit
            &&& after.write_interest == queue.write_interest
        }),
{
}

/// What the stream took is gone from the front and the rest stays as it was. A
/// stream that takes nothing or fails ends the client; one that is busy loses
/// nothing.
pub proof fn lemma_what_was_written_is_gone(queue: QueueState, n: usize)
    requires
        0 < n <= queue.pending.len(),
        queue.render is Some ==> 0 <= queue.render->0 <= queue.pending.len(),
    ensures
        ({
            let after = queue.written(WriteOutcome::Wrote(n));
            &&& after.pending.len() == queue.pending.len() - n
            &&& queue.pending.subrange(0, n as int) + after.pending == queue.pending
            &&& after.dead == queue.dead
            &&& after.render is Some <==> queue.render is Some && n < queue.render->0
            &&& after.render is Some ==> after.render->0 == queue.render->0 - n
        }),
        queue.written(WriteOutcome::Wrote(0)).dead,
        queue.written(WriteOutcome::Failed).dead,
        queue.written(WriteOutcome::Failed).pending.len() == 0,
        queue.written(WriteOutcome::WouldBlock).pending == queue.pending,
        queue.written(WriteOutcome::WouldBlock).dead == queue.dead,
        queue.written(WriteOutcome::Interrupted) == queue,
{
    let after = queue.written(WriteOutcome::Wrote(n));
    assert(queue.pending.subrange(0, n as int) + after.pending =~= queue.pending);
}

/// A frame waits once: while one drains a newer one only leaves a repaint owed,
/// and when none does it is queued and marked to its last byte.
pub proof fn lemma_one_frame_drains_at_a_time(queue: QueueState, frame: Seq<u8>)
    requires
        !queue.dead,
    ensures
        queue.render is Some ==> {
            &&& queue.rendered(frame).pending == queue.pending
            &&& queue.rendered(frame).repaint_pending
            &&& queue.rendered(frame).render == queue.render
            &&& !queue.rendered(frame).dead
        },
        queue.render is None && queue.pending.len() + frame.len() <= queue.limit ==> {
            &&& queue.rendered(frame).pending == queue.pending + frame
            &&& queue.rendered(frame).render == Some(queue.rendered(frame).pending.len() as int)
            &&& queue.rendered(frame).repaint_pending == queue.repaint_pending
            &&& !queue.rendered(frame).dead
        },
        queue.render is None && queue.pending.len() + frame.len() > queue.limit
            ==> queue.rendered(frame).dead,
{
}

/// The poller is asked for writability exactly while bytes wait for a live
/// client.
pub proof fn lemma_writable_while_bytes_wait(queue: QueueState)
    ensures
        queue.wants_write() <==> !queue.dead && queue.pending.len() > 0,
{
}

proof fn lemma_frames_upto(list: Seq<ClientInfo>, n: nat, k: int)
    requires
        0 <= k < n <= list.len(),
    ensures
        list[k].attached ==> attached_tokens(list, n).contains(list[k].token),
        list[k].attached && !list[k].overlay ==> frame_tokens(list, n).contains(list[k].token),
    decreases n,
{
    let shown = attached_tokens(list, n);
    let framed = frame_tokens(list, n);
    if k == n - 1 {
        if list[k].attached {
            assert(shown[shown.len() - 1] == list[k].token);
            if !list[k].overlay {
                assert(framed[framed.len() - 1] == list[k].token);
            }
        }
    } else {
        let m = (n - 1) as nat;
        lemma_frames_upto(list, m, k);
        if list[k].attached {
            let rest = attached_tokens(list, m);
            let at = choose|at: int| 0 <= at < rest.len() && rest[at] == list[k].token;
            assert(shown[at] == list[k].token);
            if !list[k].overlay {
                let rest = frame_tokens(list, m);
                let at = choose|at: int| 0 <= at < rest.len() && rest[at] == list[k].token;
                assert(framed[at] == list[k].token);
            }
        }
    }
}

proof fn lemma_frames_only(list: Seq<ClientInfo>, n: nat, token: Token)
    requires
        n <= list.len(),
    ensures
        attached_tokens(list, n).contains(token) ==> exists|k: int|
            0 <= k < n && (#[trigger] list[k]).token == token && list[k].attached,
        frame_tokens(list, n).contains(token) ==> exists|k: int|
            0 <= k < n && (#[trigger] list[k]).token == token && list[k].attached
                && !list[k].overlay,
    decreases n,
{
    if n > 0 {
        let m = (n - 1) as nat;
        lemma_frames_only(list, m, token);
        if attached_tokens(list, n).contains(token) {
            let out = attached_tokens(list, n);
            let rest = attached_tokens(list, m);
            let at = choose|at: int| 0 <= at < out.len() && out[at] == token;
            if at < rest.len() {
                assert(rest[at] == token);
            } else {
                assert(list[n - 1].token == token);
            }
        }
        if frame_tokens(list, n).contains(token) {
            let out = frame_tokens(list, n);
            let rest = frame_tokens(list, m);
            let at = choose|at: int| 0 <= at < out.len() && out[at] == token;
            if at < rest.len() {
                assert(rest[at] == token);
            } else {
                assert(list[n - 1].token == token);
            }
        }
    }
}

/// Frames go to every client that shows the Workspace with nothing over it, and
/// to no other.
pub proof fn lemma_who_gets_the_frames(list: Seq<ClientInfo>, token: Token)
    ensures
        attached_tokens(list, list.len()).contains(token) <==> exists|k: int|
            0 <= k < list.len() && (#[trigger] list[k]).token == token && list[k].attached,
        frame_tokens(list, list.len()).contains(token) <==> exists|k: int|
            0 <= k < list.len() && (#[trigger] list[k]).token == token && list[k].attached
                && !list[k].overlay,
{
    lemma_frames_only(list, list.len(), token);
    if exists|k: int|
        0 <= k < list.len() && (#[trigger] list[k]).token == token && list[k].attached {
        let k = choose|k: int|
            0 <= k < list.len() && (#[trigger] list[k]).token == token && list[k].attached;
        lemma_frames_upto(list, list.len(), k);
    }
    if exists|k: int|
        0 <= k < list.len() && (#[trigger] list[k]).token == token && list[k].attached
            && !list[k].overlay {
        let k = choose|k: int|
            0 <= k < list.len() && (#[trigger] list[k]).token == token && list[k].attached
                && !list[k].overlay;
        lemma_frames_upto(list, list.len(), k);
    }
}

proof fn lemma_alone_upto(list: Seq<ClientInfo>, pane: PaneId, visible: bool, n: nat, k: int)
    requires
        0 <= k < n <= list.len(),
        list[k].direct is Some,
        list[k].direct->0.pane == pane,
    ensures
        direct_tokens(list, pane, n).contains(list[k].token),
        exists|at: int|
            0 <= at < direct_paints(list, pane, visible, n).len() && (#[trigger] direct_paints(
                list,
                pane,
                visible,
                n,
            )[at]).token == list[k].token && (direct_paints(list, pane, visible, n)[at].set_visible
                is None <==> list[k].direct->0.last_cursor_visible == Some(visible)) && (
            direct_paints(list, pane, visible, n)[at].set_visible is Some ==> direct_paints(
                list,
                pane,
                visible,
                n,
            )[at].set_visible->0 == visible),
    decreases n,
{
    let tokens = direct_tokens(list, pane, n);
    let paints = direct_paints(list, pane, visible, n);
    if k == n - 1 {
        assert(tokens[tokens.len() - 1] == list[k].token);
        assert(paints[paints.len() - 1].token == list[k].token);
    } else {
        let m = (n - 1) as nat;
        lemma_alone_upto(list, pane, visible, m, k);
        let rest = direct_tokens(list, pane, m);
        let at = choose|at: int| 0 <= at < rest.len() && rest[at] == list[k].token;
        assert(tokens[at] == list[k].token);
        let had = direct_paints(list, pane, visible, m);
        let at = choose|at: int|
            0 <= at < had.len() && (#[trigger] had[at]).token == list[k].token && (
            had[at].set_visible is None <==> list[k].direct->0.last_cursor_visible == Some(visible))
                && (had[at].set_visible is Some ==> had[at].set_visible->0 == visible);
        assert(paints[at] == had[at]);
    }
}

proof fn lemma_alone_only(list: Seq<ClientInfo>, pane: PaneId, n: nat, token: Token)
    requires
        n <= list.len(),
        direct_tokens(list, pane, n).contains(token),
    ensures
        exists|k: int|
            0 <= k < n && (#[trigger] list[k]).token == token && list[k].direct is Some
                && list[k].direct->0.pane == pane,
    decreases n,
{
    let out = direct_tokens(list, pane, n);
    let at = choose|at: int| 0 <= at < out.len() && out[at] == token;
    if n > 0 {
        let m = (n - 1) as nat;
        let rest = direct_tokens(list, pane, m);
        if at < rest.len() {
            assert(rest[at] == token);
            lemma_alone_only(list, pane, m, token);
        } else {
            assert(list[n - 1].token == token);
        }
    }
}

proof fn lemma_paints_match(list: Seq<ClientInfo>, pane: PaneId, visible: bool, n: nat)
    requires
        n <= list.len(),
    ensures
        direct_paints(list, pane, visible, n).len() == direct_tokens(list, pane, n).len(),
    decreases n,
{
    if n > 0 {
        lemma_paints_match(list, pane, visible, (n - 1) as nat);
    }
}

/// The output of a Pane goes to every client that shows it alone and to no
/// other; each is told of the cursor unless it shows it so already.
pub proof fn lemma_who_shows_the_pane_alone(
    list: Seq<ClientInfo>,
    pane: PaneId,
    visible: bool,
    token: Token,
)
    ensures
        direct_tokens(list, pane, list.len()).contains(token) <==> exists|k: int|
            0 <= k < list.len() && (#[trigger] list[k]).token == token && list[k].direct is Some
                && list[k].direct->0.pane == pane,
        direct_paints(list, pane, visible, list.len()).len() == direct_tokens(
            list,
            pane,
            list.len(),
        ).len(),
        with_cursors(list, pane, visible).len() == list.len(),
        forall|k: int|
            0 <= k < list.len() ==> {
                let c = #[trigger] with_cursors(list, pane, visible)[k];
                let here = list[k].direct is Some && list[k].direct->0.pane == pane;
                &&& !here ==> c == list[k]
                &&& here ==> {
                    &&& c.direct is Some
                    &&& c.direct->0.pane == pane
                    &&& c.direct->0.role == list[k].direct->0.role
                    &&& c.direct->0.last_cursor_visible == Some(visible)
                    &&& c.token == list[k].token && c.attached == list[k].attached
                }
            },
{
    let n = list.len();
    lemma_paints_match(list, pane, visible, n);
    if direct_tokens(list, pane, n).contains(token) {
        lemma_alone_only(list, pane, n, token);
    }
    if exists|k: int|
        0 <= k < list.len() && (#[trigger] list[k]).token == token && list[k].direct is Some
            && list[k].direct->0.pane == pane {
        let k = choose|k: int|
            0 <= k < list.len() && (#[trigger] list[k]).token == token && list[k].direct is Some
                && list[k].direct->0.pane == pane;
        lemma_alone_upto(list, pane, visible, n, k);
    }
}

/// What is told of the cursor to a client that shows the Pane alone.
pub proof fn lemma_cursor_told_where_it_changed(
    list: Seq<ClientInfo>,
    pane: PaneId,
    visible: bool,
    k: int,
)
    requires
        0 <= k < list.len(),
        list[k].direct is Some,
        list[k].direct->0.pane == pane,
    ensures
        ({
            let paints = direct_paints(list, pane, visible, list.len());
            exists|at: int|
                0 <= at < paints.len() && (#[trigger] paints[at]).token == list[k].token && (
                paints[at].set_visible is None <==> list[k].direct->0.last_cursor_visible == Some(
                    visible,
                )) && (paints[at].set_visible is Some ==> paints[at].set_visible->0 == visible)
        }),
{
    lemma_alone_upto(list, pane, visible, list.len(), k);
}

/// Output is painted where its Pane is to be seen and nothing lies over it. A
/// frozen view keeps the damage, a hidden one forgets it, and the screen is
/// scrolled only where the Pane spans its width.
pub proof fn lemma_where_output_is_painted(shown: Shown, out: PaneOutput, cols: u16)
    ensures
        ({
            let step = damage(shown, out, cols);
            let seen = !out.covered && out.rect is Some;
            let settled = !out.dirty && out.cursor == shown.cursor && shown.cursor_visible is Some
                && shown.cursor_visible->0 == out.cursor_visible;
            &&& step is Forget <==> !seen
            &&& step is Keep <==> seen && out.copying
            &&& step is Nothing <==> seen && !out.copying && settled
            &&& step is Paint <==> seen && !out.copying && !settled
            &&& step is Paint ==> {
                &&& step->rect == out.rect->0
                &&& step->scroll <==> out.rect->0.x == 0 && out.rect->0.w == cols && out.scrolled
                &&& step->set_visible is None <==> shown.cursor_visible is Some
                    && shown.cursor_visible->0 == out.cursor_visible
                &&& step->set_visible is Some ==> step->set_visible->0 == out.cursor_visible
            }
        }),
{
}

/// A title is sent when it is there and differs from the one shown.
pub proof fn lemma_title_sent_when_new(shown: Option<String>, title: Option<String>)
    ensures
        title is None ==> !title_changed(shown, title),
        title is Some && shown is None ==> title_changed(shown, title),
        title is Some && shown is Some ==> (title_changed(shown, title) <==> shown->0@ != title->0@),
{
}

/// A text holds another where it can be cut out of it, and holds every piece of
/// itself.
pub proof fn lemma_text_holds_its_pieces(before: Seq<char>, piece: Seq<char>, after: Seq<char>)
    ensures
        holds_text(before + piece + after, piece),
{
    let whole = before + piece + after;
    let i = before.len() as int;
    assert(whole.subrange(i, i + piece.len()) =~= piece);
    assert(stands_at(whole, piece, i));
}

/// What a text holds stands in it, letter for letter.
pub proof fn lemma_held_text_stands_there(text: Seq<char>, piece: Seq<char>) -> (i: int)
    requires
        holds_text(text, piece),
    ensures
        0 <= i <= text.len() - piece.len(),
        text.subrange(0, i) + piece + text.subrange(i + piece.len(), text.len() as int) == text,
{
    let i = choose|i: int| stands_at(text, piece, i);
    assert(text.subrange(0, i) + piece + text.subrange(i + piece.len(), text.len() as int)
        =~= text);
    i
}

/// A client that waits for output is answered when the Pane is gone, when the
/// words stand in its newest output, and when its time is up; the words count
/// for more than the time, and until one of these holds it waits on.
pub proof fn lemma_wait_for_output_is_answered(waiting: PendingControlWait, seen: PaneSeen, now: u64)
    requires
        waiting is Output,
    ensures
        ({
            let said = answered(waiting, seen, now);
            let there = holds_text(newest(seen.text@, 262_144), waiting->Output_needle@);
            &&& said is Gone <==> !seen.lives
            &&& said is Matched <==> seen.lives && there
            &&& said is TimedOut <==> seen.lives && !there && now >= waiting->Output_deadline
            &&& said is Later <==> seen.lives && !there && now < waiting->Output_deadline
        }),
{
}

/// A client that waits for a status is answered when the Pane is gone, when its
/// agent has that status, and when its time is up.
pub proof fn lemma_wait_for_status_is_answered(waiting: PendingControlWait, seen: PaneSeen, now: u64)
    requires
        waiting is Agent,
    ensures
        ({
            let said = answered(waiting, seen, now);
            let there = seen.status is Some && seen.status->0 == waiting->status;
            &&& said is Gone <==> !seen.lives
            &&& said is Matched <==> seen.lives && there
            &&& said is TimedOut <==> seen.lives && !there && now >= waiting->Agent_deadline
            &&& said is Later <==> seen.lives && !there && now < waiting->Agent_deadline
        }),
{
}

/// The answer goes to the client that waits, names the Pane that it waits for,
/// and brings the newest output of it, cut at the front where it is too long.
pub proof fn lemma_answer_names_its_wait(
    reply: WaitReply,
    waiting: ClientWait,
    seen: PaneSeen,
    now: u64,
)
    requires
        reply_says(reply, waiting, seen, now),
    ensures
        reply is Output <==> waiting.wait is Output,
        reply is Output ==> {
            &&& reply->Output_client == waiting.client
            &&& reply->Output_pane == waiting.wait->Output_pane
            &&& reply->Output_answer == answered(waiting.wait, seen, now)
            &&& seen.lives ==> exists|k: int|
                0 <= k <= seen.text@.len() && reply->text@ == #[trigger] seen.text@.skip(k)
            &&& seen.lives && utf8_len(seen.text@) <= 262_144 ==> reply->text@ == seen.text@
                && !reply->truncated
            &&& seen.lives && utf8_len(seen.text@) > 262_144 ==> reply->truncated
            &&& !seen.lives ==> reply->text@.len() == 0 && !reply->truncated
        },
        reply is Agent ==> {
            &&& reply->Agent_client == waiting.client
            &&& reply->Agent_pane == waiting.wait->Agent_pane
            &&& reply->Agent_answer == answered(waiting.wait, seen, now)
            &&& seen.lives ==> reply->status == seen.status
            &&& !seen.lives ==> reply->status is None
        },
{
    if reply is Output {
        lemma_newest_is_suffix(seen.text@, 262_144);
    }
}

proof fn lemma_wait_goes_on_upto(
    list: Seq<ClientWait>,
    seen: Seq<PaneSeen>,
    now: u64,
    n: nat,
    k: int,
)
    requires
        0 <= k < n <= list.len(),
        seen.len() == list.len(),
    ensures
        answered(list[k].wait, seen[k], now) is Later ==> waits_left(list, seen, now, n).contains(
            list[k],
        ),
        !(answered(list[k].wait, seen[k], now) is Later) <==> places_answered(
            list,
            seen,
            now,
            n,
        ).contains(k),
    decreases n,
{
    let m = (n - 1) as nat;
    lemma_places_below(list, seen, now, m);
    let left = waits_left(list, seen, now, n);
    let places = places_answered(list, seen, now, n);
    let rest = waits_left(list, seen, now, m);
    let had = places_answered(list, seen, now, m);
    if k == n - 1 {
        if answered(list[k].wait, seen[k], now) is Later {
            assert(left[left.len() - 1] == list[k]);
            assert(!places.contains(k));
        } else {
            assert(places[places.len() - 1] == k);
        }
    } else {
        lemma_wait_goes_on_upto(list, seen, now, m, k);
        if answered(list[k].wait, seen[k], now) is Later {
            let at = choose|at: int| 0 <= at < rest.len() && rest[at] == list[k];
            assert(left[at] == list[k]);
            assert(!places.contains(k)) by {
                if places.contains(k) {
                    let at = choose|at: int| 0 <= at < places.len() && places[at] == k;
                    if at < had.len() {
                        assert(had[at] == k);
                        assert(had.contains(k));
                    }
                }
            }
        } else {
            let at = choose|at: int| 0 <= at < had.len() && had[at] == k;
            assert(places[at] == k);
        }
    }
}

proof fn lemma_places_below(list: Seq<ClientWait>, seen: Seq<PaneSeen>, now: u64, n: nat)
    requires
        n <= list.len(),
    ensures
        forall|at: int|
            0 <= at < places_answered(list, seen, now, n).len() ==> 0 <= #[trigger] places_answered(
                list,
                seen,
                now,
                n,
            )[at] < n,
    decreases n,
{
    if n > 0 {
        lemma_places_below(list, seen, now, (n - 1) as nat);
        let had = places_answered(list, seen, now, (n - 1) as nat);
        let places = places_answered(list, seen, now, n);
        assert forall|at: int| 0 <= at < places.len() implies 0 <= #[trigger] places[at] < n by {
            if at < had.len() {
                assert(places[at] == had[at]);
            }
        }
    }
}

/// Every wait that has its answer is answered, and every other goes on.
pub proof fn lemma_wait_answered_or_goes_on(
    list: Seq<ClientWait>,
    seen: Seq<PaneSeen>,
    now: u64,
    k: int,
)
    requires
        0 <= k < list.len(),
        seen.len() == list.len(),
    ensures
        places_answered(list, seen, now, list.len()).contains(k) <==> !(answered(
            list[k].wait,
            seen[k],
            now,
        ) is Later),
        answered(list[k].wait, seen[k], now) is Later ==> waits_left(
            list,
            seen,
            now,
            list.len(),
        ).contains(list[k]),
{
    lemma_wait_goes_on_upto(list, seen, now, list.len(), k);
}

proof fn lemma_revoked_upto(list: Seq<ClientInfo>, token: Token, pane: PaneId, n: nat, k: int)
    requires
        0 <= k < n <= list.len(),
        list[k].token != token,
        list[k].drives(pane),
    ensures
        revoked_tokens(list, token, pane, n).contains(list[k].token),
    decreases n,
{
    let out = revoked_tokens(list, token, pane, n);
    let rest = revoked_tokens(list, token, pane, (n - 1) as nat);
    if k == n - 1 {
        assert(out[out.len() - 1] == list[k].token);
    } else {
        lemma_revoked_upto(list, token, pane, (n - 1) as nat, k);
        let at = choose|at: int| 0 <= at < rest.len() && rest[at] == list[k].token;
        assert(out[at] == list[k].token);
    }
}

proof fn lemma_revoked_only(list: Seq<ClientInfo>, token: Token, pane: PaneId, n: nat, who: Token)
    requires
        n <= list.len(),
        revoked_tokens(list, token, pane, n).contains(who),
    ensures
        exists|k: int|
            0 <= k < n && (#[trigger] list[k]).token == who && who != token && list[k].drives(pane),
    decreases n,
{
    let out = revoked_tokens(list, token, pane, n);
    let at = choose|at: int| 0 <= at < out.len() && out[at] == who;
    if n > 0 {
        let rest = revoked_tokens(list, token, pane, (n - 1) as nat);
        if at < rest.len() {
            assert(rest[at] == who);
            lemma_revoked_only(list, token, pane, (n - 1) as nat, who);
        } else {
            assert(list[n - 1].token == who);
        }
    }
}

/// Those that lose a Pane to a takeover are told, each that drove it and none
/// that only watched.
pub proof fn lemma_who_loses_a_pane_is_told(
    list: Seq<ClientInfo>,
    token: Token,
    pane: PaneId,
    who: Token,
)
    ensures
        revoked_tokens(list, token, pane, list.len()).contains(who) <==> who != token && exists|
            k: int,
        |
            0 <= k < list.len() && (#[trigger] list[k]).token == who && list[k].direct is Some
                && list[k].direct->0.pane == pane && !(list[k].direct->0.role is Observer),
{
    if revoked_tokens(list, token, pane, list.len()).contains(who) {
        lemma_revoked_only(list, token, pane, list.len(), who);
        let k = choose|k: int|
            0 <= k < list.len() && (#[trigger] list[k]).token == who && who != token
                && list[k].drives(pane);
        assert(list[k].direct is Some);
    }
    if who != token && exists|k: int|
        0 <= k < list.len() && (#[trigger] list[k]).token == who && list[k].direct is Some
            && list[k].direct->0.pane == pane && !(list[k].direct->0.role is Observer) {
        let k = choose|k: int|
            0 <= k < list.len() && (#[trigger] list[k]).token == who && list[k].direct is Some
                && list[k].direct->0.pane == pane && !(list[k].direct->0.role is Observer);
        lemma_revoked_upto(list, token, pane, list.len(), k);
    }
}

} // verus!
