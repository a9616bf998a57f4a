//! What settings, notes and limits can rely on: what a change of settings
//! changes, how long a note stays, which Project a launch is for, and where a
//! shell says that it is.
use crate::chrome_text::{change_count_text, printable, sanitized};
use crate::cwd::{advanced, directory_of, escaped_path, from_slash, hex_value, unescaped};
use crate::guardrail::{
    allowed_ids, capped, remaining_ms, role_counts, selected, total_roles, unknown_reason,
    GuardLimits,
};
use crate::hierarchy::Project;
use crate::metadata::{
    at_most, clean_key, clean_value, expiry, forget_owner, key_char, key_chars, unexpired, Note,
};
use crate::orchestration::ActiveRun;
use crate::run_recovery::GuardBounds;
use crate::settings::{clamped, settings_done, Config, SettingsOutcome, SettingsPatch};
use crate::text::{decimal, is_control_code, lemma_decimal_is_the_number, number_of};
use crate::types::ProjectId;
use vstd::prelude::*;

verus! {

/// A setting that was given is set, within its bounds; one that was not stays.
/// The editor and its rules are set by no such change.
pub proof fn lemma_given_settings_are_set(c: Config, patch: SettingsPatch, bounds: GuardBounds)
    ensures
        ({
            let after = c.patched(patch, bounds);
            &&& after.theme == if patch.theme is Some {
                patch.theme->0
            } else {
                c.theme
            }
            &&& after.status == if patch.status is Some {
                patch.status->0
            } else {
                c.status
            }
            &&& after.status_top == if patch.status_top is Some {
                patch.status_top->0
            } else {
                c.status_top
            }
            &&& after.sidebar == if patch.sidebar is Some {
                patch.sidebar->0
            } else {
                c.sidebar
            }
            &&& after.file_sidebar == if patch.file_sidebar is Some {
                patch.file_sidebar->0
            } else {
                c.file_sidebar
            }
            &&& after.notifications == if patch.notification_delivery is Some {
                patch.notification_delivery->0
            } else {
                c.notifications
            }
            &&& after.notify_completion == if patch.notify_completion is Some {
                patch.notify_completion->0
            } else {
                c.notify_completion
            }
            &&& after.focus_follows_mouse == if patch.focus_follows_mouse is Some {
                patch.focus_follows_mouse->0
            } else {
                c.focus_follows_mouse
            }
            &&& after.confirm_close == if patch.confirm_close is Some {
                patch.confirm_close->0
            } else {
                c.confirm_close
            }
            &&& after.confirm_tab_close == if patch.confirm_tab_close is Some {
                patch.confirm_tab_close->0
            } else {
                c.confirm_tab_close
            }
            &&& after.restore == if patch.restore is Some {
                patch.restore->0
            } else {
                c.restore
            }
            &&& after.editor == c.editor && after.editor_rules == c.editor_rules
        }),
{
}

/// A width and a length that were given are kept where they lie within their
/// bounds, and are brought to the nearest bound where they do not.
pub proof fn lemma_sizes_stay_in_bounds(c: Config, patch: SettingsPatch, bounds: GuardBounds)
    ensures
        ({
            let after = c.patched(patch, bounds);
            &&& patch.sidebar_width is None ==> after.sidebar_width == c.sidebar_width
            &&& patch.sidebar_width is Some ==> {
                let w = patch.sidebar_width->0;
                &&& 16 <= after.sidebar_width <= 40
                &&& 16 <= w <= 40 ==> after.sidebar_width == w
                &&& w < 16 ==> after.sidebar_width == 16
                &&& w > 40 ==> after.sidebar_width == 40
            }
            &&& patch.file_sidebar_width is None ==> after.file_sidebar_width
                == c.file_sidebar_width
            &&& patch.file_sidebar_width is Some ==> {
                let w = patch.file_sidebar_width->0;
                &&& 22 <= after.file_sidebar_width <= 52
                &&& 22 <= w <= 52 ==> after.file_sidebar_width == w
                &&& w < 22 ==> after.file_sidebar_width == 22
                &&& w > 52 ==> after.file_sidebar_width == 52
            }
            &&& patch.scrollback_limit is None ==> after.scrollback_limit == c.scrollback_limit
            &&& patch.scrollback_limit is Some ==> {
                let n = patch.scrollback_limit->0;
                &&& 100 <= after.scrollback_limit <= 1_000_000
                &&& 100 <= n <= 1_000_000 ==> after.scrollback_limit == n
                &&& n < 100 ==> after.scrollback_limit == 100
                &&& n > 1_000_000 ==> after.scrollback_limit == 1_000_000
            }
        }),
{
}

/// A limit on runs that was given is at least one and no more than the bound;
/// the time is given in minutes and kept in seconds.
pub proof fn lemma_limits_stay_in_bounds(
    limits: GuardLimits,
    patch: SettingsPatch,
    bounds: GuardBounds,
)
    requires
        bounds.max_active_runs >= 1,
        bounds.max_role_panes >= 1,
        bounds.max_iterations >= 1,
        bounds.max_elapsed_seconds >= 60,
    ensures
        ({
            let after = limits.patched(patch, bounds);
            &&& patch.guardrail_max_active_runs is None ==> after.max_active_runs
                == limits.max_active_runs
            &&& patch.guardrail_max_active_runs is Some ==> {
                let n = patch.guardrail_max_active_runs->0;
                &&& 1 <= after.max_active_runs <= bounds.max_active_runs
                &&& 1 <= n <= bounds.max_active_runs ==> after.max_active_runs == n
            }
            &&& patch.guardrail_max_role_panes is None ==> after.max_role_panes
                == limits.max_role_panes
            &&& patch.guardrail_max_role_panes is Some ==> {
                let n = patch.guardrail_max_role_panes->0;
                &&& 1 <= after.max_role_panes <= bounds.max_role_panes
                &&& 1 <= n <= bounds.max_role_panes ==> after.max_role_panes == n
            }
            &&& patch.guardrail_max_iterations is None ==> after.max_iterations
                == limits.max_iterations
            &&& patch.guardrail_max_iterations is Some ==> {
                let n = patch.guardrail_max_iterations->0;
                &&& 1 <= after.max_iterations <= bounds.max_iterations
                &&& 1 <= n <= bounds.max_iterations ==> after.max_iterations == n
            }
            &&& patch.guardrail_max_elapsed_minutes is None ==> after.max_elapsed_seconds
                == limits.max_elapsed_seconds
            &&& patch.guardrail_max_elapsed_minutes is Some ==> {
                let n = patch.guardrail_max_elapsed_minutes->0;
                &&& 60 <= after.max_elapsed_seconds <= bounds.max_elapsed_seconds
                &&& n >= 1 && n * 60 <= bounds.max_elapsed_seconds ==> after.max_elapsed_seconds
                    == n * 60
            }
        }),
{
}

/// A change of settings takes effect whole or not at all. One that asks for
/// another editor waits until that was tried, and an empty editor is refused;
/// switching the words to people off drops those that wait.
pub proof fn lemma_settings_change_whole(
    before: Config,
    after: Config,
    patch: SettingsPatch,
    bounds: GuardBounds,
    outcome: SettingsOutcome,
)
    requires
        settings_done(before, after, patch, bounds, outcome),
    ensures
        !(outcome is Applied) ==> after == before,
        outcome is Applied ==> after == before.patched(patch, bounds),
        patch.editor is Some || patch.editor_rules is Some ==> !(outcome is Applied),
        outcome is ValidateEditor ==> {
            &&& patch.editor is Some || patch.editor_rules is Some
            &&& outcome->editor@.len() > 0
        },
        patch.editor is None && patch.editor_rules is None
            && patch.guardrail_allowed_projects is None ==> outcome is Applied,
        outcome is Applied ==> {
            let effect = outcome->Applied_0;
            &&& effect.recolor <==> patch.theme is Some
            &&& effect.scrollback <==> patch.scrollback_limit is Some
            &&& effect.silence <==> patch.notification_delivery is Some
                && patch.notification_delivery->0 is Off
        },
{
}

/// A number is brought between two bounds and stays where it lies there.
pub proof fn lemma_number_between_bounds(n: int, low: int, high: int)
    requires
        low <= high,
    ensures
        low <= clamped(n, low, high) <= high,
        low <= n <= high ==> clamped(n, low, high) == n,
        n <= low ==> clamped(n, low, high) == low,
        n >= high ==> clamped(n, low, high) == high,
{
}

proof fn lemma_key_chars(s: Seq<char>)
    ensures
        key_chars(s).len() <= s.len(),
        forall|k: int| 0 <= k < key_chars(s).len() ==> key_char(#[trigger] key_chars(s)[k]),
        (forall|k: int| 0 <= k < s.len() ==> key_char(#[trigger] s[k])) ==> key_chars(s) == s,
    decreases s.len(),
{
    if s.len() > 0 {
        let head = s.drop_last();
        lemma_key_chars(head);
        if forall|k: int| 0 <= k < s.len() ==> key_char(#[trigger] s[k]) {
            assert forall|k: int| 0 <= k < head.len() implies key_char(#[trigger] head[k]) by {
                assert(head[k] == s[k]);
            }
            assert(key_char(s[s.len() - 1]));
            assert(key_chars(s) =~= s);
        }
        let out = key_chars(s);
        assert forall|k: int| 0 <= k < out.len() implies key_char(#[trigger] out[k]) by {
            if k < key_chars(head).len() {
                assert(out[k] == key_chars(head)[k]);
            }
        }
    }
}

/// The key of a note holds letters, digits, dashes, underscores and dots of the
/// key that was given, thirty-two at most; a key that is made of them stays.
pub proof fn lemma_key_of_a_note(key: Seq<char>)
    ensures
        clean_key(key).len() <= 32,
        forall|k: int|
            0 <= k < clean_key(key).len() ==> {
                let c = #[trigger] clean_key(key)[k];
                'a' <= c <= 'z' || 'A' <= c <= 'Z' || '0' <= c <= '9' || c == '-' || c == '_' || c
                    == '.'
            },
{
    let kept = key_chars(crate::text::trimmed(key));
    lemma_key_chars(crate::text::trimmed(key));
    assert forall|k: int| 0 <= k < clean_key(key).len() implies key_char(
        #[trigger] clean_key(key)[k],
    ) by {
        assert(clean_key(key)[k] == kept[k]);
    }
}

/// A key that needs no cleaning is kept letter for letter.
pub proof fn lemma_clean_key_stays(key: Seq<char>)
    requires
        key.len() <= 32,
        crate::text::trimmed(key) == key,
        forall|k: int|
            0 <= k < key.len() ==> {
                let c = #[trigger] key[k];
                'a' <= c <= 'z' || 'A' <= c <= 'Z' || '0' <= c <= '9' || c == '-' || c == '_' || c
                    == '.'
            },
    ensures
        clean_key(key) == key,
{
    assert forall|k: int| 0 <= k < key.len() implies key_char(#[trigger] key[k]) by {}
    lemma_key_chars(key);
}

/// The text of a note is the text that was given without the blanks around it,
/// cut to two hundred letters.
pub proof fn lemma_text_of_a_note(value: Seq<char>)
    ensures
        clean_value(value).len() <= 200,
        clean_value(value).is_prefix_of(crate::text::trimmed(value)),
        crate::text::trimmed(value).len() <= 200 ==> clean_value(value) == crate::text::trimmed(
            value,
        ),
        crate::text::trimmed(value).len() > 200 ==> clean_value(value).len() == 200,
{
    assert(at_most(crate::text::trimmed(value), 200).is_prefix_of(crate::text::trimmed(value)));
}

/// A note stays as many seconds as was asked for, a second at least and a day at
/// most, and for good where nothing was asked.
pub proof fn lemma_note_stays_as_long(now: u64, ttl: Option<u64>)
    requires
        now <= u64::MAX - 86_400_000,
    ensures
        ttl is None ==> expiry(now, ttl) is None,
        ttl is Some ==> {
            &&& expiry(now, ttl) is Some
            &&& ttl->0 == 0 ==> expiry(now, ttl)->0 == now + 1_000
            &&& 1 <= ttl->0 <= 86_400 ==> expiry(now, ttl)->0 == now + 1_000 * ttl->0
            &&& ttl->0 > 86_400 ==> expiry(now, ttl)->0 == now + 86_400_000
        },
{
}

/// Forgetting an owner drops its notes and no others; a note goes when its time
/// has come and not before.
pub proof fn lemma_which_notes_stay(
    notes: Map<(u64, Seq<char>), Note>,
    owner: u64,
    now: u64,
    slot: (u64, Seq<char>),
)
    ensures
        forget_owner(notes, owner).dom().contains(slot) <==> notes.dom().contains(slot) && slot.0
            != owner,
        notes.dom().contains(slot) && slot.0 != owner ==> forget_owner(notes, owner)[slot]
            == notes[slot],
        unexpired(notes, now).dom().contains(slot) <==> notes.dom().contains(slot) && (
        notes[slot].expires is None || now < notes[slot].expires->0),
        unexpired(notes, now).dom().contains(slot) ==> unexpired(notes, now)[slot] == notes[slot],
{
}

/// What is left of a run's time: all of it at the start, less by what went by,
/// and nothing once it is over.
pub proof fn lemma_time_that_is_left(started: u64, now: u64, limits: GuardLimits)
    requires
        limits.max_elapsed_seconds <= 1_000_000_000,
    ensures
        now <= started ==> remaining_ms(started, now, limits) == limits.max_elapsed_seconds * 1_000,
        started <= now && now - started <= limits.max_elapsed_seconds * 1_000 ==> now - started
            + remaining_ms(started, now, limits) == limits.max_elapsed_seconds * 1_000,
        started <= now && now - started >= limits.max_elapsed_seconds * 1_000 ==> remaining_ms(
            started,
            now,
            limits,
        ) == 0,
{
}

proof fn lemma_selected_from(
    projects: Seq<Project>,
    active: ProjectId,
    selector: Option<Seq<char>>,
    i: int,
    from: int,
)
    requires
        0 <= from <= i < projects.len(),
        selector is Some ==> projects[i].name@ == selector->0 || projects[i].root@ == selector->0,
        selector is None ==> projects[i].id == active,
        forall|k: int|
            0 <= k < i ==> {
                let p = #[trigger] projects[k];
                &&& selector is Some ==> p.name@ != selector->0 && p.root@ != selector->0
                &&& selector is None ==> p.id != active
            },
    ensures
        selected(projects, active, selector, from) == Some(i),
    decreases i - from,
{
    if from < i {
        assert(selector is Some ==> projects[from].name@ != selector->0);
        lemma_selected_from(projects, active, selector, i, from + 1);
    }
}

/// A launch is for the first Project that goes by the name or the root that was
/// given, and for the active one where none was.
pub proof fn lemma_launch_is_for_the_named_project(
    projects: Seq<Project>,
    active: ProjectId,
    selector: Option<Seq<char>>,
    i: int,
)
    requires
        0 <= i < projects.len(),
        selector is Some ==> projects[i].name@ == selector->0 || projects[i].root@ == selector->0,
        selector is None ==> projects[i].id == active,
        forall|k: int|
            0 <= k < i ==> {
                let p = #[trigger] projects[k];
                &&& selector is Some ==> p.name@ != selector->0 && p.root@ != selector->0
                &&& selector is None ==> p.id != active
            },
    ensures
        selected(projects, active, selector, 0) == Some(i),
{
    lemma_selected_from(projects, active, selector, i, 0);
}

proof fn lemma_none_selected(
    projects: Seq<Project>,
    active: ProjectId,
    selector: Option<Seq<char>>,
    from: int,
)
    requires
        0 <= from,
        forall|k: int|
            0 <= k < projects.len() ==> {
                let p = #[trigger] projects[k];
                &&& selector is Some ==> p.name@ != selector->0 && p.root@ != selector->0
                &&& selector is None ==> p.id != active
            },
    ensures
        selected(projects, active, selector, from) is None,
    decreases projects.len() - from,
{
    if from < projects.len() {
        assert(selector is Some ==> projects[from].name@ != selector->0);
        lemma_none_selected(projects, active, selector, from + 1);
    }
}

/// A Project that nobody has is not found, and the refusal says which.
pub proof fn lemma_unknown_project_is_named(
    projects: Seq<Project>,
    active: ProjectId,
    selector: Option<Seq<char>>,
)
    requires
        forall|k: int|
            0 <= k < projects.len() ==> {
                let p = #[trigger] projects[k];
                &&& selector is Some ==> p.name@ != selector->0 && p.root@ != selector->0
                &&& selector is None ==> p.id != active
            },
    ensures
        selected(projects, active, selector, 0) is None,
        selector is Some ==> unknown_reason(selector) == "unknown Project '"@ + selector->0
            + "' in this Workspace"@,
        selector is None ==> unknown_reason(selector)
            == "the active Project is not owned by this Workspace"@,
{
    lemma_none_selected(projects, active, selector, 0);
}

proof fn lemma_allowed_upto(
    projects: Seq<Project>,
    repositories: Seq<Option<String>>,
    configured: Seq<Seq<char>>,
    n: nat,
    k: int,
)
    requires
        0 <= k < n <= projects.len(),
        configured.contains(projects[k].name@) || configured.contains(projects[k].root@) || (
        repositories[k] is Some && configured.contains(repositories[k]->0@)),
    ensures
        allowed_ids(projects, repositories, configured, n).contains(projects[k].id),
    decreases n,
{
    let out = allowed_ids(projects, repositories, configured, n);
    let rest = allowed_ids(projects, repositories, configured, (n - 1) as nat);
    if k == n - 1 {
        assert(out[out.len() - 1] == projects[k].id);
    } else {
        lemma_allowed_upto(projects, repositories, configured, (n - 1) as nat, k);
        let at = choose|at: int| 0 <= at < rest.len() && rest[at] == projects[k].id;
        assert(out[at] == projects[k].id);
    }
}

proof fn lemma_allowed_only(
    projects: Seq<Project>,
    repositories: Seq<Option<String>>,
    configured: Seq<Seq<char>>,
    n: nat,
    id: ProjectId,
)
    requires
        n <= projects.len(),
        allowed_ids(projects, repositories, configured, n).contains(id),
    ensures
        exists|k: int|
            0 <= k < n && (#[trigger] projects[k]).id == id && (configured.contains(
                projects[k].name@,
            ) || configured.contains(projects[k].root@) || (repositories[k] is Some
                && configured.contains(repositories[k]->0@))),
    decreases n,
{
    let out = allowed_ids(projects, repositories, configured, n);
    let at = choose|at: int| 0 <= at < out.len() && out[at] == id;
    if n > 0 {
        let rest = allowed_ids(projects, repositories, configured, (n - 1) as nat);
        if at < rest.len() {
            assert(rest[at] == id);
            lemma_allowed_only(projects, repositories, configured, (n - 1) as nat, id);
        } else {
            assert(projects[n - 1].id == id);
        }
    }
}

/// The Projects that automation may run in are those that were listed, by their
/// name, their root or their repository, and no others.
pub proof fn lemma_listed_projects_are_allowed(
    projects: Seq<Project>,
    repositories: Seq<Option<String>>,
    configured: Seq<Seq<char>>,
    id: ProjectId,
)
    ensures
        allowed_ids(projects, repositories, configured, projects.len()).contains(id) <==> exists|
            k: int,
        |
            0 <= k < projects.len() && (#[trigger] projects[k]).id == id && (configured.contains(
                projects[k].name@,
            ) || configured.contains(projects[k].root@) || (repositories[k] is Some
                && configured.contains(repositories[k]->0@))),
{
    if allowed_ids(projects, repositories, configured, projects.len()).contains(id) {
        lemma_allowed_only(projects, repositories, configured, projects.len(), id);
    }
    if exists|k: int|
        0 <= k < projects.len() && (#[trigger] projects[k]).id == id && (configured.contains(
            projects[k].name@,
        ) || configured.contains(projects[k].root@) || (repositories[k] is Some
            && configured.contains(repositories[k]->0@))) {
        let k = choose|k: int|
            0 <= k < projects.len() && (#[trigger] projects[k]).id == id && (configured.contains(
                projects[k].name@,
            ) || configured.contains(projects[k].root@) || (repositories[k] is Some
                && configured.contains(repositories[k]->0@)));
        lemma_allowed_upto(projects, repositories, configured, projects.len(), k);
    }
}

/// The roles of the runs are counted run by run, and added up.
pub proof fn lemma_roles_are_counted(runs: Seq<ActiveRun>, n: nat, k: int, roles: Seq<usize>, m: nat)
    requires
        n <= runs.len(),
        m < roles.len(),
    ensures
        role_counts(runs, n).len() == n,
        0 <= k < n && runs[k].role_panes@.len() <= usize::MAX ==> role_counts(runs, n)[k]
            == runs[k].role_panes@.len(),
        total_roles(roles, 0) == 0,
        total_roles(roles, m) + roles[m as int] <= usize::MAX ==> total_roles(roles, m + 1)
            == total_roles(roles, m) + roles[m as int],
        forall|c: int| 0 <= c <= u16::MAX ==> #[trigger] capped(c) == c,
        forall|c: int| c > u16::MAX ==> #[trigger] capped(c) == u16::MAX,
    decreases n,
{
    if n > 0 {
        lemma_roles_are_counted(runs, (n - 1) as nat, k, roles, m);
    }
}

/// A count of changes is written out in full while it is short, and in thousands
/// rounded to the nearest when it is long.
pub proof fn lemma_count_of_changes(value: nat) -> (parts: (Seq<char>, Seq<char>))
    ensures
        value < 10_000 ==> number_of(change_count_text(value as int)) == value,
        value >= 100_000 ==> {
            &&& change_count_text(value as int) == parts.0 + seq!['k']
            &&& -500 <= 1_000 * number_of(parts.0) - value <= 500
        },
        10_000 <= value < 100_000 ==> {
            &&& change_count_text(value as int) == parts.0 + seq!['.'] + parts.1 + seq!['k']
            &&& 0 <= number_of(parts.1) <= 9
            &&& -50 <= 1_000 * number_of(parts.0) + 100 * number_of(parts.1) - value <= 50
        },
{
    if value >= 100_000 {
        let n = ((value as int + 500) / 1_000) as nat;
        lemma_decimal_is_the_number(n);
        (decimal(n), Seq::empty())
    } else if value >= 10_000 {
        let tenths = (value as int + 50) / 100;
        lemma_decimal_is_the_number((tenths / 10) as nat);
        lemma_decimal_is_the_number((tenths % 10) as nat);
        (decimal((tenths / 10) as nat), decimal((tenths % 10) as nat))
    } else {
        lemma_decimal_is_the_number(value);
        (Seq::empty(), Seq::empty())
    }
}

/// What is shown of a text is the text without its control codes, cut where it
/// is too long; one without any stays.
pub proof fn lemma_shown_text_is_tame(text: Seq<char>, limit: nat)
    ensures
        sanitized(text, limit as int).len() <= limit,
        sanitized(text, limit as int).is_prefix_of(printable(text)),
        printable(text).len() <= text.len(),
        forall|k: int|
            0 <= k < printable(text).len() ==> !is_control_code(#[trigger] printable(text)[k]),
        (forall|k: int| 0 <= k < text.len() ==> !is_control_code(#[trigger] text[k]))
            ==> printable(text) == text,
    decreases text.len(),
{
    if text.len() > 0 {
        let head = text.drop_last();
        lemma_shown_text_is_tame(head, limit);
        let out = printable(text);
        assert forall|k: int| 0 <= k < out.len() implies !is_control_code(#[trigger] out[k]) by {
            if k < printable(head).len() {
                assert(out[k] == printable(head)[k]);
            }
        }
        if forall|k: int| 0 <= k < text.len() ==> !is_control_code(#[trigger] text[k]) {
            assert forall|k: int| 0 <= k < head.len() implies !is_control_code(
                #[trigger] head[k],
            ) by {
                assert(head[k] == text[k]);
            }
            assert(!is_control_code(text[text.len() - 1]));
            assert(printable(text) =~= text);
        }
    }
}

/// A digit of an escape stands for its value, in small letters and in capitals.
pub proof fn lemma_digit_has_its_value(b: u8)
    ensures
        '0' as u8 <= b <= '9' as u8 ==> hex_value(b) == Some((b - '0' as u8) as u8),
        'a' as u8 <= b <= 'f' as u8 ==> hex_value(b) == Some((b - 'a' as u8 + 10) as u8),
        'A' as u8 <= b <= 'F' as u8 ==> hex_value(b) == Some((b - 'A' as u8 + 10) as u8),
        hex_value(b) is None <==> !('0' as u8 <= b <= '9' as u8 || 'a' as u8 <= b <= 'f' as u8
            || 'A' as u8 <= b <= 'F' as u8),
        hex_value(b) is Some ==> hex_value(b)->0 < 16,
{
}

/// The digit for a value below sixteen.
pub open spec fn hex_letter(value: int) -> u8 {
    if value < 10 {
        ('0' as u8 + value) as u8
    } else {
        ('A' as u8 + value - 10) as u8
    }
}

/// A path with every byte of it escaped.
pub open spec fn all_escaped(path: Seq<u8>) -> Seq<u8>
    decreases path.len(),
{
    if path.len() == 0 {
        Seq::empty()
    } else {
        seq!['%' as u8, hex_letter(path[0] as int / 16), hex_letter(path[0] as int % 16)]
            + all_escaped(path.drop_first())
    }
}

/// A path that was escaped comes back as it was, byte for byte.
pub proof fn lemma_escaped_path_comes_back(path: Seq<u8>)
    requires
        forall|k: int| 0 <= k < path.len() ==> #[trigger] path[k] != 0,
    ensures
        unescaped(all_escaped(path)) == Some(path),
    decreases path.len(),
{
    if path.len() > 0 {
        let rest = path.drop_first();
        let whole = all_escaped(path);
        assert forall|k: int| 0 <= k < rest.len() implies #[trigger] rest[k] != 0 by {
            assert(rest[k] == path[k + 1]);
        }
        lemma_escaped_path_comes_back(rest);
        assert(whole.skip(3) =~= all_escaped(rest));
        let high = path[0] as int / 16;
        let low = path[0] as int % 16;
        assert(0 <= high < 16 && 0 <= low < 16);
        assert(whole[0] == 37);
        assert(whole[1] == hex_letter(high) && whole[2] == hex_letter(low));
        assert(hex_value(whole[1]) == Some(high as u8));
        assert(hex_value(whole[2]) == Some(low as u8));
        assert(high * 16 + low == path[0]);
        assert(seq![path[0]] + rest =~= path);
    }
}

/// A path without escapes and control codes is taken as it stands.
pub proof fn lemma_plain_path_stays(path: Seq<u8>)
    requires
        forall|k: int|
            0 <= k < path.len() ==> #[trigger] path[k] != '%' as u8 && path[k] >= 32 && path[k]
                != 127,
    ensures
        unescaped(path) == Some(path),
    decreases path.len(),
{
    if path.len() > 0 {
        let rest = path.skip(1);
        assert(path[0] != '%' as u8);
        assert forall|k: int| 0 <= k < rest.len() implies #[trigger] rest[k] != '%' as u8 && rest[k]
            >= 32 && rest[k] != 127 by {
            assert(rest[k] == path[k + 1]);
        }
        lemma_plain_path_stays(rest);
        assert(seq![path[0]] + rest =~= path);
    }
}

proof fn lemma_from_slash(host: Seq<u8>, path: Seq<u8>)
    requires
        path.len() > 0,
        path[0] == '/' as u8,
        forall|k: int| 0 <= k < host.len() ==> #[trigger] host[k] != '/' as u8,
    ensures
        from_slash(host + path) == Some(path),
    decreases host.len(),
{
    let whole = host + path;
    if host.len() > 0 {
        let rest = host.drop_first();
        assert(whole[0] == host[0]);
        assert(whole.drop_first() =~= rest + path);
        assert forall|k: int| 0 <= k < rest.len() implies #[trigger] rest[k] != '/' as u8 by {
            assert(rest[k] == host[k + 1]);
        }
        lemma_from_slash(rest, path);
    } else {
        assert(whole =~= path);
    }
}

/// The path of a file address begins at its first slash after the host, whatever
/// the host is called.
pub proof fn lemma_path_follows_the_host(host: Seq<u8>, path: Seq<u8>)
    requires
        path.len() > 0,
        path[0] == '/' as u8,
        forall|k: int| 0 <= k < host.len() ==> #[trigger] host[k] != '/' as u8,
    ensures
        escaped_path(
            seq![
                'f' as u8,
                'i' as u8,
                'l' as u8,
                'e' as u8,
                ':' as u8,
                '/' as u8,
                '/' as u8,
            ] + host + path,
        ) == Some(path),
{
    let head = seq![
        'f' as u8,
        'i' as u8,
        'l' as u8,
        'e' as u8,
        ':' as u8,
        '/' as u8,
        '/' as u8,
    ];
    let uri = head + host + path;
    assert(crate::cwd::file_scheme() + crate::cwd::authority_mark() =~= head);
    assert(uri.take(7) =~= head);
    assert(uri.skip(7) =~= host + path);
    lemma_from_slash(host, path);
}

/// A shell that says where it is is believed; one that says nothing, or nothing
/// that can be read, is where it was.
pub proof fn lemma_shell_is_where_it_says(cached: Option<Seq<char>>, reported: Option<Seq<char>>)
    ensures
        reported is None ==> advanced(cached, reported) == cached,
        reported is Some && directory_of(reported->0) is None ==> advanced(cached, reported)
            == cached,
        reported is Some && directory_of(reported->0) is Some ==> advanced(cached, reported)
            == directory_of(reported->0),
{
}

} // verus!
