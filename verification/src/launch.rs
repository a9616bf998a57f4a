//! How a Pane's process is started: quoting for the shell, resuming an agent's
//! session, and where a restored Pane is started.
use crate::search_path::texts;
use crate::text::{chars_of, push_text, same_text};
use vstd::prelude::*;

verus! {

/// A text with each quote written so that it survives inside single quotes.
pub open spec fn quoted_body(s: Seq<char>) -> Seq<char>
    decreases s.len(),
{
    if s.len() == 0 {
        s
    } else if s.last() == '\'' {
        quoted_body(s.drop_last()) + seq!['\'', '\\', '\'', '\'']
    } else {
        quoted_body(s.drop_last()).push(s.last())
    }
}

/// A text as one word of a shell command.
pub open spec fn quoted(s: Seq<char>) -> Seq<char> {
    seq!['\''] + quoted_body(s) + seq!['\'']
}

/// Write a text as one word of a shell command.
pub fn shell_quote(text: &str) -> (out: String)
    ensures
        out@ == quoted(text@),
{
    let chars = chars_of(text);
    let mut out = String::new();
    out.push('\'');
    let mut i: usize = 0;
    assert(text@.take(0) =~= Seq::<char>::empty());
    assert(out@ =~= seq!['\''] + quoted_body(text@.take(0)));
    while i < chars.len()
        invariant
            i <= chars@.len(),
            chars@ == text@,
            out@ == seq!['\''] + quoted_body(text@.take(i as int)),
        decreases chars@.len() - i,
    {
        assert(text@.take(i + 1).drop_last() =~= text@.take(i as int));
        let c: char = chars[i];
        if c == '\'' {
            out.push('\'');
            out.push('\\');
            out.push('\'');
            out.push('\'');
        } else {
            out.push(c);
        }
        i += 1;
        assert(out@ =~= seq!['\''] + quoted_body(text@.take(i as int)));
    }
    assert(text@.take(i as int) =~= text@);
    out.push('\'');
    assert(out@ =~= quoted(text@));
    out
}

/// What a shell reads as one word from position `i` on: inside single quotes
/// every character stands for itself; outside, a backslash keeps the next one.
/// A word that is left open, or that holds anything else outside, is none.
pub open spec fn shell_word(t: Seq<char>, i: int, inside: bool) -> Option<Seq<char>>
    decreases t.len() - i,
{
    if i < 0 || i >= t.len() {
        if inside {
            None
        } else {
            Some(Seq::empty())
        }
    } else if inside {
        if t[i] == '\'' {
            shell_word(t, i + 1, false)
        } else {
            match shell_word(t, i + 1, true) {
                Some(rest) => Some(seq![t[i]] + rest),
                None => None,
            }
        }
    } else if t[i] == '\'' {
        shell_word(t, i + 1, true)
    } else if t[i] == '\\' && i + 1 < t.len() {
        match shell_word(t, i + 2, false) {
            Some(rest) => Some(seq![t[i + 1]] + rest),
            None => None,
        }
    } else {
        None
    }
}

/// A quoted text is read back by the shell as the text itself.
pub proof fn lemma_quote_round_trip(s: Seq<char>)
    ensures
        shell_word(quoted(s), 0, false) == Some(s),
{
    let t = quoted(s);
    assert(t.subrange(1, 1int + quoted_body(s).len()) =~= quoted_body(s));
    lemma_body_read(s, t, 1, s.len());
    assert(s.take(s.len() as int) =~= s);
    let end = 1 + quoted_body(s).len();
    assert(t[end as int] == '\'');
    assert(shell_word(t, end as int + 1, false) == Some(Seq::<char>::empty()));
    assert(shell_word(t, end as int, true) == Some(Seq::<char>::empty()));
    assert(shell_word(t, 1, true) == Some(s + Seq::<char>::empty()));
    assert(s + Seq::<char>::empty() =~= s);
    assert(t[0] == '\'');
}

/// Reading the body of a quoted text from `at` gives its first `n` characters,
/// then whatever follows.
proof fn lemma_body_read(s: Seq<char>, t: Seq<char>, at: int, n: nat)
    requires
        n <= s.len(),
        0 <= at,
        at + quoted_body(s).len() < t.len(),
        t.subrange(at, at + quoted_body(s).len()) == quoted_body(s),
    ensures
        shell_word(t, at, true) == match shell_word(
            t,
            at + quoted_body(s.take(n as int)).len(),
            true,
        ) {
            Some(rest) => Some(s.take(n as int) + rest),
            None => None,
        },
        quoted_body(s.take(n as int)).is_prefix_of(quoted_body(s)),
    decreases n,
{
    let body = quoted_body(s);
    lemma_body_prefix(s, n);
    if n == 0 {
        assert(s.take(0) =~= Seq::<char>::empty());
        if let Some(rest) = shell_word(t, at, true) {
            assert(s.take(0) + rest =~= rest);
        }
    } else {
        lemma_body_read(s, t, at, (n - 1) as nat);
        lemma_body_prefix(s, (n - 1) as nat);
        let before = s.take(n - 1);
        let now = s.take(n as int);
        assert(now.drop_last() =~= before);
        let p = at + quoted_body(before).len();
        let q = at + quoted_body(now).len();
        let c = s[n - 1];
        let l = quoted_body(before).len() as int;
        let whole = quoted_body(now);
        assert(whole == body.take(whole.len() as int));
        if c == '\'' {
            lemma_same_char(t, at, body, l);
            lemma_same_char(t, at, body, l + 1);
            lemma_same_char(t, at, body, l + 2);
            lemma_same_char(t, at, body, l + 3);
            assert(whole[l] == '\'' && whole[l + 1] == '\\' && whole[l + 2] == '\'' && whole[l + 3]
                == '\'');
            assert(t[p] == '\'' && t[p + 1] == '\\' && t[p + 2] == '\'' && t[p + 3] == '\'');
            assert(shell_word(t, p + 3, false) == shell_word(t, q, true));
            assert(shell_word(t, p + 1, false) == match shell_word(t, p + 3, false) {
                Some(rest) => Some(seq!['\''] + rest),
                None => None,
            });
            assert(shell_word(t, p, true) == shell_word(t, p + 1, false));
        } else {
            lemma_same_char(t, at, body, l);
            assert(whole[l] == c);
            assert(t[p] == c);
        }
        if let Some(rest) = shell_word(t, q, true) {
            assert(before + (seq![c] + rest) =~= now + rest);
        }
    }
}

proof fn lemma_same_char(t: Seq<char>, at: int, body: Seq<char>, k: int)
    requires
        0 <= at,
        at + body.len() < t.len(),
        t.subrange(at, at + body.len()) == body,
        0 <= k < body.len(),
    ensures
        t[at + k] == body[k],
{
    assert(t.subrange(at, at + body.len())[k] == t[at + k]);
}

proof fn lemma_body_prefix(s: Seq<char>, n: nat)
    requires
        n <= s.len(),
    ensures
        quoted_body(s.take(n as int)).is_prefix_of(quoted_body(s)),
    decreases s.len() - n,
{
    if n < s.len() {
        lemma_body_prefix(s, n + 1);
        assert(s.take(n as int + 1).drop_last() =~= s.take(n as int));
        let a = quoted_body(s.take(n as int));
        let b = quoted_body(s.take(n as int + 1));
        let c = quoted_body(s);
        assert(a.is_prefix_of(b));
        assert(b.is_prefix_of(c));
        assert(a =~= c.take(a.len() as int)) by {
            assert(b == c.take(b.len() as int));
            assert(a == b.take(a.len() as int));
        }
    } else {
        assert(s.take(n as int) =~= s);
    }
}

/// The first `n` words, quoted and separated by spaces.
pub open spec fn joined_words(words: Seq<Seq<char>>, n: nat) -> Seq<char>
    decreases n,
{
    if n == 0 {
        Seq::empty()
    } else if n == 1 {
        quoted(words[0])
    } else {
        joined_words(words, (n - 1) as nat) + seq![' '] + quoted(words[n - 1])
    }
}

/// Write words as a shell command.
pub fn shell_join(words: &Vec<String>) -> (out: String)
    ensures
        out@ == joined_words(texts(words@), words@.len()),
{
    let mut out = String::new();
    let mut i: usize = 0;
    while i < words.len()
        invariant
            i <= words@.len(),
            out@ == joined_words(texts(words@), i as nat),
        decreases words@.len() - i,
    {
        if i > 0 {
            out.push(' ');
        }
        let word = shell_quote(words[i].as_str());
        push_text(&mut out, word.as_str());
        i += 1;
        assert(out@ =~= joined_words(texts(words@), i as nat));
    }
    out
}

/// How an agent was started, as a snapshot keeps it.
#[derive(Debug)]
pub struct AgentLaunchSnap {
    pub provider: String,
    pub session_id: Option<String>,
    pub resume_command: Vec<String>,
}

/// What a provider declares: the executables that may resume its sessions, and
/// the announcements printed before and after a run.
#[derive(Debug)]
pub struct ProviderRules {
    pub id: String,
    pub executables: Vec<String>,
    pub announce_start: String,
    pub announce_end: String,
}

/// The position of the provider with this id, from `i` on.
pub open spec fn provider_at(providers: Seq<ProviderRules>, id: Seq<char>, i: int) -> Option<int>
    decreases providers.len() - i,
{
    if i < 0 || i >= providers.len() {
        None
    } else if providers[i].id@ == id {
        Some(i)
    } else {
        provider_at(providers, id, i + 1)
    }
}

/// The command that resumes a session, if it may be run: its first word must be
/// one of the provider's own executables.
pub open spec fn resume_line(
    program: Seq<char>,
    provider: Seq<char>,
    command: Seq<Seq<char>>,
    providers: Seq<ProviderRules>,
) -> Option<Seq<char>> {
    match provider_at(providers, provider, 0) {
        Some(i) if command.len() > 0 && texts(providers[i].executables@).contains(command[0]) =>
            Some(
            providers[i].announce_start@ + joined_words(command, command.len())
                + providers[i].announce_end@ + "; exec "@ + quoted(program),
        ),
        _ => None,
    }
}

fn provider_position(providers: &Vec<ProviderRules>, id: &str) -> (found: Option<usize>)
    ensures
        match found {
            Some(i) => i < providers@.len() && provider_at(providers@, id@, 0) == Some(i as int),
            None => provider_at(providers@, id@, 0) is None,
        },
{
    let mut i: usize = 0;
    while i < providers.len()
        invariant
            i <= providers@.len(),
            provider_at(providers@, id@, 0) == provider_at(providers@, id@, i as int),
        decreases providers@.len() - i,
    {
        if same_text(providers[i].id.as_str(), id) {
            return Some(i);
        }
        i += 1;
    }
    None
}

fn lists(words: &Vec<String>, word: &str) -> (found: bool)
    ensures
        found == texts(words@).contains(word@),
{
    let mut i: usize = 0;
    while i < words.len()
        invariant
            i <= words@.len(),
            forall|j: int| 0 <= j < i ==> (#[trigger] words@[j])@ != word@,
        decreases words@.len() - i,
    {
        if same_text(words[i].as_str(), word) {
            assert(texts(words@)[i as int] == word@);
            return true;
        }
        i += 1;
    }
    proof {
        if texts(words@).contains(word@) {
            let k = choose|k: int| 0 <= k < texts(words@).len() && texts(words@)[k] == word@;
            assert(words@[k]@ == word@);
        }
    }
    false
}

/// The shell arguments that resume an agent's own session. The command came
/// from child-controlled output of an earlier session, so its first word must
/// be one of the provider's declared executables; anything else gives a fresh
/// shell instead of running a forged command.
pub fn native_resume_args(
    program: &str,
    profile: &AgentLaunchSnap,
    providers: &Vec<ProviderRules>,
) -> (args: Option<Vec<String>>)
    ensures
        match args {
            Some(list) => resume_line(
                program@,
                profile.provider@,
                texts(profile.resume_command@),
                providers@,
            ) matches Some(line) && texts(list@) == seq!["-c"@, line],
            None => resume_line(
                program@,
                profile.provider@,
                texts(profile.resume_command@),
                providers@,
            ) is None,
        },
{
    if profile.resume_command.len() == 0 {
        return None;
    }
    let Some(i) = provider_position(providers, profile.provider.as_str()) else {
        return None;
    };
    assert(texts(profile.resume_command@)[0] == profile.resume_command@[0]@);
    if !lists(&providers[i].executables, profile.resume_command[0].as_str()) {
        return None;
    }
    let mut line = providers[i].announce_start.clone();
    let invocation = shell_join(&profile.resume_command);
    push_text(&mut line, invocation.as_str());
    push_text(&mut line, providers[i].announce_end.as_str());
    push_text(&mut line, "; exec ");
    let shell = shell_quote(program);
    push_text(&mut line, shell.as_str());
    let mut args: Vec<String> = Vec::new();
    args.push("-c".to_owned());
    args.push(line);
    assert(texts(args@) =~= seq!["-c"@, line@]);
    Some(args)
}

/// Whether a path is absolute.
pub open spec fn is_absolute(path: Seq<char>) -> bool {
    path.len() > 0 && path[0] == '/'
}

/// Where a restored Pane is started: in its saved directory where that is an
/// absolute path, else in its Project's.
pub open spec fn restored_cwd(saved: Option<Seq<char>>, root: Option<Seq<char>>) -> Option<
    Seq<char>,
> {
    match saved {
        Some(path) if is_absolute(path) => Some(path),
        _ => root,
    }
}

/// The text of an optional string.
pub open spec fn opt_text(s: Option<String>) -> Option<Seq<char>> {
    match s {
        Some(text) => Some(text@),
        None => None,
    }
}

/// Where a restored Pane is started, and whether to try the Project's directory
/// once more when that fails.
#[derive(Debug)]
pub struct RestoredCwd {
    pub cwd: Option<String>,
    pub retry_at_root: bool,
}

/// Choose the directory in which a saved Pane is restored.
pub fn choose_restored_cwd(saved: &Option<String>, root: &Option<String>) -> (choice: RestoredCwd)
    ensures
        opt_text(choice.cwd) == restored_cwd(opt_text(*saved), opt_text(*root)),
        choice.retry_at_root == (opt_text(*saved) matches Some(path) && is_absolute(path)
            && opt_text(*root) != Some(path)),
{
    if let Some(path) = saved {
        let chars = chars_of(path.as_str());
        if chars.len() > 0 && chars[0] == '/' {
            let same = match root {
                Some(r) => same_text(r.as_str(), path.as_str()),
                None => false,
            };
            return RestoredCwd { cwd: Some(path.clone()), retry_at_root: !same };
        }
    }
    let cwd = match root {
        Some(r) => Some(r.clone()),
        None => None,
    };
    RestoredCwd { cwd, retry_at_root: false }
}

} // verus!
