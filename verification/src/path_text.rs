//! Shell-prompt-style paths.
use crate::chrome_text::{grapheme_clusters, graphemes};
use crate::search_path::texts;
use crate::text::{chars_of, push_text, string_of};
use vstd::prelude::*;

verus! {

/// The nonempty parts between the slashes of `path`.
pub open spec fn parts_of(path: Seq<char>) -> Seq<Seq<char>>
    decreases path.len(),
{
    if path.len() == 0 {
        Seq::empty()
    } else {
        let rest = parts_of(path.drop_last());
        if path.last() == '/' {
            rest
        } else if path.len() == 1 || path[path.len() - 2] == '/' {
            rest.push(seq![path.last()])
        } else {
            rest.drop_last().push(rest.last().push(path.last()))
        }
    }
}

/// `path` is `home`, or lies below it.
pub open spec fn below(path: Seq<char>, home: Seq<char>) -> bool {
    path == home || (path.len() > home.len() && path.take(home.len() as int) == home
        && path[home.len() as int] == '/')
}

/// The first `n` parts: each reduced to its head but for the last part of all.
pub open spec fn joined_parts(
    parts: Seq<Seq<char>>,
    heads: Seq<Seq<char>>,
    n: nat,
) -> Seq<char>
    decreases n,
{
    if n == 0 {
        Seq::empty()
    } else {
        let rest = joined_parts(parts, heads, (n - 1) as nat);
        let shown = if n == parts.len() {
            parts[n - 1]
        } else {
            heads[n - 1]
        };
        if n == 1 {
            shown
        } else {
            rest.push('/') + shown
        }
    }
}

/// The compact form of a path with these parts: a tilde or a slash in front, and
/// every part but the last reduced to its head.
pub open spec fn compact(
    in_home: bool,
    rooted: bool,
    parts: Seq<Seq<char>>,
    heads: Seq<Seq<char>>,
) -> Seq<char> {
    if parts.len() == 0 {
        if in_home {
            seq!['~']
        } else {
            seq!['/']
        }
    } else {
        let front = if in_home {
            seq!['~', '/']
        } else if rooted {
            seq!['/']
        } else {
            Seq::empty()
        };
        front + joined_parts(parts, heads, parts.len())
    }
}

/// The part of `path` that is shown: what lies below `home`, where it does.
pub open spec fn shown_path(path: Seq<char>, home: Option<Seq<char>>) -> Seq<char> {
    match home {
        Some(h) if below(path, h) => path.skip(h.len() as int),
        _ => path,
    }
}

/// The first grapheme cluster of each part.
pub open spec fn heads_of(parts: Seq<Seq<char>>) -> Seq<Seq<char>> {
    Seq::new(
        parts.len(),
        |i: int|
            if grapheme_clusters(parts[i]).len() == 0 {
                Seq::<char>::empty()
            } else {
                grapheme_clusters(parts[i])[0]
            },
    )
}

/// Write a path from its parts and their heads. `in_home` says that it lies in
/// the home folder, `rooted` that it is absolute.
pub fn join_compact(in_home: bool, rooted: bool, parts: &Vec<String>, heads: &Vec<String>) -> (out:
    String)
    requires
        parts@.len() == heads@.len(),
    ensures
        out@ == compact(in_home, rooted, texts(parts@), texts(heads@)),
{
    let mut out = String::new();
    if parts.len() == 0 {
        out.push(
            if in_home {
                '~'
            } else {
                '/'
            },
        );
        assert(out@ =~= compact(in_home, rooted, texts(parts@), texts(heads@)));
        return out;
    }
    if in_home {
        out.push('~');
        out.push('/');
    } else if rooted {
        out.push('/');
    }
    let ghost front = out@;
    let ghost p = texts(parts@);
    let ghost h = texts(heads@);
    let mut i: usize = 0;
    assert(front + joined_parts(p, h, 0) =~= front);
    while i < parts.len()
        invariant
            i <= parts@.len(),
            parts@.len() == heads@.len(),
            p == texts(parts@),
            h == texts(heads@),
            out@ == front + joined_parts(p, h, i as nat),
        decreases parts@.len() - i,
    {
        if i > 0 {
            out.push('/');
        }
        if i + 1 == parts.len() {
            push_text(&mut out, parts[i].as_str());
        } else {
            push_text(&mut out, heads[i].as_str());
        }
        i += 1;
        assert(out@ =~= front + joined_parts(p, h, i as nat));
    }
    assert(front =~= if in_home {
        seq!['~', '/']
    } else if rooted {
        seq!['/']
    } else {
        Seq::empty()
    });
    out
}

/// What splitting keeps while it goes through `path` up to `i`.
spec fn split_so_far(path: Seq<char>, done: Seq<Seq<char>>, open: Seq<char>, i: int) -> bool {
    if open.len() == 0 {
        &&& done == parts_of(path.take(i))
        &&& i == 0 || path[i - 1] == '/'
    } else {
        &&& done.push(open) == parts_of(path.take(i))
        &&& i > 0 && path[i - 1] != '/'
    }
}

fn split_parts(chars: &Vec<char>, from: usize) -> (parts: Vec<String>)
    requires
        from <= chars@.len(),
    ensures
        texts(parts@) == parts_of(chars@.skip(from as int)),
{
    let ghost path = chars@.skip(from as int);
    let mut parts: Vec<String> = Vec::new();
    let mut current: Vec<char> = Vec::new();
    let mut i: usize = from;
    assert(path.take(0) =~= Seq::<char>::empty());
    assert(texts(parts@) =~= Seq::<Seq<char>>::empty());
    while i < chars.len()
        invariant
            from <= i <= chars@.len(),
            path == chars@.skip(from as int),
            split_so_far(path, texts(parts@), current@, i - from),
        decreases chars@.len() - i,
    {
        let ghost k = i - from;
        let ghost done = texts(parts@);
        let ghost open = current@;
        let c: char = chars[i];
        proof {
            assert(path.take(k + 1).drop_last() =~= path.take(k));
            assert(path.take(k + 1).last() == c);
            if k > 0 {
                assert(path.take(k + 1)[k - 1] == path[k - 1]);
            }
        }
        if c == '/' {
            if current.len() > 0 {
                parts.push(string_of(current.as_slice()));
                current = Vec::new();
                assert(texts(parts@) =~= done.push(open));
            }
        } else {
            current.push(c);
            proof {
                if open.len() == 0 {
                    assert(current@ =~= seq![c]);
                } else {
                    let rest = parts_of(path.take(k));
                    assert(rest.drop_last() =~= done);
                    assert(rest.last() == open);
                }
            }
        }
        i += 1;
    }
    assert(path.take(i - from) =~= path);
    if current.len() > 0 {
        let ghost done = texts(parts@);
        parts.push(string_of(current.as_slice()));
        assert(texts(parts@) =~= done.push(current@));
    }
    parts
}

fn is_below(path: &Vec<char>, home: &Vec<char>) -> (yes: bool)
    ensures
        yes == below(path@, home@),
{
    if path.len() < home.len() {
        return false;
    }
    let mut i: usize = 0;
    while i < home.len()
        invariant
            i <= home@.len() <= path@.len(),
            forall|j: int| 0 <= j < i ==> path@[j] == home@[j],
        decreases home@.len() - i,
    {
        if path[i] != home[i] {
            assert(path@.take(home@.len() as int)[i as int] != home@[i as int]);
            return false;
        }
        i += 1;
    }
    assert(path@.take(home@.len() as int) =~= home@);
    if path.len() == home.len() {
        assert(path@ =~= home@);
        return true;
    }
    path[home.len()] == '/'
}

/// The text of an optional string slice.
pub open spec fn home_text(home: Option<&str>) -> Option<Seq<char>> {
    match home {
        Some(h) => Some(h@),
        None => None,
    }
}

/// A path as it is shown: below the home directory from there, and with the
/// directories on the way shortened.
pub open spec fn compacted(path: Seq<char>, home: Option<Seq<char>>) -> Seq<char> {
    compact(
        home matches Some(h) && below(path, h),
        path.len() > 0 && path[0] == '/',
        parts_of(shown_path(path, home)),
        heads_of(parts_of(shown_path(path, home))),
    )
}

/// Shell-prompt-style path: the home folder becomes a tilde and every parent
/// folder is reduced to its first grapheme while the leaf stays readable.
pub fn compact_project_path(path: &str, home: Option<&str>) -> (out: String)
    ensures
        out@ == compacted(path@, home_text(home)),
{
    let chars = chars_of(path);
    let mut in_home = false;
    let mut from: usize = 0;
    if let Some(h) = home {
        let home_chars = chars_of(h);
        if is_below(&chars, &home_chars) {
            in_home = true;
            from = home_chars.len();
        }
    }
    assert(chars@.skip(0) =~= chars@);
    let parts = split_parts(&chars, from);
    let mut heads: Vec<String> = Vec::new();
    let mut i: usize = 0;
    while i < parts.len()
        invariant
            i <= parts@.len(),
            heads@.len() == i,
            forall|j: int|
                0 <= j < i ==> (#[trigger] heads@[j])@ == heads_of(texts(parts@))[j],
        decreases parts@.len() - i,
    {
        let mut clusters = graphemes(parts[i].as_str());
        let ghost named = grapheme_clusters(parts@[i as int]@);
        let head = if clusters.len() > 0 {
            assert(texts(clusters@)[0] == named[0]);
            clusters.remove(0)
        } else {
            String::new()
        };
        assert(head@ == heads_of(texts(parts@))[i as int]);
        heads.push(head);
        i += 1;
    }
    assert(texts(heads@) =~= heads_of(texts(parts@)));
    let rooted = chars.len() > 0 && chars[0] == '/';
    join_compact(in_home, rooted, &parts, &heads)
}

} // verus!
