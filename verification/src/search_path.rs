//! The directories in which agents are looked up.
use crate::text::{byte_len, chars_of, same_text, utf8_len};
use vstd::prelude::*;

verus! {

/// The most directories a bridge may report.
pub const MAX_REMOTE_SEARCH_PATH_ENTRIES: usize = 256;

/// The most bytes those directories may take together.
pub const MAX_REMOTE_SEARCH_PATH_BYTES: usize = 65_536;

/// What a list of strings holds.
pub open spec fn texts(list: Seq<String>) -> Seq<Seq<char>> {
    Seq::new(list.len(), |i: int| list[i]@)
}

/// The entries without the repetitions: each where it first occurs.
pub open spec fn firsts(list: Seq<Seq<char>>) -> Seq<Seq<char>>
    decreases list.len(),
{
    if list.len() == 0 {
        list
    } else {
        let rest = firsts(list.drop_last());
        if rest.contains(list.last()) {
            rest
        } else {
            rest.push(list.last())
        }
    }
}

/// The bytes of all entries together.
pub open spec fn total_bytes(list: Seq<Seq<char>>) -> nat
    decreases list.len(),
{
    if list.len() == 0 {
        0
    } else {
        total_bytes(list.drop_last()) + utf8_len(list.last())
    }
}

/// A directory that can be searched: an absolute path without a NUL.
pub open spec fn searchable(entry: Seq<char>) -> bool {
    entry.len() > 0 && entry[0] == '/' && !entry.contains('\0')
}

/// A report that is taken over: bounded, and every entry searchable.
pub open spec fn acceptable(list: Seq<Seq<char>>) -> bool {
    &&& 0 < list.len() <= MAX_REMOTE_SEARCH_PATH_ENTRIES
    &&& total_bytes(list) <= MAX_REMOTE_SEARCH_PATH_BYTES
    &&& forall|i: int| 0 <= i < list.len() ==> searchable(#[trigger] list[i])
}

/// `preferred`, followed by the entries of `existing` that it lacks.
pub open spec fn widened(preferred: Seq<Seq<char>>, existing: Seq<Seq<char>>) -> Seq<Seq<char>>
    decreases existing.len(),
{
    if existing.len() == 0 {
        preferred
    } else {
        let rest = widened(preferred, existing.drop_last());
        if rest.contains(existing.last()) {
            rest
        } else {
            rest.push(existing.last())
        }
    }
}

fn is_searchable(entry: &str) -> (ok: bool)
    ensures
        ok == searchable(entry@),
{
    let chars = chars_of(entry);
    if chars.len() == 0 || chars[0] != '/' {
        return false;
    }
    let mut i: usize = 0;
    while i < chars.len()
        invariant
            i <= chars@.len(),
            chars@ == entry@,
            forall|j: int| 0 <= j < i ==> chars@[j] != '\0',
        decreases chars@.len() - i,
    {
        if chars[i] == '\0' {
            assert(entry@.contains(entry@[i as int]));
            return false;
        }
        i += 1;
    }
    true
}

fn has_text(list: &Vec<String>, text: &String) -> (found: bool)
    ensures
        found == texts(list@).contains(text@),
{
    let mut i: usize = 0;
    while i < list.len()
        invariant
            i <= list@.len(),
            forall|j: int| 0 <= j < i ==> (#[trigger] list@[j])@ != text@,
        decreases list@.len() - i,
    {
        if same_text(list[i].as_str(), text.as_str()) {
            assert(texts(list@)[i as int] == text@);
            return true;
        }
        i += 1;
    }
    proof {
        if texts(list@).contains(text@) {
            let k = choose|k: int| 0 <= k < texts(list@).len() && texts(list@)[k] == text@;
            assert(list@[k]@ == text@);
        }
    }
    false
}

proof fn lemma_total_grows(list: Seq<Seq<char>>, i: int)
    requires
        0 <= i <= list.len(),
    ensures
        total_bytes(list.take(i)) <= total_bytes(list),
    decreases list.len(),
{
    if i < list.len() {
        lemma_total_grows(list.drop_last(), i);
        assert(list.drop_last().take(i) =~= list.take(i));
    } else {
        assert(list.take(i) =~= list);
    }
}

/// Check a reported search path and drop its repetitions. One bad entry, or too
/// many of them, refuses the whole report.
pub fn normalize_remote_search_path(entries: Vec<String>) -> (normalized: Option<Vec<String>>)
    ensures
        normalized is Some <==> acceptable(texts(entries@)),
        normalized matches Some(list) ==> texts(list@) == firsts(texts(entries@)),
{
    let ghost all = texts(entries@);
    if entries.len() == 0 || entries.len() > MAX_REMOTE_SEARCH_PATH_ENTRIES {
        return None;
    }
    let mut total: usize = 0;
    let mut normalized: Vec<String> = Vec::new();
    let mut i: usize = 0;
    assert(all.take(0) =~= Seq::<Seq<char>>::empty());
    assert(texts(normalized@) =~= Seq::<Seq<char>>::empty());
    while i < entries.len()
        invariant
            i <= entries@.len(),
            all == texts(entries@),
            0 < all.len() <= MAX_REMOTE_SEARCH_PATH_ENTRIES,
            total == total_bytes(all.take(i as int)),
            total <= MAX_REMOTE_SEARCH_PATH_BYTES,
            forall|j: int| 0 <= j < i ==> searchable(#[trigger] all[j]),
            texts(normalized@) == firsts(all.take(i as int)),
        decreases entries@.len() - i,
    {
        proof {
            assert(all.take(i + 1).drop_last() =~= all.take(i as int));
            assert(all.take(i + 1).last() == all[i as int]);
            lemma_total_grows(all, i + 1);
        }
        let len: usize = byte_len(entries[i].as_str());
        match total.checked_add(len) {
            Some(sum) => {
                total = sum;
            },
            None => {
                return None;
            },
        }
        if total > MAX_REMOTE_SEARCH_PATH_BYTES || !is_searchable(entries[i].as_str()) {
            assert(!searchable(all[i as int]) || total_bytes(all) > MAX_REMOTE_SEARCH_PATH_BYTES);
            return None;
        }
        if !has_text(&normalized, &entries[i]) {
            normalized.push(entries[i].clone());
            assert(texts(normalized@) =~= firsts(all.take(i + 1)));
        }
        i += 1;
    }
    assert(all.take(i as int) =~= all);
    Some(normalized)
}

/// Put a bridge's directories first without dropping anything that could
/// already be searched: a later bridge from a narrower shell widens what agents
/// are found and never removes one.
pub fn merge_search_paths(preferred: Vec<String>, existing: &[String]) -> (merged: Vec<String>)
    ensures
        texts(merged@) == widened(texts(preferred@), texts(existing@)),
{
    let ghost first = texts(preferred@);
    let ghost all = texts(existing@);
    let mut merged = preferred;
    let mut i: usize = 0;
    assert(all.take(0) =~= Seq::<Seq<char>>::empty());
    while i < existing.len()
        invariant
            i <= existing@.len(),
            all == texts(existing@),
            texts(merged@) == widened(first, all.take(i as int)),
        decreases existing@.len() - i,
    {
        proof {
            assert(all.take(i + 1).drop_last() =~= all.take(i as int));
            assert(all.take(i + 1).last() == all[i as int]);
        }
        if !has_text(&merged, &existing[i]) {
            merged.push(existing[i].clone());
            assert(texts(merged@) =~= widened(first, all.take(i + 1)));
        }
        i += 1;
    }
    assert(all.take(i as int) =~= all);
    merged
}

/// Merging never narrows the search: the preferred directories come first, in
/// their order, and every directory of either list is still there.
pub proof fn lemma_merge_widens(preferred: Seq<Seq<char>>, existing: Seq<Seq<char>>)
    ensures
        preferred.is_prefix_of(widened(preferred, existing)),
        forall|e: Seq<char>| #[trigger]
            widened(preferred, existing).contains(e) <==> preferred.contains(e)
                || existing.contains(e),
    decreases existing.len(),
{
    let out = widened(preferred, existing);
    if existing.len() > 0 {
        let head = existing.drop_last();
        let last = existing.last();
        let rest = widened(preferred, head);
        lemma_merge_widens(preferred, head);
        assert forall|e: Seq<char>| #[trigger] out.contains(e) <==> preferred.contains(e)
            || existing.contains(e) by {
            assert(existing.contains(e) == (head.contains(e) || e == last)) by {
                if head.contains(e) {
                    let k = choose|k: int| 0 <= k < head.len() && head[k] == e;
                    assert(existing[k] == e);
                }
                if e == last {
                    assert(existing[existing.len() - 1] == e);
                }
                if existing.contains(e) {
                    let k = choose|k: int| 0 <= k < existing.len() && existing[k] == e;
                    if k < head.len() {
                        assert(head[k] == e);
                    }
                }
            }
            assert(rest.contains(e) == (preferred.contains(e) || head.contains(e)));
            if !rest.contains(last) {
                assert(out.contains(e) == (rest.contains(e) || e == last)) by {
                    if rest.contains(e) {
                        let k = choose|k: int| 0 <= k < rest.len() && rest[k] == e;
                        assert(out[k] == e);
                    }
                    if e == last {
                        assert(out[out.len() - 1] == e);
                    }
                    if out.contains(e) {
                        let k = choose|k: int| 0 <= k < out.len() && out[k] == e;
                        if k < rest.len() {
                            assert(rest[k] == e);
                        }
                    }
                }
            }
        }
    }
}

proof fn lemma_firsts(list: Seq<Seq<char>>)
    ensures
        firsts(list).no_duplicates(),
        firsts(list).len() <= list.len(),
        list.len() > 0 ==> firsts(list).len() > 0,
        total_bytes(firsts(list)) <= total_bytes(list),
        forall|e: Seq<char>| #[trigger] firsts(list).contains(e) <==> list.contains(e),
    decreases list.len(),
{
    if list.len() > 0 {
        let head = list.drop_last();
        let last = list.last();
        let rest = firsts(head);
        let out = firsts(list);
        lemma_firsts(head);
        if !rest.contains(last) {
            assert(out.drop_last() =~= rest);
            assert(out.last() == last);
        }
        if rest.contains(last) {
            assert(rest.len() > 0);
        }
        assert forall|e: Seq<char>| #[trigger] out.contains(e) <==> list.contains(e) by {
            if list.contains(e) {
                let k = choose|k: int| 0 <= k < list.len() && list[k] == e;
                if k < head.len() {
                    assert(head[k] == e);
                    assert(rest.contains(e));
                    let m = choose|m: int| 0 <= m < rest.len() && rest[m] == e;
                    assert(out[m] == e);
                } else if !rest.contains(last) {
                    assert(out[out.len() - 1] == e);
                }
            }
            if out.contains(e) {
                let k = choose|k: int| 0 <= k < out.len() && out[k] == e;
                if k < rest.len() {
                    assert(rest[k] == e);
                    assert(rest.contains(e));
                    let m = choose|m: int| 0 <= m < head.len() && head[m] == e;
                    assert(list[m] == e);
                } else {
                    assert(list[list.len() - 1] == e);
                }
            }
        }
    }
}

proof fn lemma_firsts_fixed(list: Seq<Seq<char>>)
    requires
        list.no_duplicates(),
    ensures
        firsts(list) == list,
    decreases list.len(),
{
    if list.len() > 0 {
        lemma_firsts_fixed(list.drop_last());
        if list.drop_last().contains(list.last()) {
            let k = choose|k: int|
                0 <= k < list.drop_last().len() && list.drop_last()[k] == list.last();
            assert(list[k] == list[list.len() - 1]);
        }
        assert(list.drop_last().push(list.last()) =~= list);
    }
}

/// A normalized search path is accepted again and comes back unchanged.
pub proof fn lemma_normalize_idempotent(list: Seq<Seq<char>>)
    requires
        acceptable(list),
    ensures
        acceptable(firsts(list)),
        firsts(firsts(list)) == firsts(list),
{
    lemma_firsts(list);
    lemma_firsts_fixed(firsts(list));
    assert forall|i: int| 0 <= i < firsts(list).len() implies searchable(
        #[trigger] firsts(list)[i],
    ) by {
        assert(firsts(list).contains(firsts(list)[i]));
        let k = choose|k: int| 0 <= k < list.len() && list[k] == firsts(list)[i];
        assert(searchable(list[k]));
    }
}

} // verus!
