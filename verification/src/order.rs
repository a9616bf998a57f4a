//! The order of texts: by their characters, one after the other.
use crate::text::chars_of;
use vstd::prelude::*;

verus! {

/// `a` comes before `b`.
pub open spec fn precedes(a: Seq<char>, b: Seq<char>) -> bool
    decreases a.len(),
{
    if b.len() == 0 {
        false
    } else if a.len() == 0 {
        true
    } else if a[0] != b[0] {
        (a[0] as int) < (b[0] as int)
    } else {
        precedes(a.drop_first(), b.drop_first())
    }
}

/// No text comes before itself.
pub proof fn lemma_precedes_irreflexive(a: Seq<char>)
    ensures
        !precedes(a, a),
    decreases a.len(),
{
    if a.len() > 0 {
        lemma_precedes_irreflexive(a.drop_first());
    }
}

/// Of two different texts one comes before the other.
pub proof fn lemma_precedes_total(a: Seq<char>, b: Seq<char>)
    ensures
        a == b || precedes(a, b) || precedes(b, a),
    decreases a.len(),
{
    if a.len() == 0 || b.len() == 0 {
        if a.len() == 0 && b.len() == 0 {
            assert(a =~= b);
        }
    } else if a[0] == b[0] {
        lemma_precedes_total(a.drop_first(), b.drop_first());
        if a.drop_first() == b.drop_first() {
            assert(a =~= seq![a[0]] + a.drop_first());
            assert(b =~= seq![b[0]] + b.drop_first());
        }
    } else {
        assert(a[0] as int != b[0] as int);
    }
}

/// The order is transitive.
pub proof fn lemma_precedes_transitive(a: Seq<char>, b: Seq<char>, c: Seq<char>)
    requires
        precedes(a, b),
        precedes(b, c),
    ensures
        precedes(a, c),
    decreases a.len(),
{
    if a.len() > 0 && b.len() > 0 && c.len() > 0 && a[0] == b[0] && b[0] == c[0] {
        lemma_precedes_transitive(a.drop_first(), b.drop_first(), c.drop_first());
    }
}

fn code_precedes(c: char, d: char) -> (before: bool)
    ensures
        before == ((c as int) < (d as int)),
{
    (c as u32) < (d as u32)
}

/// Whether `a` comes before `b`.
pub fn text_precedes(a: &str, b: &str) -> (before: bool)
    ensures
        before == precedes(a@, b@),
{
    let x = chars_of(a);
    let y = chars_of(b);
    let mut i: usize = 0;
    assert(x@.skip(0) =~= x@);
    assert(y@.skip(0) =~= y@);
    while i < x.len() && i < y.len() && x[i] == y[i]
        invariant
            x@ == a@,
            y@ == b@,
            i <= x@.len(),
            i <= y@.len(),
            precedes(x@, y@) == precedes(x@.skip(i as int), y@.skip(i as int)),
        decreases x@.len() - i,
    {
        assert(x@.skip(i as int).drop_first() =~= x@.skip(i + 1));
        assert(y@.skip(i as int).drop_first() =~= y@.skip(i + 1));
        i += 1;
    }
    if i >= y.len() {
        false
    } else if i >= x.len() {
        true
    } else {
        code_precedes(x[i], y[i])
    }
}

/// The texts stand in order, each once.
pub open spec fn ascending(list: Seq<Seq<char>>) -> bool {
    forall|i: int, j: int| 0 <= i < j < list.len() ==> precedes(#[trigger] list[i], #[trigger] list[j])
}

/// Put a text into an ordered list, unless it is there.
pub fn insert_text(list: &mut Vec<String>, text: String)
    requires
        ascending(crate::search_path::texts(old(list)@)),
    ensures
        ascending(crate::search_path::texts(final(list)@)),
        forall|t: Seq<char>| #[trigger]
            crate::search_path::texts(final(list)@).contains(t) <==> crate::search_path::texts(
                old(list)@,
            ).contains(t) || t == text@,
{
    let ghost before = crate::search_path::texts(list@);
    let mut k: usize = 0;
    while k < list.len() && text_precedes(list[k].as_str(), text.as_str())
        invariant
            k <= list@.len(),
            list@ == old(list)@,
            before == crate::search_path::texts(list@),
            forall|i: int| 0 <= i < k ==> precedes(#[trigger] before[i], text@),
        decreases list@.len() - k,
    {
        assert(before[k as int] == list@[k as int]@);
        k += 1;
    }
    let ghost t = text@;
    if k < list.len() {
        proof {
            assert(before[k as int] == list@[k as int]@);
            lemma_precedes_total(before[k as int], t);
        }
        if crate::text::same_text(list[k].as_str(), text.as_str()) {
            assert(before.contains(before[k as int]));
            return;
        }
    }
    list.insert(k, text);
    proof {
        let after = crate::search_path::texts(list@);
        assert(after =~= before.insert(k as int, t));
        assert forall|i: int, j: int| 0 <= i < j < after.len() implies precedes(
            #[trigger] after[i],
            #[trigger] after[j],
        ) by {
            if i < k {
                assert(after[i] == before[i]);
                if j > k {
                    assert(after[j] == before[j - 1]);
                } else if j < k {
                    assert(after[j] == before[j]);
                }
            } else if i == k {
                assert(after[j] == before[j - 1]);
                if j - 1 > k {
                    lemma_precedes_transitive(t, before[k as int], before[j - 1]);
                }
            } else {
                assert(after[i] == before[i - 1]);
                assert(after[j] == before[j - 1]);
            }
        }
        assert forall|q: Seq<char>| #[trigger] after.contains(q) <==> before.contains(q) || q == t by {
            if after.contains(q) {
                let i = choose|i: int| 0 <= i < after.len() && after[i] == q;
                if i < k {
                    assert(before[i] == q);
                } else if i > k {
                    assert(before[i - 1] == q);
                }
            }
            if before.contains(q) {
                let i = choose|i: int| 0 <= i < before.len() && before[i] == q;
                if i < k {
                    assert(after[i] == q);
                } else {
                    assert(after[i + 1] == q);
                }
            }
            assert(after[k as int] == t);
        }
    }
}

} // verus!
