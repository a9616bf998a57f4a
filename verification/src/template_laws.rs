//! What templates and shortened paths can rely on.
use crate::path_text::{below, compact, compacted, joined_parts, parts_of, shown_path};
use crate::template::{closing, expanded, rendered, value_of, TemplateValue};
use crate::text::utf8_len;
use vstd::prelude::*;

verus! {

/// A value is found by its name, the first of that name.
pub proof fn lemma_value_is_found(values: Seq<TemplateValue>, i: int)
    requires
        0 <= i < values.len(),
        forall|k: int| 0 <= k < i ==> (#[trigger] values[k]).name@ != values[i].name@,
    ensures
        value_of(values, values[i].name@) == Some(values[i].value@),
    decreases i,
{
    if i > 0 {
        let rest = values.drop_first();
        assert(values[0].name@ != values[i].name@);
        assert forall|k: int| 0 <= k < i - 1 implies (#[trigger] rest[k]).name@
            != rest[i - 1].name@ by {
            assert(rest[k] == values[k + 1]);
        }
        lemma_value_is_found(rest, i - 1);
    }
}

/// Text without braces stands for itself.
pub proof fn lemma_plain_text_stands_for_itself(t: Seq<char>, values: Seq<TemplateValue>, i: int)
    requires
        0 <= i <= t.len(),
        forall|k: int| 0 <= k < t.len() ==> #[trigger] t[k] != '{' && t[k] != '}',
    ensures
        expanded(t, values, i) == Some(t.skip(i)),
    decreases t.len() - i,
{
    if i < t.len() {
        lemma_plain_text_stands_for_itself(t, values, i + 1);
        assert(t[i] != '{' && t[i] != '}');
        assert(seq![t[i]] + t.skip(i + 1) =~= t.skip(i));
    } else {
        assert(t.skip(i) =~= Seq::empty());
    }
}

proof fn lemma_closing_from(t: Seq<char>, end: int, from: int)
    requires
        0 <= from <= end < t.len(),
        t[end] == '}',
        forall|k: int| from <= k < end ==> #[trigger] t[k] != '}',
    ensures
        closing(t, from) == Some(end),
    decreases end - from,
{
    if from < end {
        lemma_closing_from(t, end, from + 1);
    }
}

/// A name in braces stands for its value, and one that nobody knows spoils the
/// whole; what follows is read on.
pub proof fn lemma_name_stands_for_its_value(
    t: Seq<char>,
    values: Seq<TemplateValue>,
    i: int,
    end: int,
)
    requires
        0 <= i < end < t.len(),
        i + 1 < end,
        t[i] == '{',
        t[end] == '}',
        forall|k: int| i < k < end ==> #[trigger] t[k] != '}' && t[k] != '{',
    ensures
        ({
            let value = value_of(values, t.subrange(i + 1, end));
            let rest = expanded(t, values, end + 1);
            &&& value is None ==> expanded(t, values, i) is None
            &&& rest is None ==> expanded(t, values, i) is None
            &&& value is Some && rest is Some ==> expanded(t, values, i) == Some(value->0 + rest->0)
        }),
{
    assert(t[i + 1] != '{');
    lemma_closing_from(t, end, i + 1);
}

/// A doubled brace stands for one, and a brace that closes nothing spoils the
/// whole.
pub proof fn lemma_doubled_brace_stands_for_one(
    t: Seq<char>,
    values: Seq<TemplateValue>,
    i: int,
)
    requires
        0 <= i < t.len(),
    ensures
        i + 1 < t.len() && t[i] == '{' && t[i + 1] == '{' && expanded(t, values, i + 2) is Some
            ==> expanded(t, values, i) == Some(seq!['{'] + expanded(t, values, i + 2)->0),
        i + 1 < t.len() && t[i] == '}' && t[i + 1] == '}' && expanded(t, values, i + 2) is Some
            ==> expanded(t, values, i) == Some(seq!['}'] + expanded(t, values, i + 2)->0),
        t[i] == '}' && !(i + 1 < t.len() && t[i + 1] == '}') ==> expanded(t, values, i) is None,
{
}

/// A template and what comes of it have their bounds, and within them the whole
/// is rendered.
pub proof fn lemma_template_has_its_bounds(t: Seq<char>, values: Seq<TemplateValue>)
    ensures
        utf8_len(t) > 2_048 ==> rendered(t, values) is None,
        rendered(t, values) is Some ==> utf8_len(rendered(t, values)->0) <= 4_096,
        rendered(t, values) is Some ==> rendered(t, values) == expanded(t, values, 0),
        utf8_len(t) <= 2_048 && expanded(t, values, 0) is Some && utf8_len(
            expanded(t, values, 0)->0,
        ) <= 4_096 ==> rendered(t, values) == expanded(t, values, 0),
{
}

/// A path lies at home if it is home or goes on from there at a slash.
pub proof fn lemma_path_lies_at_home(home: Seq<char>, rest: Seq<char>)
    ensures
        below(home, home),
        below(home + seq!['/'] + rest, home),
        rest.len() > 0 && rest[0] != '/' ==> !below(home + rest, home),
        shown_path(home + seq!['/'] + rest, Some(home)) == seq!['/'] + rest,
        forall|path: Seq<char>| #[trigger] shown_path(path, None) == path,
{
    let path = home + seq!['/'] + rest;
    assert(path.take(home.len() as int) =~= home);
    assert(path.skip(home.len() as int) =~= seq!['/'] + rest);
    if rest.len() > 0 {
        assert((home + rest).take(home.len() as int) =~= home);
        assert((home + rest)[home.len() as int] == rest[0]);
        assert((home + rest).len() != home.len());
    }
}

/// A path is taken apart at its slashes: a name behind a slash is a part of its
/// own, and slashes beside each other count once.
pub proof fn lemma_path_is_taken_apart(path: Seq<char>, c: char)
    ensures
        parts_of(Seq::empty()).len() == 0,
        parts_of(path.push('/')) == parts_of(path),
        c != '/' && (path.len() == 0 || path.last() == '/') ==> parts_of(path.push(c)) == parts_of(
            path,
        ).push(seq![c]),
        c != '/' && path.len() > 0 && path.last() != '/' ==> parts_of(path.push(c)) == parts_of(
            path,
        ).drop_last().push(parts_of(path).last().push(c)),
{
    assert(path.push('/').drop_last() =~= path);
    assert(path.push(c).drop_last() =~= path);
    if path.len() > 0 {
        assert(path.push(c)[path.push(c).len() - 2] == path.last());
    }
}

/// In a shortened path the last part is written out and the ones before it by
/// their heads; home is written as it is in a shell.
pub proof fn lemma_last_part_is_written_out(
    parts: Seq<Seq<char>>,
    heads: Seq<Seq<char>>,
    in_home: bool,
    rooted: bool,
)
    requires
        heads.len() == parts.len(),
    ensures
        parts.len() == 0 && in_home ==> compact(in_home, rooted, parts, heads) == seq!['~'],
        parts.len() == 0 && !in_home ==> compact(in_home, rooted, parts, heads) == seq!['/'],
        parts.len() > 0 ==> parts.last().is_suffix_of(compact(in_home, rooted, parts, heads)),
        parts.len() > 0 && in_home ==> seq!['~', '/'].is_prefix_of(
            compact(in_home, rooted, parts, heads),
        ),
        parts.len() > 0 && !in_home && rooted ==> seq!['/'].is_prefix_of(
            compact(in_home, rooted, parts, heads),
        ),
        parts.len() == 1 && !in_home && !rooted ==> compact(in_home, rooted, parts, heads)
            == parts[0],
        parts.len() == 2 && !in_home && !rooted ==> compact(in_home, rooted, parts, heads)
            == heads[0] + seq!['/'] + parts[1],
{
    if parts.len() > 0 {
        let whole = compact(in_home, rooted, parts, heads);
        let tail = joined_parts(parts, heads, parts.len());
        let last = parts.last();
        assert(tail.skip(tail.len() - last.len()) =~= last);
        assert(whole.skip(whole.len() - last.len()) =~= last);
        if parts.len() == 1 {
            assert(Seq::<char>::empty() + tail =~= parts[0]);
        }
        if parts.len() == 2 {
            assert(joined_parts(parts, heads, 1) == heads[0]);
            assert(heads[0].push('/') + parts[1] =~= heads[0] + seq!['/'] + parts[1]);
            assert(Seq::<char>::empty() + tail =~= heads[0] + seq!['/'] + parts[1]);
        }
    }
}

/// Home itself is written in one sign.
pub proof fn lemma_home_is_one_sign(home: Seq<char>)
    ensures
        compacted(home, Some(home)) == seq!['~'],
{
    assert(home.skip(home.len() as int) =~= Seq::<char>::empty());
}

} // verus!
