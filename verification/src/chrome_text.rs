//! Text for the chrome: cut, padded and centred to a number of terminal cells.
use crate::search_path::texts;
use crate::text::{chars_of, decimal, is_control_code, push_decimal, push_text, string_of};
use unicode_segmentation::UnicodeSegmentation;
use unicode_width::UnicodeWidthStr;
use vstd::prelude::*;
use vstd::utf8::*;

verus! {

/// The extended grapheme clusters of a text, as Unicode segmentation divides it.
pub uninterp spec fn grapheme_clusters(text: Seq<char>) -> Seq<Seq<char>>;

/// The texts one after the other.
pub open spec fn joined(list: Seq<Seq<char>>) -> Seq<char>
    decreases list.len(),
{
    if list.len() == 0 {
        Seq::empty()
    } else {
        list[0] + joined(list.drop_first())
    }
}

/// `UnicodeSegmentation::graphemes` with extended clusters: the clusters of
/// `text` in order. The division is a function of the text alone; each cluster
/// is the slice of the text from one boundary to the next, so that together
/// they are the text.
#[verifier::external_body]
pub(crate) fn graphemes(text: &str) -> (clusters: Vec<String>)
    ensures
        texts(clusters@) == grapheme_clusters(text@),
        joined(texts(clusters@)) == text@,
{
    text.graphemes(true).map(|cluster| cluster.to_string()).collect()
}

/// The number of terminal cells that a text takes.
pub uninterp spec fn cell_width(text: Seq<char>) -> usize;

/// `UnicodeWidthStr::width`: the displayed width of `text` in columns, a
/// function of the text alone.
#[verifier::external_body]
pub(crate) fn display_width(text: &str) -> (width: usize)
    ensures
        width == cell_width(text@),
{
    UnicodeWidthStr::width(text)
}

/// `n` spaces.
pub open spec fn spaces(n: int) -> Seq<char> {
    Seq::new(
        if n < 0 {
            0
        } else {
            n as nat
        },
        |i: int| ' ',
    )
}

/// Append `n` spaces.
pub(crate) fn push_spaces(out: &mut String, n: usize)
    ensures
        final(out)@ == old(out)@ + spaces(n as int),
{
    let mut i: usize = 0;
    assert(out@ + spaces(0) =~= out@);
    while i < n
        invariant
            i <= n,
            out@ == old(out)@ + spaces(i as int),
        decreases n - i,
    {
        out.push(' ');
        i += 1;
        assert(out@ =~= old(out)@ + spaces(i as int));
    }
}

/// The leading clusters that fit into `room` cells, up to the first that does
/// not, and the cells they take.
pub open spec fn fitting(clusters: Seq<Seq<char>>, widths: Seq<usize>, room: int) -> (
    Seq<char>,
    int,
)
    decreases clusters.len(),
{
    if clusters.len() == 0 || widths[0] > room {
        (Seq::empty(), 0)
    } else {
        let rest = fitting(clusters.drop_first(), widths.drop_first(), room - widths[0]);
        (clusters[0] + rest.0, widths[0] + rest.1)
    }
}

/// The clusters cut to `width` cells and padded with spaces.
pub open spec fn fitted(clusters: Seq<Seq<char>>, widths: Seq<usize>, width: int) -> Seq<char> {
    let (text, used) = fitting(clusters, widths, width);
    text + spaces(width - used)
}

/// The widths of a text's clusters.
pub open spec fn cluster_widths(text: Seq<char>) -> Seq<usize> {
    Seq::new(grapheme_clusters(text).len(), |i: int| cell_width(grapheme_clusters(text)[i]))
}

/// The cells that the leading clusters take never exceed the room.
pub proof fn lemma_fitting_bound(clusters: Seq<Seq<char>>, widths: Seq<usize>, room: int)
    requires
        room >= 0,
    ensures
        0 <= fitting(clusters, widths, room).1 <= room,
    decreases clusters.len(),
{
    if clusters.len() > 0 && widths[0] <= room {
        lemma_fitting_bound(clusters.drop_first(), widths.drop_first(), room - widths[0]);
    }
}

/// The sum of the widths.
pub open spec fn total(widths: Seq<usize>) -> int
    decreases widths.len(),
{
    if widths.len() == 0 {
        0
    } else {
        widths[0] + total(widths.drop_first())
    }
}

/// What fits is the start of the text, and all of it where there is room.
pub proof fn lemma_fitting_start(clusters: Seq<Seq<char>>, widths: Seq<usize>, room: int)
    requires
        clusters.len() == widths.len(),
    ensures
        fitting(clusters, widths, room).0.is_prefix_of(joined(clusters)),
        total(widths) >= 0,
        total(widths) <= room ==> fitting(clusters, widths, room) == (
            joined(clusters),
            total(widths),
        ),
    decreases clusters.len(),
{
    if clusters.len() > 0 {
        let rest = fitting(clusters.drop_first(), widths.drop_first(), room - widths[0]).0;
        let tail = joined(clusters.drop_first());
        lemma_fitting_start(clusters.drop_first(), widths.drop_first(), room - widths[0]);
        if widths[0] <= room {
            assert((clusters[0] + tail).subrange(0, (clusters[0] + rest).len() as int)
                =~= clusters[0] + rest) by {
                assert(tail.subrange(0, rest.len() as int) =~= rest);
                assert forall|i: int| 0 <= i < rest.len() implies tail[i] == rest[i] by {
                    assert(tail.subrange(0, rest.len() as int)[i] == rest[i]);
                }
            }
        }
    }
    assert(Seq::<char>::empty().is_prefix_of(joined(clusters))) by {
        assert(joined(clusters).subrange(0, 0) =~= Seq::<char>::empty());
    }
}

/// The leading clusters that fit into `room` cells, and the cells they take.
fn take_fitting(clusters: &Vec<String>, widths: &Vec<usize>, room: usize) -> (out: (String, usize))
    requires
        clusters@.len() == widths@.len(),
    ensures
        out.0@ == fitting(texts(clusters@), widths@, room as int).0,
        out.1 == fitting(texts(clusters@), widths@, room as int).1,
{
    let ghost all = texts(clusters@);
    let ghost whole = fitting(all, widths@, room as int);
    let mut out = String::new();
    let mut used: usize = 0;
    let mut i: usize = 0;
    assert(all.skip(0) =~= all);
    assert(widths@.skip(0) =~= widths@);
    assert(out@ + whole.0 =~= whole.0);
    while i < clusters.len()
        invariant
            i <= clusters@.len(),
            clusters@.len() == widths@.len(),
            all == texts(clusters@),
            used <= room,
            whole.0 == out@ + fitting(all.skip(i as int), widths@.skip(i as int), room - used).0,
            whole.1 == used + fitting(all.skip(i as int), widths@.skip(i as int), room - used).1,
            whole == fitting(all, widths@, room as int),
        decreases clusters@.len() - i,
    {
        let w: usize = widths[i];
        let ghost rest = fitting(all.skip(i as int), widths@.skip(i as int), room - used);
        if w > room - used {
            assert(out@ + Seq::<char>::empty() =~= out@);
            return (out, used);
        }
        proof {
            assert(all.skip(i as int).drop_first() =~= all.skip(i + 1));
            assert(widths@.skip(i as int).drop_first() =~= widths@.skip(i + 1));
        }
        let ghost before = out@;
        push_text(&mut out, clusters[i].as_str());
        used = used + w;
        i += 1;
        proof {
            let tail = fitting(all.skip(i as int), widths@.skip(i as int), room - used).0;
            assert(before + (all[i - 1] + tail) =~= (before + all[i - 1]) + tail);
        }
    }
    assert(out@ + Seq::<char>::empty() =~= out@);
    (out, used)
}

/// Cut a divided text to `width` cells, never inside a cluster, and pad it with
/// spaces. `widths` are the cells of each cluster.
pub fn fit_clusters(clusters: &Vec<String>, widths: &Vec<usize>, width: usize) -> (out: String)
    requires
        clusters@.len() == widths@.len(),
    ensures
        out@ == fitted(texts(clusters@), widths@, width as int),
{
    proof {
        lemma_fitting_bound(texts(clusters@), widths@, width as int);
    }
    let (mut out, used) = take_fitting(clusters, widths, width);
    push_spaces(&mut out, width - used);
    out
}

fn widths_of(clusters: &Vec<String>) -> (widths: Vec<usize>)
    ensures
        widths@ == Seq::new(clusters@.len(), |i: int| cell_width(texts(clusters@)[i])),
{
    let mut widths: Vec<usize> = Vec::new();
    let mut i: usize = 0;
    while i < clusters.len()
        invariant
            i <= clusters@.len(),
            widths@ == Seq::new(i as nat, |i: int| cell_width(texts(clusters@)[i])),
        decreases clusters@.len() - i,
    {
        widths.push(display_width(clusters[i].as_str()));
        i += 1;
        assert(widths@ =~= Seq::new(i as nat, |i: int| cell_width(texts(clusters@)[i])));
    }
    widths
}

/// The start of a text that fits into `room` cells, never cut inside a grapheme
/// cluster, and the cells it takes.
pub fn take_cells(text: &str, room: usize) -> (out: (String, usize))
    ensures
        out.0@ == fitting(grapheme_clusters(text@), cluster_widths(text@), room as int).0,
        out.1 == fitting(grapheme_clusters(text@), cluster_widths(text@), room as int).1,
        out.1 <= room,
        out.0@.is_prefix_of(text@),
        total(cluster_widths(text@)) <= room ==> out.0@ == text@,
{
    let clusters = graphemes(text);
    let widths = widths_of(&clusters);
    assert(widths@ =~= cluster_widths(text@));
    proof {
        lemma_fitting_bound(grapheme_clusters(text@), cluster_widths(text@), room as int);
        lemma_fitting_start(grapheme_clusters(text@), cluster_widths(text@), room as int);
    }
    take_fitting(&clusters, &widths, room)
}

/// Cut a text to `width` cells, never inside a grapheme cluster, and pad it
/// with spaces.
pub fn fit_cell_text(text: &str, width: usize) -> (out: String)
    ensures
        out@ == fitted(grapheme_clusters(text@), cluster_widths(text@), width as int),
        total(cluster_widths(text@)) <= width ==> out@ == text@ + spaces(
            width - total(cluster_widths(text@)),
        ),
{
    let clusters = graphemes(text);
    let widths = widths_of(&clusters);
    assert(widths@ =~= cluster_widths(text@));
    proof {
        lemma_fitting_start(grapheme_clusters(text@), cluster_widths(text@), width as int);
    }
    fit_clusters(&clusters, &widths, width)
}

/// `text` without the spaces at its end.
pub open spec fn unspaced(text: Seq<char>) -> Seq<char>
    decreases text.len(),
{
    if text.len() > 0 && text.last() == ' ' {
        unspaced(text.drop_last())
    } else {
        text
    }
}

/// `text` between two margins that fill `width` cells, the spare cell on the
/// right or, where `lead` is set, on the left.
pub open spec fn centered(text: Seq<char>, text_width: int, width: int, lead: bool) -> Seq<char> {
    let room = width - text_width;
    let left = if lead {
        (room + 1) / 2
    } else {
        room / 2
    };
    spaces(left) + text + spaces(room - left)
}

/// The clusters cut to one cell less than `width`, with an ellipsis for what is
/// missing, and padded.
pub open spec fn ellipsized(clusters: Seq<Seq<char>>, widths: Seq<usize>, width: int) -> Seq<char> {
    if width == 0 {
        Seq::empty()
    } else {
        let (text, used) = fitting(clusters, widths, width - 1);
        let bare = unspaced(text);
        let cut = text.len() - bare.len();
        let left = if used < cut {
            0
        } else {
            used - cut
        };
        bare.push('\u{2026}') + spaces(width - left - 1)
    }
}

/// A text centred in `width` cells, or cut short with an ellipsis.
pub open spec fn center_or_cut(
    text: Seq<char>,
    text_width: int,
    clusters: Seq<Seq<char>>,
    widths: Seq<usize>,
    width: int,
    lead: bool,
) -> Seq<char> {
    if text_width <= width {
        centered(text, text_width, width, lead)
    } else {
        ellipsized(clusters, widths, width)
    }
}

proof fn lemma_unspaced(text: Seq<char>)
    ensures
        unspaced(text).len() <= text.len(),
    decreases text.len(),
{
    if text.len() > 0 && text.last() == ' ' {
        lemma_unspaced(text.drop_last());
    }
}

/// Cut a divided text short with an ellipsis.
fn ellipsize(clusters: &Vec<String>, widths: &Vec<usize>, width: usize) -> (out: String)
    requires
        clusters@.len() == widths@.len(),
    ensures
        out@ == ellipsized(texts(clusters@), widths@, width as int),
{
    if width == 0 {
        return String::new();
    }
    proof {
        lemma_fitting_bound(texts(clusters@), widths@, width - 1);
    }
    let (text, used) = take_fitting(clusters, widths, width - 1);
    let mut chars = chars_of(text.as_str());
    let mut left: usize = used;
    proof {
        lemma_unspaced(text@);
    }
    while chars.len() > 0 && chars[chars.len() - 1] == ' '
        invariant
            chars@.len() <= text@.len(),
            unspaced(chars@) == unspaced(text@),
            left == if used < text@.len() - chars@.len() {
                0
            } else {
                used - (text@.len() - chars@.len())
            },
            used < width,
        decreases chars@.len(),
    {
        assert(unspaced(chars@) == unspaced(chars@.drop_last()));
        let ghost before = chars@;
        chars.pop();
        assert(chars@ =~= before.drop_last());
        left = left.saturating_sub(1);
    }
    assert(unspaced(chars@) == chars@);
    let mut out = string_of(chars.as_slice());
    out.push('\u{2026}');
    push_spaces(&mut out, width - left - 1);
    out
}

fn center(text: &str, text_width: usize, width: usize, lead: bool) -> (out: String)
    requires
        text_width <= width,
    ensures
        out@ == centered(text@, text_width as int, width as int, lead),
{
    let room: usize = width - text_width;
    let left: usize = if lead {
        room / 2 + room % 2
    } else {
        room / 2
    };
    let mut out = String::new();
    push_spaces(&mut out, left);
    push_text(&mut out, text);
    push_spaces(&mut out, room - left);
    assert(out@ =~= centered(text@, text_width as int, width as int, lead));
    out
}

/// Centre a divided text in `width` cells, or cut it short with an ellipsis.
/// `text_width` and `widths` are the cells of the text and of each cluster.
pub fn center_clusters(
    text: &str,
    text_width: usize,
    clusters: &Vec<String>,
    widths: &Vec<usize>,
    width: usize,
    lead: bool,
) -> (out: String)
    requires
        clusters@.len() == widths@.len(),
    ensures
        out@ == center_or_cut(
            text@,
            text_width as int,
            texts(clusters@),
            widths@,
            width as int,
            lead,
        ),
{
    if text_width <= width {
        center(text, text_width, width, lead)
    } else {
        ellipsize(clusters, widths, width)
    }
}

/// Centre a text in `width` cells, an odd spare cell on the right; a text that
/// is too wide is cut short with an ellipsis.
pub fn fit_centered_ellipsis(text: &str, width: usize) -> (out: String)
    ensures
        out@ == center_or_cut(
            text@,
            cell_width(text@) as int,
            grapheme_clusters(text@),
            cluster_widths(text@),
            width as int,
            false,
        ),
{
    let text_width: usize = display_width(text);
    let clusters = graphemes(text);
    let widths = widths_of(&clusters);
    assert(widths@ =~= cluster_widths(text@));
    center_clusters(text, text_width, &clusters, &widths, width, false)
}

/// Centre a button label while placing an odd spare cell on its leading side,
/// so that a nearly full label does not look left-aligned.
pub fn fit_centered_button_label(text: &str, width: usize) -> (out: String)
    ensures
        out@ == center_or_cut(
            text@,
            cell_width(text@) as int,
            grapheme_clusters(text@),
            cluster_widths(text@),
            width as int,
            true,
        ),
{
    let text_width: usize = display_width(text);
    let clusters = graphemes(text);
    let widths = widths_of(&clusters);
    assert(widths@ =~= cluster_widths(text@));
    center_clusters(text, text_width, &clusters, &widths, width, true)
}

/// The decimal writing of a change count, shortened to thousands from ten
/// thousand on.
pub open spec fn change_count_text(value: int) -> Seq<char> {
    if value >= 100_000 {
        decimal(((value + 500) / 1_000) as nat) + seq!['k']
    } else if value >= 10_000 {
        let tenths = (value + 50) / 100;
        decimal((tenths / 10) as nat) + seq!['.'] + decimal((tenths % 10) as nat) + seq!['k']
    } else {
        decimal(value as nat)
    }
}

/// Write a change count so that a large one stays compact.
pub fn format_change_count(value: u32) -> (out: String)
    ensures
        out@ == change_count_text(
            if value > u32::MAX - 500 {
                u32::MAX - 500
            } else {
                value as int
            },
        ),
{
    let mut out = String::new();
    if value >= 100_000 {
        push_decimal(&mut out, (value.saturating_add(500) / 1_000) as u64);
        out.push('k');
        assert(out@ =~= change_count_text(
            if value > u32::MAX - 500 {
                u32::MAX - 500
            } else {
                value as int
            },
        ));
    } else if value >= 10_000 {
        let tenths: u32 = value.saturating_add(50) / 100;
        push_decimal(&mut out, (tenths / 10) as u64);
        out.push('.');
        push_decimal(&mut out, (tenths % 10) as u64);
        out.push('k');
        assert(out@ =~= change_count_text(value as int));
    } else {
        push_decimal(&mut out, value as u64);
        assert(out@ =~= change_count_text(value as int));
    }
    out
}

/// The characters of a text that are not control codes, in order.
pub open spec fn printable(text: Seq<char>) -> Seq<char>
    decreases text.len(),
{
    if text.len() == 0 {
        text
    } else if is_control_code(text.last()) {
        printable(text.drop_last())
    } else {
        printable(text.drop_last()).push(text.last())
    }
}

/// A text without control codes, cut to `limit` characters.
pub open spec fn sanitized(text: Seq<char>, limit: int) -> Seq<char> {
    if printable(text).len() <= limit {
        printable(text)
    } else {
        printable(text).take(limit)
    }
}

proof fn lemma_printable_grows(text: Seq<char>, i: int, j: int)
    requires
        0 <= i <= j <= text.len(),
    ensures
        printable(text.take(i)).is_prefix_of(printable(text.take(j))),
    decreases j,
{
    if i < j {
        lemma_printable_grows(text, i, j - 1);
        assert(text.take(j).drop_last() =~= text.take(j - 1));
    }
}

/// Drop control codes, so that no text can drive the terminal, and keep at
/// most `limit` characters.
pub fn sanitize_chrome_text(text: &str, limit: usize) -> (out: String)
    ensures
        out@ == sanitized(text@, limit as int),
        forall|i: int| 0 <= i < out@.len() ==> !is_control_code(#[trigger] out@[i]),
{
    let chars = chars_of(text);
    let mut out: Vec<char> = Vec::new();
    let mut i: usize = 0;
    assert(text@.take(0) =~= Seq::<char>::empty());
    while i < chars.len() && out.len() < limit
        invariant
            i <= chars@.len(),
            chars@ == text@,
            out@.len() <= limit,
            out@ == printable(text@.take(i as int)),
            forall|j: int| 0 <= j < out@.len() ==> !is_control_code(#[trigger] out@[j]),
        decreases chars@.len() - i,
    {
        assert(text@.take(i + 1).drop_last() =~= text@.take(i as int));
        let c: char = chars[i];
        if !c.is_control() && c != '\u{7f}' {
            out.push(c);
        }
        i += 1;
    }
    proof {
        lemma_printable_grows(text@, i as int, text@.len() as int);
        assert(text@.take(text@.len() as int) =~= text@);
        if i < chars@.len() {
            assert(out@ =~= printable(text@).take(limit as int));
        }
    }
    string_of(out.as_slice())
}

} // verus!
