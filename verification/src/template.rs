//! Small templates for the status line.
use crate::text::{byte_len, chars_of, push_text, same_text, utf8_len};
use vstd::prelude::*;
use vstd::utf8::*;

verus! {

/// The longest template, in bytes.
pub const MAX_TEMPLATE_BYTES: usize = 2048;

/// The longest rendered text, in bytes.
pub const MAX_RENDERED_BYTES: usize = 4096;

/// What a token stands for.
#[derive(Debug)]
pub struct TemplateValue {
    pub name: String,
    pub value: String,
}

/// The value of the first entry with this name.
pub open spec fn value_of(values: Seq<TemplateValue>, name: Seq<char>) -> Option<Seq<char>>
    decreases values.len(),
{
    if values.len() == 0 {
        None
    } else if values[0].name@ == name {
        Some(values[0].value@)
    } else {
        value_of(values.drop_first(), name)
    }
}

/// The position of the first closing brace from `i` on.
pub open spec fn closing(t: Seq<char>, i: int) -> Option<int>
    decreases t.len() - i,
{
    if i < 0 || i >= t.len() {
        None
    } else if t[i] == '}' {
        Some(i)
    } else {
        closing(t, i + 1)
    }
}

/// What a template from position `i` on stands for. Doubled braces are
/// literals; an unknown or unclosed token, and a stray closing brace, reject
/// the whole template.
pub open spec fn expanded(t: Seq<char>, values: Seq<TemplateValue>, i: int) -> Option<Seq<char>>
    decreases t.len() - i,
{
    if i < 0 || i >= t.len() {
        Some(Seq::empty())
    } else if (t[i] == '{' || t[i] == '}') && i + 1 < t.len() && t[i + 1] == t[i] {
        after(seq![t[i]], expanded(t, values, i + 2))
    } else if t[i] == '{' {
        match closing(t, i + 1) {
            Some(end) => if i < end < t.len() {
                match value_of(values, t.subrange(i + 1, end)) {
                    Some(value) => after(value, expanded(t, values, end + 1)),
                    None => None,
                }
            } else {
                None
            },
            None => None,
        }
    } else if t[i] == '}' {
        None
    } else {
        after(seq![t[i]], expanded(t, values, i + 1))
    }
}

/// `head` followed by what comes after it, if that stands for anything.
pub open spec fn after(head: Seq<char>, rest: Option<Seq<char>>) -> Option<Seq<char>> {
    match rest {
        Some(tail) => Some(head + tail),
        None => None,
    }
}

/// What a bounded template renders to.
pub open spec fn rendered(t: Seq<char>, values: Seq<TemplateValue>) -> Option<Seq<char>> {
    if utf8_len(t) > MAX_TEMPLATE_BYTES {
        None
    } else {
        match expanded(t, values, 0) {
            Some(text) if utf8_len(text) <= MAX_RENDERED_BYTES => Some(text),
            _ => None,
        }
    }
}

/// Encoding a concatenation concatenates the encodings.
pub proof fn lemma_encode_concat(a: Seq<char>, b: Seq<char>)
    ensures
        encode_utf8(a + b) == encode_utf8(a) + encode_utf8(b),
        utf8_len(a + b) == utf8_len(a) + utf8_len(b),
    decreases a.len(),
{
    if a.len() == 0 {
        assert(a + b =~= b);
        assert(encode_utf8(a) =~= Seq::<u8>::empty());
        assert(encode_utf8(a) + encode_utf8(b) =~= encode_utf8(b));
    } else {
        lemma_encode_concat(a.drop_first(), b);
        assert((a + b).drop_first() =~= a.drop_first() + b);
        assert((a + b)[0] == a[0]);
        assert(encode_utf8(a + b) =~= encode_utf8(a) + encode_utf8(b));
    }
}

fn lookup(values: &Vec<TemplateValue>, name: &str) -> (found: Option<usize>)
    ensures
        match found {
            Some(i) => i < values@.len() && value_of(values@, name@) == Some(
                values@[i as int].value@,
            ),
            None => value_of(values@, name@) is None,
        },
{
    let mut i: usize = 0;
    assert(values@.skip(0) =~= values@);
    while i < values.len()
        invariant
            i <= values@.len(),
            value_of(values@, name@) == value_of(values@.skip(i as int), name@),
        decreases values@.len() - i,
    {
        assert(values@.skip(i as int).drop_first() =~= values@.skip(i + 1));
        if same_text(values[i].name.as_str(), name) {
            return Some(i);
        }
        i += 1;
    }
    None
}

fn find_closing(chars: &Vec<char>, from: usize) -> (found: Option<usize>)
    requires
        from <= chars@.len(),
    ensures
        match found {
            Some(i) => closing(chars@, from as int) == Some(i as int) && from <= i < chars@.len(),
            None => closing(chars@, from as int) is None,
        },
{
    let mut i: usize = from;
    while i < chars.len()
        invariant
            from <= i <= chars@.len(),
            closing(chars@, from as int) == closing(chars@, i as int),
        decreases chars@.len() - i,
    {
        if chars[i] == '}' {
            return Some(i);
        }
        i += 1;
    }
    None
}

fn copy_range(chars: &Vec<char>, from: usize, to: usize) -> (out: String)
    requires
        from <= to <= chars@.len(),
    ensures
        out@ == chars@.subrange(from as int, to as int),
{
    let mut out = String::new();
    let mut i: usize = from;
    while i < to
        invariant
            from <= i <= to <= chars@.len(),
            out@ == chars@.subrange(from as int, i as int),
        decreases to - i,
    {
        out.push(chars[i]);
        assert(chars@.subrange(from as int, i as int).push(chars@[i as int]) =~= chars@.subrange(
            from as int,
            i + 1,
        ));
        i += 1;
    }
    out
}

/// Render a small bounded template. Unknown or unclosed tokens reject the whole
/// template, so that a typo never leaks braces into the chrome.
pub fn render_named_template(template: &str, values: &Vec<TemplateValue>) -> (out: Option<String>)
    ensures
        match out {
            Some(text) => rendered(template@, values@) == Some(text@),
            None => rendered(template@, values@) is None,
        },
{
    if byte_len(template) > MAX_TEMPLATE_BYTES {
        return None;
    }
    let chars = chars_of(template);
    let ghost t = template@;
    let ghost all = expanded(t, values@, 0);
    let mut output = String::new();
    let mut index: usize = 0;
    assert(all == after(output@, expanded(t, values@, 0))) by {
        if let Some(text) = all {
            assert(output@ + text =~= text);
        }
    }
    assert(utf8_len(output@) == 0);
    while index < chars.len()
        invariant
            index <= chars@.len(),
            chars@ == t,
            t == template@,
            utf8_len(t) <= MAX_TEMPLATE_BYTES,
            all == expanded(t, values@, 0),
            all == after(output@, expanded(t, values@, index as int)),
            utf8_len(output@) <= MAX_RENDERED_BYTES,
        decreases chars@.len() - index,
    {
        let ghost before = output@;
        let c: char = chars[index];
        if (c == '{' || c == '}') && index + 1 < chars.len() && chars[index + 1] == c {
            output.push(c);
            proof {
                if let Some(tail) = expanded(t, values@, index + 2) {
                    assert(before + (seq![c] + tail) =~= output@ + tail);
                }
            }
            index += 2;
        } else if c == '{' {
            let Some(end) = find_closing(&chars, index + 1) else {
                return None;
            };
            let name = copy_range(&chars, index + 1, end);
            let Some(i) = lookup(values, name.as_str()) else {
                return None;
            };
            push_text(&mut output, values[i].value.as_str());
            proof {
                let value = values@[i as int].value@;
                if let Some(tail) = expanded(t, values@, end + 1) {
                    assert(before + (value + tail) =~= output@ + tail);
                }
            }
            index = end + 1;
        } else if c == '}' {
            return None;
        } else {
            output.push(c);
            proof {
                if let Some(tail) = expanded(t, values@, index + 1) {
                    assert(before + (seq![c] + tail) =~= output@ + tail);
                }
            }
            index += 1;
        }
        if byte_len(output.as_str()) > MAX_RENDERED_BYTES {
            proof {
                if let Some(tail) = expanded(t, values@, index as int) {
                    lemma_encode_concat(output@, tail);
                }
            }
            return None;
        }
    }
    assert(output@ + Seq::<char>::empty() =~= output@);
    Some(output)
}

} // verus!
