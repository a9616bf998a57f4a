//! Working directories reported by shells.
use crate::text::{same_text, utf8_string};
use vstd::prelude::*;
use vstd::string::*;
use vstd::utf8::*;

verus! {

/// The value of a hexadecimal digit.
pub open spec fn hex_value(byte: u8) -> Option<u8> {
    if 48 <= byte <= 57 {
        Some((byte - 48) as u8)
    } else if 97 <= byte <= 102 {
        Some((byte - 87) as u8)
    } else if 65 <= byte <= 70 {
        Some((byte - 55) as u8)
    } else {
        None
    }
}

/// The value of a hexadecimal digit.
pub fn hex_digit(byte: u8) -> (value: Option<u8>)
    ensures
        value == hex_value(byte),
{
    if 48 <= byte && byte <= 57 {
        Some(byte - 48)
    } else if 97 <= byte && byte <= 102 {
        Some(byte - 87)
    } else if 65 <= byte && byte <= 70 {
        Some(byte - 55)
    } else {
        None
    }
}

/// `bytes` begins with `prefix`.
pub open spec fn begins(bytes: Seq<u8>, prefix: Seq<u8>) -> bool {
    bytes.len() >= prefix.len() && bytes.take(prefix.len() as int) == prefix
}

/// The bytes of `file:`.
pub open spec fn file_scheme() -> Seq<u8> {
    seq![102u8, 105, 108, 101, 58]
}

/// The bytes of `//`.
pub open spec fn authority_mark() -> Seq<u8> {
    seq![47u8, 47]
}

/// `bytes` from its first slash on.
pub open spec fn from_slash(bytes: Seq<u8>) -> Option<Seq<u8>>
    decreases bytes.len(),
{
    if bytes.len() == 0 {
        None
    } else if bytes[0] == 47 {
        Some(bytes)
    } else {
        from_slash(bytes.drop_first())
    }
}

/// The still escaped path of a `file` URI. An authority, which names the host,
/// is passed over; a path that does not begin with a slash is refused.
pub open spec fn escaped_path(uri: Seq<u8>) -> Option<Seq<u8>> {
    if begins(uri, file_scheme() + authority_mark()) {
        from_slash(uri.skip(7))
    } else if begins(uri, file_scheme()) && uri.len() > 5 && uri[5] == 47 {
        Some(uri.skip(5))
    } else {
        None
    }
}

/// The bytes that percent escapes stand for. A malformed escape, an escaped
/// NUL and a raw control byte are refused.
pub open spec fn unescaped(bytes: Seq<u8>) -> Option<Seq<u8>>
    decreases bytes.len(),
{
    if bytes.len() == 0 {
        Some(bytes)
    } else if bytes[0] == 37 {
        if bytes.len() < 3 || hex_value(bytes[1]) is None || hex_value(bytes[2]) is None {
            None
        } else {
            let byte = (hex_value(bytes[1])->0 * 16 + hex_value(bytes[2])->0) as u8;
            match unescaped(bytes.skip(3)) {
                Some(rest) if byte != 0 => Some(seq![byte] + rest),
                _ => None,
            }
        }
    } else if bytes[0] < 32 || bytes[0] == 127 {
        None
    } else {
        match unescaped(bytes.skip(1)) {
            Some(rest) => Some(seq![bytes[0]] + rest),
            None => None,
        }
    }
}

/// The directory that a `file` URI names.
pub open spec fn directory_of(uri: Seq<char>) -> Option<Seq<char>> {
    match escaped_path(encode_utf8(uri)) {
        Some(escaped) => match unescaped(escaped) {
            Some(bytes) if valid_utf8(bytes) => Some(decode_utf8(bytes)),
            _ => None,
        },
        None => None,
    }
}

fn starts_with(bytes: &[u8], prefix: &[u8]) -> (yes: bool)
    ensures
        yes == begins(bytes@, prefix@),
{
    if bytes.len() < prefix.len() {
        return false;
    }
    let mut i: usize = 0;
    while i < prefix.len()
        invariant
            i <= prefix@.len() <= bytes@.len(),
            forall|j: int| 0 <= j < i ==> bytes@[j] == prefix@[j],
        decreases prefix@.len() - i,
    {
        if bytes[i] != prefix[i] {
            assert(bytes@.take(prefix@.len() as int)[i as int] != prefix@[i as int]);
            return false;
        }
        i += 1;
    }
    assert(bytes@.take(prefix@.len() as int) =~= prefix@);
    true
}

/// Where the escaped path of a `file` URI begins.
fn path_start(uri: &[u8]) -> (start: Option<usize>)
    ensures
        start is Some <==> escaped_path(uri@) is Some,
        start matches Some(i) ==> i <= uri@.len() && escaped_path(uri@) == Some(
            uri@.skip(i as int),
        ),
{
    let scheme: [u8; 5] = [102, 105, 108, 101, 58];
    let full: [u8; 7] = [102, 105, 108, 101, 58, 47, 47];
    assert(full@ =~= file_scheme() + authority_mark());
    assert(scheme@ =~= file_scheme());
    if starts_with(uri, &full) {
        let mut i: usize = 7;
        while i < uri.len()
            invariant
                7 <= i <= uri@.len(),
                escaped_path(uri@) == from_slash(uri@.skip(7)),
                from_slash(uri@.skip(7)) == from_slash(uri@.skip(i as int)),
            decreases uri@.len() - i,
        {
            if uri[i] == 47 {
                return Some(i);
            }
            assert(uri@.skip(i as int).drop_first() =~= uri@.skip(i + 1));
            i += 1;
        }
        return None;
    }
    if starts_with(uri, &scheme) && uri.len() > 5 && uri[5] == 47 {
        Some(5)
    } else {
        None
    }
}

/// What `unescaped` makes of a sequence whose beginning was decoded already.
spec fn continued(decoded: Seq<u8>, rest: Option<Seq<u8>>) -> Option<Seq<u8>> {
    match rest {
        Some(tail) => Some(decoded + tail),
        None => None,
    }
}

fn unescape(bytes: &[u8], from: usize) -> (out: Option<Vec<u8>>)
    requires
        from <= bytes@.len(),
    ensures
        match out {
            Some(v) => unescaped(bytes@.skip(from as int)) == Some(v@),
            None => unescaped(bytes@.skip(from as int)) is None,
        },
{
    let ghost all = bytes@.skip(from as int);
    let mut decoded: Vec<u8> = Vec::new();
    let mut i: usize = from;
    assert(match unescaped(all) {
        Some(tail) => decoded@ + tail =~= tail,
        None => true,
    });
    while i < bytes.len()
        invariant
            from <= i <= bytes@.len(),
            all == bytes@.skip(from as int),
            unescaped(all) == continued(decoded@, unescaped(bytes@.skip(i as int))),
        decreases bytes@.len() - i,
    {
        let ghost rest = bytes@.skip(i as int);
        let ghost before = decoded@;
        if bytes[i] == 37 {
            if bytes.len() - i < 3 {
                return None;
            }
            assert(rest[1] == bytes@[i + 1] && rest[2] == bytes@[i + 2]);
            let Some(high) = hex_digit(bytes[i + 1]) else {
                return None;
            };
            let Some(low) = hex_digit(bytes[i + 2]) else {
                return None;
            };
            assert(high <= 15 && low <= 15);
            let byte: u8 = high * 16 + low;
            assert(rest.skip(3) =~= bytes@.skip(i + 3));
            if byte == 0 {
                return None;
            }
            decoded.push(byte);
            i += 3;
            proof {
                if let Some(tail) = unescaped(bytes@.skip(i as int)) {
                    assert(before + (seq![byte] + tail) =~= decoded@ + tail);
                }
            }
        } else {
            if bytes[i] < 32 || bytes[i] == 127 {
                return None;
            }
            assert(rest.skip(1) =~= bytes@.skip(i + 1));
            decoded.push(bytes[i]);
            i += 1;
            proof {
                if let Some(tail) = unescaped(bytes@.skip(i as int)) {
                    assert(before + (seq![rest[0]] + tail) =~= decoded@ + tail);
                }
            }
        }
    }
    assert(bytes@.skip(i as int) =~= Seq::<u8>::empty());
    assert(decoded@ + Seq::<u8>::empty() =~= decoded@);
    Some(decoded)
}

/// Convert a shell's report of its working directory, a `file` URI, into an
/// absolute path. The host named in it is ignored: shells commonly report the
/// local one. Relative paths and malformed escapes are refused.
pub fn osc7_working_directory(uri: &str) -> (path: Option<String>)
    ensures
        match path {
            Some(text) => directory_of(uri@) == Some(text@),
            None => directory_of(uri@) is None,
        },
        path matches Some(text) ==> text@.len() > 0 && text@[0] == '/' && !text@.contains('\0'),
{
    let bytes = uri.as_bytes();
    let Some(start) = path_start(bytes) else {
        return None;
    };
    let Some(decoded) = unescape(bytes, start) else {
        return None;
    };
    proof {
        lemma_path_start(bytes@);
        lemma_unescaped(bytes@.skip(start as int));
        if valid_utf8(decoded@) {
            lemma_absolute(decoded@);
        }
    }
    utf8_string(decoded)
}

/// An escaped path begins with a slash.
proof fn lemma_path_start(uri: Seq<u8>)
    ensures
        escaped_path(uri) matches Some(path) ==> path.len() > 0 && path[0] == 47,
{
    if begins(uri, file_scheme() + authority_mark()) {
        lemma_from_slash(uri.skip(7));
    }
}

proof fn lemma_from_slash(bytes: Seq<u8>)
    ensures
        from_slash(bytes) matches Some(path) ==> path.len() > 0 && path[0] == 47,
    decreases bytes.len(),
{
    if bytes.len() > 0 && bytes[0] != 47 {
        lemma_from_slash(bytes.drop_first());
    }
}

/// Unescaping keeps a leading slash and never yields a NUL.
proof fn lemma_unescaped(bytes: Seq<u8>)
    ensures
        unescaped(bytes) matches Some(out) ==> !out.contains(0) && (bytes.len() > 0 && bytes[0]
            == 47 ==> out.len() > 0 && out[0] == 47),
    decreases bytes.len(),
{
    if bytes.len() > 0 {
        if bytes[0] == 37 {
            if bytes.len() >= 3 {
                lemma_unescaped(bytes.skip(3));
            }
        } else {
            lemma_unescaped(bytes.skip(1));
        }
        if let Some(out) = unescaped(bytes) {
            let n = if bytes[0] == 37 {
                3int
            } else {
                1
            };
            let rest = unescaped(bytes.skip(n))->0;
            if out.contains(0) {
                let k = choose|k: int| 0 <= k < out.len() && out[k] == 0;
                assert(k > 0);
                assert(rest[k - 1] == 0);
                assert(rest.contains(0));
            }
        }
    }
}

/// Bytes that begin with a slash and hold no NUL decode to such a text.
proof fn lemma_absolute(bytes: Seq<u8>)
    requires
        valid_utf8(bytes),
        bytes.len() > 0,
        bytes[0] == 47,
        !bytes.contains(0),
    ensures
        decode_utf8(bytes).len() > 0,
        decode_utf8(bytes)[0] == '/',
        !decode_utf8(bytes).contains('\0'),
{
    let text = decode_utf8(bytes);
    decode_utf8_encode_utf8(bytes);
    assert(is_leading_byte_width_1(47u8)) by (bit_vector);
    assert(codepoint_width_1(47u8) == 47u32) by (bit_vector);
    assert(decode_first_scalar(bytes) == 47);
    assert(text[0] == decode_first_scalar(bytes) as char);
    if text.contains('\0') {
        lemma_nul_encodes(text);
    }
}

proof fn lemma_nul_encodes(text: Seq<char>)
    requires
        text.contains('\0'),
    ensures
        encode_utf8(text).contains(0),
    decreases text.len(),
{
    let bytes = encode_utf8(text);
    let head = encode_scalar(text[0] as u32);
    let tail = encode_utf8(text.drop_first());
    let k = choose|k: int| 0 <= k < text.len() && text[k] == '\0';
    if k == 0 {
        assert(has_width_1_encoding(0u32));
        assert(leading_byte_width_1(0u32) == 0u8) by (bit_vector);
        assert(head =~= seq![0u8]);
        assert(bytes[0] == 0);
    } else {
        assert(text.drop_first()[k - 1] == '\0');
        lemma_nul_encodes(text.drop_first());
        let j = choose|j: int| 0 <= j < tail.len() && tail[j] == 0;
        assert(bytes[head.len() + j] == 0);
    }
}

/// What a report makes of the cached directory.
pub open spec fn advanced(cached: Option<Seq<char>>, reported: Option<Seq<char>>) -> Option<
    Seq<char>,
> {
    match reported {
        Some(uri) => match directory_of(uri) {
            Some(path) => Some(path),
            None => cached,
        },
        None => cached,
    }
}

/// The text of an optional string.
pub open spec fn text_of(s: Option<String>) -> Option<Seq<char>> {
    match s {
        Some(text) => Some(text@),
        None => None,
    }
}

/// Advance the cached directory to a newly reported one. A report that is
/// malformed or repeats the directory changes nothing; whether it changed.
pub fn update_working_directory(cached: &mut Option<String>, reported: Option<&str>) -> (changed:
    bool)
    ensures
        text_of(*final(cached)) == advanced(
            text_of(*old(cached)),
            match reported {
                Some(uri) => Some(uri@),
                None => None,
            },
        ),
        changed == (text_of(*final(cached)) != text_of(*old(cached))),
        !changed ==> *final(cached) == *old(cached),
{
    let Some(uri) = reported else {
        return false;
    };
    let Some(path) = osc7_working_directory(uri) else {
        return false;
    };
    if let Some(known) = cached.as_ref() {
        if same_text(known.as_str(), path.as_str()) {
            return false;
        }
    }
    *cached = Some(path);
    true
}

} // verus!
