//! Where an agent connects: the server's stream address for its id, with
//! the id percent-encoded as one path segment.

use vstd::prelude::*;
use vstd::utf8::encode_utf8;

use crate::text::{chars_of, has_prefix, push_char, starts_with};

verus! {

/// A byte kept as it is in a path segment: an ASCII letter or digit, `-` or `_`.
pub open spec fn unreserved(b: u8) -> bool {
    (48 <= b <= 57) || (65 <= b <= 90) || (97 <= b <= 122) || b == 45 || b == 95
}

/// The upper-case hexadecimal digit of `d` (`d < 16`).
pub open spec fn upper_hex(d: u8) -> char {
    (if d < 10 { d + 48 } else { d + 55 }) as u8 as char
}

/// How one byte is written in a path segment.
pub open spec fn encoded_byte(b: u8) -> Seq<char> {
    if unreserved(b) {
        seq![b as char]
    } else {
        seq!['%', upper_hex(b / 16), upper_hex(b % 16)]
    }
}

/// The bytes percent-encoded: unreserved bytes as they are, every other
/// byte as `%` and two upper-case hexadecimal digits.
pub open spec fn percent_encoded(bytes: Seq<u8>) -> Seq<char>
    decreases bytes.len(),
{
    if bytes.len() == 0 {
        Seq::empty()
    } else {
        percent_encoded(bytes.drop_last()) + encoded_byte(bytes.last())
    }
}

/// A character that may stand in an encoded segment.
pub open spec fn segment_char(c: char) -> bool {
    ('0' <= c <= '9') || ('A' <= c <= 'Z') || ('a' <= c <= 'z') || c == '-' || c == '_' || c == '%'
}

/// An encoded segment holds only letters, digits, `-`, `_` and `%`: no
/// `/`, `?` or `#` can leave the segment it is put in.
pub proof fn law_encoded_segment_is_plain(bytes: Seq<u8>)
    ensures
        forall|i: int| 0 <= i < percent_encoded(bytes).len() ==> segment_char(#[trigger] percent_encoded(bytes)[i]),
    decreases bytes.len(),
{
    if bytes.len() > 0 {
        law_encoded_segment_is_plain(bytes.drop_last());
        let prev = percent_encoded(bytes.drop_last());
        let b = bytes.last();
        let e = encoded_byte(b);
        assert(b / 16 < 16 && b % 16 < 16);
        assert forall|i: int| 0 <= i < e.len() implies segment_char(#[trigger] e[i]) by {
            if unreserved(b) {
                assert(e[i] == b as char);
            }
        }
        assert forall|i: int| 0 <= i < percent_encoded(bytes).len() implies segment_char(#[trigger] percent_encoded(bytes)[i]) by {
            if i < prev.len() {
                assert(percent_encoded(bytes)[i] == prev[i]);
            } else {
                assert(percent_encoded(bytes)[i] == e[i - prev.len()]);
            }
        }
    }
}

fn is_unreserved(b: u8) -> (r: bool)
    ensures
        r == unreserved(b),
{
    (48 <= b && b <= 57) || (65 <= b && b <= 90) || (97 <= b && b <= 122) || b == 45 || b == 95
}

fn upper_hex_char(d: u8) -> (c: char)
    requires
        d < 16,
    ensures
        c == upper_hex(d),
{
    let v: u8 = if d < 10 { d + 48 } else { d + 55 };
    v as char
}

/// The text's UTF-8 bytes percent-encoded as one path segment.
pub fn encode_path_segment(value: &str) -> (r: String)
    ensures
        r@ == percent_encoded(encode_utf8(value@)),
{
    let bytes = value.as_bytes();
    let mut r = String::new();
    let mut i: usize = 0;
    assert(bytes@.take(0) =~= Seq::<u8>::empty());
    while i < bytes.len()
        invariant
            i <= bytes@.len(),
            r@ == percent_encoded(bytes@.take(i as int)),
        decreases bytes.len() - i,
    {
        let b = bytes[i];
        assert(bytes@.take(i + 1).drop_last() =~= bytes@.take(i as int));
        assert(bytes@.take(i + 1).last() == b);
        if is_unreserved(b) {
            push_char(&mut r, b as char);
        } else {
            push_char(&mut r, '%');
            push_char(&mut r, upper_hex_char(b / 16));
            push_char(&mut r, upper_hex_char(b % 16));
        }
        assert(r@ =~= percent_encoded(bytes@.take(i + 1)));
        i += 1;
    }
    assert(bytes@.take(bytes@.len() as int) =~= bytes@);
    r
}

/// The text without its trailing `/` characters.
pub open spec fn without_trailing_slashes(s: Seq<char>) -> Seq<char>
    decreases s.len(),
{
    if s.len() > 0 && s.last() == '/' {
        without_trailing_slashes(s.drop_last())
    } else {
        s
    }
}

/// The server address with an `http` scheme turned into `ws` and `https`
/// into `wss`; other addresses are kept.
pub open spec fn websocket_base(s: Seq<char>) -> Seq<char> {
    if starts_with(s, "http://"@) {
        "ws://"@ + s.skip(7)
    } else if starts_with(s, "https://"@) {
        "wss://"@ + s.skip(8)
    } else {
        s
    }
}

/// The stream address of an agent on a server.
pub open spec fn stream_address(server_url: Seq<char>, agent_id: Seq<char>) -> Seq<char> {
    websocket_base(without_trailing_slashes(server_url)) + "/api/environments/agents/"@ + percent_encoded(
        encode_utf8(agent_id),
    ) + "/stream"@
}

fn text_between(v: &Vec<char>, lo: usize, hi: usize) -> (s: String)
    requires
        lo <= hi <= v@.len(),
    ensures
        s@ == v@.subrange(lo as int, hi as int),
{
    let mut s = String::new();
    let mut i: usize = lo;
    while i < hi
        invariant
            lo <= i <= hi,
            hi <= v@.len(),
            s@ == v@.subrange(lo as int, i as int),
        decreases hi - i,
    {
        push_char(&mut s, v[i]);
        assert(v@.subrange(lo as int, i + 1) =~= v@.subrange(lo as int, i as int).push(v@[i as int]));
        i += 1;
    }
    s
}

fn push_text(s: &mut String, t: &str)
    ensures
        final(s)@ == old(s)@ + t@,
{
    let cs = chars_of(t);
    let mut i: usize = 0;
    while i < cs.len()
        invariant
            i <= cs@.len(),
            cs@ == t@,
            s@ == old(s)@ + t@.take(i as int),
        decreases cs.len() - i,
    {
        push_char(s, cs[i]);
        assert(t@.take(i + 1) =~= t@.take(i as int).push(cs@[i as int]));
        assert(s@ =~= old(s)@ + t@.take(i + 1));
        i += 1;
    }
    assert(t@.take(t@.len() as int) =~= t@);
}

/// The address an agent opens its stream at: the server address without
/// trailing slashes, `http(s)` turned into `ws(s)`, then the agents path
/// with the encoded id.
pub fn stream_url(server_url: &str, agent_id: &str) -> (r: String)
    ensures
        r@ == stream_address(server_url@, agent_id@),
{
    let cs = chars_of(server_url);
    let mut end: usize = cs.len();
    assert(cs@.subrange(0, end as int) =~= cs@);
    while end > 0 && cs[end - 1] == '/'
        invariant
            end <= cs@.len(),
            without_trailing_slashes(server_url@) == without_trailing_slashes(cs@.subrange(0, end as int)),
            cs@ == server_url@,
        decreases end,
    {
        assert(cs@.subrange(0, end as int).drop_last() =~= cs@.subrange(0, end - 1));
        end -= 1;
    }
    let trimmed = text_between(&cs, 0, end);
    let tc = chars_of(trimmed.as_str());
    let ghost base = cs@.subrange(0, end as int);
    assert(tc@ == base);
    assert(without_trailing_slashes(base) == base);
    proof {
        reveal_strlit("http://");
        reveal_strlit("https://");
    }
    let http = chars_of("http://");
    let https = chars_of("https://");
    let mut r = String::new();
    if has_prefix(&tc, &http) {
        push_text(&mut r, "ws://");
        let rest = text_between(&tc, 7, tc.len());
        assert(rest@ =~= base.skip(7));
        push_text(&mut r, rest.as_str());
    } else if has_prefix(&tc, &https) {
        push_text(&mut r, "wss://");
        let rest = text_between(&tc, 8, tc.len());
        assert(rest@ =~= base.skip(8));
        push_text(&mut r, rest.as_str());
    } else {
        push_text(&mut r, trimmed.as_str());
    }
    assert(r@ == websocket_base(base));
    push_text(&mut r, "/api/environments/agents/");
    let id = encode_path_segment(agent_id);
    push_text(&mut r, id.as_str());
    push_text(&mut r, "/stream");
    r
}

} // verus!
