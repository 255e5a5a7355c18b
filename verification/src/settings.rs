//! Start-up settings read from the environment: the local engine's
//! address and whether the session cookie is marked secure.

use vstd::prelude::*;

use crate::text::{chars_of, contains_chars, contains_text, has_prefix, push_char, starts_with};

verus! {

/// The local engine's address: a bare socket path is taken as a `unix://`
/// address; anything with a scheme is kept.
pub open spec fn docker_host_address(raw: Seq<char>) -> Seq<char> {
    if contains_text(raw, "://"@) {
        raw
    } else {
        "unix://"@ + raw
    }
}

/// What the local environment shows as its endpoint: the address without
/// its `unix://` scheme.
pub open spec fn docker_endpoint(host: Seq<char>) -> Seq<char> {
    if starts_with(host, "unix://"@) {
        host.skip(7)
    } else {
        host
    }
}

fn push_chars(s: &mut String, v: &Vec<char>, from: usize)
    requires
        from <= v@.len(),
    ensures
        final(s)@ == old(s)@ + v@.skip(from as int),
{
    let mut i: usize = from;
    while i < v.len()
        invariant
            from <= i <= v@.len(),
            s@ == old(s)@ + v@.subrange(from as int, i as int),
        decreases v.len() - i,
    {
        push_char(s, v[i]);
        assert(v@.subrange(from as int, i + 1) =~= v@.subrange(from as int, i as int).push(v@[i as int]));
        assert(s@ =~= old(s)@ + v@.subrange(from as int, i + 1));
        i += 1;
    }
    assert(v@.subrange(from as int, v@.len() as int) =~= v@.skip(from as int));
}

/// The local engine's address and endpoint from the configured value.
pub fn local_docker_host(raw: &str) -> (r: (String, String))
    ensures
        r.0@ == docker_host_address(raw@),
        r.1@ == docker_endpoint(r.0@),
{
    proof {
        reveal_strlit("unix://");
    }
    let rc = chars_of(raw);
    let sep = chars_of("://");
    let scheme = chars_of("unix://");
    let mut host = String::new();
    if !contains_chars(&rc, &sep) {
        push_chars(&mut host, &scheme, 0);
    }
    push_chars(&mut host, &rc, 0);
    assert(rc@.skip(0) =~= rc@);
    assert(scheme@.skip(0) =~= scheme@);
    let hc = chars_of(host.as_str());
    let mut endpoint = String::new();
    if has_prefix(&hc, &scheme) {
        push_chars(&mut endpoint, &hc, 7);
    } else {
        push_chars(&mut endpoint, &hc, 0);
        assert(hc@.skip(0) =~= hc@);
    }
    (host, endpoint)
}

/// The ASCII lower-case form of a character.
pub open spec fn ascii_lower(c: char) -> char {
    if 'A' <= c <= 'Z' {
        ((c as u32) + 32) as char
    } else {
        c
    }
}

/// The texts are equal ignoring ASCII case.
pub open spec fn equal_ignoring_ascii_case(a: Seq<char>, b: Seq<char>) -> bool {
    a.len() == b.len() && forall|i: int| 0 <= i < a.len() ==> ascii_lower(#[trigger] a[i]) == ascii_lower(b[i])
}

fn lower_ascii(c: char) -> (r: char)
    ensures
        r == ascii_lower(c),
{
    if 'A' <= c && c <= 'Z' {
        let u: u32 = (c as u32) + 32;
        u as u8 as char
    } else {
        c
    }
}

fn same_ignoring_ascii_case(a: &str, b: &str) -> (r: bool)
    ensures
        r == equal_ignoring_ascii_case(a@, b@),
{
    let x = chars_of(a);
    let y = chars_of(b);
    if x.len() != y.len() {
        return false;
    }
    let mut i: usize = 0;
    while i < x.len()
        invariant
            i <= x@.len(),
            x@.len() == y@.len(),
            x@ == a@,
            y@ == b@,
            forall|k: int| 0 <= k < i ==> ascii_lower(#[trigger] x@[k]) == ascii_lower(y@[k]),
        decreases x.len() - i,
    {
        if lower_ascii(x[i]) != lower_ascii(y[i]) {
            return false;
        }
        i += 1;
    }
    true
}

/// Whether the session cookie is marked secure: the setting is `1` or
/// `true` in any ASCII case; off when unset.
pub fn cookie_secure(setting: Option<&str>) -> (r: bool)
    ensures
        r == match setting {
            Some(v) => v@ == "1"@ || equal_ignoring_ascii_case(v@, "true"@),
            None => false,
        },
{
    match setting {
        Some(v) => crate::text::same_text(v, "1") || same_ignoring_ascii_case(v, "true"),
        None => false,
    }
}

} // verus!
