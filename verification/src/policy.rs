//! The policy decision point.
//!
//! Two independent questions are answered here: whether a request/response
//! pair may be served at all (`is_allowed`, gated by the global operator
//! toggle, with the registry ping always allowed), and whether a
//! multi-platform manifest list offers the supported platform
//! (`select_platform`). The persisted toggle value is a tiny text format
//! parsed by `parse_bool_from_str`.

use vstd::prelude::*;
use crate::json::{parse_json, spec_parse_json};
use crate::manifest::{has_platform, spec_has_platform};
use crate::strutil::{contains_sub, push_char, str_eq};

verus! {

/// A character with the Unicode white-space property, as `char` methods
/// classify it.
pub open spec fn spec_is_space(c: char) -> bool {
    ||| c == ' '
    ||| c == '\t'
    ||| c == '\n'
    ||| c == '\u{000b}'
    ||| c == '\u{000c}'
    ||| c == '\r'
    ||| c == '\u{0085}'
    ||| c == '\u{00a0}'
    ||| c == '\u{1680}'
    ||| (0x2000 <= c as u32 && c as u32 <= 0x200a)
    ||| c == '\u{2028}'
    ||| c == '\u{2029}'
    ||| c == '\u{202f}'
    ||| c == '\u{205f}'
    ||| c == '\u{3000}'
}

fn is_space(c: char) -> (r: bool)
    ensures
        r == spec_is_space(c),
{
    c == ' ' || c == '\t' || c == '\n' || c == '\u{000b}' || c == '\u{000c}' || c == '\r' || c
        == '\u{0085}' || c == '\u{00a0}' || c == '\u{1680}' || (0x2000 <= c as u32 && c as u32
        <= 0x200a) || c == '\u{2028}' || c == '\u{2029}' || c == '\u{202f}' || c == '\u{205f}' || c
        == '\u{3000}'
}

/// The boolean a persisted toggle value denotes: its first non-space
/// character is anything but `0`; a blank value counts as enabled.
pub open spec fn spec_parse_bool(s: Seq<char>) -> bool
    decreases s.len(),
{
    if s.len() == 0 {
        true
    } else if spec_is_space(s.first()) {
        spec_parse_bool(s.drop_first())
    } else {
        s.first() != '0'
    }
}

/// Reads the persisted toggle value: the first non-space character decides,
/// `0` meaning disabled; a blank value counts as enabled.
pub fn parse_bool_from_str(s: &str) -> (r: bool)
    ensures
        r == spec_parse_bool(s@),
{
    let len: usize = s.unicode_len();
    let mut i: usize = 0;
    proof {
        assert(s@.skip(0) =~= s@);
    }
    while i < len
        invariant
            len == s@.len(),
            i <= len,
            spec_parse_bool(s@) == spec_parse_bool(s@.skip(i as int)),
        decreases len - i,
    {
        let c = s.get_char(i);
        proof {
            assert(s@.skip(i as int).first() == s@[i as int]);
            assert(s@.skip(i as int).drop_first() =~= s@.skip(i + 1));
        }
        if !is_space(c) {
            return c != '0';
        }
        i += 1;
    }
    proof {
        assert(s@.skip(len as int) =~= Seq::<char>::empty());
    }
    true
}

/// The text persisted for a toggle value.
pub open spec fn spec_toggle_content(value: bool) -> Seq<char> {
    if value {
        "1\n"@
    } else {
        "0\n"@
    }
}

/// Renders a toggle value as the persisted text format.
pub fn toggle_file_content(value: bool) -> (r: String)
    ensures
        r@ == spec_toggle_content(value),
{
    let mut s = String::new();
    if value {
        push_char(&mut s, '1');
    } else {
        push_char(&mut s, '0');
    }
    push_char(&mut s, '\n');
    proof {
        reveal_strlit("1\n");
        reveal_strlit("0\n");
        if value {
            assert(s@ =~= "1\n"@);
        } else {
            assert(s@ =~= "0\n"@);
        }
    }
    s
}

/// Writing a toggle value and reading it back yields that value.
pub proof fn lemma_toggle_round_trip(value: bool)
    ensures
        spec_parse_bool(spec_toggle_content(value)) == value,
{
    reveal_strlit("1\n");
    reveal_strlit("0\n");
    assert(!spec_is_space('1') && !spec_is_space('0'));
    assert(spec_toggle_content(value).first() == if value {
        '1'
    } else {
        '0'
    });
}

/// Whether a request for `path` whose response body is `body` may be
/// served: the registry ping is always allowed, everything else only while
/// the global toggle stands; the finer rules are permissive.
pub open spec fn spec_is_allowed(path: Seq<char>, body: Seq<u8>, toggle: bool) -> bool {
    path == "/v2/"@ || toggle
}

/// Decides whether a request may be served, from its path, the response
/// body under judgement, and the global toggle.
pub fn is_allowed(path: &str, body: &[u8], toggle: bool) -> (r: bool)
    ensures
        r == spec_is_allowed(path@, body@, toggle),
{
    if str_eq(path, "/v2/") {
        return true;
    }
    if !toggle {
        return false;
    }
    if contains_sub(path, "/blobs/") {
        return true;
    }
    if contains_sub(path, "/manifests/") && body.len() > 0 {
        return true;
    }
    true
}

/// A manifest list offers the wanted platform: its bytes parse as JSON and
/// some entry's platform descriptor names exactly that OS and architecture.
pub open spec fn spec_select_platform(bytes: Seq<u8>, os: Seq<char>, arch: Seq<char>) -> bool {
    match spec_parse_json(bytes) {
        Some(doc) => spec_has_platform(doc, os, arch),
        None => false,
    }
}

/// Whether the manifest list in `bytes` offers an entry for the wanted
/// OS and architecture.
pub fn select_platform(bytes: &[u8], os: &str, arch: &str) -> (r: bool)
    ensures
        r == spec_select_platform(bytes@, os@, arch@),
{
    match parse_json(bytes) {
        Some(doc) => has_platform(&doc, os, arch),
        None => false,
    }
}

} // verus!
