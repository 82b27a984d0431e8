//! Character-level string helpers shared across the engine.
//!
//! Registry paths, digests and storage paths are manipulated character by
//! character; each helper carries an exact specification over the string's
//! view as a sequence of characters.

use vstd::prelude::*;

verus! {

/// Relies on String::push: appends exactly the one character.
#[verifier::external_body]
pub fn push_char(s: &mut String, c: char)
    ensures
        final(s)@ == old(s)@.push(c),
{
    s.push(c);
}

/// The pattern `p` occurs in `s` at position `i`.
pub open spec fn spec_match_at(s: Seq<char>, p: Seq<char>, i: int) -> bool {
    0 <= i && i + p.len() <= s.len() && s.subrange(i, i + p.len() as int) == p
}

/// The pattern `p` occurs somewhere in `s`.
pub open spec fn spec_contains(s: Seq<char>, p: Seq<char>) -> bool {
    exists|i: int| spec_match_at(s, p, i)
}

/// `s` begins with the pattern `p`.
pub open spec fn spec_starts_with(s: Seq<char>, p: Seq<char>) -> bool {
    spec_match_at(s, p, 0)
}

/// Whether `p` occurs in `s` at position `i`.
pub fn match_at(s: &str, p: &str, i: usize) -> (r: bool)
    requires
        i <= s@.len(),
        s@.len() <= usize::MAX,
    ensures
        r == spec_match_at(s@, p@, i as int),
{
    let slen: usize = s.unicode_len();
    let plen: usize = p.unicode_len();
    if plen > slen - i {
        return false;
    }
    let mut j: usize = 0;
    while j < plen
        invariant
            slen == s@.len(),
            plen == p@.len(),
            i + plen <= slen,
            j <= plen,
            forall|k: int| 0 <= k < j ==> s@[i + k] == p@[k],
        decreases plen - j,
    {
        if s.get_char(i + j) != p.get_char(j) {
            assert(!spec_match_at(s@, p@, i as int)) by {
                if spec_match_at(s@, p@, i as int) {
                    assert(s@.subrange(i as int, i + p@.len() as int)[j as int] == s@[i + j]);
                }
            }
            return false;
        }
        j += 1;
    }
    assert(s@.subrange(i as int, i + p@.len() as int) =~= p@);
    true
}

/// Whether `p` occurs anywhere in `s`.
pub fn contains_sub(s: &str, p: &str) -> (r: bool)
    ensures
        r == spec_contains(s@, p@),
{
    let slen: usize = s.unicode_len();
    let plen: usize = p.unicode_len();
    if plen > slen {
        assert(forall|i: int| !spec_match_at(s@, p@, i));
        return false;
    }
    if plen == 0 {
        assert(s@.subrange(0, 0) =~= p@);
        assert(spec_match_at(s@, p@, 0));
        return true;
    }
    let mut i: usize = 0;
    while i <= slen - plen
        invariant
            slen == s@.len(),
            plen == p@.len(),
            1 <= plen <= slen,
            i <= slen - plen + 1,
            forall|k: int| 0 <= k < i ==> !spec_match_at(s@, p@, k),
        decreases slen - plen - i + 1,
    {
        if match_at(s, p, i) {
            return true;
        }
        i += 1;
    }
    assert(forall|k: int| !spec_match_at(s@, p@, k));
    false
}

/// Whether two strings hold the same characters.
pub fn str_eq(a: &str, b: &str) -> (r: bool)
    ensures
        r == (a@ == b@),
{
    let alen: usize = a.unicode_len();
    let blen: usize = b.unicode_len();
    if alen != blen {
        return false;
    }
    let r = match_at(a, b, 0);
    proof {
        if spec_match_at(a@, b@, 0) {
            assert(a@.subrange(0, b@.len() as int) =~= a@);
        } else {
            if a@ == b@ {
                assert(a@.subrange(0, b@.len() as int) =~= b@);
            }
        }
    }
    r
}

/// Whether `s` begins with `p`.
pub fn starts_with_sub(s: &str, p: &str) -> (r: bool)
    ensures
        r == spec_starts_with(s@, p@),
{
    let slen: usize = s.unicode_len();
    let plen: usize = p.unicode_len();
    if plen > slen {
        return false;
    }
    match_at(s, p, 0)
}

/// `s` with every leading occurrence of the character `c` removed.
pub open spec fn spec_trim_leading_char(s: Seq<char>, c: char) -> Seq<char>
    decreases s.len(),
{
    if s.len() > 0 && s[0] == c {
        spec_trim_leading_char(s.drop_first(), c)
    } else {
        s
    }
}

/// `s` with every leading occurrence of the pattern `p` removed.
pub open spec fn spec_trim_leading(s: Seq<char>, p: Seq<char>) -> Seq<char>
    decreases s.len(),
{
    if 0 < p.len() <= s.len() && s.take(p.len() as int) == p {
        spec_trim_leading(s.skip(p.len() as int), p)
    } else {
        s
    }
}

/// Strips every leading occurrence of the character `c` from `s`.
pub fn trim_leading_char<'a>(s: &'a str, c: char) -> (r: &'a str)
    ensures
        r@ == spec_trim_leading_char(s@, c),
{
    let slen: usize = s.unicode_len();
    let mut i: usize = 0;
    proof {
        assert(s@.skip(0) =~= s@);
    }
    while i < slen && s.get_char(i) == c
        invariant
            slen == s@.len(),
            i <= slen,
            spec_trim_leading_char(s@, c) == spec_trim_leading_char(s@.skip(i as int), c),
        decreases slen - i,
    {
        proof {
            assert(s@.skip(i as int).drop_first() =~= s@.skip(i + 1));
        }
        i += 1;
    }
    proof {
        assert(spec_trim_leading_char(s@.skip(i as int), c) == s@.skip(i as int));
    }
    s.substring_char(i, slen)
}

/// Strips every leading occurrence of the pattern `p` from `s`.
pub fn trim_leading<'a>(s: &'a str, p: &str) -> (r: &'a str)
    ensures
        r@ == spec_trim_leading(s@, p@),
{
    let slen: usize = s.unicode_len();
    let plen: usize = p.unicode_len();
    if plen == 0 {
        return s;
    }
    let mut i: usize = 0;
    proof {
        assert(s@.skip(0) =~= s@);
    }
    while plen <= slen - i && match_at(s, p, i)
        invariant
            slen == s@.len(),
            plen == p@.len(),
            plen > 0,
            i <= slen,
            spec_trim_leading(s@, p@) == spec_trim_leading(s@.skip(i as int), p@),
        decreases slen - i,
    {
        proof {
            assert(s@.skip(i as int).take(plen as int) =~= s@.subrange(
                i as int,
                i + plen as int,
            ));
            assert(s@.skip(i as int).skip(plen as int) =~= s@.skip(i + plen));
        }
        i += plen;
    }
    proof {
        if i + plen <= slen {
            assert(s@.skip(i as int).take(plen as int) =~= s@.subrange(
                i as int,
                i + plen as int,
            ));
        }
        assert(spec_trim_leading(s@.skip(i as int), p@) == s@.skip(i as int));
    }
    s.substring_char(i, slen)
}

/// `s` with every occurrence of `from` replaced by `to`.
pub open spec fn spec_replace_char(s: Seq<char>, from: char, to: char) -> Seq<char> {
    s.map_values(|c: char| if c == from { to } else { c })
}

/// Replaces every occurrence of the character `from` with `to`.
pub fn replace_char(s: &str, from: char, to: char) -> (r: String)
    ensures
        r@ == spec_replace_char(s@, from, to),
{
    let slen: usize = s.unicode_len();
    let mut out = String::new();
    let mut i: usize = 0;
    while i < slen
        invariant
            slen == s@.len(),
            i <= slen,
            out@ =~= spec_replace_char(s@.take(i as int), from, to),
        decreases slen - i,
    {
        let c = s.get_char(i);
        if c == from {
            push_char(&mut out, to);
        } else {
            push_char(&mut out, c);
        }
        proof {
            assert(spec_replace_char(s@.take(i + 1), from, to) =~= spec_replace_char(
                s@.take(i as int),
                from,
                to,
            ).push(if s@[i as int] == from { to } else { s@[i as int] }));
        }
        i += 1;
    }
    proof {
        assert(s@.take(slen as int) =~= s@);
    }
    out
}

/// Splitting `s` at every occurrence of `sep`; adjacent separators and
/// separators at either end produce empty segments, as `str::split` does.
pub open spec fn spec_split(s: Seq<char>, sep: char) -> Seq<Seq<char>>
    decreases s.len(),
{
    if s.len() == 0 {
        seq![Seq::<char>::empty()]
    } else {
        let rest = spec_split(s.drop_last(), sep);
        if s.last() == sep {
            rest.push(Seq::<char>::empty())
        } else {
            rest.update(rest.len() - 1, rest.last().push(s.last()))
        }
    }
}

pub proof fn lemma_spec_split_len(s: Seq<char>, sep: char)
    ensures
        spec_split(s, sep).len() >= 1,
    decreases s.len(),
{
    if s.len() > 0 {
        lemma_spec_split_len(s.drop_last(), sep);
    }
}

/// Every segment of an ASCII sequence is ASCII: splitting draws each
/// segment character from the input.
pub proof fn lemma_split_ascii(s: Seq<char>, sep: char)
    requires
        vstd::utf8::is_ascii_chars(s),
    ensures
        forall|k: int|
            0 <= k < spec_split(s, sep).len() ==> vstd::utf8::is_ascii_chars(
                #[trigger] spec_split(s, sep)[k],
            ),
    decreases s.len(),
{
    if s.len() > 0 {
        let pre = s.drop_last();
        assert(vstd::utf8::is_ascii_chars(pre)) by {
            assert(forall|i: int| 0 <= i < pre.len() ==> pre[i] == s[i]);
        }
        lemma_split_ascii(pre, sep);
        lemma_spec_split_len(pre, sep);
        let rest = spec_split(pre, sep);
        if s.last() == sep {
            assert(forall|k: int|
                0 <= k < rest.len() ==> spec_split(s, sep)[k] == rest[k]);
            assert(vstd::utf8::is_ascii_chars(Seq::<char>::empty()));
        } else {
            let grown = rest.last().push(s.last());
            assert(vstd::utf8::is_ascii_chars(grown)) by {
                assert(forall|i: int|
                    0 <= i < rest.last().len() ==> grown[i] == rest.last()[i]);
                assert(grown[grown.len() - 1] == s[s.len() - 1]);
            }
            assert(forall|k: int|
                0 <= k < rest.len() - 1 ==> spec_split(s, sep)[k] == rest[k]);
            assert(spec_split(s, sep)[rest.len() - 1] == grown);
        }
    }
}

/// The views of the strings in `v`.
pub open spec fn seq_views(v: Seq<String>) -> Seq<Seq<char>> {
    v.map_values(|x: String| x@)
}

/// Splits `s` at every occurrence of the character `sep`.
pub fn split_char(s: &str, sep: char) -> (r: Vec<String>)
    ensures
        seq_views(r@) == spec_split(s@, sep),
{
    let slen: usize = s.unicode_len();
    let mut out: Vec<String> = Vec::new();
    let mut cur = String::new();
    let mut i: usize = 0;
    while i < slen
        invariant
            slen == s@.len(),
            i <= slen,
            seq_views(out@).push(cur@) =~= spec_split(s@.take(i as int), sep),
        decreases slen - i,
    {
        let c = s.get_char(i);
        proof {
            assert(s@.take(i + 1).drop_last() =~= s@.take(i as int));
            assert(s@.take(i + 1).last() == s@[i as int]);
            lemma_spec_split_len(s@.take(i as int), sep);
        }
        if c == sep {
            out.push(cur);
            cur = String::new();
            proof {
                assert(seq_views(out@).push(cur@) =~= spec_split(s@.take(i as int), sep).push(
                    Seq::<char>::empty(),
                ));
            }
        } else {
            push_char(&mut cur, c);
            proof {
                let prev = spec_split(s@.take(i as int), sep);
                assert(seq_views(out@).push(cur@) =~= prev.update(
                    prev.len() - 1,
                    prev.last().push(s@[i as int]),
                ));
            }
        }
        i += 1;
    }
    proof {
        assert(s@.take(slen as int) =~= s@);
    }
    out.push(cur);
    proof {
        assert(seq_views(out@) =~= spec_split(s@, sep));
    }
    out
}

/// The decimal digit character for `d`.
pub open spec fn spec_digit_char(d: int) -> char {
    if d == 0 {
        '0'
    } else if d == 1 {
        '1'
    } else if d == 2 {
        '2'
    } else if d == 3 {
        '3'
    } else if d == 4 {
        '4'
    } else if d == 5 {
        '5'
    } else if d == 6 {
        '6'
    } else if d == 7 {
        '7'
    } else if d == 8 {
        '8'
    } else {
        '9'
    }
}

/// The decimal rendering of `n` without leading zeros; empty for zero.
pub open spec fn spec_dec_digits(n: int) -> Seq<char>
    decreases n,
{
    if n <= 0 {
        Seq::<char>::empty()
    } else {
        spec_dec_digits(n / 10).push(spec_digit_char(n % 10))
    }
}

/// The decimal rendering of `n`, as `usize` formatting produces it.
pub open spec fn spec_dec(n: int) -> Seq<char> {
    if n == 0 {
        seq!['0']
    } else {
        spec_dec_digits(n)
    }
}

fn digit_char(d: usize) -> (r: char)
    requires
        d < 10,
    ensures
        r == spec_digit_char(d as int),
{
    if d == 0 {
        '0'
    } else if d == 1 {
        '1'
    } else if d == 2 {
        '2'
    } else if d == 3 {
        '3'
    } else if d == 4 {
        '4'
    } else if d == 5 {
        '5'
    } else if d == 6 {
        '6'
    } else if d == 7 {
        '7'
    } else if d == 8 {
        '8'
    } else {
        '9'
    }
}

fn push_dec_digits(s: &mut String, n: usize)
    ensures
        final(s)@ == old(s)@ + spec_dec_digits(n as int),
    decreases n,
{
    if n > 0 {
        push_dec_digits(s, n / 10);
        push_char(s, digit_char(n % 10));
        proof {
            assert(old(s)@ + spec_dec_digits(n as int) =~= (old(s)@ + spec_dec_digits(
                n as int / 10,
            )).push(spec_digit_char(n as int % 10)));
        }
    } else {
        proof {
            assert(old(s)@ + spec_dec_digits(n as int) =~= old(s)@);
        }
    }
}

/// Appends the decimal rendering of `n` to `s`.
pub fn push_dec(s: &mut String, n: usize)
    ensures
        final(s)@ == old(s)@ + spec_dec(n as int),
{
    if n == 0 {
        push_char(s, '0');
        proof {
            assert(old(s)@ + spec_dec(0) =~= old(s)@.push('0'));
        }
    } else {
        push_dec_digits(s, n);
    }
}

/// The decimal rendering of `n` as a string.
pub fn dec_string(n: usize) -> (r: String)
    ensures
        r@ == spec_dec(n as int),
{
    let mut s = String::new();
    push_dec(&mut s, n);
    proof {
        assert(Seq::<char>::empty() + spec_dec(n as int) =~= spec_dec(n as int));
    }
    s
}

/// Whether some string in `v` has exactly the characters of `x`.
pub fn vec_contains_str(v: &Vec<String>, x: &str) -> (r: bool)
    ensures
        r == seq_views(v@).to_set().contains(x@),
{
    let len: usize = v.len();
    let mut i: usize = 0;
    while i < len
        invariant
            len == v@.len(),
            i <= len,
            forall|k: int| 0 <= k < i ==> seq_views(v@)[k] != x@,
        decreases len - i,
    {
        if str_eq(v[i].as_str(), x) {
            assert(seq_views(v@)[i as int] == x@);
            return true;
        }
        i += 1;
    }
    assert(!seq_views(v@).contains(x@));
    false
}

} // verus!
