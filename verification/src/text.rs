//! Character-level helpers: stripping filesystem-unsafe characters from tag
//! values, reading the extension out of a file name, and building the
//! `Title - Artist.ext` name the renamer uses.

use vstd::prelude::*;

verus! {

/// The characters a constructed file name may not contain.
pub open spec fn is_forbidden_char(c: char) -> bool {
    c == '<' || c == '>' || c == ':' || c == '"' || c == '/' || c == '\\' || c == '|' || c == '?'
        || c == '*'
}

/// View of a sanitized string: every forbidden character dropped, the rest
/// kept in order.
pub open spec fn sanitize_spec(s: Seq<char>) -> Seq<char> {
    s.filter(|c: char| !is_forbidden_char(c))
}

/// Whether `c` is one of the characters a constructed file name may not
/// contain.
pub fn is_forbidden(c: char) -> (r: bool)
    ensures
        r == is_forbidden_char(c),
{
    c == '<' || c == '>' || c == ':' || c == '"' || c == '/' || c == '\\' || c == '|' || c == '?'
        || c == '*'
}

/// Relies on `String`'s `FromIterator` impl: collecting an iterator of chars
/// yields the string of exactly those characters in order.
#[verifier::external_body]
fn chars_to_string(chars: &Vec<char>) -> (s: String)
    ensures
        s@ == chars@,
{
    chars.iter().collect()
}

/// Copy of `s` with every forbidden character removed.
pub fn sanitize(s: &str) -> (r: String)
    ensures
        r@ == sanitize_spec(s@),
{
    let n = s.unicode_len();
    let mut kept: Vec<char> = Vec::new();
    let mut i: usize = 0;
    while i < n
        invariant
            n == s@.len(),
            i <= n,
            kept@ == sanitize_spec(s@.take(i as int)),
        decreases n - i,
    {
        let c = s.get_char(i);
        proof {
            reveal(Seq::filter);
            assert(s@.take(i + 1).drop_last() =~= s@.take(i as int));
            assert(s@.take(i + 1).last() == c);
        }
        if !is_forbidden(c) {
            kept.push(c);
        }
        i = i + 1;
    }
    proof {
        assert(s@.take(n as int) =~= s@);
    }
    chars_to_string(&kept)
}

/// The extension of a file name: the portion after the final `.`, provided
/// that dot is not the leading character; `None` otherwise (no dot at all, or
/// only a leading one).  This mirrors how the platform path library reads an
/// extension out of a plain file name.
pub open spec fn extension_spec(s: Seq<char>) -> Option<Seq<char>>
    decreases s.len(),
{
    if s.len() < 2 {
        None
    } else if s.last() == '.' {
        Some(Seq::empty())
    } else {
        match extension_spec(s.drop_last()) {
            Some(e) => Some(e.push(s.last())),
            None => None,
        }
    }
}

proof fn lemma_extension_none(s: Seq<char>)
    requires
        forall|k: int| 1 <= k < s.len() ==> s[k] != '.',
    ensures
        extension_spec(s) is None,
    decreases s.len(),
{
    if s.len() >= 2 {
        lemma_extension_none(s.drop_last());
    }
}

proof fn lemma_extension_some(s: Seq<char>, j: int)
    requires
        1 <= j < s.len(),
        s[j] == '.',
        forall|k: int| j < k < s.len() ==> s[k] != '.',
    ensures
        extension_spec(s) == Some(s.subrange(j + 1, s.len() as int)),
    decreases s.len(),
{
    if j == s.len() - 1 {
        assert(s.subrange(j + 1, s.len() as int) =~= Seq::<char>::empty());
    } else {
        lemma_extension_some(s.drop_last(), j);
        assert(s.subrange(j + 1, s.len() as int) =~= s.drop_last().subrange(
            j + 1,
            s.len() - 1,
        ).push(s.last()));
    }
}

/// The extension of `name`, if it has one.
pub fn extension_of(name: &str) -> (r: Option<String>)
    ensures
        match r {
            Some(e) => extension_spec(name@) == Some(e@),
            None => extension_spec(name@) is None,
        },
{
    let n = name.unicode_len();
    let mut i: usize = n;
    while i > 1
        invariant
            n == name@.len(),
            i <= n,
            forall|k: int| i <= k < n ==> name@[k] != '.',
        decreases i,
    {
        let c = name.get_char(i - 1);
        if c == '.' {
            let e = name.substring_char(i, n);
            proof {
                lemma_extension_some(name@, i - 1);
            }
            return Some(e.to_owned());
        }
        i = i - 1;
    }
    proof {
        lemma_extension_none(name@);
    }
    None
}

/// View of the file name the renamer builds: `Title - Artist.ext`.
pub open spec fn track_name_spec(title: Seq<char>, artist: Seq<char>, ext: Seq<char>) -> Seq<
    char,
> {
    title + " - "@ + artist + "."@ + ext
}

/// Builds `Title - Artist.ext` from already-sanitized parts.
pub fn format_track_name(title: &str, artist: &str, ext: &str) -> (r: String)
    ensures
        r@ == track_name_spec(title@, artist@, ext@),
{
    let mut out = title.to_owned();
    out.append(" - ");
    out.append(artist);
    out.append(".");
    out.append(ext);
    out
}

/// Sanitization removes every forbidden character: nothing of
/// `< > : " / \ | ? *` survives in its result.
pub proof fn lemma_sanitize_removes_forbidden(s: Seq<char>)
    ensures
        forall|i: int|
            0 <= i < sanitize_spec(s).len() ==> !is_forbidden_char(sanitize_spec(s)[i]),
{
    broadcast use vstd::seq_lib::group_filter_ensures;

    assert forall|i: int|
        0 <= i < sanitize_spec(s).len() implies !is_forbidden_char(sanitize_spec(s)[i]) by {
        assert(sanitize_spec(s) == s.filter(|c: char| !is_forbidden_char(c)));
    }
}

/// A constructed file name `Title - Artist.ext`, built from sanitized
/// parts, holds no forbidden character at all, provided the extension kept
/// from the original name holds none.
pub proof fn lemma_track_name_sanitized(title: Seq<char>, artist: Seq<char>, ext: Seq<char>)
    requires
        forall|i: int| 0 <= i < ext.len() ==> !is_forbidden_char(ext[i]),
    ensures
        forall|i: int|
            0 <= i < track_name_spec(sanitize_spec(title), sanitize_spec(artist), ext).len()
                ==> !is_forbidden_char(
                track_name_spec(sanitize_spec(title), sanitize_spec(artist), ext)[i],
            ),
{
    reveal_strlit(" - ");
    reveal_strlit(".");
    lemma_sanitize_removes_forbidden(title);
    lemma_sanitize_removes_forbidden(artist);
    let t = sanitize_spec(title);
    let a = sanitize_spec(artist);
    let full = track_name_spec(t, a, ext);
    let s1 = t + " - "@;
    let s2 = s1 + a;
    let s3 = s2 + "."@;
    assert forall|i: int| 0 <= i < full.len() implies !is_forbidden_char(full[i]) by {
        if i < t.len() {
            assert(full[i] == t[i]);
        } else if i < s1.len() {
            assert(full[i] == " - "@[i - t.len()]);
        } else if i < s2.len() {
            assert(full[i] == a[i - s1.len()]);
        } else if i < s3.len() {
            assert(full[i] == "."@[i - s2.len()]);
        } else {
            assert(full[i] == ext[i - s3.len()]);
        }
    }
}

} // verus!
