//! Reading a session cookie from a `Cookie` header and writing `Set-Cookie`
//! values.
use crate::crypto::text_view;
use crate::text::{
    find_char_from, first_pos, lemma_first_pos, push_signed_decimal, push_str, segments,
    signed_decimal, split_once, split_once_str, str_eq, substring, trim, trim_str,
};
use vstd::prelude::*;

verus! {

/// The value of the first cookie pair named `name` among `parts`, each part
/// trimmed and split at its first `=`.
pub open spec fn find_cookie(parts: Seq<Seq<char>>, name: Seq<char>) -> Option<Seq<char>>
    decreases parts.len(),
{
    if parts.len() == 0 {
        None
    } else {
        match split_once(trim(parts[0]), '=') {
            Some((n, v)) => if n == name {
                Some(v)
            } else {
                find_cookie(parts.drop_first(), name)
            },
            None => find_cookie(parts.drop_first(), name),
        }
    }
}

/// The value of cookie `name` in a `Cookie` header.
pub open spec fn cookie_value(header: Seq<char>, name: Seq<char>) -> Option<Seq<char>> {
    find_cookie(segments(header, ';'), name)
}

proof fn lemma_segments_step(s: Seq<char>, pos: int, k: int)
    requires
        0 <= pos <= k <= s.len(),
        k - pos == first_pos(s.skip(pos), ';'),
    ensures
        k < s.len() ==> segments(s.skip(pos), ';') == seq![s.subrange(pos, k)] + segments(
            s.skip(k + 1),
            ';',
        ),
        k == s.len() ==> segments(s.skip(pos), ';') == seq![s.subrange(pos, k)],
{
    let t = s.skip(pos);
    lemma_first_pos(t, ';');
    assert(t.take(k - pos) =~= s.subrange(pos, k));
    if k < s.len() {
        assert(t.skip(k - pos + 1) =~= s.skip(k + 1));
    } else {
        assert(t =~= s.subrange(pos, k));
    }
}

/// The value of cookie `name` in a `Cookie` header: the header split at `;`,
/// each part trimmed and split at its first `=`, the first part whose name
/// is `name`.
pub fn cookie_value_of(header: &str, name: &str) -> (r: Option<String>)
    ensures
        text_view(r) == cookie_value(header@, name@),
{
    let n = header.unicode_len();
    let mut pos: usize = 0;
    assert(header@.skip(0) =~= header@);
    loop
        invariant
            n == header@.len(),
            pos <= n,
            cookie_value(header@, name@) == find_cookie(segments(header@.skip(pos as int), ';'), name@),
        decreases n - pos,
    {
        let k = find_char_from(header, ';', pos);
        proof {
            lemma_segments_step(header@, pos as int, k as int);
        }
        let part = substring(header, pos, k);
        let trimmed = trim_str(part.as_str());
        let ghost rest = if k < n {
            segments(header@.skip(k + 1), ';')
        } else {
            Seq::<Seq<char>>::empty()
        };
        let ghost parts = seq![part@] + rest;
        assert(parts.drop_first() =~= rest);
        match split_once_str(trimmed.as_str(), '=') {
            Some((cookie_name, value)) => {
                if str_eq(cookie_name.as_str(), name) {
                    return Some(value);
                }
            },
            None => {},
        }
        if k == n {
            return None;
        }
        pos = k + 1;
    }
}

/// A `Set-Cookie` value for an HTTP-only cookie at path `/`.
pub open spec fn set_cookie_text(
    name: Seq<char>,
    value: Seq<char>,
    same_site: Seq<char>,
    max_age: int,
    secure: bool,
) -> Seq<char> {
    name + "="@ + value + "; Path=/; HttpOnly; SameSite="@ + same_site + "; Max-Age="@
        + signed_decimal(max_age) + if secure {
        "; Secure"@
    } else {
        Seq::empty()
    }
}

/// A `Set-Cookie` value for an HTTP-only cookie at path `/`, `Secure` when
/// `secure`.
pub fn set_cookie(name: &str, value: &str, same_site: &str, max_age: i64, secure: bool) -> (r:
    String)
    ensures
        r@ == set_cookie_text(name@, value@, same_site@, max_age as int, secure),
{
    let mut r = name.to_owned();
    push_str(&mut r, "=");
    push_str(&mut r, value);
    push_str(&mut r, "; Path=/; HttpOnly; SameSite=");
    push_str(&mut r, same_site);
    push_str(&mut r, "; Max-Age=");
    push_signed_decimal(&mut r, max_age);
    if secure {
        push_str(&mut r, "; Secure");
    }
    proof {
        assert(Seq::<char>::empty() =~= Seq::empty());
    }
    assert(r@ =~= set_cookie_text(name@, value@, same_site@, max_age as int, secure));
    r
}

} // verus!
