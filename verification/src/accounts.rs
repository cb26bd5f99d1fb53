//! Account-key normalization: the canonical homeserver form and the key
//! under which one account is stored.

use vstd::prelude::*;
use vstd::string::*;
use crate::text::{
    chars_of,
    push_char,
    string_from_chars,
    trim_chars,
    trim_spaces,
    drop_trailing,
    lemma_drop_trailing_take,
};

verus! {

/// A homeserver URL in canonical form: surrounding white space removed,
/// then every trailing slash removed.
pub open spec fn norm_hs_spec(url: Seq<char>) -> Seq<char> {
    drop_trailing(trim_spaces(url), |c: char| c == '/')
}

/// The canonical form of a homeserver URL.
pub fn norm_hs(url: &str) -> (r: String)
    ensures
        r@ == norm_hs_spec(url@),
{
    let cs = chars_of(url);
    let t = trim_chars(&cs);
    let mut end: usize = t.len();
    while end > 0 && t[end - 1] == '/'
        invariant
            end <= t@.len(),
            forall|i: int| end <= i < t@.len() ==> t@[i] == '/',
        decreases end,
    {
        end = end - 1;
    }
    proof {
        lemma_drop_trailing_take(t@, |c: char| c == '/', end as int);
    }
    let mut out: Vec<char> = Vec::new();
    let mut i: usize = 0;
    while i < end
        invariant
            i <= end <= t@.len(),
            out@ == t@.take(i as int),
        decreases end - i,
    {
        out.push(t[i]);
        i = i + 1;
        assert(out@ =~= t@.take(i as int));
    }
    string_from_chars(&out)
}

/// The key under which one account is stored: the canonical homeserver
/// URL, a slash, the user identifier.
pub open spec fn make_key_spec(hs: Seq<char>, user: Seq<char>) -> Seq<char> {
    norm_hs_spec(hs) + seq!['/'] + user
}

/// The stored-account key for a homeserver and a user.
pub fn make_key(homeserver_url: &str, user_id: &str) -> (r: String)
    ensures
        r@ == make_key_spec(homeserver_url@, user_id@),
{
    let mut r = norm_hs(homeserver_url);
    push_char(&mut r, '/');
    r.append(user_id);
    proof {
        assert(r@ =~= make_key_spec(homeserver_url@, user_id@));
    }
    r
}

} // verus!
