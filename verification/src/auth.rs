//! Basic-Auth credential extraction.
//!
//! The `Authorization` header must consist of exactly two
//! whitespace-separated tokens; the first must be the literal `BASIC`
//! (case-sensitive, as received); the second is base64-decoded to bytes,
//! those bytes are read as UTF-8 text, and that text must contain exactly
//! one `:`, which separates username from password. Every other shape
//! yields no credentials at all, never a partial pair.

use vstd::prelude::*;
use vstd::string::StrSliceExecFns;
use vstd::utf8::decode_utf8;
use vstd::utf8::valid_utf8;

use crate::codec;
use crate::codec::base64_decode_of;

verus! {

/// The whitespace code points that separate header tokens.
pub open spec fn is_space(c: char) -> bool {
    let u = c as u32;
    ||| u == 0x20
    ||| u == 0x09
    ||| u == 0x0a
    ||| u == 0x0b
    ||| u == 0x0c
    ||| u == 0x0d
    ||| u == 0x85
    ||| u == 0xa0
    ||| u == 0x1680
    ||| (0x2000 <= u && u <= 0x200a)
    ||| u == 0x2028
    ||| u == 0x2029
    ||| u == 0x202f
    ||| u == 0x205f
    ||| u == 0x3000
}

fn is_space_char(c: char) -> (r: bool)
    ensures
        r == is_space(c),
{
    let u = c as u32;
    u == 0x20 || u == 0x09 || u == 0x0a || u == 0x0b || u == 0x0c || u == 0x0d || u == 0x85
        || u == 0xa0 || u == 0x1680 || (0x2000 <= u && u <= 0x200a) || u == 0x2028 || u == 0x2029
        || u == 0x202f || u == 0x205f || u == 0x3000
}

/// First position at or after `i` whose character is not whitespace;
/// positions out of range are returned unchanged.
pub open spec fn skip_ws(s: Seq<char>, i: int) -> int
    decreases s.len() - i,
{
    if 0 <= i < s.len() && is_space(s[i]) {
        skip_ws(s, i + 1)
    } else {
        i
    }
}

/// First position at or after `i` whose character is whitespace;
/// positions out of range are returned unchanged.
pub open spec fn skip_tok(s: Seq<char>, i: int) -> int
    decreases s.len() - i,
{
    if 0 <= i < s.len() && !is_space(s[i]) {
        skip_tok(s, i + 1)
    } else {
        i
    }
}

pub proof fn lemma_skip_ws(s: Seq<char>, i: int)
    requires
        0 <= i <= s.len(),
    ensures
        ({
            let r = skip_ws(s, i);
            &&& i <= r <= s.len()
            &&& forall|j: int| i <= j < r ==> is_space(#[trigger] s[j])
            &&& r < s.len() ==> !is_space(s[r])
        }),
    decreases s.len() - i,
{
    if i < s.len() && is_space(s[i]) {
        lemma_skip_ws(s, i + 1);
    }
}

pub proof fn lemma_skip_tok(s: Seq<char>, i: int)
    requires
        0 <= i <= s.len(),
    ensures
        ({
            let r = skip_tok(s, i);
            &&& i <= r <= s.len()
            &&& forall|j: int| i <= j < r ==> !is_space(#[trigger] s[j])
            &&& r < s.len() ==> is_space(s[r])
        }),
    decreases s.len() - i,
{
    if i < s.len() && !is_space(s[i]) {
        lemma_skip_tok(s, i + 1);
    }
}

/// A run of only non-whitespace reaches the end of the text.
pub proof fn lemma_skip_tok_all(s: Seq<char>, i: int)
    requires
        0 <= i <= s.len(),
        forall|j: int| i <= j < s.len() ==> !is_space(#[trigger] s[j]),
    ensures
        skip_tok(s, i) == s.len(),
    decreases s.len() - i,
{
    if i < s.len() {
        lemma_skip_tok_all(s, i + 1);
    }
}

/// The whitespace-separated tokens of `s`, scanning from position `i`.
pub open spec fn ws_tokens_from(s: Seq<char>, i: int) -> Seq<Seq<char>>
    decreases s.len() - i,
    via ws_tokens_from_decreases
{
    let j = skip_ws(s, i);
    if j < 0 || j >= s.len() {
        Seq::empty()
    } else {
        seq![s.subrange(j, skip_tok(s, j))] + ws_tokens_from(s, skip_tok(s, j))
    }
}

#[via_fn]
proof fn ws_tokens_from_decreases(s: Seq<char>, i: int) {
    if 0 <= i <= s.len() {
        lemma_skip_ws(s, i);
        let j = skip_ws(s, i);
        if 0 <= j < s.len() {
            lemma_skip_tok(s, j);
        }
    }
}

/// The whitespace-separated tokens of `s`: maximal runs of non-whitespace
/// characters, in order.
pub open spec fn ws_tokens(s: Seq<char>) -> Seq<Seq<char>> {
    ws_tokens_from(s, 0)
}

/// Position of the first occurrence of `c` at or after `i`, or the length
/// of `s` when there is none.
pub open spec fn find_char(s: Seq<char>, c: char, i: int) -> int
    decreases s.len() - i,
{
    if i < 0 || i >= s.len() {
        s.len() as int
    } else if s[i] == c {
        i
    } else {
        find_char(s, c, i + 1)
    }
}

/// When the decoded text holds exactly one `:`, the parts before and after
/// it; otherwise nothing.
pub open spec fn colon_split(s: Seq<char>) -> Option<(Seq<char>, Seq<char>)> {
    let i = find_char(s, ':', 0);
    if i >= s.len() {
        None
    } else if find_char(s, ':', i + 1) < s.len() {
        None
    } else {
        Some((s.subrange(0, i), s.subrange(i + 1, s.len() as int)))
    }
}

/// The credentials carried by the base64 token: its bytes, read as UTF-8
/// text, split on a single `:`.
pub open spec fn spec_from_base64(tok: Seq<char>) -> Option<(Seq<char>, Seq<char>)> {
    match base64_decode_of(tok) {
        None => None,
        Some(bytes) => if !valid_utf8(bytes) {
            None
        } else {
            colon_split(decode_utf8(bytes))
        },
    }
}

/// The credentials carried by a whole `Authorization` header value, or
/// `None` for every malformed shape: a token count other than two, a first
/// token other than the literal `BASIC`, invalid base64, bytes that are not
/// UTF-8, or a decoded text without exactly one `:`.
pub open spec fn spec_parse_authorization(s: Seq<char>) -> Option<(Seq<char>, Seq<char>)> {
    match two_tokens(s) {
        None => None,
        Some((scheme, payload)) => if scheme == "BASIC"@ {
            spec_from_base64(payload)
        } else {
            None
        },
    }
}

/// The header's two whitespace-separated tokens, when it has exactly two.
pub open spec fn two_tokens(s: Seq<char>) -> Option<(Seq<char>, Seq<char>)> {
    let t = ws_tokens(s);
    if t.len() == 2 {
        Some((t[0], t[1]))
    } else {
        None
    }
}

/// A request is authorized exactly when it carries a header that parses to
/// a credential pair.
pub open spec fn spec_authorized(h: Option<&str>) -> bool {
    match h {
        Some(s) => spec_parse_authorization(s@) is Some,
        None => false,
    }
}

/// A validated username/password pair, built once per request from the
/// `Authorization` header and never persisted.
#[derive(Debug)]
pub struct BasicAuth {
    pub username: String,
    pub password: String,
}

impl BasicAuth {
    /// Parse a raw `Authorization` header value. Returns the credential
    /// pair the header carries, and `None` exactly when
    /// [`spec_parse_authorization`] says the header is malformed.
    pub fn from_authorization_header(header: &str) -> (r: Option<BasicAuth>)
        ensures
            match (r, spec_parse_authorization(header@)) {
                (Some(a), Some((u, p))) => a.username@ == u && a.password@ == p,
                (None, None) => true,
                _ => false,
            },
    {
        let ghost s = header@;
        let n = header.unicode_len();
        let j0 = skip_ws_exec(header, 0, n);
        if j0 == n {
            proof {
                assert(ws_tokens(s).len() == 0);
            }
            return None;
        }
        let k0 = skip_tok_exec(header, j0, n);
        proof {
            lemma_skip_ws(s, 0);
            lemma_skip_tok(s, j0 as int);
        }
        let j1 = skip_ws_exec(header, k0, n);
        if j1 == n {
            proof {
                assert(ws_tokens_from(s, k0 as int) =~= Seq::<Seq<char>>::empty());
                assert(ws_tokens_from(s, 0) == seq![s.subrange(j0 as int, k0 as int)]
                    + ws_tokens_from(s, k0 as int));
                assert(ws_tokens(s) =~= seq![s.subrange(j0 as int, k0 as int)]);
            }
            return None;
        }
        let k1 = skip_tok_exec(header, j1, n);
        proof {
            lemma_skip_ws(s, k0 as int);
            lemma_skip_tok(s, j1 as int);
        }
        let j2 = skip_ws_exec(header, k1, n);
        proof {
            lemma_skip_ws(s, k1 as int);
        }
        if j2 != n {
            proof {
                lemma_skip_tok(s, j2 as int);
                assert(ws_tokens_from(s, k1 as int) == seq![
                    s.subrange(j2 as int, skip_tok(s, j2 as int)),
                ] + ws_tokens_from(s, skip_tok(s, j2 as int)));
                assert(ws_tokens_from(s, k1 as int).len() >= 1);
                assert(ws_tokens_from(s, k0 as int) == seq![s.subrange(j1 as int, k1 as int)]
                    + ws_tokens_from(s, k1 as int));
                assert(ws_tokens_from(s, 0) == seq![s.subrange(j0 as int, k0 as int)]
                    + ws_tokens_from(s, k0 as int));
                assert(ws_tokens(s).len() >= 3);
            }
            return None;
        }
        proof {
            assert(ws_tokens_from(s, k1 as int) =~= Seq::<Seq<char>>::empty());
            assert(ws_tokens_from(s, k0 as int) =~= seq![s.subrange(j1 as int, k1 as int)]);
            assert(ws_tokens_from(s, 0) == seq![s.subrange(j0 as int, k0 as int)]
                + ws_tokens_from(s, k0 as int));
            assert(ws_tokens(s) =~= seq![
                s.subrange(j0 as int, k0 as int),
                s.subrange(j1 as int, k1 as int),
            ]);
        }
        let scheme = header.substring_char(j0, k0).to_owned();
        let basic = "BASIC".to_owned();
        if !scheme.eq(&basic) {
            return None;
        }
        let payload = header.substring_char(j1, k1);
        Self::from_base64_encoded(payload)
    }

    /// Decode a base64 payload into a credential pair: base64 to bytes,
    /// bytes to UTF-8 text, text split on its single `:` into username and
    /// password. `None` exactly when [`spec_from_base64`] rejects it.
    pub fn from_base64_encoded(base64_string: &str) -> (r: Option<BasicAuth>)
        ensures
            match (r, spec_from_base64(base64_string@)) {
                (Some(a), Some((u, p))) => a.username@ == u && a.password@ == p,
                (None, None) => true,
                _ => false,
            },
    {
        let decoded = match codec::decode_base64(base64_string) {
            Some(v) => v,
            None => {
                return None;
            },
        };
        let text = match codec::utf8_to_string(decoded) {
            Some(t) => t,
            None => {
                return None;
            },
        };
        let st: &str = text.as_str();
        let n = st.unicode_len();
        let i = find_char_exec(st, ':', 0, n);
        if i == n {
            return None;
        }
        let j = find_char_exec(st, ':', i + 1, n);
        if j != n {
            return None;
        }
        proof {
            lemma_find_char(st@, ':', 0);
        }
        let username = st.substring_char(0, i).to_owned();
        let password = st.substring_char(i + 1, n).to_owned();
        Some(BasicAuth { username, password })
    }

    /// The request guard: accept a request exactly when its
    /// `Authorization` header (if any) parses, handing back the pair it
    /// carries; everything else is unauthorized.
    pub fn from_request(auth_header: Option<&str>) -> (r: Option<BasicAuth>)
        ensures
            match r {
                Some(a) => match auth_header {
                    Some(h) => spec_parse_authorization(h@) == Some((a.username@, a.password@)),
                    None => false,
                },
                None => !spec_authorized(auth_header),
            },
    {
        match auth_header {
            Some(h) => Self::from_authorization_header(h),
            None => None,
        }
    }
}

pub proof fn lemma_find_char(s: Seq<char>, c: char, i: int)
    requires
        0 <= i <= s.len(),
    ensures
        ({
            let r = find_char(s, c, i);
            &&& i <= r <= s.len()
            &&& r < s.len() ==> s[r] == c
            &&& forall|j: int| i <= j < r ==> #[trigger] s[j] != c
            &&& r == s.len() ==> forall|j: int| i <= j < s.len() ==> #[trigger] s[j] != c
        }),
    decreases s.len() - i,
{
    if i < s.len() && s[i] != c {
        lemma_find_char(s, c, i + 1);
    }
}

/// Scanning for `c` from `i` lands on a known occurrence at `k` when no
/// earlier position holds one.
proof fn lemma_find_char_at(s: Seq<char>, c: char, i: int, k: int)
    requires
        0 <= i <= k < s.len(),
        s[k] == c,
        forall|j: int| i <= j < k ==> #[trigger] s[j] != c,
    ensures
        find_char(s, c, i) == k,
    decreases k - i,
{
    if i < k {
        lemma_find_char_at(s, c, i + 1, k);
    }
}

/// Scanning for `c` from `i` runs to the end when no position from `i` on
/// holds one.
proof fn lemma_find_char_none(s: Seq<char>, c: char, i: int)
    requires
        0 <= i <= s.len(),
        forall|j: int| i <= j < s.len() ==> #[trigger] s[j] != c,
    ensures
        find_char(s, c, i) == s.len(),
    decreases s.len() - i,
{
    if i < s.len() {
        lemma_find_char_none(s, c, i + 1);
    }
}

/// Every well-formed header is accepted, and yields exactly the pair it
/// encodes: if the token after `BASIC ` decodes to the UTF-8 text
/// `user:pass`, where neither part contains a `:`, then extraction returns
/// exactly `(user, pass)`.
pub proof fn lemma_extracts_well_formed(
    tok: Seq<char>,
    bytes: Seq<u8>,
    user: Seq<char>,
    pass: Seq<char>,
)
    requires
        tok.len() > 0,
        forall|i: int| 0 <= i < tok.len() ==> !is_space(#[trigger] tok[i]),
        base64_decode_of(tok) == Some(bytes),
        valid_utf8(bytes),
        decode_utf8(bytes) == user + seq![':'] + pass,
        forall|i: int| 0 <= i < user.len() ==> #[trigger] user[i] != ':',
        forall|i: int| 0 <= i < pass.len() ==> #[trigger] pass[i] != ':',
    ensures
        spec_parse_authorization("BASIC "@ + tok) == Some((user, pass)),
{
    reveal_strlit("BASIC ");
    reveal_strlit("BASIC");
    let s = "BASIC "@ + tok;
    assert(s.len() == 6 + tok.len());
    assert(s[0] == 'B' && s[1] == 'A' && s[2] == 'S' && s[3] == 'I' && s[4] == 'C' && s[5] == ' ');
    assert(forall|j: int| 6 <= j < s.len() ==> #[trigger] s[j] == tok[j - 6]);
    // The header splits into exactly the tokens `BASIC` and `tok`.
    assert(skip_ws(s, 0) == 0);
    assert(skip_tok(s, 0) == 5) by {
        assert(skip_tok(s, 5) == 5);
        assert(skip_tok(s, 4) == 5);
        assert(skip_tok(s, 3) == 5);
        assert(skip_tok(s, 2) == 5);
        assert(skip_tok(s, 1) == 5);
    }
    assert(skip_ws(s, 5) == 6) by {
        assert(!is_space(s[6]));
        assert(skip_ws(s, 6) == 6);
    }
    lemma_skip_tok_all(s, 6);
    assert(skip_ws(s, s.len() as int) == s.len() as int);
    assert(ws_tokens_from(s, s.len() as int) =~= Seq::<Seq<char>>::empty());
    assert(ws_tokens_from(s, 5) =~= seq![s.subrange(6, s.len() as int)]);
    assert(ws_tokens_from(s, 0) == seq![s.subrange(0, 5)] + ws_tokens_from(s, 5));
    assert(ws_tokens(s) =~= seq![s.subrange(0, 5), s.subrange(6, s.len() as int)]);
    assert(s.subrange(0, 5) =~= "BASIC"@);
    assert(s.subrange(6, s.len() as int) =~= tok);
    assert(two_tokens(s) == Some(("BASIC"@, tok)));
    // The payload decodes to `user:pass` and splits at its single colon.
    let t = decode_utf8(bytes);
    assert(t.len() == user.len() + 1 + pass.len());
    assert(t[user.len() as int] == ':');
    assert(forall|j: int| 0 <= j < user.len() ==> #[trigger] t[j] == user[j]);
    assert(forall|j: int| user.len() < j < t.len() ==> #[trigger] t[j] == pass[j - user.len() - 1]);
    lemma_find_char_at(t, ':', 0, user.len() as int);
    lemma_find_char_none(t, ':', user.len() as int + 1);
    assert(t.subrange(0, user.len() as int) =~= user);
    assert(t.subrange(user.len() as int + 1, t.len() as int) =~= pass);
    assert(colon_split(t) == Some((user, pass)));
}

/// Every malformed header is rejected: a token count other than two, a
/// first token other than `BASIC`, a payload that is not valid base64, a
/// decode to bytes that are not UTF-8, or a decoded text without exactly
/// one `:`, each yield no credentials.
pub proof fn lemma_rejects_malformed(s: Seq<char>)
    requires
        ws_tokens(s).len() != 2 || ws_tokens(s)[0] != "BASIC"@ || (match base64_decode_of(
            ws_tokens(s)[1],
        ) {
            None => true,
            Some(bytes) => !valid_utf8(bytes) || colon_split(decode_utf8(bytes)) is None,
        }),
    ensures
        spec_parse_authorization(s) is None,
{
}

fn skip_ws_exec(s: &str, from: usize, n: usize) -> (r: usize)
    requires
        from <= n,
        n == s@.len(),
    ensures
        r as int == skip_ws(s@, from as int),
        from <= r <= n,
    decreases n - from,
{
    if from < n {
        let c = s.get_char(from);
        if is_space_char(c) {
            return skip_ws_exec(s, from + 1, n);
        }
    }
    from
}

fn skip_tok_exec(s: &str, from: usize, n: usize) -> (r: usize)
    requires
        from <= n,
        n == s@.len(),
    ensures
        r as int == skip_tok(s@, from as int),
        from <= r <= n,
    decreases n - from,
{
    if from < n {
        let c = s.get_char(from);
        if !is_space_char(c) {
            return skip_tok_exec(s, from + 1, n);
        }
    }
    from
}

fn find_char_exec(s: &str, c: char, from: usize, n: usize) -> (r: usize)
    requires
        from <= n,
        n == s@.len(),
    ensures
        r as int == find_char(s@, c, from as int),
        from <= r <= n,
    decreases n - from,
{
    if from < n {
        if s.get_char(from) != c {
            return find_char_exec(s, c, from + 1, n);
        }
    }
    from
}

} // verus!
