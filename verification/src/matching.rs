//! Which sessions a block category covers, and how long a session lasted.

use vstd::prelude::*;

use crate::model::{AppSession, BlockCategory, TabSession};
use crate::text::{
    alphanumeric, is_alphanumeric_char, occurs_at, starts_at, chars_equal, chars_of, contains_chars, contains_slice, copy_range, ends_with,
    ends_with_chars, find, find_from, first_where, last_before, lowercase, push_all, string_of,
    strip_prefixes, to_lowercase, trim, trim_chars, trim_start_matches,
};

verus! {

// ---------------------------------------------------------------------------
// Session length
// ---------------------------------------------------------------------------

/// `now - start` fits in an `i64`.
pub open spec fn open_time_fits(start: i64, now: i64) -> bool {
    i64::MIN <= now - start <= i64::MAX
}

/// Seconds that a session counts for at time `now`: a closed session counts
/// its recorded duration, an open one the time since it started; never less
/// than zero.
pub open spec fn session_seconds_spec(start: i64, end: Option<i64>, duration: i64, now: i64) -> int {
    match end {
        Some(_) => if duration > 0 {
            duration as int
        } else {
            0
        },
        None => if now - start > 0 {
            now - start
        } else {
            0
        },
    }
}

/// Seconds that a session counts for at time `now`.
pub fn session_seconds(start_time: i64, end_time: Option<i64>, duration_seconds: i64, now: i64) -> (r:
    i64)
    requires
        end_time is None ==> open_time_fits(start_time, now),
    ensures
        r == session_seconds_spec(start_time, end_time, duration_seconds, now),
        r >= 0,
{
    match end_time {
        Some(_) => if duration_seconds > 0 {
            duration_seconds
        } else {
            0
        },
        None => {
            let d = now - start_time;
            if d > 0 {
                d
            } else {
                0
            }
        },
    }
}

// ---------------------------------------------------------------------------
// Keywords
// ---------------------------------------------------------------------------

/// A keyword as it is compared: trimmed, then lowercased.
pub open spec fn keyword_form(k: Seq<char>) -> Seq<char> {
    lowercase(trim_chars(k))
}

/// `p` occurs in `h` at index `i` as a whole word: the character just
/// before the occurrence and the one just after it are each absent or not
/// alphanumeric.
pub open spec fn whole_word_at(h: Seq<char>, p: Seq<char>, i: int) -> bool {
    &&& occurs_at(h, p, i)
    &&& (i == 0 || !alphanumeric(h[i - 1]))
    &&& (i + p.len() == h.len() || !alphanumeric(h[i + p.len()]))
}

/// `p` occurs somewhere in `h` as a whole word.
pub open spec fn contains_word(h: Seq<char>, p: Seq<char>) -> bool {
    exists|i: int| #[trigger] whole_word_at(h, p, i)
}

/// The keyword `k` is non-empty once normalised and occurs in `h` as a whole
/// word, not inside a longer run of letters and digits.
pub open spec fn keyword_hit(h: Seq<char>, k: Seq<char>) -> bool {
    keyword_form(k).len() > 0 && contains_word(h, keyword_form(k))
}

/// Whether `p` occurs in `h` at `i` as a whole word.
fn word_at(h: &[char], p: &[char], i: usize) -> (r: bool)
    ensures
        r == whole_word_at(h@, p@, i as int),
{
    if !starts_at(h, p, i) {
        return false;
    }
    assert(occurs_at(h@, p@, i as int));
    assert(h@.len() == h.len() && p@.len() == p.len());
    let end = i + p.len();
    let before_ok = i == 0 || !is_alphanumeric_char(h[i - 1]);
    let after_ok = end == h.len() || !is_alphanumeric_char(h[end]);
    before_ok && after_ok
}

/// Whether `p` occurs somewhere in `h` as a whole word.
fn contains_word_slice(h: &[char], p: &[char]) -> (r: bool)
    ensures
        r == contains_word(h@, p@),
{
    if p.len() > h.len() {
        assert forall|i: int| !whole_word_at(h@, p@, i) by {}
        return false;
    }
    let last = h.len() - p.len();
    let mut i: usize = 0;
    loop
        invariant
            last + p@.len() == h@.len(),
            i <= last,
            forall|k: int| 0 <= k < i ==> !whole_word_at(h@, p@, k),
        decreases last - i,
    {
        if word_at(h, p, i) {
            return true;
        }
        if i == last {
            assert forall|k: int| !whole_word_at(h@, p@, k) by {
                if 0 <= k && k < i {
                }
            }
            return false;
        }
        i = i + 1;
    }
}

/// Some keyword of `ks` occurs in `h`.
pub open spec fn any_keyword_in(h: Seq<char>, ks: Seq<Seq<char>>) -> bool {
    exists|i: int| 0 <= i < ks.len() && #[trigger] keyword_hit(h, ks[i])
}

/// The normalised characters of a keyword.
fn keyword_chars(k: &str) -> (r: Vec<char>)
    ensures
        r@ == keyword_form(k@),
{
    let cs = chars_of(k);
    let t = trim(cs.as_slice());
    let ts = string_of(t.as_slice());
    let low = to_lowercase(ts.as_str());
    chars_of(low.as_str())
}

/// Whether some keyword of `keywords` occurs in the characters `h`.
fn contains_keyword_chars(h: &[char], keywords: &[String]) -> (r: bool)
    ensures
        r == any_keyword_in(h@, keywords.deep_view()),
{
    let ghost ks = keywords.deep_view();
    let mut i: usize = 0;
    while i < keywords.len()
        invariant
            i <= keywords@.len(),
            ks == keywords.deep_view(),
            forall|m: int| 0 <= m < i ==> !keyword_hit(h@, #[trigger] ks[m]),
        decreases keywords@.len() - i,
    {
        let k = keyword_chars(keywords[i].as_str());
        assert(ks[i as int] == keywords@[i as int]@);
        if k.len() > 0 && contains_word_slice(h, k.as_slice()) {
            assert(keyword_hit(h@, ks[i as int]));
            return true;
        }
        i = i + 1;
    }
    false
}

/// Whether some keyword, trimmed and lowercased, is non-empty and occurs in
/// `haystack` as a whole word (not flanked by a letter or digit).
pub fn contains_keyword(haystack: &str, keywords: &[String]) -> (r: bool)
    ensures
        r == any_keyword_in(haystack@, keywords.deep_view()),
{
    let h = chars_of(haystack);
    contains_keyword_chars(h.as_slice(), keywords)
}

// ---------------------------------------------------------------------------
// Domains
// ---------------------------------------------------------------------------

/// A domain keyword as it is compared: trimmed, without leading `*.`
/// wildcards, lowercased.
pub open spec fn domain_form(k: Seq<char>) -> Seq<char> {
    lowercase(trim_start_matches(trim_chars(k), seq!['*', '.']))
}

/// `host` is the domain `d` or one of its subdomains.
pub open spec fn domain_matches(host: Seq<char>, d: Seq<char>) -> bool {
    host == d || ends_with_chars(host, seq!['.'] + d)
}

/// The domain keyword `k` is non-empty once normalised and covers `host`.
pub open spec fn domain_hit(host: Seq<char>, k: Seq<char>) -> bool {
    domain_form(k).len() > 0 && domain_matches(host, domain_form(k))
}

/// Some domain keyword of `ks` covers `host`.
pub open spec fn domain_covered(host: Seq<char>, ks: Seq<Seq<char>>) -> bool {
    exists|i: int| 0 <= i < ks.len() && #[trigger] domain_hit(host, ks[i])
}

/// There is a host and some domain keyword of `ks` covers it.
pub open spec fn any_domain_covers(host: Option<Seq<char>>, ks: Seq<Seq<char>>) -> bool {
    match host {
        None => false,
        Some(h) => domain_covered(h, ks),
    }
}

/// The normalised characters of a domain keyword.
fn domain_chars(k: &str) -> (r: Vec<char>)
    ensures
        r@ == domain_form(k@),
{
    let cs = chars_of(k);
    let t = trim(cs.as_slice());
    let star_dot = vec!['*', '.'];
    assert(star_dot@ == seq!['*', '.']);
    let s = strip_prefixes(t.as_slice(), star_dot.as_slice());
    let ss = string_of(s.as_slice());
    let low = to_lowercase(ss.as_str());
    chars_of(low.as_str())
}

/// Whether the characters `host` are covered by some domain keyword.
fn covered_by_domain(host: &[char], keywords: &[String]) -> (r: bool)
    ensures
        r == domain_covered(host@, keywords.deep_view()),
{
    let ghost ks = keywords.deep_view();
    let mut i: usize = 0;
    while i < keywords.len()
        invariant
            i <= keywords@.len(),
            ks == keywords.deep_view(),
            forall|m: int| 0 <= m < i ==> !domain_hit(host@, #[trigger] ks[m]),
        decreases keywords@.len() - i,
    {
        let d = domain_chars(keywords[i].as_str());
        assert(ks[i as int] == keywords@[i as int]@);
        if d.len() > 0 {
            let mut dotted: Vec<char> = Vec::new();
            dotted.push('.');
            push_all(&mut dotted, d.as_slice());
            assert(dotted@ =~= seq!['.'] + d@);
            if chars_equal(host, d.as_slice()) || ends_with(host, dotted.as_slice()) {
                assert(domain_hit(host@, ks[i as int]));
                return true;
            }
        }
        i = i + 1;
    }
    false
}

/// Whether there is a host and some domain keyword (trimmed, without leading
/// `*.`, lowercased, non-empty) equals it or is a parent domain of it.
pub fn contains_domain_keyword(host: Option<&str>, keywords: &[String]) -> (r: bool)
    ensures
        r == any_domain_covers(host.deep_view(), keywords.deep_view()),
{
    match host {
        None => false,
        Some(h) => {
            let hc = chars_of(h);
            covered_by_domain(hc.as_slice(), keywords)
        },
    }
}

// ---------------------------------------------------------------------------
// Hosts
// ---------------------------------------------------------------------------

/// The separator between a URL's scheme and the rest.
pub open spec fn scheme_separator() -> Seq<char> {
    seq![':', '/', '/']
}

/// The prefix that `host_from_url` drops from host names.
pub open spec fn www_prefix() -> Seq<char> {
    seq!['w', 'w', 'w', '.']
}

/// Characters that end a URL's authority.
pub open spec fn ends_authority() -> spec_fn(char) -> bool {
    |c: char| c == '/' || c == '?' || c == '#'
}

/// The character `c`, as a predicate.
pub open spec fn is_char(c: char) -> spec_fn(char) -> bool {
    |x: char| x == c
}

/// What follows the first `://`, or the whole URL.
pub open spec fn after_scheme(u: Seq<char>) -> Seq<char> {
    let i = find_from(u, scheme_separator(), 0);
    if i >= 0 {
        u.skip(i + 3)
    } else {
        u
    }
}

/// Everything before the first `/`, `?` or `#`.
pub open spec fn authority_of(a: Seq<char>) -> Seq<char> {
    a.take(first_where(a, ends_authority(), 0))
}

/// What follows the last `@`, or the whole authority.
pub open spec fn after_userinfo(a: Seq<char>) -> Seq<char> {
    a.skip(last_before(a, '@', a.len() as int) + 1)
}

/// Everything before the first `:`.
pub open spec fn before_port(a: Seq<char>) -> Seq<char> {
    a.take(first_where(a, is_char(':'), 0))
}

/// The host part of a URL: after the scheme, within the authority, after any
/// user information, before any port, trimmed, without leading `www.`.
pub open spec fn host_chars(u: Seq<char>) -> Seq<char> {
    trim_start_matches(
        trim_chars(before_port(after_userinfo(authority_of(after_scheme(u))))),
        www_prefix(),
    )
}

/// The host of a URL, if it is not empty.
pub open spec fn host_of_url(u: Seq<char>) -> Option<Seq<char>> {
    if host_chars(u).len() == 0 {
        None
    } else {
        Some(host_chars(u))
    }
}

proof fn lemma_find_in_bounds(s: Seq<char>, p: Seq<char>, i: int)
    requires
        0 <= i,
    ensures
        find_from(s, p, i) == -1 || (i <= find_from(s, p, i) && find_from(s, p, i) + p.len()
            <= s.len()),
    decreases s.len() + 1 - i,
{
    if i + p.len() <= s.len() && !(s.subrange(i, i + p.len()) == p) {
        lemma_find_in_bounds(s, p, i + 1);
    }
}

/// Index of the first character that ends an authority, or `v.len()`.
fn authority_end(v: &[char]) -> (r: usize)
    ensures
        r == first_where(v@, ends_authority(), 0),
        r <= v@.len(),
{
    let mut i: usize = 0;
    while i < v.len() && !(v[i] == '/' || v[i] == '?' || v[i] == '#')
        invariant
            i <= v@.len(),
            first_where(v@, ends_authority(), i as int) == first_where(v@, ends_authority(), 0),
        decreases v@.len() - i,
    {
        i = i + 1;
    }
    i
}

/// Index of the first `c` in `v`, or `v.len()`.
fn first_index_of(v: &[char], c: char) -> (r: usize)
    ensures
        r == first_where(v@, is_char(c), 0),
        r <= v@.len(),
{
    let mut i: usize = 0;
    while i < v.len() && v[i] != c
        invariant
            i <= v@.len(),
            first_where(v@, is_char(c), i as int) == first_where(v@, is_char(c), 0),
        decreases v@.len() - i,
    {
        i = i + 1;
    }
    i
}

/// Index just past the last `c` in `v`, or 0.
fn after_last_index_of(v: &[char], c: char) -> (r: usize)
    ensures
        r == last_before(v@, c, v@.len() as int) + 1,
        r <= v@.len(),
{
    let mut j: usize = v.len();
    while j > 0 && v[j - 1] != c
        invariant
            j <= v@.len(),
            last_before(v@, c, j as int) == last_before(v@, c, v@.len() as int),
        decreases j,
    {
        j = j - 1;
    }
    j
}

/// The host of a URL: the part after `scheme://` and any `user@`, before the
/// first `/`, `?`, `#` or `:`, trimmed and without leading `www.`; `None`
/// when that is empty.
pub fn host_from_url(url: &str) -> (r: Option<String>)
    ensures
        r.deep_view() == host_of_url(url@),
{
    let u = chars_of(url);
    let n = u.len();
    let sep = vec![':', '/', '/'];
    assert(sep@ == scheme_separator());
    let rest = match find(u.as_slice(), sep.as_slice()) {
        Some(i) => {
            proof {
                lemma_find_in_bounds(u@, sep@, 0);
            }
            copy_range(u.as_slice(), i + 3, n)
        },
        None => copy_range(u.as_slice(), 0, u.len()),
    };
    assert(rest@ =~= after_scheme(u@));
    let e = authority_end(rest.as_slice());
    let auth = copy_range(rest.as_slice(), 0, e);
    assert(auth@ =~= authority_of(rest@));
    let at = after_last_index_of(auth.as_slice(), '@');
    let user_less = copy_range(auth.as_slice(), at, auth.len());
    assert(user_less@ =~= after_userinfo(auth@));
    let colon = first_index_of(user_less.as_slice(), ':');
    let portless = copy_range(user_less.as_slice(), 0, colon);
    assert(portless@ =~= before_port(user_less@));
    let trimmed = trim(portless.as_slice());
    let www = vec!['w', 'w', 'w', '.'];
    assert(www@ == www_prefix());
    let host = strip_prefixes(trimmed.as_slice(), www.as_slice());
    assert(host@ == host_chars(url@));
    if host.len() == 0 {
        None
    } else {
        Some(string_of(host.as_slice()))
    }
}

// ---------------------------------------------------------------------------
// Sessions against categories
// ---------------------------------------------------------------------------

/// The text an application session is matched against: the lowercased
/// application name, then a space and the lowercased window title if any.
pub open spec fn app_haystack(name: Seq<char>, title: Option<Seq<char>>) -> Seq<char> {
    match title {
        Some(t) => lowercase(name).push(' ') + lowercase(t),
        None => lowercase(name),
    }
}

/// Some application keyword of `category` occurs in the session's
/// application name or window title.
pub open spec fn app_in_category(session: AppSession, category: BlockCategory) -> bool {
    any_keyword_in(
        app_haystack(session.app_name@, session.window_title.deep_view()),
        category.app_keywords.deep_view(),
    )
}

/// A tab with this URL and title is covered by the domain keywords `ks`: its
/// host is covered by one, or one occurs in its lowercased title or URL.
pub open spec fn tab_text_in(url: Seq<char>, title: Seq<char>, ks: Seq<Seq<char>>) -> bool {
    let u = lowercase(url);
    let t = lowercase(title);
    any_domain_covers(host_of_url(u), ks) || any_keyword_in(t, ks) || any_keyword_in(u, ks)
}

/// The tab session is covered by the category's domain keywords.
pub open spec fn tab_in_category(session: TabSession, category: BlockCategory) -> bool {
    tab_text_in(session.tab_url@, session.tab_title@, category.domain_keywords.deep_view())
}

/// Whether some application keyword of the category occurs in the session's
/// lowercased application name and window title.
pub fn app_matches_category(session: &AppSession, category: &BlockCategory) -> (r: bool)
    ensures
        r == app_in_category(*session, *category),
{
    let name = to_lowercase(session.app_name.as_str());
    let mut hay = chars_of(name.as_str());
    match &session.window_title {
        Some(title) => {
            hay.push(' ');
            let lt = to_lowercase(title.as_str());
            let tc = chars_of(lt.as_str());
            push_all(&mut hay, tc.as_slice());
        },
        None => {},
    }
    assert(hay@ =~= app_haystack(session.app_name@, session.window_title.deep_view()));
    let ks = category.app_keywords.as_slice();
    assert(ks.deep_view() =~= category.app_keywords.deep_view());
    contains_keyword_chars(hay.as_slice(), ks)
}

/// Whether a tab with this URL and title is covered by the domain keywords.
pub fn tab_text_matches(tab_url: &str, tab_title: &str, keywords: &[String]) -> (r: bool)
    ensures
        r == tab_text_in(tab_url@, tab_title@, keywords.deep_view()),
{
    let title = to_lowercase(tab_title);
    let url = to_lowercase(tab_url);
    let host = host_from_url(url.as_str());
    let by_host = match &host {
        Some(h) => {
            let hc = chars_of(h.as_str());
            covered_by_domain(hc.as_slice(), keywords)
        },
        None => false,
    };
    if by_host {
        return true;
    }
    let tc = chars_of(title.as_str());
    if contains_keyword_chars(tc.as_slice(), keywords) {
        return true;
    }
    let uc = chars_of(url.as_str());
    contains_keyword_chars(uc.as_slice(), keywords)
}

/// Whether the tab session is covered by the category's domain keywords,
/// through its host, its title or its URL.
pub fn tab_matches_category(session: &TabSession, category: &BlockCategory) -> (r: bool)
    ensures
        r == tab_in_category(*session, *category),
{
    let ks = category.domain_keywords.as_slice();
    assert(ks.deep_view() =~= category.domain_keywords.deep_view());
    tab_text_matches(session.tab_url.as_str(), session.tab_title.as_str(), ks)
}

} // verus!
