//! What the tool asks of GitHub and makes of the answers: the issue search
//! URL and its result, and the check for a newer fix database release.
use vstd::prelude::*;
use crate::text::{chars_of, push_str, strip_leading, strip_leading_char, str_eq, to_owned_string, trim, trimmed};

verus! {

// ---------------------------------------------------------------------------
// Version numbers
// ---------------------------------------------------------------------------

/// `c` is an ASCII digit.
pub open spec fn is_digit(c: char) -> bool {
    48 <= (c as u32) && (c as u32) <= 57
}

/// The number that the ASCII digits `d` spell.
pub open spec fn digits_value(d: Seq<char>) -> nat
    decreases d.len(),
{
    if d.len() == 0 {
        0
    } else {
        digits_value(d.drop_last()) * 10 + ((d.last() as u32) - 48) as nat
    }
}

/// The digits of `s` once an optional leading '+' (not alone) is set aside.
pub open spec fn unsigned_digits(s: Seq<char>) -> Seq<char> {
    if s.len() > 1 && s[0] == '+' {
        s.drop_first()
    } else {
        s
    }
}

/// Every character of `d` is an ASCII digit.
pub open spec fn all_digits(d: Seq<char>) -> bool {
    forall|i: int| 0 <= i < d.len() ==> is_digit(#[trigger] d[i])
}

/// What `str::parse::<u32>` gives for `s`: an optional leading '+' (not alone),
/// then one or more ASCII digits whose value fits in a `u32`.
pub open spec fn parsed_u32(s: Seq<char>) -> Option<u32> {
    let d = unsigned_digits(s);
    if d.len() > 0 && all_digits(d) && digits_value(d) <= u32::MAX {
        Some(digits_value(d) as u32)
    } else {
        None
    }
}

/// The pieces of `s` between its '.' characters (what `str::split('.')` yields).
pub open spec fn split_dots(s: Seq<char>) -> Seq<Seq<char>>
    decreases s.len(),
{
    if s.len() == 0 {
        seq![seq![]]
    } else {
        let prev = split_dots(s.drop_last());
        if s.last() == '.' {
            prev.push(seq![])
        } else {
            prev.drop_last().push(prev.last().push(s.last()))
        }
    }
}

/// The numbers among `pieces`, in order; pieces that are no number are skipped.
pub open spec fn parsed_parts(pieces: Seq<Seq<char>>) -> Seq<u32>
    decreases pieces.len(),
{
    if pieces.len() == 0 {
        seq![]
    } else {
        let prev = parsed_parts(pieces.drop_last());
        match parsed_u32(pieces.last()) {
            Some(v) => prev.push(v),
            None => prev,
        }
    }
}

/// The numbers of a dotted version string such as "1.2.10".
pub open spec fn version_numbers(s: Seq<char>) -> Seq<u32> {
    parsed_parts(split_dots(s))
}

/// The `i`-th number of a version, missing numbers counting as 0.
pub open spec fn part_at(p: Seq<u32>, i: int) -> u32 {
    if 0 <= i < p.len() {
        p[i]
    } else {
        0
    }
}

/// The longer of two lengths.
pub open spec fn longer(a: Seq<u32>, b: Seq<u32>) -> int {
    if a.len() > b.len() {
        a.len() as int
    } else {
        b.len() as int
    }
}

/// From position `i` on, the first number where `r` and `l` differ is larger in `r`.
pub open spec fn newer_from(r: Seq<u32>, l: Seq<u32>, i: int) -> bool
    decreases longer(r, l) - i,
{
    if i < 0 || i >= longer(r, l) {
        false
    } else if part_at(r, i) > part_at(l, i) {
        true
    } else if part_at(r, i) < part_at(l, i) {
        false
    } else {
        newer_from(r, l, i + 1)
    }
}

/// Version `r` is newer than version `l`.
pub open spec fn is_newer(r: Seq<u32>, l: Seq<u32>) -> bool {
    newer_from(r, l, 0)
}

proof fn lemma_digits_prefix(d: Seq<char>, k: int)
    requires
        0 <= k <= d.len(),
    ensures
        digits_value(d.take(k)) <= digits_value(d),
    decreases d.len(),
{
    if k < d.len() {
        lemma_digits_prefix(d.drop_last(), k);
        assert(d.drop_last().take(k) =~= d.take(k));
    } else {
        assert(d.take(k) =~= d);
    }
}

/// No version is newer than itself.
pub proof fn lemma_newer_irreflexive(a: Seq<u32>, i: int)
    ensures
        !newer_from(a, a, i),
    decreases longer(a, a) - i,
{
    if 0 <= i < longer(a, a) {
        lemma_newer_irreflexive(a, i + 1);
    }
}

/// Of two versions at most one is newer than the other.
pub proof fn lemma_newer_asymmetric(a: Seq<u32>, b: Seq<u32>, i: int)
    requires
        newer_from(a, b, i),
    ensures
        !newer_from(b, a, i),
    decreases longer(a, b) - i,
{
    if 0 <= i < longer(a, b) && part_at(a, i) == part_at(b, i) {
        lemma_newer_asymmetric(a, b, i + 1);
    }
}

/// Newer-than is transitive.
pub proof fn lemma_newer_transitive(a: Seq<u32>, b: Seq<u32>, c: Seq<u32>, i: int)
    requires
        newer_from(a, b, i),
        newer_from(b, c, i),
    ensures
        newer_from(a, c, i),
    decreases longer(a, b) + longer(b, c) - 2 * i,
{
    if part_at(a, i) == part_at(b, i) && part_at(b, i) == part_at(c, i) {
        lemma_newer_transitive(a, b, c, i + 1);
        if i >= longer(a, c) {
            assert(i + 1 >= longer(a, c));
        }
    }
}

/// A missing number counts as 0: appending a zero to either version changes
/// no comparison (so "1.0" and "1.0.0" are the same version).
pub proof fn lemma_trailing_zero_ignored(a: Seq<u32>, b: Seq<u32>, i: int)
    requires
        0 <= i,
    ensures
        newer_from(a.push(0), b, i) == newer_from(a, b, i),
        newer_from(b, a.push(0), i) == newer_from(b, a, i),
    decreases longer(a.push(0), b) - i,
{
    assert(part_at(a.push(0), i) == part_at(a, i));
    if i < longer(a.push(0), b) {
        lemma_trailing_zero_ignored(a, b, i + 1);
    }
}

/// The value of the piece `d`, if it is a number that fits in a `u32`
/// (`str::parse::<u32>`).
pub fn parse_u32(s: &Vec<char>) -> (r: Option<u32>)
    ensures
        r == parsed_u32(s@),
{
    let n = s.len();
    let start: usize = if n > 1 && s[0] == '+' { 1 } else { 0 };
    let ghost d = unsigned_digits(s@);
    assert(d =~= s@.skip(start as int));
    if start == n {
        return None;
    }
    let mut acc: u64 = 0;
    let mut i: usize = start;
    assert(d.take(0) =~= seq![]);
    while i < n
        invariant
            start <= i <= n,
            n == s@.len(),
            d == s@.skip(start as int),
            d == unsigned_digits(s@),
            acc == digits_value(d.take(i - start)),
            acc <= u32::MAX,
            forall|j: int| 0 <= j < i - start ==> is_digit(#[trigger] d[j]),
        decreases n - i,
    {
        let c = s[i];
        assert(d[i - start] == c);
        if !((c as u32) >= 48 && (c as u32) <= 57) {
            assert(!is_digit(d[i - start]));
            assert(!all_digits(d));
            return None;
        }
        let v = acc * 10 + ((c as u32) - 48) as u64;
        assert(d.take(i - start + 1).drop_last() =~= d.take(i - start));
        assert(d.take(i - start + 1).last() == c);
        assert(v == digits_value(d.take(i - start + 1)));
        if v > 0xffff_ffff {
            proof {
                if all_digits(d) {
                    lemma_digits_prefix(d, i - start + 1);
                }
            }
            return None;
        }
        acc = v;
        i = i + 1;
    }
    assert(d.take(i - start) =~= d);
    Some(acc as u32)
}

/// The numbers of a dotted version string: the pieces between '.' that parse
/// as `u32`, in order (`split('.')` then `parse().ok()`).
pub fn version_parts(s: &str) -> (parts: Vec<u32>)
    ensures
        parts@ == version_numbers(s@),
{
    let cs = chars_of(s);
    let n = cs.len();
    let mut out: Vec<u32> = Vec::new();
    let mut cur: Vec<char> = Vec::new();
    let ghost mut done: Seq<Seq<char>> = seq![];
    assert(cs@.take(0) =~= seq![]);
    for i in 0..n
        invariant
            n == cs@.len(),
            split_dots(cs@.take(i as int)) == done.push(cur@),
            out@ == parsed_parts(done),
    {
        let c = cs[i];
        assert(cs@.take(i + 1).drop_last() =~= cs@.take(i as int));
        assert(cs@.take(i + 1).last() == c);
        if c == '.' {
            let p = parse_u32(&cur);
            proof {
                assert(done.push(cur@).drop_last() =~= done);
            }
            match p {
                Some(v) => out.push(v),
                None => {},
            }
            proof {
                done = done.push(cur@);
            }
            cur = Vec::new();
        } else {
            let ghost old_cur = cur@;
            cur.push(c);
            proof {
                assert(done.push(old_cur).drop_last() =~= done);
                assert(done.push(old_cur).last() == old_cur);
                assert(done.push(old_cur.push(c)) =~= done.push(cur@));
            }
        }
    }
    assert(cs@.take(n as int) =~= cs@);
    let p = parse_u32(&cur);
    proof {
        assert(done.push(cur@).drop_last() =~= done);
    }
    match p {
        Some(v) => out.push(v),
        None => {},
    }
    out
}

/// Whether the dotted version `remote` is newer than `local`: the first number
/// where they differ, missing numbers counting as 0, is larger in `remote`.
pub fn compare_versions(remote: &str, local: &str) -> (newer: bool)
    ensures
        newer == is_newer(version_numbers(remote@), version_numbers(local@)),
{
    let r = version_parts(remote);
    let l = version_parts(local);
    let m = if r.len() > l.len() { r.len() } else { l.len() };
    let mut i: usize = 0;
    while i < m
        invariant
            m == longer(r@, l@),
            r@ == version_numbers(remote@),
            l@ == version_numbers(local@),
            i <= m,
            is_newer(r@, l@) == newer_from(r@, l@, i as int),
        decreases m - i,
    {
        let a = if i < r.len() { r[i] } else { 0 };
        let b = if i < l.len() { l[i] } else { 0 };
        assert(a == part_at(r@, i as int));
        assert(b == part_at(l@, i as int));
        if a > b {
            return true;
        } else if a < b {
            return false;
        }
        i = i + 1;
    }
    false
}

// ---------------------------------------------------------------------------
// The update check
// ---------------------------------------------------------------------------

/// A file attached to a release.
#[derive(Debug, Clone, PartialEq, Eq)]
pub struct Asset {
    pub name: String,
    pub browser_download_url: String,
}

/// The latest release of the fix database.
#[derive(Debug, Clone, PartialEq, Eq)]
pub struct Release {
    pub tag_name: String,
    pub assets: Vec<Asset>,
}

/// What the update check found.
#[derive(Debug, Clone, PartialEq, Eq)]
pub struct UpdateCheckResult {
    pub update_available: bool,
    pub download_url: Option<String>,
    pub new_version: Option<String>,
    pub current_version: String,
}

/// The view of an optional string.
pub open spec fn opt_view(o: Option<String>) -> Option<Seq<char>> {
    match o {
        Some(s) => Some(s@),
        None => None,
    }
}

/// The installed fix database version: what the system VERSION file holds,
/// trimmed, when it could be read; else what the user's VERSION file holds,
/// trimmed, when it could be read; else the program's own version.
pub open spec fn chosen_version(
    system_file: Option<Seq<char>>,
    user_file: Option<Seq<char>>,
    app_version: Seq<char>,
) -> Seq<char> {
    match system_file {
        Some(text) => trimmed(text),
        None => match user_file {
            Some(text) => trimmed(text),
            None => app_version,
        },
    }
}

/// Picks the installed fix database version from the contents of the system
/// and the user's VERSION files (`None` where a file could not be read) and
/// the program's own version.
pub fn choose_current_version(
    system_file: Option<String>,
    user_file: Option<String>,
    app_version: &str,
) -> (v: String)
    ensures
        v@ == chosen_version(opt_view(system_file), opt_view(user_file), app_version@),
{
    match system_file {
        Some(text) => trim(text.as_str()),
        None => match user_file {
            Some(text) => trim(text.as_str()),
            None => to_owned_string(app_version),
        },
    }
}

/// The download address of the first asset named "fixes.zip".
pub open spec fn fixes_zip_url(assets: Seq<Asset>) -> Option<Seq<char>>
    decreases assets.len(),
{
    if assets.len() == 0 {
        None
    } else if assets[0].name@ == "fixes.zip"@ {
        Some(assets[0].browser_download_url@)
    } else {
        fixes_zip_url(assets.drop_first())
    }
}

/// The release's version is newer than `current`, leading 'v's set aside.
pub open spec fn release_is_newer(tag: Seq<char>, current: Seq<char>) -> bool {
    is_newer(
        version_numbers(strip_leading(tag, 'v')),
        version_numbers(strip_leading(current, 'v')),
    )
}

fn find_fixes_zip(assets: &Vec<Asset>) -> (url: Option<String>)
    ensures
        opt_view(url) == fixes_zip_url(assets@),
{
    let n = assets.len();
    let mut i: usize = 0;
    assert(assets@.skip(0) =~= assets@);
    while i < n
        invariant
            n == assets@.len(),
            i <= n,
            fixes_zip_url(assets@) == fixes_zip_url(assets@.skip(i as int)),
        decreases n - i,
    {
        assert(assets@.skip(i as int)[0] == assets@[i as int]);
        assert(assets@.skip(i as int).drop_first() =~= assets@.skip(i + 1));
        if str_eq(assets[i].name.as_str(), "fixes.zip") {
            return Some(assets[i].browser_download_url.clone());
        }
        i = i + 1;
    }
    None
}

impl UpdateCheckResult {
    /// The result when nothing newer is there (or nothing could be learnt).
    pub fn no_update(current_version: &str) -> (r: UpdateCheckResult)
        ensures
            !r.update_available,
            r.download_url.is_none(),
            r.new_version.is_none(),
            r.current_version@ == current_version@,
    {
        UpdateCheckResult {
            update_available: false,
            download_url: None,
            new_version: None,
            current_version: crate::text::to_owned_string(current_version),
        }
    }
}

/// The update check's verdict on the latest release (`None` when it could not
/// be fetched or read): an update is available when the release is newer and
/// carries a "fixes.zip" asset.
pub fn update_check_from_release(current_version: &str, release: Option<Release>) -> (r:
    UpdateCheckResult)
    ensures
        r.current_version@ == current_version@,
        match release {
            None => !r.update_available && r.download_url.is_none() && r.new_version.is_none(),
            Some(rel) => if release_is_newer(rel.tag_name@, current_version@) {
                &&& opt_view(r.download_url) == fixes_zip_url(rel.assets@)
                &&& r.update_available == r.download_url.is_some()
                &&& opt_view(r.new_version) == Some(rel.tag_name@)
            } else {
                !r.update_available && r.download_url.is_none() && r.new_version.is_none()
            },
        },
{
    match release {
        None => UpdateCheckResult::no_update(current_version),
        Some(rel) => {
            let remote = strip_leading_char(rel.tag_name.as_str(), 'v');
            let local = strip_leading_char(current_version, 'v');
            if compare_versions(remote.as_str(), local.as_str()) {
                let url = find_fixes_zip(&rel.assets);
                let available = url.is_some();
                UpdateCheckResult {
                    update_available: available,
                    download_url: url,
                    new_version: Some(rel.tag_name),
                    current_version: crate::text::to_owned_string(current_version),
                }
            } else {
                UpdateCheckResult::no_update(current_version)
            }
        },
    }
}

// ---------------------------------------------------------------------------
// The issue search
// ---------------------------------------------------------------------------

/// An issue of the upstream repository, as the search API lists it.
#[derive(Debug, Clone, PartialEq, Eq)]
pub struct GitHubIssue {
    pub title: String,
    pub html_url: String,
    pub state: String,
}

/// The search API's answer.
#[derive(Debug, Clone, PartialEq, Eq)]
pub struct GitHubSearchResponse {
    pub items: Vec<GitHubIssue>,
}

/// What a search gave: the issues found, or why there are none.
#[derive(Debug, Clone, PartialEq, Eq)]
pub struct SearchResult {
    pub success: bool,
    pub issues: Vec<GitHubIssue>,
    pub error: String,
}

/// Why a search produced no answer; the text is the underlying error's message
/// (for `HttpStatus`, the status line).
#[derive(Debug, Clone, PartialEq, Eq)]
pub enum SearchFailure {
    ClientSetup(String),
    Unreachable,
    HttpStatus(String),
    BadResponse(String),
}

/// A byte that percent-encoding leaves as it is: ASCII letters and digits, '-', '.', '_', '~'.
pub open spec fn is_unreserved(b: u8) -> bool {
    (48 <= b && b <= 57) || (65 <= b && b <= 90) || (97 <= b && b <= 122) || b == 45 || b == 46
        || b == 95 || b == 126
}

/// The upper-case hexadecimal digit for `d < 16`.
pub open spec fn hex_upper(d: u8) -> char {
    if d < 10 {
        ((d + 48) as u8) as char
    } else {
        ((d + 55) as u8) as char
    }
}

/// Percent-encoding of `bytes`: unreserved bytes stay, every other byte
/// becomes '%' and its two upper-case hexadecimal digits.
pub open spec fn percent_encoded(bytes: Seq<u8>) -> Seq<char>
    decreases bytes.len(),
{
    if bytes.len() == 0 {
        seq![]
    } else {
        let b = bytes.last();
        percent_encoded(bytes.drop_last()) + if is_unreserved(b) {
            seq![b as char]
        } else {
            seq!['%', hex_upper(b / 16), hex_upper(b % 16)]
        }
    }
}

/// The search address for `query`.
pub open spec fn search_address(query: Seq<char>) -> Seq<char> {
    "https://api.github.com/search/issues?q="@ + percent_encoded(vstd::utf8::encode_utf8(query))
        + "+repo:basecamp/omarchy&per_page=3"@
}

/// `urlencoding::encode`: percent-encodes every byte of the UTF-8 form of
/// `data` except ASCII letters, digits and `-`, `.`, `_`, `~`.
#[verifier::external_body]
fn url_encode(data: &str) -> (out: String)
    ensures
        out@ == percent_encoded(vstd::utf8::encode_utf8(data@)),
{
    urlencoding::encode(data).into_owned()
}

/// The address of the search for `query` in the upstream repository, at most three results.
pub fn search_url(query: &str) -> (url: String)
    ensures
        url@ == search_address(query@),
{
    let mut url = crate::text::to_owned_string("https://api.github.com/search/issues?q=");
    let encoded = url_encode(query);
    push_str(&mut url, encoded.as_str());
    push_str(&mut url, "+repo:basecamp/omarchy&per_page=3");
    url
}

/// The message for a failed search.
pub open spec fn failure_message(f: SearchFailure) -> Seq<char> {
    match f {
        SearchFailure::ClientSetup(e) => "Failed to create HTTP client: "@ + e@,
        SearchFailure::Unreachable => "Could not reach GitHub (offline?)"@,
        SearchFailure::HttpStatus(st) => "GitHub API error: "@ + st@,
        SearchFailure::BadResponse(e) => "Failed to parse GitHub response: "@ + e@,
    }
}

fn prefixed(prefix: &str, detail: &String) -> (out: String)
    ensures
        out@ == prefix@ + detail@,
{
    let mut out = crate::text::to_owned_string(prefix);
    push_str(&mut out, detail.as_str());
    out
}

/// The search result for an answer of the search API, or for the reason there is none.
pub fn search_result(outcome: Result<GitHubSearchResponse, SearchFailure>) -> (r: SearchResult)
    ensures
        match outcome {
            Ok(resp) => r.success && r.issues@ == resp.items@ && r.error@ == Seq::<char>::empty(),
            Err(f) => !r.success && r.issues@.len() == 0 && r.error@ == failure_message(f),
        },
{
    match outcome {
        Ok(resp) => SearchResult { success: true, issues: resp.items, error: String::new() },
        Err(f) => {
            let error = match &f {
                SearchFailure::ClientSetup(e) => prefixed("Failed to create HTTP client: ", e),
                SearchFailure::Unreachable => crate::text::to_owned_string(
                    "Could not reach GitHub (offline?)",
                ),
                SearchFailure::HttpStatus(st) => prefixed("GitHub API error: ", st),
                SearchFailure::BadResponse(e) => prefixed("Failed to parse GitHub response: ", e),
            };
            SearchResult { success: false, issues: Vec::new(), error }
        },
    }
}

} // verus!
