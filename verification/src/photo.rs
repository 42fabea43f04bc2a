use vstd::prelude::*;

use crate::text::str_eq;

verus! {

/// A successfully fetched photo: the display URL taken from the response.
#[derive(Debug)]
pub struct PhotoResult {
    pub url: String,
}

/// The single failure a photo lookup reports, with a readable cause.
#[derive(Debug)]
pub struct FetchError {
    pub cause: String,
}

/// The cause reported when the service answers with a failure status.
pub open spec fn bad_status_cause() -> Seq<char> {
    "the photo service returned a failure status"@
}

/// The cause reported when the response body holds no usable photo URL.
pub open spec fn bad_body_cause() -> Seq<char> {
    "the photo service returned an unusable body"@
}

/// A successful HTTP status.
pub open spec fn status_ok(status: u16) -> bool {
    200 <= status < 300
}

/// JSON insignificant whitespace.
pub open spec fn is_json_ws(c: char) -> bool {
    c == ' ' || c == '\t' || c == '\n' || c == '\r'
}

/// The first position at or after `i` holding a non-whitespace character.
pub open spec fn skip_ws_at(s: Seq<char>, i: int) -> int
    decreases s.len() - i,
{
    if 0 <= i < s.len() && is_json_ws(s[i]) {
        skip_ws_at(s, i + 1)
    } else {
        i
    }
}

/// The position of the closing quote of a string whose contents start at
/// `i`; `esc` records whether the previous character was a backslash.
pub open spec fn string_end_from(s: Seq<char>, i: int, esc: bool) -> Option<int>
    decreases s.len() - i,
{
    if !(0 <= i < s.len()) {
        None
    } else if esc {
        string_end_from(s, i + 1, false)
    } else if s[i] == '\\' {
        string_end_from(s, i + 1, true)
    } else if s[i] == '"' {
        Some(i)
    } else {
        string_end_from(s, i + 1, false)
    }
}

/// The position just past the end of a bracketed value whose opening
/// bracket stood before `i`. `stack` holds the closing brackets still owed,
/// innermost last: every closing bracket must match its opener by kind, and
/// bracket characters inside strings are ignored.
pub open spec fn composite_end_from(
    s: Seq<char>,
    i: int,
    stack: Seq<char>,
    in_str: bool,
    esc: bool,
) -> Option<int>
    decreases s.len() - i,
{
    if !(0 <= i < s.len()) {
        None
    } else if in_str {
        if esc {
            composite_end_from(s, i + 1, stack, true, false)
        } else if s[i] == '\\' {
            composite_end_from(s, i + 1, stack, true, true)
        } else if s[i] == '"' {
            composite_end_from(s, i + 1, stack, false, false)
        } else {
            composite_end_from(s, i + 1, stack, true, false)
        }
    } else if s[i] == '"' {
        composite_end_from(s, i + 1, stack, true, false)
    } else if s[i] == '{' {
        composite_end_from(s, i + 1, stack.push('}'), false, false)
    } else if s[i] == '[' {
        composite_end_from(s, i + 1, stack.push(']'), false, false)
    } else if s[i] == '}' || s[i] == ']' {
        if stack.len() >= 1 && stack.last() == s[i] {
            if stack.len() == 1 {
                Some(i + 1)
            } else {
                composite_end_from(s, i + 1, stack.drop_last(), false, false)
            }
        } else {
            None
        }
    } else {
        composite_end_from(s, i + 1, stack, false, false)
    }
}

/// The position just past an unquoted scalar value starting at `i`.
pub open spec fn scalar_end_from(s: Seq<char>, i: int) -> int
    decreases s.len() - i,
{
    if 0 <= i < s.len() && !(s[i] == ',' || s[i] == '}' || s[i] == ']' || is_json_ws(s[i])) {
        scalar_end_from(s, i + 1)
    } else {
        i
    }
}

/// The position just past the JSON value starting at `i`.
pub open spec fn value_end_from(s: Seq<char>, i: int) -> Option<int> {
    if !(0 <= i < s.len()) {
        None
    } else if s[i] == '"' {
        match string_end_from(s, i + 1, false) {
            Some(j) => Some(j + 1),
            None => None,
        }
    } else if s[i] == '{' {
        composite_end_from(s, i + 1, seq!['}'], false, false)
    } else if s[i] == '[' {
        composite_end_from(s, i + 1, seq![']'], false, false)
    } else {
        Some(scalar_end_from(s, i))
    }
}

/// Scans the members of an object from `i` (just inside its braces) to its
/// closing brace: every member must be a `"name": value` pair, pairs are
/// separated by single commas, and the object must close. Yields the
/// position of the value bound to the first member named `key` (or what
/// `acc` already holds), and the position just past the closing brace.
/// `first` is true only before the first member, where an empty object may
/// close at once.
pub open spec fn member_scan(
    s: Seq<char>,
    i: int,
    key: Seq<char>,
    first: bool,
    acc: Option<int>,
) -> Option<(Option<int>, int)>
    decreases s.len() - i,
{
    let j = skip_ws_at(s, i);
    if !(0 <= j < s.len()) {
        None
    } else if s[j] == '}' && first {
        Some((acc, j + 1))
    } else if s[j] != '"' {
        None
    } else {
        match string_end_from(s, j + 1, false) {
            None => None,
            Some(k_end) => {
                let c = skip_ws_at(s, k_end + 1);
                if !(0 <= c < s.len() && s[c] == ':') {
                    None
                } else {
                    let v = skip_ws_at(s, c + 1);
                    let acc2 = if acc is Some {
                        acc
                    } else if s.subrange(j + 1, k_end) == key {
                        Some(v)
                    } else {
                        None
                    };
                    match value_end_from(s, v) {
                        None => None,
                        Some(e) => {
                            let t = skip_ws_at(s, e);
                            if !(0 <= t < s.len()) {
                                None
                            } else if s[t] == ',' && t + 1 > i {
                                member_scan(s, t + 1, key, false, acc2)
                            } else if s[t] == '}' {
                                Some((acc2, t + 1))
                            } else {
                                None
                            }
                        },
                    }
                }
            },
        }
    }
}

/// The photo URL a response body yields: the body must be one well-formed
/// top-level object followed by nothing but whitespace, binding `urls` to a
/// well-formed object that binds `regular` to a string. Both objects must
/// close, and every skipped bracket must match its opener by kind. The URL
/// is the raw span between its quotes, escape sequences kept as written.
pub open spec fn photo_url_of(s: Seq<char>) -> Option<Seq<char>> {
    let t0 = skip_ws_at(s, 0);
    if !(0 <= t0 < s.len() && s[t0] == '{') {
        None
    } else {
        match member_scan(s, t0 + 1, "urls"@, true, None) {
            None => None,
            Some((found, end_outer)) => {
                if skip_ws_at(s, end_outer) != s.len() {
                    None
                } else {
                    match found {
                        None => None,
                        Some(v1) => {
                            if !(0 <= v1 < s.len() && s[v1] == '{') {
                                None
                            } else {
                                match member_scan(s, v1 + 1, "regular"@, true, None) {
                                    None => None,
                                    Some((found2, end_inner)) => {
                                        match found2 {
                                            None => None,
                                            Some(v2) => {
                                                if !(0 <= v2 < s.len() && s[v2] == '"') {
                                                    None
                                                } else {
                                                    match string_end_from(s, v2 + 1, false) {
                                                        None => None,
                                                        Some(j) => Some(s.subrange(v2 + 1, j)),
                                                    }
                                                }
                                            },
                                        }
                                    },
                                }
                            }
                        },
                    }
                }
            },
        }
    }
}

/// The response body shape the photo service documents: one object binding
/// `urls` to an object that binds `regular` to the URL string.
pub open spec fn canonical_photo_body(url: Seq<char>) -> Seq<char> {
    seq![
        '{',
        '"',
        'u',
        'r',
        'l',
        's',
        '"',
        ':',
        '{',
        '"',
        'r',
        'e',
        'g',
        'u',
        'l',
        'a',
        'r',
        '"',
        ':',
        '"',
    ] + url + seq!['"', '}', '}']
}

/// Scanning string contents free of quotes and backslashes ends at the
/// first quote.
proof fn lemma_string_end_clean(s: Seq<char>, i: int, end: int)
    requires
        0 <= i <= end < s.len(),
        s[end] == '"',
        forall|j: int| i <= j < end ==> s[j] != '"' && s[j] != '\\',
    ensures
        string_end_from(s, i, false) == Some(end),
    decreases end - i,
{
    if i < end {
        lemma_string_end_clean(s, i + 1, end);
    }
}

/// Skipping string contents free of quotes and backslashes leaves the
/// bracket scan just past the closing quote, with its stack unchanged.
proof fn lemma_composite_string_clean(s: Seq<char>, i: int, end: int, stack: Seq<char>)
    requires
        0 <= i <= end < s.len(),
        s[end] == '"',
        forall|j: int| i <= j < end ==> s[j] != '"' && s[j] != '\\',
    ensures
        composite_end_from(s, i, stack, true, false) == composite_end_from(
            s,
            end + 1,
            stack,
            false,
            false,
        ),
    decreases end - i,
{
    if i < end {
        lemma_composite_string_clean(s, i + 1, end, stack);
    }
}

/// Law: every body of the documented shape yields its URL, whatever the
/// URL is, as long as it holds no quote and no backslash.
#[verifier::rlimit(100)]
pub proof fn lemma_canonical_body_extracts(url: Seq<char>)
    requires
        forall|i: int| 0 <= i < url.len() ==> url[i] != '"' && url[i] != '\\',
    ensures
        photo_url_of(canonical_photo_body(url)) == Some(url),
{
    reveal_strlit("urls");
    reveal_strlit("regular");
    let s = canonical_photo_body(url);
    let n = s.len() as int;
    assert(n == 23 + url.len());
    assert(forall|m: int| 0 <= m < url.len() ==> s[20 + m] == url[m]);
    assert(s[n - 3] == '"' && s[n - 2] == '}' && s[n - 1] == '}');
    assert(skip_ws_at(s, 0) == 0);
    assert(s[0] == '{');
    // The outer object holds the single member `urls`.
    assert(skip_ws_at(s, 1) == 1);
    assert(s[1] == '"');
    assert(string_end_from(s, 2, false) == Some(6int)) by {
        lemma_string_end_clean(s, 2, 6);
    }
    assert(skip_ws_at(s, 7) == 7);
    assert(s[7] == ':');
    assert(skip_ws_at(s, 8) == 8);
    assert(s.subrange(2, 6) =~= "urls"@);
    // Skipping the inner object from its opening brace lands just before
    // the outer closing brace.
    assert(s[8] == '{');
    assert(composite_end_from(s, 10, seq!['}'], true, false) == composite_end_from(
        s,
        18,
        seq!['}'],
        false,
        false,
    )) by {
        lemma_composite_string_clean(s, 10, 17, seq!['}']);
    }
    assert(composite_end_from(s, 20, seq!['}'], true, false) == composite_end_from(
        s,
        n - 2,
        seq!['}'],
        false,
        false,
    )) by {
        lemma_composite_string_clean(s, 20, n - 3, seq!['}']);
    }
    assert(composite_end_from(s, 9, seq!['}'], false, false) == composite_end_from(
        s,
        10,
        seq!['}'],
        true,
        false,
    ));
    assert(composite_end_from(s, 18, seq!['}'], false, false) == composite_end_from(
        s,
        19,
        seq!['}'],
        false,
        false,
    ));
    assert(composite_end_from(s, 19, seq!['}'], false, false) == composite_end_from(
        s,
        20,
        seq!['}'],
        true,
        false,
    ));
    assert(composite_end_from(s, n - 2, seq!['}'], false, false) == Some(n - 1));
    assert(value_end_from(s, 8) == Some(n - 1));
    assert(skip_ws_at(s, n - 1) == n - 1);
    assert(member_scan(s, 1, "urls"@, true, None) == Some((Some(8int), n)));
    assert(skip_ws_at(s, n) == n);
    // The inner object holds the single member `regular`, bound to the URL.
    assert(skip_ws_at(s, 9) == 9);
    assert(s[9] == '"');
    assert(string_end_from(s, 10, false) == Some(17int)) by {
        lemma_string_end_clean(s, 10, 17);
    }
    assert(skip_ws_at(s, 18) == 18);
    assert(s[18] == ':');
    assert(skip_ws_at(s, 19) == 19);
    assert(s.subrange(10, 17) =~= "regular"@);
    assert(s[19] == '"');
    assert(string_end_from(s, 20, false) == Some(n - 3)) by {
        lemma_string_end_clean(s, 20, n - 3);
    }
    assert(value_end_from(s, 19) == Some(n - 2));
    assert(skip_ws_at(s, n - 2) == n - 2);
    assert(member_scan(s, 9, "regular"@, true, None) == Some((Some(19int), n - 1)));
    assert(s.subrange(20, n - 3) =~= url);
}

/// Walks past whitespace starting at `i`.
fn skip_ws(s: &str, i: usize, n: usize) -> (r: usize)
    requires
        n == s@.len(),
        i <= n,
    ensures
        r == skip_ws_at(s@, i as int),
        i <= r <= n,
{
    let mut j = i;
    loop
        invariant
            n == s@.len(),
            i <= j <= n,
            skip_ws_at(s@, i as int) == skip_ws_at(s@, j as int),
        ensures
            j == skip_ws_at(s@, i as int),
            i <= j <= n,
        decreases n - j,
    {
        if j >= n {
            break ;
        }
        let c = s.get_char(j);
        if !(c == ' ' || c == '\t' || c == '\n' || c == '\r') {
            break ;
        }
        j = j + 1;
    }
    j
}

/// Finds the closing quote of the string contents starting at `i`.
fn string_end(s: &str, i: usize, n: usize) -> (r: Option<usize>)
    requires
        n == s@.len(),
        i <= n,
    ensures
        r is Some <==> string_end_from(s@, i as int, false) is Some,
        r is Some ==> r->Some_0 == string_end_from(s@, i as int, false)->Some_0 && i
            <= r->Some_0 < n,
{
    let mut j = i;
    let mut esc = false;
    loop
        invariant
            n == s@.len(),
            i <= j <= n,
            string_end_from(s@, i as int, false) == string_end_from(s@, j as int, esc),
        decreases n - j,
    {
        if j >= n {
            return None;
        }
        let c = s.get_char(j);
        if esc {
            esc = false;
            j = j + 1;
        } else if c == '\\' {
            esc = true;
            j = j + 1;
        } else if c == '"' {
            return Some(j);
        } else {
            j = j + 1;
        }
    }
}

/// Finds the end of a bracketed value entered just before `i`; `closer` is
/// the closing bracket that ends it.
fn composite_end(s: &str, i: usize, n: usize, closer: char) -> (r: Option<usize>)
    requires
        n == s@.len(),
        i <= n,
    ensures
        r is Some <==> composite_end_from(s@, i as int, seq![closer], false, false) is Some,
        r is Some ==> r->Some_0 == composite_end_from(
            s@,
            i as int,
            seq![closer],
            false,
            false,
        )->Some_0 && i <= r->Some_0 <= n,
{
    let mut j = i;
    let mut stack: Vec<char> = Vec::new();
    stack.push(closer);
    let mut in_str = false;
    let mut esc = false;
    proof {
        assert(stack@ =~= seq![closer]);
    }
    loop
        invariant
            n == s@.len(),
            i <= j <= n,
            1 <= stack@.len(),
            in_str || !esc,
            composite_end_from(s@, i as int, seq![closer], false, false) == composite_end_from(
                s@,
                j as int,
                stack@,
                in_str,
                esc,
            ),
        decreases n - j,
    {
        if j >= n {
            return None;
        }
        let c = s.get_char(j);
        if in_str {
            if esc {
                esc = false;
            } else if c == '\\' {
                esc = true;
            } else if c == '"' {
                in_str = false;
            }
            j = j + 1;
        } else if c == '"' {
            in_str = true;
            esc = false;
            j = j + 1;
        } else if c == '{' {
            stack.push('}');
            j = j + 1;
        } else if c == '[' {
            stack.push(']');
            j = j + 1;
        } else if c == '}' || c == ']' {
            if stack[stack.len() - 1] != c {
                return None;
            }
            if stack.len() == 1 {
                return Some(j + 1);
            }
            stack.pop();
            j = j + 1;
        } else {
            j = j + 1;
        }
    }
}

/// Finds the end of an unquoted scalar starting at `i`.
fn scalar_end(s: &str, i: usize, n: usize) -> (r: usize)
    requires
        n == s@.len(),
        i <= n,
    ensures
        r == scalar_end_from(s@, i as int),
        i <= r <= n,
{
    let mut j = i;
    loop
        invariant
            n == s@.len(),
            i <= j <= n,
            scalar_end_from(s@, i as int) == scalar_end_from(s@, j as int),
        ensures
            j == scalar_end_from(s@, i as int),
            i <= j <= n,
        decreases n - j,
    {
        if j >= n {
            break ;
        }
        let c = s.get_char(j);
        if c == ',' || c == '}' || c == ']' || c == ' ' || c == '\t' || c == '\n' || c == '\r' {
            break ;
        }
        j = j + 1;
    }
    j
}

/// Finds the end of the JSON value starting at `i`.
fn value_end(s: &str, i: usize, n: usize) -> (r: Option<usize>)
    requires
        n == s@.len(),
        i <= n,
    ensures
        r is Some <==> value_end_from(s@, i as int) is Some,
        r is Some ==> r->Some_0 == value_end_from(s@, i as int)->Some_0 && i <= r->Some_0 <= n,
{
    if i >= n {
        return None;
    }
    let c = s.get_char(i);
    if c == '"' {
        match string_end(s, i + 1, n) {
            Some(j) => Some(j + 1),
            None => None,
        }
    } else if c == '{' {
        composite_end(s, i + 1, n, '}')
    } else if c == '[' {
        composite_end(s, i + 1, n, ']')
    } else {
        Some(scalar_end(s, i, n))
    }
}

/// Scans the members of an object from `i` to its closing brace, looking
/// for the value bound to `key`.
fn member_find(s: &str, i: usize, n: usize, key: &str) -> (r: Option<(Option<usize>, usize)>)
    requires
        n == s@.len(),
        i <= n,
    ensures
        r is Some <==> member_scan(s@, i as int, key@, true, None) is Some,
        r is Some ==> member_scan(s@, i as int, key@, true, None) == Some(
            (
                match r->Some_0.0 {
                    Some(v) => Some(v as int),
                    None => None,
                },
                r->Some_0.1 as int,
            ),
        ) && r->Some_0.1 <= n && (r->Some_0.0 is Some ==> r->Some_0.0->Some_0 < n),
{
    let mut cur = i;
    let mut first = true;
    let mut acc: Option<usize> = None;
    loop
        invariant
            n == s@.len(),
            i <= cur <= n,
            acc is Some ==> acc->Some_0 < n,
            member_scan(s@, i as int, key@, true, None) == member_scan(
                s@,
                cur as int,
                key@,
                first,
                match acc {
                    Some(v) => Some(v as int),
                    None => None,
                },
            ),
        decreases n - cur,
    {
        let j = skip_ws(s, cur, n);
        if j >= n {
            return None;
        }
        let cj = s.get_char(j);
        if cj == '}' && first {
            return Some((acc, j + 1));
        }
        if cj != '"' {
            return None;
        }
        let k_end = match string_end(s, j + 1, n) {
            Some(k) => k,
            None => {
                return None;
            },
        };
        let c = skip_ws(s, k_end + 1, n);
        if c >= n {
            return None;
        }
        if s.get_char(c) != ':' {
            return None;
        }
        let v = skip_ws(s, c + 1, n);
        if acc.is_none() && str_eq(s.substring_char(j + 1, k_end), key) {
            if v < n {
                acc = Some(v);
            } else {
                // The value position is at the end of the body: no value
                // can start there, so the scan fails below.
                acc = None;
            }
        }
        let ghost acc_spec: Option<int> = match acc {
            Some(av) => Some(av as int),
            None => None,
        };
        let e = match value_end(s, v, n) {
            Some(e) => e,
            None => {
                return None;
            },
        };
        let t = skip_ws(s, e, n);
        if t >= n {
            return None;
        }
        let ct = s.get_char(t);
        if ct == ',' {
            proof {
                assert(member_scan(s@, cur as int, key@, first, match acc {
                    Some(av) => Some(av as int),
                    None => None,
                }) == member_scan(s@, t as int + 1, key@, false, acc_spec));
            }
            cur = t + 1;
            first = false;
        } else if ct == '}' {
            return Some((acc, t + 1));
        } else {
            return None;
        }
    }
}

/// The failure reported for a failure status.
fn bad_status_error() -> (r: FetchError)
    ensures
        r.cause@ == bad_status_cause(),
{
    FetchError { cause: String::from_str("the photo service returned a failure status") }
}

/// The failure reported for a body without a usable photo URL.
fn bad_body_error() -> (r: FetchError)
    ensures
        r.cause@ == bad_body_cause(),
{
    FetchError { cause: String::from_str("the photo service returned an unusable body") }
}

/// Extracts the display URL from one photo-service response.
///
/// Succeeds exactly when the status reports success and the body is one
/// well-formed object, closed and followed only by whitespace, that binds
/// `urls` to an object binding `regular` to a string; every failure
/// carries one of the two causes. The URL is returned verbatim, escape
/// sequences kept as written.
pub fn extract_photo_url(status: u16, body: &str) -> (r: Result<PhotoResult, FetchError>)
    ensures
        r is Ok <==> status_ok(status) && photo_url_of(body@) is Some,
        r is Ok ==> r->Ok_0.url@ == photo_url_of(body@)->Some_0,
        r is Err ==> r->Err_0.cause@ == if !status_ok(status) {
            bad_status_cause()
        } else {
            bad_body_cause()
        },
{
    if !(200 <= status && status < 300) {
        return Err(bad_status_error());
    }
    let n = body.unicode_len();
    let t0 = skip_ws(body, 0, n);
    if t0 >= n || body.get_char(t0) != '{' {
        return Err(bad_body_error());
    }
    let (found, end_outer) = match member_find(body, t0 + 1, n, "urls") {
        Some(pair) => pair,
        None => {
            return Err(bad_body_error());
        },
    };
    if skip_ws(body, end_outer, n) != n {
        return Err(bad_body_error());
    }
    let v1 = match found {
        Some(v) => v,
        None => {
            return Err(bad_body_error());
        },
    };
    if body.get_char(v1) != '{' {
        return Err(bad_body_error());
    }
    let (found2, _end_inner) = match member_find(body, v1 + 1, n, "regular") {
        Some(pair) => pair,
        None => {
            return Err(bad_body_error());
        },
    };
    let v2 = match found2 {
        Some(v) => v,
        None => {
            return Err(bad_body_error());
        },
    };
    if body.get_char(v2) != '"' {
        return Err(bad_body_error());
    }
    let j = match string_end(body, v2 + 1, n) {
        Some(j) => j,
        None => {
            return Err(bad_body_error());
        },
    };
    let url = String::from_str(body.substring_char(v2 + 1, j));
    Ok(PhotoResult { url })
}

} // verus!
