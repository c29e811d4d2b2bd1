//! Naming the saved file after the last segment of the final URL's path.

use vstd::prelude::*;

verus! {

/// The path that `url::Url::parse` followed by `Url::path` gives for a URL
/// text, or none where the text does not parse. URL parsing is the `url`
/// crate's own algorithm; it is named here, not restated.
pub uninterp spec fn url_path_of(url: Seq<char>) -> Option<Seq<char>>;

/// The text that `url::ParseError`'s `Display` gives for the error that
/// `Url::parse` reports on a URL text that does not parse.
pub uninterp spec fn url_parse_error_of(url: Seq<char>) -> Seq<char>;

/// Calls `reqwest::Url::parse` (the `url` crate's `Url::parse`); on success
/// it hands back the URL's `path()`, on failure the error's `to_string()`.
/// Both are named above; nothing else is claimed of them.
#[verifier::external_body]
fn parse_url_path(url: &str) -> (r: Result<String, String>)
    ensures
        match r {
            Ok(path) => url_path_of(url@) == Some(path@),
            Err(message) => url_path_of(url@) is None && message@ == url_parse_error_of(url@),
        },
{
    match reqwest::Url::parse(url) {
        Ok(parsed) => Ok(parsed.path().to_string()),
        Err(e) => Err(e.to_string()),
    }
}

/// The index of the last `/` in a text, or -1 where it has none.
pub open spec fn last_slash(p: Seq<char>) -> int
    decreases p.len(),
{
    if p.len() == 0 {
        -1
    } else if p.last() == '/' {
        p.len() - 1
    } else {
        last_slash(p.drop_last())
    }
}

/// The last `/`-separated segment of a path.
pub open spec fn last_segment(p: Seq<char>) -> Seq<char> {
    p.subrange(last_slash(p) + 1, p.len() as int)
}

/// The file name for a URL path, as `Url::path_segments().last()` filtered
/// for a non-empty segment gives it: the segments exist only for a path
/// that starts with `/`; the name falls back to `download`.
pub open spec fn file_name_for_path(p: Seq<char>) -> Seq<char> {
    if p.len() > 0 && p[0] == '/' && last_segment(p).len() > 0 {
        last_segment(p)
    } else {
        "download"@
    }
}

/// The file name for a URL text, or the parse error where it has none.
pub open spec fn file_name_for_url(url: Seq<char>) -> Result<Seq<char>, Seq<char>> {
    match url_path_of(url) {
        Some(p) => Ok(file_name_for_path(p)),
        None => Err(url_parse_error_of(url)),
    }
}

proof fn lemma_last_slash_bounds(p: Seq<char>)
    ensures
        -1 <= last_slash(p) < p.len(),
        last_slash(p) >= 0 ==> p[last_slash(p)] == '/',
        forall|j: int| last_slash(p) < j < p.len() ==> p[j] != '/',
    decreases p.len(),
{
    if p.len() > 0 && p.last() != '/' {
        lemma_last_slash_bounds(p.drop_last());
        assert forall|j: int| last_slash(p) < j < p.len() implies p[j] != '/' by {
            if j < p.len() - 1 {
                assert(p.drop_last()[j] == p[j]);
            }
        }
    }
}

proof fn lemma_last_slash_of_prefix(p: Seq<char>, k: int)
    requires
        0 <= k <= p.len(),
        forall|j: int| k <= j < p.len() ==> p[j] != '/',
    ensures
        last_slash(p) == last_slash(p.subrange(0, k)),
    decreases p.len() - k,
{
    if k < p.len() {
        assert(p.drop_last().subrange(0, k) =~= p.subrange(0, k));
        lemma_last_slash_of_prefix(p.drop_last(), k);
    } else {
        assert(p.subrange(0, k) =~= p);
    }
}

/// Law: a file name taken from a URL path is never empty and never holds a
/// `/`, so joining it onto the save directory stays inside it.
pub proof fn lemma_file_name_is_plain(p: Seq<char>)
    ensures
        file_name_for_path(p).len() > 0,
        forall|j: int|
            0 <= j < file_name_for_path(p).len() ==> #[trigger] file_name_for_path(p)[j] != '/',
{
    reveal_strlit("download");
    lemma_last_slash_bounds(p);
    let s = last_segment(p);
    assert forall|j: int| 0 <= j < s.len() implies s[j] != '/' by {
        assert(s[j] == p[last_slash(p) + 1 + j]);
    }
}

/// Law: for a path that starts with `/` and does not end with `/`, the file
/// name is the whole last segment: the path is some prefix, a `/`, and the
/// name, and the name holds no `/`.
pub proof fn lemma_file_name_is_whole_last_segment(p: Seq<char>)
    requires
        p.len() > 0,
        p[0] == '/',
        p.last() != '/',
    ensures
        file_name_for_path(p).len() < p.len(),
        p == p.subrange(0, p.len() - file_name_for_path(p).len() - 1) + seq!['/']
            + file_name_for_path(p),
        forall|j: int|
            0 <= j < file_name_for_path(p).len() ==> #[trigger] file_name_for_path(p)[j] != '/',
{
    lemma_last_slash_bounds(p);
    lemma_file_name_is_plain(p);
    let k = last_slash(p);
    assert(k >= 0);
    assert(k < p.len() - 1);
    let name = file_name_for_path(p);
    assert(name == p.subrange(k + 1, p.len() as int));
    assert(p =~= p.subrange(0, k) + seq!['/'] + name);
}

/// Law: a path that is empty, does not start with `/`, or ends with `/`
/// names no file, and the download is saved as `download`.
pub proof fn lemma_file_name_falls_back(p: Seq<char>)
    requires
        p.len() == 0 || p[0] != '/' || p.last() == '/',
    ensures
        file_name_for_path(p) == "download"@,
{
    if p.len() > 0 && p[0] == '/' && p.last() == '/' {
        assert(last_slash(p) == p.len() - 1);
        assert(last_segment(p).len() == 0);
    }
}

/// The name under which a file fetched from the URL path `path` is saved.
pub fn file_name_from_path(path: &str) -> (r: String)
    ensures
        r@ == file_name_for_path(path@),
{
    let n = path.unicode_len();
    if n == 0 || path.get_char(0) != '/' {
        return String::from_str("download");
    }
    let mut k: usize = n;
    while k > 0 && path.get_char(k - 1) != '/'
        invariant
            n == path@.len(),
            k <= n,
            forall|j: int| k <= j < n ==> path@[j] != '/',
        decreases k,
    {
        k = k - 1;
    }
    proof {
        lemma_last_slash_of_prefix(path@, k as int);
        if k > 0 {
            assert(path@.subrange(0, k as int).last() == '/');
        } else {
            assert(path@.subrange(0, 0).len() == 0);
        }
    }
    if k == n {
        return String::from_str("download");
    }
    let segment = path.substring_char(k, n);
    String::from_str(segment)
}

/// Parses the final URL of a download and names the file it is saved as.
pub fn file_name_from_url(url: &str) -> (r: Result<String, String>)
    ensures
        match r {
            Ok(name) => file_name_for_url(url@) == Ok::<Seq<char>, Seq<char>>(name@),
            Err(message) => file_name_for_url(url@) == Err::<Seq<char>, Seq<char>>(message@),
        },
{
    match parse_url_path(url) {
        Ok(path) => Ok(file_name_from_path(path.as_str())),
        Err(message) => Err(message),
    }
}

} // verus!
