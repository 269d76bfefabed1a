//! Recognising and converting the two remote address shapes the engine accepts:
//! `git@host:path`, `ssh://git@host/path` and `http(s)://host/path`.
use vstd::prelude::*;

verus! {

/// The transport a remote address names.
#[derive(Debug, PartialEq, Eq, Structural, Clone, Copy)]
pub enum GitUrlType {
    Ssh,
    Https,
}

/// Why an address was not accepted.
#[derive(Debug, PartialEq, Eq, Structural, Clone, Copy)]
pub enum GitUrlError {
    /// Neither an ssh nor an http(s) address.
    InvalidGitUrl,
    /// Not of the form `git@host:path` or `ssh://git@host/path`.
    InvalidSshUrl,
    /// Not of the form `http(s)://host/path`.
    InvalidHttpsUrl,
}

pub open spec fn https_prefix() -> Seq<char> {
    seq!['h', 't', 't', 'p', 's', ':', '/', '/']
}

pub open spec fn http_prefix() -> Seq<char> {
    seq!['h', 't', 't', 'p', ':', '/', '/']
}

pub open spec fn ssh_scheme_prefix() -> Seq<char> {
    seq!['s', 's', 'h', ':', '/', '/', 'g', 'i', 't', '@']
}

pub open spec fn scp_prefix() -> Seq<char> {
    seq!['g', 'i', 't', '@']
}

pub open spec fn git_suffix() -> Seq<char> {
    seq!['.', 'g', 'i', 't']
}

pub open spec fn starts_with(s: Seq<char>, p: Seq<char>) -> bool {
    p.len() <= s.len() && s.subrange(0, p.len() as int) == p
}

/// `i` is the position of the first `c` in `s`.
pub open spec fn is_first(s: Seq<char>, c: char, i: int) -> bool {
    &&& 0 <= i < s.len()
    &&& s[i] == c
    &&& forall|j: int| 0 <= j < i ==> s[j] != c
}

/// Position of the first `c` in `s`, or -1.
pub open spec fn first_index(s: Seq<char>, c: char) -> int {
    if exists|i: int| is_first(s, c, i) {
        choose|i: int| is_first(s, c, i)
    } else {
        -1
    }
}

pub open spec fn has_newline(s: Seq<char>) -> bool {
    exists|i: int| 0 <= i < s.len() && s[i] == '\n'
}

/// `host <sep> tail`, where the host is everything before the first `sep` and both
/// parts are non-empty; the tail holds no line break.
pub open spec fn host_and_tail(rest: Seq<char>, sep: char) -> Option<(Seq<char>, Seq<char>)> {
    let k = first_index(rest, sep);
    if k >= 1 && k + 1 < rest.len() && !has_newline(rest.subrange(k + 1, rest.len() as int)) {
        Some((rest.subrange(0, k), rest.subrange(k + 1, rest.len() as int)))
    } else {
        None
    }
}

/// A path with one trailing `.git` removed, as long as something is left before it.
pub open spec fn strip_git_suffix(s: Seq<char>) -> Seq<char> {
    if s.len() > 4 && s.subrange(s.len() - 4, s.len() as int) == git_suffix() {
        s.subrange(0, s.len() - 4)
    } else {
        s
    }
}

/// Host and path of an `http(s)://host/path(.git)` address.
pub open spec fn https_parts(u: Seq<char>) -> Option<(Seq<char>, Seq<char>)> {
    let rest = if starts_with(u, https_prefix()) {
        Some(u.subrange(8, u.len() as int))
    } else if starts_with(u, http_prefix()) {
        Some(u.subrange(7, u.len() as int))
    } else {
        None
    };
    match rest {
        Some(r) => match host_and_tail(r, '/') {
            Some((h, t)) => Some((h, strip_git_suffix(t))),
            None => None,
        },
        None => None,
    }
}

/// Host and path of an `ssh://git@host/path` or `git@host:path(.git)` address. In the
/// first form the path is kept whole, `.git` included.
pub open spec fn ssh_parts(u: Seq<char>) -> Option<(Seq<char>, Seq<char>)> {
    if starts_with(u, ssh_scheme_prefix()) {
        host_and_tail(u.subrange(10, u.len() as int), '/')
    } else if starts_with(u, scp_prefix()) {
        match host_and_tail(u.subrange(4, u.len() as int), ':') {
            Some((h, t)) => Some((h, strip_git_suffix(t))),
            None => None,
        }
    } else {
        None
    }
}

pub open spec fn git_url_type(u: Seq<char>) -> Option<GitUrlType> {
    if https_parts(u) is Some {
        Some(GitUrlType::Https)
    } else if ssh_parts(u) is Some {
        Some(GitUrlType::Ssh)
    } else {
        None
    }
}

pub open spec fn view_pair(r: Option<(&str, &str)>) -> Option<(Seq<char>, Seq<char>)> {
    match r {
        Some((a, b)) => Some((a@, b@)),
        None => None,
    }
}

pub open spec fn https_form(host: Seq<char>, path: Seq<char>) -> Seq<char> {
    https_prefix() + host + seq!['/'] + path + git_suffix()
}

pub open spec fn scp_form(host: Seq<char>, path: Seq<char>) -> Seq<char> {
    scp_prefix() + host + seq![':'] + path + git_suffix()
}

proof fn lemma_first_unique(s: Seq<char>, c: char, i: int)
    requires
        is_first(s, c, i),
    ensures
        first_index(s, c) == i,
{
    let k = choose|k: int| is_first(s, c, k);
    assert(is_first(s, c, k));
    if k < i {
        assert(s[k] != c);
    } else if i < k {
        assert(s[i] != c);
    }
}

proof fn lemma_first_absent(s: Seq<char>, c: char)
    requires
        forall|j: int| 0 <= j < s.len() ==> s[j] != c,
    ensures
        first_index(s, c) == -1,
{
    if exists|i: int| is_first(s, c, i) {
        let k = choose|k: int| is_first(s, c, k);
        assert(s[k] == c);
    }
}

fn has_prefix(s: &str, p: &str) -> (r: bool)
    ensures
        r == starts_with(s@, p@),
{
    let n = s.unicode_len();
    let m = p.unicode_len();
    if m > n {
        return false;
    }
    let mut i: usize = 0;
    while i < m
        invariant
            m == p@.len(),
            n == s@.len(),
            m <= n,
            i <= m,
            forall|j: int| 0 <= j < i ==> s@[j] == p@[j],
        decreases m - i,
    {
        if s.get_char(i) != p.get_char(i) {
            assert(s@.subrange(0, m as int)[i as int] != p@[i as int]);
            return false;
        }
        i = i + 1;
    }
    assert(s@.subrange(0, m as int) =~= p@);
    true
}

/// Position of the first `c` in `s`, if any.
fn find_char(s: &str, c: char) -> (r: Option<usize>)
    ensures
        match r {
            Some(i) => is_first(s@, c, i as int) && first_index(s@, c) == i as int,
            None => first_index(s@, c) == -1,
        },
{
    let n = s.unicode_len();
    let mut i: usize = 0;
    while i < n
        invariant
            n == s@.len(),
            i <= n,
            forall|j: int| 0 <= j < i ==> s@[j] != c,
        decreases n - i,
    {
        if s.get_char(i) == c {
            proof {
                lemma_first_unique(s@, c, i as int);
            }
            return Some(i);
        }
        i = i + 1;
    }
    proof {
        lemma_first_absent(s@, c);
    }
    None
}

fn contains_newline(s: &str) -> (r: bool)
    ensures
        r == has_newline(s@),
{
    let n = s.unicode_len();
    let mut i: usize = 0;
    while i < n
        invariant
            n == s@.len(),
            i <= n,
            forall|j: int| 0 <= j < i ==> s@[j] != '\n',
        decreases n - i,
    {
        if s.get_char(i) == '\n' {
            return true;
        }
        i = i + 1;
    }
    false
}

/// Splits `rest` into host and tail at the first `sep`.
fn split_host<'a>(rest: &'a str, sep: char) -> (r: Option<(&'a str, &'a str)>)
    ensures
        view_pair(r) == host_and_tail(rest@, sep),
{
    let n = rest.unicode_len();
    match find_char(rest, sep) {
        Some(k) => {
            if k >= 1 && k + 1 < n {
                let tail = rest.substring_char(k + 1, n);
                if contains_newline(tail) {
                    None
                } else {
                    Some((rest.substring_char(0, k), tail))
                }
            } else {
                None
            }
        },
        None => None,
    }
}

fn strip_git<'a>(s: &'a str) -> (r: &'a str)
    ensures
        r@ == strip_git_suffix(s@),
{
    let n = s.unicode_len();
    if n > 4 {
        let last = s.substring_char(n - 4, n);
        proof {
            reveal_strlit(".git");
        }
        if has_prefix(last, ".git") {
            assert(last@.subrange(0, 4) =~= last@);
            assert(".git"@ =~= git_suffix());
            return s.substring_char(0, n - 4);
        }
        assert(".git"@ =~= git_suffix());
        assert(last@.subrange(0, 4) =~= last@);
    }
    s
}

fn https_captures<'a>(url: &'a str) -> (r: Option<(&'a str, &'a str)>)
    ensures
        view_pair(r) == https_parts(url@),
{
    let n = url.unicode_len();
    proof {
        reveal_strlit("https://");
        reveal_strlit("http://");
    }
    let rest = if has_prefix(url, "https://") {
        assert("https://"@ =~= https_prefix());
        url.substring_char(8, n)
    } else if has_prefix(url, "http://") {
        assert("https://"@ =~= https_prefix());
        assert("http://"@ =~= http_prefix());
        url.substring_char(7, n)
    } else {
        assert("https://"@ =~= https_prefix());
        assert("http://"@ =~= http_prefix());
        return None;
    };
    match split_host(rest, '/') {
        Some((host, tail)) => Some((host, strip_git(tail))),
        None => None,
    }
}

fn ssh_captures<'a>(url: &'a str) -> (r: Option<(&'a str, &'a str)>)
    ensures
        view_pair(r) == ssh_parts(url@),
{
    let n = url.unicode_len();
    proof {
        reveal_strlit("ssh://git@");
        reveal_strlit("git@");
    }
    if has_prefix(url, "ssh://git@") {
        assert("ssh://git@"@ =~= ssh_scheme_prefix());
        split_host(url.substring_char(10, n), '/')
    } else if has_prefix(url, "git@") {
        assert("ssh://git@"@ =~= ssh_scheme_prefix());
        assert("git@"@ =~= scp_prefix());
        match split_host(url.substring_char(4, n), ':') {
            Some((host, tail)) => Some((host, strip_git(tail))),
            None => None,
        }
    } else {
        assert("ssh://git@"@ =~= ssh_scheme_prefix());
        assert("git@"@ =~= scp_prefix());
        None
    }
}

/// Tells an http(s) address from an ssh one; an address of neither shape is refused.
pub fn parse_git_url(url: &str) -> (r: Result<GitUrlType, GitUrlError>)
    ensures
        match git_url_type(url@) {
            Some(t) => r == Ok::<GitUrlType, GitUrlError>(t),
            None => r == Err::<GitUrlType, GitUrlError>(GitUrlError::InvalidGitUrl),
        },
{
    if https_captures(url).is_some() {
        Ok(GitUrlType::Https)
    } else if ssh_captures(url).is_some() {
        Ok(GitUrlType::Ssh)
    } else {
        Err(GitUrlError::InvalidGitUrl)
    }
}

/// `git@host:path` or `ssh://git@host/path` becomes `https://host/path.git`.
pub fn convert_ssh_to_https(url: &str) -> (r: Result<String, GitUrlError>)
    ensures
        match ssh_parts(url@) {
            Some((h, p)) => r is Ok && r->Ok_0@ == https_form(h, p),
            None => r == Err::<String, GitUrlError>(GitUrlError::InvalidSshUrl),
        },
{
    match ssh_captures(url) {
        Some((host, path)) => {
            let mut out = String::from_str("https://");
            out.append(host);
            out.append("/");
            out.append(path);
            out.append(".git");
            proof {
                reveal_strlit("https://");
                reveal_strlit("/");
                reveal_strlit(".git");
                assert(out@ =~= https_form(host@, path@));
            }
            Ok(out)
        },
        None => Err(GitUrlError::InvalidSshUrl),
    }
}

/// `http(s)://host/path` becomes `git@host:path.git`.
pub fn convert_https_to_ssh(url: &str) -> (r: Result<String, GitUrlError>)
    ensures
        match https_parts(url@) {
            Some((h, p)) => r is Ok && r->Ok_0@ == scp_form(h, p),
            None => r == Err::<String, GitUrlError>(GitUrlError::InvalidHttpsUrl),
        },
{
    match https_captures(url) {
        Some((host, path)) => {
            let mut out = String::from_str("git@");
            out.append(host);
            out.append(":");
            out.append(path);
            out.append(".git");
            proof {
                reveal_strlit("git@");
                reveal_strlit(":");
                reveal_strlit(".git");
                assert(out@ =~= scp_form(host@, path@));
            }
            Ok(out)
        },
        None => Err(GitUrlError::InvalidHttpsUrl),
    }
}

} // verus!
