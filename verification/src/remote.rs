//! Normalization of a repository remote URL to a public web URL, and
//! assembly of the version-control provenance entry.
//!
//! Two shapes are recognized, whole-string. An HTTP(S)-style remote
//! `http[s]://host/repo.git` and an SSH-style remote `[user@]host:repo.git`
//! both normalize to `https://host/repo`. A string beginning with an
//! HTTP(S) scheme is only ever read as the first shape.

use vstd::prelude::*;

use crate::ConvertError;
use crate::model::ArtifactRef;
use crate::model::VcsDetails;
use crate::text::chars_to_string;
use crate::text::str_chars;

verus! {

/// The index of the first occurrence of `c` in `s`, or `-1` when `c`
/// does not occur.
pub open spec fn first_index_of(s: Seq<char>, c: char) -> int
    decreases s.len(),
{
    if s.len() == 0 {
        -1
    } else if s[0] == c {
        0
    } else {
        let r = first_index_of(s.skip(1), c);
        if r < 0 {
            -1
        } else {
            r + 1
        }
    }
}

/// `first_index_of` returns `-1` exactly when the character is absent,
/// and otherwise the least index holding it.
pub proof fn lemma_first_index_of(s: Seq<char>, c: char)
    ensures
        first_index_of(s, c) == -1 ==> forall|t: int| 0 <= t < s.len() ==> s[t] != c,
        first_index_of(s, c) >= 0 ==> {
            let r = first_index_of(s, c);
            &&& r < s.len()
            &&& s[r] == c
            &&& forall|t: int| 0 <= t < r ==> s[t] != c
        },
    decreases s.len(),
{
    if s.len() == 0 {
    } else if s[0] == c {
    } else {
        lemma_first_index_of(s.skip(1), c);
        let r1 = first_index_of(s.skip(1), c);
        if r1 >= 0 {
            assert(s[r1 + 1] == s.skip(1)[r1]);
            assert forall|t: int| 0 <= t < r1 + 1 implies s[t] != c by {
                if t >= 1 {
                    assert(s[t] == s.skip(1)[t - 1]);
                }
            }
        } else {
            assert forall|t: int| 0 <= t < s.len() implies s[t] != c by {
                if t >= 1 {
                    assert(s[t] == s.skip(1)[t - 1]);
                }
            }
        }
    }
}

/// A position holding `c` with none before it is the first index of `c`.
pub proof fn lemma_first_index_unique(s: Seq<char>, c: char, i: int)
    requires
        0 <= i < s.len(),
        s[i] == c,
        forall|t: int| 0 <= t < i ==> s[t] != c,
    ensures
        first_index_of(s, c) == i,
{
    lemma_first_index_of(s, c);
    let r = first_index_of(s, c);
    if r == -1 {
        assert(s[i] != c);
    } else if r < i {
        assert(s[r] != c);
    } else if r > i {
        assert(s[i] != c);
    }
}

/// When `c` occurs nowhere in `s`, the first index is `-1`.
pub proof fn lemma_first_index_absent(s: Seq<char>, c: char)
    requires
        forall|t: int| 0 <= t < s.len() ==> s[t] != c,
    ensures
        first_index_of(s, c) == -1,
{
    lemma_first_index_of(s, c);
    let r = first_index_of(s, c);
    if r >= 0 {
        assert(s[r] != c);
    }
}

/// The length of the HTTP(S) scheme prefix of `s` (`7` for `http://`,
/// `8` for `https://`), or `-1` when `s` starts with neither.
pub open spec fn http_scheme_len(s: Seq<char>) -> int {
    if s.len() >= 8 && s[0] == 'h' && s[1] == 't' && s[2] == 't' && s[3] == 'p' && s[4] == 's'
        && s[5] == ':' && s[6] == '/' && s[7] == '/' {
        8
    } else if s.len() >= 7 && s[0] == 'h' && s[1] == 't' && s[2] == 't' && s[3] == 'p'
        && s[4] == ':' && s[5] == '/' && s[6] == '/' {
        7
    } else {
        -1
    }
}

/// Whether `t` is a non-empty repository path followed by the literal
/// suffix `.git`.
pub open spec fn ends_with_dot_git(t: Seq<char>) -> bool {
    &&& t.len() >= 5
    &&& t[t.len() - 4] == '.'
    &&& t[t.len() - 3] == 'g'
    &&& t[t.len() - 2] == 'i'
    &&& t[t.len() - 1] == 't'
}

/// Parse an HTTP(S)-style remote into host and repository path: after
/// the scheme, the host runs to the first `/` and must be non-empty, and
/// the rest must be a non-empty repository path ending in `.git`.
pub open spec fn spec_http_parse(s: Seq<char>) -> Option<(Seq<char>, Seq<char>)> {
    let n = http_scheme_len(s);
    if n < 0 {
        None
    } else {
        let rest = s.skip(n);
        let k = first_index_of(rest, '/');
        if k < 1 {
            None
        } else {
            let tail = rest.skip(k + 1);
            if ends_with_dot_git(tail) {
                Some((rest.take(k), tail.take(tail.len() - 4)))
            } else {
                None
            }
        }
    }
}

/// Parse an SSH-style remote into host and repository path: an optional
/// non-empty `user@` prefix, then a non-empty host running to the first
/// `:` of the string, then a non-empty repository path ending in `.git`.
pub open spec fn spec_ssh_parse(s: Seq<char>) -> Option<(Seq<char>, Seq<char>)> {
    let q = first_index_of(s, ':');
    if q < 1 {
        None
    } else {
        let host_part = s.take(q);
        let p = first_index_of(host_part, '@');
        if p >= 0 && !(1 <= p && p + 1 < q) {
            None
        } else {
            let host = if p >= 1 {
                host_part.skip(p + 1)
            } else {
                host_part
            };
            let tail = s.skip(q + 1);
            if ends_with_dot_git(tail) {
                Some((host, tail.take(tail.len() - 4)))
            } else {
                None
            }
        }
    }
}

/// The public web URL a remote normalizes to, or `None` when the remote
/// matches neither shape. A remote with an HTTP(S) scheme is only read
/// as the HTTP(S) shape.
pub open spec fn spec_normalize_remote(s: Seq<char>) -> Option<Seq<char>> {
    let parsed = if http_scheme_len(s) >= 0 {
        spec_http_parse(s)
    } else {
        spec_ssh_parse(s)
    };
    match parsed {
        Some((host, repo)) => Some("https://"@ + host + "/"@ + repo),
        None => None,
    }
}

/// The least index at or after `from` holding `c`, if any.
fn find_from(v: &Vec<char>, from: usize, c: char) -> (r: Option<usize>)
    requires
        from <= v@.len(),
    ensures
        match r {
            Some(i) => from <= i < v@.len() && v@[i as int] == c && (forall|t: int|
                from <= t < i ==> v@[t] != c),
            None => forall|t: int| from <= t < v@.len() ==> v@[t] != c,
        },
{
    let mut i: usize = from;
    while i < v.len()
        invariant
            from <= i <= v@.len(),
            forall|t: int| from <= t < i ==> v@[t] != c,
        decreases v@.len() - i,
    {
        if v[i] == c {
            return Some(i);
        }
        i = i + 1;
    }
    None
}

/// The characters of `v` from `a` (inclusive) to `b` (exclusive).
fn copy_range(v: &Vec<char>, a: usize, b: usize) -> (r: Vec<char>)
    requires
        a <= b <= v@.len(),
    ensures
        r@ == v@.subrange(a as int, b as int),
{
    let mut r: Vec<char> = Vec::new();
    let mut i: usize = a;
    while i < b
        invariant
            a <= i <= b <= v@.len(),
            r@ == v@.subrange(a as int, i as int),
        decreases b - i,
    {
        let c = v[i];
        r.push(c);
        proof {
            assert(v@.subrange(a as int, i + 1 as int) =~= v@.subrange(a as int, i as int).push(
                v@[i as int],
            ));
        }
        i = i + 1;
    }
    r
}

/// Assemble the normalized URL `https://host/repo` from the two
/// extracted pieces.
fn assemble_url(host: &Vec<char>, repo: &Vec<char>) -> (r: String)
    ensures
        r@ == "https://"@ + host@ + "/"@ + repo@,
{
    let host_s = chars_to_string(host);
    let repo_s = chars_to_string(repo);
    String::from_str("https://").concat(host_s.as_str()).concat("/").concat(repo_s.as_str())
}

/// Normalize a remote URL to a public web URL: `[user@]host:repo.git`
/// and `http[s]://host/repo.git` both become `https://host/repo`. Any
/// other shape is rejected with `UnparseableRemote`.
pub fn normalize_remote_url(remote: &str) -> (r: Result<String, ConvertError>)
    ensures
        match r {
            Ok(u) => spec_normalize_remote(remote@) == Some(u@),
            Err(e) => spec_normalize_remote(remote@) is None && e
                == ConvertError::UnparseableRemote,
        },
{
    let v = str_chars(remote);
    let n = v.len();
    let scheme_len: usize = if n >= 8 && v[0] == 'h' && v[1] == 't' && v[2] == 't' && v[3] == 'p'
        && v[4] == 's' && v[5] == ':' && v[6] == '/' && v[7] == '/' {
        8
    } else if n >= 7 && v[0] == 'h' && v[1] == 't' && v[2] == 't' && v[3] == 'p' && v[4] == ':'
        && v[5] == '/' && v[6] == '/' {
        7
    } else {
        0
    };
    if scheme_len > 0 {
        assert(http_scheme_len(v@) == scheme_len as int);
        let ghost rest = v@.skip(scheme_len as int);
        match find_from(&v, scheme_len, '/') {
            None => {
                proof {
                    assert forall|t: int| 0 <= t < rest.len() implies rest[t] != '/' by {
                        assert(rest[t] == v@[t + scheme_len]);
                    }
                    lemma_first_index_absent(rest, '/');
                }
                Err(ConvertError::UnparseableRemote)
            },
            Some(k) => {
                proof {
                    assert(rest[k - scheme_len] == v@[k as int]);
                    assert forall|t: int| 0 <= t < k - scheme_len implies rest[t] != '/' by {
                        assert(rest[t] == v@[t + scheme_len]);
                    }
                    lemma_first_index_unique(rest, '/', k - scheme_len);
                }
                if k == scheme_len {
                    return Err(ConvertError::UnparseableRemote);
                }
                let ghost tail = rest.skip(k - scheme_len + 1);
                proof {
                    assert(tail =~= v@.skip(k + 1 as int));
                    assert(tail.len() == n - (k + 1));
                    if tail.len() >= 5 {
                        assert(tail[tail.len() - 4] == v@[n - 4]);
                        assert(tail[tail.len() - 3] == v@[n - 3]);
                        assert(tail[tail.len() - 2] == v@[n - 2]);
                        assert(tail[tail.len() - 1] == v@[n - 1]);
                    }
                }
                if n - (k + 1) >= 5 && v[n - 4] == '.' && v[n - 3] == 'g' && v[n - 2] == 'i'
                    && v[n - 1] == 't' {
                    assert(ends_with_dot_git(tail));
                    let host = copy_range(&v, scheme_len, k);
                    let repo = copy_range(&v, k + 1, n - 4);
                    proof {
                        assert(rest.take(k - scheme_len) =~= v@.subrange(
                            scheme_len as int,
                            k as int,
                        ));
                        assert(tail.take(tail.len() - 4) =~= v@.subrange(k + 1 as int, n - 4));
                    }
                    Ok(assemble_url(&host, &repo))
                } else {
                    assert(!ends_with_dot_git(tail));
                    Err(ConvertError::UnparseableRemote)
                }
            },
        }
    } else {
        assert(http_scheme_len(v@) == -1);
        match find_from(&v, 0, ':') {
            None => {
                proof {
                    lemma_first_index_absent(v@, ':');
                }
                Err(ConvertError::UnparseableRemote)
            },
            Some(q) => {
                proof {
                    lemma_first_index_unique(v@, ':', q as int);
                }
                if q == 0 {
                    return Err(ConvertError::UnparseableRemote);
                }
                let ghost host_part = v@.take(q as int);
                let at = find_from(&v, 0, '@');
                let ghost p = first_index_of(host_part, '@');
                let host_start: usize = match at {
                    None => {
                        proof {
                            assert forall|t: int| 0 <= t < host_part.len() implies host_part[t]
                                != '@' by {
                                assert(host_part[t] == v@[t]);
                            }
                            lemma_first_index_absent(host_part, '@');
                        }
                        0
                    },
                    Some(i) => {
                        if i >= q {
                            proof {
                                assert forall|t: int| 0 <= t < host_part.len() implies host_part[t]
                                    != '@' by {
                                    assert(host_part[t] == v@[t]);
                                }
                                lemma_first_index_absent(host_part, '@');
                            }
                            0
                        } else {
                            proof {
                                assert(host_part[i as int] == v@[i as int]);
                                assert forall|t: int| 0 <= t < i implies host_part[t] != '@' by {
                                    assert(host_part[t] == v@[t]);
                                }
                                lemma_first_index_unique(host_part, '@', i as int);
                            }
                            if i == 0 || i + 1 >= q {
                                return Err(ConvertError::UnparseableRemote);
                            }
                            i + 1
                        }
                    },
                };
                assert(p >= 0 ==> 1 <= p && p + 1 < q);
                assert(host_start as int == if p >= 1 {
                    p + 1
                } else {
                    0
                });
                let ghost tail = v@.skip(q + 1 as int);
                proof {
                    assert(tail.len() == n - (q + 1));
                    if tail.len() >= 5 {
                        assert(tail[tail.len() - 4] == v@[n - 4]);
                        assert(tail[tail.len() - 3] == v@[n - 3]);
                        assert(tail[tail.len() - 2] == v@[n - 2]);
                        assert(tail[tail.len() - 1] == v@[n - 1]);
                    }
                }
                if n - (q + 1) >= 5 && v[n - 4] == '.' && v[n - 3] == 'g' && v[n - 2] == 'i'
                    && v[n - 1] == 't' {
                    assert(ends_with_dot_git(tail));
                    let host = copy_range(&v, host_start, q);
                    let repo = copy_range(&v, q + 1, n - 4);
                    proof {
                        if p >= 1 {
                            assert(host_part.skip(p + 1) =~= v@.subrange(
                                host_start as int,
                                q as int,
                            ));
                        } else {
                            assert(host_part =~= v@.subrange(host_start as int, q as int));
                        }
                        assert(tail.take(tail.len() - 4) =~= v@.subrange(q + 1 as int, n - 4));
                    }
                    Ok(assemble_url(&host, &repo))
                } else {
                    assert(!ends_with_dot_git(tail));
                    Err(ConvertError::UnparseableRemote)
                }
            },
        }
    }
}

/// Build the single version-control provenance entry from the repository
/// metadata: the normalized public URL, the branch name (or the detached
/// sentinel when none), the commit identifier, and the symbolic project
/// root shared with artifact locations.
pub fn version_control_details(remote: &str, branch: Option<String>, commit: String) -> (r:
    Result<VcsDetails, ConvertError>)
    ensures
        match r {
            Ok(d) => {
                &&& spec_normalize_remote(remote@) == Some(d.repository_uri@)
                &&& d.branch@ == (match branch {
                    Option::Some(b) => b@,
                    Option::None => "(detached head)"@,
                })
                &&& d.revision_id@ == commit@
                &&& d.mapped_to.uri@ == "project"@
                &&& d.mapped_to.uri_base_id@ == "PROJECT"@
            },
            Err(e) => spec_normalize_remote(remote@) is None && e
                == ConvertError::UnparseableRemote,
        },
{
    let repository_uri = match normalize_remote_url(remote) {
        Ok(u) => u,
        Err(e) => {
            return Err(e);
        },
    };
    let branch_name = match branch {
        Some(b) => b,
        None => String::from_str("(detached head)"),
    };
    Ok(
        VcsDetails {
            repository_uri,
            branch: branch_name,
            revision_id: commit,
            mapped_to: ArtifactRef {
                uri: String::from_str("project"),
                uri_base_id: String::from_str("PROJECT"),
            },
        },
    )
}

} // verus!
