//! Resolving the destination filename from the URL or an explicit override.

use vstd::prelude::*;
use crate::error::DownloadError;

verus! {

/// The index just after the last '/' of `url`: `url.len()` when `url` ends in
/// a '/', `0` when it holds no '/' at all.
pub open spec fn seg_start(url: Seq<char>) -> int
    decreases url.len(),
{
    if url.len() == 0 {
        0
    } else if url[url.len() - 1] == '/' {
        url.len() as int
    } else {
        seg_start(url.take(url.len() - 1))
    }
}

/// The final path segment of `url`: everything after its last '/', or the
/// whole of `url` when it holds no '/'.
pub open spec fn last_segment(url: Seq<char>) -> Seq<char> {
    url.subrange(seg_start(url), url.len() as int)
}

/// Whether "://" stands at position `i` of `url`.
pub open spec fn marker_at(url: Seq<char>, i: int) -> bool {
    0 <= i && i + 3 <= url.len() && url[i] == ':' && url[i + 1] == '/' && url[i + 2] == '/'
}

/// The index just after the first "://" of `url`, or 0 when it has none.
pub open spec fn after_scheme(url: Seq<char>) -> int
    decreases url.len(),
{
    if url.len() < 3 {
        0
    } else if url[0] == ':' && url[1] == '/' && url[2] == '/' {
        3
    } else if after_scheme(url.skip(1)) == 0 {
        0
    } else {
        after_scheme(url.skip(1)) + 1
    }
}

/// The index where the URL's authority begins: just after the first "://",
/// after a leading "//" (a protocol-relative URL), or 0 when the URL carries
/// no authority marker at all.
pub open spec fn path_start(url: Seq<char>) -> int {
    if url.len() >= 2 && url[0] == '/' && url[1] == '/' {
        2
    } else {
        after_scheme(url)
    }
}

/// Whether the URL's final segment is a host rather than a path segment: an
/// authority marker stands in the URL and no '/' follows it, so the last '/'
/// of the URL is the marker's own and the URL has no path segment at all.
pub open spec fn host_only(url: Seq<char>) -> bool {
    path_start(url) > 0 && seg_start(url) == path_start(url)
}

/// What one invocation downloads to: the override verbatim when one is given,
/// otherwise the URL's final path segment. There is no name at all when that
/// segment is empty, or when it is a host standing right after the URL's
/// authority marker — a URL with no path segment resolves to nothing.
pub open spec fn resolved_filename(url: Seq<char>, output: Option<Seq<char>>) -> Option<
    Seq<char>,
> {
    match output {
        Some(name) => Some(name),
        None => if last_segment(url).len() == 0 || host_only(url) {
            None
        } else {
            Some(last_segment(url))
        },
    }
}

/// The view of the optional override.
pub open spec fn output_view(output: Option<&str>) -> Option<Seq<char>> {
    match output {
        Some(name) => Some(name@),
        None => None,
    }
}

proof fn lemma_after_scheme_none(url: Seq<char>)
    requires
        forall|k: int| !marker_at(url, k),
    ensures
        after_scheme(url) == 0,
    decreases url.len(),
{
    if url.len() < 3 {
    } else {
        assert(!marker_at(url, 0));
        assert forall|k: int| !marker_at(url.skip(1), k) by {
            if marker_at(url.skip(1), k) {
                assert(url.skip(1)[k] == url[k + 1]);
                assert(url.skip(1)[k + 1] == url[k + 2]);
                assert(url.skip(1)[k + 2] == url[k + 3]);
                assert(marker_at(url, k + 1));
            }
        }
        lemma_after_scheme_none(url.skip(1));
    }
}

proof fn lemma_after_scheme_first(url: Seq<char>, i: int)
    requires
        marker_at(url, i),
        forall|k: int| 0 <= k < i ==> !marker_at(url, k),
    ensures
        after_scheme(url) == i + 3,
    decreases i,
{
    if i == 0 {
    } else {
        assert(!marker_at(url, 0));
        assert(marker_at(url.skip(1), i - 1)) by {
            assert(url.skip(1)[i - 1] == url[i]);
            assert(url.skip(1)[i] == url[i + 1]);
            assert(url.skip(1)[i + 1] == url[i + 2]);
        }
        assert forall|k: int| 0 <= k < i - 1 implies !marker_at(url.skip(1), k) by {
            if marker_at(url.skip(1), k) {
                assert(url.skip(1)[k] == url[k + 1]);
                assert(url.skip(1)[k + 1] == url[k + 2]);
                assert(url.skip(1)[k + 2] == url[k + 3]);
                assert(marker_at(url, k + 1));
            }
        }
        lemma_after_scheme_first(url.skip(1), i - 1);
    }
}

proof fn lemma_after_scheme_marker(url: Seq<char>)
    ensures
        after_scheme(url) == 0 || marker_at(url, after_scheme(url) - 3),
    decreases url.len(),
{
    if url.len() < 3 {
    } else if url[0] == ':' && url[1] == '/' && url[2] == '/' {
    } else {
        lemma_after_scheme_marker(url.skip(1));
        if after_scheme(url.skip(1)) != 0 {
            let m = after_scheme(url.skip(1)) - 3;
            assert(marker_at(url.skip(1), m));
            assert(url[m + 1] == url.skip(1)[m]);
            assert(url[m + 2] == url.skip(1)[m + 1]);
            assert(url[m + 3] == url.skip(1)[m + 2]);
            assert(marker_at(url, m + 1));
        }
    }
}

fn find_after_scheme(url: &str) -> (r: usize)
    ensures
        r as int == after_scheme(url@),
{
    let n = url.unicode_len();
    let mut j: usize = 0;
    let mut mend: usize = 0;
    while mend == 0 && n >= 3 && j < n - 2
        invariant
            n == url@.len(),
            j <= n,
            mend == 0 ==> forall|k: int| 0 <= k < j ==> !marker_at(url@, k),
            mend != 0 ==> mend >= 3 && marker_at(url@, mend - 3) && (forall|k: int|
                0 <= k < mend - 3 ==> !marker_at(url@, k)),
        decreases n - j + (if mend == 0 {
            1int
        } else {
            0int
        }),
    {
        if url.get_char(j) == ':' && url.get_char(j + 1) == '/' && url.get_char(j + 2) == '/' {
            mend = j + 3;
        } else {
            j = j + 1;
        }
    }
    proof {
        if mend == 0 {
            assert forall|k: int| !marker_at(url@, k) by {
                if 0 <= k && k + 3 <= n {
                    assert(!marker_at(url@, k));
                }
            }
            lemma_after_scheme_none(url@);
        } else {
            lemma_after_scheme_first(url@, mend - 3);
        }
    }
    mend
}

/// Resolves the destination filename: the override verbatim when one is
/// given, otherwise the final path segment of the URL. Fails exactly when no
/// override is given and the URL has no nonempty final path segment — in
/// particular for a URL of the shape `scheme://host`, where what follows the
/// last '/' is the host and no path follows it.
pub fn resolve_filename(url: &str, output: Option<&str>) -> (r: Result<String, DownloadError>)
    ensures
        match r {
            Ok(name) => resolved_filename(url@, output_view(output)) == Some(name@),
            Err(e) => resolved_filename(url@, output_view(output)) is None && e
                == DownloadError::UnresolvableFilename,
        },
{
    match output {
        Some(name) => Ok(name.to_owned()),
        None => {
            let n = url.unicode_len();
            let mut start: usize = 0;
            let mut i: usize = 0;
            while i < n
                invariant
                    i <= n,
                    n == url@.len(),
                    start <= i,
                    start == seg_start(url@.take(i as int)),
                decreases n - i,
            {
                if url.get_char(i) == '/' {
                    start = i + 1;
                }
                proof {
                    assert(url@.take(i + 1).take(i as int) =~= url@.take(i as int));
                }
                i = i + 1;
            }
            proof {
                assert(url@.take(n as int) =~= url@);
            }
            let ps: usize = if n >= 2 && url.get_char(0) == '/' && url.get_char(1) == '/' {
                2
            } else {
                find_after_scheme(url)
            };
            if start == n {
                Err(DownloadError::UnresolvableFilename)
            } else if ps > 0 && start == ps {
                Err(DownloadError::UnresolvableFilename)
            } else {
                let name = url.substring_char(start, n);
                proof {
                    assert(name@ =~= last_segment(url@));
                }
                Ok(name.to_owned())
            }
        },
    }
}

/// With no override, a URL that is empty or ends in '/' has no final path
/// segment, and filename resolution fails.
pub proof fn lemma_no_segment_fails(url: Seq<char>)
    requires
        url.len() == 0 || url[url.len() - 1] == '/',
    ensures
        resolved_filename(url, None) is None,
{
    assert(seg_start(url) == url.len());
    assert(last_segment(url).len() == 0);
}

proof fn lemma_seg_start_after_slash(base: Seq<char>, name: Seq<char>)
    requires
        base.len() > 0,
        base[base.len() - 1] == '/',
        forall|i: int| 0 <= i < name.len() ==> name[i] != '/',
    ensures
        seg_start(base + name) == base.len(),
    decreases name.len(),
{
    if name.len() == 0 {
        assert(base + name =~= base);
    } else {
        let u = base + name;
        assert(u[u.len() - 1] == name[name.len() - 1]);
        assert(u.take(u.len() - 1) =~= base + name.take(name.len() - 1));
        lemma_seg_start_after_slash(base, name.take(name.len() - 1));
    }
}

/// With no override, a URL of the shape `scheme://host` — `scheme` free of
/// ':' and '/', `host` free of '/' — has no path segment, and filename
/// resolution fails.
pub proof fn lemma_authority_only_fails(scheme: Seq<char>, host: Seq<char>)
    requires
        forall|i: int| 0 <= i < scheme.len() ==> scheme[i] != ':' && scheme[i] != '/',
        forall|i: int| 0 <= i < host.len() ==> host[i] != '/',
    ensures
        resolved_filename(scheme + seq![':', '/', '/'] + host, None) is None,
{
    let base = scheme + seq![':', '/', '/'];
    let u = base + host;
    assert(base[base.len() - 1] == '/');
    lemma_seg_start_after_slash(base, host);
    assert(marker_at(u, scheme.len() as int)) by {
        assert(u[scheme.len() as int] == ':');
        assert(u[scheme.len() as int + 1] == '/');
        assert(u[scheme.len() as int + 2] == '/');
    }
    assert forall|k: int| 0 <= k < scheme.len() implies !marker_at(u, k) by {
        assert(u[k] == scheme[k]);
    }
    lemma_after_scheme_first(u, scheme.len() as int);
    assert(u[0] != '/');
    assert(host_only(u));
}

/// With no override, a URL ending in `/name`, where `name` is nonempty and
/// holds no '/' and the '/' before it is a genuine path boundary — the URL is
/// not `//name` and does not end in `://name` — resolves to exactly `name`.
pub proof fn lemma_resolves_final_segment(prefix: Seq<char>, name: Seq<char>)
    requires
        name.len() > 0,
        forall|i: int| 0 <= i < name.len() ==> name[i] != '/',
        prefix.len() == 1 ==> prefix[0] != '/',
        prefix.len() >= 2 ==> !(prefix[prefix.len() - 1] == '/' && prefix[prefix.len() - 2]
            == ':'),
    ensures
        resolved_filename(prefix.push('/') + name, None) == Some(name),
{
    let base = prefix.push('/');
    let u = base + name;
    assert(base[base.len() - 1] == '/');
    lemma_seg_start_after_slash(base, name);
    assert(last_segment(u) =~= name);
    if host_only(u) {
        if u.len() >= 2 && u[0] == '/' && u[1] == '/' {
            assert(prefix.len() == 1);
            assert(u[0] == prefix[0]);
            assert(false);
        } else {
            lemma_after_scheme_marker(u);
            let m = after_scheme(u) - 3;
            assert(marker_at(u, m));
            assert(m == prefix.len() - 2);
            assert(u[m] == prefix[m]);
            assert(u[m + 1] == prefix[m + 1]);
            assert(false);
        }
    }
}

} // verus!
