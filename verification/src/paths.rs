//! A character-level model of file paths: the final segment of a path, its
//! extension, and the classifier that decides which paths name torrent files.
//!
//! A path is a sequence of characters in which `/` separates segments. The
//! file name is everything after the last `/` (empty when the path ends in
//! `/`). The extension is what follows the last `.` of the file name,
//! provided that dot is preceded by at least one character of the name, so a
//! name such as `.torrent` has no extension.

use vstd::prelude::*;
use vstd::string::StrSliceExecFns;

verus! {

/// The final path segment: everything after the last `/`; the whole string
/// when no `/` occurs; empty when the path ends in `/`.
pub open spec fn file_name_of(s: Seq<char>) -> Seq<char>
    decreases s.len(),
{
    if s.len() == 0 {
        Seq::empty()
    } else if s.last() == '/' {
        Seq::empty()
    } else {
        file_name_of(s.drop_last()).push(s.last())
    }
}

/// The extension of a file name: what follows its last `.`, provided the dot
/// is preceded by at least one character; `None` otherwise.
pub open spec fn ext_of_name(n: Seq<char>) -> Option<Seq<char>>
    decreases n.len(),
{
    if n.len() == 0 {
        None
    } else if n.last() == '.' {
        if n.len() >= 2 {
            Some(Seq::empty())
        } else {
            None
        }
    } else {
        match ext_of_name(n.drop_last()) {
            Some(e) => Some(e.push(n.last())),
            None => None,
        }
    }
}

/// Whether an extension equals `torrent` up to ASCII case.
pub open spec fn is_torrent_ext(e: Seq<char>) -> bool {
    &&& e.len() == 7
    &&& (e[0] == 't' || e[0] == 'T')
    &&& (e[1] == 'o' || e[1] == 'O')
    &&& (e[2] == 'r' || e[2] == 'R')
    &&& (e[3] == 'r' || e[3] == 'R')
    &&& (e[4] == 'e' || e[4] == 'E')
    &&& (e[5] == 'n' || e[5] == 'N')
    &&& (e[6] == 't' || e[6] == 'T')
}

/// Whether a path names a torrent file: its extension equals `torrent` up to
/// ASCII case. A path whose file name has no extension never qualifies.
pub open spec fn is_torrent_path(s: Seq<char>) -> bool {
    match ext_of_name(file_name_of(s)) {
        Some(e) => is_torrent_ext(e),
        None => false,
    }
}

/// A file name whose segment boundary is known is the corresponding suffix.
pub proof fn lemma_file_name_subrange(s: Seq<char>, ns: int)
    requires
        0 <= ns <= s.len(),
        ns == 0 || s[ns - 1] == '/',
        forall|k: int| ns <= k < s.len() ==> s[k] != '/',
    ensures
        file_name_of(s) == s.subrange(ns, s.len() as int),
    decreases s.len(),
{
    if s.len() == 0 {
        assert(file_name_of(s) =~= s.subrange(0, 0));
    } else if ns == s.len() {
        assert(s.last() == '/');
        assert(file_name_of(s) =~= s.subrange(ns, s.len() as int));
    } else {
        assert(s.last() != '/');
        lemma_file_name_subrange(s.drop_last(), ns);
        assert(file_name_of(s) == s.drop_last().subrange(ns, s.len() - 1).push(s.last()));
        assert(s.drop_last().subrange(ns, s.len() - 1).push(s.last()) =~= s.subrange(
            ns,
            s.len() as int,
        ));
    }
}

/// A name with a last dot at a position past its first character has exactly
/// what follows that dot as its extension.
pub proof fn lemma_ext_some(n: Seq<char>, j: int)
    requires
        1 <= j < n.len(),
        n[j] == '.',
        forall|k: int| j < k < n.len() ==> n[k] != '.',
    ensures
        ext_of_name(n) == Some(n.subrange(j + 1, n.len() as int)),
    decreases n.len(),
{
    if j == n.len() - 1 {
        assert(n.last() == '.');
        assert(Seq::<char>::empty() =~= n.subrange(j + 1, n.len() as int));
    } else {
        assert(n.last() != '.');
        lemma_ext_some(n.drop_last(), j);
        assert(n.drop_last().subrange(j + 1, n.len() - 1).push(n.last()) =~= n.subrange(
            j + 1,
            n.len() as int,
        ));
    }
}

/// A name with no dot past its first character has no extension.
pub proof fn lemma_ext_none(n: Seq<char>)
    requires
        forall|k: int| 1 <= k < n.len() ==> n[k] != '.',
    ensures
        ext_of_name(n) is None,
    decreases n.len(),
{
    if n.len() == 0 {
    } else if n.last() == '.' {
        assert(n.len() == 1);
    } else {
        lemma_ext_none(n.drop_last());
    }
}

/// The index at which the final path segment begins.
pub(crate) fn name_start_of(path: &str) -> (ns: usize)
    ensures
        ns <= path@.len(),
        ns == 0 || path@[ns - 1] == '/',
        forall|k: int| ns <= k < path@.len() ==> path@[k] != '/',
{
    let n = path.unicode_len();
    let mut ns: usize = 0;
    let mut i: usize = 0;
    while i < n
        invariant
            n == path@.len(),
            0 <= ns <= i <= n,
            ns == 0 || path@[ns - 1] == '/',
            forall|k: int| ns <= k < i ==> path@[k] != '/',
        decreases n - i,
    {
        if path.get_char(i) == '/' {
            ns = i + 1;
        }
        i = i + 1;
    }
    ns
}

/// The final path segment as an owned string; empty when the path ends in `/`.
pub fn file_name_str(path: &str) -> (r: String)
    ensures
        r@ == file_name_of(path@),
{
    let n = path.unicode_len();
    let ns = name_start_of(path);
    proof {
        lemma_file_name_subrange(path@, ns as int);
    }
    path.substring_char(ns, n).to_owned()
}

/// Decides whether the path should be processed: true iff its extension,
/// compared case-insensitively, equals `torrent`.
pub fn is_torrent_file(path: &str) -> (r: bool)
    ensures
        r == is_torrent_path(path@),
{
    let n = path.unicode_len();
    let ns = name_start_of(path);
    proof {
        lemma_file_name_subrange(path@, ns as int);
    }
    let ghost name = path@.subrange(ns as int, n as int);
    let mut dot: usize = 0;
    let mut have_dot: bool = false;
    let mut i: usize = ns;
    while i < n
        invariant
            n == path@.len(),
            ns <= i <= n,
            have_dot ==> ns < dot < i && path@[dot as int] == '.',
            have_dot ==> forall|k: int| dot < k < i ==> path@[k] != '.',
            !have_dot ==> forall|k: int| ns < k < i ==> path@[k] != '.',
        decreases n - i,
    {
        if i > ns && path.get_char(i) == '.' {
            dot = i;
            have_dot = true;
        }
        i = i + 1;
    }
    if !have_dot {
        proof {
            assert forall|k: int| 1 <= k < name.len() implies name[k] != '.' by {
                assert(name[k] == path@[ns + k]);
            }
            lemma_ext_none(name);
        }
        return false;
    }
    proof {
        let j = dot - ns;
        assert(name[j] == path@[dot as int]);
        assert forall|k: int| j < k < name.len() implies name[k] != '.' by {
            assert(name[k] == path@[ns + k]);
        }
        lemma_ext_some(name, j);
    }
    let ghost ext = name.subrange(dot - ns + 1, name.len() as int);
    proof {
        assert forall|k: int| 0 <= k < ext.len() implies ext[k] == path@[dot + 1 + k] by {
            assert(ext[k] == name[dot - ns + 1 + k]);
        }
    }
    if n - dot - 1 != 7 {
        return false;
    }
    let c0 = path.get_char(dot + 1);
    let c1 = path.get_char(dot + 2);
    let c2 = path.get_char(dot + 3);
    let c3 = path.get_char(dot + 4);
    let c4 = path.get_char(dot + 5);
    let c5 = path.get_char(dot + 6);
    let c6 = path.get_char(dot + 7);
    (c0 == 't' || c0 == 'T') && (c1 == 'o' || c1 == 'O') && (c2 == 'r' || c2 == 'R') && (c3 == 'r'
        || c3 == 'R') && (c4 == 'e' || c4 == 'E') && (c5 == 'n' || c5 == 'N') && (c6 == 't' || c6
        == 'T')
}

} // verus!
