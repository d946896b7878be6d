//! The executable index: the absolute paths of the files on the search path
//! whose permission bits mark them executable. The surrounding program
//! enumerates the directories; this module owns the lookup rule: a command
//! name matches the first path whose file stem (file name without its
//! extension) equals the name.
use vstd::prelude::*;

use crate::strutil::str_eq;

verus! {

/// Whether a permission-bits value marks a file as executable:
/// true exactly when some execute bit (owner, group or other) is set.
pub fn mode_is_executable(mode: u32) -> (r: bool)
    ensures
        r == (mode & 0o111 != 0),
{
    mode & 0o111 != 0
}

/// The file name of a path: everything after the last slash, or the whole
/// path if it has none.
pub open spec fn file_name_of(p: Seq<char>) -> Seq<char> {
    match p.index_of_last('/') {
        Option::Some(j) => p.skip(j + 1),
        Option::None => p,
    }
}

/// The stem of a file name: the part before the last dot, where a single
/// leading dot marks a hidden file and does not start an extension.
pub open spec fn stem_of_name(name: Seq<char>) -> Seq<char> {
    if name.len() > 0 && name[0] == '.' {
        match name.skip(1).index_of_last('.') {
            Option::Some(j) => name.take(j + 1),
            Option::None => name,
        }
    } else {
        match name.index_of_last('.') {
            Option::Some(j) => name.take(j),
            Option::None => name,
        }
    }
}

/// The file stem of a path.
pub open spec fn stem_of(p: Seq<char>) -> Seq<char> {
    stem_of_name(file_name_of(p))
}

/// The last position at or after `lo` where `c` occurs in `s`, if any.
fn last_char_index(s: &str, lo: usize, c: char) -> (r: Option<usize>)
    requires
        lo <= s@.len(),
    ensures
        match r {
            Option::Some(k) => lo <= k < s@.len() && s@[k as int] == c && forall|j: int|
                k < j < s@.len() ==> s@[j] != c,
            Option::None => forall|j: int| lo <= j < s@.len() ==> s@[j] != c,
        },
{
    let n = s.unicode_len();
    let mut r: Option<usize> = None;
    let mut i: usize = lo;
    while i < n
        invariant
            n == s@.len(),
            lo <= i <= n,
            match r {
                Option::Some(k) => lo <= k < i && s@[k as int] == c && forall|j: int|
                    k < j < i ==> s@[j] != c,
                Option::None => forall|j: int| lo <= j < i ==> s@[j] != c,
            },
        decreases n - i,
    {
        if s.get_char(i) == c {
            r = Some(i);
        }
        i += 1;
    }
    r
}

/// Computes the file stem of a path.
pub fn file_stem(path: &str) -> (r: String)
    ensures
        r@ == stem_of(path@),
{
    let n = path.unicode_len();
    let base = match last_char_index(path, 0, '/') {
        Some(k) => k + 1,
        None => 0,
    };
    proof {
        path@.index_of_last_ensures('/');
        match path@.index_of_last('/') {
            Option::Some(j) => {
                assert(base == j + 1);
            },
            Option::None => {
                assert(base == 0);
                assert(path@.skip(0) =~= path@);
            },
        }
    }
    let ghost name = file_name_of(path@);
    proof {
        assert(name =~= path@.skip(base as int));
    }
    let search_lo = if base < n && path.get_char(base) == '.' {
        base + 1
    } else {
        base
    };
    let dot = last_char_index(path, search_lo, '.');
    let end = match dot {
        Some(k) => k,
        None => n,
    };
    proof {
        if base < n && path@[base as int] == '.' {
            let tail = name.skip(1);
            assert(tail =~= path@.skip(base as int + 1));
            tail.index_of_last_ensures('.');
            match tail.index_of_last('.') {
                Option::Some(j) => {
                    assert(tail[j] == '.');
                    assert(path@[base + 1 + j] == '.');
                    match dot {
                        Option::Some(k) => {
                            let kk = k as int - base - 1;
                            assert(tail[kk] == path@[k as int]);
                            if kk < j {
                                assert(path@[base + 1 + j] != '.');
                                assert(false);
                            }
                            if kk > j {
                                assert(tail[kk] != '.');
                                assert(false);
                            }
                            assert(k == base + 1 + j);
                            assert(name.take(j + 1) =~= path@.subrange(base as int, k as int));
                        },
                        Option::None => {
                            assert(path@[base + 1 + j] != '.');
                            assert(false);
                        },
                    }
                },
                Option::None => {
                    match dot {
                        Option::Some(k) => {
                            assert(tail[k - base - 1] == '.');
                            assert(false);
                        },
                        Option::None => {
                            assert(name =~= path@.subrange(base as int, n as int));
                        },
                    }
                },
            }
        } else {
            name.index_of_last_ensures('.');
            match name.index_of_last('.') {
                Option::Some(j) => {
                    assert(name[j] == '.');
                    assert(path@[base + j] == '.');
                    match dot {
                        Option::Some(k) => {
                            let kk = k as int - base;
                            assert(name[kk] == path@[k as int]);
                            if kk < j {
                                assert(path@[base + j] != '.');
                                assert(false);
                            }
                            if kk > j {
                                assert(name[kk] != '.');
                                assert(false);
                            }
                            assert(k == base + j);
                            assert(name.take(j) =~= path@.subrange(base as int, k as int));
                        },
                        Option::None => {
                            assert(path@[base + j] != '.');
                            assert(false);
                        },
                    }
                },
                Option::None => {
                    match dot {
                        Option::Some(k) => {
                            assert(name[k - base] == '.');
                            assert(false);
                        },
                        Option::None => {
                            assert(name =~= path@.subrange(base as int, n as int));
                        },
                    }
                },
            }
        }
    }
    let sub = path.substring_char(base, end);
    String::from_str(sub)
}

/// The first path in `paths` whose file stem is `name`, if any.
pub open spec fn lookup_spec(paths: Seq<Seq<char>>, name: Seq<char>) -> Option<Seq<char>>
    decreases paths.len(),
{
    if paths.len() == 0 {
        Option::None
    } else if stem_of(paths[0]) == name {
        Option::Some(paths[0])
    } else {
        lookup_spec(paths.drop_first(), name)
    }
}

proof fn lemma_lookup_found(paths: Seq<Seq<char>>, name: Seq<char>, i: int)
    requires
        0 <= i < paths.len(),
        forall|j: int| 0 <= j < i ==> stem_of(#[trigger] paths[j]) != name,
        stem_of(paths[i]) == name,
    ensures
        lookup_spec(paths, name) == Option::Some(paths[i]),
    decreases i,
{
    if i == 0 {
    } else {
        lemma_lookup_found(paths.drop_first(), name, i - 1);
    }
}

proof fn lemma_lookup_missing(paths: Seq<Seq<char>>, name: Seq<char>)
    requires
        forall|j: int| 0 <= j < paths.len() ==> stem_of(#[trigger] paths[j]) != name,
    ensures
        lookup_spec(paths, name) == Option::<Seq<char>>::None,
    decreases paths.len(),
{
    if paths.len() > 0 {
        lemma_lookup_missing(paths.drop_first(), name);
    }
}

/// The set of executables found on the search path, as a list of absolute
/// paths in discovery order.
pub struct ExeIndex {
    pub paths: Vec<String>,
}

impl ExeIndex {
    /// Builds the index from the paths the directory scan found.
    pub fn new(paths: Vec<String>) -> (r: ExeIndex)
        ensures
            r.paths == paths,
    {
        ExeIndex { paths }
    }

    /// Looks a command name up: the first path whose file stem equals the
    /// name, or nothing when no stem matches.
    pub fn lookup(&self, name: &str) -> (r: Option<String>)
        ensures
            match r {
                Option::Some(p) => lookup_spec(self.paths.deep_view(), name@) == Option::Some(p@),
                Option::None => lookup_spec(self.paths.deep_view(), name@)
                    == Option::<Seq<char>>::None,
            },
    {
        let ghost dv = self.paths.deep_view();
        let n = self.paths.len();
        let mut i: usize = 0;
        while i < n
            invariant
                n == self.paths.len(),
                dv == self.paths.deep_view(),
                dv.len() == n,
                i <= n,
                forall|j: int| 0 <= j < i ==> stem_of(#[trigger] dv[j]) != name@,
            decreases n - i,
        {
            let stem = file_stem(self.paths[i].as_str());
            proof {
                assert(dv[i as int] == self.paths[i as int]@);
            }
            if str_eq(stem.as_str(), name) {
                proof {
                    lemma_lookup_found(dv, name@, i as int);
                }
                return Some(self.paths[i].clone());
            }
            i += 1;
        }
        proof {
            lemma_lookup_missing(dv, name@);
        }
        None
    }
}

} // verus!
