//! The redirection extractor: after tokenization of one pipeline stage, the
//! argument vector is scanned left to right for redirection operators, each a
//! whole token immediately followed by a filename token. The last operator
//! for a stream wins; the arguments kept are those before the earliest
//! operator.
//!
//! Operators: `>` and `1>` (stdout, truncate), `>>` and `1>>` (stdout,
//! append), `2>` (stderr, truncate), `2>>` (stderr, append).
use vstd::prelude::*;

use crate::tokenize::tokenize;
use crate::tokenize::tokens_of;

verus! {

/// A parsed redirection: the target file name and whether the file is
/// opened for appending rather than truncated.
#[derive(Debug, Clone, PartialEq, Eq)]
pub struct Redirect {
    pub target: String,
    pub append: bool,
}

/// The mathematical model of a redirection: target characters and append
/// flag.
pub open spec fn redirect_view(r: Redirect) -> (Seq<char>, bool) {
    (r.target@, r.append)
}

pub open spec fn opt_redirect_view(o: Option<Redirect>) -> Option<(Seq<char>, bool)> {
    match o {
        Option::Some(r) => Option::Some(redirect_view(r)),
        Option::None => Option::None,
    }
}

/// Which stdout redirection a token is, if any: `Some(append)` for the four
/// stdout operators, `None` for anything else.
pub open spec fn out_op_kind(t: Seq<char>) -> Option<bool> {
    if t == seq!['>'] || t == seq!['1', '>'] {
        Option::Some(false)
    } else if t == seq!['>', '>'] || t == seq!['1', '>', '>'] {
        Option::Some(true)
    } else {
        Option::None
    }
}

/// Which stderr redirection a token is, if any.
pub open spec fn err_op_kind(t: Seq<char>) -> Option<bool> {
    if t == seq!['2', '>'] {
        Option::Some(false)
    } else if t == seq!['2', '>', '>'] {
        Option::Some(true)
    } else {
        Option::None
    }
}

/// The scan over the argument vector from position `i`: a recognized
/// operator (never the last token: it needs a following filename)
/// overwrites that stream's redirection, and `keep` drops to the earliest
/// operator position. Returns (stdout redirection, stderr redirection,
/// number of leading arguments kept).
pub open spec fn scan_redirects(
    argv: Seq<Seq<char>>,
    i: int,
    out: Option<(Seq<char>, bool)>,
    err: Option<(Seq<char>, bool)>,
    keep: int,
) -> (Option<(Seq<char>, bool)>, Option<(Seq<char>, bool)>, int)
    decreases argv.len() - i,
{
    if !(0 <= i) || i + 1 >= argv.len() {
        (out, err, keep)
    } else {
        let t = argv[i];
        let out2 = if out_op_kind(t) is Some {
            Option::Some((argv[i + 1], out_op_kind(t)->0))
        } else {
            out
        };
        let err2 = if err_op_kind(t) is Some {
            Option::Some((argv[i + 1], err_op_kind(t)->0))
        } else {
            err
        };
        let keep2 = if (out_op_kind(t) is Some || err_op_kind(t) is Some) && i < keep {
            i
        } else {
            keep
        };
        scan_redirects(argv, i + 1, out2, err2, keep2)
    }
}

/// The scan of a whole argument vector.
pub open spec fn scanned(argv: Seq<Seq<char>>) -> (
    Option<(Seq<char>, bool)>,
    Option<(Seq<char>, bool)>,
    int,
) {
    scan_redirects(argv, 0, Option::None, Option::None, argv.len() as int)
}

/// The arguments of a stage once redirection operators, their filenames and
/// everything after the earliest operator are removed.
pub open spec fn stage_argv(argv: Seq<Seq<char>>) -> Seq<Seq<char>> {
    argv.take(scanned(argv).2)
}

/// Recognizes a stdout redirection operator token.
pub fn out_op(t: &str) -> (r: Option<bool>)
    ensures
        r == out_op_kind(t@),
{
    let n = t.unicode_len();
    if n == 1 && t.get_char(0) == '>' {
        proof {
            assert(t@ =~= seq!['>']);
        }
        Some(false)
    } else if n == 2 && t.get_char(0) == '1' && t.get_char(1) == '>' {
        proof {
            assert(t@ =~= seq!['1', '>']);
        }
        Some(false)
    } else if n == 2 && t.get_char(0) == '>' && t.get_char(1) == '>' {
        proof {
            assert(t@ =~= seq!['>', '>']);
        }
        Some(true)
    } else if n == 3 && t.get_char(0) == '1' && t.get_char(1) == '>' && t.get_char(2) == '>' {
        proof {
            assert(t@ =~= seq!['1', '>', '>']);
        }
        Some(true)
    } else {
        None
    }
}

/// Recognizes a stderr redirection operator token.
pub fn err_op(t: &str) -> (r: Option<bool>)
    ensures
        r == err_op_kind(t@),
{
    let n = t.unicode_len();
    if n == 2 && t.get_char(0) == '2' && t.get_char(1) == '>' {
        proof {
            assert(t@ =~= seq!['2', '>']);
        }
        Some(false)
    } else if n == 3 && t.get_char(0) == '2' && t.get_char(1) == '>' && t.get_char(2) == '>' {
        proof {
            assert(t@ =~= seq!['2', '>', '>']);
        }
        Some(true)
    } else {
        None
    }
}

/// One parsed pipeline stage: its arguments with the redirections removed,
/// and the stdout and stderr redirections found, if any.
#[derive(Debug)]
pub struct Stage {
    pub argv: Vec<String>,
    pub out: Option<Redirect>,
    pub err: Option<Redirect>,
}

/// Removes redirection operators and their targets from an argument vector.
pub fn extract_redirects(argv: Vec<String>) -> (stage: Stage)
    ensures
        stage.argv.deep_view() == stage_argv(argv.deep_view()),
        opt_redirect_view(stage.out) == scanned(argv.deep_view()).0,
        opt_redirect_view(stage.err) == scanned(argv.deep_view()).1,
{
    let ghost dv = argv.deep_view();
    let mut argv = argv;
    let mut out: Option<Redirect> = None;
    let mut err: Option<Redirect> = None;
    let mut keep: usize = argv.len();
    let mut i: usize = 0;
    let n = argv.len();
    while n > 0 && i < n - 1
        invariant
            argv.deep_view() == dv,
            argv.len() == dv.len(),
            n == argv.len(),
            keep <= argv.len(),
            i <= argv.len(),
            scan_redirects(dv, i as int, opt_redirect_view(out), opt_redirect_view(err), keep as int)
                == scanned(dv),
        decreases argv.len() - i,
    {
        proof {
            assert(dv[i as int] == argv[i as int]@);
            assert(dv[i as int + 1] == argv[i as int + 1]@);
        }
        let o = out_op(argv[i].as_str());
        if let Some(append) = o {
            out = Some(Redirect { target: argv[i + 1].clone(), append });
        }
        let e = err_op(argv[i].as_str());
        if let Some(append) = e {
            err = Some(Redirect { target: argv[i + 1].clone(), append });
        }
        if (o.is_some() || e.is_some()) && i < keep {
            keep = i;
        }
        i += 1;
    }
    argv.truncate(keep);
    proof {
        assert(argv.deep_view() =~= dv.take(keep as int));
    }
    Stage { argv, out, err }
}

/// Parses one pipeline stage: tokenize, then remove redirections.
pub fn parse_stage(segment: &str) -> (stage: Stage)
    ensures
        stage.argv.deep_view() == stage_argv(tokens_of(segment@)),
        opt_redirect_view(stage.out) == scanned(tokens_of(segment@)).0,
        opt_redirect_view(stage.err) == scanned(tokens_of(segment@)).1,
{
    let tokens = tokenize(segment);
    extract_redirects(tokens)
}

} // verus!
