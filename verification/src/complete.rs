//! Command completion: the known command names that start with what has
//! been typed so far, in their listed order. The line editor around the
//! shell turns these into its completion candidates.
use vstd::prelude::*;

verus! {

/// The command names with `line` as a prefix, in order.
pub open spec fn matching_commands(cmds: Seq<Seq<char>>, line: Seq<char>) -> Seq<Seq<char>>
    decreases cmds.len(),
{
    if cmds.len() == 0 {
        Seq::empty()
    } else if line.is_prefix_of(cmds.last()) {
        matching_commands(cmds.drop_last(), line).push(cmds.last())
    } else {
        matching_commands(cmds.drop_last(), line)
    }
}

/// Whether `line` is a prefix of `cmd`.
pub fn is_prefix(line: &str, cmd: &str) -> (r: bool)
    ensures
        r == line@.is_prefix_of(cmd@),
{
    let n = line.unicode_len();
    let m = cmd.unicode_len();
    if n > m {
        proof {
            assert(!line@.is_prefix_of(cmd@));
        }
        return false;
    }
    let mut i: usize = 0;
    while i < n
        invariant
            n == line@.len(),
            m == cmd@.len(),
            n <= m,
            i <= n,
            forall|j: int| 0 <= j < i ==> line@[j] == cmd@[j],
        decreases n - i,
    {
        if line.get_char(i) != cmd.get_char(i) {
            proof {
                assert(cmd@.subrange(0, n as int)[i as int] == cmd@[i as int]);
                assert(!line@.is_prefix_of(cmd@));
            }
            return false;
        }
        i += 1;
    }
    proof {
        assert(line@ =~= cmd@.subrange(0, n as int));
    }
    true
}

/// The known command names that start with the given line.
pub fn completions(commands: &Vec<String>, line: &str) -> (r: Vec<String>)
    ensures
        r.deep_view() == matching_commands(commands.deep_view(), line@),
{
    let ghost dv = commands.deep_view();
    let mut r: Vec<String> = Vec::new();
    let mut i: usize = 0;
    proof {
        assert(r.deep_view() =~= Seq::<Seq<char>>::empty());
        assert(dv.take(0) =~= Seq::<Seq<char>>::empty());
    }
    while i < commands.len()
        invariant
            dv == commands.deep_view(),
            dv.len() == commands.len(),
            i <= commands.len(),
            r.deep_view() == matching_commands(dv.take(i as int), line@),
        decreases commands.len() - i,
    {
        let ghost prev = r.deep_view();
        proof {
            assert(dv.take(i as int + 1).drop_last() =~= dv.take(i as int));
            assert(dv.take(i as int + 1).last() == dv[i as int]);
            assert(dv[i as int] == commands[i as int]@);
        }
        if is_prefix(line, commands[i].as_str()) {
            r.push(commands[i].clone());
            proof {
                assert(r.deep_view() =~= prev.push(dv[i as int]));
            }
        }
        i += 1;
    }
    proof {
        assert(dv.take(commands.len() as int) =~= dv);
    }
    r
}

} // verus!
