//! The decisions of one invocation: which action to run, and the cleanup of
//! the argument path list.  Argument parsing itself is the caller's task;
//! the caller hands in the three mode flags and the raw path arguments.

use vstd::prelude::*;

verus! {

/// The action of one run.
#[derive(PartialEq, Eq, Structural, Debug, Clone, Copy)]
pub enum Mode {
    Apply,
    Remove,
    Check,
}

/// Selects the run mode from the three command flags.  Exactly one flag may
/// be set; any other combination selects no mode, and the run is rejected
/// before any file is touched.
pub fn select_mode(apply: bool, remove: bool, check: bool) -> (r: Option<Mode>)
    ensures
        (r == Some(Mode::Apply)) <==> (apply && !remove && !check),
        (r == Some(Mode::Remove)) <==> (!apply && remove && !check),
        (r == Some(Mode::Check)) <==> (!apply && !remove && check),
        (r is None) <==> !(apply ^ remove ^ check) || (apply && remove && check),
{
    if apply && !remove && !check {
        Some(Mode::Apply)
    } else if !apply && remove && !check {
        Some(Mode::Remove)
    } else if !apply && !remove && check {
        Some(Mode::Check)
    } else {
        None
    }
}

/// The non-empty pieces of `s` split on `\n` and found after the unfinished
/// piece `piece`, which collects the characters read so far.
pub open spec fn split_clean_from(s: Seq<char>, piece: Seq<char>) -> Seq<Seq<char>>
    decreases s.len(),
{
    if s.len() == 0 {
        if piece.len() == 0 {
            Seq::empty()
        } else {
            seq![piece]
        }
    } else if s[0] == '\n' {
        if piece.len() == 0 {
            split_clean_from(s.drop_first(), Seq::empty())
        } else {
            seq![piece] + split_clean_from(s.drop_first(), Seq::empty())
        }
    } else {
        split_clean_from(s.drop_first(), piece.push(s[0]))
    }
}

/// The non-empty pieces of `s` split on `\n`, in order.
pub open spec fn split_clean(s: Seq<char>) -> Seq<Seq<char>> {
    split_clean_from(s, Seq::empty())
}

/// The non-empty newline-separated pieces of every path argument, flattened
/// in input order.
pub open spec fn spec_cleanup(paths: Seq<String>) -> Seq<Seq<char>>
    decreases paths.len(),
{
    if paths.len() == 0 {
        Seq::empty()
    } else {
        split_clean(paths[0]@) + spec_cleanup(paths.drop_first())
    }
}

/// The non-empty pieces of one argument split on `\n`.
fn clean_one(s: &str) -> (out: Vec<String>)
    ensures
        out.deep_view() == split_clean(s@),
{
    let n = s.unicode_len();
    let mut out: Vec<String> = Vec::new();
    let mut start: usize = 0;
    let mut j: usize = 0;
    proof {
        assert(s@.skip(0) =~= s@);
        assert(s@.subrange(0, 0) =~= Seq::<char>::empty());
    }
    while j < n
        invariant
            start <= j <= n,
            n == s@.len(),
            split_clean(s@) == out.deep_view() + split_clean_from(
                s@.skip(j as int),
                s@.subrange(start as int, j as int),
            ),
        decreases n - j,
    {
        let ch = s.get_char(j);
        proof {
            assert(s@.skip(j as int)[0] == s@[j as int]);
            assert(s@.skip(j as int).drop_first() =~= s@.skip(j as int + 1));
        }
        if ch == '\n' {
            if j > start {
                let piece = s.substring_char(start, j);
                let ghost pre = out.deep_view();
                out.push(String::from_str(piece));
                proof {
                    assert(out.deep_view() =~= pre.push(s@.subrange(start as int, j as int)));
                    assert(out.deep_view() + split_clean_from(
                        s@.skip(j as int + 1),
                        Seq::<char>::empty(),
                    ) =~= split_clean(s@));
                }
            }
            start = j + 1;
            j = j + 1;
            proof {
                assert(s@.subrange(start as int, j as int) =~= Seq::<char>::empty());
            }
        } else {
            proof {
                assert(s@.subrange(start as int, j as int + 1) =~= s@.subrange(
                    start as int,
                    j as int,
                ).push(s@[j as int]));
            }
            j = j + 1;
        }
    }
    proof {
        assert(s@.skip(n as int) =~= Seq::<char>::empty());
    }
    if start < n {
        let piece = s.substring_char(start, n);
        let ghost pre = out.deep_view();
        out.push(String::from_str(piece));
        proof {
            assert(out.deep_view() =~= pre.push(s@.subrange(start as int, n as int)));
            assert(out.deep_view() =~= split_clean(s@));
        }
    } else {
        proof {
            assert(s@.subrange(start as int, n as int) =~= Seq::<char>::empty());
            assert(out.deep_view() =~= split_clean(s@));
        }
    }
    out
}

/// Splits every path argument on embedded newlines and drops the empty
/// entries, yielding a flat, order-preserving list of file paths.
pub fn cleanup_file_list(paths: &Vec<String>) -> (out: Vec<String>)
    ensures
        out.deep_view() == spec_cleanup(paths@),
{
    let mut out: Vec<String> = Vec::new();
    let n = paths.len();
    let mut i: usize = 0;
    proof {
        assert(paths@.skip(0) =~= paths@);
    }
    while i < n
        invariant
            i <= n,
            n == paths@.len(),
            spec_cleanup(paths@) == out.deep_view() + spec_cleanup(paths@.skip(i as int)),
        decreases n - i,
    {
        proof {
            assert(paths@.skip(i as int)[0] == paths@[i as int]);
            assert(paths@.skip(i as int).drop_first() =~= paths@.skip(i as int + 1));
        }
        let mut pieces = clean_one(paths[i].as_str());
        let ghost pre = out.deep_view();
        let ghost pieces_view = pieces.deep_view();
        out.append(&mut pieces);
        proof {
            assert(out.deep_view() =~= pre + pieces_view);
            assert(out.deep_view() + spec_cleanup(paths@.skip(i as int + 1)) =~= spec_cleanup(
                paths@,
            ));
        }
        i = i + 1;
    }
    proof {
        assert(paths@.skip(n as int) =~= Seq::<String>::empty());
        assert(out.deep_view() =~= spec_cleanup(paths@));
    }
    out
}

} // verus!
