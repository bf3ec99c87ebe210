use vstd::prelude::*;
use vstd::string::StringExecFns;

verus! {

/// What the command line asks for: the root to watch and the shell command to
/// run after changes settle.
#[derive(Debug)]
pub struct Invocation {
    /// The path whose tree is watched recursively.
    pub watch_path: String,
    /// The shell command text, the remaining arguments rejoined with spaces.
    pub command: String,
}

/// The words joined with a single space between each pair, in order.
pub open spec fn space_joined(parts: Seq<Seq<char>>) -> Seq<char>
    decreases parts.len(),
{
    if parts.len() == 0 {
        Seq::empty()
    } else if parts.len() == 1 {
        parts.last()
    } else {
        space_joined(parts.drop_last()) + " "@ + parts.last()
    }
}

/// Joins the words from `start` on with single spaces.
pub fn join_with_spaces(parts: &Vec<String>, start: usize) -> (r: String)
    requires
        start <= parts.len(),
    ensures
        r@ == space_joined(parts.deep_view().skip(start as int)),
{
    let mut r = String::new();
    let mut i: usize = start;
    while i < parts.len()
        invariant
            start <= i <= parts.len(),
            r@ == space_joined(parts.deep_view().subrange(start as int, i as int)),
        decreases parts.len() - i,
    {
        if i > start {
            r.append(" ");
        }
        r.append(parts[i].as_str());
        proof {
            let all = parts.deep_view();
            let upto = all.subrange(start as int, i + 1 as int);
            assert(upto.drop_last() =~= all.subrange(start as int, i as int));
            assert(upto.last() == parts[i as int]@);
            if i == start {
                assert(r@ =~= space_joined(upto));
            }
        }
        i += 1;
    }
    proof {
        assert(parts.deep_view().subrange(start as int, parts.len() as int) =~= parts.deep_view()
            .skip(start as int));
    }
    r
}

/// Reads the program's arguments: the first is the watch path, the rest —
/// which must not be empty — are rejoined with single spaces into the command
/// text. Fewer than two arguments are rejected.
pub fn parse_args(args: &Vec<String>) -> (r: Option<Invocation>)
    ensures
        args@.len() < 2 <==> r is None,
        args@.len() >= 2 ==> (r matches Some(inv) && inv.watch_path@ == args.deep_view()[0]
            && inv.command@ == space_joined(args.deep_view().skip(1))),
{
    if args.len() < 2 {
        None
    } else {
        let watch_path = args[0].clone();
        let command = join_with_spaces(args, 1);
        Some(Invocation { watch_path, command })
    }
}

} // verus!
