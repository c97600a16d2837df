//! Command-line flag lookup for the `polish` tool.
use vstd::prelude::*;
use crate::text::str_eq;

verus! {

/// The index of the first argument equal to `flag`.
pub open spec fn flag_index(args: Seq<Seq<char>>, flag: Seq<char>) -> Option<int>
    decreases args.len(),
{
    if args.len() == 0 {
        None
    } else {
        match flag_index(args.drop_last(), flag) {
            Some(i) => Some(i),
            None => if args.last() == flag { Some(args.len() - 1) } else { None },
        }
    }
}

proof fn lemma_flag_index(args: Seq<Seq<char>>, flag: Seq<char>, i: int)
    requires
        0 <= i <= args.len(),
        forall|j: int| 0 <= j < i ==> args[j] != flag,
        i < args.len() ==> args[i] == flag,
    ensures
        flag_index(args, flag) == if i < args.len() { Some(i) } else { None::<int> },
    decreases args.len(),
{
    if args.len() > 0 {
        let t = args.drop_last();
        let k = if i < args.len() - 1 { i } else { args.len() - 1 };
        assert forall|j: int| 0 <= j < k implies t[j] != flag by {
            assert(t[j] == args[j]);
        }
        if i < args.len() - 1 {
            assert(t[i] == args[i]);
        }
        lemma_flag_index(t, flag, k);
    }
}

/// The value after the first occurrence of `flag`, if there is one.
pub fn parse_flag(args: &[String], flag: &str) -> (r: Option<String>)
    ensures
        match flag_index(args@.map_values(|s: String| s@), flag@) {
            Some(i) => if i + 1 < args@.len() {
                r matches Some(v) && v@ == args@[i + 1]@
            } else {
                r is None
            },
            None => r is None,
        },
{
    let ghost av = args@.map_values(|s: String| s@);
    let mut i: usize = 0;
    while i < args.len()
        invariant
            i <= args@.len(),
            av == args@.map_values(|s: String| s@),
            forall|j: int| 0 <= j < i ==> av[j] != flag@,
        decreases args@.len() - i,
    {
        if str_eq(args[i].as_str(), flag) {
            proof {
                lemma_flag_index(av, flag@, i as int);
            }
            if i + 1 < args.len() {
                return Some(args[i + 1].clone());
            }
            return None;
        }
        i = i + 1;
    }
    proof {
        lemma_flag_index(av, flag@, i as int);
    }
    None
}

} // verus!
