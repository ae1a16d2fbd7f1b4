//! Command-line helpers of the translation tool.

use vstd::prelude::*;
use vstd::string::StringExecFns;

verus! {

/// Position of the first argument equal to `key`; the number of arguments
/// when there is none.
pub open spec fn first_position(args: Seq<String>, key: Seq<char>) -> int
    decreases args.len(),
{
    if args.len() == 0 {
        0
    } else if args[0]@ == key {
        0
    } else {
        1 + first_position(args.drop_first(), key)
    }
}

proof fn lemma_first_position(args: Seq<String>, key: Seq<char>, i: int)
    requires
        0 <= i <= args.len(),
        forall|q: int| 0 <= q < i ==> (#[trigger] args[q])@ != key,
        i < args.len() ==> args[i]@ == key,
    ensures
        first_position(args, key) == i,
    decreases i,
{
    if i > 0 {
        let rest = args.drop_first();
        assert forall|q: int| 0 <= q < i - 1 implies (#[trigger] rest[q])@ != key by {
            assert(rest[q] == args[q + 1]);
        }
        if i < args.len() {
            assert(rest[i - 1] == args[i]);
        }
        lemma_first_position(rest, key, i - 1);
    }
}

/// The argument that follows the first occurrence of `key`, if both exist.
pub fn arg_value(args: &[String], key: &str) -> (r: Option<String>)
    ensures
        r is Some <==> first_position(args@, key@) + 1 < args@.len(),
        r matches Some(v) ==> v@ == args@[first_position(args@, key@) + 1]@,
{
    let wanted = String::from_str(key);
    let n = args.len();
    for i in 0..n
        invariant
            n == args@.len(),
            wanted@ == key@,
            forall|q: int| 0 <= q < i ==> (#[trigger] args@[q])@ != key@,
    {
        if args[i] == wanted {
            proof {
                lemma_first_position(args@, key@, i as int);
            }
            if i + 1 < n {
                return Some(args[i + 1].clone());
            } else {
                return None;
            }
        }
    }
    proof {
        lemma_first_position(args@, key@, n as int);
    }
    None
}

} // verus!
