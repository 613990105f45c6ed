//! Command-line flag lookup: `--flag value` pairs.

use vstd::prelude::*;
use vstd::string::*;

verus! {

/// The views of a list of argument strings.
pub open spec fn arg_views(args: Seq<String>) -> Seq<Seq<char>> {
    args.map_values(|a: String| a@)
}

/// `i` is the first position at which `flag` occurs in `args`.
pub open spec fn is_first_flag(args: Seq<Seq<char>>, flag: Seq<char>, i: int) -> bool {
    &&& 0 <= i < args.len()
    &&& args[i] == flag
    &&& forall|j: int| 0 <= j < i ==> args[j] != flag
}

/// The value that follows the first occurrence of `flag`, if the flag occurs
/// and is not the last argument.
pub open spec fn flag_value(args: Seq<Seq<char>>, flag: Seq<char>) -> Option<Seq<char>> {
    if exists|i: int| is_first_flag(args, flag, i) {
        let i = choose|i: int| is_first_flag(args, flag, i);
        if i + 1 < args.len() {
            Some(args[i + 1])
        } else {
            None
        }
    } else {
        None
    }
}

/// A flag has at most one first position.
pub proof fn lemma_first_flag_unique(args: Seq<Seq<char>>, flag: Seq<char>, i: int, j: int)
    requires
        is_first_flag(args, flag, i),
        is_first_flag(args, flag, j),
    ensures
        i == j,
{
    if i < j {
        assert(args[i] != flag);
    } else if j < i {
        assert(args[j] != flag);
    }
}

/// The flag's value is found wherever on the command line the flag first
/// stands, however long the command line: the argument right after that
/// first occurrence, none when the flag is the last argument, and none when
/// the flag does not occur at all.
pub proof fn lemma_flag_value_at(args: Seq<Seq<char>>, flag: Seq<char>, i: int)
    ensures
        0 <= i && i + 1 < args.len() && args[i] == flag && (forall|j: int| 0 <= j < i ==> args[j] != flag)
            ==> flag_value(args, flag) == Some(args[i + 1]),
        i + 1 == args.len() && args[i] == flag && (forall|j: int| 0 <= j < i ==> args[j] != flag)
            ==> flag_value(args, flag) is None,
        (forall|j: int| 0 <= j < args.len() ==> args[j] != flag) ==> flag_value(args, flag) is None,
{
    if 0 <= i < args.len() && args[i] == flag && (forall|j: int| 0 <= j < i ==> args[j] != flag) {
        assert(is_first_flag(args, flag, i));
        let k = choose|k: int| is_first_flag(args, flag, k);
        lemma_first_flag_unique(args, flag, k, i);
    }
}

/// Arguments that do not contain the flag, put in front, do not change the
/// value the flag is given.
pub proof fn lemma_flag_value_skips_prefix(prefix: Seq<Seq<char>>, args: Seq<Seq<char>>, flag: Seq<char>)
    requires
        forall|i: int| 0 <= i < prefix.len() ==> prefix[i] != flag,
    ensures
        flag_value(prefix + args, flag) == flag_value(args, flag),
{
    let all = prefix + args;
    let p = prefix.len() as int;
    if exists|i: int| is_first_flag(args, flag, i) {
        let i = choose|i: int| is_first_flag(args, flag, i);
        assert(is_first_flag(all, flag, p + i)) by {
            assert(all[p + i] == args[i]);
            assert forall|j: int| 0 <= j < p + i implies all[j] != flag by {
                if j < p {
                    assert(all[j] == prefix[j]);
                } else {
                    assert(all[j] == args[j - p]);
                }
            }
        }
        let k = choose|k: int| is_first_flag(all, flag, k);
        lemma_first_flag_unique(all, flag, k, p + i);
        if i + 1 < args.len() {
            assert(all[p + i + 1] == args[i + 1]);
        }
    } else {
        if exists|k: int| is_first_flag(all, flag, k) {
            let k = choose|k: int| is_first_flag(all, flag, k);
            if k < p {
                assert(all[k] == prefix[k]);
            } else {
                assert(all[k] == args[k - p]);
                assert(is_first_flag(args, flag, k - p)) by {
                    assert forall|j: int| 0 <= j < k - p implies args[j] != flag by {
                        assert(all[j + p] == args[j]);
                    }
                }
            }
        }
    }
}

/// Once a flag has a value, arguments added after do not change it.
pub proof fn lemma_flag_value_extends(args: Seq<Seq<char>>, extra: Seq<Seq<char>>, flag: Seq<char>)
    requires
        flag_value(args, flag) is Some,
    ensures
        flag_value(args + extra, flag) == flag_value(args, flag),
{
    let all = args + extra;
    let i = choose|i: int| is_first_flag(args, flag, i);
    assert(is_first_flag(all, flag, i)) by {
        assert(all[i] == args[i]);
        assert forall|j: int| 0 <= j < i implies all[j] != flag by {
            assert(all[j] == args[j]);
        }
    }
    let k = choose|k: int| is_first_flag(all, flag, k);
    lemma_first_flag_unique(all, flag, k, i);
    assert(all[i + 1] == args[i + 1]);
}

/// Character-wise equality of two string slices.
pub fn str_equal(a: &str, b: &str) -> (r: bool)
    ensures
        r == (a@ == b@),
{
    let n = a.unicode_len();
    let m = b.unicode_len();
    if n != m {
        return false;
    }
    let mut i: usize = 0;
    while i < n
        invariant
            n == a@.len(),
            m == b@.len(),
            n == m,
            i <= n,
            forall|j: int| 0 <= j < i ==> a@[j] == b@[j],
        decreases n - i,
    {
        if a.get_char(i) != b.get_char(i) {
            return false;
        }
        i = i + 1;
    }
    assert(a@ =~= b@);
    true
}

/// Looks up the value given after `flag` on a command line: the argument that
/// follows the first occurrence of `flag`, or `None` when the flag is absent or
/// is the last argument.
pub fn get_arg(args: &[String], flag: &str) -> (r: Option<String>)
    ensures
        match r {
            Some(v) => flag_value(arg_views(args@), flag@) == Some(v@),
            None => flag_value(arg_views(args@), flag@) is None,
        },
{
    let ghost views = arg_views(args@);
    let n = args.len();
    let mut i: usize = 0;
    while i < n
        invariant
            n == args@.len(),
            views == arg_views(args@),
            i <= n,
            forall|j: int| 0 <= j < i ==> views[j] != flag@,
        decreases n - i,
    {
        if str_equal(args[i].as_str(), flag) {
            assert(is_first_flag(views, flag@, i as int));
            proof {
                let k = choose|k: int| is_first_flag(views, flag@, k);
                assert(k == i as int);
            }
            if i + 1 < n {
                return Some(args[i + 1].clone());
            } else {
                return None;
            }
        }
        i = i + 1;
    }
    assert(!exists|k: int| is_first_flag(views, flag@, k));
    None
}

} // verus!
