//! A plugin that refuses requests whose path begins with a blocked prefix.

use vstd::prelude::*;
use vstd::string::*;
use crate::action::{PluginAction, FORBIDDEN};

verus! {

/// `prefix` is a prefix of `s`.
pub open spec fn is_prefix_of(prefix: Seq<char>, s: Seq<char>) -> bool {
    prefix.len() <= s.len() && s.subrange(0, prefix.len() as int) == prefix
}

/// Some blocked prefix is a prefix of `path`.
pub open spec fn path_is_blocked(blocked: Seq<Seq<char>>, path: Seq<char>) -> bool {
    exists|i: int| 0 <= i < blocked.len() && is_prefix_of(blocked[i], path)
}

/// The reason given when a path is refused.
pub open spec fn forbidden_reason(path: Seq<char>) -> Seq<char> {
    "Access to "@ + path + " is forbidden"@
}

/// Whether `prefix` is a prefix of `s`, compared character by character.
pub fn starts_with(s: &str, prefix: &str) -> (r: bool)
    ensures
        r == is_prefix_of(prefix@, s@),
        r == (prefix@.len() <= s@.len() && forall|j: int| 0 <= j < prefix@.len() ==> s@[j] == prefix@[j]),
{
    proof {
        lemma_prefix_means_leading_chars(prefix@, s@);
    }
    let n = s.unicode_len();
    let m = prefix.unicode_len();
    if m > n {
        return false;
    }
    let mut i: usize = 0;
    while i < m
        invariant
            n == s@.len(),
            m == prefix@.len(),
            m <= n,
            i <= m,
            forall|j: int| 0 <= j < i ==> s@[j] == prefix@[j],
        decreases m - i,
    {
        if s.get_char(i) != prefix.get_char(i) {
            assert(s@.subrange(0, m as int)[i as int] != prefix@[i as int]);
            return false;
        }
        i = i + 1;
    }
    assert(s@.subrange(0, m as int) =~= prefix@);
    true
}

/// A prefix is exactly a run of leading characters: `prefix` is a prefix of
/// `s` when it is no longer than `s` and every one of its characters, the
/// last included, equals `s`'s character at the same position.
pub proof fn lemma_prefix_means_leading_chars(prefix: Seq<char>, s: Seq<char>)
    ensures
        is_prefix_of(prefix, s) <==> (prefix.len() <= s.len()
            && forall|j: int| 0 <= j < prefix.len() ==> s[j] == prefix[j]),
{
    if prefix.len() <= s.len() && forall|j: int| 0 <= j < prefix.len() ==> s[j] == prefix[j] {
        assert(s.subrange(0, prefix.len() as int) =~= prefix);
    }
    if is_prefix_of(prefix, s) {
        assert forall|j: int| 0 <= j < prefix.len() implies s[j] == prefix[j] by {
            assert(s.subrange(0, prefix.len() as int)[j] == s[j]);
        }
    }
}

/// `prefix` begins `s` exactly when `s` is `prefix` followed by the rest of
/// `s`; and `prefix` begins whatever text starts with it.
pub proof fn lemma_prefix_splits(prefix: Seq<char>, s: Seq<char>, rest: Seq<char>)
    ensures
        is_prefix_of(prefix, s) ==> s == prefix + s.skip(prefix.len() as int),
        is_prefix_of(prefix, prefix + rest),
        s == prefix + rest ==> is_prefix_of(prefix, s),
{
    if is_prefix_of(prefix, s) {
        assert(s =~= s.subrange(0, prefix.len() as int) + s.skip(prefix.len() as int));
    }
    assert((prefix + rest).subrange(0, prefix.len() as int) =~= prefix);
}

/// Each listed prefix blocks a path on its own, whatever the other prefixes
/// are; and a blocked path has a listed prefix matching its leading
/// characters, compared in full.
pub proof fn lemma_blocking_is_by_each_prefix(blocked: Seq<Seq<char>>, path: Seq<char>, i: int)
    ensures
        0 <= i < blocked.len() && is_prefix_of(blocked[i], path) ==> path_is_blocked(blocked, path),
        0 <= i < blocked.len() && blocked[i].len() <= path.len()
            && path.subrange(0, blocked[i].len() as int) == blocked[i] ==> path_is_blocked(blocked, path),
        path_is_blocked(blocked, path) <==> exists|k: int| 0 <= k < blocked.len() && (#[trigger] blocked[k]).len() <= path.len()
            && path.subrange(0, blocked[k].len() as int) == blocked[k],
{
}

/// The reason names the refused path: `Access to `, the path, then
/// ` is forbidden`.
pub proof fn lemma_reason_names_path(path: Seq<char>)
    ensures
        forbidden_reason(path).len() == path.len() + 23,
        forbidden_reason(path).subrange(0, 10) == "Access to "@,
        forbidden_reason(path).subrange(10, 10 + path.len() as int) == path,
        forbidden_reason(path).skip(10 + path.len() as int) == " is forbidden"@,
{
    reveal_strlit("Access to ");
    reveal_strlit(" is forbidden");
    let r = forbidden_reason(path);
    assert(r.subrange(0, 10) =~= "Access to "@);
    assert(r.subrange(10, 10 + path.len() as int) =~= path);
    assert(r.skip(10 + path.len() as int) =~= " is forbidden"@);
}

/// Refuses requests to paths under any of a list of prefixes.
pub struct PathBlockerPlugin {
    blocked_paths: Vec<String>,
}

impl PathBlockerPlugin {
    /// The blocked prefixes, in the order given.
    pub closed spec fn blocked(&self) -> Seq<Seq<char>> {
        self.blocked_paths@.map_values(|p: String| p@)
    }

    /// A plugin that blocks the given prefixes.
    pub fn new(blocked_paths: Vec<String>) -> (p: Self)
        ensures
            p.blocked() == blocked_paths@.map_values(|s: String| s@),
    {
        PathBlockerPlugin { blocked_paths }
    }

    /// The plugin's name.
    pub fn name(&self) -> (r: &'static str)
        ensures
            r@ == "path-blocker"@,
    {
        "path-blocker"
    }

    /// Refuses with 403 and "Access to {path} is forbidden" when some blocked
    /// prefix begins `path`; lets the request through otherwise.
    pub fn on_request(&self, path: &str) -> (a: PluginAction)
        ensures
            path_is_blocked(self.blocked(), path@) ==> (a matches PluginAction::Reject { status, reason }
                && status == FORBIDDEN && reason@ == forbidden_reason(path@)),
            !path_is_blocked(self.blocked(), path@) ==> a == PluginAction::Continue,
            (a !is Continue) <==> exists|k: int| 0 <= k < self.blocked().len()
                && (#[trigger] self.blocked()[k]).len() <= path@.len()
                && path@.subrange(0, self.blocked()[k].len() as int) == self.blocked()[k],
    {
        proof {
            lemma_blocking_is_by_each_prefix(self.blocked(), path@, 0);
        }
        let ghost blocked = self.blocked();
        let n = self.blocked_paths.len();
        let mut i: usize = 0;
        while i < n
            invariant
                n == self.blocked_paths@.len(),
                blocked == self.blocked(),
                blocked.len() == n,
                i <= n,
                forall|j: int| 0 <= j < i ==> !is_prefix_of(#[trigger] blocked[j], path@),
            decreases n - i,
        {
            if starts_with(path, self.blocked_paths[i].as_str()) {
                assert(is_prefix_of(blocked[i as int], path@));
                let mut reason = String::from_str("Access to ");
                reason.append(path);
                reason.append(" is forbidden");
                return PluginAction::Reject { status: FORBIDDEN, reason };
            }
            i = i + 1;
        }
        PluginAction::Continue
    }
}

/// A blocked path stays blocked whatever is appended to it: blocking is by
/// prefix, so every path below a blocked path is blocked too.
pub proof fn lemma_blocked_extends(blocked: Seq<Seq<char>>, path: Seq<char>, suffix: Seq<char>)
    requires
        path_is_blocked(blocked, path),
    ensures
        path_is_blocked(blocked, path + suffix),
{
    let i = choose|i: int| 0 <= i < blocked.len() && is_prefix_of(blocked[i], path);
    let p = blocked[i];
    assert((path + suffix).subrange(0, p.len() as int) =~= path.subrange(0, p.len() as int));
    assert(is_prefix_of(blocked[i], path + suffix));
}

} // verus!
