//! A plugin that strips sensitive request headers and marks the request as
//! scanned.

use vstd::prelude::*;
use vstd::string::*;
use http::header::HeaderMap;
use crate::action::PluginAction;
use crate::headers::{
    header_entries, header_key, header_present, header_map_contains_key, header_map_remove,
    header_map_try_insert, header_map_keys_len, parse_header_value, HeaderError, GROWTH_LIMIT,
};

verus! {

/// Header contents as the model sees them.
pub type HeaderEntries = Map<Seq<char>, Seq<Seq<u8>>>;

/// The entries with every value under `name` removed (none when `name` is not
/// a valid header name).
pub open spec fn without_name(entries: HeaderEntries, name: Seq<char>) -> HeaderEntries {
    match header_key(name) {
        Some(k) => entries.remove(k),
        None => entries,
    }
}

/// The entries with every listed name removed, one after another.
pub open spec fn without_names(entries: HeaderEntries, names: Seq<Seq<char>>) -> HeaderEntries
    decreases names.len(),
{
    if names.len() == 0 {
        entries
    } else {
        without_name(without_names(entries, names.drop_last()), names.last())
    }
}

/// The listed names that are present when their turn to be removed comes,
/// in list order.
pub open spec fn removed_names(entries: HeaderEntries, names: Seq<Seq<char>>) -> Seq<Seq<char>>
    decreases names.len(),
{
    if names.len() == 0 {
        seq![]
    } else {
        let earlier = names.drop_last();
        removed_names(entries, earlier) + if header_present(without_names(entries, earlier), names.last()) {
            seq![names.last()]
        } else {
            seq![]
        }
    }
}

/// Some listed name has key `k`.
pub open spec fn names_have_key(names: Seq<Seq<char>>, k: Seq<char>) -> bool {
    exists|i: int| 0 <= i < names.len() && header_key(#[trigger] names[i]) == Some(k)
}

/// The key of the header the filter adds.
pub open spec fn scan_key() -> Seq<char> {
    header_key("X-Security-Scan"@).unwrap()
}

/// The scan header's key is `x-security-scan`, the name in lower case.
pub proof fn lemma_scan_key()
    ensures
        header_key("X-Security-Scan"@) is Some,
        scan_key() == "x-security-scan"@,
{
    reveal_strlit("X-Security-Scan");
    reveal_strlit("x-security-scan");
    assert(header_key("X-Security-Scan"@) is Some);
    assert(scan_key() =~= "x-security-scan"@);
}

/// The bytes of the value the filter adds.
pub open spec fn scan_value() -> Seq<u8> {
    "Pass".spec_bytes()
}

/// The headers after filtering: the blocked names removed, then the scan
/// header set to its single value.
pub open spec fn filtered_headers(entries: HeaderEntries, blocked: Seq<Seq<char>>) -> HeaderEntries {
    without_names(entries, blocked).insert(scan_key(), seq![scan_value()])
}

/// Removing names one after another removes exactly the keys of the names.
pub proof fn lemma_without_names(entries: HeaderEntries, names: Seq<Seq<char>>)
    ensures
        forall|k: Seq<char>| #[trigger] without_names(entries, names).dom().contains(k) <==>
            (entries.dom().contains(k) && !names_have_key(names, k)),
        forall|k: Seq<char>| #[trigger] without_names(entries, names).dom().contains(k) ==>
            without_names(entries, names)[k] == entries[k],
        without_names(entries, names).dom().subset_of(entries.dom()),
    decreases names.len(),
{
    if names.len() > 0 {
        let rest = names.drop_last();
        lemma_without_names(entries, rest);
        assert forall|k: Seq<char>| #[trigger] without_names(entries, names).dom().contains(k) <==>
            (entries.dom().contains(k) && !names_have_key(names, k)) by {
            if names_have_key(names, k) {
                let i = choose|i: int| 0 <= i < names.len() && header_key(#[trigger] names[i]) == Some(k);
                if i < names.len() - 1 {
                    assert(rest[i] == names[i]);
                    assert(names_have_key(rest, k));
                }
            }
            if names_have_key(rest, k) {
                let i = choose|i: int| 0 <= i < rest.len() && header_key(#[trigger] rest[i]) == Some(k);
                assert(names[i] == rest[i]);
            }
            if header_key(names.last()) == Some(k) {
                assert(names[names.len() - 1] == names.last());
            }
        }
    }
}

/// The names reported as removed are listed names, in list order, each of
/// which was present before filtering; and each listed name that was present
/// and whose key no earlier listed name shares is reported.
pub proof fn lemma_removed_names(entries: HeaderEntries, names: Seq<Seq<char>>)
    ensures
        removed_names(entries, names).len() <= names.len(),
        forall|i: int| 0 <= i < removed_names(entries, names).len() ==>
            header_present(entries, #[trigger] removed_names(entries, names)[i])
            && names.contains(removed_names(entries, names)[i]),
        forall|j: int| 0 <= j < names.len() && header_present(entries, #[trigger] names[j])
            && (forall|i: int| 0 <= i < j ==> header_key(names[i]) != header_key(names[j]))
            ==> removed_names(entries, names).contains(names[j]),
    decreases names.len(),
{
    if names.len() > 0 {
        let rest = names.drop_last();
        let last = names.last();
        lemma_removed_names(entries, rest);
        lemma_without_names(entries, rest);
        let r = removed_names(entries, names);
        let rr = removed_names(entries, rest);
        assert forall|i: int| 0 <= i < r.len() implies
            header_present(entries, #[trigger] r[i]) && names.contains(r[i]) by {
            if i < rr.len() {
                assert(r[i] == rr[i]);
                let j = choose|j: int| 0 <= j < rest.len() && rest[j] == rr[i];
                assert(names[j] == rest[j]);
            } else {
                assert(r[i] == last);
                assert(names[names.len() - 1] == last);
            }
        }
        assert forall|j: int| 0 <= j < names.len() && header_present(entries, #[trigger] names[j])
            && (forall|i: int| 0 <= i < j ==> header_key(names[i]) != header_key(names[j]))
            implies r.contains(names[j]) by {
            if j < names.len() - 1 {
                assert(rest[j] == names[j]);
                assert(forall|i: int| 0 <= i < j ==> header_key(rest[i]) == header_key(names[i]));
                assert(rr.contains(rest[j]));
                let t = choose|t: int| 0 <= t < rr.len() && rr[t] == rest[j];
                assert(r[t] == rr[t]);
            } else {
                assert(names[j] == last);
                let k = header_key(last).unwrap();
                if names_have_key(rest, k) {
                    let i = choose|i: int| 0 <= i < rest.len() && header_key(#[trigger] rest[i]) == Some(k);
                    assert(rest[i] == names[i]);
                }
                assert(header_present(without_names(entries, rest), last));
                assert(r[rr.len() as int] == last);
            }
        }
    }
}

/// Filtering twice gives what filtering once gives.
pub proof fn lemma_filter_idempotent(entries: HeaderEntries, blocked: Seq<Seq<char>>)
    ensures
        filtered_headers(filtered_headers(entries, blocked), blocked) == filtered_headers(entries, blocked),
{
    let once = filtered_headers(entries, blocked);
    lemma_without_names(entries, blocked);
    lemma_without_names(once, blocked);
    assert(filtered_headers(once, blocked) =~= once);
}

/// Removing the blocked names again from a filtered map changes nothing when
/// no blocked name has the scan header's key: so a second filtering leaves
/// the map as the first left it, whether or not its insertion succeeds.
pub proof fn lemma_refilter_unchanged(entries: HeaderEntries, blocked: Seq<Seq<char>>)
    requires
        !names_have_key(blocked, scan_key()),
    ensures
        without_names(filtered_headers(entries, blocked), blocked) == filtered_headers(entries, blocked),
{
    let once = filtered_headers(entries, blocked);
    lemma_without_names(entries, blocked);
    lemma_without_names(once, blocked);
    assert(without_names(once, blocked) =~= once);
}

/// After filtering, no blocked name is present, except the scan header
/// itself, which holds exactly its one value; every other header is as it was.
pub proof fn lemma_filter_result(entries: HeaderEntries, blocked: Seq<Seq<char>>, name: Seq<char>)
    ensures
        (exists|i: int| 0 <= i < blocked.len() && blocked[i] == name) && header_key(name) != Some(scan_key())
            ==> !header_present(filtered_headers(entries, blocked), name),
        filtered_headers(entries, blocked)[scan_key()] == seq![scan_value()],
        header_key(name) is Some && header_key(name).unwrap() != scan_key()
            && !names_have_key(blocked, header_key(name).unwrap()) ==> {
            let k = header_key(name).unwrap();
            &&& header_present(filtered_headers(entries, blocked), name) == header_present(entries, name)
            &&& header_present(entries, name) ==> filtered_headers(entries, blocked)[k] == entries[k]
        },
{
    lemma_without_names(entries, blocked);
    if exists|i: int| 0 <= i < blocked.len() && blocked[i] == name {
        let i = choose|i: int| 0 <= i < blocked.len() && blocked[i] == name;
        if let Some(k) = header_key(name) {
            assert(header_key(blocked[i]) == Some(k));
            assert(names_have_key(blocked, k));
        }
    }
}

/// Strips the headers `X-Internal-Secret` and `Server` and adds
/// `X-Security-Scan: Pass`.
pub struct HeaderFilterPlugin {
    blocked_headers: Vec<String>,
}

impl HeaderFilterPlugin {
    /// Every name the plugin strips is a valid header name.
    #[verifier::type_invariant]
    closed spec fn names_valid(self) -> bool {
        forall|i: int| 0 <= i < self.blocked_headers@.len() ==> (#[trigger] header_key(self.blocked_headers@[i]@)) is Some
    }

    /// The names this plugin strips.
    pub closed spec fn blocked(&self) -> Seq<Seq<char>> {
        self.blocked_headers@.map_values(|h: String| h@)
    }

    /// A plugin that strips `X-Internal-Secret` and `Server`.
    pub fn new() -> (p: Self)
        ensures
            p.blocked() == seq!["X-Internal-Secret"@, "Server"@],
    {
        let blocked_headers = vec![String::from_str("X-Internal-Secret"), String::from_str("Server")];
        proof {
            reveal_strlit("X-Internal-Secret");
            reveal_strlit("Server");
        }
        assert(header_key(blocked_headers@[0]@) is Some);
        assert(header_key(blocked_headers@[1]@) is Some);
        let p = HeaderFilterPlugin { blocked_headers };
        assert(p.blocked() =~= seq!["X-Internal-Secret"@, "Server"@]);
        p
    }

    /// The plugin's name.
    pub fn name(&self) -> (r: &'static str)
        ensures
            r@ == "header-filter"@,
    {
        "header-filter"
    }

    /// Removes every value of each blocked header present, then sets
    /// `X-Security-Scan` to `Pass`, replacing any value it had; lets the
    /// request through, and answers the blocked names it found and removed,
    /// in order. When the map cannot grow to take the scan header (only
    /// possible with at least `GROWTH_LIMIT` names left after the removals)
    /// the removals stand, nothing is added, and the answer is
    /// `HeaderError::MapFull`.
    pub fn on_request(&self, headers: &mut HeaderMap) -> (r: Result<(PluginAction, Vec<String>), HeaderError>)
        ensures
            r matches Ok((a, removed)) ==> {
                &&& a == PluginAction::Continue
                &&& removed@.map_values(|h: String| h@) == removed_names(header_entries(*old(headers)), self.blocked())
                &&& header_entries(*final(headers)) == filtered_headers(header_entries(*old(headers)), self.blocked())
            },
            r matches Err(e) ==> {
                &&& e is MapFull
                &&& header_entries(*final(headers)) == without_names(header_entries(*old(headers)), self.blocked())
                &&& without_names(header_entries(*old(headers)), self.blocked()).dom().len() >= GROWTH_LIMIT
            },
            header_entries(*old(headers)).dom().finite(),
            header_entries(*old(headers)).dom().len() < GROWTH_LIMIT ==> r is Ok,
    {
        proof {
            use_type_invariant(self);
        }
        let _names = header_map_keys_len(headers);
        let mut removed: Vec<String> = Vec::new();
        let ghost start = header_entries(*headers);
        let ghost blocked = self.blocked();
        let n = self.blocked_headers.len();
        let mut i: usize = 0;
        while i < n
            invariant
                n == self.blocked_headers@.len(),
                blocked == self.blocked(),
                blocked.len() == n,
                forall|j: int| 0 <= j < n ==> (#[trigger] header_key(self.blocked_headers@[j]@)) is Some,
                i <= n,
                header_entries(*headers) == without_names(start, blocked.take(i as int)),
                removed@.map_values(|h: String| h@) == removed_names(start, blocked.take(i as int)),
            decreases n - i,
        {
            let ghost before = header_entries(*headers);
            let header = &self.blocked_headers[i];
            assert(header_key(self.blocked_headers@[i as int]@) is Some);
            let ghost removed_before = removed@;
            if header_map_contains_key(headers, header) {
                header_map_remove(headers, header);
                removed.push(header.clone());
                assert(removed@.map_values(|h: String| h@) =~= removed_before.map_values(|h: String| h@).push(header@));
            } else {
                assert(without_name(before, header@) =~= before);
            }
            assert(blocked.take(i + 1).drop_last() =~= blocked.take(i as int));
            assert(blocked.take(i + 1).last() == header@);
            i = i + 1;
        }
        assert(blocked.take(n as int) =~= blocked);
        proof {
            lemma_without_names(start, blocked);
            vstd::set_lib::lemma_len_subset(header_entries(*headers).dom(), start.dom());
            reveal_strlit("X-Security-Scan");
            reveal_strlit("Pass");
        }
        assert(header_key("X-Security-Scan"@) is Some);
        let value = match parse_header_value("Pass") {
            Ok(v) => v,
            Err(e) => {
                return Err(HeaderError::InvalidValue(e));
            },
        };
        match header_map_try_insert(headers, "X-Security-Scan", value) {
            Ok(()) => Ok((PluginAction::Continue, removed)),
            Err(e) => Err(HeaderError::MapFull(e)),
        }
    }
}

impl Default for HeaderFilterPlugin {
    fn default() -> (p: Self)
        ensures
            p.blocked() == seq!["X-Internal-Secret"@, "Server"@],
    {
        Self::new()
    }
}

} // verus!
