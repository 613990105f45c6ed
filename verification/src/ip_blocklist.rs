//! A plugin that refuses requests from listed client addresses.

use vstd::prelude::*;
use crate::action::{PluginAction, FORBIDDEN};
use vstd::string::*;
use std::collections::HashSet;

verus! {

/// A client IP address: IPv4 as its 32-bit number, IPv6 as its 128-bit number.
/// An IPv4 address and an IPv6 address are never equal, even when the IPv6
/// address is IPv4-mapped.
#[derive(Debug, Clone, Copy, PartialEq, Eq, Structural)]
pub enum IpAddress {
    V4(u32),
    V6(u128),
}

/// Refuses requests whose client address is on a block list.
pub struct IpBlocklistPlugin {
    blocked_v4: HashSet<u32>,
    blocked_v6: HashSet<u128>,
}

impl IpBlocklistPlugin {
    /// The set of blocked addresses.
    pub closed spec fn blocked(&self) -> Set<IpAddress> {
        Set::new(|ip: IpAddress| match ip {
            IpAddress::V4(a) => self.blocked_v4@.contains(a),
            IpAddress::V6(a) => self.blocked_v6@.contains(a),
        })
    }

    /// A plugin that blocks exactly the given addresses; repeats and order
    /// do not matter.
    pub fn new(ips: Vec<IpAddress>) -> (p: Self)
        ensures
            p.blocked() == ips@.to_set(),
    {
        broadcast use vstd::std_specs::hash::group_hash_axioms;
        let mut blocked_v4: HashSet<u32> = HashSet::new();
        let mut blocked_v6: HashSet<u128> = HashSet::new();
        let n = ips.len();
        let mut i: usize = 0;
        while i < n
            invariant
                n == ips@.len(),
                i <= n,
                forall|a: u32| blocked_v4@.contains(a) <==> ips@.subrange(0, i as int).contains(IpAddress::V4(a)),
                forall|a: u128| blocked_v6@.contains(a) <==> ips@.subrange(0, i as int).contains(IpAddress::V6(a)),
            decreases n - i,
        {
            let ghost prev = ips@.subrange(0, i as int);
            let ghost next = ips@.subrange(0, i + 1);
            assert(next =~= prev.push(ips@[i as int]));
            match ips[i] {
                IpAddress::V4(a) => {
                    blocked_v4.insert(a);
                },
                IpAddress::V6(a) => {
                    blocked_v6.insert(a);
                },
            }
            assert forall|x: IpAddress| next.contains(x) <==> (prev.contains(x) || x == ips@[i as int]) by {
                if next.contains(x) {
                    let j = choose|j: int| 0 <= j < next.len() && next[j] == x;
                    if j < prev.len() {
                        assert(prev[j] == x);
                    }
                }
                if prev.contains(x) {
                    let j = choose|j: int| 0 <= j < prev.len() && prev[j] == x;
                    assert(next[j] == x);
                }
                if x == ips@[i as int] {
                    assert(next[i as int] == x);
                }
            }
            i = i + 1;
        }
        assert(ips@.subrange(0, n as int) =~= ips@);
        let p = IpBlocklistPlugin { blocked_v4, blocked_v6 };
        assert(p.blocked() =~= ips@.to_set());
        p
    }

    /// The plugin's name.
    pub fn name(&self) -> (r: &'static str)
        ensures
            r@ == "ip-blocklist"@,
    {
        "ip-blocklist"
    }

    /// Whether `ip` is blocked.
    pub fn is_blocked(&self, ip: IpAddress) -> (r: bool)
        ensures
            r == self.blocked().contains(ip),
    {
        broadcast use vstd::std_specs::hash::group_hash_axioms;
        match ip {
            IpAddress::V4(a) => self.blocked_v4.contains(&a),
            IpAddress::V6(a) => self.blocked_v6.contains(&a),
        }
    }

    /// Refuses with 403 and "IP Address Blocked" when the client address is
    /// blocked; lets the request through otherwise.
    pub fn on_request(&self, client_ip: IpAddress) -> (a: PluginAction)
        ensures
            self.blocked().contains(client_ip) ==> (a matches PluginAction::Reject { status, reason }
                && status == FORBIDDEN && reason@ == "IP Address Blocked"@),
            !self.blocked().contains(client_ip) ==> a == PluginAction::Continue,
    {
        if self.is_blocked(client_ip) {
            PluginAction::Reject { status: FORBIDDEN, reason: String::from_str("IP Address Blocked") }
        } else {
            PluginAction::Continue
        }
    }
}

} // verus!
