//! A plugin that counts the requests it sees and adds a timing header to
//! every response.

use vstd::prelude::*;
use vstd::string::*;
use vstd::utf8::encode_utf8;
use http::header::HeaderMap;
use crate::action::PluginAction;
use crate::decimal::{all_digits, decimal, decimal_text, digit_char, digits_value, lemma_decimal_denotes};
use crate::headers::{
    header_entries, header_key, header_map_try_insert, is_value_char, parse_header_value, GROWTH_LIMIT,
};

verus! {

/// The key of the timing header.
pub open spec fn timing_key() -> Seq<char> {
    header_key("X-Response-Time"@).unwrap()
}

/// The timing header's key is `x-response-time`, the name in lower case.
pub proof fn lemma_timing_key()
    ensures
        header_key("X-Response-Time"@) is Some,
        timing_key() == "x-response-time"@,
{
    reveal_strlit("X-Response-Time");
    reveal_strlit("x-response-time");
    assert(header_key("X-Response-Time"@) is Some);
    assert(timing_key() =~= "x-response-time"@);
}

/// The text of the timing header for a response that took `duration_ms`
/// milliseconds: the number in decimal followed by `ms`.
pub open spec fn timing_text(duration_ms: nat) -> Seq<char> {
    decimal(duration_ms) + "ms"@
}

/// The timing text reads as the duration: all but its last two characters
/// are digits without a leading zero that read back in base ten as the
/// duration, and the last two are `ms`.
pub proof fn lemma_timing_text_reads_back(duration_ms: nat)
    ensures
        timing_text(duration_ms).len() >= 3,
        all_digits(timing_text(duration_ms).subrange(0, timing_text(duration_ms).len() - 2)),
        digits_value(timing_text(duration_ms).subrange(0, timing_text(duration_ms).len() - 2)) == duration_ms,
        duration_ms > 0 ==> timing_text(duration_ms)[0] != '0',
        timing_text(duration_ms).skip(timing_text(duration_ms).len() - 2) == "ms"@,
{
    reveal_strlit("ms");
    lemma_decimal_denotes(duration_ms);
    let t = timing_text(duration_ms);
    let d = decimal(duration_ms);
    assert(t.subrange(0, t.len() - 2) =~= d);
    assert(t.skip(t.len() - 2) =~= "ms"@);
}

/// Every character of a decimal text is a digit.
pub proof fn lemma_decimal_digits(n: nat)
    ensures
        forall|i: int| 0 <= i < decimal(n).len() ==> '0' <= #[trigger] decimal(n)[i] <= '9',
    decreases n,
{
    if n >= 10 {
        lemma_decimal_digits(n / 10);
        assert forall|i: int| 0 <= i < decimal(n).len() implies '0' <= #[trigger] decimal(n)[i] <= '9' by {
            if i < decimal(n / 10).len() {
                assert(decimal(n)[i] == decimal(n / 10)[i]);
            } else {
                assert(decimal(n)[i] == digit_char(n % 10));
            }
        }
    }
}

/// Counts requests; adds `X-Response-Time: <milliseconds>ms` to responses.
pub struct MetricsPlugin {
    request_count: u64,
}

/// One call a plugin user can make.
pub enum MetricsCall {
    Request,
    Response,
    Count,
    NeedsResponseBody,
}

/// The count after one call, as each call's contract states it: a request
/// adds one, every other call leaves the count.
pub open spec fn count_after(call: MetricsCall, count: nat) -> nat {
    match call {
        MetricsCall::Request => count + 1,
        _ => count,
    }
}

/// The number of requests in a run of calls.
pub open spec fn requests_in(calls: Seq<MetricsCall>) -> nat
    decreases calls.len(),
{
    if calls.len() == 0 {
        0
    } else {
        requests_in(calls.drop_last()) + if calls.last() is Request { 1nat } else { 0nat }
    }
}

/// The counts observed along a run of calls follow the calls' contracts.
pub open spec fn counts_follow(calls: Seq<MetricsCall>, counts: Seq<nat>) -> bool {
    &&& counts.len() == calls.len() + 1
    &&& forall|i: int| 0 <= i < calls.len() ==> counts[i + 1] == count_after(#[trigger] calls[i], counts[i])
}

/// Starting from a new (or default) plugin, whose count is 0, the count after
/// any run of calls is the number of requests among them.
pub proof fn lemma_count_is_requests(calls: Seq<MetricsCall>, counts: Seq<nat>)
    requires
        counts_follow(calls, counts),
        counts[0] == 0,
    ensures
        counts.last() == requests_in(calls),
    decreases calls.len(),
{
    if calls.len() > 0 {
        let k = calls.len() - 1;
        assert(counts_follow(calls.drop_last(), counts.drop_last())) by {
            assert forall|i: int| 0 <= i < calls.drop_last().len() implies counts.drop_last()[i + 1]
                == count_after(#[trigger] calls.drop_last()[i], counts.drop_last()[i]) by {
                assert(calls.drop_last()[i] == calls[i]);
            }
        }
        lemma_count_is_requests(calls.drop_last(), counts.drop_last());
        assert(counts[k + 1] == count_after(calls[k], counts[k]));
    }
}

impl MetricsPlugin {
    /// The number of requests seen so far.
    pub closed spec fn spec_count(&self) -> nat {
        self.request_count as nat
    }

    /// The state of a plugin that has seen nothing.
    pub closed spec fn fresh() -> Self {
        MetricsPlugin { request_count: 0 }
    }

    /// A fresh plugin has counted nothing.
    pub proof fn lemma_fresh_count()
        ensures
            Self::fresh().spec_count() == 0,
    {
    }

    /// A plugin that has seen no request.
    pub fn new() -> (p: Self)
        ensures
            p == Self::fresh(),
            p.spec_count() == 0,
    {
        MetricsPlugin { request_count: 0 }
    }

    /// The number of requests seen so far.
    pub fn count(&self) -> (c: u64)
        ensures
            c == self.spec_count(),
    {
        self.request_count
    }

    /// The plugin's name.
    pub fn name(&self) -> (r: &'static str)
        ensures
            r@ == "metrics"@,
    {
        "metrics"
    }

    /// The plugin's version.
    pub fn version(&self) -> (r: &'static str)
        ensures
            r@ == "1.0.0"@,
    {
        "1.0.0"
    }

    /// Records one request and lets it through. The new count, which is the
    /// request's number, is `count()` afterwards.
    pub fn on_request(&mut self) -> (a: PluginAction)
        requires
            old(self).spec_count() < u64::MAX,
        ensures
            final(self).spec_count() == old(self).spec_count() + 1,
            a == PluginAction::Continue,
    {
        self.request_count = self.request_count + 1;
        PluginAction::Continue
    }

    /// Sets the response header `X-Response-Time` to the response's duration
    /// in milliseconds followed by `ms`, replacing any value it had, and lets
    /// the response through; the count is unchanged. When the header map
    /// cannot grow to take the header (only possible with at least
    /// `GROWTH_LIMIT` names) it is left as it was, and the response still goes
    /// through.
    pub fn on_response(&self, headers: &mut HeaderMap, duration_ms: u64) -> (a: PluginAction)
        ensures
            a == PluginAction::Continue,
            header_entries(*final(headers)) == header_entries(*old(headers)).insert(
                timing_key(),
                seq![encode_utf8(timing_text(duration_ms as nat))],
            ) || (header_entries(*final(headers)) == header_entries(*old(headers))
                && header_entries(*old(headers)).dom().len() >= GROWTH_LIMIT),
            header_entries(*old(headers)).dom().len() < GROWTH_LIMIT ==> header_entries(*final(headers))
                == header_entries(*old(headers)).insert(
                timing_key(),
                seq![encode_utf8(timing_text(duration_ms as nat))],
            ),
    {
        let mut text = decimal_text(duration_ms);
        text.append("ms");
        proof {
            reveal_strlit("ms");
            reveal_strlit("X-Response-Time");
            lemma_decimal_digits(duration_ms as nat);
            let t = timing_text(duration_ms as nat);
            let d = decimal(duration_ms as nat);
            assert forall|i: int| 0 <= i < t.len() implies is_value_char(#[trigger] t[i]) by {
                if i < d.len() {
                    assert(t[i] == d[i]);
                } else {
                    assert(t[i] == "ms"@[i - d.len()]);
                }
            }
        }
        assert(text@ == timing_text(duration_ms as nat));
        assert(header_key("X-Response-Time"@) is Some);
        if let Ok(value) = parse_header_value(text.as_str()) {
            let _ = header_map_try_insert(headers, "X-Response-Time", value);
        }
        PluginAction::Continue
    }

    /// This plugin never reads response bodies.
    pub fn needs_response_body(&self) -> (r: bool)
        ensures
            !r,
    {
        false
    }
}

impl Default for MetricsPlugin {
    /// The same plugin `new` gives.
    fn default() -> (p: Self)
        ensures
            p == Self::fresh(),
            p.spec_count() == 0,
    {
        Self::new()
    }
}

} // verus!
