//! The usage meter of one license identity.
//!
//! A charge is admitted or refused as a whole: where it is refused, neither
//! the usage counters nor the meter change. Admission is limited by a token
//! bucket where the terms give a rate limit, and by what the kind of license
//! allows. The bucket is kept as its deficit, the number of tokens taken and
//! not yet refilled, so that a bucket that was never used is full.
//! Times are in seconds.

use vstd::prelude::*;
use crate::encoding::{receipt_message, receipt_signing_bytes};
use crate::ids::{ExpertId, PublicKey, RequestId, ShardId, Signature};
use crate::types::{LicenseTerms, LicenseType, LicenseUsage, RateLimit, ReceiptView, UsageReceipt};

verus! {

/// Why a charge was refused.
#[derive(Debug, Clone, Copy, PartialEq, Eq, Structural)]
pub enum RateLimited {
    /// The token bucket of the rate limit is empty.
    Throttled,
    /// The license allows no more requests or tokens, or a counter is at its
    /// end.
    QuotaExceeded,
    /// The credits of a pay-per-use license do not cover the charge.
    InsufficientCredit,
}

/// How many tokens a named community tier allows.
#[derive(Debug)]
pub struct Allowance {
    pub tier: String,
    pub max_tokens: u64,
}

/// The number of millionths in one credit.
pub const MICROS_PER_CREDIT: u64 = 1_000_000;

/// What a meter holds.
pub ghost struct MeterView {
    /// Tokens taken from the bucket and not yet refilled, as of `stamp`.
    pub deficit: u64,
    /// The time of the last admitted charge.
    pub stamp: u64,
    /// Requests that were admitted and have not been released.
    pub in_flight: u32,
    pub allowances: Seq<Allowance>,
}

/// The tokens that a community tier of this name allows: of several
/// allowances of one name the last, and none where the name is unknown.
pub open spec fn allowance_for(allowances: Seq<Allowance>, tier: Seq<char>) -> u64
    decreases allowances.len(),
{
    if allowances.len() == 0 {
        0
    } else if allowances.last().tier@ == tier {
        allowances.last().max_tokens
    } else {
        allowance_for(allowances.drop_last(), tier)
    }
}

/// The deficit of the bucket at the time `now`: each second since the
/// stamp refills `rate` tokens, until none is missing.
pub open spec fn deficit_at(deficit: u64, stamp: u64, now: u64, rate: u32) -> int {
    if now > stamp {
        let refill = (now - stamp) * rate;
        if refill >= deficit {
            0
        } else {
            deficit - refill
        }
    } else {
        deficit as int
    }
}

/// Whether the rate limit refuses a request at the time `now`: the bucket,
/// which holds `burst_size` tokens when full, holds none.
pub open spec fn throttled(m: MeterView, limit: Option<RateLimit>, now: u64) -> bool {
    match limit {
        Some(limit) => deficit_at(m.deficit, m.stamp, now, limit.requests_per_second)
            >= limit.burst_size,
        None => false,
    }
}

/// Whether the kind of license refuses the charge, and why.
pub open spec fn license_refusal(
    m: MeterView,
    usage: LicenseUsage,
    license_type: LicenseType,
    tokens: u32,
) -> Option<RateLimited> {
    match license_type {
        LicenseType::Subscription { tier, max_requests_per_day } => if usage.requests_made
            < max_requests_per_day {
            None
        } else {
            Some(RateLimited::QuotaExceeded)
        },
        LicenseType::PayPerUse { credits, cost_per_token_micros } => if (usage.tokens_used
            + tokens) * cost_per_token_micros <= credits * MICROS_PER_CREDIT {
            None
        } else {
            Some(RateLimited::InsufficientCredit)
        },
        LicenseType::Enterprise { unlimited, max_concurrent_requests } => if unlimited
            || m.in_flight < max_concurrent_requests {
            None
        } else {
            Some(RateLimited::QuotaExceeded)
        },
        LicenseType::Community { tier } => if usage.tokens_used + tokens <= allowance_for(
            m.allowances,
            tier@,
        ) {
            None
        } else {
            Some(RateLimited::QuotaExceeded)
        },
    }
}

/// Whether a charge of `tokens` at the time `now` is refused, and why. The
/// rate limit is asked first, then the counters' room, then the kind of
/// license.
pub open spec fn refusal(
    m: MeterView,
    usage: LicenseUsage,
    terms: LicenseTerms,
    tokens: u32,
    now: u64,
) -> Option<RateLimited> {
    if throttled(m, terms.rate_limit, now) {
        Some(RateLimited::Throttled)
    } else if usage.tokens_used + tokens > u64::MAX || usage.requests_made + 1 > u64::MAX
        || m.in_flight + 1 > u32::MAX {
        Some(RateLimited::QuotaExceeded)
    } else {
        license_refusal(m, usage, terms.license_type, tokens)
    }
}

/// The meter after an admitted charge: one more token is missing from the
/// refilled bucket, where there is a rate limit, and one more request is in
/// flight.
pub open spec fn meter_after(m: MeterView, limit: Option<RateLimit>, now: u64) -> MeterView {
    match limit {
        Some(limit) => MeterView {
            deficit: (deficit_at(m.deficit, m.stamp, now, limit.requests_per_second) + 1) as u64,
            stamp: if now > m.stamp {
                now
            } else {
                m.stamp
            },
            in_flight: (m.in_flight + 1) as u32,
            allowances: m.allowances,
        },
        None => MeterView { in_flight: (m.in_flight + 1) as u32, ..m },
    }
}

/// The usage counters after an admitted charge.
pub open spec fn usage_after(usage: LicenseUsage, tokens: u32, now: u64) -> LicenseUsage {
    LicenseUsage {
        tokens_used: (usage.tokens_used + tokens) as u64,
        requests_made: (usage.requests_made + 1) as u64,
        last_updated: now,
        ..usage
    }
}

/// The counters of usage never fall: after an admitted charge each is at
/// least what it was.
pub proof fn lemma_usage_never_falls(usage: LicenseUsage, tokens: u32, now: u64)
    requires
        usage.tokens_used + tokens <= u64::MAX,
        usage.requests_made + 1 <= u64::MAX,
    ensures
        usage_after(usage, tokens, now).tokens_used >= usage.tokens_used,
        usage_after(usage, tokens, now).requests_made > usage.requests_made,
{
}

/// A bucket whose deficit has reached the burst size admits nothing at the
/// same second and admits again once a second has passed, where the rate is
/// at least one a second.
pub proof fn lemma_bucket_refills(m: MeterView, limit: RateLimit, now: u64, later: u64)
    requires
        m.deficit == limit.burst_size,
        limit.burst_size >= 1,
        limit.requests_per_second >= 1,
        now <= m.stamp,
        later > m.stamp,
    ensures
        throttled(m, Some(limit), now),
        !throttled(m, Some(limit), later),
{
    assert((later - m.stamp) * limit.requests_per_second >= 1) by (nonlinear_arith)
        requires
            later - m.stamp >= 1,
            limit.requests_per_second >= 1,
    ;
}

/// What was debited by an admitted charge. Only a charge makes one, and a
/// receipt takes one: no receipt is issued for usage that was not debited.
#[derive(Debug)]
pub struct Debit {
    license_id: ShardId,
    node_pubkey: PublicKey,
    tokens: u32,
    timestamp: u64,
}

/// What a debit holds.
pub ghost struct DebitView {
    pub license_id: ShardId,
    pub node_pubkey: PublicKey,
    pub tokens: u32,
    pub timestamp: u64,
}

impl View for Debit {
    type V = DebitView;

    closed spec fn view(&self) -> DebitView {
        DebitView {
            license_id: self.license_id,
            node_pubkey: self.node_pubkey,
            tokens: self.tokens,
            timestamp: self.timestamp,
        }
    }
}

impl Debit {
    /// The number of tokens that were debited.
    pub fn tokens(&self) -> (tokens: u32)
        ensures
            tokens == self@.tokens,
    {
        self.tokens
    }

    /// The time of the charge.
    pub fn timestamp(&self) -> (timestamp: u64)
        ensures
            timestamp == self@.timestamp,
    {
        self.timestamp
    }

    /// The bytes over which the receipt for this debit is signed, or `None`
    /// where the experts are too many to count in 32 bits.
    pub fn signing_bytes(&self, request_id: &RequestId, expert_ids: &Vec<ExpertId>) -> (bytes:
        Option<Vec<u8>>)
        ensures
            bytes is Some <==> expert_ids.len() <= u32::MAX,
            bytes is Some ==> bytes->Some_0@ == receipt_message(
                *request_id,
                expert_ids@,
                self@.tokens,
                self@.timestamp,
            ),
    {
        receipt_signing_bytes(request_id, expert_ids, self.tokens, self.timestamp)
    }
}

/// The receipt for a debit: it records the request, the experts it touched,
/// the tokens that were debited and the time of the charge, under the
/// node's signature.
pub fn issue_receipt(
    debit: Debit,
    request_id: RequestId,
    expert_ids: Vec<ExpertId>,
    node_signature: Signature,
) -> (receipt: UsageReceipt)
    ensures
        receipt@ == (ReceiptView {
            request_id,
            expert_ids: expert_ids@,
            token_count: debit@.tokens,
            timestamp: debit@.timestamp,
            node_signature,
        }),
{
    UsageReceipt {
        request_id,
        expert_ids,
        token_count: debit.tokens,
        timestamp: debit.timestamp,
        node_signature,
    }
}

/// The meter of one license identity.
pub struct UsageMeter {
    deficit: u64,
    stamp: u64,
    in_flight: u32,
    allowances: Vec<Allowance>,
}

impl View for UsageMeter {
    type V = MeterView;

    closed spec fn view(&self) -> MeterView {
        MeterView {
            deficit: self.deficit,
            stamp: self.stamp,
            in_flight: self.in_flight,
            allowances: self.allowances@,
        }
    }
}

impl UsageMeter {
    /// A meter with a full bucket and no request in flight, which knows the
    /// given community allowances.
    pub fn new(allowances: Vec<Allowance>) -> (meter: Self)
        ensures
            meter@ == (MeterView { deficit: 0, stamp: 0, in_flight: 0, allowances: allowances@ }),
    {
        UsageMeter { deficit: 0, stamp: 0, in_flight: 0, allowances }
    }

    /// The number of requests that were admitted and not yet released.
    pub fn in_flight(&self) -> (n: u32)
        ensures
            n == self@.in_flight,
    {
        self.in_flight
    }

    /// Records that a request that was admitted has ended. Nothing is done
    /// where none is in flight.
    pub fn release(&mut self)
        ensures
            final(self)@ == (MeterView {
                in_flight: if old(self)@.in_flight > 0 {
                    (old(self)@.in_flight - 1) as u32
                } else {
                    0
                },
                ..old(self)@
            }),
    {
        if self.in_flight > 0 {
            self.in_flight -= 1;
        }
    }

    /// The tokens that a community tier of this name allows.
    fn allowance(&self, tier: &String) -> (max: u64)
        ensures
            max == allowance_for(self@.allowances, tier@),
    {
        let mut i: usize = self.allowances.len();
        assert(self.allowances@.take(i as int) =~= self.allowances@);
        while i > 0
            invariant
                i <= self.allowances.len(),
                allowance_for(self.allowances@, tier@) == allowance_for(
                    self.allowances@.take(i as int),
                    tier@,
                ),
            decreases i,
        {
            i -= 1;
            proof {
                let upto = self.allowances@.take(i as int + 1);
                assert(upto.last() == self.allowances@[i as int]);
                assert(upto.drop_last() =~= self.allowances@.take(i as int));
            }
            if self.allowances[i].tier == *tier {
                return self.allowances[i].max_tokens;
            }
        }
        0
    }

    /// The deficit of the bucket at the time `now`.
    fn deficit_now(&self, now: u64, rate: u32) -> (deficit: u64)
        ensures
            deficit == deficit_at(self@.deficit, self@.stamp, now, rate),
    {
        if now > self.stamp {
            let elapsed: u128 = (now - self.stamp) as u128;
            let per_second: u128 = rate as u128;
            assert(elapsed * per_second <= 0xffff_ffff_ffff_ffff * 0xffff_ffff) by (nonlinear_arith)
                requires
                    elapsed <= 0xffff_ffff_ffff_ffff,
                    per_second <= 0xffff_ffff,
            ;
            let refill: u128 = elapsed * per_second;
            if refill >= self.deficit as u128 {
                0
            } else {
                self.deficit - refill as u64
            }
        } else {
            self.deficit
        }
    }

    /// Whether the kind of license refuses the charge, and why.
    fn license_check(&self, usage: &LicenseUsage, license_type: &LicenseType, tokens: u32) -> (r:
        Option<RateLimited>)
        requires
            usage.tokens_used + tokens <= u64::MAX,
        ensures
            r == license_refusal(self@, *usage, *license_type, tokens),
    {
        let total: u64 = usage.tokens_used + tokens as u64;
        match license_type {
            LicenseType::Subscription { tier, max_requests_per_day } => {
                if usage.requests_made < *max_requests_per_day {
                    None
                } else {
                    Some(RateLimited::QuotaExceeded)
                }
            },
            LicenseType::PayPerUse { credits, cost_per_token_micros } => {
                let wide_total: u128 = total as u128;
                let price: u128 = *cost_per_token_micros as u128;
                let funds: u128 = *credits as u128;
                assert(wide_total * price <= 0xffff_ffff_ffff_ffff * 0xffff_ffff_ffff_ffff)
                    by (nonlinear_arith)
                    requires
                        wide_total <= 0xffff_ffff_ffff_ffff,
                        price <= 0xffff_ffff_ffff_ffff,
                ;
                assert(funds * 1_000_000 <= 0xffff_ffff_ffff_ffff * 1_000_000) by (nonlinear_arith)
                    requires
                        funds <= 0xffff_ffff_ffff_ffff,
                ;
                if wide_total * price <= funds * (MICROS_PER_CREDIT as u128) {
                    None
                } else {
                    Some(RateLimited::InsufficientCredit)
                }
            },
            LicenseType::Enterprise { unlimited, max_concurrent_requests } => {
                if *unlimited || self.in_flight < *max_concurrent_requests {
                    None
                } else {
                    Some(RateLimited::QuotaExceeded)
                }
            },
            LicenseType::Community { tier } => {
                if total <= self.allowance(tier) {
                    None
                } else {
                    Some(RateLimited::QuotaExceeded)
                }
            },
        }
    }

    /// Charges `tokens` to the license at the time `now`. Where the charge
    /// is admitted, the counters of usage rise, the bucket gives a token,
    /// and the result is the debit, for which a receipt can be issued. Where
    /// it is refused, the result says why, and nothing has changed.
    pub fn charge(
        &mut self,
        usage: &mut LicenseUsage,
        terms: &LicenseTerms,
        tokens: u32,
        now: u64,
    ) -> (r: Result<Debit, RateLimited>)
        ensures
            match refusal(old(self)@, *old(usage), *terms, tokens, now) {
                Some(why) => {
                    &&& r == Err::<Debit, RateLimited>(why)
                    &&& *final(usage) == *old(usage)
                    &&& final(self)@ == old(self)@
                },
                None => {
                    &&& r is Ok
                    &&& r->Ok_0@ == (DebitView {
                        license_id: old(usage).license_id,
                        node_pubkey: old(usage).node_pubkey,
                        tokens,
                        timestamp: now,
                    })
                    &&& *final(usage) == usage_after(*old(usage), tokens, now)
                    &&& final(self)@ == meter_after(old(self)@, terms.rate_limit, now)
                },
            },
    {
        let mut deficit: u64 = self.deficit;
        let mut stamp: u64 = self.stamp;
        match &terms.rate_limit {
            Some(limit) => {
                let current = self.deficit_now(now, limit.requests_per_second);
                if current >= limit.burst_size as u64 {
                    return Err(RateLimited::Throttled);
                }
                deficit = current + 1;
                if now > stamp {
                    stamp = now;
                }
            },
            None => {},
        }
        if usage.tokens_used > u64::MAX - tokens as u64 || usage.requests_made == u64::MAX
            || self.in_flight == u32::MAX {
            return Err(RateLimited::QuotaExceeded);
        }
        match self.license_check(usage, &terms.license_type, tokens) {
            Some(why) => {
                return Err(why);
            },
            None => {},
        }
        usage.tokens_used = usage.tokens_used + tokens as u64;
        usage.requests_made = usage.requests_made + 1;
        usage.last_updated = now;
        self.deficit = deficit;
        self.stamp = stamp;
        self.in_flight = self.in_flight + 1;
        Ok(
            Debit {
                license_id: usage.license_id,
                node_pubkey: usage.node_pubkey,
                tokens,
                timestamp: now,
            },
        )
    }
}

} // verus!
