//! Limits how many handshakes one address may open within a window of time.

use crate::net;
use crate::net::{IpAddr, Ipv4Addr};
use crate::time;
use std::collections::HashMap;
use std::hash::Hash;
use vstd::prelude::*;
use vstd::std_specs::hash::*;

verus! {

broadcast use group_hash_axioms;

/// Those of the times `hits` that lie less than `window_secs` before `now`.
pub open spec fn live(hits: Seq<u64>, now: u64, window_secs: u64) -> Seq<u64> {
    hits.filter(|t: u64| time::elapsed_ns(now, t) < time::seconds(window_secs))
}

/// What a rate limit holds: for each address the times of its handshakes.
#[verifier::ext_equal]
pub struct RateView {
    pub window_secs: u64,
    pub max: u32,
    pub hits: Map<IpAddr, Seq<u64>>,
}

impl RateView {
    /// Whether a handshake from `ip` at `now` is within the limit.
    pub open spec fn allows(self, ip: IpAddr, now: u64) -> bool {
        live(self.hits[ip], now, self.window_secs).len() < self.max
    }

    /// The limit after a handshake from `ip` at `now` was judged: old times of
    /// that address are forgotten, and `now` is noted where it is allowed.
    pub open spec fn judged(self, ip: IpAddr, now: u64) -> RateView {
        let kept = live(self.hits[ip], now, self.window_secs);
        RateView {
            hits: self.hits.insert(
                ip,
                if self.allows(ip, now) {
                    kept.push(now)
                } else {
                    kept
                },
            ),
            ..self
        }
    }

    /// The limit without the addresses all of whose times are old.
    pub open spec fn collected(self, now: u64) -> RateView {
        RateView {
            hits: Map::new(
                |ip: IpAddr| true,
                |ip: IpAddr| forgotten(self.hits[ip], now, self.window_secs),
            ),
            ..self
        }
    }
}

/// `hits`, or nothing where all of them are old.
pub open spec fn forgotten(hits: Seq<u64>, now: u64, window_secs: u64) -> Seq<u64> {
    if live(hits, now, window_secs).len() > 0 {
        hits
    } else {
        Seq::empty()
    }
}

/// The times noted for a key.
spec fn at<K>(m: Map<K, Vec<u64>>, k: K) -> Seq<u64> {
    if m.contains_key(k) {
        m[k]@
    } else {
        Seq::empty()
    }
}

/// No key has more than `max` times.
spec fn bounded<K>(m: Map<K, Vec<u64>>, max: u32) -> bool {
    forall|k: K| (#[trigger] at(m, k)).len() <= max
}

/// A limit on handshakes per address.
pub struct RateLimit {
    window_secs: u64,
    max: u32,
    v4: HashMap<u32, Vec<u64>>,
    v6: HashMap<u128, Vec<u64>>,
}

impl View for RateLimit {
    type V = RateView;

    closed spec fn view(&self) -> RateView {
        RateView {
            window_secs: self.window_secs,
            max: self.max,
            hits: Map::new(
                |ip: IpAddr| true,
                |ip: IpAddr|
                    match ip {
                        IpAddr::V4(a) => at(self.v4@, a.bits() as u32),
                        IpAddr::V6(x) => at(self.v6@, x),
                    },
            ),
        }
    }
}

impl RateLimit {
    /// At least one handshake is allowed in a window of at least one second,
    /// and no address has more times noted than are allowed.
    pub closed spec fn wf(self) -> bool {
        &&& self.max >= 1
        &&& self.window_secs >= 1
        &&& bounded(self.v4@, self.max)
        &&& bounded(self.v6@, self.max)
    }

    /// Allows `max` handshakes, at least one, in `window_secs` seconds, at
    /// least one.
    pub fn new(max: u32, window_secs: u64) -> (r: Self)
        ensures
            r.wf(),
            r@.max == if max == 0 {
                1
            } else {
                max
            },
            r@.window_secs == if window_secs == 0 {
                1
            } else {
                window_secs
            },
            forall|ip: IpAddr| #[trigger] r@.hits[ip] == Seq::<u64>::empty(),
    {
        RateLimit {
            window_secs: if window_secs == 0 {
                1
            } else {
                window_secs
            },
            max: if max == 0 {
                1
            } else {
                max
            },
            v4: HashMap::new(),
            v6: HashMap::new(),
        }
    }

    /// Judges a handshake from `ip` at `now`.
    pub fn allow(&mut self, ip: IpAddr, now: u64) -> (r: bool)
        requires
            old(self).wf(),
        ensures
            final(self).wf(),
            r == old(self)@.allows(ip, now),
            final(self)@ == old(self)@.judged(ip, now),
    {
        let ghost before = *self;
        let r: bool = match ip {
            IpAddr::V4(a) => {
                let r: bool = allow_in(&mut self.v4, a.to_bits(), now, self.window_secs, self.max);
                proof {
                    assert forall|other: Ipv4Addr| other != a implies #[trigger] other.bits() != a.bits() by {
                        if other.bits() == a.bits() {
                            net::law_bits_are_injective(other, a);
                        }
                    }
                }
                r
            },
            IpAddr::V6(x) => allow_in(&mut self.v6, x, now, self.window_secs, self.max),
        };
        assert(self@.hits =~= before@.judged(ip, now).hits);
        r
    }

    /// Forgets the addresses all of whose times are old.
    pub fn gc(&mut self, now: u64)
        requires
            old(self).wf(),
        ensures
            final(self).wf(),
            final(self)@ == old(self)@.collected(now),
    {
        let ghost before = *self;
        gc_in(&mut self.v4, now, self.window_secs, Ghost(self.max));
        gc_in(&mut self.v6, now, self.window_secs, Ghost(self.max));
        assert(self@.hits =~= before@.collected(now).hits);
    }
}

/// Those of the times `hits` that are not old.
fn keep_live(hits: &Vec<u64>, now: u64, window_secs: u64) -> (r: Vec<u64>)
    ensures
        r@ == live(hits@, now, window_secs),
        r@.len() <= hits@.len(),
{
    let mut out: Vec<u64> = Vec::new();
    let mut i: usize = 0;
    assert(live(hits@.take(0), now, window_secs) =~= Seq::empty()) by {
        reveal(Seq::filter);
    }
    while i < hits.len()
        invariant
            i <= hits@.len(),
            out@ == live(hits@.take(i as int), now, window_secs),
            out@.len() <= i,
        decreases hits@.len() - i,
    {
        let t: u64 = hits[i];
        proof {
            reveal(Seq::filter);
            assert(hits@.take(i + 1).drop_last() =~= hits@.take(i as int));
        }
        if !time::lasts(time::elapsed(now, t), window_secs) {
            out.push(t);
        }
        i += 1;
    }
    assert(hits@.take(i as int) =~= hits@);
    out
}

/// Judges a handshake among the times of one kind of address.
fn allow_in<K: Eq + Hash + Copy>(
    map: &mut HashMap<K, Vec<u64>>,
    key: K,
    now: u64,
    window_secs: u64,
    max: u32,
) -> (r: bool)
    requires
        obeys_key_model::<K>(),
        bounded(old(map)@, max),
    ensures
        bounded(final(map)@, max),
        r == (live(at(old(map)@, key), now, window_secs).len() < max),
        ({
            let kept = live(at(old(map)@, key), now, window_secs);
            at(final(map)@, key) == if r {
                kept.push(now)
            } else {
                kept
            }
        }),
        forall|k: K| k != key ==> #[trigger] at(final(map)@, k) == at(old(map)@, k),
{
    let ghost before = map@;
    let noted: Vec<u64> = match map.remove(&key) {
        Some(noted) => noted,
        None => Vec::new(),
    };
    assert(noted@ =~= at(before, key));
    let mut kept: Vec<u64> = keep_live(&noted, now, window_secs);
    let r: bool = kept.len() < max as usize;
    if r {
        kept.push(now);
    }
    map.insert(key, kept);
    proof {
        assert forall|k: K| k != key implies #[trigger] at(map@, k) == at(before, k) by {}
        assert forall|k: K| (#[trigger] at(map@, k)).len() <= max by {
            if k != key {
                assert(at(before, k).len() <= max);
            }
        }
    }
    r
}

/// The keys of a map.
fn keys_of<K: Eq + Hash + Copy>(map: &HashMap<K, Vec<u64>>) -> (r: Vec<K>)
    requires
        obeys_key_model::<K>(),
    ensures
        forall|k: K| r@.contains(k) <==> #[trigger] map@.contains_key(k),
{
    let mut out: Vec<K> = Vec::new();
    for k in it: map.keys()
        invariant
            out@.len() == it.index(),
            forall|j: int| 0 <= j < out@.len() ==> #[trigger] out@[j] == *it.seq()[j],
    {
        out.push(*k);
    }
    proof {
        let seq = vstd::std_specs::iter::IteratorSpec::remaining(&spec_keys_iter(map));
        assert(out@ =~= seq.unref());
        assert forall|k: K| out@.contains(k) <==> #[trigger] map@.contains_key(k) by {
            assert(seq.unref().to_set().contains(k) <==> map@.dom().contains(k));
        }
    }
    out
}

/// Forgets the keys all of whose times are old.
fn gc_in<K: Eq + Hash + Copy>(
    map: &mut HashMap<K, Vec<u64>>,
    now: u64,
    window_secs: u64,
    Ghost(max): Ghost<u32>,
)
    requires
        obeys_key_model::<K>(),
        bounded(old(map)@, max),
    ensures
        bounded(final(map)@, max),
        forall|k: K| #[trigger] at(final(map)@, k) == forgotten(at(old(map)@, k), now, window_secs),
{
    let ghost before = map@;
    let keys: Vec<K> = keys_of(map);
    let mut i: usize = 0;
    while i < keys.len()
        invariant
            obeys_key_model::<K>(),
            i <= keys@.len(),
            forall|k: K| keys@.take(i as int).contains(k) ==> #[trigger] at(map@, k) == forgotten(at(before, k), now, window_secs),
            forall|k: K| !keys@.take(i as int).contains(k) ==> #[trigger] at(map@, k) == at(before, k),
        decreases keys@.len() - i,
    {
        let key: K = keys[i];
        let ghost done = keys@.take(i as int);
        let ghost mid = map@;
        let old: bool = match map.get(&key) {
            Some(hits) => keep_live(hits, now, window_secs).len() == 0,
            None => false,
        };
        proof {
            assert(keys@.take(i + 1) =~= done.push(key));
            assert(forgotten(forgotten(at(before, key), now, window_secs), now, window_secs) == forgotten(at(before, key), now, window_secs)) by {
                reveal(Seq::filter);
            }
            assert(live(Seq::<u64>::empty(), now, window_secs).len() == 0) by {
                reveal(Seq::filter);
            }
        }
        if old {
            map.remove(&key);
        }
        i += 1;
        proof {
            let some = keys@.take(i as int);
            assert forall|k: K| some.contains(k) implies #[trigger] at(map@, k) == forgotten(at(before, k), now, window_secs) by {
                if k != key {
                    assert(done.contains(k));
                    assert(at(map@, k) == at(mid, k));
                } else {
                    assert(at(mid, key) == at(before, key) || at(mid, key) == forgotten(at(before, key), now, window_secs));
                    if old {
                        assert(live(at(mid, key), now, window_secs).len() == 0);
                    } else if mid.contains_key(key) {
                        assert(live(at(mid, key), now, window_secs).len() > 0);
                    }
                }
            }
            assert forall|k: K| !some.contains(k) implies #[trigger] at(map@, k) == at(before, k) by {
                assert(some.contains(key)) by {
                    assert(some[i - 1] == key);
                }
                assert(!done.contains(k)) by {
                    if done.contains(k) {
                        let j = choose|j: int| 0 <= j < done.len() && done[j] == k;
                        assert(some[j] == k);
                    }
                }
                assert(at(map@, k) == at(mid, k));
            }
        }
    }
    proof {
        assert(keys@.take(i as int) =~= keys@);
        assert forall|k: K| #[trigger] at(map@, k) == forgotten(at(before, k), now, window_secs) by {
            if !keys@.contains(k) {
                assert(at(before, k) =~= Seq::empty());
                assert(live(Seq::<u64>::empty(), now, window_secs).len() == 0) by {
                    reveal(Seq::filter);
                }
            }
        }
        assert forall|k: K| (#[trigger] at(map@, k)).len() <= max by {
            assert(at(before, k).len() <= max);
        }
    }
}

/// The limit after the address `ip` opened handshakes at the times `calls`.
pub open spec fn judged_all(rate: RateView, ip: IpAddr, calls: Seq<u64>) -> RateView
    decreases calls.len(),
{
    if calls.len() == 0 {
        rate
    } else {
        judged_all(rate, ip, calls.drop_last()).judged(ip, calls.last())
    }
}

/// Those of the times `calls` at which a handshake of `ip` was allowed.
pub open spec fn admitted(rate: RateView, ip: IpAddr, calls: Seq<u64>) -> Seq<u64>
    decreases calls.len(),
{
    if calls.len() == 0 {
        Seq::empty()
    } else {
        let before = admitted(rate, ip, calls.drop_last());
        if judged_all(rate, ip, calls.drop_last()).allows(ip, calls.last()) {
            before.push(calls.last())
        } else {
            before
        }
    }
}

/// Those of the times `times` that lie in the window that ends at `end`.
pub open spec fn in_window(times: Seq<u64>, end: u64, window_secs: u64) -> Seq<u64> {
    times.filter(|t: u64| t <= end && end - t < time::seconds(window_secs))
}

/// An address is never allowed more handshakes than the limit, in any window of
/// time, whenever it opens them.
pub proof fn law_rate_limit_holds(rate: RateView, ip: IpAddr, calls: Seq<u64>, end: u64)
    requires
        rate.hits[ip].len() == 0,
        rate.window_secs >= 1,
        forall|i: int, j: int| 0 <= i <= j < calls.len() ==> calls[i] <= calls[j],
    ensures
        in_window(admitted(rate, ip, calls), end, rate.window_secs).len() <= rate.max,
    decreases calls.len(),
{
    let w = rate.window_secs;
    let inside = |t: u64| t <= end && end - t < time::seconds(w);
    if calls.len() == 0 {
        reveal(Seq::filter);
    } else if calls.last() > end {
        let rest = calls.drop_last();
        law_rate_limit_holds(rate, ip, rest, end);
        lemma_filter_push(admitted(rate, ip, rest), calls.last(), inside);
    } else {
        let fresh = |t: u64| time::elapsed_ns(end, t) < time::seconds(w);
        let noted = judged_all(rate, ip, calls).hits[ip];
        lemma_noted(rate, ip, calls, end);
        lemma_filter_within(admitted(rate, ip, calls), inside, fresh);
        lemma_filter_len(noted, fresh);
        assert(in_window(admitted(rate, ip, calls), end, w) == admitted(rate, ip, calls).filter(
            inside,
        ));
        assert(live(noted, end, w) == noted.filter(fresh));
    }
}

/// Forgetting old addresses changes no later decision.
pub proof fn law_gc_changes_no_decision(rate: RateView, ip: IpAddr, now: u64, later: u64)
    requires
        now <= later,
    ensures
        rate.collected(now).allows(ip, later) == rate.allows(ip, later),
        rate.collected(now).judged(ip, later).hits[ip] == rate.judged(ip, later).hits[ip],
{
    let w = rate.window_secs;
    lemma_filter_within(
        rate.hits[ip],
        |t: u64| time::elapsed_ns(later, t) < time::seconds(w),
        |t: u64| time::elapsed_ns(now, t) < time::seconds(w),
    );
    reveal(Seq::filter);
    if live(rate.hits[ip], now, w).len() == 0 {
        assert(live(rate.hits[ip], later, w) =~= live(Seq::empty(), later, w));
    }
}

/// A handshake of one address leaves the others as they were.
pub proof fn law_addresses_are_judged_apart(rate: RateView, ip: IpAddr, other: IpAddr, now: u64)
    requires
        ip != other,
    ensures
        rate.judged(other, now).hits[ip] == rate.hits[ip],
{
}

/// The times noted are those admitted, as far as they still matter.
proof fn lemma_noted(rate: RateView, ip: IpAddr, calls: Seq<u64>, end: u64)
    requires
        rate.hits[ip].len() == 0,
        rate.window_secs >= 1,
        forall|i: int, j: int| 0 <= i <= j < calls.len() ==> calls[i] <= calls[j],
        calls.len() > 0 ==> calls.last() <= end,
    ensures
        judged_all(rate, ip, calls).window_secs == rate.window_secs,
        judged_all(rate, ip, calls).max == rate.max,
        judged_all(rate, ip, calls).hits[ip].len() <= rate.max,
        live(judged_all(rate, ip, calls).hits[ip], end, rate.window_secs) == live(
            admitted(rate, ip, calls),
            end,
            rate.window_secs,
        ),
    decreases calls.len(),
{
    let w = rate.window_secs;
    if calls.len() == 0 {
        assert(judged_all(rate, ip, calls).hits[ip] =~= admitted(rate, ip, calls));
    } else {
        let rest = calls.drop_last();
        let last = calls.last();
        let mid = judged_all(rate, ip, rest);
        lemma_noted(rate, ip, rest, end);
        let fresh_end = |t: u64| time::elapsed_ns(end, t) < time::seconds(w);
        let fresh_last = |t: u64| time::elapsed_ns(last, t) < time::seconds(w);
        lemma_filter_twice(mid.hits[ip], fresh_last, fresh_end);
        lemma_filter_len(mid.hits[ip], fresh_last);
        let kept = live(mid.hits[ip], last, w);
        assert(kept == mid.hits[ip].filter(fresh_last));
        lemma_filter_push(kept, last, fresh_end);
        lemma_filter_push(admitted(rate, ip, rest), last, fresh_end);
        assert(live(kept, end, w) == kept.filter(fresh_end));
        assert(live(mid.hits[ip], end, w) == mid.hits[ip].filter(fresh_end));
        assert(live(kept.push(last), end, w) == kept.push(last).filter(fresh_end));
        assert(live(admitted(rate, ip, rest), end, w) == admitted(rate, ip, rest).filter(fresh_end));
        assert(live(admitted(rate, ip, rest).push(last), end, w) == admitted(rate, ip, rest).push(
            last,
        ).filter(fresh_end));
    }
}

/// Filtering a longer sequence.
proof fn lemma_filter_push(s: Seq<u64>, x: u64, p: spec_fn(u64) -> bool)
    ensures
        s.push(x).filter(p) == if p(x) {
            s.filter(p).push(x)
        } else {
            s.filter(p)
        },
{
    reveal(Seq::filter);
    assert(s.push(x).drop_last() =~= s);
}

/// A filter keeps no more than there was.
proof fn lemma_filter_len(s: Seq<u64>, p: spec_fn(u64) -> bool)
    ensures
        s.filter(p).len() <= s.len(),
    decreases s.len(),
{
    reveal(Seq::filter);
    if s.len() > 0 {
        lemma_filter_len(s.drop_last(), p);
    }
}

/// A stricter filter keeps no more.
proof fn lemma_filter_within(s: Seq<u64>, p: spec_fn(u64) -> bool, q: spec_fn(u64) -> bool)
    requires
        forall|x: u64| #[trigger] p(x) ==> q(x),
    ensures
        s.filter(p).len() <= s.filter(q).len(),
    decreases s.len(),
{
    reveal(Seq::filter);
    if s.len() > 0 {
        lemma_filter_within(s.drop_last(), p, q);
    }
}

/// A stricter filter after a looser one.
proof fn lemma_filter_twice(s: Seq<u64>, loose: spec_fn(u64) -> bool, strict: spec_fn(u64) -> bool)
    requires
        forall|x: u64| #[trigger] strict(x) ==> loose(x),
    ensures
        s.filter(loose).filter(strict) == s.filter(strict),
    decreases s.len(),
{
    reveal(Seq::filter);
    if s.len() > 0 {
        lemma_filter_twice(s.drop_last(), loose, strict);
        let x = s.last();
        if loose(x) {
            lemma_filter_push(s.drop_last().filter(loose), x, strict);
        }
    }
}

/// Filters that agree on a sequence keep the same of it.
proof fn lemma_filter_same(s: Seq<u64>, p: spec_fn(u64) -> bool, q: spec_fn(u64) -> bool)
    requires
        forall|i: int| 0 <= i < s.len() ==> p(#[trigger] s[i]) == q(s[i]),
    ensures
        s.filter(p) == s.filter(q),
    decreases s.len(),
{
    reveal(Seq::filter);
    if s.len() > 0 {
        lemma_filter_same(s.drop_last(), p, q);
    }
}

/// What was admitted lies no later than the last call.
proof fn lemma_admitted_bound(rate: RateView, ip: IpAddr, calls: Seq<u64>, end: u64)
    requires
        forall|i: int| 0 <= i < calls.len() ==> #[trigger] calls[i] <= end,
    ensures
        forall|i: int|
            0 <= i < admitted(rate, ip, calls).len() ==> #[trigger] admitted(rate, ip, calls)[i]
                <= end,
    decreases calls.len(),
{
    if calls.len() > 0 {
        let rest = calls.drop_last();
        assert forall|i: int| 0 <= i < rest.len() implies #[trigger] rest[i] <= end by {
            assert(rest[i] == calls[i]);
        }
        lemma_admitted_bound(rate, ip, rest, end);
        assert(calls[calls.len() - 1] == calls.last());
        let some = admitted(rate, ip, rest);
        let all = admitted(rate, ip, calls);
        assert forall|i: int| 0 <= i < all.len() implies #[trigger] all[i] <= end by {
            if i < some.len() {
                assert(some[i] <= end);
                assert(all[i] == some[i]);
            }
        }
    }
}

/// A handshake is allowed exactly where fewer than the limit were allowed to the
/// same address within the window that ends now.
pub proof fn law_limit_counts_the_window(rate: RateView, ip: IpAddr, calls: Seq<u64>, now: u64)
    requires
        rate.hits[ip].len() == 0,
        rate.window_secs >= 1,
        forall|i: int, j: int| 0 <= i <= j < calls.len() ==> calls[i] <= calls[j],
        calls.len() > 0 ==> calls.last() <= now,
    ensures
        judged_all(rate, ip, calls).allows(ip, now) <==> admitted(rate, ip, calls).filter(
            |t: u64| now - t < rate.window_secs * 1_000_000_000,
        ).len() < rate.max,
{
    let w = rate.window_secs;
    let times = admitted(rate, ip, calls);
    lemma_noted(rate, ip, calls, now);
    lemma_admitted_bound(rate, ip, calls, now);
    lemma_filter_same(
        times,
        |t: u64| time::elapsed_ns(now, t) < time::seconds(w),
        |t: u64| now - t < rate.window_secs * 1_000_000_000,
    );
}

/// As many handshakes as the limit allows are allowed, whenever they come.
pub proof fn law_first_handshakes_are_allowed(rate: RateView, ip: IpAddr, calls: Seq<u64>)
    requires
        rate.hits[ip].len() == 0,
        calls.len() <= rate.max,
    ensures
        admitted(rate, ip, calls) == calls,
        judged_all(rate, ip, calls).hits[ip].len() <= calls.len(),
        judged_all(rate, ip, calls).max == rate.max,
        judged_all(rate, ip, calls).window_secs == rate.window_secs,
    decreases calls.len(),
{
    if calls.len() > 0 {
        let rest = calls.drop_last();
        law_first_handshakes_are_allowed(rate, ip, rest);
        let mid = judged_all(rate, ip, rest);
        let last = calls.last();
        let w = rate.window_secs;
        lemma_filter_len(
            mid.hits[ip],
            |t: u64| time::elapsed_ns(last, t) < time::seconds(w),
        );
        assert(live(mid.hits[ip], last, w).len() <= mid.hits[ip].len());
        assert(rest.push(last) =~= calls);
    } else {
        assert(calls =~= Seq::empty());
    }
}

/// Once an address has been quiet for a whole window it is allowed again.
pub proof fn law_quiet_addresses_are_allowed(rate: RateView, ip: IpAddr, now: u64)
    requires
        rate.max >= 1,
        forall|i: int|
            0 <= i < rate.hits[ip].len() ==> (#[trigger] rate.hits[ip][i]) + rate.window_secs
                * 1_000_000_000 <= now,
    ensures
        rate.allows(ip, now),
{
    let w = rate.window_secs;
    lemma_filter_same(
        rate.hits[ip],
        |t: u64| time::elapsed_ns(now, t) < time::seconds(w),
        |t: u64| false,
    );
    lemma_filter_nothing(rate.hits[ip]);
}

proof fn lemma_filter_nothing(s: Seq<u64>)
    ensures
        s.filter(|t: u64| false).len() == 0,
    decreases s.len(),
{
    reveal(Seq::filter);
    if s.len() > 0 {
        lemma_filter_nothing(s.drop_last());
    }
}

/// Neither judging nor forgetting changes the limit or its window.
pub proof fn law_limit_stays(rate: RateView, ip: IpAddr, now: u64)
    ensures
        rate.judged(ip, now).max == rate.max,
        rate.judged(ip, now).window_secs == rate.window_secs,
        rate.collected(now).max == rate.max,
        rate.collected(now).window_secs == rate.window_secs,
{
}

} // verus!
