//! Signing and anti-replay primitives.
//!
//! The signature is a keyed SHA-256 over the canonical digest, rendered in
//! lower-case hex. Nonces are kept in a time-to-live cache; a repeat inside
//! the window is a replay.

use vstd::prelude::*;
use vstd::utf8::encode_utf8;
use std::collections::VecDeque;
use crate::text::str_eq;
use crate::digest::{append_bytes, append_str, be_bytes, hex_lower, i128_be, sha256_hex, sha256_spec, twos_128};

verus! {

/// The signature of a canonical digest under a key.
pub open spec fn signature_of(key: Seq<u8>, digest_hex: Seq<char>) -> Seq<char> {
    hex_lower(sha256_spec(key + encode_utf8(digest_hex)))
}

/// Signs a canonical digest: hex of SHA-256 over the key followed by the
/// UTF-8 bytes of the digest.
pub fn sign(private_key_material: &[u8], canonical_digest_hex: &str) -> (r: String)
    ensures
        r@ == signature_of(private_key_material@, canonical_digest_hex@),
{
    let mut buf: Vec<u8> = Vec::new();
    append_bytes(&mut buf, private_key_material);
    append_str(&mut buf, canonical_digest_hex);
    assert(buf@ =~= private_key_material@ + encode_utf8(canonical_digest_hex@));
    sha256_hex(buf.as_slice())
}

/// Whether `signature_hex` is accepted for the digest under the key.
pub open spec fn verifies(key: Seq<u8>, digest_hex: Seq<char>, signature_hex: Seq<char>) -> bool {
    signature_of(key, digest_hex) == signature_hex
}

/// Checks a signature: true exactly when it equals the signature of the
/// digest under the key. The comparison touches every byte of both
/// strings before deciding.
pub fn verify(private_key_material: &[u8], canonical_digest_hex: &str, signature_hex: &str) -> (r: bool)
    ensures
        r == verifies(private_key_material@, canonical_digest_hex@, signature_hex@),
{
    let expected = sign(private_key_material, canonical_digest_hex);
    let eb = expected.as_str().as_bytes();
    let sb = signature_hex.as_bytes();
    proof {
        vstd::utf8::encode_utf8_decode_utf8(expected@);
        vstd::utf8::encode_utf8_decode_utf8(signature_hex@);
    }
    if eb.len() != sb.len() {
        assert(eb@ != sb@);
        return false;
    }
    let mut diff: u8 = 0;
    let mut i: usize = 0;
    while i < eb.len()
        invariant
            eb@.len() == sb@.len(),
            i <= eb@.len(),
            (diff == 0) == (forall|k: int| 0 <= k < i ==> eb@[k] == sb@[k]),
        decreases eb@.len() - i,
    {
        let a = eb[i];
        let b = sb[i];
        let d2 = diff | (a ^ b);
        assert((d2 == 0) == (diff == 0 && a == b)) by (bit_vector)
            requires d2 == diff | (a ^ b);
        diff = d2;
        i = i + 1;
    }
    if diff == 0 {
        assert(eb@ =~= sb@);
    }
    diff == 0
}

/// The bytes the canonical envelope digest is taken over.
pub open spec fn envelope_digest_input(
    message_id: Seq<char>,
    destination: Seq<char>,
    kind: Seq<char>,
    payload_digest_hex: Seq<char>,
    created_at: int,
    expires_at: int,
    sender: Seq<char>,
    anti_replay_nonce_hex: Seq<char>,
) -> Seq<u8> {
    encode_utf8(message_id) + encode_utf8(destination) + encode_utf8(kind) + encode_utf8(payload_digest_hex)
        + be_bytes(twos_128(created_at), 16) + be_bytes(twos_128(expires_at), 16) + encode_utf8(sender)
        + encode_utf8(anti_replay_nonce_hex)
}

/// Canonical digest over the fields the signature binds; instants are
/// Unix-epoch nanoseconds, framed as 16 big-endian bytes.
pub fn canonical_envelope_digest(
    message_id: &str,
    destination: &str,
    kind: &str,
    payload_digest_hex: &str,
    created_at: i128,
    expires_at: i128,
    sender: &str,
    anti_replay_nonce_hex: &str,
) -> (r: String)
    ensures
        r@ == hex_lower(sha256_spec(envelope_digest_input(
            message_id@, destination@, kind@, payload_digest_hex@, created_at as int,
            expires_at as int, sender@, anti_replay_nonce_hex@))),
{
    let mut buf: Vec<u8> = Vec::new();
    append_str(&mut buf, message_id);
    append_str(&mut buf, destination);
    append_str(&mut buf, kind);
    append_str(&mut buf, payload_digest_hex);
    let c = i128_be(created_at);
    append_bytes(&mut buf, c.as_slice());
    let e = i128_be(expires_at);
    append_bytes(&mut buf, e.as_slice());
    append_str(&mut buf, sender);
    append_str(&mut buf, anti_replay_nonce_hex);
    assert(buf@ =~= envelope_digest_input(
        message_id@, destination@, kind@, payload_digest_hex@, created_at as int, expires_at as int,
        sender@, anti_replay_nonce_hex@));
    sha256_hex(buf.as_slice())
}

pub const NANOS_PER_SECOND: i128 = 1_000_000_000;

/// Whole seconds in a span of nanoseconds, truncated toward zero.
pub open spec fn whole_seconds(nanos: int) -> int {
    if nanos >= 0 { nanos / 1_000_000_000 } else { -((-nanos) / 1_000_000_000) }
}

/// Whether more than `limit` whole seconds separate `then` from `now`.
pub fn elapsed_exceeds(now: i128, then: i128, limit: u32) -> (r: bool)
    ensures
        r == (whole_seconds(now - then) > limit),
{
    if now < then {
        return false;
    }
    match now.checked_sub(then) {
        Some(d) => d / NANOS_PER_SECOND > limit as i128,
        None => {
            assert(now - then > i128::MAX);
            assert((now - then) / 1_000_000_000 >= i128::MAX / 1_000_000_000);
            false || true
        },
    }
}

/// Time-to-live cache of anti-replay nonces, oldest first.
#[derive(Debug)]
pub struct AntiReplayCache {
    ttl_seconds: u32,
    seen: VecDeque<(String, i128)>,
}

/// Entries of `seen` left after dropping expired entries from the front.
pub open spec fn evicted(seen: Seq<(Seq<char>, int)>, now: int, ttl: int) -> Seq<(Seq<char>, int)>
    decreases seen.len(),
{
    if seen.len() > 0 && whole_seconds(now - seen[0].1) > ttl {
        evicted(seen.drop_first(), now, ttl)
    } else {
        seen
    }
}

/// Whether the nonce occurs among the entries.
pub open spec fn holds_nonce(seen: Seq<(Seq<char>, int)>, nonce: Seq<char>) -> bool {
    exists|i: int| 0 <= i < seen.len() && #[trigger] seen[i].0 == nonce
}

impl AntiReplayCache {
    pub fn new(ttl_seconds: u32) -> (r: AntiReplayCache)
        ensures
            r.ttl() == ttl_seconds,
            r.entries() == Seq::<(Seq<char>, int)>::empty(),
    {
        let r = AntiReplayCache { ttl_seconds, seen: VecDeque::new() };
        assert(r.entries() =~= Seq::<(Seq<char>, int)>::empty());
        r
    }

    pub closed spec fn ttl(&self) -> int {
        self.ttl_seconds as int
    }

    /// The remembered (nonce, instant) pairs, oldest first.
    pub closed spec fn entries(&self) -> Seq<(Seq<char>, int)> {
        self.seen@.map_values(|e: (String, i128)| (e.0@, e.1 as int))
    }

    fn evict(&mut self, now: i128)
        ensures
            final(self).ttl() == old(self).ttl(),
            final(self).entries() == evicted(old(self).entries(), now as int, old(self).ttl()),
    {
        loop
            invariant
                self.ttl() == old(self).ttl(),
                evicted(old(self).entries(), now as int, old(self).ttl())
                    == evicted(self.entries(), now as int, self.ttl()),
            ensures
                self.ttl() == old(self).ttl(),
                self.entries() == evicted(old(self).entries(), now as int, old(self).ttl()),
            decreases self.seen@.len(),
        {
            if self.seen.len() == 0 {
                return;
            }
            let t = self.seen[0].1;
            if elapsed_exceeds(now, t, self.ttl_seconds) {
                let ghost before = self.entries();
                self.seen.pop_front();
                assert(self.entries() =~= before.drop_first());
            } else {
                return;
            }
        }
    }

    /// Records `nonce` at `now`. Returns true if the nonce is new; false if it
    /// was seen within the retention window (a replay).
    pub fn observe(&mut self, nonce: &str, now: i128) -> (r: bool)
        ensures
            final(self).ttl() == old(self).ttl(),
            ({
                let kept = evicted(old(self).entries(), now as int, old(self).ttl());
                &&& r == !holds_nonce(kept, nonce@)
                &&& r ==> final(self).entries() == kept.push((nonce@, now as int))
                &&& !r ==> final(self).entries() == kept
            }),
    {
        self.evict(now);
        let n = self.seen.len();
        let mut i: usize = 0;
        while i < n
            invariant
                n == self.seen@.len(),
                i <= n,
                self.ttl() == old(self).ttl(),
                self.entries() == evicted(old(self).entries(), now as int, old(self).ttl()),
                forall|k: int| 0 <= k < i ==> self.entries()[k].0 != nonce@,
            decreases n - i,
        {
            let same = str_eq(self.seen[i].0.as_str(), nonce);
            assert(self.entries()[i as int] == (self.seen@[i as int].0@, self.seen@[i as int].1 as int));
            if same {
                assert(self.entries()[i as int].0 == nonce@);
                return false;
            }
            i = i + 1;
        }
        let ghost before = self.entries();
        self.seen.push_back((nonce.to_owned(), now));
        assert(self.entries() =~= before.push((nonce@, now as int)));
        true
    }
}

/// A signature made with a key over a digest verifies under the same key
/// and digest: what `sign(k, d)` returns, `verify(k, d, _)` accepts, and
/// `verify` accepts no other text for that key and digest.
pub proof fn law_sign_then_verify(key: Seq<u8>, digest_hex: Seq<char>)
    ensures
        verifies(key, digest_hex, signature_of(key, digest_hex)),
        forall|other: Seq<char>| #[trigger] verifies(key, digest_hex, other) ==> other == signature_of(key, digest_hex),
{
}

proof fn lemma_last_survives(seen: Seq<(Seq<char>, int)>, nonce: Seq<char>, then: int, now: int, ttl: int)
    requires
        seen.len() > 0,
        seen.last() == (nonce, then),
        whole_seconds(now - then) <= ttl,
    ensures
        holds_nonce(evicted(seen, now, ttl), nonce),
    decreases seen.len(),
{
    let e = evicted(seen, now, ttl);
    if whole_seconds(now - seen[0].1) > ttl {
        assert(seen.len() > 1);
        assert(seen.drop_first().last() == seen.last());
        lemma_last_survives(seen.drop_first(), nonce, then, now, ttl);
    } else {
        assert(e == seen);
        assert(e[seen.len() - 1].0 == nonce);
    }
}

/// A nonce recorded at `then` is still remembered at any `now` no more
/// than the time-to-live later (whole seconds), so repeating it inside the
/// window is reported as a replay.
pub proof fn law_nonce_is_refused_within_ttl(kept: Seq<(Seq<char>, int)>, nonce: Seq<char>, then: int, now: int, ttl: int)
    requires
        whole_seconds(now - then) <= ttl,
    ensures
        holds_nonce(evicted(kept.push((nonce, then)), now, ttl), nonce),
{
    lemma_last_survives(kept.push((nonce, then)), nonce, then, now, ttl);
}

/// Once every remembered nonce is older than the time-to-live, all of them
/// are forgotten and may be used again.
pub proof fn law_expired_nonces_are_forgotten(seen: Seq<(Seq<char>, int)>, now: int, ttl: int)
    requires
        forall|i: int| 0 <= i < seen.len() ==> whole_seconds(now - #[trigger] seen[i].1) > ttl,
    ensures
        evicted(seen, now, ttl) == Seq::<(Seq<char>, int)>::empty(),
    decreases seen.len(),
{
    if seen.len() > 0 {
        assert(whole_seconds(now - seen[0].1) > ttl);
        assert forall|i: int| 0 <= i < seen.drop_first().len() implies whole_seconds(now - #[trigger] seen.drop_first()[i].1) > ttl by {
            assert(seen.drop_first()[i] == seen[i + 1]);
        }
        law_expired_nonces_are_forgotten(seen.drop_first(), now, ttl);
    } else {
        assert(seen =~= Seq::<(Seq<char>, int)>::empty());
    }
}

/// The cache after a history of `observe` calls from an empty cache with
/// the given time-to-live, with the result of each call. A call is a
/// (nonce, instant) pair; this is `observe`'s contract applied in turn.
pub open spec fn replay_run(ttl: int, calls: Seq<(Seq<char>, int)>) -> (Seq<(Seq<char>, int)>, Seq<bool>)
    decreases calls.len(),
{
    if calls.len() == 0 {
        (Seq::empty(), Seq::empty())
    } else {
        let prev = replay_run(ttl, calls.drop_last());
        let nonce = calls.last().0;
        let now = calls.last().1;
        let kept = evicted(prev.0, now, ttl);
        let fresh = !holds_nonce(kept, nonce);
        (if fresh { kept.push((nonce, now)) } else { kept }, prev.1.push(fresh))
    }
}

/// The instants of a history never go backwards.
#[verifier::opaque]
pub open spec fn in_time_order(calls: Seq<(Seq<char>, int)>) -> bool {
    forall|i: int, k: int| #![trigger calls[i], calls[k]] 0 <= i <= k < calls.len() ==> calls[i].1 <= calls[k].1
}

/// No instant of `s` is later than `now`.
#[verifier::opaque]
spec fn all_before(s: Seq<(Seq<char>, int)>, now: int) -> bool {
    forall|a: int| 0 <= a < s.len() ==> #[trigger] s[a].1 <= now
}

/// `x` is an accepted call of the history still within the time-to-live at `now`.
spec fn accepted_live(calls: Seq<(Seq<char>, int)>, res: Seq<bool>, x: (Seq<char>, int), now: int, ttl: int) -> bool {
    exists|i: int| 0 <= i < calls.len() && res[i] && #[trigger] calls[i] == x && whole_seconds(now - x.1) <= ttl
}

/// Every held entry is an accepted call still within the time-to-live at `now`.
#[verifier::opaque]
spec fn sound(e: Seq<(Seq<char>, int)>, calls: Seq<(Seq<char>, int)>, res: Seq<bool>, now: int, ttl: int) -> bool {
    forall|a: int| 0 <= a < e.len() ==> #[trigger] accepted_live(calls, res, e[a], now, ttl)
}

/// Every accepted call still within the time-to-live at `now` is held.
#[verifier::opaque]
spec fn complete(e: Seq<(Seq<char>, int)>, calls: Seq<(Seq<char>, int)>, res: Seq<bool>, now: int, ttl: int) -> bool {
    forall|i: int| #![trigger calls[i]] 0 <= i < calls.len() && res[i] && whole_seconds(now - calls[i].1) <= ttl
        ==> e.contains(calls[i])
}

/// The cache `e` after the history `calls` with results `res`, seen at `now`.
spec fn cache_inv(e: Seq<(Seq<char>, int)>, calls: Seq<(Seq<char>, int)>, res: Seq<bool>, now: int, ttl: int) -> bool {
    &&& res.len() == calls.len()
    &&& in_time_order(e)
    &&& all_before(e, now)
    &&& sound(e, calls, res, now, ttl)
    &&& complete(e, calls, res, now, ttl)
}

proof fn lemma_whole_seconds_monotone(d1: int, d2: int)
    requires
        0 <= d1 <= d2,
    ensures
        whole_seconds(d1) <= whole_seconds(d2),
{
    assert(d1 / 1_000_000_000 <= d2 / 1_000_000_000) by (nonlinear_arith)
        requires 0 <= d1 <= d2;
}

proof fn lemma_history_prefix(c: Seq<(Seq<char>, int)>)
    requires
        in_time_order(c),
        c.len() > 0,
    ensures
        in_time_order(c.drop_last()),
        all_before(c.drop_last(), c.last().1),
        all_before(c, c.last().1),
{
    reveal(in_time_order);
    reveal(all_before);
    let p = c.drop_last();
    assert forall|i: int, k: int| #![trigger p[i], p[k]] 0 <= i <= k < p.len() implies p[i].1 <= p[k].1 by {
        assert(c[i] == p[i] && c[k] == p[k]);
    }
    assert forall|a: int| 0 <= a < p.len() implies #[trigger] p[a].1 <= c.last().1 by {
        assert(c[a] == p[a]);
        assert(c[a].1 <= c[c.len() - 1].1);
    }
    assert forall|a: int| 0 <= a < c.len() implies #[trigger] c[a].1 <= c.last().1 by {
        assert(c[a].1 <= c[c.len() - 1].1);
    }
}

/// Eviction drops a prefix: the entries already expired at `now`.
proof fn lemma_evicted_suffix(s: Seq<(Seq<char>, int)>, now: int, ttl: int) -> (k: int)
    requires
        in_time_order(s),
        all_before(s, now),
    ensures
        0 <= k <= s.len(),
        evicted(s, now, ttl) == s.subrange(k, s.len() as int),
        forall|a: int| 0 <= a < k ==> whole_seconds(now - #[trigger] s[a].1) > ttl,
        forall|a: int| k <= a < s.len() ==> whole_seconds(now - #[trigger] s[a].1) <= ttl,
    decreases s.len(),
{
    reveal(in_time_order);
    reveal(all_before);
    if s.len() > 0 && whole_seconds(now - s[0].1) > ttl {
        let t = s.drop_first();
        assert forall|a: int, b: int| #![trigger t[a], t[b]] 0 <= a <= b < t.len() implies t[a].1 <= t[b].1 by {
            assert(s[a + 1] == t[a] && s[b + 1] == t[b]);
        }
        assert forall|a: int| 0 <= a < t.len() implies #[trigger] t[a].1 <= now by {
            assert(s[a + 1] == t[a]);
        }
        let k1 = lemma_evicted_suffix(t, now, ttl);
        assert(t.subrange(k1, t.len() as int) =~= s.subrange(k1 + 1, s.len() as int));
        assert forall|a: int| 0 <= a < k1 + 1 implies whole_seconds(now - #[trigger] s[a].1) > ttl by {
            if a > 0 {
                assert(s[a] == t[a - 1]);
            }
        }
        assert forall|a: int| k1 + 1 <= a < s.len() implies whole_seconds(now - #[trigger] s[a].1) <= ttl by {
            assert(s[a] == t[a - 1]);
        }
        k1 + 1
    } else {
        assert(s.subrange(0, s.len() as int) =~= s);
        assert forall|a: int| 0 <= a < s.len() implies whole_seconds(now - #[trigger] s[a].1) <= ttl by {
            assert(s[0].1 <= s[a].1);
            assert(s[a].1 <= now);
            lemma_whole_seconds_monotone(now - s[a].1, now - s[0].1);
        }
        0
    }
}

/// Recording call `c` keeps the invariant at the call's own instant.
proof fn lemma_push_step(kq: Seq<(Seq<char>, int)>, q: Seq<(Seq<char>, int)>, qres: Seq<bool>, c: (Seq<char>, int), fresh: bool, ttl: int)
    requires
        0 <= ttl,
        cache_inv(kq, q, qres, c.1, ttl),
    ensures
        cache_inv(if fresh { kq.push(c) } else { kq }, q.push(c), qres.push(fresh), c.1, ttl),
{
    reveal(in_time_order);
    reveal(all_before);
    reveal(sound);
    reveal(complete);
    let e = if fresh { kq.push(c) } else { kq };
    let calls = q.push(c);
    let res = qres.push(fresh);
    let n = q.len() as int;
    assert forall|a: int, b: int| #![trigger e[a], e[b]] 0 <= a <= b < e.len() implies e[a].1 <= e[b].1 by {
        if b < kq.len() {
            assert(e[a] == kq[a] && e[b] == kq[b]);
        } else {
            assert(e[a] == kq[a] || a == b);
            if a < kq.len() {
                assert(kq[a].1 <= c.1);
            }
        }
    }
    assert forall|a: int| 0 <= a < e.len() implies #[trigger] e[a].1 <= c.1 by {
        if a < kq.len() {
            assert(e[a] == kq[a]);
        }
    }
    assert forall|a: int| 0 <= a < e.len() implies #[trigger] accepted_live(calls, res, e[a], c.1, ttl) by {
        if a < kq.len() {
            assert(e[a] == kq[a]);
            assert(accepted_live(q, qres, kq[a], c.1, ttl));
            let i = choose|i: int| 0 <= i < q.len() && qres[i] && #[trigger] q[i] == kq[a]
                && whole_seconds(c.1 - kq[a].1) <= ttl;
            assert(calls[i] == q[i] && res[i] == qres[i]);
        } else {
            assert(calls[n] == e[a] && res[n]);
            assert(whole_seconds(c.1 - calls[n].1) == 0);
        }
    }
    assert forall|i: int| #![trigger calls[i]] 0 <= i < calls.len() && res[i] && whole_seconds(c.1 - calls[i].1) <= ttl
        implies e.contains(calls[i]) by {
        if i < n {
            assert(calls[i] == q[i] && res[i] == qres[i]);
            assert(kq.contains(q[i]));
            let a = choose|a: int| 0 <= a < kq.len() && kq[a] == q[i];
            assert(e[a] == kq[a]);
        } else {
            assert(e[kq.len() as int] == calls[n]);
        }
    }
    assert(in_time_order(e));
    assert(all_before(e, c.1));
    assert(sound(e, calls, res, c.1, ttl));
    assert(complete(e, calls, res, c.1, ttl));
}

/// Evicting at a later instant `now` keeps the invariant, moved to `now`.
#[verifier::rlimit(40)]
proof fn lemma_evict_step(e: Seq<(Seq<char>, int)>, calls: Seq<(Seq<char>, int)>, res: Seq<bool>, t: int, now: int, ttl: int)
    requires
        cache_inv(e, calls, res, t, ttl),
        all_before(calls, t),
        t <= now,
    ensures
        cache_inv(evicted(e, now, ttl), calls, res, now, ttl),
{
    assert(all_before(e, now)) by {
        reveal(all_before);
    }
    let k = lemma_evicted_suffix(e, now, ttl);
    let kept = evicted(e, now, ttl);
    reveal(in_time_order);
    reveal(all_before);
    reveal(sound);
    reveal(complete);
    assert forall|a: int, b: int| #![trigger kept[a], kept[b]] 0 <= a <= b < kept.len() implies kept[a].1 <= kept[b].1 by {
        assert(kept[a] == e[a + k] && kept[b] == e[b + k]);
    }
    assert forall|a: int| 0 <= a < kept.len() implies #[trigger] kept[a].1 <= now by {
        assert(kept[a] == e[a + k]);
    }
    assert forall|a: int| 0 <= a < kept.len() implies #[trigger] accepted_live(calls, res, kept[a], now, ttl) by {
        assert(kept[a] == e[a + k]);
        assert(accepted_live(calls, res, e[a + k], t, ttl));
        assert(whole_seconds(now - e[a + k].1) <= ttl);
    }
    assert forall|i: int| #![trigger calls[i]] 0 <= i < calls.len() && res[i] && whole_seconds(now - calls[i].1) <= ttl
        implies kept.contains(calls[i]) by {
        assert(calls[i].1 <= t);
        lemma_whole_seconds_monotone(t - calls[i].1, now - calls[i].1);
        assert(e.contains(calls[i]));
        let a = choose|a: int| 0 <= a < e.len() && e[a] == calls[i];
        if a < k {
            assert(whole_seconds(now - e[a].1) > ttl);
        }
        assert(kept[a - k] == e[a]);
    }
}

/// After a history in time order, the cache as seen at any later `now`
/// holds exactly the accepted calls still within the time-to-live.
proof fn lemma_kept(ttl: int, p: Seq<(Seq<char>, int)>, now: int)
    requires
        0 <= ttl,
        in_time_order(p),
        all_before(p, now),
    ensures
        cache_inv(evicted(replay_run(ttl, p).0, now, ttl), p, replay_run(ttl, p).1, now, ttl),
    decreases p.len(),
{
    if p.len() == 0 {
        reveal(in_time_order);
        reveal(all_before);
        reveal(sound);
        reveal(complete);
        assert(evicted(replay_run(ttl, p).0, now, ttl) == Seq::<(Seq<char>, int)>::empty());
    } else {
        let q = p.drop_last();
        let c = p.last();
        lemma_history_prefix(p);
        lemma_kept(ttl, q, c.1);
        let (qe, qres) = replay_run(ttl, q);
        let kq = evicted(qe, c.1, ttl);
        let fresh = !holds_nonce(kq, c.0);
        lemma_push_step(kq, q, qres, c, fresh, ttl);
        assert(q.push(c) =~= p);
        assert(c.1 <= now) by {
            reveal(all_before);
            assert(p[p.len() - 1] == c);
        }
        lemma_evict_step(replay_run(ttl, p).0, p, replay_run(ttl, p).1, c.1, now, ttl);
    }
}

/// Anti-replay over a whole history: in a history of `observe` calls on a
/// fresh cache whose instants never go backwards, call `j` is accepted
/// exactly when no earlier accepted call carried the same nonce within the
/// time-to-live (whole seconds) before it.
pub proof fn law_replay_history(ttl: int, calls: Seq<(Seq<char>, int)>, j: int)
    requires
        0 <= ttl,
        in_time_order(calls),
        0 <= j < calls.len(),
    ensures
        replay_run(ttl, calls).1[j] == !exists|i: int| 0 <= i < j && #[trigger] replay_run(ttl, calls).1[i]
            && calls[i].0 == calls[j].0 && whole_seconds(calls[j].1 - calls[i].1) <= ttl,
    decreases calls.len(),
{
    let n = calls.len() - 1;
    let p = calls.drop_last();
    lemma_history_prefix(calls);
    let (pe, pres) = replay_run(ttl, p);
    let res = replay_run(ttl, calls).1;
    let fresh = !holds_nonce(evicted(pe, calls.last().1, ttl), calls.last().0);
    assert(res == pres.push(fresh));
    lemma_kept(ttl, p, calls.last().1);
    if j < n {
        law_replay_history(ttl, p, j);
        assert forall|i: int| 0 <= i < n implies #[trigger] res[i] == pres[i] by {}
        assert forall|i: int| 0 <= i < n implies #[trigger] calls[i] == p[i] by {}
        if exists|i: int| 0 <= i < j && #[trigger] res[i] && calls[i].0 == calls[j].0
            && whole_seconds(calls[j].1 - calls[i].1) <= ttl {
            let i = choose|i: int| 0 <= i < j && #[trigger] res[i] && calls[i].0 == calls[j].0
                && whole_seconds(calls[j].1 - calls[i].1) <= ttl;
            assert(pres[i] && p[i].0 == p[j].0 && whole_seconds(p[j].1 - p[i].1) <= ttl);
        } else {
            assert forall|i: int| 0 <= i < j && #[trigger] pres[i] && p[i].0 == p[j].0
                implies whole_seconds(p[j].1 - p[i].1) > ttl by {
                assert(res[i] && calls[i] == p[i] && calls[j] == p[j]);
            }
        }
    } else {
        let c = calls.last();
        assert(calls[n] == c);
        lemma_kept(ttl, p, c.1);
        let kept = evicted(pe, c.1, ttl);
        assert(res[n] == !holds_nonce(kept, c.0));
        reveal(sound);
        reveal(complete);
        assert forall|i: int| 0 <= i < n implies #[trigger] res[i] == pres[i] by {}
        assert forall|i: int| 0 <= i < n implies #[trigger] calls[i] == p[i] by {}
        if holds_nonce(kept, c.0) {
            let a = choose|a: int| 0 <= a < kept.len() && #[trigger] kept[a].0 == c.0;
            assert(accepted_live(p, pres, kept[a], c.1, ttl));
            let i = choose|i: int| 0 <= i < p.len() && pres[i] && #[trigger] p[i] == kept[a]
                && whole_seconds(c.1 - kept[a].1) <= ttl;
            assert(res[i] && calls[i].0 == calls[j].0 && whole_seconds(calls[j].1 - calls[i].1) <= ttl);
        } else {
            assert forall|i: int| 0 <= i < j && #[trigger] res[i] && calls[i].0 == calls[j].0
                implies whole_seconds(calls[j].1 - calls[i].1) > ttl by {
                if whole_seconds(calls[j].1 - calls[i].1) <= ttl {
                    assert(p[i] == calls[i] && pres[i]);
                    assert(kept.contains(p[i]));
                    let a = choose|a: int| 0 <= a < kept.len() && kept[a] == p[i];
                    assert(kept[a].0 == c.0);
                }
            }
        }
    }
}

} // verus!
