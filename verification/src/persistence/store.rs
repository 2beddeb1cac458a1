//! Append-only event log with a chained integrity digest.
//!
//! Each event's digest covers the previous event's digest and the event's
//! own fields, so the log can be re-walked from `GENESIS` to its tail and
//! every link checked. Instants are Unix-epoch nanoseconds; payloads are
//! JSON text.

use vstd::prelude::*;
use vstd::utf8::encode_utf8;
use crate::digest::{append_bytes, append_str, be_bytes, hex_lower, i128_be, sha256_hex, sha256_spec, twos_128};
use crate::keyed::{lookup, set_entry};
use crate::text::{chars_of, str_eq, string_from_chars};

verus! {

/// Why a store operation failed.
#[derive(Debug, Clone, PartialEq, Eq)]
pub enum StoreError {
    /// The storage back end failed.
    Sqlite(String),
    /// A payload could not be serialised.
    Json(String),
    /// The chain does not verify at `sequence`.
    IntegrityBroken { sequence: u64, expected: String, found: String },
    /// The event id is already in the log.
    DuplicateEvent,
}

/// One event as stored.
#[derive(Debug)]
pub struct StoredEvent {
    pub sequence: u64,
    pub event_type: String,
    pub event_id_hex: String,
    pub actor: String,
    pub runtime_id: String,
    pub target: String,
    pub before_ref: Option<String>,
    pub after_ref: Option<String>,
    pub occurred_at: i128,
    pub payload_json: String,
    pub previous_digest_hex: String,
    pub integrity_digest_hex: String,
    pub correlation_id: Option<String>,
    pub security_context: String,
}

fn clone_opt(o: &Option<String>) -> (r: Option<String>)
    ensures
        r == *o,
{
    match o {
        Some(s) => Some(s.clone()),
        None => None,
    }
}

fn opt_text(o: Option<&str>) -> (r: Option<String>)
    ensures
        (r is Some <==> o is Some),
        o matches Some(s) ==> r->0@ == s@,
{
    match o {
        Some(s) => Some(s.to_owned()),
        None => None,
    }
}

impl Clone for StoredEvent {
    fn clone(&self) -> (r: Self)
        ensures
            r == *self,
    {
        StoredEvent {
            sequence: self.sequence,
            event_type: self.event_type.clone(),
            event_id_hex: self.event_id_hex.clone(),
            actor: self.actor.clone(),
            runtime_id: self.runtime_id.clone(),
            target: self.target.clone(),
            before_ref: clone_opt(&self.before_ref),
            after_ref: clone_opt(&self.after_ref),
            occurred_at: self.occurred_at,
            payload_json: self.payload_json.clone(),
            previous_digest_hex: self.previous_digest_hex.clone(),
            integrity_digest_hex: self.integrity_digest_hex.clone(),
            correlation_id: clone_opt(&self.correlation_id),
            security_context: self.security_context.clone(),
        }
    }
}

/// The predecessor digest of the first event.
pub open spec fn genesis() -> Seq<char> {
    "GENESIS"@
}

/// The bytes an event digest is taken over.
pub open spec fn digest_input(
    prev: Seq<char>,
    event_type: Seq<char>,
    event_id_hex: Seq<char>,
    actor: Seq<char>,
    runtime_id: Seq<char>,
    target: Seq<char>,
    occurred_at_ns: int,
    payload_json: Seq<char>,
    security_context: Seq<char>,
) -> Seq<u8> {
    encode_utf8(prev) + encode_utf8(event_type) + encode_utf8(event_id_hex) + encode_utf8(actor)
        + encode_utf8(runtime_id) + encode_utf8(target) + be_bytes(twos_128(occurred_at_ns), 16)
        + encode_utf8(payload_json) + encode_utf8(security_context)
}

/// The chained digest of an event with the given predecessor digest.
pub open spec fn event_digest(
    prev: Seq<char>,
    event_type: Seq<char>,
    event_id_hex: Seq<char>,
    actor: Seq<char>,
    runtime_id: Seq<char>,
    target: Seq<char>,
    occurred_at_ns: int,
    payload_json: Seq<char>,
    security_context: Seq<char>,
) -> Seq<char> {
    hex_lower(sha256_spec(digest_input(prev, event_type, event_id_hex, actor, runtime_id, target,
        occurred_at_ns, payload_json, security_context)))
}

/// The digest an event's fields call for, given its recorded predecessor digest.
pub open spec fn recomputed(e: StoredEvent) -> Seq<char> {
    event_digest(e.previous_digest_hex@, e.event_type@, e.event_id_hex@, e.actor@, e.runtime_id@,
        e.target@, e.occurred_at as int, e.payload_json@, e.security_context@)
}

proof fn lemma_cancel_frame(pre: Seq<u8>, x: Seq<u8>, y: Seq<u8>, post: Seq<u8>)
    requires
        pre + x + post == pre + y + post,
    ensures
        x == y,
{
    let a = pre + x + post;
    let b = pre + y + post;
    assert(a.len() == b.len());
    assert((pre + x).len() == pre.len() + x.len());
    assert((pre + y).len() == pre.len() + y.len());
    assert(a.len() == (pre + x).len() + post.len());
    assert(b.len() == (pre + y).len() + post.len());
    assert(x.len() == y.len());
    assert forall|i: int| 0 <= i < x.len() implies x[i] == y[i] by {
        assert((pre + x + post)[pre.len() + i] == x[i]);
        assert((pre + y + post)[pre.len() + i] == y[i]);
    }
    assert(x =~= y);
}

proof fn lemma_binds_prev(prev: Seq<char>, event_type: Seq<char>, event_id_hex: Seq<char>, actor: Seq<char>, runtime_id: Seq<char>, target: Seq<char>, occurred_at_ns: int, payload_json: Seq<char>, security_context: Seq<char>, prev2: Seq<char>)
    ensures
        prev != prev2 ==> digest_input(prev, event_type, event_id_hex, actor, runtime_id, target, occurred_at_ns, payload_json, security_context) != digest_input(prev2, event_type, event_id_hex, actor, runtime_id, target, occurred_at_ns, payload_json, security_context),
{
    if prev != prev2 && digest_input(prev, event_type, event_id_hex, actor, runtime_id, target, occurred_at_ns, payload_json, security_context) == digest_input(prev2, event_type, event_id_hex, actor, runtime_id, target, occurred_at_ns, payload_json, security_context) {
        let pre = Seq::<u8>::empty();
        let post = encode_utf8(event_type) + encode_utf8(event_id_hex) + encode_utf8(actor) + encode_utf8(runtime_id) + encode_utf8(target) + be_bytes(twos_128(occurred_at_ns), 16) + encode_utf8(payload_json) + encode_utf8(security_context);
        assert(digest_input(prev, event_type, event_id_hex, actor, runtime_id, target, occurred_at_ns, payload_json, security_context) =~= pre + encode_utf8(prev) + post);
        assert(digest_input(prev2, event_type, event_id_hex, actor, runtime_id, target, occurred_at_ns, payload_json, security_context) =~= pre + encode_utf8(prev2) + post);
        lemma_cancel_frame(pre, encode_utf8(prev), encode_utf8(prev2), post);
        vstd::utf8::encode_utf8_decode_utf8(prev);
        vstd::utf8::encode_utf8_decode_utf8(prev2);
    }
}

proof fn lemma_binds_event_type(prev: Seq<char>, event_type: Seq<char>, event_id_hex: Seq<char>, actor: Seq<char>, runtime_id: Seq<char>, target: Seq<char>, occurred_at_ns: int, payload_json: Seq<char>, security_context: Seq<char>, event_type2: Seq<char>)
    ensures
        event_type != event_type2 ==> digest_input(prev, event_type, event_id_hex, actor, runtime_id, target, occurred_at_ns, payload_json, security_context) != digest_input(prev, event_type2, event_id_hex, actor, runtime_id, target, occurred_at_ns, payload_json, security_context),
{
    if event_type != event_type2 && digest_input(prev, event_type, event_id_hex, actor, runtime_id, target, occurred_at_ns, payload_json, security_context) == digest_input(prev, event_type2, event_id_hex, actor, runtime_id, target, occurred_at_ns, payload_json, security_context) {
        let pre = encode_utf8(prev);
        let post = encode_utf8(event_id_hex) + encode_utf8(actor) + encode_utf8(runtime_id) + encode_utf8(target) + be_bytes(twos_128(occurred_at_ns), 16) + encode_utf8(payload_json) + encode_utf8(security_context);
        assert(digest_input(prev, event_type, event_id_hex, actor, runtime_id, target, occurred_at_ns, payload_json, security_context) =~= pre + encode_utf8(event_type) + post);
        assert(digest_input(prev, event_type2, event_id_hex, actor, runtime_id, target, occurred_at_ns, payload_json, security_context) =~= pre + encode_utf8(event_type2) + post);
        lemma_cancel_frame(pre, encode_utf8(event_type), encode_utf8(event_type2), post);
        vstd::utf8::encode_utf8_decode_utf8(event_type);
        vstd::utf8::encode_utf8_decode_utf8(event_type2);
    }
}

proof fn lemma_binds_event_id_hex(prev: Seq<char>, event_type: Seq<char>, event_id_hex: Seq<char>, actor: Seq<char>, runtime_id: Seq<char>, target: Seq<char>, occurred_at_ns: int, payload_json: Seq<char>, security_context: Seq<char>, event_id_hex2: Seq<char>)
    ensures
        event_id_hex != event_id_hex2 ==> digest_input(prev, event_type, event_id_hex, actor, runtime_id, target, occurred_at_ns, payload_json, security_context) != digest_input(prev, event_type, event_id_hex2, actor, runtime_id, target, occurred_at_ns, payload_json, security_context),
{
    if event_id_hex != event_id_hex2 && digest_input(prev, event_type, event_id_hex, actor, runtime_id, target, occurred_at_ns, payload_json, security_context) == digest_input(prev, event_type, event_id_hex2, actor, runtime_id, target, occurred_at_ns, payload_json, security_context) {
        let pre = encode_utf8(prev) + encode_utf8(event_type);
        let post = encode_utf8(actor) + encode_utf8(runtime_id) + encode_utf8(target) + be_bytes(twos_128(occurred_at_ns), 16) + encode_utf8(payload_json) + encode_utf8(security_context);
        assert(digest_input(prev, event_type, event_id_hex, actor, runtime_id, target, occurred_at_ns, payload_json, security_context) =~= pre + encode_utf8(event_id_hex) + post);
        assert(digest_input(prev, event_type, event_id_hex2, actor, runtime_id, target, occurred_at_ns, payload_json, security_context) =~= pre + encode_utf8(event_id_hex2) + post);
        lemma_cancel_frame(pre, encode_utf8(event_id_hex), encode_utf8(event_id_hex2), post);
        vstd::utf8::encode_utf8_decode_utf8(event_id_hex);
        vstd::utf8::encode_utf8_decode_utf8(event_id_hex2);
    }
}

proof fn lemma_binds_actor(prev: Seq<char>, event_type: Seq<char>, event_id_hex: Seq<char>, actor: Seq<char>, runtime_id: Seq<char>, target: Seq<char>, occurred_at_ns: int, payload_json: Seq<char>, security_context: Seq<char>, actor2: Seq<char>)
    ensures
        actor != actor2 ==> digest_input(prev, event_type, event_id_hex, actor, runtime_id, target, occurred_at_ns, payload_json, security_context) != digest_input(prev, event_type, event_id_hex, actor2, runtime_id, target, occurred_at_ns, payload_json, security_context),
{
    if actor != actor2 && digest_input(prev, event_type, event_id_hex, actor, runtime_id, target, occurred_at_ns, payload_json, security_context) == digest_input(prev, event_type, event_id_hex, actor2, runtime_id, target, occurred_at_ns, payload_json, security_context) {
        let pre = encode_utf8(prev) + encode_utf8(event_type) + encode_utf8(event_id_hex);
        let post = encode_utf8(runtime_id) + encode_utf8(target) + be_bytes(twos_128(occurred_at_ns), 16) + encode_utf8(payload_json) + encode_utf8(security_context);
        assert(digest_input(prev, event_type, event_id_hex, actor, runtime_id, target, occurred_at_ns, payload_json, security_context) =~= pre + encode_utf8(actor) + post);
        assert(digest_input(prev, event_type, event_id_hex, actor2, runtime_id, target, occurred_at_ns, payload_json, security_context) =~= pre + encode_utf8(actor2) + post);
        lemma_cancel_frame(pre, encode_utf8(actor), encode_utf8(actor2), post);
        vstd::utf8::encode_utf8_decode_utf8(actor);
        vstd::utf8::encode_utf8_decode_utf8(actor2);
    }
}

proof fn lemma_binds_runtime_id(prev: Seq<char>, event_type: Seq<char>, event_id_hex: Seq<char>, actor: Seq<char>, runtime_id: Seq<char>, target: Seq<char>, occurred_at_ns: int, payload_json: Seq<char>, security_context: Seq<char>, runtime_id2: Seq<char>)
    ensures
        runtime_id != runtime_id2 ==> digest_input(prev, event_type, event_id_hex, actor, runtime_id, target, occurred_at_ns, payload_json, security_context) != digest_input(prev, event_type, event_id_hex, actor, runtime_id2, target, occurred_at_ns, payload_json, security_context),
{
    if runtime_id != runtime_id2 && digest_input(prev, event_type, event_id_hex, actor, runtime_id, target, occurred_at_ns, payload_json, security_context) == digest_input(prev, event_type, event_id_hex, actor, runtime_id2, target, occurred_at_ns, payload_json, security_context) {
        let pre = encode_utf8(prev) + encode_utf8(event_type) + encode_utf8(event_id_hex) + encode_utf8(actor);
        let post = encode_utf8(target) + be_bytes(twos_128(occurred_at_ns), 16) + encode_utf8(payload_json) + encode_utf8(security_context);
        assert(digest_input(prev, event_type, event_id_hex, actor, runtime_id, target, occurred_at_ns, payload_json, security_context) =~= pre + encode_utf8(runtime_id) + post);
        assert(digest_input(prev, event_type, event_id_hex, actor, runtime_id2, target, occurred_at_ns, payload_json, security_context) =~= pre + encode_utf8(runtime_id2) + post);
        lemma_cancel_frame(pre, encode_utf8(runtime_id), encode_utf8(runtime_id2), post);
        vstd::utf8::encode_utf8_decode_utf8(runtime_id);
        vstd::utf8::encode_utf8_decode_utf8(runtime_id2);
    }
}

proof fn lemma_binds_target(prev: Seq<char>, event_type: Seq<char>, event_id_hex: Seq<char>, actor: Seq<char>, runtime_id: Seq<char>, target: Seq<char>, occurred_at_ns: int, payload_json: Seq<char>, security_context: Seq<char>, target2: Seq<char>)
    ensures
        target != target2 ==> digest_input(prev, event_type, event_id_hex, actor, runtime_id, target, occurred_at_ns, payload_json, security_context) != digest_input(prev, event_type, event_id_hex, actor, runtime_id, target2, occurred_at_ns, payload_json, security_context),
{
    if target != target2 && digest_input(prev, event_type, event_id_hex, actor, runtime_id, target, occurred_at_ns, payload_json, security_context) == digest_input(prev, event_type, event_id_hex, actor, runtime_id, target2, occurred_at_ns, payload_json, security_context) {
        let pre = encode_utf8(prev) + encode_utf8(event_type) + encode_utf8(event_id_hex) + encode_utf8(actor) + encode_utf8(runtime_id);
        let post = be_bytes(twos_128(occurred_at_ns), 16) + encode_utf8(payload_json) + encode_utf8(security_context);
        assert(digest_input(prev, event_type, event_id_hex, actor, runtime_id, target, occurred_at_ns, payload_json, security_context) =~= pre + encode_utf8(target) + post);
        assert(digest_input(prev, event_type, event_id_hex, actor, runtime_id, target2, occurred_at_ns, payload_json, security_context) =~= pre + encode_utf8(target2) + post);
        lemma_cancel_frame(pre, encode_utf8(target), encode_utf8(target2), post);
        vstd::utf8::encode_utf8_decode_utf8(target);
        vstd::utf8::encode_utf8_decode_utf8(target2);
    }
}

proof fn lemma_binds_payload_json(prev: Seq<char>, event_type: Seq<char>, event_id_hex: Seq<char>, actor: Seq<char>, runtime_id: Seq<char>, target: Seq<char>, occurred_at_ns: int, payload_json: Seq<char>, security_context: Seq<char>, payload_json2: Seq<char>)
    ensures
        payload_json != payload_json2 ==> digest_input(prev, event_type, event_id_hex, actor, runtime_id, target, occurred_at_ns, payload_json, security_context) != digest_input(prev, event_type, event_id_hex, actor, runtime_id, target, occurred_at_ns, payload_json2, security_context),
{
    if payload_json != payload_json2 && digest_input(prev, event_type, event_id_hex, actor, runtime_id, target, occurred_at_ns, payload_json, security_context) == digest_input(prev, event_type, event_id_hex, actor, runtime_id, target, occurred_at_ns, payload_json2, security_context) {
        let pre = encode_utf8(prev) + encode_utf8(event_type) + encode_utf8(event_id_hex) + encode_utf8(actor) + encode_utf8(runtime_id) + encode_utf8(target) + be_bytes(twos_128(occurred_at_ns), 16);
        let post = encode_utf8(security_context);
        assert(digest_input(prev, event_type, event_id_hex, actor, runtime_id, target, occurred_at_ns, payload_json, security_context) =~= pre + encode_utf8(payload_json) + post);
        assert(digest_input(prev, event_type, event_id_hex, actor, runtime_id, target, occurred_at_ns, payload_json2, security_context) =~= pre + encode_utf8(payload_json2) + post);
        lemma_cancel_frame(pre, encode_utf8(payload_json), encode_utf8(payload_json2), post);
        vstd::utf8::encode_utf8_decode_utf8(payload_json);
        vstd::utf8::encode_utf8_decode_utf8(payload_json2);
    }
}

proof fn lemma_binds_security_context(prev: Seq<char>, event_type: Seq<char>, event_id_hex: Seq<char>, actor: Seq<char>, runtime_id: Seq<char>, target: Seq<char>, occurred_at_ns: int, payload_json: Seq<char>, security_context: Seq<char>, security_context2: Seq<char>)
    ensures
        security_context != security_context2 ==> digest_input(prev, event_type, event_id_hex, actor, runtime_id, target, occurred_at_ns, payload_json, security_context) != digest_input(prev, event_type, event_id_hex, actor, runtime_id, target, occurred_at_ns, payload_json, security_context2),
{
    if security_context != security_context2 && digest_input(prev, event_type, event_id_hex, actor, runtime_id, target, occurred_at_ns, payload_json, security_context) == digest_input(prev, event_type, event_id_hex, actor, runtime_id, target, occurred_at_ns, payload_json, security_context2) {
        let pre = encode_utf8(prev) + encode_utf8(event_type) + encode_utf8(event_id_hex) + encode_utf8(actor) + encode_utf8(runtime_id) + encode_utf8(target) + be_bytes(twos_128(occurred_at_ns), 16) + encode_utf8(payload_json);
        let post = Seq::<u8>::empty();
        assert(digest_input(prev, event_type, event_id_hex, actor, runtime_id, target, occurred_at_ns, payload_json, security_context) =~= pre + encode_utf8(security_context) + post);
        assert(digest_input(prev, event_type, event_id_hex, actor, runtime_id, target, occurred_at_ns, payload_json, security_context2) =~= pre + encode_utf8(security_context2) + post);
        lemma_cancel_frame(pre, encode_utf8(security_context), encode_utf8(security_context2), post);
        vstd::utf8::encode_utf8_decode_utf8(security_context);
        vstd::utf8::encode_utf8_decode_utf8(security_context2);
    }
}

/// `256^k`.
spec fn pow256(k: nat) -> nat
    decreases k,
{
    if k == 0 { 1 } else { 256 * pow256((k - 1) as nat) }
}

proof fn lemma_be_bytes_injective(n1: nat, n2: nat, k: nat)
    requires
        n1 < pow256(k),
        n2 < pow256(k),
        be_bytes(n1, k) == be_bytes(n2, k),
    ensures
        n1 == n2,
    decreases k,
{
    if k > 0 {
        let b1 = be_bytes(n1, k);
        let b2 = be_bytes(n2, k);
        assert(b1.last() == b2.last());
        assert(b1.drop_last() =~= be_bytes(n1 / 256, (k - 1) as nat));
        assert(b2.drop_last() =~= be_bytes(n2 / 256, (k - 1) as nat));
        let p = pow256((k - 1) as nat);
        assert(n1 / 256 < p) by (nonlinear_arith)
            requires n1 < 256 * p;
        assert(n2 / 256 < p) by (nonlinear_arith)
            requires n2 < 256 * p;
        lemma_be_bytes_injective(n1 / 256, n2 / 256, (k - 1) as nat);
    }
}

proof fn lemma_binds_occurred_at_ns(prev: Seq<char>, event_type: Seq<char>, event_id_hex: Seq<char>, actor: Seq<char>, runtime_id: Seq<char>, target: Seq<char>, occurred_at_ns: int, payload_json: Seq<char>, security_context: Seq<char>, occurred_at_ns2: int)
    ensures
        occurred_at_ns != occurred_at_ns2 && i128::MIN <= occurred_at_ns <= i128::MAX
            && i128::MIN <= occurred_at_ns2 <= i128::MAX ==> digest_input(prev, event_type, event_id_hex, actor, runtime_id, target, occurred_at_ns, payload_json, security_context) != digest_input(prev, event_type, event_id_hex, actor, runtime_id, target, occurred_at_ns2, payload_json, security_context),
{
    if occurred_at_ns != occurred_at_ns2 && i128::MIN <= occurred_at_ns <= i128::MAX
        && i128::MIN <= occurred_at_ns2 <= i128::MAX && digest_input(prev, event_type, event_id_hex, actor, runtime_id, target, occurred_at_ns, payload_json, security_context) == digest_input(prev, event_type, event_id_hex, actor, runtime_id, target, occurred_at_ns2, payload_json, security_context) {
        let pre = encode_utf8(prev) + encode_utf8(event_type) + encode_utf8(event_id_hex) + encode_utf8(actor)
            + encode_utf8(runtime_id) + encode_utf8(target);
        let post = encode_utf8(payload_json) + encode_utf8(security_context);
        let x1 = be_bytes(twos_128(occurred_at_ns), 16);
        let x2 = be_bytes(twos_128(occurred_at_ns2), 16);
        assert(digest_input(prev, event_type, event_id_hex, actor, runtime_id, target, occurred_at_ns, payload_json, security_context) =~= pre + x1 + post);
        assert(digest_input(prev, event_type, event_id_hex, actor, runtime_id, target, occurred_at_ns2, payload_json, security_context) =~= pre + x2 + post);
        lemma_cancel_frame(pre, x1, x2, post);
        reveal_with_fuel(pow256, 17);
        assert(pow256(16) == 0x1_0000_0000_0000_0000_0000_0000_0000_0000);
        lemma_be_bytes_injective(twos_128(occurred_at_ns), twos_128(occurred_at_ns2), 16);
    }
}

/// Every field of an event is bound by its digest input: two events that
/// differ in exactly one of the predecessor digest, type, id, actor,
/// runtime id, target, instant (any two distinct `i128` nanosecond values),
/// payload or security context have different digest inputs, so rewriting
/// any one of them after the fact is caught when the chain is checked (up to
/// a SHA-256 collision).
pub proof fn law_digest_input_binds_every_field(prev: Seq<char>, prev2: Seq<char>, event_type: Seq<char>, event_type2: Seq<char>, event_id_hex: Seq<char>, event_id_hex2: Seq<char>, actor: Seq<char>, actor2: Seq<char>, runtime_id: Seq<char>, runtime_id2: Seq<char>, target: Seq<char>, target2: Seq<char>, occurred_at_ns: int, occurred_at_ns2: int, payload_json: Seq<char>, payload_json2: Seq<char>, security_context: Seq<char>, security_context2: Seq<char>)
    ensures
        prev != prev2 ==> digest_input(prev, event_type, event_id_hex, actor, runtime_id, target, occurred_at_ns, payload_json, security_context) != digest_input(prev2, event_type, event_id_hex, actor, runtime_id, target, occurred_at_ns, payload_json, security_context),
        event_type != event_type2 ==> digest_input(prev, event_type, event_id_hex, actor, runtime_id, target, occurred_at_ns, payload_json, security_context) != digest_input(prev, event_type2, event_id_hex, actor, runtime_id, target, occurred_at_ns, payload_json, security_context),
        event_id_hex != event_id_hex2 ==> digest_input(prev, event_type, event_id_hex, actor, runtime_id, target, occurred_at_ns, payload_json, security_context) != digest_input(prev, event_type, event_id_hex2, actor, runtime_id, target, occurred_at_ns, payload_json, security_context),
        actor != actor2 ==> digest_input(prev, event_type, event_id_hex, actor, runtime_id, target, occurred_at_ns, payload_json, security_context) != digest_input(prev, event_type, event_id_hex, actor2, runtime_id, target, occurred_at_ns, payload_json, security_context),
        runtime_id != runtime_id2 ==> digest_input(prev, event_type, event_id_hex, actor, runtime_id, target, occurred_at_ns, payload_json, security_context) != digest_input(prev, event_type, event_id_hex, actor, runtime_id2, target, occurred_at_ns, payload_json, security_context),
        target != target2 ==> digest_input(prev, event_type, event_id_hex, actor, runtime_id, target, occurred_at_ns, payload_json, security_context) != digest_input(prev, event_type, event_id_hex, actor, runtime_id, target2, occurred_at_ns, payload_json, security_context),
        occurred_at_ns != occurred_at_ns2 && i128::MIN <= occurred_at_ns <= i128::MAX
            && i128::MIN <= occurred_at_ns2 <= i128::MAX ==> digest_input(prev, event_type, event_id_hex, actor, runtime_id, target, occurred_at_ns, payload_json, security_context) != digest_input(prev, event_type, event_id_hex, actor, runtime_id, target, occurred_at_ns2, payload_json, security_context),
        payload_json != payload_json2 ==> digest_input(prev, event_type, event_id_hex, actor, runtime_id, target, occurred_at_ns, payload_json, security_context) != digest_input(prev, event_type, event_id_hex, actor, runtime_id, target, occurred_at_ns, payload_json2, security_context),
        security_context != security_context2 ==> digest_input(prev, event_type, event_id_hex, actor, runtime_id, target, occurred_at_ns, payload_json, security_context) != digest_input(prev, event_type, event_id_hex, actor, runtime_id, target, occurred_at_ns, payload_json, security_context2),
{
    lemma_binds_prev(prev, event_type, event_id_hex, actor, runtime_id, target, occurred_at_ns, payload_json, security_context, prev2);
    lemma_binds_event_type(prev, event_type, event_id_hex, actor, runtime_id, target, occurred_at_ns, payload_json, security_context, event_type2);
    lemma_binds_event_id_hex(prev, event_type, event_id_hex, actor, runtime_id, target, occurred_at_ns, payload_json, security_context, event_id_hex2);
    lemma_binds_actor(prev, event_type, event_id_hex, actor, runtime_id, target, occurred_at_ns, payload_json, security_context, actor2);
    lemma_binds_runtime_id(prev, event_type, event_id_hex, actor, runtime_id, target, occurred_at_ns, payload_json, security_context, runtime_id2);
    lemma_binds_target(prev, event_type, event_id_hex, actor, runtime_id, target, occurred_at_ns, payload_json, security_context, target2);
    lemma_binds_occurred_at_ns(prev, event_type, event_id_hex, actor, runtime_id, target, occurred_at_ns, payload_json, security_context, occurred_at_ns2);
    lemma_binds_payload_json(prev, event_type, event_id_hex, actor, runtime_id, target, occurred_at_ns, payload_json, security_context, payload_json2);
    lemma_binds_security_context(prev, event_type, event_id_hex, actor, runtime_id, target, occurred_at_ns, payload_json, security_context, security_context2);
}

/// Computes the chained integrity digest for a candidate event.
pub fn compute_digest(
    prev: &str,
    event_type: &str,
    event_id_hex: &str,
    actor: &str,
    runtime_id: &str,
    target: &str,
    occurred_at_ns: i128,
    payload_json: &str,
    security_context: &str,
) -> (r: String)
    ensures
        r@ == event_digest(prev@, event_type@, event_id_hex@, actor@, runtime_id@, target@,
            occurred_at_ns as int, payload_json@, security_context@),
{
    let mut buf: Vec<u8> = Vec::new();
    append_str(&mut buf, prev);
    append_str(&mut buf, event_type);
    append_str(&mut buf, event_id_hex);
    append_str(&mut buf, actor);
    append_str(&mut buf, runtime_id);
    append_str(&mut buf, target);
    let t = i128_be(occurred_at_ns);
    append_bytes(&mut buf, t.as_slice());
    append_str(&mut buf, payload_json);
    append_str(&mut buf, security_context);
    assert(buf@ =~= digest_input(prev@, event_type@, event_id_hex@, actor@, runtime_id@, target@,
        occurred_at_ns as int, payload_json@, security_context@));
    sha256_hex(buf.as_slice())
}

/// The outcome of walking `rows[i..]` when the next row must name `expected`
/// as its predecessor: `None` if every link holds, else the sequence of the
/// first broken row with the expected and the found digest.
pub open spec fn chain_break(rows: Seq<StoredEvent>, expected: Seq<char>, i: int) -> Option<(u64, Seq<char>, Seq<char>)>
    decreases rows.len() - i,
{
    if i < 0 || i >= rows.len() {
        None
    } else if rows[i].previous_digest_hex@ != expected {
        Some((rows[i].sequence, expected, rows[i].previous_digest_hex@))
    } else if recomputed(rows[i]) != rows[i].integrity_digest_hex@ {
        Some((rows[i].sequence, recomputed(rows[i]), rows[i].integrity_digest_hex@))
    } else {
        chain_break(rows, rows[i].integrity_digest_hex@, i + 1)
    }
}

/// What a verification result says.
pub open spec fn break_view(r: Result<(), StoreError>) -> Option<(u64, Seq<char>, Seq<char>)> {
    match r {
        Err(StoreError::IntegrityBroken { sequence, expected, found }) => Some((sequence, expected@, found@)),
        _ => None,
    }
}

/// Walks rows (in ascending sequence order) from `GENESIS` and checks every
/// hash link; reports the first broken link.
pub fn verify_chain(rows: &[StoredEvent]) -> (r: Result<(), StoreError>)
    ensures
        r is Ok <==> chain_break(rows@, genesis(), 0) is None,
        break_view(r) == chain_break(rows@, genesis(), 0),
{
    let gen = "GENESIS";
    let mut expected: String = gen.to_owned();
    proof { reveal_strlit("GENESIS"); }
    let mut i: usize = 0;
    while i < rows.len()
        invariant
            i <= rows@.len(),
            chain_break(rows@, genesis(), 0) == chain_break(rows@, expected@, i as int),
        decreases rows@.len() - i,
    {
        let row = &rows[i];
        if !str_eq(row.previous_digest_hex.as_str(), expected.as_str()) {
            return Err(StoreError::IntegrityBroken {
                sequence: row.sequence,
                expected,
                found: row.previous_digest_hex.clone(),
            });
        }
        let again = compute_digest(row.previous_digest_hex.as_str(), row.event_type.as_str(),
            row.event_id_hex.as_str(), row.actor.as_str(), row.runtime_id.as_str(), row.target.as_str(),
            row.occurred_at, row.payload_json.as_str(), row.security_context.as_str());
        if !str_eq(again.as_str(), row.integrity_digest_hex.as_str()) {
            return Err(StoreError::IntegrityBroken {
                sequence: row.sequence,
                expected: again,
                found: row.integrity_digest_hex.clone(),
            });
        }
        expected = row.integrity_digest_hex.clone();
        i = i + 1;
    }
    Ok(())
}

/// The digest the next appended event must name as its predecessor.
pub open spec fn tail_digest(events: Seq<StoredEvent>) -> Seq<char> {
    if events.len() == 0 { genesis() } else { events.last().integrity_digest_hex@ }
}

/// Appending a correctly linked event keeps a valid chain valid.
proof fn lemma_chain_push(s: Seq<StoredEvent>, e: StoredEvent, i: int)
    requires
        0 <= i <= s.len(),
        chain_break(s, if i == 0 { genesis() } else { s[i - 1].integrity_digest_hex@ }, i) is None,
        e.previous_digest_hex@ == tail_digest(s),
        recomputed(e) == e.integrity_digest_hex@,
    ensures
        chain_break(s.push(e), if i == 0 { genesis() } else { s[i - 1].integrity_digest_hex@ }, i) is None,
    decreases s.len() - i,
{
    let t = s.push(e);
    let exp = if i == 0 { genesis() } else { s[i - 1].integrity_digest_hex@ };
    if i < s.len() {
        assert(t[i] == s[i]);
        lemma_chain_push(s, e, i + 1);
        assert(t[i] == s[i]);
    } else {
        assert(t[i] == e);
        assert(chain_break(t, e.integrity_digest_hex@, i + 1) is None);
    }
}

/// The digest row `k` must name as its predecessor when the walk starts at
/// row `i` expecting `exp`.
pub open spec fn expected_at(rows: Seq<StoredEvent>, exp: Seq<char>, i: int, k: int) -> Seq<char> {
    if k == i { exp } else { rows[k - 1].integrity_digest_hex@ }
}

/// Walking a valid prefix of `rows` over rows that agree with it reaches
/// row `k` expecting the digest of row `k - 1`.
proof fn lemma_walk_prefix(rows: Seq<StoredEvent>, rows2: Seq<StoredEvent>, exp: Seq<char>, i: int, k: int)
    requires
        0 <= i <= k <= rows.len(),
        k <= rows2.len(),
        forall|j: int| i <= j < k ==> rows2[j] == rows[j],
        chain_break(rows, exp, i) is None,
    ensures
        chain_break(rows2, exp, i) == chain_break(rows2, expected_at(rows, exp, i, k), k),
        chain_break(rows, expected_at(rows, exp, i, k), k) is None,
    decreases k - i,
{
    if i < k {
        assert(rows2[i] == rows[i]);
        lemma_walk_prefix(rows, rows2, rows[i].integrity_digest_hex@, i + 1, k);
    }
}

/// Tampering is detected: if one row of a valid chain is replaced by a row
/// with the same predecessor link whose stored digest no longer matches its
/// contents, verification reports that row, with the digest recomputed from
/// its contents and the digest found.
pub proof fn law_tampered_row_is_reported(rows: Seq<StoredEvent>, k: int, tampered: StoredEvent)
    requires
        chain_break(rows, genesis(), 0) is None,
        0 <= k < rows.len(),
        tampered.previous_digest_hex@ == rows[k].previous_digest_hex@,
        recomputed(tampered) != tampered.integrity_digest_hex@,
    ensures
        chain_break(rows.update(k, tampered), genesis(), 0)
            == Some((tampered.sequence, recomputed(tampered), tampered.integrity_digest_hex@)),
{
    let rows2 = rows.update(k, tampered);
    lemma_walk_prefix(rows, rows2, genesis(), 0, k);
    let exp = expected_at(rows, genesis(), 0, k);
    assert(rows[k].previous_digest_hex@ == exp);
    assert(rows2[k] == tampered);
}

/// Deleting a row that is not the last one is detected at the row that
/// followed it, provided the deleted row's digest differs from the digest
/// its successor now has to name.
pub proof fn law_deleted_row_is_reported(rows: Seq<StoredEvent>, k: int)
    requires
        chain_break(rows, genesis(), 0) is None,
        0 <= k,
        k + 1 < rows.len(),
        rows[k].integrity_digest_hex@ != expected_at(rows, genesis(), 0, k),
    ensures
        chain_break(rows.remove(k), genesis(), 0)
            == Some((rows[k + 1].sequence, expected_at(rows, genesis(), 0, k), rows[k].integrity_digest_hex@)),
{
    let rows2 = rows.remove(k);
    lemma_walk_prefix(rows, rows2, genesis(), 0, k);
    lemma_walk_prefix(rows, rows, genesis(), 0, k + 1);
    assert(rows2[k] == rows[k + 1]);
    assert(expected_at(rows, genesis(), 0, k + 1) == rows[k].integrity_digest_hex@);
    assert(rows[k + 1].previous_digest_hex@ == rows[k].integrity_digest_hex@);
}

/// The event that follows a log whose tail is `tail` (its sequence number
/// and digest; `None` for an empty log): refused as a duplicate when its id
/// is already in use, else numbered one past the tail and chained to the
/// tail's digest (`GENESIS` for the first event).
pub fn next_event(
    tail: Option<(u64, &str)>,
    id_in_use: bool,
    event_type: &str,
    event_id_hex: &str,
    actor: &str,
    runtime_id: &str,
    target: &str,
    before_ref: Option<&str>,
    after_ref: Option<&str>,
    occurred_at: i128,
    payload_json: &str,
    correlation_id: Option<&str>,
    security_context: &str,
) -> (r: Result<StoredEvent, StoreError>)
    requires
        tail matches Some(t) ==> t.0 < u64::MAX,
    ensures
        id_in_use ==> r == Err::<StoredEvent, StoreError>(StoreError::DuplicateEvent),
        !id_in_use ==> (r matches Ok(e)
            && e.sequence == (match tail { Some(t) => t.0 + 1, None => 1 })
            && e.previous_digest_hex@ == (match tail { Some(t) => t.1@, None => genesis() })
            && e.event_type@ == event_type@
            && e.event_id_hex@ == event_id_hex@
            && e.actor@ == actor@
            && e.runtime_id@ == runtime_id@
            && e.target@ == target@
            && (e.before_ref is Some <==> before_ref is Some)
            && (before_ref matches Some(b) ==> e.before_ref->0@ == b@)
            && (e.after_ref is Some <==> after_ref is Some)
            && (after_ref matches Some(a) ==> e.after_ref->0@ == a@)
            && e.occurred_at == occurred_at
            && e.payload_json@ == payload_json@
            && e.integrity_digest_hex@ == event_digest(e.previous_digest_hex@, event_type@,
                event_id_hex@, actor@, runtime_id@, target@, occurred_at as int, payload_json@,
                security_context@)
            && (e.correlation_id is Some <==> correlation_id is Some)
            && (correlation_id matches Some(c) ==> e.correlation_id->0@ == c@)
            && e.security_context@ == security_context@),
{
    if id_in_use {
        return Err(StoreError::DuplicateEvent);
    }
    let (next_seq, prev): (u64, String) = match tail {
        Some((seq, digest)) => (seq + 1, digest.to_owned()),
        None => {
            let g = "GENESIS";
            proof { reveal_strlit("GENESIS"); }
            (1, g.to_owned())
        },
    };
    let digest = compute_digest(prev.as_str(), event_type, event_id_hex, actor, runtime_id, target,
        occurred_at, payload_json, security_context);
    Ok(StoredEvent {
        sequence: next_seq,
        event_type: event_type.to_owned(),
        event_id_hex: event_id_hex.to_owned(),
        actor: actor.to_owned(),
        runtime_id: runtime_id.to_owned(),
        target: target.to_owned(),
        before_ref: opt_text(before_ref),
        after_ref: opt_text(after_ref),
        occurred_at,
        payload_json: payload_json.to_owned(),
        previous_digest_hex: prev,
        integrity_digest_hex: digest,
        correlation_id: opt_text(correlation_id),
        security_context: security_context.to_owned(),
    })
}

/// A rejected raw observation, kept for review.
#[derive(Debug, Clone)]
pub struct RejectedObservation {
    pub rejected_at: i128,
    pub reason: String,
    pub raw_json: String,
}

/// The event log. Events are numbered from 1 in append order and chained
/// from `GENESIS`; event ids are unique.
pub struct EventStore {
    events: Vec<StoredEvent>,
    rejected_observations: Vec<(String, RejectedObservation)>,
}

impl EventStore {
    /// The events, in append order.
    pub closed spec fn log(&self) -> Seq<StoredEvent> {
        self.events@
    }

    /// The rejected observation recorded under an observation id.
    pub closed spec fn rejected(&self, observation_id_hex: Seq<char>) -> Option<RejectedObservation> {
        lookup(self.rejected_observations@, observation_id_hex)
    }

    /// Whether `id` names an event of the log.
    pub open spec fn has_event_id(&self, id: Seq<char>) -> bool {
        exists|i: int| 0 <= i < self.log().len() && #[trigger] self.log()[i].event_id_hex@ == id
    }

    /// The log's invariant.
    pub open spec fn wf(&self) -> bool {
        &&& forall|i: int| 0 <= i < self.log().len() ==> #[trigger] self.log()[i].sequence == i + 1
        &&& chain_break(self.log(), genesis(), 0) is None
    }

    /// An empty log.
    pub fn open_in_memory() -> (r: Result<EventStore, StoreError>)
        ensures
            r matches Ok(s) && s.wf() && s.log().len() == 0
                && forall|k: Seq<char>| #[trigger] s.rejected(k) is None,
    {
        let s = EventStore { events: Vec::new(), rejected_observations: Vec::new() };
        Ok(s)
    }

    /// The events, in append order.
    pub fn events(&self) -> (r: &[StoredEvent])
        ensures
            r@ == self.log(),
    {
        self.events.as_slice()
    }

    fn id_in_log(&self, id: &str) -> (r: bool)
        ensures
            r == self.has_event_id(id@),
    {
        let mut i: usize = 0;
        while i < self.events.len()
            invariant
                i <= self.log().len(),
                forall|k: int| 0 <= k < i ==> self.log()[k].event_id_hex@ != id@,
            decreases self.log().len() - i,
        {
            if str_eq(self.events[i].event_id_hex.as_str(), id) {
                return true;
            }
            i = i + 1;
        }
        false
    }

    /// Appends an event. Its sequence number is one past the tail's and its
    /// predecessor digest is the tail's digest (`GENESIS` for the first
    /// event). An event id already in the log is refused.
    pub fn append(
        &mut self,
        event_type: &str,
        event_id_hex: &str,
        actor: &str,
        runtime_id: &str,
        target: &str,
        before_ref: Option<&str>,
        after_ref: Option<&str>,
        occurred_at: i128,
        payload_json: &str,
        correlation_id: Option<&str>,
        security_context: &str,
    ) -> (r: Result<StoredEvent, StoreError>)
        requires
            old(self).wf(),
            old(self).log().len() < u64::MAX,
        ensures
            final(self).wf(),
            forall|k: Seq<char>| #[trigger] final(self).rejected(k) == old(self).rejected(k),
            old(self).has_event_id(event_id_hex@) ==> r == Err::<StoredEvent, StoreError>(StoreError::DuplicateEvent)
                && final(self).log() == old(self).log(),
            !old(self).has_event_id(event_id_hex@) ==> (r matches Ok(e) && final(self).log() == old(self).log().push(e)
                && e.sequence == old(self).log().len() + 1
                && e.event_type@ == event_type@
                && e.event_id_hex@ == event_id_hex@
                && e.actor@ == actor@
                && e.runtime_id@ == runtime_id@
                && e.target@ == target@
                && (e.before_ref is Some <==> before_ref is Some)
                && (before_ref matches Some(b) ==> e.before_ref->0@ == b@)
                && (e.after_ref is Some <==> after_ref is Some)
                && (after_ref matches Some(a) ==> e.after_ref->0@ == a@)
                && e.occurred_at == occurred_at
                && e.payload_json@ == payload_json@
                && e.previous_digest_hex@ == tail_digest(old(self).log())
                && e.integrity_digest_hex@ == event_digest(tail_digest(old(self).log()), event_type@,
                    event_id_hex@, actor@, runtime_id@, target@, occurred_at as int, payload_json@,
                    security_context@)
                && (e.correlation_id is Some <==> correlation_id is Some)
                && (correlation_id matches Some(c) ==> e.correlation_id->0@ == c@)
                && e.security_context@ == security_context@),
    {
        let in_use = self.id_in_log(event_id_hex);
        let n = self.events.len();
        let tail: Option<(u64, &str)> = if n == 0 {
            None
        } else {
            Some((self.events[n - 1].sequence, self.events[n - 1].integrity_digest_hex.as_str()))
        };
        let next = next_event(tail, in_use, event_type, event_id_hex, actor, runtime_id, target, before_ref,
            after_ref, occurred_at, payload_json, correlation_id, security_context);
        let ev = match next {
            Ok(ev) => ev,
            Err(e) => return Err(e),
        };
        let out = ev.clone();
        proof {
            lemma_chain_push(self.events@, ev, 0);
        }
        self.events.push(ev);
        Ok(out)
    }

    /// Walks the chain from `GENESIS` to the tail and checks every link;
    /// reports the first broken link. A log kept by this store never has one.
    pub fn verify_integrity(&self) -> (r: Result<(), StoreError>)
        ensures
            r is Ok <==> chain_break(self.log(), genesis(), 0) is None,
            break_view(r) == chain_break(self.log(), genesis(), 0),
            self.wf() ==> r is Ok,
    {
        verify_chain(self.events.as_slice())
    }

    /// Sequence number of the tail event, `0` for an empty log.
    pub fn tail_sequence(&self) -> (r: Result<u64, StoreError>)
        requires
            self.wf(),
        ensures
            r == Ok::<u64, StoreError>(self.log().len() as u64),
    {
        let n = self.events.len();
        if n == 0 {
            Ok(0)
        } else {
            Ok(self.events[n - 1].sequence)
        }
    }

    /// Records a rejected raw observation; a later record for the same id
    /// replaces the earlier one.
    pub fn record_rejected_observation(
        &mut self,
        observation_id_hex: &str,
        reason: &str,
        raw_json: &str,
        rejected_at: i128,
    ) -> (r: Result<(), StoreError>)
        requires
            old(self).wf(),
        ensures
            final(self).wf(),
            r is Ok,
            final(self).log() == old(self).log(),
            final(self).rejected(observation_id_hex@) matches Some(o) && o.reason@ == reason@
                && o.raw_json@ == raw_json@ && o.rejected_at == rejected_at,
            forall|k: Seq<char>| k != observation_id_hex@ ==> #[trigger] final(self).rejected(k) == old(self).rejected(k),
    {
        let rec = RejectedObservation { rejected_at, reason: reason.to_owned(), raw_json: raw_json.to_owned() };
        set_entry(&mut self.rejected_observations, observation_id_hex, rec);
        Ok(())
    }
}

} // verus!
