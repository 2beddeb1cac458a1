//! Prohibited-concept registry.
//!
//! The canonical list of concepts the information layer must not implement,
//! import, or relay, and the scanners that look for them in free text and in
//! JSON payloads. Adding a token narrows the permitted surface; a token is
//! never removed without an explicit, auditable boundary decision.

use vstd::prelude::*;
use crate::contracts::json::JsonValue;
use crate::text::{ascii_lower, chars_of, contains_chars, contains_run, decimal, decimal_chars, string_from_chars, to_ascii_lower};

verus! {

/// Canonical prohibited concept tokens, matched case-insensitively and with
/// `-`, space, `.` and `/` read as `_`.
pub const PROHIBITED_TOKENS: [&'static str; 26] = [
    "weapon_assignment",
    "weapon_recommendation",
    "engagement_ranking",
    "intercept_point",
    "intercept_calculation",
    "firing_solution",
    "fire_solution",
    "fire_control_bus",
    "launch_authorization",
    "launch_recommendation",
    "launch_command",
    "aimpoint_selection",
    "aimpoint",
    "probability_of_kill",
    "pk_optimization",
    "missile_guidance",
    "interceptor_guidance",
    "terminal_guidance",
    "terminal_course_correction",
    "autonomous_engagement",
    "engage_target",
    "engagement_authorization",
    "target_engagement",
    "actuate_weapon",
    "arm_weapon",
    "fire_weapon",
];

/// The `j`-th prohibited token, as characters.
pub open spec fn token(j: int) -> Seq<char> {
    PROHIBITED_TOKENS@[j]@
}

/// Separator and case folding applied to one character before matching.
pub open spec fn fold_char(c: char) -> char {
    if c == '-' || c == ' ' || c == '.' || c == '/' { '_' } else { ascii_lower(c) }
}

/// The folded form of a text: separators become `_`, ASCII letters lower case.
pub open spec fn folded(s: Seq<char>) -> Seq<char> {
    s.map_values(|c: char| fold_char(c))
}

/// Index of the first token, from `j` on, that occurs in the folded text `f`.
pub open spec fn first_token_from(f: Seq<char>, j: int) -> Option<int>
    decreases 26 - j,
{
    if j < 0 || j >= 26 {
        None
    } else if contains_run(f, token(j)) {
        Some(j)
    } else {
        first_token_from(f, j + 1)
    }
}

/// The first prohibited token (in list order) that occurs in the folded text.
pub open spec fn prohibited_match(s: Seq<char>) -> Option<Seq<char>> {
    match first_token_from(folded(s), 0) {
        Some(j) => Some(token(j)),
        None => None,
    }
}

proof fn lemma_first_token_none(f: Seq<char>, j: int)
    requires
        0 <= j <= 26,
    ensures
        first_token_from(f, j) is None <==> forall|k: int| j <= k < 26 ==> !contains_run(f, #[trigger] token(k)),
    decreases 26 - j,
{
    if j < 26 {
        lemma_first_token_none(f, j + 1);
    }
}

/// Matching ignores case and separators: a text is flagged exactly as its
/// folded form is.
pub proof fn law_matching_ignores_case_and_separators(s: Seq<char>)
    ensures
        prohibited_match(s) == prohibited_match(folded(s)),
{
    assert(folded(folded(s)) =~= folded(s));
}

/// A text passes exactly when no token occurs in its folded form.
pub proof fn law_clean_text_holds_no_token(s: Seq<char>)
    ensures
        prohibited_match(s) is None <==> forall|k: int| 0 <= k < 26 ==> !contains_run(folded(s), #[trigger] token(k)),
{
    lemma_first_token_none(folded(s), 0);
}

fn fold(s: &str) -> (r: Vec<char>)
    ensures
        r@ == folded(s@),
{
    let cs = chars_of(s);
    let mut r: Vec<char> = Vec::new();
    let mut i: usize = 0;
    while i < cs.len()
        invariant
            i <= cs@.len(),
            cs@ == s@,
            r@ == folded(s@).subrange(0, i as int),
        decreases cs@.len() - i,
    {
        let c = cs[i];
        let f = if c == '-' || c == ' ' || c == '.' || c == '/' { '_' } else { to_ascii_lower(c) };
        r.push(f);
        i = i + 1;
        assert(r@ =~= folded(s@).subrange(0, i as int));
    }
    assert(r@ =~= folded(s@));
    r
}

/// Returns the first prohibited token contained in `s`, read case-insensitively
/// with `-`, space, `.` and `/` normalised to `_`; `None` if there is none.
pub fn matches_prohibited(s: &str) -> (r: Option<&'static str>)
    ensures
        match r {
            Some(t) => prohibited_match(s@) == Some(t@),
            None => prohibited_match(s@) is None,
        },
{
    let norm = fold(s);
    let mut j: usize = 0;
    while j < 26
        invariant
            j <= 26,
            norm@ == folded(s@),
            first_token_from(norm@, 0) == first_token_from(norm@, j as int),
        decreases 26 - j,
    {
        let t: &'static str = PROHIBITED_TOKENS[j];
        let tc = chars_of(t);
        if contains_chars(&norm, &tc) {
            return Some(t);
        }
        j = j + 1;
    }
    None
}

} // verus!

verus! {

/// Reason a relay envelope may be rejected on scope grounds.
#[derive(Debug, PartialEq, Eq)]
pub enum ScopeRejection {
    /// A prohibited token appeared in a string field or key of the payload.
    ProhibitedContent { token: String, field_hint: String },
}

impl Clone for ScopeRejection {
    fn clone(&self) -> (r: Self)
        ensures
            r == *self,
    {
        match self {
            ScopeRejection::ProhibitedContent { token, field_hint } => ScopeRejection::ProhibitedContent {
                token: token.clone(),
                field_hint: field_hint.clone(),
            },
        }
    }
}

/// `path[i]`, the hint for the `i`-th element of an array at `path`.
pub open spec fn index_hint(path: Seq<char>, i: nat) -> Seq<char> {
    path + seq!['['] + decimal(i) + seq![']']
}

/// `path.key`, the hint for a member of an object at `path`.
pub open spec fn member_hint(path: Seq<char>, key: Seq<char>) -> Seq<char> {
    path + seq!['.'] + key
}

/// The path under which the value of member `key` is scanned.
pub open spec fn child_path(path: Seq<char>, key: Seq<char>) -> Seq<char> {
    if path.len() == 0 { key } else { member_hint(path, key) }
}

/// First offending (token, field hint) found by a depth-first walk of `v`
/// at `path`: strings are matched, arrays are walked in order, and each
/// object member has its key checked before its value is walked.
pub open spec fn scan_value(v: JsonValue, path: Seq<char>) -> Option<(Seq<char>, Seq<char>)>
    decreases v, 0int,
{
    match v {
        JsonValue::String(s) => match prohibited_match(s@) {
            Some(t) => Some((t, path)),
            None => None,
        },
        JsonValue::Array(a) => scan_items(a@, path, 0),
        JsonValue::Object(o) => scan_members(o@, path, 0),
        _ => None,
    }
}

/// Scan of array elements `i..` at `path`.
pub open spec fn scan_items(a: Seq<JsonValue>, path: Seq<char>, i: int) -> Option<(Seq<char>, Seq<char>)>
    decreases a, a.len() - i,
{
    if i < 0 || i >= a.len() {
        None
    } else {
        match scan_value(a[i], index_hint(path, i as nat)) {
            Some(r) => Some(r),
            None => scan_items(a, path, i + 1),
        }
    }
}

/// Scan of object members `i..` at `path`.
pub open spec fn scan_members(o: Seq<(String, JsonValue)>, path: Seq<char>, i: int) -> Option<(Seq<char>, Seq<char>)>
    decreases o, o.len() - i,
{
    if i < 0 || i >= o.len() {
        None
    } else {
        match prohibited_match(o[i].0@) {
            Some(t) => Some((t, member_hint(path, o[i].0@))),
            None => match scan_value(o[i].1, child_path(path, o[i].0@)) {
                Some(r) => Some(r),
                None => scan_members(o, path, i + 1),
            },
        }
    }
}

/// What a scan result says, as (token, field hint).
pub open spec fn rejection_view(r: Option<ScopeRejection>) -> Option<(Seq<char>, Seq<char>)> {
    match r {
        Some(ScopeRejection::ProhibitedContent { token, field_hint }) => Some((token@, field_hint@)),
        None => None,
    }
}

fn hit(t: &str, hint: &Vec<char>) -> (r: ScopeRejection)
    ensures
        r == (ScopeRejection::ProhibitedContent { token: r->token, field_hint: r->field_hint }),
        r->token@ == t@,
        r->field_hint@ == hint@,
{
    let tc = chars_of(t);
    ScopeRejection::ProhibitedContent {
        token: string_from_chars(tc.as_slice()),
        field_hint: string_from_chars(hint.as_slice()),
    }
}

fn walk(v: &JsonValue, path: &Vec<char>) -> (r: Option<ScopeRejection>)
    ensures
        rejection_view(r) == scan_value(*v, path@),
    decreases *v,
{
    match v {
        JsonValue::String(s) => {
            match matches_prohibited(s.as_str()) {
                Some(t) => Some(hit(t, path)),
                None => None,
            }
        },
        JsonValue::Array(a) => {
            let mut i: usize = 0;
            while i < a.len()
                invariant
                    i <= a@.len(),
                    *v == JsonValue::Array(*a),
                    scan_items(a@, path@, 0) == scan_items(a@, path@, i as int),
                decreases a@.len() - i,
            {
                let mut p = path.clone();
                p.push('[');
                let mut d = decimal_chars(i);
                p.append(&mut d);
                p.push(']');
                assert(p@ =~= index_hint(path@, i as nat));
                let r = walk(&a[i], &p);
                if r.is_some() {
                    return r;
                }
                i = i + 1;
            }
            None
        },
        JsonValue::Object(o) => {
            let mut i: usize = 0;
            while i < o.len()
                invariant
                    i <= o@.len(),
                    *v == JsonValue::Object(*o),
                    scan_members(o@, path@, 0) == scan_members(o@, path@, i as int),
                decreases o@.len() - i,
            {
                let k = &o[i].0;
                let mut hint = path.clone();
                hint.push('.');
                let mut kc = chars_of(k.as_str());
                hint.append(&mut kc);
                assert(hint@ =~= member_hint(path@, k@));
                if let Some(t) = matches_prohibited(k.as_str()) {
                    return Some(hit(t, &hint));
                }
                let p = if path.len() == 0 { chars_of(k.as_str()) } else { hint };
                let r = walk(&o[i].1, &p);
                if r.is_some() {
                    return r;
                }
                i = i + 1;
            }
            None
        },
        _ => None,
    }
}

/// Scans a JSON payload for prohibited content: the first offending token
/// and the path of the field it was found in, or `None` if the payload is clean.
pub fn scan_json(value: &JsonValue) -> (r: Option<ScopeRejection>)
    ensures
        rejection_view(r) == scan_value(*value, Seq::empty()),
{
    let root: Vec<char> = Vec::new();
    walk(value, &root)
}

} // verus!
