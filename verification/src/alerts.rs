//! Keyword alerts: which rules a decoded or transcribed text sets off.
//! A rule matches when it is enabled, its pattern is not empty, and the
//! pattern occurs in the text, ignoring case.

use vstd::prelude::*;
use vstd::string::*;
use crate::model::{AlertHit, AlertRule};
use crate::text::{chars_of, contains, find_chars};

verus! {

/// The Unicode lower case of a text, as `str::to_lowercase` gives it.
pub uninterp spec fn unicode_lower(s: Seq<char>) -> Seq<char>;

/// Trusted: calls `str::to_lowercase`; the result is named `unicode_lower`.
#[verifier::external_body]
fn to_lowercase(s: &str) -> (r: String)
    ensures
        r@ == unicode_lower(s@),
{
    s.to_lowercase()
}

/// Whether a rule fires on a text whose lower case is `lower_text`.
pub open spec fn rule_fires(rule: AlertRule, lower_text: Seq<char>) -> bool {
    rule.enabled && rule.pattern@.len() > 0 && contains(lower_text, unicode_lower(rule.pattern@))
}

/// The rules that fire, in rule order.
pub open spec fn fired(rules: Seq<AlertRule>, lower_text: Seq<char>) -> Seq<AlertRule>
    decreases rules.len(),
{
    if rules.len() == 0 {
        Seq::empty()
    } else {
        let init = fired(rules.drop_last(), lower_text);
        if rule_fires(rules.last(), lower_text) { init.push(rules.last()) } else { init }
    }
}

/// The hit that a fired rule records.
pub open spec fn hit_of(h: AlertHit, rule: AlertRule, receiver_id: Seq<char>, ts_ms: i64, text: Seq<char>) -> bool {
    &&& h.rule_id@ == rule.id@
    &&& h.rule_name@ == rule.name@
    &&& h.receiver_id@ == receiver_id
    &&& h.ts_ms == ts_ms
    &&& h.text@ == text
}

/// The alert hits of a text from a receiver at a time: one per rule that
/// fires, in rule order.
pub fn alert_hits(text: &str, receiver_id: &str, ts_ms: i64, rules: &[AlertRule]) -> (r: Vec<AlertHit>)
    ensures
        r@.len() == fired(rules@, unicode_lower(text@)).len(),
        forall|k: int| 0 <= k < r@.len() ==> hit_of(#[trigger] r@[k], fired(rules@, unicode_lower(text@))[k], receiver_id@, ts_ms, text@),
{
    let lc = to_lowercase(text);
    let lcv = chars_of(lc.as_str());
    let ghost lt = unicode_lower(text@);
    let mut out: Vec<AlertHit> = Vec::new();
    let mut i: usize = 0;
    while i < rules.len()
        invariant
            i <= rules@.len(),
            lcv@ == lt,
            lt == unicode_lower(text@),
            out@.len() == fired(rules@.take(i as int), lt).len(),
            forall|k: int| 0 <= k < out@.len() ==> hit_of(#[trigger] out@[k], fired(rules@.take(i as int), lt)[k], receiver_id@, ts_ms, text@),
        decreases rules@.len() - i,
    {
        let r = &rules[i];
        let ghost before = fired(rules@.take(i as int), lt);
        proof {
            let t = rules@.take(i + 1);
            assert(t.drop_last() == rules@.take(i as int));
            assert(t.last() == rules@[i as int]);
        }
        let pv = chars_of(r.pattern.as_str());
        let mut fires = false;
        if r.enabled && pv.len() > 0 {
            let lp = to_lowercase(r.pattern.as_str());
            let lpv = chars_of(lp.as_str());
            fires = find_chars(&lcv, &lpv).is_some();
        }
        if fires {
            out.push(AlertHit {
                rule_id: r.id.clone(),
                rule_name: r.name.clone(),
                receiver_id: String::from_str(receiver_id),
                ts_ms,
                text: String::from_str(text),
            });
            proof {
                let after = fired(rules@.take(i + 1), lt);
                assert(after == before.push(rules@[i as int]));
                assert forall|k: int| 0 <= k < out@.len() implies hit_of(#[trigger] out@[k], after[k], receiver_id@, ts_ms, text@) by {
                    if k < before.len() {
                        assert(after[k] == before[k]);
                    }
                }
            }
        }
        i += 1;
    }
    assert(rules@.take(rules@.len() as int) == rules@);
    out
}

} // verus!
