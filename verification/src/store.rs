//! The SQL side of the transcript store that is pure text: the full-text
//! search expression built from a free-text query, and the query over the
//! transcript table with its numbered parameters.

use vstd::prelude::*;
use vstd::string::*;
use crate::text::{chars_of, decimal, is_ws, is_whitespace, push_chars, string_of, u64_decimal};
use crate::logbook::{double_quotes};

verus! {

/// Splitting on whitespace: the words found so far and the word being read.
pub open spec fn ws_scan(s: Seq<char>) -> (Seq<Seq<char>>, Seq<char>)
    decreases s.len(),
{
    if s.len() == 0 {
        (Seq::empty(), Seq::empty())
    } else {
        let (done, cur) = ws_scan(s.drop_last());
        if is_ws(s.last()) {
            if cur.len() > 0 { (done.push(cur), Seq::empty()) } else { (done, Seq::empty()) }
        } else {
            (done, cur.push(s.last()))
        }
    }
}

/// The words of `s`: its maximal runs of non-whitespace, as
/// `str::split_whitespace` gives them.
pub open spec fn words(s: Seq<char>) -> Seq<Seq<char>> {
    let (done, cur) = ws_scan(s);
    if cur.len() > 0 { done.push(cur) } else { done }
}

/// One search term: the word quoted, inner quotes doubled, as a prefix match.
pub open spec fn fts_term(w: Seq<char>) -> Seq<char> {
    seq!['"'] + double_quotes(w) + seq!['"', '*']
}

/// The terms joined by single spaces.
pub open spec fn fts_join(ws: Seq<Seq<char>>) -> Seq<char>
    decreases ws.len(),
{
    if ws.len() == 0 {
        Seq::empty()
    } else if ws.len() == 1 {
        fts_term(ws[0])
    } else {
        fts_join(ws.drop_last()) + seq![' '] + fts_term(ws.last())
    }
}

/// The FTS5 MATCH expression for a free-text query: each word a quoted prefix
/// term, which makes any user text safe to match; `None` when the query has
/// no word.
pub open spec fn fts_query(q: Seq<char>) -> Option<Seq<char>> {
    let ws = words(q);
    if ws.len() == 0 { None } else { Some(fts_join(ws)) }
}

fn push_term(out: &mut Vec<char>, first: bool, w: &[char])
    requires
        w@.len() > 0,
    ensures
        final(out)@ == old(out)@ + (if first { Seq::<char>::empty() } else { seq![' '] }) + fts_term(w@),
{
    let ghost o = old(out)@;
    if !first {
        out.push(' ');
    }
    let ghost o1 = out@;
    out.push('"');
    let mut i: usize = 0;
    while i < w.len()
        invariant
            i <= w@.len(),
            out@ == o1 + seq!['"'] + crate::logbook::double_quotes(w@.take(i as int)),
        decreases w@.len() - i,
    {
        if w[i] == '"' {
            out.push('"');
            out.push('"');
        } else {
            out.push(w[i]);
        }
        i += 1;
        proof {
            let t = w@.take(i as int);
            assert(t.drop_last() == w@.take(i - 1));
            assert(t.last() == w@[i - 1]);
        }
    }
    out.push('"');
    out.push('*');
    assert(w@.take(w@.len() as int) == w@);
    assert(out@ =~= o + (if first { Seq::<char>::empty() } else { seq![' '] }) + fts_term(w@));
}

pub proof fn lemma_fts_join_push(ws: Seq<Seq<char>>, w: Seq<char>)
    ensures
        fts_join(ws.push(w)) == fts_join(ws) + (if ws.len() == 0 { Seq::<char>::empty() } else { seq![' '] })
            + fts_term(w),
{
    assert(ws.push(w).drop_last() == ws);
    if ws.len() == 0 {
        assert(fts_join(ws.push(w)) == fts_term(w));
        assert(Seq::<char>::empty() + Seq::<char>::empty() + fts_term(w) == fts_term(w));
    }
}

/// The FTS5 MATCH expression of a query (see `fts_query`).
pub fn build_fts_query(q: &str) -> (r: Option<String>)
    ensures
        r matches Some(m) ==> fts_query(q@) == Some(m@),
        r is None ==> fts_query(q@) is None,
{
    let v = chars_of(q);
    let mut out: Vec<char> = Vec::new();
    let mut none_yet = true;
    let mut cur: Vec<char> = Vec::new();
    let mut i: usize = 0;
    assert(v@.take(0) == Seq::<char>::empty());
    while i < v.len()
        invariant
            i <= v@.len(),
            none_yet == (ws_scan(v@.take(i as int)).0.len() == 0),
            cur@ == ws_scan(v@.take(i as int)).1,
            out@ == fts_join(ws_scan(v@.take(i as int)).0),
        decreases v@.len() - i,
    {
        let c = v[i];
        proof {
            let t = v@.take(i + 1);
            assert(t.drop_last() == v@.take(i as int));
            assert(t.last() == c);
        }
        let ghost done = ws_scan(v@.take(i as int)).0;
        if is_whitespace(c) {
            if cur.len() > 0 {
                push_term(&mut out, none_yet, &cur);
                proof {
                    lemma_fts_join_push(done, cur@);
                }
                none_yet = false;
                cur = Vec::new();
            }
        } else {
            cur.push(c);
        }
        i += 1;
    }
    assert(v@.take(v@.len() as int) == v@);
    if cur.len() > 0 {
        let ghost done = ws_scan(v@).0;
        push_term(&mut out, none_yet, &cur);
        proof {
            lemma_fts_join_push(done, cur@);
        }
        none_yet = false;
    }
    if none_yet {
        None
    } else {
        Some(string_of(&out))
    }
}

/// A parameter bound to a numbered placeholder of the transcript query.
#[derive(Clone, Debug)]
pub enum QueryParam {
    Text(String),
    Int(i64),
}

/// The columns selected from the transcript table.
pub open spec fn select_prefix() -> Seq<char> {
    "SELECT id,receiver_id,ts_start,ts_end,lane,mode,src_lang,text_en,text_native,confidence,snr_db FROM transcript "@
}

pub open spec fn select_suffix() -> Seq<char> {
    " ORDER BY ts_start DESC LIMIT 1000"@
}

/// A condition with its placeholder number.
pub open spec fn placeholder(cond: Seq<char>, n: nat) -> Seq<char> {
    cond + seq!['?'] + decimal(n)
}

pub open spec fn fts_condition() -> Seq<char> {
    "id IN (SELECT rowid FROM transcript_fts WHERE transcript_fts MATCH "@
}

/// The conditions of a transcript query, in order: the receiver, then the
/// time range (start at or after, end at or before), then the text search
/// (when the text has a word); placeholders are numbered from 1.
pub open spec fn query_conditions(rid: bool, range: bool, text: bool) -> Seq<Seq<char>> {
    let c1: Seq<Seq<char>> = if rid { seq![placeholder("receiver_id = "@, 1)] } else { Seq::empty() };
    let c2: Seq<Seq<char>> = if range {
        c1 + seq![placeholder("ts_start >= "@, c1.len() + 1), placeholder("ts_end <= "@, c1.len() + 2)]
    } else {
        c1
    };
    if text { c2.push(placeholder(fts_condition(), c2.len() + 1) + seq![')']) } else { c2 }
}

/// The conditions joined by " AND ".
pub open spec fn and_join(cs: Seq<Seq<char>>) -> Seq<char>
    decreases cs.len(),
{
    if cs.len() == 0 {
        Seq::empty()
    } else if cs.len() == 1 {
        cs[0]
    } else {
        and_join(cs.drop_last()) + " AND "@ + cs.last()
    }
}

/// The full query text: newest first, at most 1000 rows.
pub open spec fn query_text(cs: Seq<Seq<char>>) -> Seq<char> {
    select_prefix() + (if cs.len() == 0 { Seq::empty() } else { "WHERE "@ + and_join(cs) })
        + select_suffix()
}

/// The SQL text and the parameters, in placeholder order, of a transcript
/// query by receiver, by time range and by text.
pub fn transcript_query(rid: Option<&str>, range: Option<(i64, i64)>, text: Option<&str>) -> (r: (String, Vec<QueryParam>))
    ensures
        ({
            let m = match text {
                Some(q) => fts_query(q@),
                None => None,
            };
            let cs = query_conditions(rid is Some, range is Some, m is Some);
            &&& r.0@ == query_text(cs)
            &&& r.1@.len() == cs.len()
            &&& (rid matches Some(id) ==> r.1@[0] matches QueryParam::Text(t) && t@ == id@)
            &&& (range matches Some((s, e)) ==> {
                let k = if rid is Some { 1int } else { 0int };
                &&& r.1@[k] == QueryParam::Int(s)
                &&& r.1@[k + 1] == QueryParam::Int(e)
            })
            &&& (m matches Some(mt) ==> r.1@.last() matches QueryParam::Text(t) && t@ == mt)
        }),
{
    let mut conds: Vec<String> = Vec::new();
    let mut params: Vec<QueryParam> = Vec::new();
    if let Some(id) = rid {
        conds.push(String::from_str("receiver_id = ?1"));
        params.push(QueryParam::Text(String::from_str(id)));
        proof {
            reveal_strlit("receiver_id = ?1");
            reveal_strlit("receiver_id = ");
            assert(decimal(1) == seq!['1']);
        }
    }
    let ghost cs1 = if rid is Some { seq![placeholder("receiver_id = "@, 1)] } else { Seq::<Seq<char>>::empty() };
    assert(conds@.len() == cs1.len());
    assert(forall|k: int| 0 <= k < conds@.len() ==> conds@[k]@ == cs1[k]);
    if let Some((s, e)) = range {
        let n = conds.len() as u64;
        let mut a = String::from_str("ts_start >= ?");
        push_chars(&mut a, &u64_decimal(n + 1));
        let mut b = String::from_str("ts_end <= ?");
        push_chars(&mut b, &u64_decimal(n + 2));
        proof {
            reveal_strlit("ts_start >= ?");
            reveal_strlit("ts_start >= ");
            reveal_strlit("ts_end <= ?");
            reveal_strlit("ts_end <= ");
            assert(a@ =~= placeholder("ts_start >= "@, cs1.len() + 1));
            assert(b@ =~= placeholder("ts_end <= "@, cs1.len() + 2));
        }
        conds.push(a);
        conds.push(b);
        params.push(QueryParam::Int(s));
        params.push(QueryParam::Int(e));
    }
    let ghost cs2 = if range is Some {
        cs1 + seq![placeholder("ts_start >= "@, cs1.len() + 1), placeholder("ts_end <= "@, cs1.len() + 2)]
    } else {
        cs1
    };
    assert(conds@.len() == cs2.len());
    assert(forall|k: int| 0 <= k < conds@.len() ==> conds@[k]@ == cs2[k]);
    let m = match text {
        Some(q) => build_fts_query(q),
        None => None,
    };
    if let Some(mt) = m {
        let n = conds.len() as u64;
        let mut c = String::from_str("id IN (SELECT rowid FROM transcript_fts WHERE transcript_fts MATCH ?");
        push_chars(&mut c, &u64_decimal(n + 1));
        c.push(')');
        proof {
            reveal_strlit("id IN (SELECT rowid FROM transcript_fts WHERE transcript_fts MATCH ?");
            reveal_strlit("id IN (SELECT rowid FROM transcript_fts WHERE transcript_fts MATCH ");
            assert(c@ =~= placeholder(fts_condition(), cs2.len() + 1) + seq![')']);
        }
        conds.push(c);
        params.push(QueryParam::Text(mt));
    }
    let ghost cs = query_conditions(rid is Some, range is Some, m is Some);
    assert(conds@.len() == cs.len());
    assert(forall|k: int| 0 <= k < conds@.len() ==> conds@[k]@ == cs[k]);
    let mut sql = String::from_str(
        "SELECT id,receiver_id,ts_start,ts_end,lane,mode,src_lang,text_en,text_native,confidence,snr_db FROM transcript ",
    );
    if conds.len() > 0 {
        sql.append("WHERE ");
        let mut i: usize = 0;
        let ghost base = sql@;
        while i < conds.len()
            invariant
                i <= conds@.len(),
                conds@.len() == cs.len(),
                cs.len() > 0,
                forall|k: int| 0 <= k < conds@.len() ==> conds@[k]@ == cs[k],
                sql@ == base + and_join(cs.take(i as int)),
            decreases conds@.len() - i,
        {
            if i > 0 {
                sql.append(" AND ");
            }
            sql.append(conds[i].as_str());
            i += 1;
            proof {
                let t = cs.take(i as int);
                assert(t.drop_last() == cs.take(i - 1));
                assert(t.last() == cs[i - 1]);
                if i == 1 {
                    assert(cs.take(0).len() == 0);
                }
            }
        }
        assert(cs.take(cs.len() as int) == cs);
    }
    sql.append(" ORDER BY ts_start DESC LIMIT 1000");
    (sql, params)
}

} // verus!
