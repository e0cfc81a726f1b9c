//! The aggregator: concatenated per-family session lists are put into the
//! global display order — status priority first, then most recent activity —
//! and the summary counts are derived.

use vstd::prelude::*;

use vstd::multiset::Multiset;

use crate::session::{Session, SessionsResponse};
use crate::status::{spec_status_priority, status_sort_priority, SessionStatus};
use crate::text::{lemma_lex_total, lemma_lex_trans, lex_le, str_lex_le};

verus! {

broadcast use vstd::seq_lib::group_to_multiset_ensures;

/// The display order: `a` comes no later than `b` when its status priority
/// is smaller, or, at equal priority, its normalized last-activity timestamp
/// is lexicographically no smaller (most recent first).
pub open spec fn sess_le(a: Session, b: Session) -> bool {
    ||| spec_status_priority(a.status) < spec_status_priority(b.status)
    ||| (spec_status_priority(a.status) == spec_status_priority(b.status) && lex_le(
        b.last_activity_at@,
        a.last_activity_at@,
    ))
}

/// The display order relates every two sessions, one way or the other.
pub proof fn lemma_sess_le_total(a: Session, b: Session)
    ensures
        sess_le(a, b) || sess_le(b, a),
{
    lemma_lex_total(a.last_activity_at@, b.last_activity_at@);
}

/// The display order is transitive.
pub proof fn lemma_sess_le_trans(a: Session, b: Session, c: Session)
    requires
        sess_le(a, b),
        sess_le(b, c),
    ensures
        sess_le(a, c),
{
    if spec_status_priority(a.status) == spec_status_priority(c.status) {
        lemma_lex_trans(c.last_activity_at@, b.last_activity_at@, a.last_activity_at@);
    }
}

fn sess_le_exec(a: &Session, b: &Session) -> (r: bool)
    ensures
        r == sess_le(*a, *b),
{
    let pa = status_sort_priority(&a.status);
    let pb = status_sort_priority(&b.status);
    if pa < pb {
        true
    } else if pa > pb {
        false
    } else {
        str_lex_le(b.last_activity_at.as_str(), a.last_activity_at.as_str())
    }
}

/// `x` inserted into `s` after every element that comes no later than it:
/// the insertion step of the stable insertion sort.
pub open spec fn spec_insert(s: Seq<Session>, x: Session) -> Seq<Session>
    decreases s.len(),
{
    if s.len() == 0 {
        seq![x]
    } else if sess_le(s.last(), x) {
        s.push(x)
    } else {
        spec_insert(s.drop_last(), x).push(s.last())
    }
}

/// The sessions in display order: each element inserted, in input order,
/// into the sorted prefix.
pub open spec fn spec_sort(s: Seq<Session>) -> Seq<Session>
    decreases s.len(),
{
    if s.len() == 0 {
        Seq::<Session>::empty()
    } else {
        spec_insert(spec_sort(s.drop_last()), s.last())
    }
}

/// The sequence is in display order.
pub open spec fn sorted(s: Seq<Session>) -> bool {
    forall|i: int, j: int| 0 <= i < j < s.len() ==> sess_le(#[trigger] s[i], #[trigger] s[j])
}

proof fn lemma_insert_multiset(s: Seq<Session>, x: Session)
    ensures
        spec_insert(s, x).to_multiset() == s.to_multiset().insert(x),
    decreases s.len(),
{
    if s.len() == 0 {
        assert(seq![x] =~= Seq::<Session>::empty().push(x));
        assert(Seq::<Session>::empty().push(x).to_multiset() == Seq::<Session>::empty()
            .to_multiset().insert(x));
        assert(Seq::<Session>::empty().to_multiset() =~= Multiset::<Session>::empty());
    } else if sess_le(s.last(), x) {
    } else {
        lemma_insert_multiset(s.drop_last(), x);
        assert(s.drop_last().push(s.last()) =~= s);
        assert(spec_insert(s, x).to_multiset() == spec_insert(s.drop_last(), x).to_multiset()
            .insert(s.last()));
        assert(s.drop_last().to_multiset().insert(s.last()) == s.to_multiset());
        assert(s.drop_last().to_multiset().insert(x).insert(s.last()) =~= s.drop_last()
            .to_multiset().insert(s.last()).insert(x));
    }
}

proof fn lemma_insert_sorted(s: Seq<Session>, x: Session)
    requires
        sorted(s),
    ensures
        sorted(spec_insert(s, x)),
        spec_insert(s, x).len() == s.len() + 1,
        forall|i: int|
            0 <= i < spec_insert(s, x).len() ==> (#[trigger] spec_insert(s, x)[i] == x
                || s.contains(spec_insert(s, x)[i])),
    decreases s.len(),
{
    if s.len() == 0 {
        assert(spec_insert(s, x)[0] == x);
    } else if sess_le(s.last(), x) {
        let r = s.push(x);
        assert(s.last() == s[s.len() - 1]);
        assert forall|i: int, j: int| 0 <= i < j < r.len() implies sess_le(r[i], r[j]) by {
            if j < s.len() {
                assert(r[i] == s[i] && r[j] == s[j]);
            } else {
                assert(r[j] == x);
                assert(r[i] == s[i]);
                if i < s.len() - 1 {
                    assert(sess_le(s[i], s[s.len() - 1]));
                    lemma_sess_le_trans(s[i], s[s.len() - 1], x);
                }
            }
        }
        assert forall|i: int| 0 <= i < r.len() implies (#[trigger] r[i] == x || s.contains(
            r[i],
        )) by {
            if i < s.len() {
                assert(r[i] == s[i]);
                assert(s.contains(s[i]));
            } else {
                assert(r[i] == x);
            }
        }
    } else {
        assert(sorted(s.drop_last())) by {
            assert(forall|i: int|
                0 <= i < s.drop_last().len() ==> s.drop_last()[i] == #[trigger] s[i]);
        }
        lemma_insert_sorted(s.drop_last(), x);
        lemma_sess_le_total(s.last(), x);
        assert(sess_le(x, s.last()));
        let t = spec_insert(s.drop_last(), x);
        let r = t.push(s.last());
        assert(s.last() == s[s.len() - 1]);
        assert forall|i: int| 0 <= i < t.len() implies sess_le(t[i], s.last()) by {
            assert(t[i] == x || s.drop_last().contains(t[i]));
            if t[i] != x {
                assert(exists|k: int|
                    0 <= k < s.drop_last().len() && s.drop_last()[k] == t[i]);
                let k = choose|k: int| 0 <= k < s.drop_last().len() && s.drop_last()[k] == t[i];
                assert(s.drop_last()[k] == s[k]);
                assert(sess_le(s[k], s[s.len() - 1]));
            }
        }
        assert forall|i: int, j: int| 0 <= i < j < r.len() implies sess_le(r[i], r[j]) by {
            if j < t.len() {
                assert(r[i] == t[i] && r[j] == t[j]);
            } else {
                assert(r[j] == s.last());
                assert(r[i] == t[i]);
                assert(sess_le(t[i], s.last()));
            }
        }
        assert forall|i: int| 0 <= i < r.len() implies (#[trigger] r[i] == x || s.contains(
            r[i],
        )) by {
            if i < t.len() {
                assert(r[i] == t[i]);
                if t[i] != x {
                    assert(s.drop_last().contains(t[i]));
                    assert(exists|k: int|
                        0 <= k < s.drop_last().len() && s.drop_last()[k] == t[i]);
                    let k = choose|k: int|
                        0 <= k < s.drop_last().len() && s.drop_last()[k] == t[i];
                    assert(s[k] == t[i]);
                    assert(s.contains(s[k]));
                }
            } else {
                assert(r[i] == s.last());
                assert(s.contains(s[s.len() - 1]));
            }
        }
    }
}

/// Sorting yields a sequence in display order that holds exactly the input
/// sessions.
pub proof fn lemma_sort_ensures(s: Seq<Session>)
    ensures
        sorted(spec_sort(s)),
        spec_sort(s).to_multiset() == s.to_multiset(),
        spec_sort(s).len() == s.len(),
    decreases s.len(),
{
    if s.len() == 0 {
    } else {
        lemma_sort_ensures(s.drop_last());
        lemma_insert_sorted(spec_sort(s.drop_last()), s.last());
        lemma_insert_multiset(spec_sort(s.drop_last()), s.last());
        assert(s.drop_last().to_multiset().insert(s.last()) == s.to_multiset()) by {
            assert(s.drop_last().push(s.last()) =~= s);
        }
    }
}

/// A sequence already in display order is its own sorted form.
pub proof fn lemma_sorted_sort_identity(s: Seq<Session>)
    requires
        sorted(s),
    ensures
        spec_sort(s) == s,
    decreases s.len(),
{
    if s.len() == 0 {
        assert(spec_sort(s) =~= s);
    } else {
        assert(sorted(s.drop_last())) by {
            assert(forall|i: int|
                0 <= i < s.drop_last().len() ==> s.drop_last()[i] == #[trigger] s[i]);
        }
        lemma_sorted_sort_identity(s.drop_last());
        if s.len() == 1 {
            assert(spec_insert(s.drop_last(), s.last()) =~= seq![s.last()]);
            assert(seq![s.last()] =~= s);
        } else {
            assert(sess_le(s.drop_last().last(), s.last())) by {
                assert(s.drop_last().last() == s[s.len() - 2]);
                assert(s.last() == s[s.len() - 1]);
            }
            assert(s.drop_last().push(s.last()) =~= s);
        }
    }
}

/// Sorting is idempotent: re-sorting an already sorted result changes
/// nothing.
pub proof fn lemma_sort_idempotent(s: Seq<Session>)
    ensures
        spec_sort(spec_sort(s)) == spec_sort(s),
{
    lemma_sort_ensures(s);
    lemma_sorted_sort_identity(spec_sort(s));
}

/// At different status priority tiers the higher-priority session sorts
/// strictly first, and within a tier the lexicographically greater
/// normalized timestamp sorts first.
pub proof fn lemma_sorted_display_order(s: Seq<Session>, i: int, j: int)
    requires
        sorted(s),
        0 <= i < j < s.len(),
    ensures
        spec_status_priority(s[i].status) <= spec_status_priority(s[j].status),
        spec_status_priority(s[i].status) == spec_status_priority(s[j].status) ==> lex_le(
            s[j].last_activity_at@,
            s[i].last_activity_at@,
        ),
{
    assert(sess_le(s[i], s[j]));
}

fn insert_session(v: &mut Vec<Session>, x: Session)
    ensures
        final(v)@ == spec_insert(old(v)@, x),
{
    let mut p: usize = v.len();
    while p > 0 && !sess_le_exec(&v[p - 1], &x)
        invariant
            p <= v.len(),
            v@ == old(v)@,
            forall|j: int| p <= j < v@.len() ==> !sess_le(#[trigger] v@[j], x),
        decreases p,
    {
        p -= 1;
    }
    let ghost s = v@;
    let ghost pos = p as int;
    v.insert(p, x);
    proof {
        lemma_insert_split(s, x, pos);
        assert(v@ =~= s.subrange(0, pos) + seq![x] + s.subrange(pos, s.len() as int));
    }
}

proof fn lemma_insert_split(s: Seq<Session>, x: Session, p: int)
    requires
        0 <= p <= s.len(),
        forall|j: int| p <= j < s.len() ==> !sess_le(#[trigger] s[j], x),
        p > 0 ==> sess_le(s[p - 1], x),
    ensures
        spec_insert(s, x) == s.subrange(0, p) + seq![x] + s.subrange(p, s.len() as int),
    decreases s.len(),
{
    if p == s.len() {
        if s.len() == 0 {
            assert(spec_insert(s, x) =~= s.subrange(0, p) + seq![x] + s.subrange(
                p,
                s.len() as int,
            ));
        } else {
            assert(sess_le(s.last(), x)) by {
                assert(s.last() == s[p - 1]);
            }
            assert(s.push(x) =~= s.subrange(0, p) + seq![x] + s.subrange(p, s.len() as int));
        }
    } else {
        assert(!sess_le(s.last(), x)) by {
            assert(s.last() == s[s.len() - 1]);
        }
        assert(forall|j: int|
            p <= j < s.drop_last().len() ==> !sess_le(#[trigger] s.drop_last()[j], x)) by {
            assert(forall|j: int|
                0 <= j < s.drop_last().len() ==> s.drop_last()[j] == #[trigger] s[j]);
        }
        assert(p > 0 ==> sess_le(s.drop_last()[p - 1], x)) by {
            if p > 0 {
                assert(s.drop_last()[p - 1] == s[p - 1]);
            }
        }
        lemma_insert_split(s.drop_last(), x, p);
        assert(spec_insert(s.drop_last(), x).push(s.last()) =~= s.subrange(0, p) + seq![x]
            + s.subrange(p, s.len() as int)) by {
            assert(s.drop_last().subrange(0, p) =~= s.subrange(0, p));
            assert(s.drop_last().subrange(p, s.drop_last().len() as int) =~= s.subrange(
                p,
                s.len() - 1,
            ));
        }
    }
}

/// Sorts sessions into the display order.
pub fn sort_sessions(sessions: Vec<Session>) -> (r: Vec<Session>)
    ensures
        r@ == spec_sort(sessions@),
{
    let ghost orig = sessions@;
    let mut rest = sessions;
    let mut out: Vec<Session> = Vec::new();
    let ghost n = orig.len();
    assert(orig.subrange(0, 0) =~= Seq::<Session>::empty());
    assert(rest@ =~= orig.subrange(0, n as int));
    while rest.len() > 0
        invariant
            rest@.len() <= n,
            rest@ =~= orig.subrange(n - rest@.len(), n as int),
            out@ == spec_sort(orig.subrange(0, n - rest@.len())),
            n == orig.len(),
        decreases rest.len(),
    {
        let ghost k = n - rest@.len();
        let x = rest.remove(0);
        proof {
            assert(x == orig[k]);
            assert(rest@ =~= orig.subrange(k + 1, n as int));
            assert(orig.subrange(0, k + 1).drop_last() =~= orig.subrange(0, k));
            assert(orig.subrange(0, k + 1).last() == orig[k]);
        }
        insert_session(&mut out, x);
    }
    assert(orig.subrange(0, n as int) =~= orig);
    out
}

/// How many sessions are in the Waiting status.
pub open spec fn count_waiting(s: Seq<Session>) -> int
    decreases s.len(),
{
    if s.len() == 0 {
        0int
    } else {
        count_waiting(s.drop_last()) + if s.last().status == SessionStatus::Waiting {
            1int
        } else {
            0int
        }
    }
}

/// The Waiting sessions never outnumber the sessions.
pub proof fn lemma_waiting_count_bounded(s: Seq<Session>)
    ensures
        0 <= count_waiting(s) <= s.len(),
    decreases s.len(),
{
    if s.len() > 0 {
        lemma_waiting_count_bounded(s.drop_last());
    }
}

/// Aggregates the concatenated per-family session lists: sorts them into the
/// display order and derives the summary counts. The count of sessions that
/// need attention equals the number of Waiting entries, and can never exceed
/// the total.
pub fn get_all_sessions(all_sessions: Vec<Session>) -> (r: SessionsResponse)
    ensures
        r.sessions@ == spec_sort(all_sessions@),
        sorted(r.sessions@),
        r.sessions@.to_multiset() == all_sessions@.to_multiset(),
        r.total_count == r.sessions@.len(),
        r.waiting_count == count_waiting(r.sessions@),
        r.waiting_count <= r.total_count,
{
    proof {
        lemma_sort_ensures(all_sessions@);
    }
    let sorted_sessions = sort_sessions(all_sessions);
    let total_count = sorted_sessions.len();
    let mut waiting_count: usize = 0;
    let mut i: usize = 0;
    while i < sorted_sessions.len()
        invariant
            i <= sorted_sessions.len(),
            waiting_count as int == count_waiting(sorted_sessions@.subrange(0, i as int)),
            waiting_count <= i,
        decreases sorted_sessions.len() - i,
    {
        proof {
            assert(sorted_sessions@.subrange(0, i + 1).drop_last() =~= sorted_sessions@.subrange(
                0,
                i as int,
            ));
            assert(sorted_sessions@.subrange(0, i + 1).last() == sorted_sessions@[i as int]);
        }
        let is_waiting = match sorted_sessions[i].status {
            SessionStatus::Waiting => true,
            _ => false,
        };
        if is_waiting {
            waiting_count += 1;
        }
        i += 1;
    }
    assert(sorted_sessions@.subrange(0, sorted_sessions@.len() as int) =~= sorted_sessions@);
    SessionsResponse { sessions: sorted_sessions, total_count, waiting_count }
}

} // verus!
