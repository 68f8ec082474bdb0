//! The order in which sessions are listed: by night name, then filter, then
//! exposure, gain and temperature.
use vstd::prelude::*;
use vstd::multiset::Multiset;
use crate::session::{AstroSession, FingerprintView, SessionFingerprint, SessionView, session_views};
use crate::text::{chars_equal, chars_of, chars_precede, precedes};

verus! {

broadcast use vstd::seq_lib::group_to_multiset_ensures;

/// Whether a session with fingerprint `a` is listed strictly before one with `b`.
pub open spec fn fingerprint_before(a: FingerprintView, b: FingerprintView) -> bool {
    ||| precedes(a.name, b.name)
    ||| a.name == b.name && precedes(a.filter, b.filter)
    ||| a.name == b.name && a.filter == b.filter && a.exposure < b.exposure
    ||| a.name == b.name && a.filter == b.filter && a.exposure == b.exposure && a.gain < b.gain
    ||| a.name == b.name && a.filter == b.filter && a.exposure == b.exposure && a.gain == b.gain
        && a.temperature < b.temperature
}

/// No session is listed after one it should precede.
pub open spec fn sessions_sorted(s: Seq<SessionView>) -> bool {
    forall|i: int, j: int|
        0 <= i < j < s.len() ==> !fingerprint_before(#[trigger] s[j].fingerprint, #[trigger] s[i].fingerprint)
}

/// Lexicographic character order is transitive.
pub proof fn lemma_precedes_transitive(a: Seq<char>, b: Seq<char>, c: Seq<char>)
    requires
        precedes(a, b),
        precedes(b, c),
    ensures
        precedes(a, c),
    decreases a.len(),
{
    if a.len() > 0 && b.len() > 0 && c.len() > 0 && a[0] == b[0] && b[0] == c[0] {
        lemma_precedes_transitive(a.drop_first(), b.drop_first(), c.drop_first());
    }
}

/// No text precedes itself.
pub proof fn lemma_precedes_irreflexive(a: Seq<char>)
    ensures
        !precedes(a, a),
    decreases a.len(),
{
    if a.len() > 0 {
        lemma_precedes_irreflexive(a.drop_first());
    }
}

/// No session is listed strictly before itself.
pub proof fn lemma_before_irreflexive(a: FingerprintView)
    ensures
        !fingerprint_before(a, a),
{
    lemma_precedes_irreflexive(a.name);
    lemma_precedes_irreflexive(a.filter);
}

/// The listing order of sessions is transitive.
pub proof fn lemma_before_transitive(a: FingerprintView, b: FingerprintView, c: FingerprintView)
    requires
        fingerprint_before(a, b),
        fingerprint_before(b, c),
    ensures
        fingerprint_before(a, c),
{
    if precedes(a.name, b.name) && precedes(b.name, c.name) {
        lemma_precedes_transitive(a.name, b.name, c.name);
    }
    if a.name == b.name && b.name == c.name && precedes(a.filter, b.filter) && precedes(
        b.filter,
        c.filter,
    ) {
        lemma_precedes_transitive(a.filter, b.filter, c.filter);
    }
}

/// Whether a session with fingerprint `a` is listed strictly before one with `b`.
pub fn fingerprint_precedes(a: &SessionFingerprint, b: &SessionFingerprint) -> (r: bool)
    ensures
        r == fingerprint_before(a@, b@),
{
    let an = chars_of(a.name.as_str());
    let bn = chars_of(b.name.as_str());
    if chars_precede(&an, &bn) {
        return true;
    }
    if !chars_equal(&an, &bn) {
        return false;
    }
    let af = chars_of(a.filter.as_str());
    let bf = chars_of(b.filter.as_str());
    if chars_precede(&af, &bf) {
        return true;
    }
    if !chars_equal(&af, &bf) {
        return false;
    }
    if a.exposure != b.exposure {
        return a.exposure < b.exposure;
    }
    if a.gain != b.gain {
        return a.gain < b.gain;
    }
    a.temperature < b.temperature
}

/// The position of a first-listed session among `v`.
fn first_listed(v: &Vec<AstroSession>) -> (m: usize)
    requires
        v.len() > 0,
    ensures
        m < v.len(),
        forall|j: int|
            0 <= j < v.len() ==> !fingerprint_before(#[trigger] v@[j]@.fingerprint, v@[m as int]@.fingerprint),
{
    let mut m: usize = 0;
    let mut k: usize = 1;
    proof {
        lemma_before_irreflexive(v@[0]@.fingerprint);
    }
    while k < v.len()
        invariant
            m < k <= v.len(),
            forall|j: int|
                0 <= j < k ==> !fingerprint_before(#[trigger] v@[j]@.fingerprint, v@[m as int]@.fingerprint),
        decreases v.len() - k,
    {
        if fingerprint_precedes(&v[k].fingerprint, &v[m].fingerprint) {
            let ghost old_m = m;
            assert forall|j: int| 0 <= j < k + 1 implies !fingerprint_before(
                #[trigger] v@[j]@.fingerprint,
                v@[k as int]@.fingerprint,
            ) by {
                if j < k && fingerprint_before(v@[j]@.fingerprint, v@[k as int]@.fingerprint) {
                    lemma_before_transitive(
                        v@[j]@.fingerprint,
                        v@[k as int]@.fingerprint,
                        v@[old_m as int]@.fingerprint,
                    );
                }
                if j == k {
                    lemma_before_irreflexive(v@[k as int]@.fingerprint);
                }
            }
            m = k;
        }
        k = k + 1;
    }
    m
}

/// The sessions `v` in listing order; sessions that tie keep no particular order.
pub fn sort_sessions(v: Vec<AstroSession>) -> (r: Vec<AstroSession>)
    ensures
        session_views(r@).to_multiset() == session_views(v@).to_multiset(),
        sessions_sorted(session_views(r@)),
{
    let mut rest = v;
    let mut out: Vec<AstroSession> = Vec::new();
    let ghost total = session_views(rest@).to_multiset();
    while rest.len() > 0
        invariant
            session_views(out@).to_multiset().add(session_views(rest@).to_multiset()) == total,
            sessions_sorted(session_views(out@)),
            forall|i: int, j: int|
                0 <= i < out@.len() && 0 <= j < rest@.len() ==> !fingerprint_before(
                    #[trigger] rest@[j]@.fingerprint,
                    #[trigger] out@[i]@.fingerprint,
                ),
        decreases rest.len(),
    {
        let m = first_listed(&rest);
        let ghost old_rest = rest@;
        let ghost old_out = out@;
        let x = rest.remove(m);
        assert(session_views(rest@) =~= session_views(old_rest).remove(m as int));
        out.push(x);
        assert(session_views(out@) =~= session_views(old_out).push(x@));
        assert forall|i: int, j: int|
            0 <= i < out@.len() && 0 <= j < rest@.len() implies !fingerprint_before(
            #[trigger] rest@[j]@.fingerprint,
            #[trigger] out@[i]@.fingerprint,
        ) by {
            let oj = if j < m { j } else { j + 1 };
            assert(rest@[j] == old_rest[oj]);
            if i < old_out.len() {
                assert(out@[i] == old_out[i]);
            }
        }
        assert forall|i: int, j: int|
            0 <= i < j < session_views(out@).len() implies !fingerprint_before(
            #[trigger] session_views(out@)[j].fingerprint,
            #[trigger] session_views(out@)[i].fingerprint,
        ) by {
            if j < old_out.len() {
                assert(session_views(out@)[j] == session_views(old_out)[j]);
                assert(session_views(out@)[i] == session_views(old_out)[i]);
            } else {
                assert(out@[i] == old_out[i]);
                assert(old_rest[m as int] == x);
            }
        }
    }
    assert(session_views(rest@).to_multiset() =~= Multiset::empty());
    out
}

/// Any two texts are equal or one precedes the other.
pub proof fn lemma_precedes_total(a: Seq<char>, b: Seq<char>)
    ensures
        a == b || precedes(a, b) || precedes(b, a),
    decreases a.len(),
{
    if a.len() > 0 && b.len() > 0 && a[0] == b[0] {
        lemma_precedes_total(a.drop_first(), b.drop_first());
        if a.drop_first() == b.drop_first() {
            assert(a =~= seq![a[0]] + a.drop_first());
            assert(b =~= seq![b[0]] + b.drop_first());
            assert(a =~= b);
        }
    } else if a.len() > 0 && b.len() > 0 {
        assert((a[0] as int) != (b[0] as int));
    }
    if a.len() == 0 && b.len() == 0 {
        assert(a =~= b);
    }
}

/// Texts ordered by characters, equal texts included.
pub open spec fn text_order() -> spec_fn(Seq<char>, Seq<char>) -> bool {
    |a: Seq<char>, b: Seq<char>| a == b || precedes(a, b)
}

/// The character order of texts is a total order.
pub proof fn lemma_text_order_total()
    ensures
        vstd::relations::total_ordering(text_order()),
{
    let leq = text_order();
    assert(vstd::relations::reflexive(leq));
    assert forall|a: Seq<char>, b: Seq<char>| #[trigger] leq(a, b) && #[trigger] leq(b, a) implies a == b by {
        if a != b {
            lemma_precedes_transitive(a, b, a);
            lemma_precedes_irreflexive(a);
        }
    }
    assert forall|a: Seq<char>, b: Seq<char>, c: Seq<char>| #[trigger] leq(a, b) && #[trigger] leq(b, c) implies leq(
        a,
        c,
    ) by {
        if a != b && b != c {
            lemma_precedes_transitive(a, b, c);
        }
    }
    assert forall|a: Seq<char>, b: Seq<char>| #[trigger] leq(a, b) || #[trigger] leq(b, a) by {
        lemma_precedes_total(a, b);
    }
}

/// The characters of a sequence of texts.
pub open spec fn text_views(s: Seq<String>) -> Seq<Seq<char>> {
    s.map_values(|x: String| x@)
}

fn first_text(v: &Vec<String>) -> (m: usize)
    requires
        v.len() > 0,
    ensures
        m < v.len(),
        forall|j: int| 0 <= j < v.len() ==> !precedes(#[trigger] v@[j]@, v@[m as int]@),
{
    let mut m: usize = 0;
    let mut k: usize = 1;
    let mut best = chars_of(v[0].as_str());
    proof {
        lemma_precedes_irreflexive(v@[0]@);
    }
    while k < v.len()
        invariant
            m < k <= v.len(),
            best@ == v@[m as int]@,
            forall|j: int| 0 <= j < k ==> !precedes(#[trigger] v@[j]@, v@[m as int]@),
        decreases v.len() - k,
    {
        let cand = chars_of(v[k].as_str());
        if chars_precede(&cand, &best) {
            let ghost old_m = m;
            assert forall|j: int| 0 <= j < k + 1 implies !precedes(#[trigger] v@[j]@, v@[k as int]@) by {
                if j < k && precedes(v@[j]@, v@[k as int]@) {
                    lemma_precedes_transitive(v@[j]@, v@[k as int]@, v@[old_m as int]@);
                }
                if j == k {
                    lemma_precedes_irreflexive(v@[k as int]@);
                }
            }
            m = k;
            best = cand;
        }
        k = k + 1;
    }
    m
}

/// The texts `v` in character order (`str`'s order: UTF-8 keeps code-point order).
pub fn sort_texts(v: Vec<String>) -> (r: Vec<String>)
    ensures
        text_views(r@) == text_views(v@).sort_by(text_order()),
{
    let mut rest = v;
    let mut out: Vec<String> = Vec::new();
    let ghost total = text_views(rest@).to_multiset();
    while rest.len() > 0
        invariant
            text_views(out@).to_multiset().add(text_views(rest@).to_multiset()) == total,
            forall|i: int, j: int|
                0 <= i < j < out@.len() ==> !precedes(#[trigger] out@[j]@, #[trigger] out@[i]@),
            forall|i: int, j: int|
                0 <= i < out@.len() && 0 <= j < rest@.len() ==> !precedes(
                    #[trigger] rest@[j]@,
                    #[trigger] out@[i]@,
                ),
        decreases rest.len(),
    {
        let m = first_text(&rest);
        let ghost old_rest = rest@;
        let ghost old_out = out@;
        let x = rest.remove(m);
        assert(text_views(rest@) =~= text_views(old_rest).remove(m as int));
        out.push(x);
        assert(text_views(out@) =~= text_views(old_out).push(x@));
        assert forall|i: int, j: int|
            0 <= i < out@.len() && 0 <= j < rest@.len() implies !precedes(
            #[trigger] rest@[j]@,
            #[trigger] out@[i]@,
        ) by {
            let oj = if j < m { j } else { j + 1 };
            assert(rest@[j] == old_rest[oj]);
            if i < old_out.len() {
                assert(out@[i] == old_out[i]);
            }
        }
        assert forall|i: int, j: int| 0 <= i < j < out@.len() implies !precedes(
            #[trigger] out@[j]@,
            #[trigger] out@[i]@,
        ) by {
            if j < old_out.len() {
                assert(out@[j] == old_out[j]);
                assert(out@[i] == old_out[i]);
            } else {
                assert(out@[i] == old_out[i]);
                assert(old_rest[m as int] == x);
            }
        }
    }
    assert(text_views(rest@).to_multiset() =~= Multiset::empty());
    assert(text_views(out@).to_multiset() =~= total);
    let ghost sorted = text_views(out@);
    proof {
        lemma_text_order_total();
        assert forall|i: int, j: int| 0 <= i < j < sorted.len() implies #[trigger] (text_order())(
            sorted[i],
            sorted[j],
        ) by {
            assert(!precedes(out@[j]@, out@[i]@));
            lemma_precedes_total(sorted[i], sorted[j]);
        }
        text_views(v@).lemma_sort_by_ensures(text_order());
        vstd::seq_lib::lemma_sorted_unique(sorted, text_views(v@).sort_by(text_order()), text_order());
    }
    out
}

} // verus!
