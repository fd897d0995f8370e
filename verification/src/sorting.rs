use crate::text::lemma_skip_step;
use vstd::prelude::*;
use vstd::string::StrSliceExecFns;

verus! {

/// Lexicographic order on character sequences: decided by the first
/// differing character's code point, a prefix ordered before any extension.
pub open spec fn lex_le(a: Seq<char>, b: Seq<char>) -> bool
    decreases a.len(),
{
    if a.len() == 0 {
        true
    } else if b.len() == 0 {
        false
    } else if a[0] != b[0] {
        a[0] < b[0]
    } else {
        lex_le(a.drop_first(), b.drop_first())
    }
}

/// The lexicographic order is total.
pub proof fn lemma_lex_le_total(a: Seq<char>, b: Seq<char>)
    ensures
        lex_le(a, b) || lex_le(b, a),
    decreases a.len(),
{
    if a.len() > 0 && b.len() > 0 && a[0] == b[0] {
        lemma_lex_le_total(a.drop_first(), b.drop_first());
    }
}

/// The lexicographic order is transitive.
pub proof fn lemma_lex_le_trans(a: Seq<char>, b: Seq<char>, c: Seq<char>)
    ensures
        lex_le(a, b) && lex_le(b, c) ==> lex_le(a, c),
    decreases a.len(),
{
    if lex_le(a, b) && lex_le(b, c) && a.len() > 0 {
        assert(b.len() > 0);
        assert(c.len() > 0);
        if a[0] == b[0] && b[0] == c[0] {
            lemma_lex_le_trans(a.drop_first(), b.drop_first(), c.drop_first());
        }
    }
}

fn str_le_from(a: &str, b: &str, i: usize) -> (r: bool)
    requires
        i <= a@.len(),
        i <= b@.len(),
    ensures
        r == lex_le(a@.skip(i as int), b@.skip(i as int)),
    decreases a@.len() - i,
{
    let an = a.unicode_len();
    let bn = b.unicode_len();
    if i == an {
        proof {
            assert(a@.skip(i as int) =~= Seq::<char>::empty());
        }
        true
    } else if i == bn {
        proof {
            assert(b@.skip(i as int) =~= Seq::<char>::empty());
            lemma_skip_step(a@, i as int);
        }
        false
    } else {
        let ca = a.get_char(i);
        let cb = b.get_char(i);
        proof {
            lemma_skip_step(a@, i as int);
            lemma_skip_step(b@, i as int);
        }
        if ca != cb {
            ca < cb
        } else {
            str_le_from(a, b, i + 1)
        }
    }
}

/// Decides the lexicographic order between two strings.
pub fn str_le(a: &str, b: &str) -> (r: bool)
    ensures
        r == lex_le(a@, b@),
{
    let r = str_le_from(a, b, 0);
    proof {
        assert(a@.skip(0) =~= a@);
        assert(b@.skip(0) =~= b@);
    }
    r
}

/// Inserts `e` before the first element of `s` that does not precede it
/// under `leq`.
pub open spec fn insert_by<A>(leq: spec_fn(A, A) -> bool, e: A, s: Seq<A>) -> Seq<A>
    decreases s.len(),
{
    if s.len() == 0 {
        seq![e]
    } else if leq(e, s[0]) {
        seq![e] + s
    } else {
        seq![s[0]] + insert_by(leq, e, s.drop_first())
    }
}

/// Insertion sort under `leq`: a deterministic ordering of `s`.
pub open spec fn sorted_ins<A>(leq: spec_fn(A, A) -> bool, s: Seq<A>) -> Seq<A>
    decreases s.len(),
{
    if s.len() == 0 {
        s
    } else {
        insert_by(leq, s[0], sorted_ins(leq, s.drop_first()))
    }
}

/// Where the inserted element lands: if every element before position `i`
/// does not admit `e` before it, and the element at `i` (when there is one)
/// does, the insertion splits `s` at `i`.
pub proof fn lemma_insert_by_at<A>(leq: spec_fn(A, A) -> bool, e: A, s: Seq<A>, i: int)
    requires
        0 <= i <= s.len(),
        forall|j: int| 0 <= j < i ==> !leq(e, #[trigger] s[j]),
        i < s.len() ==> leq(e, s[i]),
    ensures
        insert_by(leq, e, s) =~= s.take(i) + seq![e] + s.skip(i),
    decreases i,
{
    if i == 0 {
        if s.len() == 0 {
            assert(insert_by(leq, e, s) =~= s.take(0) + seq![e] + s.skip(0));
        } else {
            assert(leq(e, s[0]));
            assert(insert_by(leq, e, s) =~= s.take(0) + seq![e] + s.skip(0));
        }
    } else {
        assert(!leq(e, s[0]));
        assert(forall|j: int|
            0 <= j < i - 1 ==> !leq(e, #[trigger] s.drop_first()[j]) && s.drop_first()[j] == s[j
                + 1]);
        lemma_insert_by_at(leq, e, s.drop_first(), i - 1);
        assert(insert_by(leq, e, s) == seq![s[0]] + insert_by(leq, e, s.drop_first()));
        assert(seq![s[0]] + (s.drop_first().take(i - 1) + seq![e] + s.drop_first().skip(i - 1))
            =~= s.take(i) + seq![e] + s.skip(i));
    }
}

/// The insertion result holds exactly one more element; each of its
/// elements is the inserted one or one of `s`, and the inserted element is
/// among them.
pub proof fn lemma_insert_by_elems<A>(leq: spec_fn(A, A) -> bool, e: A, s: Seq<A>)
    ensures
        insert_by(leq, e, s).len() == s.len() + 1,
        forall|i: int|
            0 <= i < insert_by(leq, e, s).len() ==> #[trigger] insert_by(leq, e, s)[i] == e
                || s.contains(insert_by(leq, e, s)[i]),
        insert_by(leq, e, s).contains(e),
    decreases s.len(),
{
    if s.len() == 0 {
        assert(insert_by(leq, e, s)[0] == e);
        assert(insert_by(leq, e, s).contains(e));
    } else if leq(e, s[0]) {
        assert(insert_by(leq, e, s)[0] == e);
        assert(insert_by(leq, e, s).contains(e));
    } else {
        lemma_insert_by_elems(leq, e, s.drop_first());
        let r = insert_by(leq, e, s);
        let rr = insert_by(leq, e, s.drop_first());
        assert(r == seq![s[0]] + rr);
        assert forall|i: int| 0 <= i < r.len() implies #[trigger] r[i] == e || s.contains(r[i]) by {
            if i == 0 {
                assert(s[0] == s[0]);
                assert(s.contains(s[0]));
            } else {
                assert(r[i] == rr[i - 1]);
                if rr[i - 1] != e {
                    let j = choose|j: int|
                        0 <= j < s.drop_first().len() && s.drop_first()[j] == rr[i - 1];
                    assert(s[j + 1] == rr[i - 1]);
                    assert(s.contains(s[j + 1]));
                }
            }
        }
        let k = choose|k: int| 0 <= k < rr.len() && rr[k] == e;
        assert(r[k + 1] == e);
        assert(r.contains(e));
    }
}

/// Inserting into a `leq`-sorted sequence keeps it sorted, provided `leq`
/// is total and transitive.
pub proof fn lemma_insert_by_sorted<A>(leq: spec_fn(A, A) -> bool, e: A, s: Seq<A>)
    requires
        vstd::relations::sorted_by(s, leq),
        forall|x: A, y: A| #[trigger] leq(x, y) || #[trigger] leq(y, x),
        forall|x: A, y: A, z: A| #[trigger] leq(x, y) && #[trigger] leq(y, z) ==> leq(x, z),
    ensures
        vstd::relations::sorted_by(insert_by(leq, e, s), leq),
    decreases s.len(),
{
    let r = insert_by(leq, e, s);
    if s.len() == 0 {
    } else if leq(e, s[0]) {
        assert forall|i: int, j: int| 0 <= i < j < r.len() implies leq(r[i], r[j]) by {
            if i == 0 {
                assert(r[0] == e);
                assert(r[j] == s[j - 1]);
                if j - 1 > 0 {
                    assert(leq(s[0], s[j - 1]));
                }
            } else {
                assert(r[i] == s[i - 1]);
                assert(r[j] == s[j - 1]);
            }
        }
    } else {
        assert(leq(s[0], e));
        assert(vstd::relations::sorted_by(s.drop_first(), leq)) by {
            assert forall|i: int, j: int| 0 <= i < j < s.drop_first().len() implies leq(
                s.drop_first()[i],
                s.drop_first()[j],
            ) by {
                assert(s.drop_first()[i] == s[i + 1]);
                assert(s.drop_first()[j] == s[j + 1]);
            }
        }
        lemma_insert_by_sorted(leq, e, s.drop_first());
        lemma_insert_by_elems(leq, e, s.drop_first());
        let rr = insert_by(leq, e, s.drop_first());
        assert forall|i: int, j: int| 0 <= i < j < r.len() implies leq(r[i], r[j]) by {
            if i == 0 {
                assert(r[0] == s[0]);
                assert(r[j] == rr[j - 1]);
                if rr[j - 1] == e {
                } else {
                    assert(s.drop_first().contains(rr[j - 1]));
                    let k = choose|k: int|
                        0 <= k < s.drop_first().len() && s.drop_first()[k] == rr[j - 1];
                    assert(s[k + 1] == rr[j - 1]);
                    assert(leq(s[0], s[k + 1]));
                }
            } else {
                assert(r[i] == rr[i - 1]);
                assert(r[j] == rr[j - 1]);
            }
        }
    }
}

/// Insertion sort sorts: its result is ordered by `leq`, provided `leq` is
/// total and transitive.
pub proof fn lemma_sorted_ins_sorted<A>(leq: spec_fn(A, A) -> bool, s: Seq<A>)
    requires
        forall|x: A, y: A| #[trigger] leq(x, y) || #[trigger] leq(y, x),
        forall|x: A, y: A, z: A| #[trigger] leq(x, y) && #[trigger] leq(y, z) ==> leq(x, z),
    ensures
        vstd::relations::sorted_by(sorted_ins(leq, s), leq),
    decreases s.len(),
{
    if s.len() > 0 {
        lemma_sorted_ins_sorted(leq, s.drop_first());
        lemma_insert_by_sorted(leq, s[0], sorted_ins(leq, s.drop_first()));
    }
}

} // verus!
