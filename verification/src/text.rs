//! Character-level string utilities: equality, lexicographic order, joining.

use vstd::multiset::Multiset;
use vstd::prelude::*;
use vstd::string::StrSliceExecFns;

verus! {

/// The fixed set of identifiers that name built-in scalar or string types.
/// A field whose effective type is one of these never yields a relationship.
pub open spec fn is_primitive_spec(s: Seq<char>) -> bool {
    ||| s == "String"@
    ||| s == "&str"@
    ||| s == "f32"@
    ||| s == "f64"@
    ||| s == "i32"@
    ||| s == "u32"@
    ||| s == "i64"@
    ||| s == "u64"@
    ||| s == "i16"@
    ||| s == "u16"@
    ||| s == "i8"@
    ||| s == "u8"@
    ||| s == "usize"@
    ||| s == "isize"@
    ||| s == "bool"@
}

/// Character-by-character string equality, proved against the views.
pub fn str_eq(a: &str, b: &str) -> (r: bool)
    ensures
        r == (a@ == b@),
{
    let alen = a.unicode_len();
    let blen = b.unicode_len();
    if alen != blen {
        return false;
    }
    let mut i: usize = 0;
    while i < alen
        invariant
            0 <= i <= alen,
            alen == a@.len(),
            alen == b@.len(),
            forall|j: int| 0 <= j < i ==> a@[j] == b@[j],
        decreases alen - i,
    {
        if a.get_char(i) != b.get_char(i) {
            return false;
        }
        i = i + 1;
    }
    proof {
        assert(a@ =~= b@);
    }
    true
}

/// Lexicographic order on character sequences, by code point.
pub open spec fn lex_leq(a: Seq<char>, b: Seq<char>) -> bool
    decreases a.len(),
{
    if a.len() == 0 {
        true
    } else if b.len() == 0 {
        false
    } else if a[0] == b[0] {
        lex_leq(a.drop_first(), b.drop_first())
    } else {
        (a[0] as int) < (b[0] as int)
    }
}

/// The order above as a value, for `sort_by`.
pub open spec fn lex_leq_fn() -> spec_fn(Seq<char>, Seq<char>) -> bool {
    |a: Seq<char>, b: Seq<char>| lex_leq(a, b)
}

pub proof fn lemma_lex_refl(a: Seq<char>)
    ensures
        lex_leq(a, a),
    decreases a.len(),
{
    if a.len() > 0 {
        lemma_lex_refl(a.drop_first());
    }
}

pub proof fn lemma_lex_total(a: Seq<char>, b: Seq<char>)
    ensures
        lex_leq(a, b) || lex_leq(b, a),
    decreases a.len(),
{
    if a.len() > 0 && b.len() > 0 && a[0] == b[0] {
        lemma_lex_total(a.drop_first(), b.drop_first());
    }
}

pub proof fn lemma_lex_antisym(a: Seq<char>, b: Seq<char>)
    requires
        lex_leq(a, b),
        lex_leq(b, a),
    ensures
        a == b,
    decreases a.len(),
{
    if a.len() == 0 {
        assert(b.len() == 0);
        assert(a =~= b);
    } else {
        assert(a[0] == b[0]);
        lemma_lex_antisym(a.drop_first(), b.drop_first());
        assert(a.len() == b.len());
        assert forall|i: int| 0 <= i < a.len() implies a[i] == b[i] by {
            if i >= 1 {
                assert(a[i] == a.drop_first()[i - 1]);
                assert(b[i] == b.drop_first()[i - 1]);
            }
        }
        assert(a =~= b);
    }
}

pub proof fn lemma_lex_trans(a: Seq<char>, b: Seq<char>, c: Seq<char>)
    requires
        lex_leq(a, b),
        lex_leq(b, c),
    ensures
        lex_leq(a, c),
    decreases a.len(),
{
    if a.len() > 0 && b.len() > 0 && c.len() > 0 && a[0] == b[0] && b[0] == c[0] {
        lemma_lex_trans(a.drop_first(), b.drop_first(), c.drop_first());
    }
}

/// The lexicographic order is a total order, as `sort_by` demands.
pub proof fn lemma_lex_total_ordering()
    ensures
        vstd::relations::total_ordering(lex_leq_fn()),
{
    let leq = lex_leq_fn();
    assert forall|a: Seq<char>| #[trigger] leq(a, a) by {
        lemma_lex_refl(a);
    }
    assert forall|a: Seq<char>, b: Seq<char>| #[trigger] leq(a, b) && #[trigger] leq(b, a)
        implies a == b by {
        lemma_lex_antisym(a, b);
    }
    assert forall|a: Seq<char>, b: Seq<char>, c: Seq<char>|
        #[trigger] leq(a, b) && #[trigger] leq(b, c) implies leq(a, c) by {
        lemma_lex_trans(a, b, c);
    }
    assert forall|a: Seq<char>, b: Seq<char>| #[trigger] leq(a, b) || #[trigger] leq(b, a) by {
        lemma_lex_total(a, b);
    }
}

/// Decides the lexicographic order on two strings.
pub fn str_lex_leq(a: &str, b: &str) -> (r: bool)
    ensures
        r == lex_leq(a@, b@),
    decreases a@.len(),
{
    let alen = a.unicode_len();
    let blen = b.unicode_len();
    if alen == 0 {
        true
    } else if blen == 0 {
        false
    } else {
        let ca = a.get_char(0);
        let cb = b.get_char(0);
        if ca == cb {
            let a1 = a.substring_char(1, alen);
            let b1 = b.substring_char(1, blen);
            proof {
                assert(a1@ =~= a@.drop_first());
                assert(b1@ =~= b@.drop_first());
            }
            str_lex_leq(a1, b1)
        } else {
            (ca as u32) < (cb as u32)
        }
    }
}

/// The views of a sequence of strings.
pub open spec fn str_views(s: Seq<String>) -> Seq<Seq<char>> {
    Seq::new(s.len(), |i: int| if 0 <= i < s.len() { s[i]@ } else { arbitrary() })
}

/// Sorts strings into the lexicographic order; the result is exactly the
/// mathematical `sort_by` of the input's views.
pub fn sort_strings(v: Vec<String>) -> (r: Vec<String>)
    ensures
        str_views(r@) == str_views(v@).sort_by(lex_leq_fn()),
{
    broadcast use vstd::seq_lib::group_to_multiset_ensures;

    let ghost orig = v@;
    let leq = Ghost(lex_leq_fn());
    let mut rem = v;
    let mut out: Vec<String> = Vec::new();
    proof {
        assert(str_views(out@) =~= Seq::<Seq<char>>::empty());
        assert(str_views(out@).to_multiset().add(str_views(rem@).to_multiset()) =~= str_views(
            orig,
        ).to_multiset());
    }
    while rem.len() > 0
        invariant
            str_views(out@).to_multiset().add(str_views(rem@).to_multiset()) == str_views(
                orig,
            ).to_multiset(),
            vstd::relations::sorted_by(str_views(out@), lex_leq_fn()),
            forall|i: int, j: int|
                0 <= i < out@.len() && 0 <= j < rem@.len() ==> lex_leq(
                    #[trigger] str_views(out@)[i],
                    #[trigger] str_views(rem@)[j],
                ),
        decreases rem@.len(),
    {
        let mut m: usize = 0;
        let mut k: usize = 1;
        proof {
            lemma_lex_refl(str_views(rem@)[0]);
        }
        while k < rem.len()
            invariant
                0 <= m < k <= rem@.len(),
                rem@.len() > 0,
                forall|j: int| 0 <= j < k ==> lex_leq(str_views(rem@)[m as int], #[trigger] str_views(rem@)[j]),
            decreases rem@.len() - k,
        {
            if str_lex_leq(rem[k].as_str(), rem[m].as_str()) {
                proof {
                    assert forall|j: int|
                        0 <= j < k + 1 implies lex_leq(
                        str_views(rem@)[k as int],
                        #[trigger] str_views(rem@)[j],
                    ) by {
                        if j < k {
                            lemma_lex_trans(
                                str_views(rem@)[k as int],
                                str_views(rem@)[m as int],
                                str_views(rem@)[j],
                            );
                        } else {
                            lemma_lex_refl(str_views(rem@)[k as int]);
                        }
                    }
                }
                m = k;
            } else {
                proof {
                    lemma_lex_total(str_views(rem@)[k as int], str_views(rem@)[m as int]);
                    lemma_lex_refl(str_views(rem@)[m as int]);
                }
            }
            k = k + 1;
        }
        let ghost rem_prev = rem@;
        let ghost out_prev = out@;
        let x = rem.remove(m);
        out.push(x);
        proof {
            assert(str_views(rem_prev)[m as int] == x@);
            assert(str_views(rem@) =~= str_views(rem_prev).remove(m as int));
            assert(str_views(out@) =~= str_views(out_prev).push(x@));
            str_views(rem_prev).to_multiset_ensures();
            str_views(out_prev).to_multiset_ensures();
            assert(str_views(rem_prev).remove(m as int).to_multiset() =~= str_views(
                rem_prev,
            ).to_multiset().remove(x@));
            assert(str_views(out_prev).push(x@).to_multiset() =~= str_views(
                out_prev,
            ).to_multiset().insert(x@));
            assert(str_views(rem_prev).to_multiset().contains(x@));
            assert(str_views(out@).to_multiset().add(str_views(rem@).to_multiset()) =~= str_views(
                orig,
            ).to_multiset());
            assert forall|i: int, j: int|
                0 <= i < j < str_views(out@).len() implies #[trigger] lex_leq_fn()(
                str_views(out@)[i],
                str_views(out@)[j],
            ) by {
                if j < out_prev.len() {
                    assert(lex_leq_fn()(str_views(out_prev)[i], str_views(out_prev)[j]));
                } else {
                    assert(str_views(out@)[j] == x@);
                    assert(lex_leq(str_views(out_prev)[i], str_views(rem_prev)[m as int]));
                }
            }
            assert(vstd::relations::sorted_by(str_views(out@), lex_leq_fn()));
            assert forall|i: int, j: int|
                0 <= i < out@.len() && 0 <= j < rem@.len() implies lex_leq(
                #[trigger] str_views(out@)[i],
                #[trigger] str_views(rem@)[j],
            ) by {
                let jj = if j < m { j } else { j + 1 };
                assert(str_views(rem@)[j] == str_views(rem_prev)[jj]);
                if i < out_prev.len() {
                    assert(lex_leq(str_views(out_prev)[i], str_views(rem_prev)[jj]));
                } else {
                    assert(str_views(out@)[i] == x@);
                    assert(lex_leq(str_views(rem_prev)[m as int], str_views(rem_prev)[jj]));
                }
            }
        }
    }
    proof {
        assert(str_views(rem@) =~= Seq::<Seq<char>>::empty());
        assert(str_views(rem@).to_multiset() =~= Multiset::<Seq<char>>::empty());
        assert(str_views(out@).to_multiset() =~= str_views(orig).to_multiset()) by {
            broadcast use vstd::multiset::group_multiset_axioms;
        }
        lemma_lex_total_ordering();
        str_views(orig).lemma_sort_by_ensures(lex_leq_fn());
        vstd::seq_lib::lemma_sorted_unique(
            str_views(out@),
            str_views(orig).sort_by(lex_leq_fn()),
            lex_leq_fn(),
        );
        assert(str_views(out@) == str_views(orig).sort_by(lex_leq_fn()));
    }
    out
}

/// Membership in the fixed primitive set, by exact match.
pub fn is_primitive(ty: &str) -> (r: bool)
    ensures
        r == is_primitive_spec(ty@),
{
    str_eq(ty, "String") || str_eq(ty, "&str") || str_eq(ty, "f32") || str_eq(ty, "f64")
        || str_eq(ty, "i32") || str_eq(ty, "u32") || str_eq(ty, "i64") || str_eq(ty, "u64")
        || str_eq(ty, "i16") || str_eq(ty, "u16") || str_eq(ty, "i8") || str_eq(ty, "u8")
        || str_eq(ty, "usize") || str_eq(ty, "isize") || str_eq(ty, "bool")
}

} // verus!
