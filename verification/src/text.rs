//! Text utilities: joining strings and ordering them as `str`'s `Ord` does.

use vstd::prelude::*;

verus! {

/// The views of a sequence of strings.
pub open spec fn views(v: Seq<String>) -> Seq<Seq<char>> {
    v.map_values(|s: String| s@)
}

/// `parts` written one after another with `sep` between neighbours.
pub open spec fn join(parts: Seq<Seq<char>>, sep: Seq<char>) -> Seq<char>
    decreases parts.len(),
{
    if parts.len() == 0 {
        Seq::empty()
    } else if parts.len() == 1 {
        parts[0]
    } else {
        join(parts.drop_last(), sep) + sep + parts.last()
    }
}

/// Joins `parts` with `sep` between neighbours.
pub fn join_texts(parts: &Vec<String>, sep: &str) -> (r: String)
    ensures
        r@ == join(views(parts@), sep@),
{
    let mut r = String::new();
    let n = parts.len();
    let ghost all = views(parts@);
    let mut i: usize = 0;
    while i < n
        invariant
            n == parts.len(),
            i <= n,
            all == views(parts@),
            r@ == join(all.take(i as int), sep@),
        decreases n - i,
    {
        proof {
            assert(all.take(i + 1).drop_last() =~= all.take(i as int));
            assert(all.take(i + 1).last() == parts[i as int]@);
        }
        if i != 0 {
            r.append(sep);
        }
        r.append(parts[i].as_str());
        proof {
            if i == 0 {
                assert(r@ =~= all.take(1)[0]);
            }
        }
        i = i + 1;
    }
    proof {
        assert(all.take(n as int) =~= all);
    }
    r
}

/// `a` comes no later than `b` in lexicographic order of code points, which is the
/// order that `str`'s `Ord` gives (UTF-8 keeps the order of code points).
pub open spec fn text_le(a: Seq<char>, b: Seq<char>) -> bool
    decreases a.len(),
{
    if a.len() == 0 {
        true
    } else if b.len() == 0 {
        false
    } else if a[0] != b[0] {
        a[0] < b[0]
    } else {
        text_le(a.drop_first(), b.drop_first())
    }
}

/// Every element is no later than each element after it.
pub open spec fn texts_sorted(s: Seq<Seq<char>>) -> bool {
    forall|i: int, j: int| 0 <= i < j < s.len() ==> text_le(#[trigger] s[i], #[trigger] s[j])
}

/// Any two texts are ordered one way or the other.
pub proof fn lemma_text_le_total(a: Seq<char>, b: Seq<char>)
    ensures
        text_le(a, b) || text_le(b, a),
    decreases a.len(),
{
    if a.len() > 0 && b.len() > 0 && a[0] == b[0] {
        lemma_text_le_total(a.drop_first(), b.drop_first());
    }
}

/// Every text comes no later than itself.
pub proof fn lemma_text_le_reflexive(a: Seq<char>)
    ensures
        text_le(a, a),
    decreases a.len(),
{
    if a.len() > 0 {
        lemma_text_le_reflexive(a.drop_first());
    }
}

/// Texts ordered both ways are equal.
pub proof fn lemma_text_le_antisymmetric(a: Seq<char>, b: Seq<char>)
    requires
        text_le(a, b),
        text_le(b, a),
    ensures
        a == b,
    decreases a.len(),
{
    if a.len() == 0 {
        assert(b.len() == 0);
        assert(a =~= b);
    } else {
        assert(a[0] == b[0]);
        lemma_text_le_antisymmetric(a.drop_first(), b.drop_first());
        assert(a.len() == b.len());
        assert(a =~= b) by {
            assert forall|i: int| 0 <= i < a.len() implies a[i] == b[i] by {
                if i > 0 {
                    assert(a[i] == a.drop_first()[i - 1]);
                    assert(b[i] == b.drop_first()[i - 1]);
                }
            }
        }
    }
}

/// The order is transitive.
pub proof fn lemma_text_le_transitive(a: Seq<char>, b: Seq<char>, c: Seq<char>)
    requires
        text_le(a, b),
        text_le(b, c),
    ensures
        text_le(a, c),
    decreases a.len(),
{
    if a.len() > 0 && b.len() > 0 && c.len() > 0 && a[0] == b[0] && b[0] == c[0] {
        lemma_text_le_transitive(a.drop_first(), b.drop_first(), c.drop_first());
    }
}

proof fn lemma_text_le_step(a: Seq<char>, b: Seq<char>, i: int)
    requires
        0 <= i < a.len(),
        i < b.len(),
        a[i] == b[i],
    ensures
        text_le(a.skip(i), b.skip(i)) == text_le(a.skip(i + 1), b.skip(i + 1)),
{
    assert(a.skip(i).drop_first() =~= a.skip(i + 1));
    assert(b.skip(i).drop_first() =~= b.skip(i + 1));
}

/// The texts of `s` in ascending order.
pub open spec fn sorted_texts(s: Seq<Seq<char>>) -> Seq<Seq<char>> {
    choose|t: Seq<Seq<char>>| texts_sorted(t) && t.to_multiset() == s.to_multiset()
}

/// Two sorted sequences holding the same texts are the same sequence.
pub proof fn lemma_sorted_unique(a: Seq<Seq<char>>, b: Seq<Seq<char>>)
    requires
        texts_sorted(a),
        texts_sorted(b),
        a.to_multiset() == b.to_multiset(),
    ensures
        a == b,
    decreases a.len(),
{
    broadcast use vstd::seq_lib::group_to_multiset_ensures, vstd::multiset::group_multiset_axioms;
    a.to_multiset_ensures();
    b.to_multiset_ensures();
    if a.len() == 0 {
        assert(b.len() == 0);
        assert(a =~= b);
    } else {
        assert(b.len() == a.len());
        assert(a.to_multiset().count(a[0]) > 0);
        assert(b.contains(a[0]));
        let jb = choose|j: int| 0 <= j < b.len() && b[j] == a[0];
        assert(b.to_multiset().count(b[0]) > 0);
        assert(a.contains(b[0]));
        let ja = choose|j: int| 0 <= j < a.len() && a[j] == b[0];
        if jb > 0 {
            assert(text_le(b[0], b[jb]));
        }
        if ja > 0 {
            assert(text_le(a[0], a[ja]));
        }
        lemma_text_le_reflexive(a[0]);
        lemma_text_le_antisymmetric(a[0], b[0]);
        let a1 = a.drop_first();
        let b1 = b.drop_first();
        assert(a.remove(0) =~= a1);
        assert(b.remove(0) =~= b1);
        assert(a1.to_multiset() =~= b1.to_multiset());
        assert(texts_sorted(a1)) by {
            assert forall|i: int, j: int| 0 <= i < j < a1.len() implies text_le(#[trigger] a1[i], #[trigger] a1[j]) by {
                assert(a1[i] == a[i + 1] && a1[j] == a[j + 1]);
            }
        }
        assert(texts_sorted(b1)) by {
            assert forall|i: int, j: int| 0 <= i < j < b1.len() implies text_le(#[trigger] b1[i], #[trigger] b1[j]) by {
                assert(b1[i] == b[i + 1] && b1[j] == b[j + 1]);
            }
        }
        lemma_sorted_unique(a1, b1);
        assert(a =~= b) by {
            assert forall|i: int| 0 <= i < a.len() implies a[i] == b[i] by {
                if i > 0 {
                    assert(a[i] == a1[i - 1] && b[i] == b1[i - 1]);
                }
            }
        }
    }
}

/// Once some sequence sorts `s`, `sorted_texts(s)` is that sequence.
pub proof fn lemma_sorted_texts_is(s: Seq<Seq<char>>, t: Seq<Seq<char>>)
    requires
        texts_sorted(t),
        t.to_multiset() == s.to_multiset(),
    ensures
        sorted_texts(s) == t,
{
    let c = sorted_texts(s);
    assert(texts_sorted(c) && c.to_multiset() == s.to_multiset());
    lemma_sorted_unique(c, t);
}

/// Whether `a` comes no later than `b`.
pub fn text_le_exec(a: &str, b: &str) -> (r: bool)
    ensures
        r == text_le(a@, b@),
{
    let na = a.unicode_len();
    let nb = b.unicode_len();
    let mut i: usize = 0;
    proof {
        assert(a@.skip(0) =~= a@);
        assert(b@.skip(0) =~= b@);
    }
    while i < na && i < nb
        invariant
            na == a@.len(),
            nb == b@.len(),
            i <= na,
            i <= nb,
            text_le(a@, b@) == text_le(a@.skip(i as int), b@.skip(i as int)),
        decreases na - i,
    {
        let ca = a.get_char(i);
        let cb = b.get_char(i);
        if ca != cb {
            proof {
                assert(a@.skip(i as int)[0] == ca);
                assert(b@.skip(i as int)[0] == cb);
            }
            return ca < cb;
        }
        proof {
            lemma_text_le_step(a@, b@, i as int);
        }
        i = i + 1;
    }
    proof {
        assert(a@.skip(i as int).len() == 0 || b@.skip(i as int).len() == 0);
    }
    i == na
}

/// `items` in ascending order.
pub fn sort_texts(items: Vec<String>) -> (r: Vec<String>)
    ensures
        views(r@).to_multiset() == views(items@).to_multiset(),
        texts_sorted(views(r@)),
{
    broadcast use vstd::seq_lib::group_to_multiset_ensures, vstd::multiset::group_multiset_axioms;
    let ghost original = views(items@);
    let mut rest = items;
    let mut r: Vec<String> = Vec::new();
    proof {
        assert(views(r@) =~= Seq::<Seq<char>>::empty());
    }
    while rest.len() > 0
        invariant
            views(r@).to_multiset().add(views(rest@).to_multiset()) == original.to_multiset(),
            texts_sorted(views(r@)),
        decreases rest.len(),
    {
        let ghost before_rest = views(rest@);
        let ghost before_r = views(r@);
        let x = rest.pop().unwrap();
        proof {
            assert(before_rest =~= views(rest@).push(x@));
        }
        let mut pos: usize = 0;
        while pos < r.len() && text_le_exec(r[pos].as_str(), x.as_str())
            invariant
                pos <= r.len(),
                before_r == views(r@),
                forall|j: int| 0 <= j < pos ==> text_le(#[trigger] before_r[j], x@),
            decreases r.len() - pos,
        {
            pos = pos + 1;
        }
        let ghost xv = x@;
        r.insert(pos, x);
        proof {
            let now = views(r@);
            assert(now =~= before_r.insert(pos as int, xv));
            vstd::seq_lib::to_multiset_insert(before_r, pos as int, xv);
            assert forall|i: int, j: int| 0 <= i < j < now.len() implies text_le(#[trigger] now[i], #[trigger] now[j]) by {
                if pos < before_r.len() {
                    assert(!text_le(before_r[pos as int], xv));
                    lemma_text_le_total(before_r[pos as int], xv);
                }
                if j < pos {
                    assert(now[i] == before_r[i] && now[j] == before_r[j]);
                } else if j == pos {
                    assert(now[i] == before_r[i]);
                } else if i == pos {
                    assert(now[j] == before_r[j - 1]);
                    if j - 1 > pos {
                        assert(text_le(before_r[pos as int], before_r[j - 1]));
                        lemma_text_le_transitive(xv, before_r[pos as int], before_r[j - 1]);
                    }
                } else if i < pos {
                    assert(now[i] == before_r[i] && now[j] == before_r[j - 1]);
                } else {
                    assert(now[i] == before_r[i - 1] && now[j] == before_r[j - 1]);
                }
            }
            assert(before_rest == views(rest@).push(xv));
            views(rest@).to_multiset_ensures();
            assert(views(rest@).push(xv).to_multiset() =~= views(rest@).to_multiset().insert(xv));
            assert(now.to_multiset() =~= before_r.to_multiset().insert(xv));
            assert(views(r@).to_multiset().add(views(rest@).to_multiset()) =~= original.to_multiset());
        }
    }
    proof {
        assert(views(rest@) =~= Seq::<Seq<char>>::empty());
    }
    r
}

} // verus!
