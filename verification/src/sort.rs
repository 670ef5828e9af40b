//! Sorting strings in the order of `Ord for String` (code point by code
//! point, a prefix first).
use crate::text::string_of;

use vstd::prelude::*;

verus! {

/// `a` comes no later than `b` in lexicographic order of code points.
pub open spec fn lex_le(a: Seq<char>, b: Seq<char>) -> bool
    decreases a.len(),
{
    if a.len() == 0 {
        true
    } else if b.len() == 0 {
        false
    } else if a[0] != b[0] {
        (a[0] as u32) < (b[0] as u32)
    } else {
        lex_le(a.drop_first(), b.drop_first())
    }
}

proof fn lemma_char_u32_injective(a: char, b: char)
    requires
        (a as u32) == (b as u32),
    ensures
        a == b,
{
    vstd::utf8::char_u32_cast(a, a as u32);
    vstd::utf8::char_u32_cast(b, b as u32);
}

pub proof fn lemma_lex_refl(a: Seq<char>)
    ensures
        lex_le(a, a),
    decreases a.len(),
{
    if a.len() > 0 {
        lemma_lex_refl(a.drop_first());
    }
}

pub proof fn lemma_lex_total(a: Seq<char>, b: Seq<char>)
    ensures
        lex_le(a, b) || lex_le(b, a),
    decreases a.len(),
{
    if a.len() > 0 && b.len() > 0 && a[0] == b[0] {
        lemma_lex_total(a.drop_first(), b.drop_first());
    } else if a.len() > 0 && b.len() > 0 {
        if (a[0] as u32) == (b[0] as u32) {
            lemma_char_u32_injective(a[0], b[0]);
        }
    }
}

pub proof fn lemma_lex_antisym(a: Seq<char>, b: Seq<char>)
    requires
        lex_le(a, b),
        lex_le(b, a),
    ensures
        a == b,
    decreases a.len(),
{
    if a.len() > 0 && b.len() > 0 && a[0] == b[0] {
        lemma_lex_antisym(a.drop_first(), b.drop_first());
        assert(a =~= seq![a[0]] + a.drop_first());
        assert(b =~= seq![b[0]] + b.drop_first());
    } else if a.len() > 0 && b.len() > 0 {
        if (a[0] as u32) == (b[0] as u32) {
            lemma_char_u32_injective(a[0], b[0]);
        }
    }
}

pub proof fn lemma_lex_trans(a: Seq<char>, b: Seq<char>, c: Seq<char>)
    requires
        lex_le(a, b),
        lex_le(b, c),
    ensures
        lex_le(a, c),
    decreases a.len(),
{
    if a.len() > 0 && b.len() > 0 && c.len() > 0 && a[0] == b[0] && b[0] == c[0] {
        lemma_lex_trans(a.drop_first(), b.drop_first(), c.drop_first());
    } else if a.len() > 0 && b.len() > 0 && c.len() > 0 {
        if (a[0] as u32) == (c[0] as u32) {
            lemma_char_u32_injective(a[0], c[0]);
        }
    }
}

/// The sequence is in nondecreasing lexicographic order.
pub open spec fn sorted(s: Seq<Seq<char>>) -> bool {
    forall|i: int, j: int| 0 <= i < j < s.len() ==> lex_le(#[trigger] s[i], #[trigger] s[j])
}

/// The character vectors, by value.
pub open spec fn vviews(v: Seq<Vec<char>>) -> Seq<Seq<char>> {
    v.map_values(|x: Vec<char>| x@)
}

/// The strings, by value.
pub open spec fn sviews(v: Seq<String>) -> Seq<Seq<char>> {
    v.map_values(|x: String| x@)
}

/// Whether `a` comes no later than `b`.
pub fn lex_le_exec(a: &Vec<char>, b: &Vec<char>) -> (r: bool)
    ensures
        r == lex_le(a@, b@),
{
    let mut i: usize = 0;
    assert(a@.skip(0) =~= a@);
    assert(b@.skip(0) =~= b@);
    while i < a.len() && i < b.len() && a[i] == b[i]
        invariant
            i <= a.len(),
            i <= b.len(),
            lex_le(a@, b@) == lex_le(a@.skip(i as int), b@.skip(i as int)),
        decreases a.len() - i,
    {
        assert(a@.skip(i as int).drop_first() =~= a@.skip(i + 1));
        assert(b@.skip(i as int).drop_first() =~= b@.skip(i + 1));
        i += 1;
    }
    if i == a.len() {
        true
    } else if i == b.len() {
        false
    } else {
        (a[i] as u32) < (b[i] as u32)
    }
}

proof fn lemma_insert_multiset(s: Seq<Seq<char>>, pos: int, x: Seq<char>)
    requires
        0 <= pos <= s.len(),
    ensures
        s.insert(pos, x).to_multiset() =~= s.to_multiset().insert(x),
{
    broadcast use vstd::seq_lib::group_to_multiset_ensures;
    broadcast use vstd::multiset::group_multiset_axioms;
    let t = s.insert(pos, x);
    assert(t.remove(pos) =~= s);
    assert(t[pos] == x);
    assert(t.remove(pos).to_multiset() =~= t.to_multiset().remove(x));
    assert(t.contains(x));
}

/// The strings of `v` in sorted order.
pub fn sort_strings(v: &Vec<Vec<char>>) -> (r: Vec<String>)
    ensures
        sorted(sviews(r@)),
        sviews(r@).to_multiset() == vviews(v@).to_multiset(),
{
    let mut acc: Vec<Vec<char>> = Vec::new();
    let mut i: usize = 0;
    broadcast use vstd::seq_lib::group_to_multiset_ensures;
    assert(vviews(v@).take(0) =~= Seq::<Seq<char>>::empty());
    assert(vviews(acc@) =~= Seq::<Seq<char>>::empty());
    while i < v.len()
        invariant
            i <= v@.len(),
            sorted(vviews(acc@)),
            vviews(acc@).to_multiset() == vviews(v@).take(i as int).to_multiset(),
        decreases v@.len() - i,
    {
        let x = v[i].clone();
        assert(x@ == v@[i as int]@);
        let mut pos: usize = 0;
        while pos < acc.len() && lex_le_exec(&acc[pos], &x)
            invariant
                pos <= acc@.len(),
                forall|j: int| 0 <= j < pos ==> lex_le(#[trigger] vviews(acc@)[j], x@),
            decreases acc@.len() - pos,
        {
            pos += 1;
        }
        let ghost before = vviews(acc@);
        acc.insert(pos, x);
        proof {
            let after = vviews(acc@);
            assert(after =~= before.insert(pos as int, x@));
            lemma_insert_multiset(before, pos as int, x@);
            assert(vviews(v@).take(i + 1) =~= vviews(v@).take(i as int).push(x@));
            vviews(v@).take(i as int).to_multiset_ensures();
            assert(vviews(v@).take(i + 1).to_multiset() =~= vviews(v@).take(i as int).to_multiset().insert(x@));
            if pos < before.len() {
                lemma_lex_total(before[pos as int], x@);
            }
            assert forall|a: int, b: int| 0 <= a < b < after.len() implies lex_le(
                #[trigger] after[a],
                #[trigger] after[b],
            ) by {
                if b < pos {
                } else if b == pos {
                } else if a < pos {
                    // after[b] == before[b - 1], which is no earlier than before[pos]
                    if b - 1 > pos {
                        assert(lex_le(before[pos as int], before[b - 1]));
                    } else {
                        lemma_lex_refl(before[pos as int]);
                    }
                    lemma_lex_trans(after[a], x@, before[pos as int]);
                    lemma_lex_trans(after[a], before[pos as int], after[b]);
                } else if a == pos {
                    if b - 1 > pos {
                        assert(lex_le(before[pos as int], before[b - 1]));
                        lemma_lex_trans(x@, before[pos as int], before[b - 1]);
                    }
                } else {
                }
            }
        }
        i += 1;
    }
    assert(vviews(v@).take(v@.len() as int) =~= vviews(v@));
    let mut r: Vec<String> = Vec::new();
    let mut k: usize = 0;
    while k < acc.len()
        invariant
            k <= acc@.len(),
            sviews(r@) == vviews(acc@).take(k as int),
        decreases acc@.len() - k,
    {
        let sk = string_of(&acc[k]);
        let ghost prev = r@;
        r.push(sk);
        assert(r@ =~= prev.push(sk));
        assert(sviews(r@) =~= sviews(prev).push(sk@));
        k += 1;
        assert(sviews(r@) =~= vviews(acc@).take(k as int));
    }
    assert(vviews(acc@).take(acc@.len() as int) =~= vviews(acc@));
    r
}

} // verus!
