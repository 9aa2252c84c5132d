use vstd::prelude::*;

use vstd::multiset::Multiset;

use crate::strings::chars_of;

verus! {

/// The lowercase form of a name, as `str::to_lowercase` gives it.
pub uninterp spec fn lower_of(s: Seq<char>) -> Seq<char>;

/// Relies on `str::to_lowercase`: the result depends on the characters alone.
#[verifier::external_body]
pub(crate) fn lowercase(s: &str) -> (r: String)
    ensures
        r@ == lower_of(s@),
{
    s.to_lowercase()
}

/// Lexicographic order on character sequences by code point, the order of
/// `str`'s `Ord`.
pub open spec fn lex_le(a: Seq<char>, b: Seq<char>) -> bool
    decreases a.len(),
{
    if a.len() == 0 {
        true
    } else if b.len() == 0 {
        false
    } else if (a[0] as u32) < (b[0] as u32) {
        true
    } else if (a[0] as u32) > (b[0] as u32) {
        false
    } else {
        lex_le(a.drop_first(), b.drop_first())
    }
}

proof fn lemma_lex_total(a: Seq<char>, b: Seq<char>)
    ensures
        lex_le(a, b) || lex_le(b, a),
    decreases a.len(),
{
    if a.len() > 0 && b.len() > 0 {
        lemma_lex_total(a.drop_first(), b.drop_first());
    }
}

proof fn lemma_lex_trans(a: Seq<char>, b: Seq<char>, c: Seq<char>)
    requires
        lex_le(a, b),
        lex_le(b, c),
    ensures
        lex_le(a, c),
    decreases a.len(),
{
    if a.len() > 0 && b.len() > 0 && c.len() > 0 && (a[0] as u32) == (b[0] as u32) && (b[0] as u32)
        == (c[0] as u32) {
        lemma_lex_trans(a.drop_first(), b.drop_first(), c.drop_first());
    }
}

/// Holds when the names are in ascending order of their lowercase forms.
pub open spec fn sorted_by_folded_name(names: Seq<String>) -> bool {
    forall|i: int, j: int|
        0 <= i < j < names.len() ==> lex_le(lower_of(#[trigger] names[i]@), lower_of(#[trigger] names[j]@))
}

fn lex_le_exec(a: &Vec<char>, b: &Vec<char>) -> (r: bool)
    ensures
        r == lex_le(a@, b@),
{
    let mut i: usize = 0;
    assert(a@.skip(0) == a@);
    assert(b@.skip(0) == b@);
    while i < a.len() && i < b.len()
        invariant
            i <= a@.len(),
            i <= b@.len(),
            lex_le(a@, b@) == lex_le(a@.skip(i as int), b@.skip(i as int)),
        decreases a@.len() - i,
    {
        let x = a[i] as u32;
        let y = b[i] as u32;
        assert(a@.skip(i as int)[0] == a@[i as int]);
        assert(b@.skip(i as int)[0] == b@[i as int]);
        if x < y {
            return true;
        }
        if x > y {
            return false;
        }
        assert(a@.skip(i as int).drop_first() == a@.skip(i + 1));
        assert(b@.skip(i as int).drop_first() == b@.skip(i + 1));
        i = i + 1;
    }
    i == a.len()
}

/// Sorts `(key, name)` pairs into ascending order of their keys; pairs with
/// equal keys may come out in any order.
pub fn sort_by_folded(keyed: Vec<(String, String)>) -> (r: Vec<(String, String)>)
    ensures
        r@.to_multiset() == keyed@.to_multiset(),
        forall|i: int, j: int| 0 <= i < j < r@.len() ==> lex_le(#[trigger] r@[i].0@, #[trigger] r@[j].0@),
{
    broadcast use vstd::seq_lib::group_to_multiset_ensures;

    let mut rest = keyed;
    let mut sorted: Vec<(String, String)> = Vec::new();
    let mut keys: Vec<Vec<char>> = Vec::new();
    while rest.len() > 0
        invariant
            sorted@.len() == keys@.len(),
            forall|k: int| 0 <= k < keys@.len() ==> #[trigger] keys@[k]@ == sorted@[k].0@,
            forall|i: int, j: int|
                0 <= i < j < keys@.len() ==> lex_le(#[trigger] keys@[i]@, #[trigger] keys@[j]@),
            sorted@.to_multiset().add(rest@.to_multiset()) == keyed@.to_multiset(),
        decreases rest@.len(),
    {
        let ghost rest_before = rest@;
        let e = rest.remove(rest.len() - 1);
        assert(rest_before == rest@.push(e));
        let key = chars_of(e.0.as_str());
        let mut j: usize = 0;
        while j < keys.len()
            invariant
                j <= keys@.len(),
                forall|t: int| 0 <= t < j ==> lex_le(#[trigger] keys@[t]@, key@),
            ensures
                j <= keys@.len(),
                forall|t: int| 0 <= t < j ==> lex_le(#[trigger] keys@[t]@, key@),
                j < keys@.len() ==> !lex_le(keys@[j as int]@, key@),
            decreases keys@.len() - j,
        {
            if !lex_le_exec(&keys[j], &key) {
                break;
            }
            j = j + 1;
        }
        proof {
            if j < keys@.len() {
                lemma_lex_total(keys@[j as int]@, key@);
                assert forall|t: int| j <= t < keys@.len() implies lex_le(key@, #[trigger] keys@[t]@) by {
                    if t > j {
                        lemma_lex_trans(key@, keys@[j as int]@, keys@[t]@);
                    }
                }
            }
        }
        let ghost old_sorted = sorted@;
        let ghost old_keys = keys@;
        sorted.insert(j, e);
        keys.insert(j, key);
        proof {
            old_sorted.insert_ensures(j as int, e);
            assert(sorted@ == old_sorted.insert(j as int, e));
            assert(keys@ == old_keys.insert(j as int, key));
            assert forall|k: int| 0 <= k < keys@.len() implies #[trigger] keys@[k]@ == sorted@[k].0@ by {
                if k < j {
                    assert(keys@[k] == old_keys[k]);
                } else if k > j {
                    assert(keys@[k] == old_keys[k - 1]);
                }
            }
            assert forall|a: int, b: int| 0 <= a < b < keys@.len() implies lex_le(
                #[trigger] keys@[a]@,
                #[trigger] keys@[b]@,
            ) by {
                if b < j {
                    assert(keys@[a] == old_keys[a] && keys@[b] == old_keys[b]);
                } else if b == j {
                    assert(keys@[a] == old_keys[a]);
                } else if a == j {
                    assert(keys@[b] == old_keys[b - 1]);
                } else if a < j {
                    assert(keys@[a] == old_keys[a] && keys@[b] == old_keys[b - 1]);
                    lemma_lex_trans(old_keys[a]@, key@, old_keys[b - 1]@);
                } else {
                    assert(keys@[a] == old_keys[a - 1] && keys@[b] == old_keys[b - 1]);
                }
            }
            let pre = old_sorted.subrange(0, j as int);
            let post = old_sorted.subrange(j as int, old_sorted.len() as int);
            assert(old_sorted == pre + post);
            vstd::seq_lib::lemma_multiset_commutative(pre, post);
            vstd::seq_lib::lemma_multiset_commutative(pre.push(e), post);
            assert(sorted@ == pre.push(e) + post);
            pre.to_multiset_ensures();
            rest@.to_multiset_ensures();
            assert(pre.push(e).to_multiset() =~= pre.to_multiset().insert(e));
            assert(rest_before.to_multiset() =~= rest@.to_multiset().insert(e));
            assert(sorted@.to_multiset() =~= pre.to_multiset().insert(e).add(post.to_multiset()));
            assert(sorted@.to_multiset() =~= old_sorted.to_multiset().insert(e));
            assert(sorted@.to_multiset().add(rest@.to_multiset()) =~= old_sorted.to_multiset().add(
                rest_before.to_multiset(),
            ));
        }
    }
    assert(rest@.to_multiset() =~= Multiset::empty());
    assert(sorted@.to_multiset().add(rest@.to_multiset()) =~= sorted@.to_multiset());
    assert forall|i: int, j: int| 0 <= i < j < sorted@.len() implies lex_le(
        #[trigger] sorted@[i].0@,
        #[trigger] sorted@[j].0@,
    ) by {
        assert(lex_le(keys@[i]@, keys@[j]@));
    }
    sorted
}


/// The names of `(key, name)` pairs.
pub open spec fn names_of(keyed: Seq<(String, String)>) -> Seq<String> {
    keyed.map_values(|p: (String, String)| p.1)
}

proof fn lemma_names_permutation(a: Seq<(String, String)>, b: Seq<(String, String)>)
    requires
        a.to_multiset() == b.to_multiset(),
    ensures
        names_of(a).to_multiset() == names_of(b).to_multiset(),
    decreases a.len(),
{
    broadcast use vstd::seq_lib::group_to_multiset_ensures;

    a.to_multiset_ensures();
    b.to_multiset_ensures();
    if a.len() == 0 {
        assert(b.len() == 0);
        assert(names_of(a) =~= names_of(b));
    } else {
        let x = a.last();
        let a2 = a.drop_last();
        assert(a == a2.push(x));
        assert(b.to_multiset().count(x) > 0);
        assert(b.contains(x));
        let p = choose|p: int| 0 <= p < b.len() && b[p] == x;
        let b2 = b.remove(p);
        assert(a2.to_multiset() =~= a.to_multiset().remove(x));
        assert(b2.to_multiset() =~= b.to_multiset().remove(x));
        lemma_names_permutation(a2, b2);
        assert(names_of(a) =~= names_of(a2).push(x.1));
        assert(names_of(b2) =~= names_of(b).remove(p));
        assert(names_of(b)[p] == x.1);
        let mb = names_of(b).to_multiset();
        assert(mb.count(x.1) > 0) by {
            assert(names_of(b).contains(x.1));
        }
        assert(names_of(b2).to_multiset() =~= mb.remove(x.1));
        assert(names_of(a).to_multiset() =~= names_of(a2).to_multiset().insert(x.1));
        assert(mb.remove(x.1).insert(x.1) =~= mb);
    }
}

/// The candidate names in ascending order of their lowercase forms.
pub fn sort_candidates(entries: Vec<String>) -> (r: Vec<String>)
    ensures
        r@.to_multiset() == entries@.to_multiset(),
        sorted_by_folded_name(r@),
{
    broadcast use vstd::seq_lib::group_to_multiset_ensures;

    let mut rest = entries;
    let mut keyed: Vec<(String, String)> = Vec::new();
    while rest.len() > 0
        invariant
            forall|k: int| 0 <= k < keyed@.len() ==> #[trigger] keyed@[k].0@ == lower_of(keyed@[k].1@),
            names_of(keyed@).to_multiset().add(rest@.to_multiset()) == entries@.to_multiset(),
        decreases rest@.len(),
    {
        let ghost rest_before = rest@;
        let ghost keyed_before = keyed@;
        let e = rest.remove(rest.len() - 1);
        assert(rest_before == rest@.push(e));
        let low = lowercase(e.as_str());
        keyed.push((low, e));
        proof {
            assert(names_of(keyed@) =~= names_of(keyed_before).push(e));
            names_of(keyed_before).to_multiset_ensures();
            rest@.to_multiset_ensures();
            assert(names_of(keyed@).to_multiset() =~= names_of(keyed_before).to_multiset().insert(e));
            assert(rest_before.to_multiset() =~= rest@.to_multiset().insert(e));
            assert(names_of(keyed@).to_multiset().add(rest@.to_multiset()) =~= names_of(
                keyed_before,
            ).to_multiset().add(rest_before.to_multiset()));
        }
    }
    assert(names_of(keyed@).to_multiset() =~= entries@.to_multiset());
    let sorted = sort_by_folded(keyed);
    proof {
        lemma_names_permutation(sorted@, keyed@);
        assert forall|k: int| 0 <= k < sorted@.len() implies #[trigger] sorted@[k].0@ == lower_of(
            sorted@[k].1@,
        ) by {
            assert(sorted@.to_multiset().count(sorted@[k]) > 0);
            assert(keyed@.contains(sorted@[k]));
        }
    }
    let mut out: Vec<String> = Vec::new();
    let mut k: usize = 0;
    while k < sorted.len()
        invariant
            k <= sorted@.len(),
            out@ == names_of(sorted@).take(k as int),
        decreases sorted@.len() - k,
    {
        out.push(sorted[k].1.clone());
        assert(names_of(sorted@).take(k + 1) =~= names_of(sorted@).take(k as int).push(sorted@[k as int].1));
        k = k + 1;
    }
    assert(out@ =~= names_of(sorted@));
    assert forall|i: int, j: int| 0 <= i < j < out@.len() implies lex_le(
        lower_of(#[trigger] out@[i]@),
        lower_of(#[trigger] out@[j]@),
    ) by {
        assert(lex_le(sorted@[i].0@, sorted@[j].0@));
        assert(sorted@[i].0@ == lower_of(sorted@[i].1@));
        assert(sorted@[j].0@ == lower_of(sorted@[j].1@));
    }
    out
}

} // verus!
