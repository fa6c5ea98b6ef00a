//! The order of names: by the bytes of their UTF-8 form, first difference
//! first.

use vstd::prelude::*;
use vstd::relations::sorted_by;
use vstd::relations::total_ordering;
use vstd::seq_lib::group_to_multiset_ensures;
use vstd::utf8::encode_utf8;

verus! {

/// Whether one row of bytes comes before another, or is the same.
pub open spec fn bytes_at_most(a: Seq<u8>, b: Seq<u8>) -> bool
    decreases a.len(),
{
    if a.len() == 0 {
        true
    } else if b.len() == 0 {
        false
    } else if a[0] != b[0] {
        a[0] < b[0]
    } else {
        bytes_at_most(a.drop_first(), b.drop_first())
    }
}

/// The order of names.
pub open spec fn name_order() -> spec_fn(Seq<char>, Seq<char>) -> bool {
    |a: Seq<char>, b: Seq<char>| bytes_at_most(encode_utf8(a), encode_utf8(b))
}

/// The texts of a list of names.
pub open spec fn texts(names: Seq<String>) -> Seq<Seq<char>> {
    names.map_values(|name: String| name@)
}

/// The names in order, each as often as it is given.
pub open spec fn in_order(names: Seq<Seq<char>>) -> Seq<Seq<char>> {
    names.sort_by(name_order())
}

proof fn lemma_bytes_reflexive(a: Seq<u8>)
    ensures
        bytes_at_most(a, a),
    decreases a.len(),
{
    if a.len() > 0 {
        lemma_bytes_reflexive(a.drop_first());
    }
}

proof fn lemma_bytes_antisymmetric(a: Seq<u8>, b: Seq<u8>)
    requires
        bytes_at_most(a, b),
        bytes_at_most(b, a),
    ensures
        a == b,
    decreases a.len(),
{
    if a.len() > 0 && b.len() > 0 {
        lemma_bytes_antisymmetric(a.drop_first(), b.drop_first());
        assert(a =~= seq![a[0]] + a.drop_first());
        assert(b =~= seq![b[0]] + b.drop_first());
    } else {
        assert(a =~= b);
    }
}

proof fn lemma_bytes_transitive(a: Seq<u8>, b: Seq<u8>, c: Seq<u8>)
    requires
        bytes_at_most(a, b),
        bytes_at_most(b, c),
    ensures
        bytes_at_most(a, c),
    decreases a.len(),
{
    if a.len() > 0 && b.len() > 0 && c.len() > 0 && a[0] == b[0] && b[0] == c[0] {
        lemma_bytes_transitive(a.drop_first(), b.drop_first(), c.drop_first());
    }
}

proof fn lemma_bytes_total(a: Seq<u8>, b: Seq<u8>)
    ensures
        bytes_at_most(a, b) || bytes_at_most(b, a),
    decreases a.len(),
{
    if a.len() > 0 && b.len() > 0 && a[0] == b[0] {
        lemma_bytes_total(a.drop_first(), b.drop_first());
    }
}

/// The order of names is total: any two names are in order one way or the
/// other, and both ways only if they are the same.
pub proof fn law_name_order_is_total()
    ensures
        total_ordering(name_order()),
{
    let order = name_order();
    assert forall|x: Seq<char>| #[trigger] order(x, x) by {
        lemma_bytes_reflexive(encode_utf8(x));
    }
    assert forall|x: Seq<char>, y: Seq<char>| #[trigger] order(x, y) && #[trigger] order(
        y,
        x,
    ) implies x == y by {
        lemma_bytes_antisymmetric(encode_utf8(x), encode_utf8(y));
        vstd::utf8::encode_utf8_decode_utf8(x);
        vstd::utf8::encode_utf8_decode_utf8(y);
    }
    assert forall|x: Seq<char>, y: Seq<char>, z: Seq<char>| #[trigger] order(x, y)
        && #[trigger] order(y, z) implies order(x, z) by {
        lemma_bytes_transitive(encode_utf8(x), encode_utf8(y), encode_utf8(z));
    }
    assert forall|x: Seq<char>, y: Seq<char>| #[trigger] order(x, y) || #[trigger] order(y, x) by {
        lemma_bytes_total(encode_utf8(x), encode_utf8(y));
    }
}

/// Names are in order if the UTF-8 form of the first is that of the second as
/// far as it goes, or has the smaller byte where they differ first.
pub proof fn law_names_are_compared_by_bytes(a: Seq<char>, b: Seq<char>)
    ensures
        ({
            let x = encode_utf8(a);
            let y = encode_utf8(b);
            name_order()(a, b) <==> exists|k: int|
                {
                    &&& 0 <= k <= x.len()
                    &&& k <= y.len()
                    &&& #[trigger] x.take(k) == y.take(k)
                    &&& k == x.len() || k < y.len() && x[k] < y[k]
                }
        }),
{
    lemma_bytes_at_most(encode_utf8(a), encode_utf8(b));
}

proof fn lemma_bytes_at_most(x: Seq<u8>, y: Seq<u8>)
    ensures
        bytes_at_most(x, y) <==> exists|k: int|
            {
                &&& 0 <= k <= x.len()
                &&& k <= y.len()
                &&& #[trigger] x.take(k) == y.take(k)
                &&& k == x.len() || k < y.len() && x[k] < y[k]
            },
    decreases x.len(),
{
    if x.len() == 0 || y.len() == 0 || x[0] != y[0] {
        assert(x.take(0) =~= y.take(0));
        if exists|k: int|
            {
                &&& 0 <= k <= x.len()
                &&& k <= y.len()
                &&& #[trigger] x.take(k) == y.take(k)
                &&& k == x.len() || k < y.len() && x[k] < y[k]
            } {
            let k = choose|k: int|
                {
                    &&& 0 <= k <= x.len()
                    &&& k <= y.len()
                    &&& #[trigger] x.take(k) == y.take(k)
                    &&& k == x.len() || k < y.len() && x[k] < y[k]
                };
            if k > 0 {
                assert(x.take(k)[0] == y.take(k)[0]);
            }
        }
    } else {
        let p = x.drop_first();
        let q = y.drop_first();
        lemma_bytes_at_most(p, q);
        assert forall|k: int| 0 <= k <= p.len() && k <= q.len() implies (#[trigger] p.take(k)
            == q.take(k) <==> x.take(k + 1) == y.take(k + 1)) by {
            assert(x.take(k + 1) =~= seq![x[0]] + p.take(k));
            assert(y.take(k + 1) =~= seq![y[0]] + q.take(k));
            assert(p.take(k) =~= x.take(k + 1).drop_first());
            assert(q.take(k) =~= y.take(k + 1).drop_first());
        }
        if bytes_at_most(p, q) {
            let k = choose|k: int|
                {
                    &&& 0 <= k <= p.len()
                    &&& k <= q.len()
                    &&& #[trigger] p.take(k) == q.take(k)
                    &&& k == p.len() || k < q.len() && p[k] < q[k]
                };
            assert(x.take(k + 1) == y.take(k + 1));
        }
        if exists|k: int|
            {
                &&& 0 <= k <= x.len()
                &&& k <= y.len()
                &&& #[trigger] x.take(k) == y.take(k)
                &&& k == x.len() || k < y.len() && x[k] < y[k]
            } {
            let k = choose|k: int|
                {
                    &&& 0 <= k <= x.len()
                    &&& k <= y.len()
                    &&& #[trigger] x.take(k) == y.take(k)
                    &&& k == x.len() || k < y.len() && x[k] < y[k]
                };
            assert(p.take(k - 1) == q.take(k - 1));
        }
    }
}

/// The names in order are the given names, each as often as it is given, every
/// one before those that come after it in the order of names; and no other
/// list is.
pub proof fn law_in_order(names: Seq<Seq<char>>, other: Seq<Seq<char>>)
    ensures
        sorted_by(in_order(names), name_order()),
        in_order(names).to_multiset() == names.to_multiset(),
        sorted_by(other, name_order()) && other.to_multiset() == names.to_multiset() ==> other
            == in_order(names),
{
    law_name_order_is_total();
    names.lemma_sort_by_ensures(name_order());
    if sorted_by(other, name_order()) && other.to_multiset() == names.to_multiset() {
        vstd::seq_lib::lemma_sorted_unique(other, in_order(names), name_order());
    }
}

/// Whether a name comes before another, or is the same.
pub fn at_most(a: &str, b: &str) -> (r: bool)
    ensures
        r == name_order()(a@, b@),
{
    let left = a.as_bytes();
    let right = b.as_bytes();
    let mut i: usize = 0;
    assert(left@.skip(0) =~= left@);
    assert(right@.skip(0) =~= right@);
    while i < left.len() && i < right.len() && left[i] == right[i]
        invariant
            i <= left.len(),
            i <= right.len(),
            bytes_at_most(left@, right@) == bytes_at_most(
                left@.skip(i as int),
                right@.skip(i as int),
            ),
        decreases left.len() - i,
    {
        assert(left@.skip(i as int).drop_first() =~= left@.skip(i + 1));
        assert(right@.skip(i as int).drop_first() =~= right@.skip(i + 1));
        i = i + 1;
    }
    if i == left.len() {
        true
    } else if i == right.len() {
        false
    } else {
        left[i] < right[i]
    }
}

/// Whether every name of the first list is in order before every name of the
/// second.
spec fn all_before(a: Seq<Seq<char>>, b: Seq<Seq<char>>) -> bool {
    forall|i: int, j: int|
        0 <= i < a.len() && 0 <= j < b.len() ==> name_order()(#[trigger] a[i], #[trigger] b[j])
}

/// Whether a list of names is in order from its end to its start.
spec fn falls(names: Seq<Seq<char>>) -> bool {
    forall|i: int, j: int|
        0 <= i < j < names.len() ==> name_order()(#[trigger] names[j], #[trigger] names[i])
}

/// Whether a list of names is in order from its start to its end.
spec fn rises(names: Seq<Seq<char>>) -> bool {
    forall|i: int, j: int|
        0 <= i < j < names.len() ==> name_order()(#[trigger] names[i], #[trigger] names[j])
}

/// The greatest name of two sorted lists moves to the end of a falling list
/// that all their names stand before.
proof fn lemma_take_greatest(
    rest: Seq<Seq<char>>,
    name: Seq<char>,
    other: Seq<Seq<char>>,
    falling: Seq<Seq<char>>,
)
    requires
        rises(rest.push(name)),
        rises(other),
        falls(falling),
        all_before(rest.push(name), falling),
        all_before(other, falling),
        other.len() == 0 || name_order()(other.last(), name),
    ensures
        rises(rest),
        falls(falling.push(name)),
        all_before(rest, falling.push(name)),
        all_before(other, falling.push(name)),
{
    law_name_order_is_total();
    let longer = rest.push(name);
    assert forall|i: int| 0 <= i < rest.len() implies longer[i] == #[trigger] rest[i] by {}
    assert(longer[rest.len() as int] == name);
    assert forall|i: int| 0 <= i < other.len() implies name_order()(#[trigger] other[i], name) by {
        if i < other.len() - 1 {
            assert(name_order()(other[i], other[other.len() - 1]));
        }
    }
}

/// A name that moves from the end of one list to the end of another leaves the
/// names of both lists together unchanged.
proof fn lemma_move_last(from: Seq<Seq<char>>, to: Seq<Seq<char>>, name: Seq<char>)
    ensures
        from.push(name).to_multiset().add(to.to_multiset()) == from.to_multiset().add(
            to.push(name).to_multiset(),
        ),
{
    broadcast use group_to_multiset_ensures;

    assert(from.push(name).to_multiset().add(to.to_multiset()) =~= from.to_multiset().add(
        to.push(name).to_multiset(),
    ));
}

/// The names of two lists, greatest first.
fn merge_falling(left: Vec<String>, right: Vec<String>) -> (falling: Vec<String>)
    requires
        rises(texts(left@)),
        rises(texts(right@)),
    ensures
        falls(texts(falling@)),
        texts(falling@).to_multiset() == texts(left@).to_multiset().add(
            texts(right@).to_multiset(),
        ),
{
    broadcast use group_to_multiset_ensures;

    let ghost all = texts(left@).to_multiset().add(texts(right@).to_multiset());
    let mut left = left;
    let mut right = right;
    let mut falling: Vec<String> = Vec::new();
    assert(texts(falling@) =~= Seq::<Seq<char>>::empty());
    assert(all =~= all.add(texts(falling@).to_multiset()));
    while left.len() > 0 || right.len() > 0
        invariant
            rises(texts(left@)),
            rises(texts(right@)),
            falls(texts(falling@)),
            all_before(texts(left@), texts(falling@)),
            all_before(texts(right@), texts(falling@)),
            all == texts(left@).to_multiset().add(texts(right@).to_multiset()).add(
                texts(falling@).to_multiset(),
            ),
        decreases left.len() + right.len(),
    {
        let from_left = if left.len() == 0 {
            false
        } else if right.len() == 0 {
            true
        } else {
            at_most(right[right.len() - 1].as_str(), left[left.len() - 1].as_str())
        };
        let ghost l = texts(left@);
        let ghost r = texts(right@);
        let ghost f = texts(falling@);
        proof {
            law_name_order_is_total();
        }
        if from_left {
            let name = left.pop().unwrap();
            proof {
                assert(l =~= texts(left@).push(name@));
                lemma_take_greatest(texts(left@), name@, r, f);
                lemma_move_last(texts(left@), f, name@);
                assert(all =~= r.to_multiset().add(l.to_multiset().add(f.to_multiset())));
                assert(texts(falling@.push(name)) =~= f.push(name@));
            }
            falling.push(name);
        } else {
            let name = right.pop().unwrap();
            proof {
                assert(r =~= texts(right@).push(name@));
                lemma_take_greatest(texts(right@), name@, l, f);
                lemma_move_last(texts(right@), f, name@);
                assert(all =~= l.to_multiset().add(r.to_multiset().add(f.to_multiset())));
                assert(texts(falling@.push(name)) =~= f.push(name@));
            }
            falling.push(name);
        }
        assert(all =~= texts(left@).to_multiset().add(texts(right@).to_multiset()).add(
            texts(falling@).to_multiset(),
        ));
    }
    assert(texts(left@) =~= Seq::<Seq<char>>::empty());
    assert(texts(right@) =~= Seq::<Seq<char>>::empty());
    assert(all =~= texts(falling@).to_multiset());
    falling
}

/// A list of names back to front.
fn reversed(names: Vec<String>) -> (r: Vec<String>)
    ensures
        texts(r@) == texts(names@).reverse(),
{
    let ghost all = texts(names@);
    let mut names = names;
    let mut r: Vec<String> = Vec::new();
    while names.len() > 0
        invariant
            names.len() + r.len() == all.len(),
            forall|i: int| 0 <= i < names.len() ==> names@[i]@ == all[i],
            forall|i: int| 0 <= i < r.len() ==> #[trigger] r@[i]@ == all[all.len() - 1 - i],
        decreases names.len(),
    {
        let name = names.pop().unwrap();
        r.push(name);
    }
    assert(texts(r@) =~= all.reverse());
    r
}

/// The names in order, each as often as it is given.
pub fn sorted(names: Vec<String>) -> (r: Vec<String>)
    ensures
        texts(r@) == in_order(texts(names@)),
    decreases names.len(),
{
    let ghost all = texts(names@);
    let r = if names.len() < 2 {
        names
    } else {
        let mut left = names;
        let half = left.len() / 2;
        let right = left.split_off(half);
        assert(all =~= texts(left@) + texts(right@));
        proof {
            vstd::seq_lib::lemma_multiset_commutative(texts(left@), texts(right@));
            law_in_order(texts(left@), Seq::empty());
            law_in_order(texts(right@), Seq::empty());
        }
        let falling = merge_falling(sorted(left), sorted(right));
        proof {
            texts(falling@).lemma_reverse_to_multiset();
        }
        let r = reversed(falling);
        assert(rises(texts(r@)));
        assert(all.to_multiset() =~= texts(r@).to_multiset());
        r
    };
    proof {
        law_in_order(all, texts(r@));
    }
    r
}

} // verus!
