//! Sequences: batches, stable ordering, first and last positions.

use vstd::prelude::*;

verus! {

// ---------------------------------------------------------------------------------------------
// Batches

/// `s` cut into pieces of `n`, the last of which may be shorter.
pub open spec fn batches<T>(s: Seq<T>, n: int) -> Seq<Seq<T>>
    decreases s.len(),
{
    if s.len() == 0 || n <= 0 {
        Seq::empty()
    } else if s.len() <= n {
        seq![s]
    } else {
        seq![s.take(n)] + batches(s.skip(n), n)
    }
}

/// The contents of the inner vectors.
pub open spec fn inner<T>(v: Seq<Vec<T>>) -> Seq<Seq<T>> {
    Seq::new(v.len(), |i: int| v[i]@)
}

/// The contents of an optional vector.
pub open spec fn contents<T>(v: Option<Vec<T>>) -> Option<Seq<T>> {
    match v {
        Some(x) => Some(x@),
        None => None,
    }
}

/// The same items once more.
pub fn copied<T: Copy>(v: &Vec<T>) -> (r: Vec<T>)
    ensures
        r@ == v@,
{
    let mut out: Vec<T> = Vec::new();
    let mut i: usize = 0;
    while i < v.len()
        invariant
            i <= v.len(),
            out@ == v@.take(i as int),
        decreases v.len() - i,
    {
        out.push(v[i]);
        i = i + 1;
        assert(out@ =~= v@.take(i as int));
    }
    assert(out@ =~= v@);
    out
}

/// Cuts `v` into batches of at most `n` items, in order.
pub fn in_batches<T: Copy>(v: &Vec<T>, n: usize) -> (r: Vec<Vec<T>>)
    requires
        n > 0,
    ensures
        inner(r@) == batches(v@, n as int),
{
    let mut out: Vec<Vec<T>> = Vec::new();
    let mut i: usize = 0;
    assert(v@.skip(0) =~= v@);
    assert(inner(out@) + batches(v@, n as int) =~= batches(v@, n as int));
    while i < v.len()
        invariant
            n > 0,
            i <= v.len(),
            inner(out@) + batches(v@.skip(i as int), n as int) == batches(v@, n as int),
        decreases v.len() - i,
    {
        let ghost rest = v@.skip(i as int);
        let ghost before = out@;
        let left: usize = v.len() - i;
        let size: usize = if left < n {
            left
        } else {
            n
        };
        let mut piece: Vec<T> = Vec::new();
        let mut k: usize = 0;
        while k < size
            invariant
                k <= size,
                i + size <= v.len(),
                piece@ == v@.subrange(i as int, i + k),
            decreases size - k,
        {
            piece.push(v[i + k]);
            k = k + 1;
            assert(piece@ =~= v@.subrange(i as int, i + k));
        }
        assert(piece@ =~= rest.take(size as int));
        out.push(piece);
        assert(inner(out@) =~= inner(before).push(rest.take(size as int)));
        assert(v@.skip(i + size) =~= rest.skip(size as int));
        proof {
            if rest.len() <= n {
                assert(rest.take(size as int) =~= rest);
                assert(batches(rest.skip(size as int), n as int) =~= Seq::empty());
            }
            assert(batches(rest, n as int) =~= seq![rest.take(size as int)] + batches(
                rest.skip(size as int),
                n as int,
            ));
        }
        assert(inner(out@) + batches(rest.skip(size as int), n as int) =~= inner(before) + batches(
            rest,
            n as int,
        ));
        i = i + size;
    }
    assert(batches(v@.skip(i as int), n as int) =~= Seq::empty());
    assert(inner(out@) =~= batches(v@, n as int));
    out
}

/// The batches hold every item once and in order, none of them is empty and none holds more than
/// `n` items.
pub proof fn law_batches_lose_nothing<T>(s: Seq<T>, n: int)
    requires
        n > 0,
    ensures
        batches(s, n).flatten() == s,
        forall|k: int|
            0 <= k < batches(s, n).len() ==> 0 < (#[trigger] batches(s, n)[k]).len() <= n,
    decreases s.len(),
{
    let b = batches(s, n);
    if s.len() == 0 {
        assert(b.flatten() =~= s);
    } else if s.len() <= n {
        assert(b =~= seq![s]);
        b.lemma_flatten_one_element();
    } else {
        law_batches_lose_nothing(s.skip(n), n);
        let tail = batches(s.skip(n), n);
        assert(b.first() == s.take(n));
        assert(b.drop_first() =~= tail);
        assert(b.flatten() =~= s.take(n) + tail.flatten());
        assert(s.take(n) + s.skip(n) =~= s);
        assert forall|k: int| 0 <= k < b.len() implies 0 < (#[trigger] b[k]).len() <= n by {
            if k > 0 {
                assert(b[k] == tail[k - 1]);
            }
        }
    }
}

/// Every batch but the last is full.
pub proof fn law_batches_are_full<T>(s: Seq<T>, n: int, k: int)
    requires
        n > 0,
        0 <= k < batches(s, n).len() - 1,
    ensures
        batches(s, n)[k].len() == n,
    decreases s.len(),
{
    if s.len() > n {
        if k > 0 {
            law_batches_are_full(s.skip(n), n, k - 1);
        }
    }
}

/// An item of a piece is among the items of all pieces.
pub proof fn lemma_in_flatten<T>(pieces: Seq<Seq<T>>, k: int, j: int)
    requires
        0 <= k < pieces.len(),
        0 <= j < pieces[k].len(),
    ensures
        pieces.flatten().contains(pieces[k][j]),
    decreases pieces.len(),
{
    let tail = pieces.drop_first();
    let all = pieces.flatten();
    assert(all =~= pieces.first() + tail.flatten());
    if k == 0 {
        assert(all[j] == pieces[0][j]);
    } else {
        lemma_in_flatten(tail, k - 1, j);
        let m = choose|m: int|
            0 <= m < tail.flatten().len() && tail.flatten()[m] == tail[k - 1][j];
        assert(all[pieces.first().len() + m] == pieces[k][j]);
    }
}

/// An item among those of all pieces is an item of some piece.
pub proof fn lemma_from_flatten<T>(pieces: Seq<Seq<T>>, i: int) -> (r: (int, int))
    requires
        0 <= i < pieces.flatten().len(),
    ensures
        0 <= r.0 < pieces.len(),
        0 <= r.1 < pieces[r.0].len(),
        pieces[r.0][r.1] == pieces.flatten()[i],
    decreases pieces.len(),
{
    let tail = pieces.drop_first();
    let all = pieces.flatten();
    assert(all =~= pieces.first() + tail.flatten());
    if i < pieces.first().len() {
        (0, i)
    } else {
        let r = lemma_from_flatten(tail, i - pieces.first().len());
        assert(pieces[r.0 + 1] == tail[r.0]);
        (r.0 + 1, r.1)
    }
}

/// Items of all pieces come in the order of the pieces, and within a piece in its order.
pub proof fn lemma_flatten_in_order<T>(pieces: Seq<Seq<T>>, i: int, j: int) -> (r: (
    (int, int),
    (int, int),
))
    requires
        0 <= i < j < pieces.flatten().len(),
    ensures
        ({
            let ((a, x), (b, y)) = r;
            &&& 0 <= a < pieces.len() && 0 <= x < pieces[a].len()
            &&& 0 <= b < pieces.len() && 0 <= y < pieces[b].len()
            &&& pieces[a][x] == pieces.flatten()[i]
            &&& pieces[b][y] == pieces.flatten()[j]
            &&& a < b || a == b && x < y
        }),
    decreases pieces.len(),
{
    let tail = pieces.drop_first();
    let all = pieces.flatten();
    let first = pieces.first();
    assert(all =~= first + tail.flatten());
    if j < first.len() {
        ((0, i), (0, j))
    } else if i < first.len() {
        let (b, y) = lemma_from_flatten(tail, j - first.len());
        assert(pieces[b + 1] == tail[b]);
        ((0, i), (b + 1, y))
    } else {
        let ((a, x), (b, y)) = lemma_flatten_in_order(tail, i - first.len(), j - first.len());
        assert(pieces[a + 1] == tail[a]);
        assert(pieces[b + 1] == tail[b]);
        ((a + 1, x), (b + 1, y))
    }
}

// ---------------------------------------------------------------------------------------------
// Positions

/// The first position from `from` on, below `n`, at which `p` holds.
pub open spec fn first_where(p: spec_fn(int) -> bool, from: int, n: int) -> Option<int>
    decreases n - from,
{
    if from >= n {
        None
    } else if p(from) {
        Some(from)
    } else {
        first_where(p, from + 1, n)
    }
}

/// The last position below `n` at which `p` holds.
pub open spec fn last_where(p: spec_fn(int) -> bool, n: int) -> Option<int>
    decreases n,
{
    if n <= 0 {
        None
    } else if p(n - 1) {
        Some(n - 1)
    } else {
        last_where(p, n - 1)
    }
}

/// The first position at which a predicate holds: it holds there and nowhere before.
pub proof fn lemma_first_where(p: spec_fn(int) -> bool, from: int, n: int)
    ensures
        match first_where(p, from, n) {
            Some(i) => from <= i < n && p(i) && forall|j: int| from <= j < i ==> !#[trigger] p(j),
            None => forall|j: int| from <= j < n ==> !#[trigger] p(j),
        },
    decreases n - from,
{
    if from < n && !p(from) {
        lemma_first_where(p, from + 1, n);
    }
}

/// The last position at which a predicate holds: it holds there and nowhere behind.
pub proof fn lemma_last_where(p: spec_fn(int) -> bool, n: int)
    ensures
        match last_where(p, n) {
            Some(i) => 0 <= i < n && p(i) && forall|j: int| i < j < n ==> !#[trigger] p(j),
            None => forall|j: int| 0 <= j < n ==> !#[trigger] p(j),
        },
    decreases n,
{
    if n > 0 && !p(n - 1) {
        lemma_last_where(p, n - 1);
    }
}

/// Predicates that agree have the same first position.
pub proof fn lemma_first_where_agrees(
    p: spec_fn(int) -> bool,
    q: spec_fn(int) -> bool,
    from: int,
    n: int,
)
    requires
        forall|i: int| from <= i < n ==> #[trigger] p(i) == q(i),
    ensures
        first_where(p, from, n) == first_where(q, from, n),
    decreases n - from,
{
    if from < n {
        assert(p(from) == q(from));
        lemma_first_where_agrees(p, q, from + 1, n);
    }
}

/// Predicates that agree have the same last position.
pub proof fn lemma_last_where_agrees(p: spec_fn(int) -> bool, q: spec_fn(int) -> bool, n: int)
    requires
        forall|i: int| 0 <= i < n ==> #[trigger] p(i) == q(i),
    ensures
        last_where(p, n) == last_where(q, n),
    decreases n,
{
    if n > 0 {
        assert(p(n - 1) == q(n - 1));
        lemma_last_where_agrees(p, q, n - 1);
    }
}

// ---------------------------------------------------------------------------------------------
// Stable ordering

/// A two-part sort key, compared part by part.
#[derive(Clone, Copy, Debug, PartialEq, Eq, Structural)]
pub struct SortKey {
    pub major: i128,
    pub minor: i128,
}

/// Whether `a` sorts before `b`.
pub open spec fn key_below(a: SortKey, b: SortKey) -> bool {
    a.major < b.major || (a.major == b.major && a.minor < b.minor)
}

/// Whether position `a` comes before position `b` in a stable sort by `keys`.
pub open spec fn precedes(keys: Seq<SortKey>, a: usize, b: usize) -> bool {
    ||| key_below(keys[a as int], keys[b as int])
    ||| keys[a as int] == keys[b as int] && a < b
}

/// Whether `order` lists the positions of `keys` in ascending order of their keys, equal keys in
/// the order they came in.
pub open spec fn is_stable_order(keys: Seq<SortKey>, order: Seq<usize>) -> bool {
    &&& order.len() == keys.len()
    &&& forall|i: int| 0 <= i < order.len() ==> (#[trigger] order[i]) < keys.len()
    &&& forall|i: int, j: int|
        0 <= i < j < order.len() ==> precedes(keys, #[trigger] order[i], #[trigger] order[j])
}

/// The stable ascending order of the positions of `keys`.
pub open spec fn stable_order(keys: Seq<SortKey>) -> Seq<usize> {
    choose|order: Seq<usize>| is_stable_order(keys, order)
}

/// A stable order lists every position.
pub proof fn law_stable_order_lists_every_position(keys: Seq<SortKey>, order: Seq<usize>, x: usize)
    requires
        is_stable_order(keys, order),
        x < keys.len(),
    ensures
        order.contains(x),
{
    let n = keys.len();
    let wide = order.map_values(|u: usize| u as int);
    assert(wide.no_duplicates()) by {
        assert forall|i: int, j: int| 0 <= i < wide.len() && 0 <= j < wide.len() && i
            != j implies wide[i] != wide[j] by {
            if i < j {
                assert(precedes(keys, order[i], order[j]));
            } else {
                assert(precedes(keys, order[j], order[i]));
            }
        }
    }
    let all = vstd::set_lib::set_int_range(0, n as int);
    vstd::set_lib::lemma_int_range(0, n as int);
    wide.unique_seq_to_set();
    assert(wide.to_set().subset_of(all)) by {
        assert forall|e: int| wide.to_set().contains(e) implies all.contains(e) by {
            let i = choose|i: int| 0 <= i < wide.len() && wide[i] == e;
            assert(order[i] < keys.len());
        }
    }
    vstd::set_lib::lemma_subset_equality(wide.to_set(), all);
    assert(all.contains(x as int));
    assert(wide.to_set().contains(x as int));
    let i = choose|i: int| 0 <= i < wide.len() && wide[i] == x as int;
    assert(order[i] == x);
}

/// A sequence of keys has one stable order only.
pub proof fn law_stable_order_is_unique(keys: Seq<SortKey>, a: Seq<usize>, b: Seq<usize>)
    requires
        is_stable_order(keys, a),
        is_stable_order(keys, b),
    ensures
        a == b,
{
    lemma_orders_agree(keys, a, b, a.len() as int);
    assert(a =~= b);
}

proof fn lemma_orders_agree(keys: Seq<SortKey>, a: Seq<usize>, b: Seq<usize>, k: int)
    requires
        is_stable_order(keys, a),
        is_stable_order(keys, b),
        0 <= k <= a.len(),
    ensures
        forall|i: int| 0 <= i < k ==> a[i] == b[i],
    decreases k,
{
    if k > 0 {
        lemma_orders_agree(keys, a, b, k - 1);
        let x = a[k - 1];
        let y = b[k - 1];
        if x != y {
            law_stable_order_lists_every_position(keys, b, x);
            law_stable_order_lists_every_position(keys, a, y);
            let m = choose|m: int| 0 <= m < b.len() && b[m] == x;
            let l = choose|l: int| 0 <= l < a.len() && a[l] == y;
            if m < k - 1 {
                assert(a[m] == x);
                assert(precedes(keys, a[m], a[k - 1]));
            }
            if l < k - 1 {
                assert(b[l] == y);
                assert(precedes(keys, b[l], b[k - 1]));
            }
            assert(precedes(keys, b[k - 1], b[m]));
            assert(precedes(keys, a[k - 1], a[l]));
        }
    }
}

/// The items of `s` in the order that `order` lists their positions in.
pub open spec fn rearranged<T>(s: Seq<T>, order: Seq<usize>) -> Seq<T> {
    Seq::new(order.len(), |i: int| s[order[i] as int])
}

proof fn lemma_insertion_keeps_order(keys: Seq<SortKey>, before: Seq<usize>, at: int)
    requires
        0 < keys.len() <= usize::MAX + 1,
        is_stable_order(keys.drop_last(), before),
        0 <= at <= before.len(),
        at > 0 ==> !key_below(keys.last(), keys[before[at - 1] as int]),
        forall|k: int|
            at <= k < before.len() ==> key_below(
                keys.last(),
                keys[(#[trigger] before[k]) as int],
            ),
    ensures
        is_stable_order(keys, before.insert(at, (keys.len() - 1) as usize)),
{
    let known = keys.drop_last();
    let order = before.insert(at, (keys.len() - 1) as usize);
    assert forall|k: int| 0 <= k < before.len() implies known[(#[trigger] before[k]) as int]
        == keys[before[k] as int] by {}
    assert forall|a: int, b: int| 0 <= a < b < order.len() implies precedes(
        keys,
        #[trigger] order[a],
        #[trigger] order[b],
    ) by {
        if a == at {
            assert(order[b] == before[b - 1]);
        } else if b == at {
            assert(order[a] == before[a]);
            if a < at - 1 {
                assert(precedes(known, before[a], before[at - 1]));
            }
        } else {
            let x = if a < at { a } else { a - 1 };
            let y = if b < at { b } else { b - 1 };
            assert(order[a] == before[x]);
            assert(order[b] == before[y]);
            assert(precedes(known, before[x], before[y]));
        }
    }
    assert forall|i: int| 0 <= i < order.len() implies (#[trigger] order[i]) < keys.len() by {
        if i < at {
            assert(order[i] == before[i]);
        } else if i > at {
            assert(order[i] == before[i - 1]);
        }
    }
}

proof fn lemma_insertion_place(keys: Seq<SortKey>, before: Seq<usize>, from: int) -> (at: int)
    requires
        0 < keys.len(),
        0 <= from <= before.len(),
        forall|k: int|
            from <= k < before.len() ==> key_below(
                keys.last(),
                keys[(#[trigger] before[k]) as int],
            ),
    ensures
        0 <= at <= before.len(),
        at > 0 ==> !key_below(keys.last(), keys[before[at - 1] as int]),
        forall|k: int|
            at <= k < before.len() ==> key_below(
                keys.last(),
                keys[(#[trigger] before[k]) as int],
            ),
    decreases from,
{
    if from > 0 && key_below(keys.last(), keys[before[from - 1] as int]) {
        lemma_insertion_place(keys, before, from - 1)
    } else {
        from
    }
}

/// Every sequence of keys has a stable order.
pub proof fn law_stable_order_exists(keys: Seq<SortKey>)
    requires
        keys.len() <= usize::MAX,
    ensures
        is_stable_order(keys, stable_order(keys)),
    decreases keys.len(),
{
    if keys.len() == 0 {
        assert(is_stable_order(keys, Seq::empty()));
    } else {
        let known = keys.drop_last();
        law_stable_order_exists(known);
        let before = stable_order(known);
        let at = lemma_insertion_place(keys, before, before.len() as int);
        lemma_insertion_keeps_order(keys, before, at);
        assert(is_stable_order(keys, before.insert(at, (keys.len() - 1) as usize)));
    }
}

/// The last position takes its place in the stable order of the others: behind every key that is
/// not above its own, before all others.
pub proof fn lemma_last_position_is_inserted(keys: Seq<SortKey>) -> (at: int)
    requires
        0 < keys.len() <= usize::MAX,
    ensures
        0 <= at < keys.len(),
        stable_order(keys.drop_last()).len() == keys.len() - 1,
        stable_order(keys) == stable_order(keys.drop_last()).insert(
            at,
            (keys.len() - 1) as usize,
        ),
        forall|k: int|
            0 <= k < at ==> !key_below(
                keys.last(),
                keys[(#[trigger] stable_order(keys.drop_last())[k]) as int],
            ),
        forall|k: int|
            at <= k < keys.len() - 1 ==> key_below(
                keys.last(),
                keys[(#[trigger] stable_order(keys.drop_last())[k]) as int],
            ),
{
    let known = keys.drop_last();
    let before = stable_order(known);
    law_stable_order_exists(known);
    law_stable_order_exists(keys);
    let at = lemma_insertion_place(keys, before, before.len() as int);
    lemma_insertion_keeps_order(keys, before, at);
    law_stable_order_is_unique(
        keys,
        stable_order(keys),
        before.insert(at, (keys.len() - 1) as usize),
    );
    assert forall|k: int| 0 <= k < at implies !key_below(
        keys.last(),
        keys[(#[trigger] before[k]) as int],
    ) by {
        if k < at - 1 {
            assert(precedes(known, before[k], before[at - 1]));
        }
    }
    at
}

fn sorts_after(a: SortKey, b: SortKey) -> (r: bool)
    ensures
        r == key_below(b, a),
{
    b.major < a.major || (b.major == a.major && b.minor < a.minor)
}

/// The stable ascending order of the positions of `keys`.
pub fn sort_positions(keys: &Vec<SortKey>) -> (order: Vec<usize>)
    ensures
        is_stable_order(keys@, order@),
        order@ == stable_order(keys@),
{
    let mut order: Vec<usize> = Vec::new();
    let mut i: usize = 0;
    while i < keys.len()
        invariant
            i <= keys.len(),
            is_stable_order(keys@.take(i as int), order@),
        decreases keys.len() - i,
    {
        let ghost known = keys@.take(i as int);
        let ghost wider = keys@.take(i + 1);
        let mut at: usize = order.len();
        while at > 0 && sorts_after(keys[order[at - 1]], keys[i])
            invariant
                at <= order.len(),
                i < keys.len(),
                known == keys@.take(i as int),
                is_stable_order(known, order@),
                forall|k: int|
                    at <= k < order.len() ==> key_below(
                        keys@[i as int],
                        keys@[#[trigger] order@[k] as int],
                    ),
            decreases at,
        {
            at = at - 1;
        }
        let ghost before = order@;
        order.insert(at, i);
        proof {
            assert(wider.drop_last() =~= known);
            assert forall|k: int| at <= k < before.len() implies key_below(
                wider.last(),
                wider[(#[trigger] before[k]) as int],
            ) by {}
            lemma_insertion_keeps_order(wider, before, at as int);
        }
        i = i + 1;
    }
    assert(keys@.take(i as int) =~= keys@);
    proof {
        law_stable_order_is_unique(keys@, order@, stable_order(keys@));
    }
    order
}

} // verus!
