use vstd::prelude::*;

verus! {

/// A ray meeting a shape: the ray parameter at which it does, held as its
/// rank (see `number`), and the shape's slot in the world's table.
#[derive(Debug, Copy, Clone, PartialEq, Eq, Structural)]
pub struct Intersection {
    pub t: i64,
    pub object: usize,
}

impl Intersection {
    pub fn equals(&self, other: Intersection) -> (same: bool)
        ensures
            same == (*self == other),
    {
        self.t == other.t && self.object == other.object
    }
}

pub fn intersection(t: i64, object: usize) -> (i: Intersection)
    ensures
        i == (Intersection { t, object }),
{
    Intersection { t, object }
}

/// The given intersections as a list, in the order given.
pub fn intersections(args: &[Intersection]) -> (v: Vec<Intersection>)
    ensures
        v@ == args@,
{
    let mut v: Vec<Intersection> = Vec::new();
    let mut k: usize = 0;
    while k < args.len()
        invariant
            k <= args.len(),
            v@ == args@.take(k as int),
        decreases args.len() - k,
    {
        v.push(args[k]);
        assert(args@.take(k + 1) =~= args@.take(k as int).push(args@[k as int]));
        k += 1;
    }
    assert(args@.take(args@.len() as int) =~= args@);
    v
}

/// Whether no intersection of the list lies in front of the ray's origin.
pub open spec fn all_behind(xs: Seq<Intersection>) -> bool {
    forall|i: int| 0 <= i < xs.len() ==> (#[trigger] xs[i]).t < 0
}

/// Whether `xs[k]` is the hit of the list: it is not behind the origin,
/// nothing in front of the origin is nearer, and nothing before it in the
/// list is as near.
pub open spec fn is_hit_at(xs: Seq<Intersection>, k: int) -> bool {
    &&& 0 <= k < xs.len()
    &&& xs[k].t >= 0
    &&& forall|i: int| 0 <= i < xs.len() && (#[trigger] xs[i]).t >= 0 ==> xs[k].t <= xs[i].t
    &&& forall|i: int| 0 <= i < k && (#[trigger] xs[i]).t >= 0 ==> xs[k].t < xs[i].t
}

/// The intersection that the ray sees first: the one with the lowest
/// parameter that is not negative, and of several with that parameter the
/// first in the list. `None` when every intersection lies behind the origin,
/// as in an empty list.
pub fn hit(xs: Vec<Intersection>) -> (h: Option<Intersection>)
    ensures
        h.is_none() <==> all_behind(xs@),
        h.is_some() ==> exists|k: int| is_hit_at(xs@, k) && xs@[k] == h.unwrap(),
{
    let mut lowest: Option<Intersection> = None;
    let ghost mut at: int = 0;
    let mut k: usize = 0;
    while k < xs.len()
        invariant
            k <= xs.len(),
            lowest.is_none() <==> all_behind(xs@.take(k as int)),
            lowest.is_some() ==> is_hit_at(xs@.take(k as int), at) && xs@[at] == lowest.unwrap(),
        decreases xs.len() - k,
    {
        let i = xs[k];
        let ghost before = xs@.take(k as int);
        let ghost after = xs@.take(k + 1);
        assert(after =~= before.push(i));
        assert(forall|j: int| 0 <= j < k ==> after[j] == before[j]);
        let nearer = match lowest {
            None => true,
            Some(l) => i.t < l.t,
        };
        if nearer && i.t >= 0 {
            lowest = Some(i);
            proof {
                if before.len() > 0 && !all_behind(before) {
                    assert(is_hit_at(before, at));
                }
                at = k as int;
                assert(after[at] == i);
                assert forall|j: int| 0 <= j < after.len() && (#[trigger] after[j]).t >= 0 implies i.t
                    <= after[j].t by {
                    if j < k {
                        assert(before[j].t >= 0);
                    }
                }
                assert forall|j: int| 0 <= j < at && (#[trigger] after[j]).t >= 0 implies i.t
                    < after[j].t by {
                    assert(before[j].t >= 0);
                }
                assert(is_hit_at(after, at));
            }
        } else {
            proof {
                if lowest.is_some() {
                    assert(is_hit_at(before, at));
                    assert forall|j: int|
                        0 <= j < after.len() && (#[trigger] after[j]).t >= 0 implies after[at].t
                        <= after[j].t by {
                        if j < k {
                            assert(before[j].t >= 0);
                        }
                    }
                    assert forall|j: int| 0 <= j < at && (#[trigger] after[j]).t >= 0 implies after[at].t
                        < after[j].t by {
                        assert(before[j].t >= 0);
                    }
                    assert(is_hit_at(after, at));
                } else {
                    assert forall|j: int| 0 <= j < after.len() implies (#[trigger] after[j]).t
                        < 0 by {
                        if j < k {
                            assert(before[j].t < 0);
                        }
                    }
                }
            }
        }
        proof {
            if lowest.is_some() {
                assert(after[at].t >= 0);
                assert(!all_behind(after));
            }
        }
        k += 1;
    }
    assert(xs@.take(xs@.len() as int) =~= xs@);
    lowest
}

/// A list in ascending order of the parameter.
pub open spec fn is_ascending(xs: Seq<Intersection>) -> bool {
    forall|i: int, j: int| 0 <= i <= j < xs.len() ==> xs[i].t <= xs[j].t
}

/// An ascending list with `x` put in behind everything that is not farther
/// than `x`.
pub open spec fn inserted(sorted: Seq<Intersection>, x: Intersection) -> Seq<Intersection>
    decreases sorted.len(),
{
    if sorted.len() == 0 {
        seq![x]
    } else if sorted.last().t <= x.t {
        sorted.push(x)
    } else {
        inserted(sorted.drop_last(), x).push(sorted.last())
    }
}

/// The list in ascending order of the parameter, intersections with the
/// same parameter in the order in which the list had them.
pub open spec fn ordered(xs: Seq<Intersection>) -> Seq<Intersection>
    decreases xs.len(),
{
    if xs.len() == 0 {
        Seq::empty()
    } else {
        inserted(ordered(xs.drop_last()), xs.last())
    }
}

/// Putting `x` in at position `p` is what `inserted` does, where everything
/// from `p` on is farther than `x` and what stands before `p` is not.
pub proof fn lemma_inserted_at(sorted: Seq<Intersection>, x: Intersection, p: int)
    requires
        0 <= p <= sorted.len(),
        forall|i: int| p <= i < sorted.len() ==> sorted[i].t > x.t,
        p > 0 ==> sorted[p - 1].t <= x.t,
    ensures
        inserted(sorted, x) == sorted.insert(p, x),
    decreases sorted.len() - p,
{
    if sorted.len() == 0 {
        assert(sorted.insert(p, x) =~= seq![x]);
    } else if p == sorted.len() {
        assert(sorted.insert(p, x) =~= sorted.push(x));
    } else {
        lemma_inserted_at(sorted.drop_last(), x, p);
        assert(sorted.drop_last().insert(p, x).push(sorted.last()) =~= sorted.insert(p, x));
    }
}

/// Putting one more intersection into an ascending list keeps it ascending
/// and adds just that intersection.
pub proof fn lemma_inserted_props(sorted: Seq<Intersection>, x: Intersection)
    requires
        is_ascending(sorted),
    ensures
        is_ascending(inserted(sorted, x)),
        inserted(sorted, x).to_multiset() == sorted.to_multiset().insert(x),
        inserted(sorted, x).len() == sorted.len() + 1,
    decreases sorted.len(),
{
    broadcast use vstd::seq_lib::group_to_multiset_ensures;

    if sorted.len() == 0 {
        assert(seq![x] =~= Seq::<Intersection>::empty().push(x));
        assert(sorted =~= Seq::<Intersection>::empty());
    } else if sorted.last().t <= x.t {
        let r = sorted.push(x);
        assert forall|i: int, j: int| 0 <= i <= j < r.len() implies r[i].t <= r[j].t by {
            if j == sorted.len() {
                if i < sorted.len() {
                    assert(sorted[i].t <= sorted[sorted.len() - 1].t);
                }
            }
        }
    } else {
        let front = sorted.drop_last();
        let last = sorted.last();
        assert forall|i: int, j: int| 0 <= i <= j < front.len() implies front[i].t <= front[j].t by {
            assert(sorted[i].t <= sorted[j].t);
        }
        lemma_inserted_props(front, x);
        let mid = inserted(front, x);
        let r = mid.push(last);
        assert(sorted =~= front.push(last));
        assert(r.to_multiset() =~= sorted.to_multiset().insert(x));
        // every element of `mid` is `x` or an element of `front`
        assert forall|i: int, j: int| 0 <= i <= j < r.len() implies r[i].t <= r[j].t by {
            if j == mid.len() {
                if i < mid.len() {
                    let e = mid[i];
                    assert(mid.to_multiset().count(e) > 0);
                    if e != x {
                        assert(front.to_multiset().count(e) > 0);
                        let k = choose|k: int| 0 <= k < front.len() && front[k] == e;
                        assert(sorted[k].t <= sorted[sorted.len() - 1].t);
                    }
                }
            }
        }
    }
}

/// The ordered list is ascending and holds the same intersections as the
/// list it was made from, each as often.
pub proof fn lemma_ordered_props(xs: Seq<Intersection>)
    ensures
        is_ascending(ordered(xs)),
        ordered(xs).to_multiset() == xs.to_multiset(),
        ordered(xs).len() == xs.len(),
    decreases xs.len(),
{
    broadcast use vstd::seq_lib::group_to_multiset_ensures;

    if xs.len() == 0 {
        assert(xs =~= Seq::<Intersection>::empty());
    } else {
        lemma_ordered_props(xs.drop_last());
        lemma_inserted_props(ordered(xs.drop_last()), xs.last());
        assert(xs =~= xs.drop_last().push(xs.last()));
    }
}

/// Sorts the intersections by ascending parameter. Intersections with the
/// same parameter stay in the order in which they came.
pub fn sort_by_t(xs: Vec<Intersection>) -> (sorted: Vec<Intersection>)
    ensures
        sorted@ == ordered(xs@),
        is_ascending(sorted@),
        sorted@.to_multiset() == xs@.to_multiset(),
        sorted@.len() == xs@.len(),
{
    let mut out: Vec<Intersection> = Vec::new();
    let mut k: usize = 0;
    while k < xs.len()
        invariant
            k <= xs.len(),
            out@ == ordered(xs@.take(k as int)),
            out@.len() == k,
        decreases xs.len() - k,
    {
        let x = xs[k];
        let mut p: usize = out.len();
        while p > 0 && out[p - 1].t > x.t
            invariant
                p <= out.len(),
                forall|i: int| p <= i < out@.len() ==> out@[i].t > x.t,
            decreases p,
        {
            p -= 1;
        }
        proof {
            lemma_inserted_at(out@, x, p as int);
            assert(xs@.take(k + 1).drop_last() =~= xs@.take(k as int));
            assert(xs@.take(k + 1).last() == x);
        }
        out.insert(p, x);
        k += 1;
    }
    proof {
        assert(xs@.take(xs@.len() as int) =~= xs@);
        lemma_ordered_props(xs@);
    }
    out
}

/// The first `n` lists joined end to end.
pub open spec fn joined(lists: Seq<Vec<Intersection>>, n: int) -> Seq<Intersection>
    decreases n,
{
    if n <= 0 {
        Seq::empty()
    } else {
        joined(lists, n - 1) + lists[n - 1]@
    }
}

/// All intersections of a ray with a scene, from the lists that its shapes
/// gave one by one: joined in the order of the shapes and then sorted by
/// ascending parameter.
pub fn gather(lists: &Vec<Vec<Intersection>>) -> (all: Vec<Intersection>)
    ensures
        all@ == ordered(joined(lists@, lists@.len() as int)),
        is_ascending(all@),
        all@.to_multiset() == joined(lists@, lists@.len() as int).to_multiset(),
{
    let mut result: Vec<Intersection> = Vec::new();
    let mut n: usize = 0;
    while n < lists.len()
        invariant
            n <= lists.len(),
            result@ == joined(lists@, n as int),
        decreases lists.len() - n,
    {
        let list = &lists[n];
        let ghost before = result@;
        let mut k: usize = 0;
        while k < list.len()
            invariant
                k <= list.len(),
                result@ == before + list@.take(k as int),
            decreases list.len() - k,
        {
            result.push(list[k]);
            assert(list@.take(k + 1) =~= list@.take(k as int).push(list@[k as int]));
            assert(result@ =~= before + list@.take(k + 1));
            k += 1;
        }
        assert(list@.take(list@.len() as int) =~= list@);
        n += 1;
    }
    sort_by_t(result)
}

/// Whether `xs[k]` is the first intersection of the list that is not behind
/// the ray's origin.
pub open spec fn is_first_in_front(xs: Seq<Intersection>, k: int) -> bool {
    &&& 0 <= k < xs.len()
    &&& xs[k].t >= 0
    &&& forall|i: int| 0 <= i < k ==> (#[trigger] xs[i]).t < 0
}

/// The intersection that a ray sees, taken from a list that is already in
/// ascending order: nothing if the list is empty or its last entry lies
/// behind the origin, else the first entry that does not.
pub fn first_in_front(xs: &Vec<Intersection>) -> (h: Option<Intersection>)
    ensures
        h.is_none() <==> (xs@.len() == 0 || xs@.last().t < 0),
        h.is_some() ==> exists|k: int| is_first_in_front(xs@, k) && xs@[k] == h.unwrap(),
{
    let n = xs.len();
    if n == 0 || xs[n - 1].t < 0 {
        return None;
    }
    let mut k: usize = 0;
    while xs[k].t < 0
        invariant
            n == xs.len(),
            k < n,
            xs@[n - 1].t >= 0,
            forall|i: int| 0 <= i < k ==> (#[trigger] xs@[i]).t < 0,
        decreases n - k,
    {
        k += 1;
    }
    assert(is_first_in_front(xs@, k as int));
    Some(xs[k])
}

/// In an ascending list the first entry in front of the origin is the hit,
/// and there is none exactly when the last entry lies behind the origin.
pub proof fn lemma_first_in_front_is_hit(xs: Seq<Intersection>, k: int)
    requires
        is_ascending(xs),
    ensures
        is_first_in_front(xs, k) <==> is_hit_at(xs, k),
        all_behind(xs) <==> (xs.len() == 0 || xs.last().t < 0),
{
    if is_first_in_front(xs, k) {
        assert forall|i: int| 0 <= i < xs.len() && (#[trigger] xs[i]).t >= 0 implies xs[k].t
            <= xs[i].t by {
            if i < k {
                assert(xs[i].t < 0);
            }
        }
    }
    if is_hit_at(xs, k) {
        assert forall|i: int| 0 <= i < k implies (#[trigger] xs[i]).t < 0 by {
            if xs[i].t >= 0 {
                assert(xs[i].t <= xs[k].t);
            }
        }
    }
    if xs.len() > 0 {
        if xs.last().t < 0 {
            assert forall|i: int| 0 <= i < xs.len() implies (#[trigger] xs[i]).t < 0 by {
                assert(xs[i].t <= xs[xs.len() - 1].t);
            }
        } else {
            assert(xs[xs.len() - 1].t >= 0);
        }
    }
}

/// Whether something stands between a point and a light at rank `distance`
/// from it, given the intersections of the ray from the point towards the
/// light: whether their hit is nearer than the light.
pub fn shadowed(xs: Vec<Intersection>, distance: i64) -> (dark: bool)
    ensures
        dark <==> exists|k: int| is_hit_at(xs@, k) && xs@[k].t < distance,
{
    let ghost s = xs@;
    match hit(xs) {
        Some(h) => {
            proof {
                let k0 = choose|k: int| is_hit_at(s, k) && s[k] == h;
                assert forall|k: int| is_hit_at(s, k) implies s[k].t == h.t by {
                    assert(s[k0].t <= s[k].t);
                    assert(s[k].t <= s[k0].t);
                }
            }
            h.t < distance
        },
        None => {
            proof {
                assert forall|k: int| is_hit_at(s, k) implies false by {
                    assert(s[k].t < 0);
                }
            }
            false
        },
    }
}

/// A list of shape slots without `object`, the rest in order.
pub open spec fn without(c: Seq<usize>, object: usize) -> Seq<usize>
    decreases c.len(),
{
    if c.len() == 0 {
        c
    } else if c.last() == object {
        without(c.drop_last(), object)
    } else {
        without(c.drop_last(), object).push(c.last())
    }
}

/// The shapes that a ray is inside of, after it crosses the surface of
/// `object`: it has left `object` if it was inside, and entered it if not.
pub open spec fn toggled(c: Seq<usize>, object: usize) -> Seq<usize> {
    if c.contains(object) {
        without(c, object)
    } else {
        c.push(object)
    }
}

/// The shapes that a ray is inside of after the first `n` intersections of
/// its list, in the order in which it entered them.
pub open spec fn containers_after(xs: Seq<Intersection>, n: int) -> Seq<usize>
    decreases n,
{
    if n <= 0 {
        Seq::empty()
    } else {
        toggled(containers_after(xs, n - 1), xs[n - 1].object)
    }
}

/// The shape entered last of those that a ray is inside of; `None` where it
/// is inside of none.
pub open spec fn innermost(c: Seq<usize>) -> Option<usize> {
    if c.len() == 0 {
        None
    } else {
        Some(c.last())
    }
}

/// Whether `xs[k]` is the first entry of the list equal to `x`.
pub open spec fn is_first_at(xs: Seq<Intersection>, x: Intersection, k: int) -> bool {
    &&& 0 <= k < xs.len()
    &&& xs[k] == x
    &&& forall|i: int| 0 <= i < k ==> xs[i] != x
}

/// How often the surface of the shape in slot `object` is crossed by the
/// first `n` intersections of a list.
pub open spec fn crossings(xs: Seq<Intersection>, n: int, object: usize) -> nat
    decreases n,
{
    if n <= 0 {
        0
    } else if xs[n - 1].object == object {
        crossings(xs, n - 1, object) + 1
    } else {
        crossings(xs, n - 1, object)
    }
}

/// Taking `object` out of a list leaves the others where they were: it is
/// gone, everything else is in the rest exactly if it was in the list, and a
/// list that held nothing twice still holds nothing twice.
pub proof fn lemma_without(c: Seq<usize>, object: usize)
    ensures
        !without(c, object).contains(object),
        forall|x: usize| x != object ==> (without(c, object).contains(x) <==> c.contains(x)),
        c.no_duplicates() ==> without(c, object).no_duplicates(),
        without(c, object).len() <= c.len(),
    decreases c.len(),
{
    if c.len() > 0 {
        let front = c.drop_last();
        let last = c.last();
        let w = without(front, object);
        lemma_without(front, object);
        assert(c =~= front.push(last));
        if c.no_duplicates() {
            assert forall|i: int, j: int| 0 <= i < front.len() && 0 <= j < front.len() && i
                != j implies front[i] != front[j] by {
                assert(c[i] != c[j]);
            }
        }
        if last == object {
            assert forall|x: usize| x != object implies (w.contains(x) <==> c.contains(x)) by {
                assert(without(front, object).contains(x) <==> front.contains(x));
                if c.contains(x) {
                    let i = choose|i: int| 0 <= i < c.len() && c[i] == x;
                    assert(front[i] == x);
                }
                if front.contains(x) {
                    let i = choose|i: int| 0 <= i < front.len() && front[i] == x;
                    assert(c[i] == x);
                }
            }
        } else {
            let r = w.push(last);
            assert(r[r.len() - 1] == last);
            assert forall|x: usize| x != object implies (r.contains(x) <==> c.contains(x)) by {
                if r.contains(x) {
                    let i = choose|i: int| 0 <= i < r.len() && r[i] == x;
                    if i < w.len() {
                        assert(w[i] == x);
                        assert(w.contains(x));
                        assert(without(front, object).contains(x) <==> front.contains(x));
                        assert(front.contains(x));
                        let k = choose|k: int| 0 <= k < front.len() && front[k] == x;
                        assert(c[k] == x);
                    } else {
                        assert(c[c.len() - 1] == x);
                    }
                }
                if c.contains(x) {
                    let i = choose|i: int| 0 <= i < c.len() && c[i] == x;
                    if i < front.len() {
                        assert(front[i] == x);
                        assert(front.contains(x));
                        assert(without(front, object).contains(x) <==> front.contains(x));
                        assert(w.contains(x));
                        let k = choose|k: int| 0 <= k < w.len() && w[k] == x;
                        assert(r[k] == x);
                    } else {
                        assert(r[r.len() - 1] == x);
                    }
                }
            }
            if r.contains(object) {
                let i = choose|i: int| 0 <= i < r.len() && r[i] == object;
                if i < w.len() {
                    assert(w[i] == object);
                }
            }
            if c.no_duplicates() {
                assert forall|i: int, j: int| 0 <= i < r.len() && 0 <= j < r.len() && i
                    != j implies r[i] != r[j] by {
                    if i < w.len() && j < w.len() {
                        assert(w[i] != w[j]);
                    } else {
                        let k = if i < w.len() {
                            i
                        } else {
                            j
                        };
                        assert(w[k] == r[k]);
                        if w[k] == last {
                            assert(w.contains(last));
                            assert(without(front, object).contains(last) <==> front.contains(last));
                            assert(front.contains(last));
                            let m = choose|m: int| 0 <= m < front.len() && front[m] == last;
                            assert(c[m] == c[c.len() - 1]);
                        }
                    }
                }
            }
        }
    }
}

/// After any number of intersections the ray is inside of exactly those
/// shapes whose surface it has crossed an odd number of times, and inside of
/// none of them twice.
pub proof fn lemma_containers_are_the_odd_crossings(xs: Seq<Intersection>, n: int)
    requires
        0 <= n <= xs.len(),
    ensures
        containers_after(xs, n).no_duplicates(),
        forall|object: usize|
            containers_after(xs, n).contains(object) <==> crossings(xs, n, object) % 2 == 1,
    decreases n,
{
    if n > 0 {
        lemma_containers_are_the_odd_crossings(xs, n - 1);
        let before = containers_after(xs, n - 1);
        let o = xs[n - 1].object;
        let after = containers_after(xs, n);
        if before.contains(o) {
            lemma_without(before, o);
            assert forall|object: usize|
                after.contains(object) <==> crossings(xs, n, object) % 2 == 1 by {
                if object != o {
                    assert(without(before, o).contains(object) <==> before.contains(object));
                }
            }
        } else {
            assert(after == before.push(o));
            assert(after[after.len() - 1] == o);
            assert forall|object: usize|
                after.contains(object) <==> crossings(xs, n, object) % 2 == 1 by {
                if after.contains(object) {
                    let i = choose|i: int| 0 <= i < after.len() && after[i] == object;
                    if i < before.len() {
                        assert(before[i] == object);
                    }
                }
                if before.contains(object) {
                    let i = choose|i: int| 0 <= i < before.len() && before[i] == object;
                    assert(after[i] == object);
                }
            }
            assert forall|i: int, j: int| 0 <= i < after.len() && 0 <= j < after.len() && i
                != j implies after[i] != after[j] by {
                if i < before.len() && j < before.len() {
                    assert(before[i] != before[j]);
                } else {
                    let k = if i < before.len() {
                        i
                    } else {
                        j
                    };
                    assert(before[k] == after[k]);
                    if before[k] == o {
                        assert(before.contains(o));
                    }
                }
            }
        }
    } else {
        assert(containers_after(xs, n) =~= Seq::<usize>::empty());
    }
}

fn holds(c: &Vec<usize>, object: usize) -> (found: bool)
    ensures
        found == c@.contains(object),
{
    let mut k: usize = 0;
    while k < c.len()
        invariant
            k <= c.len(),
            forall|i: int| 0 <= i < k ==> c@[i] != object,
        decreases c.len() - k,
    {
        if c[k] == object {
            return true;
        }
        k += 1;
    }
    false
}

fn drop_object(c: &Vec<usize>, object: usize) -> (rest: Vec<usize>)
    ensures
        rest@ == without(c@, object),
{
    let mut rest: Vec<usize> = Vec::new();
    let mut k: usize = 0;
    while k < c.len()
        invariant
            k <= c.len(),
            rest@ == without(c@.take(k as int), object),
        decreases c.len() - k,
    {
        proof {
            assert(c@.take(k + 1).drop_last() =~= c@.take(k as int));
            assert(c@.take(k + 1).last() == c@[k as int]);
        }
        if c[k] != object {
            rest.push(c[k]);
        }
        k += 1;
    }
    assert(c@.take(c@.len() as int) =~= c@);
    rest
}

fn top(c: &Vec<usize>) -> (t: Option<usize>)
    ensures
        t == innermost(c@),
{
    if c.len() == 0 {
        None
    } else {
        Some(c[c.len() - 1])
    }
}

/// The media on the two sides of a hit, for refraction: the shape that the
/// ray is innermost in just before it crosses the surface at `hit`, and the
/// one it is innermost in just after. `None` stands for the empty space
/// around all shapes. `xs` is the ray's whole list in ascending order; the
/// ray's way is followed up to the first entry equal to `hit`. Where the list
/// does not hold `hit`, both sides are empty space.
pub fn refraction_boundary(hit: Intersection, xs: &Vec<Intersection>) -> (sides: (
    Option<usize>,
    Option<usize>,
))
    ensures
        (forall|i: int| 0 <= i < xs@.len() ==> xs@[i] != hit) ==> sides == (
            None::<usize>,
            None::<usize>,
        ),
        forall|k: int|
            is_first_at(xs@, hit, k) ==> sides == (
                innermost(containers_after(xs@, k)),
                innermost(containers_after(xs@, k + 1)),
            ),
{
    let mut containers: Vec<usize> = Vec::new();
    let mut k: usize = 0;
    while k < xs.len()
        invariant
            k <= xs.len(),
            containers@ == containers_after(xs@, k as int),
            forall|i: int| 0 <= i < k ==> xs@[i] != hit,
        decreases xs.len() - k,
    {
        let i = xs[k];
        let found = i.equals(hit);
        let n1 = top(&containers);
        if holds(&containers, i.object) {
            containers = drop_object(&containers, i.object);
        } else {
            containers.push(i.object);
        }
        if found {
            let n2 = top(&containers);
            assert(is_first_at(xs@, hit, k as int));
            assert forall|j: int| is_first_at(xs@, hit, j) implies j == k by {
                if j < k {
                    assert(xs@[j] != hit);
                }
            }
            return (n1, n2);
        }
        k += 1;
    }
    (None, None)
}

} // verus!
