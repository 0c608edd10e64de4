//! Replacing runs of like items in a vector.

use vstd::prelude::*;
use vstd::std_specs::cmp::PartialEqSpec;

verus! {

/// The first `n` items of `s` all satisfy `same`.
pub open spec fn leading_run<T>(s: Seq<T>, same: spec_fn(T) -> bool, n: nat) -> bool {
    n <= s.len() && forall|j: int| 0 <= j < n ==> same(#[trigger] s[j])
}

/// `s` with every group of `n` neighbouring items that satisfy `same`,
/// grouped from the left, replaced by the image under `build` of the last
/// item of the group. With `n` zero, every item is replaced by its image.
pub open spec fn collapse<T>(
    s: Seq<T>,
    same: spec_fn(T) -> bool,
    build: spec_fn(T) -> T,
    n: nat,
) -> Seq<T>
    decreases s.len(),
{
    if s.len() == 0 {
        Seq::empty()
    } else if n == 0 {
        seq![build(s[0])] + collapse(s.skip(1), same, build, n)
    } else if leading_run(s, same, n) {
        seq![build(s[n - 1])] + collapse(s.skip(n as int), same, build, n)
    } else {
        seq![s[0]] + collapse(s.skip(1), same, build, n)
    }
}

/// On the items of `s`, the predicate `p` answers what `same` says.
pub open spec fn decides<T, P: Fn(&T) -> bool>(p: P, same: spec_fn(T) -> bool, s: Seq<T>) -> bool {
    forall|i: int, b: bool|
        0 <= i < s.len() && #[trigger] call_ensures(p, (&s[i],), b) ==> b == same(s[i])
}

/// On the items of `s`, the function `f` returns what `image` says.
pub open spec fn computes<T, B: Fn(T) -> T>(f: B, image: spec_fn(T) -> T, s: Seq<T>) -> bool {
    forall|i: int, y: T|
        0 <= i < s.len() && #[trigger] call_ensures(f, (s[i],), y) ==> y == image(s[i])
}

/// The predicate that holds of the items equal to `x`.
pub open spec fn equal_to<T: PartialEq>(x: T) -> spec_fn(T) -> bool {
    |a: T| a.eq_spec(&x)
}

/// The predicate that holds of the items whose key, read by `key_of`,
/// equals `x`.
pub open spec fn keyed<T, S: PartialEq>(key_of: spec_fn(T) -> S, x: S) -> spec_fn(T) -> bool {
    |a: T| key_of(a).eq_spec(&x)
}

/// The function that maps every item to `to`.
pub open spec fn constant<T>(to: T) -> spec_fn(T) -> T {
    |a: T| to
}

/// On the items of `s`, the function `key` reads what `key_of` says.
pub open spec fn reads<T, S, K: Fn(&T) -> &S>(key: K, key_of: spec_fn(T) -> S, s: Seq<T>) -> bool {
    forall|i: int, r: &S|
        0 <= i < s.len() && #[trigger] call_ensures(key, (&s[i],), r) ==> *r == key_of(s[i])
}

fn run_length<T, P: Fn(&T) -> bool>(v: &Vec<T>, from: usize, limit: usize, same_as: &P) -> (k:
    usize)
    requires
        from <= v.len(),
        forall|i: int| 0 <= i < v@.len() ==> call_requires(*same_as, (&#[trigger] v@[i],)),
    ensures
        k <= limit,
        from + k <= v.len(),
        forall|j: int| from <= j < from + k ==> call_ensures(*same_as, (&#[trigger] v@[j],), true),
        k < limit ==> from + k == v.len() || call_ensures(
            *same_as,
            (&v@[from + k],),
            false,
        ),
{
    let mut k: usize = 0;
    while k < limit && k < v.len() - from
        invariant
            from <= v.len(),
            k <= limit,
            from + k <= v.len(),
            forall|i: int| 0 <= i < v@.len() ==> call_requires(*same_as, (&#[trigger] v@[i],)),
            forall|j: int|
                from <= j < from + k ==> call_ensures(*same_as, (&#[trigger] v@[j],), true),
        decreases limit - k,
    {
        assert(call_requires(*same_as, (&v@[from + k],)));
        let found = same_as(&v[from + k]);
        if !found {
            return k;
        }
        k += 1;
    }
    k
}

/// Vectors in which runs of like items can be replaced.
pub trait DedupReplaceFor {
    type Item;

    /// The items held, in order.
    spec fn items(&self) -> Seq<Self::Item>;

    /// Replaces every group of `occurence` neighbouring items equal to
    /// `same` by the one item `to`.
    fn dedup_and_replace_for(&mut self, same: &Self::Item, to: Self::Item, occurence: usize);

    /// Replaces every group of `occurence` neighbouring items for which
    /// `same_as` holds by the one item `to`.
    fn dedup_and_replace_for_by<P: Fn(&Self::Item) -> bool>(
        &mut self,
        to: Self::Item,
        same_as: P,
        occurence: usize,
    )
        requires
            forall|i: int|
                0 <= i < old(self).items().len() ==> call_requires(
                    same_as,
                    (&#[trigger] old(self).items()[i],),
                ),
    ;

    /// Replaces every group of `occurence` neighbouring items whose key
    /// equals `same` by the one item `to`.
    fn dedup_and_replace_for_by_key<S: PartialEq, K: Fn(&Self::Item) -> &S>(
        &mut self,
        same: &S,
        to: Self::Item,
        occurence: usize,
        key: K,
    )
        requires
            forall|i: int|
                0 <= i < old(self).items().len() ==> call_requires(
                    key,
                    (&#[trigger] old(self).items()[i],),
                ),
    ;

    /// Replaces every group of `occurence` neighbouring items equal to
    /// `same` by what `build` makes of the last item of the group.
    fn dedup_and_replace_for_then_build<B: Fn(Self::Item) -> Self::Item>(
        &mut self,
        same: &Self::Item,
        occurence: usize,
        build: B,
    )
        requires
            forall|i: int|
                0 <= i < old(self).items().len() && occurence <= i + 1 ==> call_requires(
                    build,
                    (#[trigger] old(self).items()[i],),
                ),
    ;

    /// Replaces every group of `occurence` neighbouring items whose key
    /// equals `same` by what `build` makes of the last item of the group.
    fn dedup_and_replace_for_by_key_then_build<
        S: PartialEq,
        K: Fn(&Self::Item) -> &S,
        B: Fn(Self::Item) -> Self::Item,
    >(&mut self, same: &S, occurence: usize, key: K, build: B)
        requires
            forall|i: int|
                0 <= i < old(self).items().len() ==> call_requires(
                    key,
                    (&#[trigger] old(self).items()[i],),
                ),
            forall|i: int|
                0 <= i < old(self).items().len() && occurence <= i + 1 ==> call_requires(
                    build,
                    (#[trigger] old(self).items()[i],),
                ),
    ;

    /// Replaces every group of `occurence` neighbouring items for which
    /// `same_as` holds, grouped from the left, by what `build` makes of the
    /// last item of the group.
    fn dedup_and_replace_for_by_then_build<
        P: Fn(&Self::Item) -> bool,
        B: Fn(Self::Item) -> Self::Item,
    >(&mut self, occurence: usize, same_as: P, build: B)
        requires
            forall|i: int|
                0 <= i < old(self).items().len() ==> call_requires(
                    same_as,
                    (&#[trigger] old(self).items()[i],),
                ),
            forall|i: int|
                0 <= i < old(self).items().len() && occurence <= i + 1 ==> call_requires(
                    build,
                    (#[trigger] old(self).items()[i],),
                ),
    ;
}

impl<T: PartialEq + Copy> DedupReplaceFor for Vec<T> {
    type Item = T;

    open spec fn items(&self) -> Seq<T> {
        self@
    }

    fn dedup_and_replace_for(&mut self, same: &T, to: T, occurence: usize)
        ensures
            T::obeys_eq_spec() ==> final(self)@ == collapse(
                old(self)@,
                equal_to(*same),
                constant(to),
                occurence as nat,
            ),
    {
        let ghost given = self@;
        let same_as = |a: &T| -> (b: bool)
            ensures
                T::obeys_eq_spec() ==> b == a.eq_spec(same),
            { *a == *same };
        let build = |a: T| -> (b: T)
            ensures
                b == to,
            { to };
        self.dedup_and_replace_for_by_then_build(occurence, same_as, build);
        proof {
            if T::obeys_eq_spec() {
                assert(decides(same_as, equal_to(*same), given));
                assert(computes(build, constant(to), given));
            }
        }
    }

    fn dedup_and_replace_for_by<P: Fn(&T) -> bool>(&mut self, to: T, same_as: P, occurence: usize)
        ensures
            forall|same: spec_fn(T) -> bool|
                decides(same_as, same, old(self)@) ==> final(self)@ == #[trigger] collapse(
                    old(self)@,
                    same,
                    constant(to),
                    occurence as nat,
                ),
    {
        let ghost given = self@;
        assert(given == old(self).items());
        assert forall|j: int| 0 <= j < given.len() implies call_requires(
            same_as,
            (&#[trigger] given[j],),
        ) by {
            assert(call_requires(same_as, (&old(self).items()[j],)));
        }
        let build = |a: T| -> (b: T)
            ensures
                b == to,
            { to };
        self.dedup_and_replace_for_by_then_build(occurence, same_as, build);
        proof {
            assert(computes(build, constant(to), given));
        }
    }

    fn dedup_and_replace_for_by_key<S: PartialEq, K: Fn(&T) -> &S>(
        &mut self,
        same: &S,
        to: T,
        occurence: usize,
        key: K,
    )
        ensures
            forall|key_of: spec_fn(T) -> S|
                S::obeys_eq_spec() && reads(key, key_of, old(self)@) ==> final(self)@
                    == #[trigger] collapse(
                    old(self)@,
                    keyed(key_of, *same),
                    constant(to),
                    occurence as nat,
                ),
    {
        let ghost given = self@;
        assert(given == old(self).items());
        assert forall|j: int| 0 <= j < given.len() implies call_requires(
            key,
            (&#[trigger] given[j],),
        ) by {
            assert(call_requires(key, (&old(self).items()[j],)));
        }
        let key_ref = &key;
        let same_as = |a: &T| -> (b: bool)
            requires
                call_requires(key_ref, (a,)),
            ensures
                exists|r: &S|
                    #[trigger] call_ensures(key_ref, (a,), r) && (S::obeys_eq_spec() ==> b
                        == r.eq_spec(same)),
            {
                let r = key_ref(a);
                *r == *same
            };
        let build = |a: T| -> (b: T)
            ensures
                b == to,
            { to };
        self.dedup_and_replace_for_by_then_build(occurence, same_as, build);
        proof {
            assert(computes(build, constant(to), given));
            assert forall|key_of: spec_fn(T) -> S|
                S::obeys_eq_spec() && reads(key, key_of, given) implies self@
                == #[trigger] collapse(
                given,
                keyed(key_of, *same),
                constant(to),
                occurence as nat,
            ) by {
                assert(decides(same_as, keyed(key_of, *same), given));
            }
        }
    }

    fn dedup_and_replace_for_then_build<B: Fn(T) -> T>(
        &mut self,
        same: &T,
        occurence: usize,
        build: B,
    )
        ensures
            forall|image: spec_fn(T) -> T|
                T::obeys_eq_spec() && computes(build, image, old(self)@) ==> final(self)@
                    == #[trigger] collapse(old(self)@, equal_to(*same), image, occurence as nat),
    {
        let ghost given = self@;
        assert(given == old(self).items());
        assert forall|j: int| 0 <= j < given.len() && occurence <= j + 1 implies call_requires(
            build,
            (#[trigger] given[j],),
        ) by {
            assert(call_requires(build, (old(self).items()[j],)));
        }
        let same_as = |a: &T| -> (b: bool)
            ensures
                T::obeys_eq_spec() ==> b == a.eq_spec(same),
            { *a == *same };
        self.dedup_and_replace_for_by_then_build(occurence, same_as, build);
        proof {
            if T::obeys_eq_spec() {
                assert(decides(same_as, equal_to(*same), given));
            }
        }
    }

    fn dedup_and_replace_for_by_key_then_build<S: PartialEq, K: Fn(&T) -> &S, B: Fn(T) -> T>(
        &mut self,
        same: &S,
        occurence: usize,
        key: K,
        build: B,
    )
        ensures
            forall|key_of: spec_fn(T) -> S, image: spec_fn(T) -> T|
                S::obeys_eq_spec() && reads(key, key_of, old(self)@) && computes(
                    build,
                    image,
                    old(self)@,
                ) ==> final(self)@ == #[trigger] collapse(
                    old(self)@,
                    keyed(key_of, *same),
                    image,
                    occurence as nat,
                ),
    {
        let ghost given = self@;
        assert(given == old(self).items());
        assert forall|j: int| 0 <= j < given.len() implies call_requires(
            key,
            (&#[trigger] given[j],),
        ) by {
            assert(call_requires(key, (&old(self).items()[j],)));
        }
        assert forall|j: int| 0 <= j < given.len() && occurence <= j + 1 implies call_requires(
            build,
            (#[trigger] given[j],),
        ) by {
            assert(call_requires(build, (old(self).items()[j],)));
        }
        let key_ref = &key;
        let same_as = |a: &T| -> (b: bool)
            requires
                call_requires(key_ref, (a,)),
            ensures
                exists|r: &S|
                    #[trigger] call_ensures(key_ref, (a,), r) && (S::obeys_eq_spec() ==> b
                        == r.eq_spec(same)),
            {
                let r = key_ref(a);
                *r == *same
            };
        self.dedup_and_replace_for_by_then_build(occurence, same_as, build);
        proof {
            assert forall|key_of: spec_fn(T) -> S, image: spec_fn(T) -> T|
                S::obeys_eq_spec() && reads(key, key_of, given) && computes(
                    build,
                    image,
                    given,
                ) implies self@ == #[trigger] collapse(
                given,
                keyed(key_of, *same),
                image,
                occurence as nat,
            ) by {
                assert(decides(same_as, keyed(key_of, *same), given));
            }
        }
    }

    fn dedup_and_replace_for_by_then_build<P: Fn(&T) -> bool, B: Fn(T) -> T>(
        &mut self,
        occurence: usize,
        same_as: P,
        build: B,
    )
        ensures
            forall|same: spec_fn(T) -> bool, image: spec_fn(T) -> T|
                decides(same_as, same, old(self)@) && computes(build, image, old(self)@)
                    ==> final(self)@ == #[trigger] collapse(
                    old(self)@,
                    same,
                    image,
                    occurence as nat,
                ),
    {
        let ghost src = self@;
        assert(src == old(self).items());
        assert forall|j: int| 0 <= j < src.len() implies call_requires(
            same_as,
            (&#[trigger] src[j],),
        ) by {
            assert(call_requires(same_as, (&old(self).items()[j],)));
        }
        assert forall|j: int| 0 <= j < src.len() && occurence <= j + 1 implies call_requires(
            build,
            (#[trigger] src[j],),
        ) by {
            assert(call_requires(build, (old(self).items()[j],)));
        }
        let mut out: Vec<T> = Vec::new();
        let mut i: usize = 0;
        assert(src.skip(0) =~= src);
        assert forall|same: spec_fn(T) -> bool, image: spec_fn(T) -> T|
            decides(same_as, same, src) && computes(build, image, src) implies #[trigger] collapse(
            src,
            same,
            image,
            occurence as nat,
        ) == out@ + collapse(src.skip(i as int), same, image, occurence as nat) by {
            assert(out@ + collapse(src, same, image, occurence as nat) =~= collapse(
                src,
                same,
                image,
                occurence as nat,
            ));
        }
        while i < self.len()
            invariant
                self@ == src,
                i <= src.len(),
                forall|j: int| 0 <= j < src.len() ==> call_requires(same_as, (&#[trigger] src[j],)),
                forall|j: int|
                    0 <= j < src.len() && occurence <= j + 1 ==> call_requires(
                        build,
                        (#[trigger] src[j],),
                    ),
                forall|same: spec_fn(T) -> bool, image: spec_fn(T) -> T|
                    decides(same_as, same, src) && computes(build, image, src)
                        ==> #[trigger] collapse(src, same, image, occurence as nat) == out@
                        + collapse(src.skip(i as int), same, image, occurence as nat),
            decreases src.len() - i,
        {
            let ghost before = out@;
            let ghost rest = src.skip(i as int);
            let ghost n = occurence as nat;
            let k = if occurence == 0 {
                0
            } else {
                run_length(self, i, occurence, &same_as)
            };
            if k == occurence {
                let last = if occurence == 0 {
                    i
                } else {
                    i + occurence - 1
                };
                let step = if occurence == 0 {
                    1
                } else {
                    occurence
                };
                assert(call_requires(build, (src[last as int],)));
                let y = build(self[last]);
                out.push(y);
                assert forall|same: spec_fn(T) -> bool, image: spec_fn(T) -> T|
                    decides(same_as, same, src) && computes(
                        build,
                        image,
                        src,
                    ) implies #[trigger] collapse(src, same, image, n) == out@ + collapse(
                    src.skip(i + step),
                    same,
                    image,
                    n,
                ) by {
                    assert(y == image(src[last as int]));
                    assert(rest.skip(step as int) =~= src.skip(i + step));
                    if n > 0 {
                        assert forall|j: int| 0 <= j < n implies same(#[trigger] rest[j]) by {
                            assert(call_ensures(same_as, (&src[i + j],), true));
                        }
                        assert(leading_run(rest, same, n));
                        assert(rest[n - 1] == src[last as int]);
                    } else {
                        assert(rest[0] == src[last as int]);
                    }
                    assert(collapse(rest, same, image, n) == seq![y] + collapse(
                        rest.skip(step as int),
                        same,
                        image,
                        n,
                    ));
                    assert(out@ + collapse(src.skip(i + step), same, image, n) =~= before
                        + collapse(rest, same, image, n));
                }
                i += step;
            } else {
                out.push(self[i]);
                assert forall|same: spec_fn(T) -> bool, image: spec_fn(T) -> T|
                    decides(same_as, same, src) && computes(
                        build,
                        image,
                        src,
                    ) implies #[trigger] collapse(src, same, image, n) == out@ + collapse(
                    src.skip(i + 1),
                    same,
                    image,
                    n,
                ) by {
                    assert(rest.skip(1) =~= src.skip(i + 1));
                    assert(!leading_run(rest, same, n)) by {
                        if i + k < src.len() {
                            assert(call_ensures(same_as, (&src[i + k],), false));
                            assert(!same(src[i + k]));
                            assert(rest[k as int] == src[i + k]);
                        }
                    }
                    assert(collapse(rest, same, image, n) == seq![src[i as int]] + collapse(
                        rest.skip(1),
                        same,
                        image,
                        n,
                    ));
                    assert(out@ + collapse(src.skip(i + 1), same, image, n) =~= before + collapse(
                        rest,
                        same,
                        image,
                        n,
                    ));
                }
                i += 1;
            }
        }
        assert forall|same: spec_fn(T) -> bool, image: spec_fn(T) -> T|
            decides(same_as, same, src) && computes(build, image, src) implies out@
            == #[trigger] collapse(src, same, image, occurence as nat) by {
            assert(src.skip(src.len() as int) =~= Seq::empty());
            assert(out@ + Seq::<T>::empty() =~= out@);
        }
        *self = out;
    }
}

} // verus!
