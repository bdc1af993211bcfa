//! Stable sorting: what it means, what holds of it, and the two sorts that
//! the library needs.

use crate::generate_ics::{event_views, EventView, SoonToBeIcsEvent};
use crate::text::{chars_of, lowercase, lowercase_of, text_before, text_less, texts};
use vstd::prelude::*;

verus! {

/// `s` with `x` put in behind every element that `x` need not precede.
pub open spec fn inserted<T>(s: Seq<T>, x: T, before: spec_fn(T, T) -> bool) -> Seq<T>
    decreases s.len(),
{
    if s.len() > 0 && before(x, s.last()) {
        inserted(s.drop_last(), x, before).push(s.last())
    } else {
        s.push(x)
    }
}

/// The elements of `s` in the order that `before` asks for; elements of
/// which neither has to precede the other stay as they stand in `s`.
pub open spec fn stable_sorted<T>(s: Seq<T>, before: spec_fn(T, T) -> bool) -> Seq<T>
    decreases s.len(),
{
    if s.len() == 0 {
        Seq::empty()
    } else {
        inserted(stable_sorted(s.drop_last(), before), s.last(), before)
    }
}

/// No element has to precede one that stands before it.
pub open spec fn is_ordered<T>(s: Seq<T>, before: spec_fn(T, T) -> bool) -> bool {
    forall|i: int, j: int| 0 <= i < j < s.len() ==> !before(#[trigger] s[j], #[trigger] s[i])
}

/// `before` ranks: nothing precedes itself or what precedes it, and where
/// `a` need not follow `b` nor `b` follow `c`, `a` need not follow `c`.
pub open spec fn is_ranking<T>(before: spec_fn(T, T) -> bool) -> bool {
    &&& forall|a: T, b: T| #[trigger] before(a, b) ==> !before(b, a)
    &&& forall|a: T, b: T, c: T|
        !#[trigger] before(b, a) && !#[trigger] before(c, b) ==> !before(c, a)
}

/// Where `x` comes to stand: behind the elements before `p`, in front of
/// those from `p` on.
pub proof fn lemma_inserted_at<T>(s: Seq<T>, x: T, before: spec_fn(T, T) -> bool, p: int)
    requires
        0 <= p <= s.len(),
        forall|k: int| p <= k < s.len() ==> before(x, #[trigger] s[k]),
        p > 0 ==> !before(x, s[p - 1]),
    ensures
        inserted(s, x, before) == s.insert(p, x),
    decreases s.len() - p,
{
    if p == s.len() {
        assert(s.push(x) =~= s.insert(p, x));
    } else {
        assert(before(x, s[s.len() - 1]));
        let t = s.drop_last();
        assert forall|k: int| p <= k < t.len() implies before(x, #[trigger] t[k]) by {
            assert(t[k] == s[k]);
        }
        lemma_inserted_at(t, x, before, p);
        assert(t.insert(p, x).push(s.last()) =~= s.insert(p, x));
    }
}

/// Putting an element in adds it and nothing else.
pub proof fn lemma_inserted_multiset<T>(s: Seq<T>, x: T, before: spec_fn(T, T) -> bool)
    ensures
        inserted(s, x, before).to_multiset() == s.to_multiset().insert(x),
        inserted(s, x, before).len() == s.len() + 1,
    decreases s.len(),
{
    broadcast use vstd::seq_lib::group_to_multiset_ensures;

    if s.len() > 0 && before(x, s.last()) {
        lemma_inserted_multiset(s.drop_last(), x, before);
        assert(s.drop_last().push(s.last()) =~= s);
        assert(inserted(s, x, before).to_multiset() =~= s.to_multiset().insert(x));
    }
}

/// Sorting keeps every element, as often as it occurs.
pub proof fn law_sorting_permutes<T>(s: Seq<T>, before: spec_fn(T, T) -> bool)
    ensures
        stable_sorted(s, before).to_multiset() == s.to_multiset(),
        stable_sorted(s, before).len() == s.len(),
    decreases s.len(),
{
    broadcast use vstd::seq_lib::group_to_multiset_ensures;

    if s.len() > 0 {
        law_sorting_permutes(s.drop_last(), before);
        lemma_inserted_multiset(stable_sorted(s.drop_last(), before), s.last(), before);
        assert(s.drop_last().push(s.last()) =~= s);
    } else {
        assert(s =~= Seq::<T>::empty());
    }
}

/// The place at which `x` is put into `s`.
pub open spec fn insertion_point<T>(s: Seq<T>, x: T, before: spec_fn(T, T) -> bool) -> int
    decreases s.len(),
{
    if s.len() > 0 && before(x, s.last()) {
        insertion_point(s.drop_last(), x, before)
    } else {
        s.len() as int
    }
}

proof fn lemma_insertion_point<T>(s: Seq<T>, x: T, before: spec_fn(T, T) -> bool)
    ensures
        0 <= insertion_point(s, x, before) <= s.len(),
        forall|k: int| insertion_point(s, x, before) <= k < s.len() ==> before(x, #[trigger] s[k]),
        insertion_point(s, x, before) > 0 ==> !before(x, s[insertion_point(s, x, before) - 1]),
        inserted(s, x, before) == s.insert(insertion_point(s, x, before), x),
    decreases s.len(),
{
    if s.len() > 0 && before(x, s.last()) {
        let t = s.drop_last();
        lemma_insertion_point(t, x, before);
        let p = insertion_point(t, x, before);
        assert forall|k: int| p <= k < s.len() implies before(x, #[trigger] s[k]) by {
            if k < t.len() {
                assert(t[k] == s[k]);
            }
        }
        if p > 0 {
            assert(t[p - 1] == s[p - 1]);
        }
    }
    lemma_inserted_at(s, x, before, insertion_point(s, x, before));
}

/// Putting an element into an ordered sequence leaves it ordered.
pub proof fn lemma_inserted_ordered<T>(s: Seq<T>, x: T, before: spec_fn(T, T) -> bool)
    requires
        is_ranking(before),
        is_ordered(s, before),
    ensures
        is_ordered(inserted(s, x, before), before),
{
    lemma_insertion_point(s, x, before);
    let p = insertion_point(s, x, before);
    let r = s.insert(p, x);
    assert forall|i: int, j: int| 0 <= i < j < r.len() implies !before(
        #[trigger] r[j],
        #[trigger] r[i],
    ) by {
        if j == p {
            // r[i] is an element in front of the place: it need not follow x
            assert(r[i] == s[i]);
            if i < p - 1 {
                assert(!before(s[p - 1], s[i]));
            }
            assert(!before(x, s[p - 1]));
        } else if i == p {
            assert(r[j] == s[j - 1]);
            assert(before(x, s[j - 1]));
        } else {
            let a = if i < p {
                i
            } else {
                i - 1
            };
            let b = if j < p {
                j
            } else {
                j - 1
            };
            assert(r[i] == s[a]);
            assert(r[j] == s[b]);
        }
    }
}

/// What comes out of sorting is in order, if `before` ranks.
pub proof fn law_sorting_orders<T>(s: Seq<T>, before: spec_fn(T, T) -> bool)
    requires
        is_ranking(before),
    ensures
        is_ordered(stable_sorted(s, before), before),
    decreases s.len(),
{
    if s.len() > 0 {
        law_sorting_orders(s.drop_last(), before);
        lemma_inserted_ordered(stable_sorted(s.drop_last(), before), s.last(), before);
    }
}

/// Putting an element in changes the elements of a class as appending it
/// would, if the class is one of which no element has to precede another.
pub proof fn lemma_inserted_filter<T>(
    s: Seq<T>,
    x: T,
    before: spec_fn(T, T) -> bool,
    class: spec_fn(T) -> bool,
)
    requires
        forall|a: T, b: T| class(a) && class(b) ==> !#[trigger] before(a, b),
    ensures
        inserted(s, x, before).filter(class) == if class(x) {
            s.filter(class).push(x)
        } else {
            s.filter(class)
        },
    decreases s.len(),
{
    reveal(Seq::filter);
    if s.len() > 0 && before(x, s.last()) {
        let rest = inserted(s.drop_last(), x, before);
        lemma_inserted_filter(s.drop_last(), x, before, class);
        assert(rest.push(s.last()).drop_last() =~= rest);
    } else {
        assert(s.push(x).drop_last() =~= s);
    }
}

/// Sorting is stable: the elements of a class of which none has to precede
/// another come out in the order in which they went in.
pub proof fn law_sorting_is_stable<T>(
    s: Seq<T>,
    before: spec_fn(T, T) -> bool,
    class: spec_fn(T) -> bool,
)
    requires
        forall|a: T, b: T| class(a) && class(b) ==> !#[trigger] before(a, b),
    ensures
        stable_sorted(s, before).filter(class) == s.filter(class),
    decreases s.len(),
{
    reveal(Seq::filter);
    if s.len() > 0 {
        law_sorting_is_stable(s.drop_last(), before, class);
        lemma_inserted_filter(stable_sorted(s.drop_last(), before), s.last(), before, class);
    }
}

/// Whether `a` has to stand before `b` in a calendar: it starts earlier.
pub open spec fn by_start() -> spec_fn(EventView, EventView) -> bool {
    |a: EventView, b: EventView| a.start_time.is_before(b.start_time)
}

/// The events by their start; events with the same start keep their order.
pub open spec fn sorted_by_start(events: Seq<EventView>) -> Seq<EventView> {
    stable_sorted(events, by_start())
}

/// Sorts the events by their start; events with the same start keep their
/// order.
pub fn sort_by_start(events: Vec<SoonToBeIcsEvent>) -> (sorted: Vec<SoonToBeIcsEvent>)
    ensures
        event_views(sorted@) == sorted_by_start(event_views(events@)),
{
    let ghost all = event_views(events@);
    let mut sorted: Vec<SoonToBeIcsEvent> = Vec::new();
    assert(all.take(0) =~= Seq::<EventView>::empty());
    assert(event_views(sorted@) =~= Seq::<EventView>::empty());
    for event in it: events
        invariant
            it.seq() == events@,
            all == event_views(events@),
            event_views(sorted@) == sorted_by_start(all.take(it.index() as int)),
    {
        let ghost done = event_views(sorted@);
        let ghost x = event@;
        let mut p: usize = sorted.len();
        while p > 0 && event.start_time.earlier_than(&sorted[p - 1].start_time)
            invariant
                p <= sorted.len(),
                done == event_views(sorted@),
                x == event@,
                forall|k: int| p <= k < done.len() ==> by_start()(x, #[trigger] done[k]),
            decreases p,
        {
            p -= 1;
        }
        sorted.insert(p, event);
        proof {
            let i = it.index() as int;
            lemma_inserted_at(done, x, by_start(), p as int);
            assert(event_views(sorted@) =~= done.insert(p as int, x));
            assert(all.take(i + 1).drop_last() =~= all.take(i));
            assert(all.take(i + 1).last() == x);
        }
    }
    assert(all.take(all.len() as int) =~= all);
    sorted
}

/// Starting earlier ranks events.
pub proof fn lemma_by_start_ranks()
    ensures
        is_ranking(by_start()),
{
}

/// Sorted events are the same events, none lost and none added, and none
/// starts earlier than one that stands before it.
pub proof fn law_sorted_by_start(events: Seq<EventView>)
    ensures
        sorted_by_start(events).to_multiset() == events.to_multiset(),
        sorted_by_start(events).len() == events.len(),
        forall|i: int, j: int|
            0 <= i < j < events.len() ==> !(#[trigger] sorted_by_start(
                events,
            )[j]).start_time.is_before((#[trigger] sorted_by_start(events)[i]).start_time),
{
    lemma_by_start_ranks();
    law_sorting_permutes(events, by_start());
    law_sorting_orders(events, by_start());
    let r = sorted_by_start(events);
    assert forall|i: int, j: int| 0 <= i < j < events.len() implies !(#[trigger] r[j]).start_time.is_before(
        (#[trigger] r[i]).start_time,
    ) by {
        assert(!by_start()(r[j], r[i]));
    }
}

/// What a text is sorted by: itself, or its lower-case form.
pub open spec fn sort_key(text: Seq<char>, fold_case: bool) -> Seq<char> {
    if fold_case {
        lowercase_of(text)
    } else {
        text
    }
}

/// Whether a text has to stand before another: its key comes first in the
/// dictionary.
pub open spec fn by_sort_key(fold_case: bool) -> spec_fn(Seq<char>, Seq<char>) -> bool {
    |a: Seq<char>, b: Seq<char>| text_before(sort_key(a, fold_case), sort_key(b, fold_case))
}

/// Sorts texts as a dictionary has them, by their lower-case form if
/// `fold_case` says so; texts with the same key keep their order.
pub fn sort_texts(names: Vec<String>, fold_case: bool) -> (sorted: Vec<String>)
    ensures
        texts(sorted@) == stable_sorted(texts(names@), by_sort_key(fold_case)),
{
    let ghost all = texts(names@);
    let ghost order = by_sort_key(fold_case);
    let mut sorted: Vec<String> = Vec::new();
    let mut keys: Vec<Vec<char>> = Vec::new();
    assert(all.take(0) =~= Seq::<Seq<char>>::empty());
    assert(texts(sorted@) =~= Seq::<Seq<char>>::empty());
    for name in it: names
        invariant
            it.seq() == names@,
            all == texts(names@),
            order == by_sort_key(fold_case),
            texts(sorted@) == stable_sorted(all.take(it.index() as int), order),
            keys.len() == sorted.len(),
            forall|k: int|
                0 <= k < keys.len() ==> (#[trigger] keys[k])@ == sort_key(sorted[k]@, fold_case),
    {
        let ghost done = texts(sorted@);
        let ghost x = name@;
        let key = if fold_case {
            let lower = lowercase(name.as_str());
            chars_of(lower.as_str())
        } else {
            chars_of(name.as_str())
        };
        let mut p: usize = sorted.len();
        while p > 0 && text_less(&key, &keys[p - 1])
            invariant
                p <= sorted.len(),
                keys.len() == sorted.len(),
                done == texts(sorted@),
                order == by_sort_key(fold_case),
                key@ == sort_key(x, fold_case),
                forall|k: int|
                    0 <= k < keys.len() ==> (#[trigger] keys[k])@ == sort_key(
                        sorted[k]@,
                        fold_case,
                    ),
                forall|k: int| p <= k < done.len() ==> order(x, #[trigger] done[k]),
            decreases p,
        {
            p -= 1;
        }
        proof {
            if p > 0 {
                assert(keys[p - 1]@ == sort_key(sorted[p - 1]@, fold_case));
                assert(done[p - 1] == sorted[p - 1]@);
            }
            lemma_inserted_at(done, x, order, p as int);
        }
        sorted.insert(p, name);
        keys.insert(p, key);
        proof {
            let i = it.index() as int;
            assert(texts(sorted@) =~= done.insert(p as int, x));
            assert(all.take(i + 1).drop_last() =~= all.take(i));
            assert(all.take(i + 1).last() == x);
        }
    }
    assert(all.take(all.len() as int) =~= all);
    sorted
}

/// Events that start at the same time stay in the order in which they
/// were.
pub proof fn law_equal_starts_keep_order(events: Seq<EventView>, start: crate::datetime::DateTimeView)
    ensures
        sorted_by_start(events).filter(|e: EventView| e.start_time == start) == events.filter(
            |e: EventView| e.start_time == start,
        ),
{
    let class = |e: EventView| e.start_time == start;
    assert forall|a: EventView, b: EventView| class(a) && class(b) implies !#[trigger] by_start()(
        a,
        b,
    ) by {}
    law_sorting_is_stable(events, by_start(), class);
}

/// The order of a dictionary ranks texts, by themselves or by their
/// lower-case form.
pub proof fn lemma_by_sort_key_ranks(fold_case: bool)
    ensures
        is_ranking(by_sort_key(fold_case)),
{
    let before = by_sort_key(fold_case);
    assert forall|a: Seq<char>, b: Seq<char>| #[trigger] before(a, b) implies !before(b, a) by {
        crate::text::lemma_text_before_one_way(sort_key(a, fold_case), sort_key(b, fold_case));
    }
    assert forall|a: Seq<char>, b: Seq<char>, c: Seq<char>|
        !#[trigger] before(b, a) && !#[trigger] before(c, b) implies !before(c, a) by {
        crate::text::lemma_text_before_chain(
            sort_key(a, fold_case),
            sort_key(b, fold_case),
            sort_key(c, fold_case),
        );
    }
}

/// Sorted texts are the same texts, none lost and none added; none has a
/// key that stands before the key of a text in front of it; and texts with
/// the same key stay in the order in which they were.
pub proof fn law_sorted_texts(names: Seq<Seq<char>>, fold_case: bool, key: Seq<char>)
    ensures
        stable_sorted(names, by_sort_key(fold_case)).to_multiset() == names.to_multiset(),
        stable_sorted(names, by_sort_key(fold_case)).len() == names.len(),
        forall|i: int, j: int|
            0 <= i < j < names.len() ==> !text_before(
                sort_key(#[trigger] stable_sorted(names, by_sort_key(fold_case))[j], fold_case),
                sort_key(#[trigger] stable_sorted(names, by_sort_key(fold_case))[i], fold_case),
            ),
        stable_sorted(names, by_sort_key(fold_case)).filter(
            |t: Seq<char>| sort_key(t, fold_case) == key,
        ) == names.filter(|t: Seq<char>| sort_key(t, fold_case) == key),
{
    let before = by_sort_key(fold_case);
    let r = stable_sorted(names, before);
    lemma_by_sort_key_ranks(fold_case);
    law_sorting_permutes(names, before);
    law_sorting_orders(names, before);
    assert forall|i: int, j: int| 0 <= i < j < names.len() implies !text_before(
        sort_key(#[trigger] r[j], fold_case),
        sort_key(#[trigger] r[i], fold_case),
    ) by {
        assert(!before(r[j], r[i]));
    }
    let class = |t: Seq<char>| sort_key(t, fold_case) == key;
    assert forall|a: Seq<char>, b: Seq<char>| class(a) && class(b) implies !#[trigger] before(
        a,
        b,
    ) by {
        crate::text::lemma_text_before_one_way(key, key);
    }
    law_sorting_is_stable(names, before, class);
}

} // verus!
