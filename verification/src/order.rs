//! Field-by-field ordering of records and ordered, duplicate-free listings.
//!
//! A record is ranked by the list of its fields, each written as bytes. Ranks
//! compare field by field, and fields compare byte by byte; whatever ends
//! first comes first.

use vstd::prelude::*;
use vstd::string::*;
use vstd::utf8::*;

verus! {

/// `a` comes before `b`, byte by byte.
pub open spec fn bytes_lt(a: Seq<u8>, b: Seq<u8>) -> bool
    decreases a.len(),
{
    if b.len() == 0 {
        false
    } else if a.len() == 0 {
        true
    } else if a[0] != b[0] {
        a[0] < b[0]
    } else {
        bytes_lt(a.drop_first(), b.drop_first())
    }
}

/// `a` comes before `b`, field by field.
pub open spec fn rank_lt(a: Seq<Seq<u8>>, b: Seq<Seq<u8>>) -> bool
    decreases a.len(),
{
    if b.len() == 0 {
        false
    } else if a.len() == 0 {
        true
    } else if a[0] != b[0] {
        bytes_lt(a[0], b[0])
    } else {
        rank_lt(a.drop_first(), b.drop_first())
    }
}

/// The rank of an optional field: an absent one comes before every present one.
pub open spec fn optional_rank(field: Option<Seq<char>>) -> Seq<u8> {
    match field {
        None => Seq::empty(),
        Some(text) => seq![1u8] + encode_utf8(text),
    }
}

/// The ranks of a list of names, one field each.
pub open spec fn names_rank(names: Seq<Seq<char>>) -> Seq<Seq<u8>> {
    Seq::new(names.len(), |i: int| encode_utf8(names[i]))
}

/// Values that are listed in the order of their ranks.
pub trait Ranked: DeepView + Sized {
    spec fn rank(model: <Self as DeepView>::V) -> Seq<Seq<u8>>;

    /// Equal ranks belong to equal values.
    proof fn rank_tells_apart(a: <Self as DeepView>::V, b: <Self as DeepView>::V)
        requires
            Self::rank(a) == Self::rank(b),
        ensures
            a == b,
    ;

    fn rank_key(&self) -> (key: Vec<Vec<u8>>)
        ensures
            key.deep_view() == Self::rank(self.deep_view()),
    ;
}

/// `a` is listed before `b`.
pub open spec fn precedes<T: Ranked>(a: T::V, b: T::V) -> bool {
    rank_lt(T::rank(a), T::rank(b))
}

/// Every value is listed before all that follow it, so none occurs twice.
pub open spec fn strictly_sorted<T: Ranked>(s: Seq<T::V>) -> bool {
    forall|i: int, j: int| 0 <= i < j < s.len() ==> #[trigger] precedes::<T>(s[i], s[j])
}

/// `listing` holds exactly the values of `items`, each once, in order.
pub open spec fn is_listing_of<T: Ranked>(listing: Seq<T::V>, items: Seq<T::V>) -> bool {
    &&& strictly_sorted::<T>(listing)
    &&& forall|x: T::V| #[trigger] listing.contains(x) <==> items.contains(x)
}

/// The ordered listing of the distinct values in `items`.
pub open spec fn sorted_distinct<T: Ranked>(items: Seq<T::V>) -> Seq<T::V> {
    choose|listing: Seq<T::V>| is_listing_of::<T>(listing, items)
}

pub proof fn bytes_lt_irreflexive(a: Seq<u8>)
    ensures
        !bytes_lt(a, a),
    decreases a.len(),
{
    if a.len() > 0 {
        bytes_lt_irreflexive(a.drop_first());
    }
}

pub proof fn bytes_lt_transitive(a: Seq<u8>, b: Seq<u8>, c: Seq<u8>)
    requires
        bytes_lt(a, b),
        bytes_lt(b, c),
    ensures
        bytes_lt(a, c),
    decreases a.len(),
{
    if a.len() > 0 && a[0] == b[0] && b[0] == c[0] {
        bytes_lt_transitive(a.drop_first(), b.drop_first(), c.drop_first());
    }
}

pub proof fn bytes_lt_total(a: Seq<u8>, b: Seq<u8>)
    requires
        a != b,
    ensures
        bytes_lt(a, b) || bytes_lt(b, a),
    decreases a.len(),
{
    if a.len() > 0 && b.len() > 0 && a[0] == b[0] {
        if a.drop_first() == b.drop_first() {
            assert(a =~= seq![a[0]] + a.drop_first());
            assert(b =~= seq![b[0]] + b.drop_first());
        }
        bytes_lt_total(a.drop_first(), b.drop_first());
    } else if a.len() == 0 && b.len() == 0 {
        assert(a =~= b);
    }
}

pub proof fn rank_lt_irreflexive(a: Seq<Seq<u8>>)
    ensures
        !rank_lt(a, a),
    decreases a.len(),
{
    if a.len() > 0 {
        rank_lt_irreflexive(a.drop_first());
    }
}

pub proof fn rank_lt_transitive(a: Seq<Seq<u8>>, b: Seq<Seq<u8>>, c: Seq<Seq<u8>>)
    requires
        rank_lt(a, b),
        rank_lt(b, c),
    ensures
        rank_lt(a, c),
    decreases a.len(),
{
    if a.len() > 0 {
        if a[0] == b[0] && b[0] == c[0] {
            rank_lt_transitive(a.drop_first(), b.drop_first(), c.drop_first());
        } else if a[0] != b[0] && b[0] != c[0] {
            bytes_lt_transitive(a[0], b[0], c[0]);
            bytes_lt_irreflexive(a[0]);
        }
    }
}

pub proof fn rank_lt_total(a: Seq<Seq<u8>>, b: Seq<Seq<u8>>)
    requires
        a != b,
    ensures
        rank_lt(a, b) || rank_lt(b, a),
    decreases a.len(),
{
    if a.len() > 0 && b.len() > 0 {
        if a[0] == b[0] {
            if a.drop_first() == b.drop_first() {
                assert(a =~= seq![a[0]] + a.drop_first());
                assert(b =~= seq![b[0]] + b.drop_first());
            }
            rank_lt_total(a.drop_first(), b.drop_first());
        } else {
            bytes_lt_total(a[0], b[0]);
        }
    } else if a.len() == 0 && b.len() == 0 {
        assert(a =~= b);
    }
}

/// Two listings of the same values are equal.
pub proof fn listing_is_unique<T: Ranked>(a: Seq<T::V>, b: Seq<T::V>)
    requires
        strictly_sorted::<T>(a),
        strictly_sorted::<T>(b),
        forall|x: T::V| #[trigger] a.contains(x) <==> b.contains(x),
    ensures
        a == b,
    decreases a.len(),
{
    if a.len() == 0 {
        if b.len() > 0 {
            assert(b.contains(b[0]));
            assert(a.contains(b[0]));
        }
        assert(a =~= b);
    } else {
        assert(a.contains(a[0]));
        assert(b.contains(a[0]));
        assert(b.contains(b[0]));
        assert(a.contains(b[0]));
        let i = choose|i: int| 0 <= i < b.len() && b[i] == a[0];
        let j = choose|j: int| 0 <= j < a.len() && a[j] == b[0];
        if a[0] != b[0] {
            assert(precedes::<T>(b[0], b[i]));
            assert(precedes::<T>(a[0], a[j]));
            rank_lt_transitive(T::rank(a[0]), T::rank(b[0]), T::rank(a[0]));
            rank_lt_irreflexive(T::rank(a[0]));
        }
        let ra = a.drop_first();
        let rb = b.drop_first();
        assert(strictly_sorted::<T>(ra)) by {
            assert forall|i: int, j: int| 0 <= i < j < ra.len() implies #[trigger] precedes::<T>(
                ra[i],
                ra[j],
            ) by {
                assert(precedes::<T>(a[i + 1], a[j + 1]));
            }
        }
        assert(strictly_sorted::<T>(rb)) by {
            assert forall|i: int, j: int| 0 <= i < j < rb.len() implies #[trigger] precedes::<T>(
                rb[i],
                rb[j],
            ) by {
                assert(precedes::<T>(b[i + 1], b[j + 1]));
            }
        }
        assert forall|x: T::V| #[trigger] ra.contains(x) <==> rb.contains(x) by {
            if ra.contains(x) {
                let k = choose|k: int| 0 <= k < ra.len() && ra[k] == x;
                assert(a[k + 1] == x);
                assert(precedes::<T>(a[0], a[k + 1]));
                rank_lt_irreflexive(T::rank(a[0]));
                assert(a.contains(x));
                assert(b.contains(x));
                let m = choose|m: int| 0 <= m < b.len() && b[m] == x;
                assert(rb[m - 1] == x);
            }
            if rb.contains(x) {
                let k = choose|k: int| 0 <= k < rb.len() && rb[k] == x;
                assert(b[k + 1] == x);
                assert(precedes::<T>(b[0], b[k + 1]));
                rank_lt_irreflexive(T::rank(b[0]));
                assert(b.contains(x));
                assert(a.contains(x));
                let m = choose|m: int| 0 <= m < a.len() && a[m] == x;
                assert(ra[m - 1] == x);
            }
        }
        listing_is_unique::<T>(ra, rb);
        assert(a =~= seq![a[0]] + ra);
        assert(b =~= seq![b[0]] + rb);
    }
}

/// A sequence that lists `items` is their ordered listing.
pub proof fn listing_is_sorted_distinct<T: Ranked>(listing: Seq<T::V>, items: Seq<T::V>)
    requires
        is_listing_of::<T>(listing, items),
    ensures
        sorted_distinct::<T>(items) == listing,
        is_listing_of::<T>(sorted_distinct::<T>(items), items),
{
    let chosen = sorted_distinct::<T>(items);
    assert(is_listing_of::<T>(chosen, items));
    assert forall|x: T::V| #[trigger] chosen.contains(x) <==> listing.contains(x) by {}
    listing_is_unique::<T>(chosen, listing);
}

proof fn split_point<T: Ranked>(listing: Seq<T::V>, item: T::V) -> (at: int)
    requires
        strictly_sorted::<T>(listing),
        !listing.contains(item),
    ensures
        0 <= at <= listing.len(),
        forall|i: int| 0 <= i < at ==> precedes::<T>(#[trigger] listing[i], item),
        forall|i: int| at <= i < listing.len() ==> precedes::<T>(item, #[trigger] listing[i]),
    decreases listing.len(),
{
    if listing.len() == 0 {
        0
    } else {
        let last = listing.len() - 1;
        let front = listing.drop_last();
        if precedes::<T>(listing[last], item) {
            assert forall|i: int| 0 <= i < listing.len() implies precedes::<T>(
                #[trigger] listing[i],
                item,
            ) by {
                if i < last {
                    assert(precedes::<T>(listing[i], listing[last]));
                    rank_lt_transitive(
                        T::rank(listing[i]),
                        T::rank(listing[last]),
                        T::rank(item),
                    );
                }
            }
            listing.len() as int
        } else {
            assert(strictly_sorted::<T>(front)) by {
                assert forall|i: int, j: int| 0 <= i < j < front.len() implies #[trigger] precedes::<
                    T,
                >(front[i], front[j]) by {
                    assert(precedes::<T>(listing[i], listing[j]));
                }
            }
            assert(!front.contains(item)) by {
                if front.contains(item) {
                    let i = choose|i: int| 0 <= i < front.len() && front[i] == item;
                    assert(listing[i] == item);
                }
            }
            let at = split_point::<T>(front, item);
            assert(listing[last] != item);
            if T::rank(listing[last]) == T::rank(item) {
                T::rank_tells_apart(listing[last], item);
            }
            rank_lt_total(T::rank(listing[last]), T::rank(item));
            assert forall|i: int| 0 <= i < at implies precedes::<T>(
                #[trigger] listing[i],
                item,
            ) by {
                assert(front[i] == listing[i]);
            }
            assert forall|i: int| at <= i < listing.len() implies precedes::<T>(
                item,
                #[trigger] listing[i],
            ) by {
                if i < last {
                    assert(front[i] == listing[i]);
                }
            }
            at
        }
    }
}

/// Every sequence of values has an ordered listing, which is no longer than
/// the sequence.
pub proof fn every_sequence_has_a_listing<T: Ranked>(items: Seq<T::V>)
    ensures
        is_listing_of::<T>(sorted_distinct::<T>(items), items),
        sorted_distinct::<T>(items).len() <= items.len(),
    decreases items.len(),
{
    if items.len() == 0 {
        let none = Seq::<T::V>::empty();
        assert(is_listing_of::<T>(none, items));
        listing_is_sorted_distinct::<T>(none, items);
    } else {
        let front = items.drop_last();
        let last = items.last();
        every_sequence_has_a_listing::<T>(front);
        let listed = sorted_distinct::<T>(front);
        assert forall|x: T::V| #[trigger] items.contains(x) <==> (front.contains(x) || x
            == last) by {
            if items.contains(x) {
                let k = choose|k: int| 0 <= k < items.len() && items[k] == x;
                if k < front.len() {
                    assert(front[k] == x);
                }
            }
            if front.contains(x) {
                let k = choose|k: int| 0 <= k < front.len() && front[k] == x;
                assert(items[k] == x);
            }
            if x == last {
                assert(items[items.len() - 1] == x);
            }
        }
        if listed.contains(last) {
            assert forall|x: T::V| #[trigger] listed.contains(x) <==> items.contains(x) by {}
            listing_is_sorted_distinct::<T>(listed, items);
        } else {
            let at = split_point::<T>(listed, last);
            let grown = listed.insert(at, last);
            assert forall|i: int, j: int| 0 <= i < j < grown.len() implies #[trigger] precedes::<T>(
                grown[i],
                grown[j],
            ) by {
                let oi = if i < at { i } else { i - 1 };
                let oj = if j < at { j } else { j - 1 };
                if i != at && j != at {
                    assert(precedes::<T>(listed[oi], listed[oj]));
                } else if i == at {
                    assert(precedes::<T>(last, listed[oj]));
                } else {
                    assert(precedes::<T>(listed[oi], last));
                }
            }
            assert forall|x: T::V| #[trigger] grown.contains(x) <==> items.contains(x) by {
                if grown.contains(x) {
                    let k = choose|k: int| 0 <= k < grown.len() && grown[k] == x;
                    if k != at {
                        let o = if k < at { k } else { k - 1 };
                        assert(listed[o] == x);
                        assert(listed.contains(x));
                    }
                }
                if items.contains(x) {
                    if x == last {
                        assert(grown[at] == x);
                    } else {
                        assert(listed.contains(x));
                        let m = choose|m: int| 0 <= m < listed.len() && listed[m] == x;
                        let p = if m < at { m } else { m + 1 };
                        assert(grown[p] == x);
                    }
                }
            }
            listing_is_sorted_distinct::<T>(grown, items);
        }
    }
}

/// The ordered listing depends on which values occur alone: neither on their
/// order nor on repetitions.
pub proof fn listing_ignores_order<T: Ranked>(a: Seq<T::V>, b: Seq<T::V>)
    requires
        forall|x: T::V| #[trigger] a.contains(x) <==> b.contains(x),
    ensures
        sorted_distinct::<T>(a) == sorted_distinct::<T>(b),
{
    every_sequence_has_a_listing::<T>(a);
    let listed = sorted_distinct::<T>(a);
    assert forall|x: T::V| #[trigger] listed.contains(x) <==> b.contains(x) by {
        assert(a.contains(x) <==> b.contains(x));
    }
    listing_is_sorted_distinct::<T>(listed, b);
}

/// Where one key stands relative to another.
pub enum Placement {
    Before,
    Same,
    After,
}

fn place_bytes(a: &Vec<u8>, b: &Vec<u8>) -> (result: Placement)
    ensures
        result is Before <==> bytes_lt(a@, b@),
        result is Same <==> a@ == b@,
        result is After <==> bytes_lt(b@, a@),
{
    let mut i: usize = 0;
    assert(a@.skip(0) =~= a@);
    assert(b@.skip(0) =~= b@);
    proof {
        bytes_lt_irreflexive(a@);
    }
    while i < a.len() && i < b.len()
        invariant
            i <= a@.len(),
            i <= b@.len(),
            forall|j: int| 0 <= j < i ==> a@[j] == b@[j],
            bytes_lt(a@, b@) == bytes_lt(a@.skip(i as int), b@.skip(i as int)),
            bytes_lt(b@, a@) == bytes_lt(b@.skip(i as int), a@.skip(i as int)),
        decreases a@.len() - i,
    {
        if a[i] < b[i] {
            return Placement::Before;
        }
        if a[i] > b[i] {
            return Placement::After;
        }
        assert(a@.skip(i as int).drop_first() =~= a@.skip(i + 1));
        assert(b@.skip(i as int).drop_first() =~= b@.skip(i + 1));
        i += 1;
    }
    if i < b.len() {
        Placement::Before
    } else if i < a.len() {
        Placement::After
    } else {
        assert(a@ =~= b@);
        Placement::Same
    }
}

/// Places the key `a` relative to the key `b`.
pub fn place(a: &Vec<Vec<u8>>, b: &Vec<Vec<u8>>) -> (result: Placement)
    ensures
        result is Before <==> rank_lt(a.deep_view(), b.deep_view()),
        result is Same <==> a.deep_view() == b.deep_view(),
        result is After <==> rank_lt(b.deep_view(), a.deep_view()),
{
    let mut i: usize = 0;
    let ghost x = a.deep_view();
    let ghost y = b.deep_view();
    assert(x.skip(0) =~= x);
    assert(y.skip(0) =~= y);
    proof {
        rank_lt_irreflexive(x);
    }
    while i < a.len() && i < b.len()
        invariant
            x == a.deep_view(),
            y == b.deep_view(),
            i <= a@.len(),
            i <= b@.len(),
            forall|j: int| 0 <= j < i ==> x[j] == y[j],
            rank_lt(x, y) == rank_lt(x.skip(i as int), y.skip(i as int)),
            rank_lt(y, x) == rank_lt(y.skip(i as int), x.skip(i as int)),
        decreases a@.len() - i,
    {
        assert(x[i as int] =~= a@[i as int]@);
        assert(y[i as int] =~= b@[i as int]@);
        proof {
            bytes_lt_irreflexive(x[i as int]);
        }
        match place_bytes(&a[i], &b[i]) {
            Placement::Before => {
                proof {
                    if bytes_lt(y[i as int], x[i as int]) {
                        bytes_lt_transitive(x[i as int], y[i as int], x[i as int]);
                    }
                }
                return Placement::Before;
            },
            Placement::After => {
                proof {
                    if bytes_lt(x[i as int], y[i as int]) {
                        bytes_lt_transitive(x[i as int], y[i as int], x[i as int]);
                    }
                }
                return Placement::After;
            },
            Placement::Same => {},
        }
        assert(x.skip(i as int).drop_first() =~= x.skip(i + 1));
        assert(y.skip(i as int).drop_first() =~= y.skip(i + 1));
        i += 1;
    }
    if i < b.len() {
        Placement::Before
    } else if i < a.len() {
        Placement::After
    } else {
        assert(x =~= y);
        Placement::Same
    }
}

/// The bytes of `s`.
pub fn text_key(s: &str) -> (key: Vec<u8>)
    ensures
        key@ == encode_utf8(s@),
{
    s.as_bytes_vec()
}

/// The rank of an optional field.
pub fn optional_key(field: &Option<String>) -> (key: Vec<u8>)
    ensures
        key@ == optional_rank(field.deep_view()),
{
    match field {
        None => Vec::new(),
        Some(text) => {
            let mut key: Vec<u8> = Vec::new();
            key.push(1);
            let mut bytes = text_key(text.as_str());
            key.append(&mut bytes);
            key
        },
    }
}

/// The ranks of a list of names.
pub fn names_key(names: &Vec<String>) -> (key: Vec<Vec<u8>>)
    ensures
        key@.len() == names@.len(),
        forall|i: int| 0 <= i < key@.len() ==> (#[trigger] key@[i])@ == encode_utf8(names@[i]@),
{
    let mut key: Vec<Vec<u8>> = Vec::new();
    let mut i: usize = 0;
    while i < names.len()
        invariant
            i <= names@.len(),
            key@.len() == i,
            forall|j: int| 0 <= j < i ==> (#[trigger] key@[j])@ == encode_utf8(names@[j]@),
        decreases names@.len() - i,
    {
        key.push(text_key(names[i].as_str()));
        i += 1;
    }
    key
}

/// Different texts have different bytes.
pub proof fn text_bytes_tell_apart(a: Seq<char>, b: Seq<char>)
    requires
        encode_utf8(a) == encode_utf8(b),
    ensures
        a == b,
{
    encode_utf8_decode_utf8(a);
    encode_utf8_decode_utf8(b);
}

/// Different optional fields have different ranks.
pub proof fn optional_ranks_tell_apart(a: Option<Seq<char>>, b: Option<Seq<char>>)
    requires
        optional_rank(a) == optional_rank(b),
    ensures
        a == b,
{
    match (a, b) {
        (Some(x), Some(y)) => {
            assert(encode_utf8(x) =~= optional_rank(a).skip(1));
            assert(encode_utf8(y) =~= optional_rank(b).skip(1));
            text_bytes_tell_apart(x, y);
        },
        (Some(x), None) => {
            assert(optional_rank(a).len() > 0);
        },
        (None, Some(y)) => {
            assert(optional_rank(b).len() > 0);
        },
        (None, None) => {},
    }
}

/// Different lists of names have different ranks.
pub proof fn names_ranks_tell_apart(a: Seq<Seq<char>>, b: Seq<Seq<char>>)
    requires
        names_rank(a) == names_rank(b),
    ensures
        a == b,
{
    let x = names_rank(a);
    let y = names_rank(b);
    assert(x.len() == a.len());
    assert(y.len() == b.len());
    assert forall|i: int| 0 <= i < a.len() implies a[i] == b[i] by {
        assert(x[i] == encode_utf8(a[i]));
        assert(y[i] == encode_utf8(b[i]));
        text_bytes_tell_apart(a[i], b[i]);
    }
    assert(a =~= b);
}

/// The position of the first of `keys` that does not come before `key`.
pub fn lower_bound(keys: &Vec<Vec<Vec<u8>>>, key: &Vec<Vec<u8>>) -> (at: usize)
    requires
        forall|i: int, j: int|
            0 <= i < j < keys@.len() ==> rank_lt(
                #[trigger] keys@[i].deep_view(),
                #[trigger] keys@[j].deep_view(),
            ),
    ensures
        at <= keys@.len(),
        forall|i: int| 0 <= i < at ==> rank_lt(#[trigger] keys@[i].deep_view(), key.deep_view()),
        forall|i: int|
            at <= i < keys@.len() ==> !rank_lt(#[trigger] keys@[i].deep_view(), key.deep_view()),
{
    let mut low: usize = 0;
    let mut high: usize = keys.len();
    while low < high
        invariant
            low <= high <= keys@.len(),
            forall|i: int, j: int|
                0 <= i < j < keys@.len() ==> rank_lt(
                    #[trigger] keys@[i].deep_view(),
                    #[trigger] keys@[j].deep_view(),
                ),
            forall|i: int|
                0 <= i < low ==> rank_lt(#[trigger] keys@[i].deep_view(), key.deep_view()),
            forall|i: int|
                high <= i < keys@.len() ==> !rank_lt(
                    #[trigger] keys@[i].deep_view(),
                    key.deep_view(),
                ),
        decreases high - low,
    {
        let mid: usize = low + (high - low) / 2;
        match place(&keys[mid], key) {
            Placement::Before => {
                assert forall|i: int| 0 <= i < mid + 1 implies rank_lt(
                    #[trigger] keys@[i].deep_view(),
                    key.deep_view(),
                ) by {
                    if i < mid {
                        rank_lt_transitive(
                            keys@[i].deep_view(),
                            keys@[mid as int].deep_view(),
                            key.deep_view(),
                        );
                    }
                }
                low = mid + 1;
            },
            _ => {
                assert forall|i: int| mid <= i < keys@.len() implies !rank_lt(
                    #[trigger] keys@[i].deep_view(),
                    key.deep_view(),
                ) by {
                    if i > mid && rank_lt(keys@[i].deep_view(), key.deep_view()) {
                        rank_lt_transitive(
                            keys@[mid as int].deep_view(),
                            keys@[i].deep_view(),
                            key.deep_view(),
                        );
                    }
                }
                high = mid;
            },
        }
    }
    low
}

/// Lists the distinct values of `items` in order.
pub fn sort_distinct<T: Ranked>(items: Vec<T>) -> (listing: Vec<T>)
    ensures
        listing.deep_view() == sorted_distinct::<T>(items.deep_view()),
        is_listing_of::<T>(listing.deep_view(), items.deep_view()),
{
    let ghost all = items.deep_view();
    let mut rest = items;
    let mut listing: Vec<T> = Vec::new();
    let mut keys: Vec<Vec<Vec<u8>>> = Vec::new();
    assert(all.take(rest@.len() as int) =~= all);
    while rest.len() > 0
        invariant
            rest@.len() <= all.len(),
            rest.deep_view() == all.take(rest@.len() as int),
            keys@.len() == listing@.len(),
            forall|i: int|
                0 <= i < keys@.len() ==> (#[trigger] keys@[i]).deep_view() == T::rank(
                    listing@[i].deep_view(),
                ),
            strictly_sorted::<T>(listing.deep_view()),
            forall|x: T::V|
                #[trigger] listing.deep_view().contains(x) <==> all.skip(
                    rest@.len() as int,
                ).contains(x),
        decreases rest@.len(),
    {
        let ghost before_rest = rest@.len() as int;
        let ghost old_rest = rest@;
        let item = rest.pop().unwrap();
        let ghost model = item.deep_view();
        let ghost listed = listing.deep_view();
        assert(model == all[before_rest - 1]) by {
            assert(all.take(before_rest)[before_rest - 1] == old_rest[before_rest - 1].deep_view());
        }
        assert(rest.deep_view() =~= all.take(before_rest - 1)) by {
            assert forall|i: int| 0 <= i < before_rest - 1 implies rest.deep_view()[i] == all[i] by {
                assert(all.take(before_rest)[i] == old_rest[i].deep_view());
            }
        }
        let key = item.rank_key();
        assert forall|i: int, j: int| 0 <= i < j < keys@.len() implies rank_lt(
            #[trigger] keys@[i].deep_view(),
            #[trigger] keys@[j].deep_view(),
        ) by {
            assert(precedes::<T>(listed[i], listed[j]));
        }
        let at = lower_bound(&keys, &key);
        let mut present = false;
        if at < keys.len() {
            match place(&keys[at], &key) {
                Placement::Same => {
                    present = true;
                    proof {
                        T::rank_tells_apart(listing@[at as int].deep_view(), model);
                    }
                },
                _ => {},
            }
        }
        let ghost remaining = all.skip(before_rest);
        let ghost grown = all.skip(before_rest - 1);
        assert(grown =~= seq![model] + remaining);
        if present {
            assert(listed[at as int] == model);
            assert forall|x: T::V| #[trigger] listed.contains(x) <==> grown.contains(x) by {
                if listed.contains(x) {
                    assert(remaining.contains(x));
                    let k = choose|k: int| 0 <= k < remaining.len() && remaining[k] == x;
                    assert(grown[k + 1] == x);
                }
                if grown.contains(x) {
                    let k = choose|k: int| 0 <= k < grown.len() && grown[k] == x;
                    if k > 0 {
                        assert(remaining[k - 1] == x);
                        assert(remaining.contains(x));
                    } else {
                        assert(listed[at as int] == x);
                    }
                }
            }
        } else {
            let ghost old_listing = listing@;
            let ghost old_keys = keys@;
            assert forall|i: int| at <= i < listed.len() implies precedes::<T>(
                model,
                #[trigger] listed[i],
            ) by {
                assert(!rank_lt(old_keys[i].deep_view(), key.deep_view()));
                if i > at {
                    assert(precedes::<T>(listed[at as int], listed[i]));
                }
                assert(T::rank(listed[at as int]) != T::rank(model));
                assert(!rank_lt(old_keys[at as int].deep_view(), key.deep_view()));
                rank_lt_total(T::rank(listed[at as int]), T::rank(model));
                if i > at {
                    rank_lt_transitive(
                        T::rank(model),
                        T::rank(listed[at as int]),
                        T::rank(listed[i]),
                    );
                }
            }
            assert forall|i: int| 0 <= i < at implies precedes::<T>(#[trigger] listed[i], model) by {
                assert(rank_lt(old_keys[i].deep_view(), key.deep_view()));
            }
            listing.insert(at, item);
            keys.insert(at, key);
            let ghost now = listing.deep_view();
            assert(now =~= listed.insert(at as int, model));
            assert forall|i: int, j: int| 0 <= i < j < now.len() implies #[trigger] precedes::<T>(
                now[i],
                now[j],
            ) by {
                let oi = if i < at { i } else { i - 1 };
                let oj = if j < at { j } else { j - 1 };
                if i != at && j != at {
                    assert(precedes::<T>(listed[oi], listed[oj]));
                } else if i == at {
                    assert(precedes::<T>(model, listed[oj]));
                } else {
                    assert(precedes::<T>(listed[oi], model));
                }
            }
            assert forall|x: T::V| #[trigger] now.contains(x) <==> grown.contains(x) by {
                if now.contains(x) {
                    let k = choose|k: int| 0 <= k < now.len() && now[k] == x;
                    if k == at {
                        assert(grown[0] == x);
                    } else {
                        let o = if k < at { k } else { k - 1 };
                        assert(listed[o] == x);
                        assert(listed.contains(x));
                        assert(remaining.contains(x));
                        let m = choose|m: int| 0 <= m < remaining.len() && remaining[m] == x;
                        assert(grown[m + 1] == x);
                    }
                }
                if grown.contains(x) {
                    let k = choose|k: int| 0 <= k < grown.len() && grown[k] == x;
                    if k == 0 {
                        assert(now[at as int] == x);
                    } else {
                        assert(remaining[k - 1] == x);
                        assert(remaining.contains(x));
                        assert(listed.contains(x));
                        let m = choose|m: int| 0 <= m < listed.len() && listed[m] == x;
                        let p = if m < at { m } else { m + 1 };
                        assert(now[p] == x);
                    }
                }
            }
            assert forall|i: int| 0 <= i < keys@.len() implies (#[trigger] keys@[i]).deep_view()
                == T::rank(listing@[i].deep_view()) by {
                if i < at {
                    assert(keys@[i] == old_keys[i]);
                    assert(listing@[i] == old_listing[i]);
                } else if i > at {
                    assert(keys@[i] == old_keys[i - 1]);
                    assert(listing@[i] == old_listing[i - 1]);
                }
            }
        }
    }
    assert(all.skip(0) =~= all);
    proof {
        listing_is_sorted_distinct::<T>(listing.deep_view(), all);
    }
    listing
}

/// Strings are listed in the order of their bytes.
impl Ranked for String {
    open spec fn rank(model: Seq<char>) -> Seq<Seq<u8>> {
        seq![encode_utf8(model)]
    }

    proof fn rank_tells_apart(a: Seq<char>, b: Seq<char>) {
        assert(Self::rank(a)[0] == Self::rank(b)[0]);
        text_bytes_tell_apart(a, b);
    }

    fn rank_key(&self) -> (key: Vec<Vec<u8>>) {
        let mut key: Vec<Vec<u8>> = Vec::new();
        key.push(text_key(self.as_str()));
        assert(key@[0].deep_view() =~= key@[0]@);
        assert(key.deep_view() =~= seq![encode_utf8(self@)]);
        key
    }
}

}
