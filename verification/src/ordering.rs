//! The order in which projects are listed: by manager, date, name or index,
//! keeping projects with equal keys in the order they were found.

use vstd::prelude::*;
use crate::text::{chars_lt, lemma_chars_lt_irreflexive, lemma_chars_lt_total,
    lemma_chars_lt_transitive, same_text, text_lt};

verus! {

/// What a project offers to be ordered by.
pub struct ProjectRecord {
    pub name: Option<String>,
    pub manager: Option<String>,
    /// The project's date as a day number; days compare as the dates do.
    pub date: Option<i64>,
    pub index: Option<String>,
}

/// The field that a listing is sorted by.
#[derive(PartialEq, Eq, Structural, Debug, Clone, Copy)]
pub enum SortField {
    Manager,
    Date,
    Name,
    Index,
}

/// The field named on the command line or in the configuration: `manager`,
/// `date` or `name`; `index` and every other word sort by index.
pub open spec fn spec_sort_field(sort_by: Seq<char>) -> SortField {
    if sort_by == "manager"@ {
        SortField::Manager
    } else if sort_by == "date"@ {
        SortField::Date
    } else if sort_by == "name"@ {
        SortField::Name
    } else {
        SortField::Index
    }
}

/// Chooses the field to sort by from its name.
pub fn sort_field(sort_by: &str) -> (f: SortField)
    ensures
        f == spec_sort_field(sort_by@),
{
    if same_text(sort_by, "manager") {
        SortField::Manager
    } else if same_text(sort_by, "date") {
        SortField::Date
    } else if same_text(sort_by, "name") {
        SortField::Name
    } else {
        SortField::Index
    }
}

/// The text of an optional string.
pub open spec fn opt_view(o: Option<String>) -> Option<Seq<char>> {
    match o {
        Some(s) => Some(s@),
        None => None,
    }
}

/// A sort key: an optional text and an optional day.  For a given field one
/// of the two is absent in every record.
pub type SortKey = (Option<Seq<char>>, Option<i64>);

/// The index that a project without one sorts under.
pub open spec fn index_key(r: ProjectRecord) -> Seq<char> {
    match r.index {
        Some(s) => s@,
        None => "zzzz"@,
    }
}

/// The key of a record for a field.
pub open spec fn sort_key(r: ProjectRecord, f: SortField) -> SortKey {
    match f {
        SortField::Manager => (opt_view(r.manager), None),
        SortField::Name => (opt_view(r.name), None),
        SortField::Date => (None, r.date),
        SortField::Index => (Some(index_key(r)), None),
    }
}

/// `Option`'s order on texts: nothing comes first.
pub open spec fn opt_text_lt(a: Option<Seq<char>>, b: Option<Seq<char>>) -> bool {
    match (a, b) {
        (None, Some(_)) => true,
        (Some(x), Some(y)) => chars_lt(x, y),
        _ => false,
    }
}

/// `Option`'s order on days: nothing comes first.
pub open spec fn opt_day_lt(a: Option<i64>, b: Option<i64>) -> bool {
    match (a, b) {
        (None, Some(_)) => true,
        (Some(x), Some(y)) => x < y,
        _ => false,
    }
}

/// The strict order on keys.
pub open spec fn key_lt(a: SortKey, b: SortKey) -> bool {
    opt_text_lt(a.0, b.0) || (a.0 == b.0 && opt_day_lt(a.1, b.1))
}

/// Record `a` sorts strictly before record `b` by field `f`.
pub open spec fn record_lt(a: ProjectRecord, b: ProjectRecord, f: SortField) -> bool {
    key_lt(sort_key(a, f), sort_key(b, f))
}

/// In a stable sort by `f`, the record at position `i` of the input comes
/// before the one at position `j`.
pub open spec fn precedes(recs: Seq<ProjectRecord>, f: SortField, i: int, j: int) -> bool {
    record_lt(recs[i], recs[j], f) || (!record_lt(recs[j], recs[i], f) && i < j)
}

/// `order` lists every position of `recs` once, as a stable sort by `f`
/// arranges them.
pub open spec fn is_listing_order(recs: Seq<ProjectRecord>, f: SortField, order: Seq<usize>) -> bool {
    &&& order.len() == recs.len()
    &&& forall|p: int| 0 <= p < order.len() ==> #[trigger] order[p] < recs.len()
    &&& forall|x: usize| x < recs.len() ==> #[trigger] order.contains(x)
    &&& forall|p: int, q: int| 0 <= p < q < order.len() ==> order[p] != order[q]
    &&& forall|p: int, q: int|
        0 <= p < q < order.len() ==> #[trigger] precedes(recs, f, order[p] as int, order[q] as int)
}

proof fn lemma_key_irreflexive(a: SortKey)
    ensures
        !key_lt(a, a),
{
    if let Some(x) = a.0 {
        lemma_chars_lt_irreflexive(x);
    }
}

proof fn lemma_opt_text_transitive(a: Option<Seq<char>>, b: Option<Seq<char>>, c: Option<Seq<char>>)
    requires
        opt_text_lt(a, b),
        opt_text_lt(b, c),
    ensures
        opt_text_lt(a, c),
{
    if let (Some(x), Some(y), Some(z)) = (a, b, c) {
        lemma_chars_lt_transitive(x, y, z);
    }
}

proof fn lemma_key_transitive(a: SortKey, b: SortKey, c: SortKey)
    requires
        key_lt(a, b),
        key_lt(b, c),
    ensures
        key_lt(a, c),
{
    if opt_text_lt(a.0, b.0) && opt_text_lt(b.0, c.0) {
        lemma_opt_text_transitive(a.0, b.0, c.0);
    }
}

proof fn lemma_key_total(a: SortKey, b: SortKey)
    ensures
        key_lt(a, b) || a == b || key_lt(b, a),
{
    if let (Some(x), Some(y)) = (a.0, b.0) {
        lemma_chars_lt_total(x, y);
    }
}

/// Inserting the next position where the search stopped keeps the order.
proof fn lemma_insert_keeps_order(
    recs: Seq<ProjectRecord>,
    f: SortField,
    old_order: Seq<usize>,
    p: int,
    k: usize,
)
    requires
        k < recs.len(),
        old_order.len() == k,
        0 <= p <= k,
        forall|a: int| 0 <= a < old_order.len() ==> #[trigger] old_order[a] < k,
        forall|x: usize| x < k ==> #[trigger] old_order.contains(x),
        forall|a: int, b: int| 0 <= a < b < old_order.len() ==> old_order[a] != old_order[b],
        forall|a: int, b: int|
            0 <= a < b < old_order.len() ==> #[trigger] precedes(
                recs,
                f,
                old_order[a] as int,
                old_order[b] as int,
            ),
        forall|a: int| 0 <= a < p ==> !record_lt(recs[k as int], #[trigger] recs[old_order[a] as int], f),
        p < k ==> record_lt(recs[k as int], recs[old_order[p] as int], f),
    ensures
        ({
            let o = old_order.insert(p, k);
            &&& o.len() == k + 1
            &&& forall|a: int| 0 <= a < o.len() ==> #[trigger] o[a] < k + 1
            &&& forall|x: usize| x < k + 1 ==> #[trigger] o.contains(x)
            &&& forall|a: int, b: int| 0 <= a < b < o.len() ==> o[a] != o[b]
            &&& forall|a: int, b: int|
                0 <= a < b < o.len() ==> #[trigger] precedes(recs, f, o[a] as int, o[b] as int)
        }),
{
    let o = old_order.insert(p, k);
    assert forall|a: int| 0 <= a < o.len() implies #[trigger] o[a] < k + 1 by {
        if a < p {
            assert(o[a] == old_order[a]);
        } else if a > p {
            assert(o[a] == old_order[a - 1]);
        }
    }
    assert forall|x: usize| x < k + 1 implies #[trigger] o.contains(x) by {
        if x == k {
            assert(o[p] == k);
        } else {
            assert(old_order.contains(x));
            let w = choose|w: int| 0 <= w < old_order.len() && old_order[w] == x;
            if w < p {
                assert(o[w] == x);
            } else {
                assert(o[w + 1] == x);
            }
        }
    }
    assert forall|a: int, b: int| 0 <= a < b < o.len() implies o[a] != o[b] by {
        if a < p {
            assert(o[a] == old_order[a]);
        }
        if b > p {
            assert(o[b] == old_order[b - 1]);
        }
        if a > p {
            assert(o[a] == old_order[a - 1]);
        }
    }
    assert forall|a: int, b: int| 0 <= a < b < o.len() implies #[trigger] precedes(
        recs,
        f,
        o[a] as int,
        o[b] as int,
    ) by {
        if b < p {
            assert(o[a] == old_order[a] && o[b] == old_order[b]);
            assert(precedes(recs, f, old_order[a] as int, old_order[b] as int));
        } else if b == p {
            assert(o[a] == old_order[a]);
            assert(o[b] == k);
            assert(!record_lt(recs[k as int], recs[old_order[a] as int], f));
            assert(old_order[a] < k);
        } else if a < p {
            assert(o[a] == old_order[a] && o[b] == old_order[b - 1]);
            assert(precedes(recs, f, old_order[a] as int, old_order[b - 1] as int));
        } else if a == p {
            let j = old_order[b - 1];
            assert(o[a] == k && o[b] == j);
            let kk = sort_key(recs[k as int], f);
            let kp = sort_key(recs[old_order[p] as int], f);
            let kj = sort_key(recs[j as int], f);
            assert(key_lt(kk, kp));
            if b - 1 > p {
                assert(precedes(recs, f, old_order[p] as int, j as int));
                lemma_key_total(kp, kj);
                if key_lt(kp, kj) {
                    lemma_key_transitive(kk, kp, kj);
                }
            }
            assert(key_lt(kk, kj));
        } else {
            assert(o[a] == old_order[a - 1] && o[b] == old_order[b - 1]);
            assert(precedes(recs, f, old_order[a - 1] as int, old_order[b - 1] as int));
        }
    }
}

fn opt_text_lt_exec(a: &Option<String>, b: &Option<String>) -> (r: bool)
    ensures
        r == opt_text_lt(opt_view(*a), opt_view(*b)),
{
    match (a, b) {
        (None, Some(_)) => true,
        (Some(x), Some(y)) => text_lt(x.as_str(), y.as_str()),
        _ => false,
    }
}

fn index_text(r: &ProjectRecord) -> (s: &str)
    ensures
        s@ == index_key(*r),
{
    match &r.index {
        Some(s) => s.as_str(),
        None => "zzzz",
    }
}

/// Whether record `a` sorts strictly before record `b` by field `f`.
pub fn sorts_before(a: &ProjectRecord, b: &ProjectRecord, f: SortField) -> (r: bool)
    ensures
        r == record_lt(*a, *b, f),
{
    match f {
        SortField::Manager => opt_text_lt_exec(&a.manager, &b.manager),
        SortField::Name => opt_text_lt_exec(&a.name, &b.name),
        SortField::Date => match (a.date, b.date) {
            (None, Some(_)) => true,
            (Some(x), Some(y)) => x < y,
            _ => false,
        },
        SortField::Index => text_lt(index_text(a), index_text(b)),
    }
}

/// The positions of `records` in the order in which they are listed when
/// sorted by `field`; records with equal keys keep their relative order.
pub fn listing_order(records: &Vec<ProjectRecord>, field: SortField) -> (order: Vec<usize>)
    ensures
        is_listing_order(records@, field, order@),
{
    let n = records.len();
    let mut order: Vec<usize> = Vec::new();
    let mut k: usize = 0;
    while k < n
        invariant
            n == records@.len(),
            k <= n,
            order@.len() == k,
            forall|a: int| 0 <= a < order@.len() ==> #[trigger] order@[a] < k,
            forall|x: usize| x < k ==> #[trigger] order@.contains(x),
            forall|a: int, b: int| 0 <= a < b < order@.len() ==> order@[a] != order@[b],
            forall|a: int, b: int|
                0 <= a < b < order@.len() ==> #[trigger] precedes(
                    records@,
                    field,
                    order@[a] as int,
                    order@[b] as int,
                ),
        decreases n - k,
    {
        let mut p: usize = 0;
        while p < order.len() && !sorts_before(&records[k], &records[order[p]], field)
            invariant
                order@.len() == k,
                k < n,
                n == records@.len(),
                p <= order@.len(),
                forall|a: int| 0 <= a < order@.len() ==> #[trigger] order@[a] < k,
                forall|x: usize| x < k ==> #[trigger] order@.contains(x),
                forall|a: int|
                    0 <= a < p ==> !record_lt(
                        records@[k as int],
                        #[trigger] records@[order@[a] as int],
                        field,
                    ),
            decreases order@.len() - p,
        {
            p = p + 1;
        }
        proof {
            lemma_insert_keeps_order(records@, field, order@, p as int, k);
        }
        order.insert(p, k);
        k = k + 1;
    }
    order
}

/// No record position precedes another both ways.
proof fn lemma_precedes_asymmetric(recs: Seq<ProjectRecord>, f: SortField, i: int, j: int)
    requires
        precedes(recs, f, i, j),
    ensures
        !precedes(recs, f, j, i),
{
    let ki = sort_key(recs[i], f);
    let kj = sort_key(recs[j], f);
    if key_lt(ki, kj) && key_lt(kj, ki) {
        lemma_key_transitive(ki, kj, ki);
        lemma_key_irreflexive(ki);
    }
}

/// Two sorted arrangements of the same positions are the same.
proof fn lemma_sorted_unique(recs: Seq<ProjectRecord>, f: SortField, a: Seq<usize>, b: Seq<usize>)
    requires
        a.len() == b.len(),
        forall|x: usize| #[trigger] a.contains(x) <==> b.contains(x),
        forall|p: int, q: int| 0 <= p < q < a.len() ==> a[p] != a[q],
        forall|p: int, q: int| 0 <= p < q < b.len() ==> b[p] != b[q],
        forall|p: int, q: int|
            0 <= p < q < a.len() ==> #[trigger] precedes(recs, f, a[p] as int, a[q] as int),
        forall|p: int, q: int|
            0 <= p < q < b.len() ==> #[trigger] precedes(recs, f, b[p] as int, b[q] as int),
    ensures
        a == b,
    decreases a.len(),
{
    if a.len() > 0 {
        if a[0] != b[0] {
            assert(a.contains(a[0]));
            assert(b.contains(a[0]));
            let q = choose|q: int| 0 <= q < b.len() && b[q] == a[0];
            assert(b.contains(b[0]));
            assert(a.contains(b[0]));
            let r = choose|r: int| 0 <= r < a.len() && a[r] == b[0];
            assert(q > 0 && r > 0);
            assert(precedes(recs, f, b[0] as int, b[q] as int));
            assert(precedes(recs, f, a[0] as int, a[r] as int));
            lemma_precedes_asymmetric(recs, f, a[0] as int, b[0] as int);
        }
        let a1 = a.drop_first();
        let b1 = b.drop_first();
        assert forall|x: usize| #[trigger] a1.contains(x) <==> b1.contains(x) by {
            if a1.contains(x) {
                let w = choose|w: int| 0 <= w < a1.len() && a1[w] == x;
                assert(a[w + 1] == x);
                assert(a.contains(x));
                assert(a[0] != a[w + 1]);
                let v = choose|v: int| 0 <= v < b.len() && b[v] == x;
                assert(v != 0);
                assert(b1[v - 1] == x);
            }
            if b1.contains(x) {
                let w = choose|w: int| 0 <= w < b1.len() && b1[w] == x;
                assert(b[w + 1] == x);
                assert(b.contains(x));
                assert(a[0] == b[0]);
                assert(b[0] != b[w + 1]);
                assert(a.contains(x));
                let v = choose|v: int| 0 <= v < a.len() && a[v] == x;
                assert(v != 0);
                assert(a1[v - 1] == x);
            }
        }
        assert forall|p: int, q: int| 0 <= p < q < a1.len() implies #[trigger] precedes(
            recs,
            f,
            a1[p] as int,
            a1[q] as int,
        ) by {
            assert(precedes(recs, f, a[p + 1] as int, a[q + 1] as int));
        }
        assert forall|p: int, q: int| 0 <= p < q < b1.len() implies #[trigger] precedes(
            recs,
            f,
            b1[p] as int,
            b1[q] as int,
        ) by {
            assert(precedes(recs, f, b[p + 1] as int, b[q + 1] as int));
        }
        lemma_sorted_unique(recs, f, a1, b1);
        assert forall|i: int| 0 <= i < a.len() implies a[i] == b[i] by {
            if i > 0 {
                assert(a[i] == a1[i - 1]);
                assert(b[i] == b1[i - 1]);
            }
        }
        assert(a =~= b);
    } else {
        assert(a =~= b);
    }
}

/// The order in which records are listed is determined by the records and
/// the field alone: any two arrangements that meet the listing order agree.
pub proof fn lemma_listing_order_unique(
    recs: Seq<ProjectRecord>,
    f: SortField,
    o1: Seq<usize>,
    o2: Seq<usize>,
)
    requires
        is_listing_order(recs, f, o1),
        is_listing_order(recs, f, o2),
    ensures
        o1 == o2,
{
    assert forall|x: usize| #[trigger] o1.contains(x) <==> o2.contains(x) by {
        if o1.contains(x) {
            let w = choose|w: int| 0 <= w < o1.len() && o1[w] == x;
            assert(x < recs.len());
        }
        if o2.contains(x) {
            let w = choose|w: int| 0 <= w < o2.len() && o2[w] == x;
            assert(x < recs.len());
        }
    }
    lemma_sorted_unique(recs, f, o1, o2);
}

/// Puts `items` into the order given by positions: the result holds, in
/// turn, the item at each position of `order`.
pub fn arrange<T>(items: Vec<T>, order: &Vec<usize>) -> (r: Vec<T>)
    requires
        order@.len() == items@.len(),
        forall|p: int| 0 <= p < order@.len() ==> #[trigger] order@[p] < items@.len(),
        forall|p: int, q: int| 0 <= p < q < order@.len() ==> order@[p] != order@[q],
    ensures
        r@ == order@.map_values(|i: usize| items@[i as int]),
{
    let n = items.len();
    let ghost original = items@;
    let mut rest = items;
    let mut slots: Vec<Option<T>> = Vec::new();
    while rest.len() > 0
        invariant
            rest@.len() + slots@.len() == n,
            n == original.len(),
            forall|j: int| 0 <= j < rest@.len() ==> rest@[j] == original[j],
            forall|j: int|
                0 <= j < slots@.len() ==> #[trigger] slots@[j] == Some(original[n - 1 - j]),
        decreases rest@.len(),
    {
        let x = rest.pop().unwrap();
        slots.push(Some(x));
    }
    let mut r: Vec<T> = Vec::new();
    let mut p: usize = 0;
    while p < n
        invariant
            n == original.len(),
            n == order@.len(),
            slots@.len() == n,
            p <= n,
            forall|a: int| 0 <= a < order@.len() ==> #[trigger] order@[a] < n,
            forall|a: int, b: int| 0 <= a < b < order@.len() ==> order@[a] != order@[b],
            forall|q: int|
                p <= q < n ==> slots@[n - 1 - order@[q]] == Some(original[#[trigger] order@[q] as int]),
            r@ == order@.take(p as int).map_values(|i: usize| original[i as int]),
        decreases n - p,
    {
        let k = n - 1 - order[p];
        let mut taken: Option<T> = None;
        std::mem::swap(&mut taken, &mut slots[k]);
        assert(taken == Some(original[order@[p as int] as int]));
        assert forall|q: int| p + 1 <= q < n implies slots@[n - 1 - order@[q]] == Some(
            original[#[trigger] order@[q] as int],
        ) by {
            assert(order@[q] != order@[p as int]);
        }
        match taken {
            Some(x) => {
                r.push(x);
            },
            None => {},
        }
        assert(order@.take(p + 1) =~= order@.take(p as int).push(order@[p as int]));
        p = p + 1;
    }
    assert(order@.take(n as int) =~= order@);
    r
}

} // verus!
