//! List-page state and the rules behind loading, saving and deleting records:
//! the records a page shows, how they are ordered, and what each request
//! outcome does to them.
use vstd::prelude::*;
use vstd::string::StringExecFns;

use crate::http::{ApiError, HttpMethod, ResourcePath, api_error_text, join_segments};
use crate::text::{char_seq_le, chars_le, chars_of, lemma_char_seq_le_reflexive, lemma_char_seq_le_total,
    lemma_char_seq_le_transitive, law_char_seq_le_first_difference, law_char_seq_le_prefix,
    str_equal};

verus! {

broadcast use vstd::seq_lib::group_to_multiset_ensures;

// ---------------------------------------------------------------------------
// Keyed records
// ---------------------------------------------------------------------------

/// A record together with the identifier and display name that the list
/// logic reads from it (what the record's `HasId` and `HasName` give).
pub struct Keyed<D> {
    pub id: String,
    pub name: String,
    pub record: D,
}

// ---------------------------------------------------------------------------
// Ordering by name
// ---------------------------------------------------------------------------

/// `a` sorts no later than `b` by name.
pub open spec fn name_le<D>(a: Keyed<D>, b: Keyed<D>) -> bool {
    char_seq_le(a.name@, b.name@)
}

/// Every record sorts no later by name than every record after it.
pub open spec fn is_sorted_by_name<D>(s: Seq<Keyed<D>>) -> bool {
    forall|i: int, j: int| 0 <= i < j < s.len() ==> name_le(#[trigger] s[i], #[trigger] s[j])
}

/// Inserts `x` after the last record of `s` that sorts no later than it.
pub open spec fn insert_by_name<D>(s: Seq<Keyed<D>>, x: Keyed<D>) -> Seq<Keyed<D>>
    decreases s.len(),
{
    if s.len() == 0 {
        seq![x]
    } else if name_le(s.last(), x) {
        s.push(x)
    } else {
        insert_by_name(s.drop_last(), x).push(s.last())
    }
}

/// The position at which `insert_by_name` puts `x`.
pub open spec fn insertion_index<D>(s: Seq<Keyed<D>>, x: Keyed<D>) -> int
    decreases s.len(),
{
    if s.len() == 0 {
        0
    } else if name_le(s.last(), x) {
        s.len() as int
    } else {
        insertion_index(s.drop_last(), x)
    }
}

/// The records stably sorted by name: equal names keep their order.
pub open spec fn sorted_by_name<D>(s: Seq<Keyed<D>>) -> Seq<Keyed<D>>
    decreases s.len(),
{
    if s.len() == 0 {
        s
    } else {
        insert_by_name(sorted_by_name(s.drop_last()), s.last())
    }
}

proof fn lemma_insertion_index_bounds<D>(s: Seq<Keyed<D>>, x: Keyed<D>)
    ensures
        0 <= insertion_index(s, x) <= s.len(),
        insert_by_name(s, x) == s.insert(insertion_index(s, x), x),
    decreases s.len(),
{
    if s.len() == 0 {
        assert(s.insert(0, x) =~= seq![x]);
    } else if name_le(s.last(), x) {
        assert(s.insert(s.len() as int, x) =~= s.push(x));
    } else {
        let d = s.drop_last();
        lemma_insertion_index_bounds(d, x);
        let p = insertion_index(d, x);
        assert(d.insert(p, x).push(s.last()) =~= s.insert(p, x));
    }
}

proof fn lemma_insertion_index_split<D>(s: Seq<Keyed<D>>, x: Keyed<D>)
    requires
        is_sorted_by_name(s),
    ensures
        forall|k: int| 0 <= k < insertion_index(s, x) ==> name_le(#[trigger] s[k], x),
        forall|k: int| insertion_index(s, x) <= k < s.len() ==> !name_le(#[trigger] s[k], x),
    decreases s.len(),
{
    lemma_insertion_index_bounds(s, x);
    if s.len() == 0 {
    } else if name_le(s.last(), x) {
        assert forall|k: int| 0 <= k < insertion_index(s, x) implies name_le(#[trigger] s[k], x) by {
            if k < s.len() - 1 {
                assert(name_le(s[k], s[s.len() - 1]));
                lemma_char_seq_le_transitive(
                    s[k].name@,
                    s.last().name@,
                    x.name@,
                );
            }
        }
    } else {
        let d = s.drop_last();
        assert(is_sorted_by_name(d)) by {
            assert forall|i: int, j: int| 0 <= i < j < d.len() implies name_le(
                #[trigger] d[i],
                #[trigger] d[j],
            ) by {
                assert(d[i] == s[i] && d[j] == s[j]);
            }
        }
        lemma_insertion_index_split(d, x);
        assert forall|k: int| insertion_index(s, x) <= k < s.len() implies !name_le(
            #[trigger] s[k],
            x,
        ) by {
            if k < s.len() - 1 {
                assert(s[k] == d[k]);
            }
        }
        assert forall|k: int| 0 <= k < insertion_index(s, x) implies name_le(#[trigger] s[k], x) by {
            assert(s[k] == d[k]);
        }
    }
}

/// Inserting by name into a sorted list keeps it sorted.
pub proof fn law_insert_by_name_keeps_sorted<D>(s: Seq<Keyed<D>>, x: Keyed<D>)
    requires
        is_sorted_by_name(s),
    ensures
        is_sorted_by_name(insert_by_name(s, x)),
{
    lemma_insertion_index_bounds(s, x);
    lemma_insertion_index_split(s, x);
    let p = insertion_index(s, x);
    let r = s.insert(p, x);
    s.insert_ensures(p, x);
    assert forall|i: int, j: int| 0 <= i < j < r.len() implies name_le(
        #[trigger] r[i],
        #[trigger] r[j],
    ) by {
        if j < p {
            assert(r[i] == s[i] && r[j] == s[j]);
        } else if j == p {
            assert(r[i] == s[i]);
        } else if i < p {
            assert(r[i] == s[i] && r[j] == s[j - 1]);
            assert(!name_le(s[j - 1], x));
            lemma_char_seq_le_total(s[j - 1].name@, x.name@);
            lemma_char_seq_le_transitive(s[i].name@, x.name@, s[j - 1].name@);
        } else if i == p {
            assert(r[j] == s[j - 1]);
            assert(!name_le(s[j - 1], x));
            lemma_char_seq_le_total(s[j - 1].name@, x.name@);
        } else {
            assert(r[i] == s[i - 1] && r[j] == s[j - 1]);
        }
    }
}

/// Sorting by name yields a list sorted by name.
pub proof fn law_sorted_by_name_is_sorted<D>(s: Seq<Keyed<D>>)
    ensures
        is_sorted_by_name(sorted_by_name(s)),
    decreases s.len(),
{
    if s.len() > 0 {
        law_sorted_by_name_is_sorted(s.drop_last());
        law_insert_by_name_keeps_sorted(sorted_by_name(s.drop_last()), s.last());
    }
}

/// The sort orders names by code point, as `str::cmp` does: of two sorted
/// records whose names first differ at position `k`, the earlier one has the
/// smaller character there ("Week 1" before "Week 2" before "Week 3"); and a
/// name that is a proper prefix of another never comes after it.
pub proof fn law_sorted_by_name_orders_by_code_point<D>(s: Seq<Keyed<D>>, i: int, j: int, k: int)
    requires
        0 <= i < j < s.len(),
    ensures
        ({
            let a = sorted_by_name(s)[i].name@;
            let b = sorted_by_name(s)[j].name@;
            &&& (0 <= k < a.len() && k < b.len() && a.take(k) == b.take(k) && a[k] != b[k])
                ==> a[k] < b[k]
            &&& (b.len() < a.len() ==> a.take(b.len() as int) != b)
        }),
{
    law_sorted_by_name_is_sorted(s);
    law_sorted_by_name_is_permutation(s);
    let t = sorted_by_name(s);
    assert(t.len() == s.len()) by {
        assert(t.to_multiset().len() == s.to_multiset().len());
    }
    let a = t[i].name@;
    let b = t[j].name@;
    assert(name_le(t[i], t[j]));
    if 0 <= k < a.len() && k < b.len() && a.take(k) == b.take(k) && a[k] != b[k] && b[k] < a[k] {
        law_char_seq_le_first_difference(b, a, k);
    }
    if b.len() < a.len() && a.take(b.len() as int) == b {
        law_char_seq_le_prefix(b, a);
    }
}

/// Inserting by name adds exactly the inserted record.
pub proof fn law_insert_by_name_adds_one<D>(s: Seq<Keyed<D>>, x: Keyed<D>)
    ensures
        insert_by_name(s, x).to_multiset() == s.to_multiset().insert(x),
    decreases s.len(),
{
    if s.len() == 0 {
        assert(seq![x] =~= Seq::<Keyed<D>>::empty().push(x));
    } else if name_le(s.last(), x) {
    } else {
        let d = s.drop_last();
        law_insert_by_name_adds_one(d, x);
        assert(s =~= d.push(s.last()));
        assert(insert_by_name(s, x).to_multiset() =~= s.to_multiset().insert(x));
    }
}

/// Sorting by name neither adds, drops nor duplicates records.
pub proof fn law_sorted_by_name_is_permutation<D>(s: Seq<Keyed<D>>)
    ensures
        sorted_by_name(s).to_multiset() == s.to_multiset(),
    decreases s.len(),
{
    if s.len() > 0 {
        let d = s.drop_last();
        law_sorted_by_name_is_permutation(d);
        law_insert_by_name_adds_one(sorted_by_name(d), s.last());
        assert(s =~= d.push(s.last()));
    }
}

/// Sorting a list that is already sorted by name leaves it as it is.
pub proof fn law_sorting_sorted_is_identity<D>(s: Seq<Keyed<D>>)
    requires
        is_sorted_by_name(s),
    ensures
        sorted_by_name(s) == s,
    decreases s.len(),
{
    if s.len() > 0 {
        let d = s.drop_last();
        assert(is_sorted_by_name(d)) by {
            assert forall|i: int, j: int| 0 <= i < j < d.len() implies name_le(
                #[trigger] d[i],
                #[trigger] d[j],
            ) by {
                assert(d[i] == s[i] && d[j] == s[j]);
            }
        }
        law_sorting_sorted_is_identity(d);
        if d.len() > 0 {
            assert(name_le(s[s.len() - 2], s[s.len() - 1]));
            assert(d.last() == s[s.len() - 2]);
        }
        assert(d.push(s.last()) =~= s);
    }
}

/// The records of `s` whose name is `n`, in their order in `s`.
pub open spec fn with_name<D>(s: Seq<Keyed<D>>, n: Seq<char>) -> Seq<Keyed<D>>
    decreases s.len(),
{
    if s.len() == 0 {
        Seq::<Keyed<D>>::empty()
    } else if s.last().name@ == n {
        with_name(s.drop_last(), n).push(s.last())
    } else {
        with_name(s.drop_last(), n)
    }
}

proof fn lemma_with_name_push<D>(s: Seq<Keyed<D>>, x: Keyed<D>, n: Seq<char>)
    ensures
        with_name(s.push(x), n) == if x.name@ == n {
            with_name(s, n).push(x)
        } else {
            with_name(s, n)
        },
{
    assert(s.push(x).drop_last() =~= s);
    assert(s.push(x).last() == x);
}

proof fn lemma_insert_by_name_with_name<D>(s: Seq<Keyed<D>>, x: Keyed<D>, n: Seq<char>)
    ensures
        with_name(insert_by_name(s, x), n) == if x.name@ == n {
            with_name(s, n).push(x)
        } else {
            with_name(s, n)
        },
    decreases s.len(),
{
    if s.len() == 0 {
        assert(seq![x] =~= s.push(x));
        lemma_with_name_push(s, x, n);
    } else if name_le(s.last(), x) {
        lemma_with_name_push(s, x, n);
    } else {
        let d = s.drop_last();
        let last = s.last();
        lemma_insert_by_name_with_name(d, x, n);
        let ins = insert_by_name(d, x);
        lemma_with_name_push(ins, last, n);
        assert(d.push(last) =~= s);
        lemma_with_name_push(d, last, n);
        if x.name@ == n && last.name@ == n {
            lemma_char_seq_le_reflexive(x.name@);
            assert(name_le(last, x));
        }
    }
}

/// Sorting by name is stable: the records that share a name keep their order.
pub proof fn law_sort_by_name_is_stable<D>(s: Seq<Keyed<D>>, n: Seq<char>)
    ensures
        with_name(sorted_by_name(s), n) == with_name(s, n),
    decreases s.len(),
{
    if s.len() > 0 {
        let d = s.drop_last();
        law_sort_by_name_is_stable(d, n);
        lemma_insert_by_name_with_name(sorted_by_name(d), s.last(), n);
    }
}

/// Stably sorts records by name (the order `str::cmp` gives their names).
pub fn sort_by_name<D>(rows: Vec<Keyed<D>>) -> (r: Vec<Keyed<D>>)
    ensures
        r@ == sorted_by_name(rows@),
{
    let ghost input = rows@;
    let mut out: Vec<Keyed<D>> = Vec::new();
    let mut keys: Vec<Vec<char>> = Vec::new();
    let n = rows.len();
    let mut remaining = rows;
    assert(input.len() == n);
    let mut taken: usize = 0;
    assert(input.skip(0) =~= input);
    while remaining.len() > 0
        invariant
            taken <= input.len(),
            input.len() <= usize::MAX,
            remaining@ == input.skip(taken as int),
            out@ == sorted_by_name(input.take(taken as int)),
            keys@.len() == out@.len(),
            forall|k: int| 0 <= k < keys@.len() ==> (#[trigger] keys@[k])@ == out@[k].name@,
        decreases remaining.len(),
    {
        let x = remaining.remove(0);
        proof {
            assert(x == input[taken as int]);
            assert(input.take(taken + 1).drop_last() =~= input.take(taken as int));
            assert(input.skip(taken as int).remove(0) =~= input.skip(taken + 1));
        }
        let key = chars_of(x.name.as_str());
        let mut j = keys.len();
        assert(out@.take(j as int) =~= out@);
        while j > 0 && !chars_le(&keys[j - 1], &key)
            invariant
                j <= keys@.len(),
                keys@.len() == out@.len(),
                key@ == x.name@,
                forall|k: int| 0 <= k < keys@.len() ==> (#[trigger] keys@[k])@ == out@[k].name@,
                insertion_index(out@, x) == insertion_index(out@.take(j as int), x),
            decreases j,
        {
            proof {
                assert(out@.take(j as int).drop_last() =~= out@.take(j - 1));
                assert(out@.take(j as int).last() == out@[j - 1]);
            }
            j = j - 1;
        }
        proof {
            if j > 0 {
                assert(out@.take(j as int).last() == out@[j - 1]);
            }
            lemma_insertion_index_bounds(out@, x);
            assert(insertion_index(out@, x) == j);
        }
        keys.insert(j, key);
        out.insert(j, x);
        proof {
            assert forall|k: int| 0 <= k < keys@.len() implies (#[trigger] keys@[k])@ == out@[k].name@ by {
            }
        }
        taken = taken + 1;
    }
    assert(input.take(input.len() as int) =~= input);
    out
}


// ---------------------------------------------------------------------------
// Finding, replacing and removing records by id
// ---------------------------------------------------------------------------

/// Position `i` holds the first record with identifier `id`.
pub open spec fn is_first_with_id<D>(s: Seq<Keyed<D>>, id: Seq<char>, i: int) -> bool {
    &&& 0 <= i < s.len()
    &&& s[i].id@ == id
    &&& forall|k: int| 0 <= k < i ==> (#[trigger] s[k]).id@ != id
}

/// The position of the first record with identifier `id`, if any.
pub open spec fn first_with_id<D>(s: Seq<Keyed<D>>, id: Seq<char>) -> Option<int> {
    if exists|i: int| is_first_with_id(s, id, i) {
        Some(choose|i: int| is_first_with_id(s, id, i))
    } else {
        None
    }
}

proof fn lemma_first_with_id_unique<D>(s: Seq<Keyed<D>>, id: Seq<char>, i: int)
    requires
        is_first_with_id(s, id, i),
    ensures
        first_with_id(s, id) == Some(i),
{
    let j = choose|j: int| is_first_with_id(s, id, j);
    assert(is_first_with_id(s, id, j));
    if j < i {
        assert(s[j].id@ != id);
    } else if i < j {
        assert(s[i].id@ != id);
    }
}

/// Finds the first record with identifier `id`.
pub fn position_of_id<D>(rows: &Vec<Keyed<D>>, id: &str) -> (r: Option<usize>)
    ensures
        (match r {
            Some(i) => Some(i as int),
            None => None,
        }) == first_with_id(rows@, id@),
        r is None <==> forall|k: int| 0 <= k < rows@.len() ==> (#[trigger] rows@[k]).id@ != id@,
{
    let mut i: usize = 0;
    while i < rows.len()
        invariant
            i <= rows@.len(),
            forall|k: int| 0 <= k < i ==> (#[trigger] rows@[k]).id@ != id@,
        decreases rows.len() - i,
    {
        if str_equal(rows[i].id.as_str(), id) {
            proof {
                assert(is_first_with_id(rows@, id@, i as int));
                lemma_first_with_id_unique(rows@, id@, i as int);
            }
            return Some(i);
        }
        i = i + 1;
    }
    proof {
        assert forall|j: int| !is_first_with_id(rows@, id@, j) by {
            if 0 <= j < rows@.len() {
                assert(rows@[j].id@ != id@);
            }
        }
    }
    None
}

/// The records after a saved record comes back: it replaces the first record
/// with the saved form's id; when there is none it is added and the list is
/// sorted by name.
pub open spec fn rows_after_save<D>(rows: Seq<Keyed<D>>, form_id: Seq<char>, saved: Keyed<D>) -> Seq<
    Keyed<D>,
> {
    match first_with_id(rows, form_id) {
        Some(i) => rows.update(i, saved),
        None => sorted_by_name(rows.push(saved)),
    }
}

/// The records after a delete succeeds: the first record with the id is removed.
pub open spec fn rows_after_delete<D>(rows: Seq<Keyed<D>>, id: Seq<char>) -> Seq<Keyed<D>> {
    match first_with_id(rows, id) {
        Some(i) => rows.remove(i),
        None => rows,
    }
}

/// Puts a saved record into the list; see `rows_after_save`.
pub fn apply_saved_row<D>(rows: Vec<Keyed<D>>, form_id: &str, saved: Keyed<D>) -> (r: Vec<Keyed<D>>)
    ensures
        r@ == rows_after_save(rows@, form_id@, saved),
{
    let mut rows = rows;
    match position_of_id(&rows, form_id) {
        Some(i) => {
            rows[i] = saved;
            rows
        },
        None => {
            rows.push(saved);
            sort_by_name(rows)
        },
    }
}

/// Removes a deleted record from the list; see `rows_after_delete`.
pub fn apply_deleted_row<D>(rows: &mut Vec<Keyed<D>>, id: &str)
    ensures
        final(rows)@ == rows_after_delete(old(rows)@, id@),
{
    match position_of_id(rows, id) {
        Some(i) => {
            rows.remove(i);
        },
        None => {},
    }
}

/// Saving a record whose id is in the list replaces that record in place and
/// leaves every other record where it was.
pub proof fn law_save_existing_replaces_in_place<D>(
    rows: Seq<Keyed<D>>,
    form_id: Seq<char>,
    saved: Keyed<D>,
    i: int,
)
    requires
        is_first_with_id(rows, form_id, i),
    ensures
        rows_after_save(rows, form_id, saved).len() == rows.len(),
        rows_after_save(rows, form_id, saved)[i] == saved,
        forall|k: int|
            0 <= k < rows.len() && k != i ==> #[trigger] rows_after_save(rows, form_id, saved)[k]
                == rows[k],
{
    lemma_first_with_id_unique(rows, form_id, i);
}

/// Saving a record whose id is not in the list adds it: the list then holds the
/// old records and the saved one, sorted by name.
pub proof fn law_save_new_adds_and_sorts<D>(rows: Seq<Keyed<D>>, form_id: Seq<char>, saved: Keyed<D>)
    requires
        forall|k: int| 0 <= k < rows.len() ==> (#[trigger] rows[k]).id@ != form_id,
    ensures
        rows_after_save(rows, form_id, saved).to_multiset() == rows.to_multiset().insert(saved),
        is_sorted_by_name(rows_after_save(rows, form_id, saved)),
{
    assert forall|j: int| !is_first_with_id(rows, form_id, j) by {
        if 0 <= j < rows.len() {
            assert(rows[j].id@ != form_id);
        }
    }
    law_sorted_by_name_is_permutation(rows.push(saved));
    law_sorted_by_name_is_sorted(rows.push(saved));
}

/// Deleting a record whose id is in the list removes exactly that record; the
/// others keep their order.
pub proof fn law_delete_removes_first_match<D>(rows: Seq<Keyed<D>>, id: Seq<char>, i: int)
    requires
        is_first_with_id(rows, id, i),
    ensures
        rows_after_delete(rows, id).len() == rows.len() - 1,
        rows_after_delete(rows, id).to_multiset() == rows.to_multiset().remove(rows[i]),
        forall|k: int| 0 <= k < i ==> #[trigger] rows_after_delete(rows, id)[k] == rows[k],
        forall|k: int| i < k < rows.len() ==> rows_after_delete(rows, id)[k - 1] == #[trigger] rows[k],
{
    lemma_first_with_id_unique(rows, id, i);
    rows.remove_ensures(i);
}

/// Deleting a newly saved record (one whose id no other record has) undoes the
/// save: the list holds exactly the records it held before.
#[verifier::rlimit(40)]
pub proof fn law_delete_undoes_new_save<D>(rows: Seq<Keyed<D>>, form_id: Seq<char>, saved: Keyed<D>)
    requires
        forall|k: int| 0 <= k < rows.len() ==> (#[trigger] rows[k]).id@ != form_id,
        forall|k: int| 0 <= k < rows.len() ==> (#[trigger] rows[k]).id@ != saved.id@,
    ensures
        rows_after_delete(rows_after_save(rows, form_id, saved), saved.id@).to_multiset()
            == rows.to_multiset(),
{
    law_save_new_adds_and_sorts(rows, form_id, saved);
    let after = rows_after_save(rows, form_id, saved);
    assert(after.to_multiset().count(saved) > 0) by {
        assert(rows.to_multiset().insert(saved).count(saved) > 0);
    }
    assert(after.contains(saved));
    let i = choose|i: int| 0 <= i < after.len() && after[i] == saved;
    assert forall|k: int| 0 <= k < after.len() && (#[trigger] after[k]).id@ == saved.id@ implies after[k]
        == saved by {
        if after[k] != saved {
            assert(after.contains(after[k]));
            assert(after.to_multiset().count(after[k]) > 0);
            assert(rows.to_multiset().insert(saved).count(after[k]) == rows.to_multiset().count(after[k]));
            assert(rows.contains(after[k]));
            let j = choose|j: int| 0 <= j < rows.len() && rows[j] == after[k];
            assert(rows[j].id@ != saved.id@);
        }
    }
    let f = choose|f: int| 0 <= f <= i && after[f].id@ == saved.id@ && forall|k: int|
        0 <= k < f ==> (#[trigger] after[k]).id@ != saved.id@;
    assert(exists|f: int| 0 <= f <= i && after[f].id@ == saved.id@ && forall|k: int|
        0 <= k < f ==> (#[trigger] after[k]).id@ != saved.id@) by {
        lemma_first_index_exists(after, saved.id@, i);
    }
    assert(is_first_with_id(after, saved.id@, f));
    lemma_first_with_id_unique(after, saved.id@, f);
    assert(after[f] == saved);
    after.to_multiset_ensures();
    assert(rows.to_multiset().insert(saved).remove(saved) =~= rows.to_multiset());
}

/// When some record at or before `i` has the id, a first one exists.
proof fn lemma_first_index_exists<D>(s: Seq<Keyed<D>>, id: Seq<char>, i: int)
    requires
        0 <= i < s.len(),
        s[i].id@ == id,
    ensures
        exists|f: int| 0 <= f <= i && s[f].id@ == id && forall|k: int|
            0 <= k < f ==> (#[trigger] s[k]).id@ != id,
    decreases i,
{
    if exists|k: int| 0 <= k < i && s[k].id@ == id {
        let k = choose|k: int| 0 <= k < i && s[k].id@ == id;
        lemma_first_index_exists(s, id, k);
    } else {
        assert(forall|k: int| 0 <= k < i ==> (#[trigger] s[k]).id@ != id);
    }
}

/// Deleting an id that no record has leaves the list unchanged.
pub proof fn law_delete_absent_is_noop<D>(rows: Seq<Keyed<D>>, id: Seq<char>)
    requires
        forall|k: int| 0 <= k < rows.len() ==> (#[trigger] rows[k]).id@ != id,
    ensures
        rows_after_delete(rows, id) == rows,
{
    assert forall|j: int| !is_first_with_id(rows, id, j) by {
        if 0 <= j < rows.len() {
            assert(rows[j].id@ != id);
        }
    }
}


// ---------------------------------------------------------------------------
// Navigation
// ---------------------------------------------------------------------------

/// A navigation the page asks for.
pub struct Navigation {
    pub to: String,
    /// Replace the current history entry rather than push a new one.
    pub replace: bool,
    pub scroll: bool,
}

/// Navigates to `uri`, replacing the current history entry.
pub fn navigate(uri: &str) -> (r: Navigation)
    ensures
        r.to@ == uri@,
        r.replace,
        r.scroll,
{
    Navigation { to: uri.to_owned(), replace: true, scroll: true }
}

/// Navigates to `uri`, pushing a new history entry.
pub fn navigate_push(uri: &str) -> (r: Navigation)
    ensures
        r.to@ == uri@,
        !r.replace,
        r.scroll,
{
    Navigation { to: uri.to_owned(), replace: false, scroll: true }
}

/// `{base}/{id}`: the path of one record under a collection path.
pub open spec fn path_with_id(base: Seq<char>, id: Seq<char>) -> Seq<char> {
    base + "/"@ + id
}

fn join_path(base: &str, id: &str) -> (r: String)
    ensures
        r@ == path_with_id(base@, id@),
{
    let mut r = base.to_owned();
    r.append("/");
    r.append(id);
    r
}

/// Where "up" leads from a record: its parent under `path`, or `path` itself
/// for a record without a parent (or no record).
pub fn navigate_up_target(path: &str, parent: Option<String>) -> (r: String)
    ensures
        r@ == (match parent {
            Some(p) => path_with_id(path@, p@),
            None => path@,
        }),
{
    match parent {
        Some(p) => join_path(path, p.as_str()),
        None => path.to_owned(),
    }
}

// ---------------------------------------------------------------------------
// ListComponentModel: the state of a list page
// ---------------------------------------------------------------------------

/// The state a list page shows: the caller's token (`None` when logged out),
/// loading and saving flags, the current error, the records, and the
/// collection path that requests go to.
pub struct ListComponentModel<D> {
    pub auth: Option<String>,
    pub loading: bool,
    pub saving: bool,
    pub error: Option<String>,
    pub data: Vec<Keyed<D>>,
    pub form_action: String,
}

/// How a load of the list starts.
pub enum LoadStart {
    /// Fetch the records at `path` with `token`.
    Fetch { token: String, path: String },
    /// No token: go to the login page.
    Redirect(Navigation),
}

/// A create or update request for a form record.
pub struct PersistRequest {
    pub method: HttpMethod,
    pub path: String,
    pub token: String,
    pub form_id: String,
}

/// A request that carries a bearer token.
pub struct AuthorizedRequest {
    pub token: String,
    pub path: String,
}

/// The message set when a list is loaded without a token.
pub open spec fn please_log_in() -> Seq<char> {
    "Please log in first"@
}

/// The message set when a record is saved without a token.
pub open spec fn not_authorized() -> Seq<char> {
    "Not authorized"@
}

impl<D> ListComponentModel<D> {
    /// A list page that is loading, with no records and no error.
    pub fn new(form_action: &str, auth: Option<String>) -> (r: Self)
        ensures
            r.auth == auth,
            r.loading,
            !r.saving,
            r.error is None,
            r.data@.len() == 0,
            r.form_action@ == form_action@,
    {
        ListComponentModel {
            auth,
            loading: true,
            saving: false,
            error: None,
            data: Vec::new(),
            form_action: form_action.to_owned(),
        }
    }

    pub fn set_error(&mut self, err: String)
        ensures
            final(self).error == Some(err),
            final(self).auth == old(self).auth,
            final(self).loading == old(self).loading,
            final(self).saving == old(self).saving,
            final(self).data == old(self).data,
            final(self).form_action == old(self).form_action,
    {
        self.error = Some(err);
    }

    pub fn clear_error(&mut self)
        ensures
            final(self).error is None,
            final(self).auth == old(self).auth,
            final(self).loading == old(self).loading,
            final(self).saving == old(self).saving,
            final(self).data == old(self).data,
            final(self).form_action == old(self).form_action,
    {
        self.error = None;
    }

    /// Starts loading the list: with a token, marks the page loading and asks
    /// for the records at `form_action`; without one, sets the error
    /// `Please log in first` and redirects to `login_path`.
    pub fn begin_load(&mut self, login_path: &str) -> (r: LoadStart)
        ensures
            final(self).auth == old(self).auth,
            final(self).saving == old(self).saving,
            final(self).data == old(self).data,
            final(self).form_action == old(self).form_action,
            match old(self).auth {
                Some(t) => {
                    &&& r matches LoadStart::Fetch { token, path }
                    &&& token@ == t@
                    &&& path@ == old(self).form_action@
                    &&& final(self).loading
                    &&& final(self).error == old(self).error
                },
                None => {
                    &&& r matches LoadStart::Redirect(n)
                    &&& n.to@ == login_path@ && n.replace && n.scroll
                    &&& final(self).loading == old(self).loading
                    &&& final(self).error matches Some(e) && e@ == please_log_in()
                },
            },
    {
        match &self.auth {
            Some(t) => {
                self.loading = true;
                LoadStart::Fetch { token: t.clone(), path: self.form_action.clone() }
            },
            None => {
                self.set_error("Please log in first".to_owned());
                LoadStart::Redirect(navigate(login_path))
            },
        }
    }

    /// Starts saving the form record: a new record (empty id) is created with
    /// POST at `form_action`, an existing one updated with PUT at
    /// `form_action/id`. Without a token nothing is sent and the error is
    /// `Not authorized`.
    pub fn begin_persist(&mut self, form_id: &str) -> (r: Option<PersistRequest>)
        ensures
            final(self).auth == old(self).auth,
            final(self).loading == old(self).loading,
            final(self).data == old(self).data,
            final(self).form_action == old(self).form_action,
            match old(self).auth {
                Some(t) => {
                    &&& r matches Some(req)
                    &&& req.token@ == t@
                    &&& req.form_id@ == form_id@
                    &&& (form_id@.len() == 0 ==> req.method == HttpMethod::POST && req.path@
                        == old(self).form_action@)
                    &&& (form_id@.len() != 0 ==> req.method == HttpMethod::PUT && req.path@
                        == path_with_id(old(self).form_action@, form_id@))
                    &&& final(self).saving
                    &&& final(self).error == old(self).error
                },
                None => {
                    &&& r is None
                    &&& final(self).saving == old(self).saving
                    &&& final(self).error matches Some(e) && e@ == not_authorized()
                },
            },
    {
        let is_new = form_id.is_empty();
        let method = if is_new {
            HttpMethod::POST
        } else {
            HttpMethod::PUT
        };
        let path = if is_new {
            self.form_action.clone()
        } else {
            join_path(self.form_action.as_str(), form_id)
        };
        match &self.auth {
            Some(t) => {
                let token = t.clone();
                self.saving = true;
                Some(PersistRequest { method, path, token, form_id: form_id.to_owned() })
            },
            None => {
                self.set_error("Not authorized".to_owned());
                None
            },
        }
    }

    /// Starts deleting the record `id`: a DELETE of `form_action/id`, with the
    /// token, or an empty token when there is none.
    pub fn begin_delete(&self, id: &str) -> (r: AuthorizedRequest)
        ensures
            r.token@ == (match self.auth {
                Some(t) => t@,
                None => Seq::<char>::empty(),
            }),
            r.path@ == path_with_id(self.form_action@, id@),
    {
        let token = match &self.auth {
            Some(t) => t.clone(),
            None => String::new(),
        };
        AuthorizedRequest { token, path: join_path(self.form_action.as_str(), id) }
    }

    /// Ends a delete: on success the error is cleared and the first record with
    /// the id removed; on failure the error's text is shown.
    pub fn finish_delete(&mut self, id: &str, result: Result<(), ApiError>)
        ensures
            final(self).auth == old(self).auth,
            final(self).loading == old(self).loading,
            final(self).saving == old(self).saving,
            final(self).form_action == old(self).form_action,
            match result {
                Ok(_) => {
                    &&& final(self).error is None
                    &&& final(self).data@ == rows_after_delete(old(self).data@, id@)
                },
                Err(e) => {
                    &&& final(self).data == old(self).data
                    &&& final(self).error matches Some(m) && m@ == api_error_text(e.status, e.message@)
                },
            },
    {
        match result {
            Ok(_) => {
                self.clear_error();
                apply_deleted_row(&mut self.data, id);
            },
            Err(e) => {
                self.set_error(e.to_string());
            },
        }
    }

    /// Ends a save: saving stops; on success the saved record takes its place in
    /// the list (see `rows_after_save`) and `true` asks for the success
    /// callback; on failure the error's text is shown.
    pub fn finish_persist(&mut self, form_id: &str, result: Result<Keyed<D>, ApiError>) -> (r: bool)
        ensures
            final(self).auth == old(self).auth,
            final(self).loading == old(self).loading,
            !final(self).saving,
            final(self).form_action == old(self).form_action,
            match result {
                Ok(saved) => {
                    &&& r
                    &&& final(self).error == old(self).error
                    &&& final(self).data@ == rows_after_save(old(self).data@, form_id@, saved)
                },
                Err(e) => {
                    &&& !r
                    &&& final(self).data == old(self).data
                    &&& final(self).error matches Some(m) && m@ == api_error_text(e.status, e.message@)
                },
            },
    {
        self.saving = false;
        match result {
            Ok(saved) => {
                let mut rows: Vec<Keyed<D>> = Vec::new();
                std::mem::swap(&mut rows, &mut self.data);
                self.data = apply_saved_row(rows, form_id, saved);
                true
            },
            Err(e) => {
                self.set_error(e.to_string());
                false
            },
        }
    }

    /// Ends a load: loading stops. Fetched records are shown sorted by name
    /// (or as given, when the caller sorted them with its own order). A 401
    /// error redirects to `login_path`; any other error's text is shown.
    pub fn finish_load(
        &mut self,
        result: Result<Vec<Keyed<D>>, ApiError>,
        sorted_by_caller: bool,
        login_path: &str,
    ) -> (r: Option<Navigation>)
        ensures
            final(self).auth == old(self).auth,
            !final(self).loading,
            final(self).saving == old(self).saving,
            final(self).form_action == old(self).form_action,
            match result {
                Ok(records) => {
                    &&& r is None
                    &&& final(self).error == old(self).error
                    &&& final(self).data@ == (if sorted_by_caller {
                        records@
                    } else {
                        sorted_by_name(records@)
                    })
                },
                Err(e) => {
                    &&& final(self).data == old(self).data
                    &&& (e.status == 401 ==> (r matches Some(n) && n.to@ == login_path@ && n.replace
                        && n.scroll)
                        && final(self).error == old(self).error)
                    &&& (e.status != 401 ==> r is None && (final(self).error matches Some(m) && m@
                        == api_error_text(e.status, e.message@)))
                },
            },
    {
        match result {
            Ok(records) => {
                self.data = if sorted_by_caller {
                    records
                } else {
                    sort_by_name(records)
                };
                self.loading = false;
                None
            },
            Err(e) => {
                let r = if e.is_unauthorized() {
                    Some(navigate(login_path))
                } else {
                    self.set_error(e.to_string());
                    None
                };
                self.loading = false;
                r
            },
        }
    }
}

/// After a successful load that the library sorts, the page shows its records
/// sorted by name, each fetched record exactly once.
pub proof fn law_loaded_records_sorted<D>(records: Seq<Keyed<D>>)
    ensures
        is_sorted_by_name(sorted_by_name(records)),
        sorted_by_name(records).to_multiset() == records.to_multiset(),
{
    law_sorted_by_name_is_sorted(records);
    law_sorted_by_name_is_permutation(records);
}

// ---------------------------------------------------------------------------
// Single requests outside a list page
// ---------------------------------------------------------------------------

/// A request with its method and a bearer token.
pub struct TokenRequest {
    pub method: HttpMethod,
    pub token: String,
    pub path: String,
}

/// The PUT of a detail page's record to `form_action/id`; without a token, the
/// error `Not authorized` with status 401.
pub fn update_record_request(form_action: &str, record_id: &str, auth: Option<String>) -> (r:
    Result<TokenRequest, ApiError>)
    ensures
        match auth {
            Some(t) => r matches Ok(req) && req.method == HttpMethod::PUT && req.token@ == t@
                && req.path@ == path_with_id(form_action@, record_id@),
            None => r matches Err(e) && e.status == 401 && e.message@ == not_authorized(),
        },
{
    match auth {
        Some(token) => Ok(
            TokenRequest { method: HttpMethod::PUT, token, path: join_path(form_action, record_id) },
        ),
        None => Err(ApiError::new("Not authorized".to_owned(), 401)),
    }
}

/// The message passed to failure callbacks when a resource is touched without a token.
pub open spec fn not_authenticated() -> Seq<char> {
    "Not authenticated"@
}

/// A request for a resource path with the caller's token; without one, the
/// failure message `Not authenticated`.
pub fn resource_request(path: &ResourcePath, auth: Option<String>) -> (r: Result<
    AuthorizedRequest,
    String,
>)
    ensures
        match auth {
            Some(t) => r matches Ok(req) && req.token@ == t@ && req.path@ == join_segments(path@),
            None => r matches Err(m) && m@ == not_authenticated(),
        },
{
    match auth {
        Some(token) => Ok(AuthorizedRequest { token, path: path.build() }),
        None => Err("Not authenticated".to_owned()),
    }
}

/// The PUT of a resource path with the caller's token; without one, the
/// failure message `Not authenticated`.
pub fn resource_update_request(path: &ResourcePath, auth: Option<String>) -> (r: Result<
    TokenRequest,
    String,
>)
    ensures
        match auth {
            Some(t) => r matches Ok(req) && req.method == HttpMethod::PUT && req.token@ == t@
                && req.path@ == join_segments(path@),
            None => r matches Err(m) && m@ == not_authenticated(),
        },
{
    match auth {
        Some(token) => Ok(TokenRequest { method: HttpMethod::PUT, token, path: path.build() }),
        None => Err("Not authenticated".to_owned()),
    }
}

/// What a load of one resource path drives: whether it is in flight, the error
/// shown (none while loading or after a success), and the data loaded.
pub struct ResourceLoad<R> {
    pub loading: bool,
    pub error: Option<String>,
    pub data: R,
}

impl<R> ResourceLoad<R> {
    /// Starts a load: in flight, with no error; the data stays until the result comes.
    pub fn begin(&mut self)
        ensures
            final(self).loading,
            final(self).error is None,
            final(self).data == old(self).data,
    {
        self.loading = true;
        self.error = None;
    }

    /// Ends a load: no longer in flight. A success stores the data and leaves
    /// no error; a failure keeps the data and shows the error's text.
    pub fn finish(&mut self, result: Result<R, ApiError>)
        ensures
            !final(self).loading,
            match result {
                Ok(v) => final(self).data == v && final(self).error is None,
                Err(e) => final(self).data == old(self).data && (final(self).error matches Some(
                    m,
                ) && m@ == api_error_text(e.status, e.message@)),
            },
    {
        self.loading = false;
        match result {
            Ok(v) => {
                self.data = v;
                self.error = None;
            },
            Err(e) => {
                self.error = Some(e.to_string());
            },
        }
    }
}

// ---------------------------------------------------------------------------
// Reference (lookup) data
// ---------------------------------------------------------------------------

/// The common `{id, name, description?}` shape of lookup tables.
#[derive(Clone, Debug)]
pub struct LookupData {
    pub id: String,
    pub name: String,
    pub description: Option<String>,
}

/// The body of a create (empty id) or update (non-empty id) of a `LookupData` record.
#[derive(Clone, Debug)]
pub struct LookupDataRequest {
    pub id: String,
    pub name: String,
    pub description: Option<String>,
}

impl LookupDataRequest {
    /// A blank request, for creating a record.
    pub fn new() -> (r: Self)
        ensures
            r.id@.len() == 0,
            r.name@.len() == 0,
            r.description is None,
    {
        LookupDataRequest { id: String::new(), name: String::new(), description: None }
    }

    /// A request filled from a record, for editing it.
    pub fn from_data(data: LookupData) -> (r: Self)
        ensures
            r.id == data.id,
            r.name == data.name,
            r.description == data.description,
    {
        LookupDataRequest { id: data.id, name: data.name, description: data.description }
    }
}

/// What loading a lookup list does next.
pub enum ReferenceListStep {
    /// Show the cached records.
    UseCached(Vec<LookupData>),
    /// No token: mark the list loaded, empty.
    SkipUnauthenticated,
    /// Fetch the list with the token.
    Fetch(String),
}

/// Chooses between the cached lookup list (when it is non-empty and no refresh
/// is forced), nothing (no token), and a fetch.
pub fn reference_list_step(cached: Vec<LookupData>, force_refresh: bool, auth: Option<String>) -> (r:
    ReferenceListStep)
    ensures
        cached@.len() != 0 && !force_refresh ==> r == ReferenceListStep::UseCached(cached),
        !(cached@.len() != 0 && !force_refresh) ==> match auth {
            Some(t) => r matches ReferenceListStep::Fetch(tok) && tok@ == t@,
            None => r is SkipUnauthenticated,
        },
{
    if !cached.is_empty() && !force_refresh {
        return ReferenceListStep::UseCached(cached);
    }
    match auth {
        Some(t) => ReferenceListStep::Fetch(t),
        None => ReferenceListStep::SkipUnauthenticated,
    }
}

/// The identifiers of lookup options.
pub open spec fn option_ids(options: Seq<LookupData>) -> Seq<Seq<char>> {
    options.map_values(|o: LookupData| o.id@)
}

/// The name shown for a lookup id: the name of the first option with that id,
/// or the id itself when no option has it.
pub fn lookup_display_name(options: &Vec<LookupData>, id: &str) -> (r: String)
    ensures
        r@ == (match option_ids(options@).index_of_first(id@) {
            Some(i) => options@[i].name@,
            None => id@,
        }),
{
    let ghost ids = option_ids(options@);
    let mut i: usize = 0;
    while i < options.len()
        invariant
            i <= options@.len(),
            ids == option_ids(options@),
            forall|j: int| 0 <= j < i ==> ids[j] != id@,
        decreases options.len() - i,
    {
        if str_equal(options[i].id.as_str(), id) {
            proof {
                assert(ids[i as int] == id@);
                ids.index_of_first_ensures(id@);
                let f = ids.index_of_first(id@).unwrap();
                if f < i {
                    assert(ids[f] == id@);
                } else if f > i {
                    assert(ids[i as int] == id@);
                }
            }
            return options[i].name.clone();
        }
        i = i + 1;
    }
    proof {
        ids.index_of_first_ensures(id@);
        if ids.contains(id@) {
            let f = ids.index_of_first(id@).unwrap();
            assert(ids[f] == id@);
        }
    }
    id.to_owned()
}

} // verus!
