//! Three ways to compute the edit distance between two slices, and the table
//! that two of them fill.

use vstd::prelude::*;
use vstd::std_specs::cmp::PartialEqSpec;
use crate::model::{distance, lemma_distance_step, min3};

verus! {

/// `table` has `m + 1` rows of `n + 1` cells each.
pub open spec fn has_shape<V>(table: Seq<Vec<V>>, m: nat, n: nat) -> bool {
    &&& table.len() == m + 1
    &&& forall|i: int| 0 <= i <= m ==> (#[trigger] table[i]).len() == n + 1
}

/// `d` can stand in cell `(i, j)` of a table of distances: it is no greater
/// than `i` or than `j` and, where the elements' `==` is the relation `eq_spec`,
/// it is the distance between the first `i` elements of `s1` and the first `j`
/// of `s2`.
pub open spec fn cell_holds_distance<T: PartialEq>(
    d: usize,
    s1: Seq<T>,
    s2: Seq<T>,
    i: int,
    j: int,
) -> bool {
    &&& d <= i || d <= j
    &&& T::obeys_eq_spec() ==> d == distance(s1.take(i), s2.take(j))
}

/// Returns a table of `m + 1` rows and `n + 1` columns for the distances
/// between the prefixes of a sequence of length `m` and those of a sequence of
/// length `n`.
///
/// The cells of row 0 and of column 0 hold what `init` returns for their
/// column and row number; every other cell holds `fill`.
///
/// The row and column counts must fit in `usize`, so `m` and `n` are to be
/// below `usize::MAX`.
pub fn get_distance_table<V: Copy, F: Fn(usize) -> V>(
    m: usize,
    n: usize,
    init: F,
    fill: V,
) -> (table: Vec<Vec<V>>)
    requires
        m < usize::MAX,
        n < usize::MAX,
        forall|i: usize| i <= m || i <= n ==> call_requires(init, (i,)),
    ensures
        has_shape(table@, m as nat, n as nat),
        forall|i: int| 0 <= i <= m ==> call_ensures(init, (i as usize,), #[trigger] table@[i]@[0]),
        forall|j: int| 0 <= j <= n ==> call_ensures(init, (j as usize,), #[trigger] table@[0]@[j]),
        forall|i: int, j: int| 1 <= i <= m && 1 <= j <= n ==> #[trigger] table@[i]@[j] == fill,
{
    let mut distances: Vec<Vec<V>> = Vec::new();

    let mut first: Vec<V> = Vec::new();
    let mut j: usize = 0;
    while j <= n
        invariant
            n < usize::MAX,
            j <= n + 1,
            first@.len() == j,
            forall|i: usize| i <= m || i <= n ==> call_requires(init, (i,)),
            forall|c: int| 0 <= c < j ==> call_ensures(init, (c as usize,), #[trigger] first@[c]),
        decreases n + 1 - j,
    {
        first.push(init(j));
        j += 1;
    }
    distances.push(first);

    let mut i: usize = 1;
    while i <= m
        invariant
            m < usize::MAX,
            n < usize::MAX,
            1 <= i <= m + 1,
            distances@.len() == i,
            forall|r: int| 0 <= r < i ==> (#[trigger] distances@[r]).len() == n + 1,
            forall|i: usize| i <= m || i <= n ==> call_requires(init, (i,)),
            forall|r: int| 0 <= r < i ==> call_ensures(init, (r as usize,), #[trigger] distances@[r]@[0]),
            forall|c: int| 0 <= c <= n ==> call_ensures(init, (c as usize,), #[trigger] distances@[0]@[c]),
            forall|r: int, c: int| 1 <= r < i && 1 <= c <= n ==> #[trigger] distances@[r]@[c] == fill,
        decreases m + 1 - i,
    {
        let mut row: Vec<V> = Vec::new();
        row.push(init(i));
        let mut j: usize = 1;
        while j <= n
            invariant
                n < usize::MAX,
                1 <= j <= n + 1,
                row@.len() == j,
                call_ensures(init, (i,), row@[0]),
                forall|c: int| 1 <= c < j ==> #[trigger] row@[c] == fill,
            decreases n + 1 - j,
        {
            row.push(fill);
            j += 1;
        }
        distances.push(row);
        i += 1;
    }

    distances
}

/// The edit distance between `i1` and `i2`, computed by plain recursion on the
/// last elements. Nothing is remembered between calls, so the time it takes
/// grows exponentially with the lengths.
///
/// The result is the distance wherever `==` on `T` computes the relation
/// `eq_spec`, over which the distance is defined; it is never greater than the
/// longer of the two slices.
pub fn levenshtein_naive<T: Eq>(i1: &[T], i2: &[T]) -> (d: usize)
    ensures
        T::obeys_eq_spec() ==> d == distance(i1@, i2@),
        d <= i1@.len() || d <= i2@.len(),
    decreases i1@.len() + i2@.len(),
{
    let i: usize = i1.len();
    let j: usize = i2.len();

    // base case
    if i == 0 {
        return j;
    }
    if j == 0 {
        return i;
    }

    if i1[i - 1] == i2[j - 1] {
        levenshtein_naive(&i1[0..i - 1], &i2[0..j - 1])
    } else {
        let delete = levenshtein_naive(&i1[0..i - 1], i2);
        let insert = levenshtein_naive(i1, &i2[0..j - 1]);
        let substitute = levenshtein_naive(&i1[0..i - 1], &i2[0..j - 1]);

        1 + min_of_three(delete, insert, substitute)
    }
}

/// The table of the distances between every prefix of `i1` and every prefix of
/// `i2`: the cell in row `i` and column `j` is for the first `i` elements of
/// `i1` and the first `j` elements of `i2`.
///
/// Row 0 and column 0 are there from the start; the other cells are filled row
/// by row, each from its three neighbours above and to the left.
///
/// The table has one row more than `i1` has elements and one column more than
/// `i2` has, so both lengths are to be below `usize::MAX`.
pub fn fill_distance_table<T: Eq>(i1: &[T], i2: &[T]) -> (distances: Vec<Vec<usize>>)
    requires
        i1@.len() < usize::MAX,
        i2@.len() < usize::MAX,
    ensures
        has_shape(distances@, i1@.len(), i2@.len()),
        forall|i: int, j: int|
            0 <= i <= i1@.len() && 0 <= j <= i2@.len() ==> cell_holds_distance(
                #[trigger] distances@[i]@[j],
                i1@,
                i2@,
                i,
                j,
            ),
{
    let m = i1.len();
    let n = i2.len();

    let index = |i: usize| -> (cell: usize)
        ensures
            cell == i,
        { i };
    let mut distances = get_distance_table(m, n, index, 0);
    proof {
        assert forall|i: int, j: int|
            0 <= i <= m && 0 <= j <= n && (i == 0 || j == 0) implies cell_holds_distance(
            #[trigger] distances@[i]@[j],
            i1@,
            i2@,
            i,
            j,
        ) by {
            assert(i1@.take(i).len() == i);
            assert(i2@.take(j).len() == j);
        }
    }

    for i in 1..m + 1
        invariant
            m == i1@.len(),
            n == i2@.len(),
            m < usize::MAX,
            n < usize::MAX,
            has_shape(distances@, m as nat, n as nat),
            forall|r: int, c: int|
                0 <= r <= m && 0 <= c <= n && (r < i || c == 0) ==> cell_holds_distance(
                    #[trigger] distances@[r]@[c],
                    i1@,
                    i2@,
                    r,
                    c,
                ),
    {
        for j in 1..n + 1
            invariant
                m == i1@.len(),
                n == i2@.len(),
                m < usize::MAX,
                n < usize::MAX,
                1 <= i <= m,
                has_shape(distances@, m as nat, n as nat),
                forall|r: int, c: int|
                    0 <= r <= m && 0 <= c <= n && (r < i || c == 0 || (r == i && c < j))
                        ==> cell_holds_distance(#[trigger] distances@[r]@[c], i1@, i2@, r, c),
        {
            let k: usize = if i1[i - 1] == i2[j - 1] {
                0
            } else {
                1
            };

            let delete = distances[i - 1][j] + 1;
            let insert = distances[i][j - 1] + 1;
            let substitute = distances[i - 1][j - 1] + k;

            proof {
                lemma_prefix_drop_last(i1@, i as int);
                lemma_prefix_drop_last(i2@, j as int);
                lemma_distance_step(i1@.take(i as int), i2@.take(j as int));
            }
            distances[i][j] = min_of_three(delete, insert, substitute);
        }
    }

    distances
}

/// The edit distance between `i1` and `i2`, computed from the bottom up: the
/// table of the distances between all their prefixes is filled, and its last
/// cell is the answer.
///
/// The result is the same as that of [`levenshtein_naive`]. Both lengths are to
/// be below `usize::MAX`, for the table to have a row and a column more.
pub fn levenshtein_tabulation<T: Eq>(i1: &[T], i2: &[T]) -> (d: usize)
    requires
        i1@.len() < usize::MAX,
        i2@.len() < usize::MAX,
    ensures
        T::obeys_eq_spec() ==> d == distance(i1@, i2@),
        d <= i1@.len() || d <= i2@.len(),
{
    let m = i1.len();
    let n = i2.len();

    let distances = fill_distance_table(i1, i2);
    proof {
        assert(i1@.take(m as int) == i1@);
        assert(i2@.take(n as int) == i2@);
    }

    distances[m][n]
}

/// What a cache of distances between the prefixes of `s1` and of `s2` must
/// satisfy: it has a cell for each pair of prefixes, the cells of row 0 and of
/// column 0 are set, and a cell that is set holds the distance between its two
/// prefixes.
spec fn is_cache_of<T: PartialEq>(
    table: Seq<Vec<Option<usize>>>,
    s1: Seq<T>,
    s2: Seq<T>,
) -> bool {
    &&& has_shape(table, s1.len(), s2.len())
    &&& forall|i: int| 0 <= i <= s1.len() ==> #[trigger] table[i]@[0] == Some(i as usize)
    &&& forall|j: int| 0 <= j <= s2.len() ==> #[trigger] table[0]@[j] == Some(j as usize)
    &&& forall|i: int, j: int|
        0 <= i <= s1.len() && 0 <= j <= s2.len() ==> ((#[trigger] table[i]@[j]) matches Some(d)
            ==> cell_holds_distance(d, s1, s2, i, j))
}

/// No cell that is set in `before` differs in `after`.
spec fn keeps_set_cells(
    before: Seq<Vec<Option<usize>>>,
    after: Seq<Vec<Option<usize>>>,
) -> bool {
    forall|i: int, j: int|
        0 <= i < before.len() && 0 <= j < before[i].len() && (#[trigger] before[i]@[j]).is_some()
            ==> i < after.len() && j < after[i].len() && after[i]@[j] == before[i]@[j]
}

/// The distance between the first `i` elements of `i1` and the first `j` of
/// `i2`, taken from the cache where it is there, and else worked out from the
/// distances between shorter prefixes and put into the cache. No cell that was
/// set is changed.
fn levenshtein_memoization_helper<T: Eq>(
    i1: &[T],
    i2: &[T],
    i: usize,
    j: usize,
    distances: &mut Vec<Vec<Option<usize>>>,
) -> (d: usize)
    requires
        i <= i1@.len(),
        j <= i2@.len(),
        is_cache_of(old(distances)@, i1@, i2@),
    ensures
        is_cache_of(final(distances)@, i1@, i2@),
        keeps_set_cells(old(distances)@, final(distances)@),
        final(distances)@[i as int]@[j as int] == Some(d),
        cell_holds_distance(d, i1@, i2@, i as int, j as int),
    decreases i + j,
{
    // check the cache first
    if let Some(cached) = distances[i][j] {
        return cached;
    }
    // not there yet: the cell is neither in row 0 nor in column 0
    proof {
        lemma_prefix_drop_last(i1@, i as int);
        lemma_prefix_drop_last(i2@, j as int);
    }

    let distance = if i1[i - 1] == i2[j - 1] {
        levenshtein_memoization_helper(i1, i2, i - 1, j - 1, distances)
    } else {
        let delete = levenshtein_memoization_helper(i1, i2, i - 1, j, distances);
        let insert = levenshtein_memoization_helper(i1, i2, i, j - 1, distances);
        let substitute = levenshtein_memoization_helper(i1, i2, i - 1, j - 1, distances);
        1 + min_of_three(delete, insert, substitute)
    };

    // update the cache
    distances[i][j] = Some(distance);

    distance
}

/// The edit distance between `i1` and `i2`, computed from the top down: the
/// distance between two prefixes is looked up in a cache, and worked out from
/// the distances between shorter prefixes, and stored, only when it is not
/// there yet.
///
/// The result is the same as that of [`levenshtein_naive`]. Both lengths are to
/// be below `usize::MAX`, for the cache to have a row and a column more.
pub fn levenshtein_memoization<T: Eq>(i1: &[T], i2: &[T]) -> (d: usize)
    requires
        i1@.len() < usize::MAX,
        i2@.len() < usize::MAX,
    ensures
        T::obeys_eq_spec() ==> d == distance(i1@, i2@),
        d <= i1@.len() || d <= i2@.len(),
{
    let m = i1.len();
    let n = i2.len();

    let seeded = |i: usize| -> (cell: Option<usize>)
        ensures
            cell == Some(i),
        { Some(i) };
    let mut distances = get_distance_table(m, n, seeded, None);
    proof {
        assert forall|i: int, j: int| 0 <= i <= m && 0 <= j <= n implies (
        #[trigger] distances@[i]@[j]) matches Some(d) ==> cell_holds_distance(
            d,
            i1@,
            i2@,
            i,
            j,
        ) by {
            assert(i1@.take(i).len() == i);
            assert(i2@.take(j).len() == j);
        }
        assert(i1@.take(m as int) == i1@);
        assert(i2@.take(n as int) == i2@);
    }

    levenshtein_memoization_helper(i1, i2, m, n, &mut distances)
}

/// Agreement: on the same two sequences, of elements whose `==` is the
/// relation `eq_spec`, the three strategies return the same number, and that
/// number is the edit distance.
pub proof fn lemma_strategies_agree<T: Eq>(
    i1: &[T],
    i2: &[T],
    naive: usize,
    tabulated: usize,
    memoized: usize,
)
    requires
        T::obeys_eq_spec(),
        call_ensures(levenshtein_naive::<T>, (i1, i2), naive),
        call_ensures(levenshtein_tabulation::<T>, (i1, i2), tabulated),
        call_ensures(levenshtein_memoization::<T>, (i1, i2), memoized),
    ensures
        naive == tabulated,
        tabulated == memoized,
        memoized == distance(i1@, i2@),
{
}

/// The first `i` elements of `s` are its first `i - 1` elements and then
/// `s[i - 1]`.
proof fn lemma_prefix_drop_last<T>(s: Seq<T>, i: int)
    requires
        1 <= i <= s.len(),
    ensures
        s.take(i).len() == i,
        s.take(i).drop_last() == s.take(i - 1),
        s.take(i).last() == s[i - 1],
{
}

/// The smallest of three numbers.
fn min_of_three(a: usize, b: usize, c: usize) -> (m: usize)
    ensures
        m == min3(a as nat, b as nat, c as nat),
{
    if a <= b && a <= c {
        a
    } else if b <= c {
        b
    } else {
        c
    }
}

} // verus!
