//! The listing engine: a list of filters, of which those without a value
//! do nothing, one optional sort, and a page. It is written once, for
//! every kind of record that says what its columns hold.

use vstd::prelude::*;
use vstd::string::StringExecFns;
use crate::pattern::{like, matches_pattern};
use crate::value::{before_or_equal, rank, value_le, Value, ValueView};

verus! {

/// How a column is held against a filter's value.
#[derive(Debug, Clone, Copy, PartialEq, Eq, Structural)]
pub enum Comparison {
    /// The column holds the value.
    Eq,
    /// The column's text matches the value as a pattern.
    Like,
    /// The column holds the value or what comes after it.
    Ge,
    /// The column holds the value or what comes before it.
    Le,
}

/// One filter: a column, a comparison, and the value to compare with. A
/// filter without a value lets every record pass.
#[derive(Debug, PartialEq, Eq)]
pub struct Filter {
    pub column: usize,
    pub kind: Comparison,
    pub value: Option<Value>,
}

/// A `Filter` as mathematics.
pub struct FilterView {
    pub column: usize,
    pub kind: Comparison,
    pub value: Option<ValueView>,
}

impl View for Filter {
    type V = FilterView;

    open spec fn view(&self) -> FilterView {
        FilterView {
            column: self.column,
            kind: self.kind,
            value: match self.value {
                Some(v) => Some(v@),
                None => None,
            },
        }
    }
}

/// Which way a sort runs.
#[derive(Debug, Clone, Copy, PartialEq, Eq, Structural)]
pub enum Direction {
    /// From the least value up; records that hold nothing come last.
    Asc,
    /// From the greatest value down; records that hold nothing come first.
    Desc,
}

/// One sort: a column and a direction.
#[derive(Debug, Clone, Copy, PartialEq, Eq, Structural)]
pub struct SortBy {
    pub column: usize,
    pub direction: Direction,
}

/// One listing: the filters, the sort if any, and the page. A page number
/// or a page size that is missing, zero or negative stands for the
/// default.
#[derive(Debug, PartialEq, Eq)]
pub struct ListQuery {
    pub filters: Vec<Filter>,
    pub sort: Option<SortBy>,
    pub page: Option<i64>,
    pub page_size: Option<i64>,
}

/// A `ListQuery` as mathematics.
pub struct ListQueryView {
    pub filters: Seq<FilterView>,
    pub sort: Option<SortBy>,
    pub page: Option<i64>,
    pub page_size: Option<i64>,
}

impl View for ListQuery {
    type V = ListQueryView;

    open spec fn view(&self) -> ListQueryView {
        ListQueryView {
            filters: filters_view(self.filters@),
            sort: self.sort,
            page: self.page,
            page_size: self.page_size,
        }
    }
}

/// The page that is shown where none is asked for.
pub const DEFAULT_PAGE: i64 = 1;

/// The page size that is used where none is asked for.
pub const DEFAULT_PAGE_SIZE: i64 = 10;

/// A kind of record that can be listed: it says what each of its columns
/// holds, and can be copied.
pub trait Record: View + Sized {
    /// What column `column` of a record holds. A record holds nothing in a
    /// column that it does not have.
    spec fn cell(row: Self::V, column: usize) -> ValueView;

    /// The names of the columns by which a listing may be sorted, each at
    /// the place of its column.
    spec fn columns() -> Seq<Seq<char>>;

    /// The names of the columns by which a listing may be sorted.
    fn column_names() -> (names: Vec<String>)
        ensures
            names_view(names@) == Self::columns(),
    ;

    /// Reads column `column`.
    fn read(&self, column: usize) -> (value: Value)
        ensures
            value@ == Self::cell(self@, column),
    ;

    /// A copy of the record.
    fn duplicate(&self) -> (copy: Self)
        ensures
            copy@ == self@,
    ;
}

/// Whether two values can be held against each other: both are there, and
/// of one kind.
pub open spec fn comparable(a: ValueView, b: ValueView) -> bool {
    rank(a) == rank(b) && a != ValueView::Null
}

/// Whether what a column holds stands in the relation `kind` to `value`.
/// A column that holds nothing, or a value of another kind, never does.
pub open spec fn compares(kind: Comparison, cell: ValueView, value: ValueView) -> bool {
    match kind {
        Comparison::Eq => comparable(cell, value) && cell == value,
        Comparison::Like => cell matches ValueView::Text(text) && value matches ValueView::Text(pattern) && like(
            text,
            pattern,
        ),
        Comparison::Ge => comparable(cell, value) && value_le(value, cell),
        Comparison::Le => comparable(cell, value) && value_le(cell, value),
    }
}

/// Whether a record passes one filter.
pub open spec fn passes<R: Record>(row: R::V, filter: FilterView) -> bool {
    match filter.value {
        Some(value) => compares(filter.kind, R::cell(row, filter.column), value),
        None => true,
    }
}

/// Whether a record passes every filter of a list.
pub open spec fn passes_all<R: Record>(row: R::V, filters: Seq<FilterView>) -> bool {
    forall|k: int| 0 <= k < filters.len() ==> passes::<R>(row, #[trigger] filters[k])
}

/// The records that pass every filter, in the order they had.
pub open spec fn selected<R: Record>(rows: Seq<R::V>, filters: Seq<FilterView>) -> Seq<R::V> {
    rows.filter(|row: R::V| passes_all::<R>(row, filters))
}

/// Whether record `a` may stand before record `b` under a sort.
pub open spec fn in_order<R: Record>(a: R::V, b: R::V, sort: SortBy) -> bool {
    match sort.direction {
        Direction::Asc => value_le(R::cell(a, sort.column), R::cell(b, sort.column)),
        Direction::Desc => value_le(R::cell(b, sort.column), R::cell(a, sort.column)),
    }
}

/// A sorted sequence with one more record put in its place: behind the
/// last record that may stand before it.
pub open spec fn placed<R: Record>(sorted: Seq<R::V>, row: R::V, sort: SortBy) -> Seq<R::V>
    decreases sorted.len(),
{
    if sorted.len() == 0 {
        seq![row]
    } else if in_order::<R>(sorted.last(), row, sort) {
        sorted.push(row)
    } else {
        placed::<R>(sorted.drop_last(), row, sort).push(sorted.last())
    }
}

/// The records sorted: each one put in its place among those before it,
/// so that records which are level keep the order they had.
pub open spec fn sorted_by<R: Record>(rows: Seq<R::V>, sort: SortBy) -> Seq<R::V>
    decreases rows.len(),
{
    if rows.len() == 0 {
        rows
    } else {
        placed::<R>(sorted_by::<R>(rows.drop_last(), sort), rows.last(), sort)
    }
}

/// The records in the order asked for: sorted, or as they were where no
/// sort is asked for.
pub open spec fn ordered<R: Record>(rows: Seq<R::V>, sort: Option<SortBy>) -> Seq<R::V> {
    match sort {
        Some(by) => sorted_by::<R>(rows, by),
        None => rows,
    }
}

/// The page number that a request stands for.
pub open spec fn page_number(page: Option<i64>) -> int {
    match page {
        Some(n) => if n >= 1 { n as int } else { DEFAULT_PAGE as int },
        None => DEFAULT_PAGE as int,
    }
}

/// The page size that a request stands for.
pub open spec fn page_size(size: Option<i64>) -> int {
    match size {
        Some(n) => if n >= 1 { n as int } else { DEFAULT_PAGE_SIZE as int },
        None => DEFAULT_PAGE_SIZE as int,
    }
}

/// How many pages `count` records fill: `count / size`, rounded up.
pub open spec fn total_pages(count: int, size: int) -> int {
    (count + size - 1) / size
}

/// The lesser of two numbers.
pub open spec fn least(a: int, b: int) -> int {
    if a <= b { a } else { b }
}

/// Where page `page` begins among `count` records.
pub open spec fn page_start(count: int, page: int, size: int) -> int {
    least((page - 1) * size, count)
}

/// Where page `page` ends among `count` records.
pub open spec fn page_end(count: int, page: int, size: int) -> int {
    least(page * size, count)
}

/// The records of page `page`.
pub open spec fn page_of<A>(rows: Seq<A>, page: int, size: int) -> Seq<A> {
    rows.subrange(page_start(rows.len() as int, page, size), page_end(rows.len() as int, page, size))
}

/// What a listing gives: the records of the page asked for, among those
/// that pass the filters, in the order asked for; and how many pages
/// those records fill.
pub open spec fn list_outcome<R: Record>(rows: Seq<R::V>, query: ListQueryView) -> (Seq<R::V>, int) {
    let hits = selected::<R>(rows, query.filters);
    (
        page_of(ordered::<R>(hits, query.sort), page_number(query.page), page_size(query.page_size)),
        total_pages(hits.len() as int, page_size(query.page_size)),
    )
}

/// Texts as mathematics.
pub open spec fn names_view(names: Seq<String>) -> Seq<Seq<char>> {
    names.map_values(|name: String| name@)
}

/// The direction in which `text` asks to sort by the column `name`, if it
/// names that column: the name alone or with `.asc` for rising, with
/// `.desc` for falling.
pub open spec fn sort_on(text: Seq<char>, name: Seq<char>) -> Option<Direction> {
    if text == name || text == name + ".asc"@ {
        Some(Direction::Asc)
    } else if text == name + ".desc"@ {
        Some(Direction::Desc)
    } else {
        None
    }
}

/// The sort that `text` asks for among the columns from place `from` on:
/// that of the first column it names, or none.
pub open spec fn sort_from(text: Seq<char>, names: Seq<Seq<char>>, from: int) -> Option<SortBy>
    decreases names.len() - from,
{
    if from < 0 || from >= names.len() {
        None
    } else {
        match sort_on(text, names[from]) {
            Some(direction) => Some(SortBy { column: from as usize, direction }),
            None => sort_from(text, names, from + 1),
        }
    }
}

/// The sort that `text` asks for. A text that names no column of the
/// list asks for none: nothing but a listed name ever reaches a sort.
pub open spec fn sort_for(text: Seq<char>, names: Seq<Seq<char>>) -> Option<SortBy> {
    sort_from(text, names, 0)
}

/// Records as mathematics.
pub open spec fn rows_view<R: Record>(rows: Seq<R>) -> Seq<R::V> {
    rows.map_values(|row: R| row@)
}

/// Filters as mathematics.
pub open spec fn filters_view(filters: Seq<Filter>) -> Seq<FilterView> {
    filters.map_values(|filter: Filter| filter@)
}

/// The records at the places that `indices` names, in that order.
pub open spec fn picked<A>(rows: Seq<A>, indices: Seq<usize>) -> Seq<A> {
    indices.map_values(|i: usize| rows[i as int])
}

/// Whether two values are the same.
pub fn same_value(a: &Value, b: &Value) -> (same: bool)
    ensures
        same == (a@ == b@),
{
    match (a, b) {
        (Value::Id(x), Value::Id(y)) => *x == *y,
        (Value::Time(x), Value::Time(y)) => *x == *y,
        (Value::Text(x), Value::Text(y)) => *x == *y,
        (Value::Null, Value::Null) => true,
        _ => false,
    }
}

/// Whether two values can be held against each other.
pub fn can_compare(a: &Value, b: &Value) -> (can: bool)
    ensures
        can == comparable(a@, b@),
{
    match (a, b) {
        (Value::Id(_), Value::Id(_)) => true,
        (Value::Time(_), Value::Time(_)) => true,
        (Value::Text(_), Value::Text(_)) => true,
        _ => false,
    }
}

/// Whether what a column holds stands in the relation `kind` to `value`.
pub fn satisfies(kind: Comparison, cell: &Value, value: &Value) -> (ok: bool)
    ensures
        ok == compares(kind, cell@, value@),
{
    match kind {
        Comparison::Eq => can_compare(cell, value) && same_value(cell, value),
        Comparison::Like => match (cell, value) {
            (Value::Text(text), Value::Text(pattern)) => matches_pattern(text.as_str(), pattern.as_str()),
            _ => false,
        },
        Comparison::Ge => can_compare(cell, value) && before_or_equal(value, cell),
        Comparison::Le => can_compare(cell, value) && before_or_equal(cell, value),
    }
}

/// Whether a record passes one filter.
pub fn row_passes<R: Record>(row: &R, filter: &Filter) -> (ok: bool)
    ensures
        ok == passes::<R>(row@, filter@),
{
    match &filter.value {
        Some(value) => {
            let cell = row.read(filter.column);
            satisfies(filter.kind, &cell, value)
        },
        None => true,
    }
}

/// Whether a record passes every filter of a list.
pub fn row_passes_all<R: Record>(row: &R, filters: &Vec<Filter>) -> (ok: bool)
    ensures
        ok == passes_all::<R>(row@, filters_view(filters@)),
{
    let mut k: usize = 0;
    while k < filters.len()
        invariant
            k <= filters.len(),
            forall|j: int| 0 <= j < k ==> passes::<R>(row@, #[trigger] filters_view(filters@)[j]),
        decreases filters.len() - k,
    {
        if !row_passes(row, &filters[k]) {
            assert(!passes::<R>(row@, filters_view(filters@)[k as int]));
            return false;
        }
        k += 1;
    }
    true
}

/// The places of the records that pass every filter, in rising order.
pub fn select<R: Record>(rows: &Vec<R>, filters: &Vec<Filter>) -> (kept: Vec<usize>)
    ensures
        forall|k: int| 0 <= k < kept@.len() ==> kept@[k] < rows@.len(),
        picked(rows_view(rows@), kept@) == selected::<R>(rows_view(rows@), filters_view(filters@)),
{
    let ghost all = rows_view(rows@);
    let ghost wanted = filters_view(filters@);
    let mut kept: Vec<usize> = Vec::new();
    let mut i: usize = 0;
    proof {
        reveal(Seq::filter);
        assert(all.take(0) =~= Seq::<R::V>::empty());
        assert(picked(all, kept@) =~= selected::<R>(all.take(0), wanted));
    }
    while i < rows.len()
        invariant
            i <= rows.len(),
            all == rows_view(rows@),
            wanted == filters_view(filters@),
            forall|k: int| 0 <= k < kept@.len() ==> kept@[k] < i,
            picked(all, kept@) == selected::<R>(all.take(i as int), wanted),
        decreases rows.len() - i,
    {
        let ghost before = kept@;
        let pass = row_passes_all(&rows[i], filters);
        proof {
            reveal(Seq::filter);
            let upto = all.take(i + 1);
            assert(upto.drop_last() =~= all.take(i as int));
            assert(upto.last() == all[i as int]);
            assert(all[i as int] == rows@[i as int]@);
        }
        if pass {
            kept.push(i);
            assert(picked(all, kept@) =~= picked(all, before).push(all[i as int]));
        }
        i += 1;
    }
    assert(all.take(rows@.len() as int) =~= all);
    kept
}

/// The direction in which `text` asks to sort by the column `name`.
pub fn direction_for(text: &String, name: &String) -> (direction: Option<Direction>)
    ensures
        direction == sort_on(text@, name@),
{
    if *text == *name {
        return Some(Direction::Asc);
    }
    let rising = name.clone().concat(".asc");
    if *text == rising {
        return Some(Direction::Asc);
    }
    let falling = name.clone().concat(".desc");
    if *text == falling {
        return Some(Direction::Desc);
    }
    None
}

/// Reads a sort from what a client sent, against the columns of `R`.
pub fn parse_sort<R: Record>(text: &String) -> (sort: Option<SortBy>)
    ensures
        sort == sort_for(text@, R::columns()),
{
    let names = R::column_names();
    let mut column: usize = 0;
    while column < names.len()
        invariant
            column <= names.len(),
            names_view(names@) == R::columns(),
            sort_for(text@, R::columns()) == sort_from(text@, R::columns(), column as int),
        decreases names.len() - column,
    {
        assert(names_view(names@)[column as int] == names@[column as int]@);
        match direction_for(text, &names[column]) {
            Some(direction) => { return Some(SortBy { column, direction }); },
            None => {},
        }
        column += 1;
    }
    None
}

/// Whether the record at place `a` may stand before a record that holds
/// `key` in the sort's column.
fn stands_before<R: Record>(rows: &Vec<R>, a: usize, key: &Value, sort: SortBy) -> (ok: bool)
    requires
        a < rows@.len(),
    ensures
        forall|row: R::V| R::cell(row, sort.column) == key@ ==> ok == in_order::<R>(rows@[a as int]@, row, sort),
{
    let other = rows[a].read(sort.column);
    match sort.direction {
        Direction::Asc => before_or_equal(&other, key),
        Direction::Desc => before_or_equal(key, &other),
    }
}

/// Puts the places `kept` into the order asked for.
pub fn arrange<R: Record>(rows: &Vec<R>, kept: Vec<usize>, sort: Option<SortBy>) -> (sorted: Vec<usize>)
    requires
        forall|k: int| 0 <= k < kept@.len() ==> kept@[k] < rows@.len(),
    ensures
        forall|k: int| 0 <= k < sorted@.len() ==> sorted@[k] < rows@.len(),
        picked(rows_view(rows@), sorted@) == ordered::<R>(picked(rows_view(rows@), kept@), sort),
{
    let by = match sort {
        Some(by) => by,
        None => { return kept; },
    };
    let ghost all = rows_view(rows@);
    let ghost input = picked(all, kept@);
    let mut sorted: Vec<usize> = Vec::new();
    let mut k: usize = 0;
    proof {
        assert(input.take(0) =~= Seq::<R::V>::empty());
        assert(picked(all, sorted@) =~= sorted_by::<R>(input.take(0), by));
    }
    while k < kept.len()
        invariant
            k <= kept.len(),
            all == rows_view(rows@),
            input == picked(all, kept@),
            forall|j: int| 0 <= j < kept@.len() ==> kept@[j] < rows@.len(),
            forall|j: int| 0 <= j < sorted@.len() ==> sorted@[j] < rows@.len(),
            picked(all, sorted@) == sorted_by::<R>(input.take(k as int), by),
        decreases kept.len() - k,
    {
        let index = kept[k];
        let key = rows[index].read(by.column);
        let ghost row = all[index as int];
        let ghost so_far = picked(all, sorted@);
        let mut p: usize = sorted.len();
        assert(so_far.take(p as int) =~= so_far && so_far.skip(p as int) =~= Seq::<R::V>::empty());
        assert(placed::<R>(so_far, row, by) =~= placed::<R>(so_far.take(p as int), row, by) + so_far.skip(p as int));
        while p > 0 && !stands_before(rows, sorted[p - 1], &key, by)
            invariant
                p <= sorted@.len(),
                index < rows@.len(),
                all == rows_view(rows@),
                row == all[index as int],
                R::cell(row, by.column) == key@,
                so_far == picked(all, sorted@),
                forall|j: int| 0 <= j < sorted@.len() ==> sorted@[j] < rows@.len(),
                placed::<R>(so_far, row, by) == placed::<R>(so_far.take(p as int), row, by) + so_far.skip(p as int),
            decreases p,
        {
            proof {
                let head = so_far.take(p as int);
                assert(head.last() == all[sorted@[p - 1] as int]);
                assert(!in_order::<R>(head.last(), row, by));
                assert(head.drop_last() =~= so_far.take(p - 1));
                assert(placed::<R>(so_far.take(p - 1), row, by).push(head.last()) + so_far.skip(p as int)
                    =~= placed::<R>(so_far.take(p - 1), row, by) + so_far.skip(p - 1));
            }
            p -= 1;
        }
        proof {
            let head = so_far.take(p as int);
            if p > 0 {
                assert(head.last() == all[sorted@[p - 1] as int]);
                assert(in_order::<R>(head.last(), row, by));
            }
            assert(placed::<R>(head, row, by) =~= head.push(row));
            assert(head.push(row) + so_far.skip(p as int) =~= so_far.insert(p as int, row));
        }
        sorted.insert(p, index);
        proof {
            assert(picked(all, sorted@) =~= so_far.insert(p as int, row));
            let upto = input.take(k + 1);
            assert(upto.drop_last() =~= input.take(k as int));
            assert(upto.last() == row);
        }
        k += 1;
    }
    assert(input.take(kept@.len() as int) =~= input);
    sorted
}

/// The page number that a request stands for.
pub fn normal_page(page: Option<i64>) -> (n: i64)
    ensures
        n == page_number(page),
        n >= 1,
{
    match page {
        Some(n) => if n >= 1 { n } else { DEFAULT_PAGE },
        None => DEFAULT_PAGE,
    }
}

/// The page size that a request stands for.
pub fn normal_page_size(size: Option<i64>) -> (n: i64)
    ensures
        n == page_size(size),
        n >= 1,
{
    match size {
        Some(n) => if n >= 1 { n } else { DEFAULT_PAGE_SIZE },
        None => DEFAULT_PAGE_SIZE,
    }
}

/// How many pages `count` records fill: `count` divided by the page size
/// and rounded up. Only a number of pages that an `i64` cannot hold, which
/// takes more records than an `i64` counts, is given as the greatest
/// `i64`.
pub fn count_pages(count: usize, size: Option<i64>) -> (pages: i64)
    ensures
        pages == least(total_pages(count as int, page_size(size)), i64::MAX as int),
        count <= i64::MAX ==> pages == total_pages(count as int, page_size(size)),
{
    proof {
        lemma_pages_are_no_more_than_records(count as int, page_size(size));
    }
    let size = normal_page_size(size) as u128;
    let pages = (count as u128 + size - 1) / size;
    if pages > i64::MAX as u128 {
        i64::MAX
    } else {
        pages as i64
    }
}

/// Where the page asked for begins and ends among `count` records.
pub fn page_bounds(count: usize, page: Option<i64>, size: Option<i64>) -> (bounds: (usize, usize))
    ensures
        bounds.0 == page_start(count as int, page_number(page), page_size(size)),
        bounds.1 == page_end(count as int, page_number(page), page_size(size)),
        bounds.0 <= bounds.1 <= count,
{
    let page = normal_page(page) as u128;
    let size = normal_page_size(size) as u128;
    assert((page - 1) * size <= page * size <= 0x4000_0000_0000_0000_0000_0000_0000_0000) by (nonlinear_arith)
        requires
            1 <= page <= 0x7fff_ffff_ffff_ffff,
            1 <= size <= 0x7fff_ffff_ffff_ffff,
    ;
    let first = (page - 1) * size;
    let last = page * size;
    let start = if first < count as u128 { first as usize } else { count };
    let end = if last < count as u128 { last as usize } else { count };
    (start, end)
}

/// How many records stand before the page asked for, or `None` where
/// that number is more than an `i64` holds: then the page is beyond any
/// record that can be counted.
pub fn page_offset(page: Option<i64>, size: Option<i64>) -> (offset: Option<i64>)
    ensures
        match offset {
            Some(n) => n == (page_number(page) - 1) * page_size(size),
            None => (page_number(page) - 1) * page_size(size) > i64::MAX,
        },
{
    let page = normal_page(page) as u128;
    let size = normal_page_size(size) as u128;
    assert(0 <= (page - 1) * size <= 0x4000_0000_0000_0000_0000_0000_0000_0000) by (nonlinear_arith)
        requires
            1 <= page <= 0x7fff_ffff_ffff_ffff,
            1 <= size <= 0x7fff_ffff_ffff_ffff,
    ;
    let before = (page - 1) * size;
    if before > i64::MAX as u128 {
        None
    } else {
        Some(before as i64)
    }
}

/// Lists records: keeps those that pass every filter, puts them into the
/// order asked for, and gives the page asked for and the number of pages.
/// The page holds no more records than the page size. The pages are
/// counted over the records that pass the filters, not over all; only a
/// number that an `i64` cannot hold is given as the greatest `i64`.
pub fn list<R: Record>(rows: &Vec<R>, query: &ListQuery) -> (res: (Vec<R>, i64))
    ensures
        rows_view(res.0@) == list_outcome::<R>(rows_view(rows@), query@).0,
        res.1 == least(list_outcome::<R>(rows_view(rows@), query@).1, i64::MAX as int),
        res.0@.len() <= page_size(query@.page_size),
        rows@.len() <= i64::MAX ==> res.1 == total_pages(
            selected::<R>(rows_view(rows@), query@.filters).len() as int,
            page_size(query@.page_size),
        ),
{
    let ghost all = rows_view(rows@);
    let kept = select(rows, &query.filters);
    let count = kept.len();
    proof {
        all.lemma_filter_len(|row: R::V| passes_all::<R>(row, query@.filters));
        assert(picked(all, kept@).len() == count);
    }
    let sorted = arrange(rows, kept, query.sort);
    let ghost lined = picked(all, sorted@);
    proof {
        lemma_ordered_keeps_length::<R>(selected::<R>(all, query@.filters), query.sort);
    }
    let (start, end) = page_bounds(sorted.len(), query.page, query.page_size);
    proof {
        lemma_page_holds_at_most_size(lined, page_number(query.page), page_size(query.page_size));
    }
    let mut page: Vec<R> = Vec::new();
    let mut i: usize = start;
    while i < end
        invariant
            start <= i <= end <= sorted@.len(),
            all == rows_view(rows@),
            lined == picked(all, sorted@),
            forall|k: int| 0 <= k < sorted@.len() ==> sorted@[k] < rows@.len(),
            rows_view(page@) == lined.subrange(start as int, i as int),
        decreases end - i,
    {
        let ghost before = rows_view(page@);
        page.push(rows[sorted[i]].duplicate());
        assert(rows_view(page@) =~= before.push(lined[i as int]));
        assert(lined.subrange(start as int, i + 1) =~= lined.subrange(start as int, i as int).push(lined[i as int]));
        i += 1;
    }
    (page, count_pages(count, query.page_size))
}

/// Sorting keeps the number of records.
pub proof fn lemma_placed_length<R: Record>(sorted: Seq<R::V>, row: R::V, sort: SortBy)
    ensures
        placed::<R>(sorted, row, sort).len() == sorted.len() + 1,
    decreases sorted.len(),
{
    if sorted.len() > 0 && !in_order::<R>(sorted.last(), row, sort) {
        lemma_placed_length::<R>(sorted.drop_last(), row, sort);
    }
}

/// Putting records in order keeps their number.
pub proof fn lemma_ordered_keeps_length<R: Record>(rows: Seq<R::V>, sort: Option<SortBy>)
    ensures
        ordered::<R>(rows, sort).len() == rows.len(),
    decreases rows.len(),
{
    if let Some(by) = sort {
        if rows.len() > 0 {
            lemma_ordered_keeps_length::<R>(rows.drop_last(), sort);
            lemma_placed_length::<R>(sorted_by::<R>(rows.drop_last(), by), rows.last(), by);
        }
    }
}

/// A record is among the selected ones exactly if it is among the
/// records and passes every filter.
pub proof fn lemma_selected_members<R: Record>(rows: Seq<R::V>, filters: Seq<FilterView>, row: R::V)
    ensures
        selected::<R>(rows, filters).contains(row) <==> rows.contains(row) && passes_all::<R>(row, filters),
{
    let keep = |row: R::V| passes_all::<R>(row, filters);
    let hits = rows.filter(keep);
    if hits.contains(row) {
        rows.lemma_filter_contains_rev(keep, row);
        let i = choose|i: int| 0 <= i < hits.len() && hits[i] == row;
        rows.lemma_filter_pred(keep, i);
    }
    if rows.contains(row) && passes_all::<R>(row, filters) {
        let i = choose|i: int| 0 <= i < rows.len() && rows[i] == row;
        rows.lemma_filter_contains(keep, i);
    }
}

/// Filters join by "and": the records that two lists of filters select
/// together are those that each of the two selects.
pub proof fn lemma_filters_intersect<R: Record>(
    rows: Seq<R::V>,
    first: Seq<FilterView>,
    second: Seq<FilterView>,
    row: R::V,
)
    ensures
        selected::<R>(rows, first + second).contains(row) <==> selected::<R>(rows, first).contains(row)
            && selected::<R>(rows, second).contains(row),
{
    lemma_selected_members::<R>(rows, first + second, row);
    lemma_selected_members::<R>(rows, first, row);
    lemma_selected_members::<R>(rows, second, row);
    lemma_passes_all_of_both::<R>(row, first, second);
}

/// A record passes two lists of filters put together exactly if it passes
/// each.
pub proof fn lemma_passes_all_of_both<R: Record>(row: R::V, first: Seq<FilterView>, second: Seq<FilterView>)
    ensures
        passes_all::<R>(row, first + second) <==> passes_all::<R>(row, first) && passes_all::<R>(row, second),
{
    let both = first + second;
    if passes_all::<R>(row, both) {
        assert forall|k: int| 0 <= k < first.len() implies passes::<R>(row, #[trigger] first[k]) by {
            assert(both[k] == first[k]);
        }
        assert forall|k: int| 0 <= k < second.len() implies passes::<R>(row, #[trigger] second[k]) by {
            assert(both[first.len() + k] == second[k]);
        }
    }
    if passes_all::<R>(row, first) && passes_all::<R>(row, second) {
        assert forall|k: int| 0 <= k < both.len() implies passes::<R>(row, #[trigger] both[k]) by {
            if k < first.len() {
                assert(both[k] == first[k]);
            } else {
                assert(both[k] == second[k - first.len()]);
            }
        }
    }
}

/// The order in which filters are listed does not change what is
/// selected, nor the order of what is selected.
pub proof fn lemma_filter_order_is_irrelevant<R: Record>(
    rows: Seq<R::V>,
    first: Seq<FilterView>,
    second: Seq<FilterView>,
)
    ensures
        selected::<R>(rows, first + second) == selected::<R>(rows, second + first),
{
    let one = |row: R::V| passes_all::<R>(row, first + second);
    let other = |row: R::V| passes_all::<R>(row, second + first);
    assert forall|row: R::V| #[trigger] one(row) == other(row) by {
        lemma_passes_all_of_both::<R>(row, first, second);
        lemma_passes_all_of_both::<R>(row, second, first);
    }
    assert(one =~= other);
}

/// Filters without a value do nothing: where no filter has one, every
/// record is selected.
pub proof fn lemma_absent_filters_do_nothing<R: Record>(rows: Seq<R::V>, filters: Seq<FilterView>)
    requires
        forall|k: int| 0 <= k < filters.len() ==> (#[trigger] filters[k]).value is None,
    ensures
        selected::<R>(rows, filters) == rows,
{
    let keep = |row: R::V| passes_all::<R>(row, filters);
    lemma_filter_keeps_all(rows, keep);
}

proof fn lemma_filter_keeps_all<A>(rows: Seq<A>, keep: spec_fn(A) -> bool)
    requires
        forall|row: A| #[trigger] keep(row),
    ensures
        rows.filter(keep) == rows,
    decreases rows.len(),
{
    reveal(Seq::filter);
    if rows.len() > 0 {
        lemma_filter_keeps_all(rows.drop_last(), keep);
        assert(rows.drop_last().push(rows.last()) =~= rows);
    }
}

/// A listing that asks for nothing gives the first page of the default
/// size of all records, in the order they have, and the number of pages
/// that all records fill.
pub proof fn lemma_plain_listing<R: Record>(rows: Seq<R::V>, query: ListQueryView)
    requires
        forall|k: int| 0 <= k < query.filters.len() ==> (#[trigger] query.filters[k]).value is None,
        query.sort is None,
        query.page is None,
        query.page_size is None,
    ensures
        list_outcome::<R>(rows, query).0 == rows.take(least(DEFAULT_PAGE_SIZE as int, rows.len() as int)),
        list_outcome::<R>(rows, query).1 == total_pages(rows.len() as int, DEFAULT_PAGE_SIZE as int),
{
    lemma_absent_filters_do_nothing::<R>(rows, query.filters);
    assert(page_number(query.page) == 1 && page_size(query.page_size) == 10);
    assert(page_start(rows.len() as int, 1, 10) == 0);
    assert(page_end(rows.len() as int, 1, 10) == least(10, rows.len() as int));
    assert(list_outcome::<R>(rows, query).0 =~= rows.take(least(DEFAULT_PAGE_SIZE as int, rows.len() as int)));
}

/// A text that names no listed column asks for no sort, and the records
/// stay in the order they have.
pub proof fn lemma_unlisted_sort_is_no_sort<R: Record>(rows: Seq<R::V>, text: Seq<char>, names: Seq<Seq<char>>)
    requires
        forall|c: int| 0 <= c < names.len() ==> sort_on(text, #[trigger] names[c]) is None,
    ensures
        sort_for(text, names) is None,
        ordered::<R>(rows, sort_for(text, names)) == rows,
{
    lemma_no_sort_from(text, names, 0);
}

proof fn lemma_no_sort_from(text: Seq<char>, names: Seq<Seq<char>>, from: int)
    requires
        0 <= from,
        forall|c: int| 0 <= c < names.len() ==> sort_on(text, #[trigger] names[c]) is None,
    ensures
        sort_from(text, names, from) is None,
    decreases names.len() - from,
{
    if from < names.len() {
        lemma_no_sort_from(text, names, from + 1);
    }
}

/// Nothing but a listed column ever reaches a sort: the sort that a text
/// asks for is by a column of the list, which the text names.
pub proof fn lemma_sort_names_a_listed_column(text: Seq<char>, names: Seq<Seq<char>>)
    requires
        names.len() <= usize::MAX,
    ensures
        sort_for(text, names) matches Some(by) ==> by.column < names.len() && sort_on(
            text,
            names[by.column as int],
        ) == Some(by.direction),
{
    lemma_sort_from_is_listed(text, names, 0);
}

proof fn lemma_sort_from_is_listed(text: Seq<char>, names: Seq<Seq<char>>, from: int)
    requires
        0 <= from,
        names.len() <= usize::MAX,
    ensures
        sort_from(text, names, from) matches Some(by) ==> by.column < names.len() && sort_on(
            text,
            names[by.column as int],
        ) == Some(by.direction),
    decreases names.len() - from,
{
    if from < names.len() {
        lemma_sort_from_is_listed(text, names, from + 1);
    }
}

/// The number of pages is the number of records divided by the page size
/// and rounded up: the pages hold all records, and one page fewer would
/// not.
pub proof fn lemma_total_pages_is_ceiling(count: int, size: int)
    requires
        count >= 0,
        size >= 1,
    ensures
        total_pages(count, size) >= 0,
        total_pages(count, size) * size >= count,
        (total_pages(count, size) - 1) * size < count || count == 0,
        count == 0 ==> total_pages(count, size) == 0,
{
    let pages = total_pages(count, size);
    let top = count + size - 1;
    vstd::arithmetic::div_mod::lemma_fundamental_div_mod(top, size);
    vstd::arithmetic::div_mod::lemma_mod_bound(top, size);
    vstd::arithmetic::mul::lemma_mul_is_commutative(size, pages);
    vstd::arithmetic::mul::lemma_mul_is_distributive_sub_other_way(size, pages, 1);
    assert((pages - 1) * size == pages * size - size);
    if count == 0 {
        vstd::arithmetic::div_mod::lemma_basic_div(top, size);
    }
    if pages < 0 {
        assert(pages * size <= -1 * size) by (nonlinear_arith)
            requires
                pages <= -1,
                size >= 1,
        ;
    }
}

/// There are no more pages than records.
pub proof fn lemma_pages_are_no_more_than_records(count: int, size: int)
    requires
        count >= 0,
        size >= 1,
    ensures
        0 <= total_pages(count, size) <= count,
{
    lemma_total_pages_is_ceiling(count, size);
    let pages = total_pages(count, size);
    if pages > count {
        assert((pages - 1) * size >= count) by (nonlinear_arith)
            requires
                pages - 1 >= count,
                count >= 0,
                size >= 1,
        ;
    }
}

/// A page holds no more records than the page size.
pub proof fn lemma_page_holds_at_most_size<A>(rows: Seq<A>, page: int, size: int)
    requires
        size >= 1,
        page >= 1,
    ensures
        page_of(rows, page, size).len() <= size,
        page_of(rows, page, size).len() == page_end(rows.len() as int, page, size) - page_start(
            rows.len() as int,
            page,
            size,
        ),
{
    assert(page * size - (page - 1) * size == size) by (nonlinear_arith);
    assert((page - 1) * size >= 0) by (nonlinear_arith)
        requires
            page >= 1,
            size >= 1,
    ;
}

/// A page beyond the last holds no records.
pub proof fn lemma_page_beyond_last_is_empty<A>(rows: Seq<A>, page: int, size: int)
    requires
        size >= 1,
        page > total_pages(rows.len() as int, size),
    ensures
        page_of(rows, page, size).len() == 0,
{
    let count = rows.len() as int;
    let pages = total_pages(count, size);
    lemma_total_pages_is_ceiling(count, size);
    assert((page - 1) * size >= pages * size) by (nonlinear_arith)
        requires
            page - 1 >= pages,
            size >= 1,
    ;
    assert(page * size >= (page - 1) * size) by (nonlinear_arith)
        requires
            size >= 1,
    ;
}

/// The pages up to the last one hold every record once: each page but the
/// last is full, and page `page` begins where the one before it ends.
pub proof fn lemma_pages_follow_each_other<A>(rows: Seq<A>, page: int, size: int)
    requires
        size >= 1,
        page >= 1,
    ensures
        page_start(rows.len() as int, page + 1, size) == page_end(rows.len() as int, page, size),
        page_start(rows.len() as int, 1, size) == 0,
        page < total_pages(rows.len() as int, size) ==> page_of(rows, page, size).len() == size,
{
    let count = rows.len() as int;
    assert((page + 1 - 1) * size == page * size);
    assert((1 - 1) * size == 0);
    assert(page * size >= 0) by (nonlinear_arith)
        requires
            page >= 1,
            size >= 1,
    ;
    if page < total_pages(count, size) {
        lemma_total_pages_is_ceiling(count, size);
        assert(page * size <= (total_pages(count, size) - 1) * size) by (nonlinear_arith)
            requires
                page <= total_pages(count, size) - 1,
                size >= 1,
        ;
        assert(page * size - (page - 1) * size == size) by (nonlinear_arith);
    }
}

/// Whether each record may stand before all that follow it.
pub open spec fn is_sorted<R: Record>(rows: Seq<R::V>, sort: SortBy) -> bool {
    forall|i: int, j: int| 0 <= i < j < rows.len() ==> in_order::<R>(#[trigger] rows[i], #[trigger] rows[j], sort)
}

/// Putting a record in its place keeps all records, and adds that one.
pub proof fn lemma_placed_is_permutation<R: Record>(sorted: Seq<R::V>, row: R::V, sort: SortBy)
    ensures
        placed::<R>(sorted, row, sort).to_multiset() == sorted.to_multiset().insert(row),
    decreases sorted.len(),
{
    broadcast use vstd::seq_lib::to_multiset_build;

    if sorted.len() == 0 {
        assert(seq![row] =~= sorted.push(row));
    } else if in_order::<R>(sorted.last(), row, sort) {
    } else {
        let rest = sorted.drop_last();
        lemma_placed_is_permutation::<R>(rest, row, sort);
        assert(rest.push(sorted.last()) =~= sorted);
        assert(placed::<R>(sorted, row, sort).to_multiset() =~= sorted.to_multiset().insert(row));
    }
}

/// Sorting neither loses nor adds a record: the sorted records are the
/// records, each as often as it was there.
pub proof fn lemma_sorted_by_is_permutation<R: Record>(rows: Seq<R::V>, sort: SortBy)
    ensures
        sorted_by::<R>(rows, sort).to_multiset() == rows.to_multiset(),
    decreases rows.len(),
{
    broadcast use vstd::seq_lib::to_multiset_build;

    if rows.len() > 0 {
        let rest = rows.drop_last();
        lemma_sorted_by_is_permutation::<R>(rest, sort);
        lemma_placed_is_permutation::<R>(sorted_by::<R>(rest, sort), rows.last(), sort);
        assert(rest.push(rows.last()) =~= rows);
    }
}

proof fn lemma_in_order_total<R: Record>(a: R::V, b: R::V, sort: SortBy)
    ensures
        in_order::<R>(a, b, sort) || in_order::<R>(b, a, sort),
{
    crate::value::lemma_value_le_total(R::cell(a, sort.column), R::cell(b, sort.column));
}

proof fn lemma_in_order_transitive<R: Record>(a: R::V, b: R::V, c: R::V, sort: SortBy)
    requires
        in_order::<R>(a, b, sort),
        in_order::<R>(b, c, sort),
    ensures
        in_order::<R>(a, c, sort),
{
    match sort.direction {
        Direction::Asc => crate::value::lemma_value_le_transitive(
            R::cell(a, sort.column),
            R::cell(b, sort.column),
            R::cell(c, sort.column),
        ),
        Direction::Desc => crate::value::lemma_value_le_transitive(
            R::cell(c, sort.column),
            R::cell(b, sort.column),
            R::cell(a, sort.column),
        ),
    }
}

/// Putting a record in its place among sorted records leaves them
/// sorted.
pub proof fn lemma_placed_is_sorted<R: Record>(sorted: Seq<R::V>, row: R::V, sort: SortBy)
    requires
        is_sorted::<R>(sorted, sort),
    ensures
        is_sorted::<R>(placed::<R>(sorted, row, sort), sort),
        forall|i: int|
            0 <= i < placed::<R>(sorted, row, sort).len() ==> (#[trigger] placed::<R>(sorted, row, sort)[i]) == row
                || sorted.contains(placed::<R>(sorted, row, sort)[i]),
    decreases sorted.len(),
{
    let out = placed::<R>(sorted, row, sort);
    if sorted.len() == 0 {
    } else if in_order::<R>(sorted.last(), row, sort) {
        assert forall|i: int, j: int| 0 <= i < j < out.len() implies in_order::<R>(
            #[trigger] out[i],
            #[trigger] out[j],
            sort,
        ) by {
            if j == sorted.len() {
                if i < sorted.len() - 1 {
                    assert(in_order::<R>(sorted[i], sorted[sorted.len() - 1], sort));
                    lemma_in_order_transitive::<R>(sorted[i], sorted.last(), row, sort);
                }
            } else {
                assert(in_order::<R>(sorted[i], sorted[j], sort));
            }
        }
        assert forall|i: int| 0 <= i < out.len() implies (#[trigger] out[i]) == row || sorted.contains(out[i]) by {
            if i < sorted.len() {
                assert(sorted[i] == out[i]);
            }
        }
    } else {
        let rest = sorted.drop_last();
        let inner = placed::<R>(rest, row, sort);
        assert forall|i: int, j: int| 0 <= i < j < rest.len() implies in_order::<R>(
            #[trigger] rest[i],
            #[trigger] rest[j],
            sort,
        ) by {
            assert(in_order::<R>(sorted[i], sorted[j], sort));
        }
        lemma_placed_is_sorted::<R>(rest, row, sort);
        lemma_placed_length::<R>(rest, row, sort);
        lemma_in_order_total::<R>(sorted.last(), row, sort);
        assert forall|i: int, j: int| 0 <= i < j < out.len() implies in_order::<R>(
            #[trigger] out[i],
            #[trigger] out[j],
            sort,
        ) by {
            if j == inner.len() {
                assert(out[i] == inner[i]);
                if inner[i] != row {
                    assert(rest.contains(inner[i]));
                    let k = choose|k: int| 0 <= k < rest.len() && rest[k] == inner[i];
                    assert(in_order::<R>(sorted[k], sorted[sorted.len() - 1], sort));
                }
            } else {
                assert(in_order::<R>(inner[i], inner[j], sort));
            }
        }
        assert forall|i: int| 0 <= i < out.len() implies (#[trigger] out[i]) == row || sorted.contains(out[i]) by {
            if i < inner.len() {
                assert(out[i] == inner[i]);
                if inner[i] != row {
                    let k = choose|k: int| 0 <= k < rest.len() && rest[k] == inner[i];
                    assert(sorted[k] == out[i]);
                }
            } else {
                assert(sorted[sorted.len() - 1] == out[i]);
            }
        }
    }
}

/// Sorted records are in order: each may stand before all that follow.
pub proof fn lemma_sorted_by_is_sorted<R: Record>(rows: Seq<R::V>, sort: SortBy)
    ensures
        is_sorted::<R>(sorted_by::<R>(rows, sort), sort),
    decreases rows.len(),
{
    if rows.len() > 0 {
        lemma_sorted_by_is_sorted::<R>(rows.drop_last(), sort);
        lemma_placed_is_sorted::<R>(sorted_by::<R>(rows.drop_last(), sort), rows.last(), sort);
    }
}

} // verus!
