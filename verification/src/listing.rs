//! Listings of user records: the columns of a user, and the parameters
//! that a client sends.

use vstd::prelude::*;
use vstd::string::StringExecFns;
use crate::query::{
    filters_view, names_view, parse_sort, sort_for, Comparison, Filter, FilterView, ListQuery, ListQueryView, Record,
};
use crate::user::{User, UserView};
use crate::value::{Value, ValueView};

verus! {

/// The column of a user's identifier.
pub const COLUMN_ID: usize = 0;

/// The column of a user's email.
pub const COLUMN_EMAIL: usize = 1;

/// The column of the time at which a user was created.
pub const COLUMN_CREATED_AT: usize = 2;

/// The column of the time at which a user was last changed.
pub const COLUMN_UPDATED_AT: usize = 3;

/// What a client sends to list users. Times are microseconds since the
/// start of 1970, UTC.
#[derive(Debug, PartialEq, Eq)]
pub struct Params {
    pub page: Option<i64>,
    pub page_size: Option<i64>,
    /// A pattern for the email.
    pub email: Option<String>,
    /// A column's name, alone or with `.asc` or `.desc`.
    pub sort_by: Option<String>,
    pub created_at_gte: Option<i64>,
    pub created_at_lte: Option<i64>,
    pub updated_at_gte: Option<i64>,
    pub updated_at_lte: Option<i64>,
}

/// `Params` as mathematics.
pub struct ParamsView {
    pub page: Option<i64>,
    pub page_size: Option<i64>,
    pub email: Option<Seq<char>>,
    pub sort_by: Option<Seq<char>>,
    pub created_at_gte: Option<i64>,
    pub created_at_lte: Option<i64>,
    pub updated_at_gte: Option<i64>,
    pub updated_at_lte: Option<i64>,
}

impl View for Params {
    type V = ParamsView;

    open spec fn view(&self) -> ParamsView {
        ParamsView {
            page: self.page,
            page_size: self.page_size,
            email: match self.email {
                Some(s) => Some(s@),
                None => None,
            },
            sort_by: match self.sort_by {
                Some(s) => Some(s@),
                None => None,
            },
            created_at_gte: self.created_at_gte,
            created_at_lte: self.created_at_lte,
            updated_at_gte: self.updated_at_gte,
            updated_at_lte: self.updated_at_lte,
        }
    }
}

impl Record for User {
    open spec fn cell(row: UserView, column: usize) -> ValueView {
        if column == COLUMN_ID {
            ValueView::Id(row.id)
        } else if column == COLUMN_EMAIL {
            ValueView::Text(row.email)
        } else if column == COLUMN_CREATED_AT {
            ValueView::Time(row.created_at)
        } else if column == COLUMN_UPDATED_AT {
            match row.updated_at {
                Some(t) => ValueView::Time(t),
                None => ValueView::Null,
            }
        } else {
            ValueView::Null
        }
    }

    open spec fn columns() -> Seq<Seq<char>> {
        seq!["id"@, "email"@, "created_at"@, "updated_at"@]
    }

    fn column_names() -> (names: Vec<String>) {
        let mut names: Vec<String> = Vec::new();
        names.push(String::from_str("id"));
        names.push(String::from_str("email"));
        names.push(String::from_str("created_at"));
        names.push(String::from_str("updated_at"));
        assert(names_view(names@) =~= Self::columns());
        names
    }

    fn read(&self, column: usize) -> (value: Value) {
        if column == COLUMN_ID {
            Value::Id(self.id)
        } else if column == COLUMN_EMAIL {
            Value::Text(self.email.clone())
        } else if column == COLUMN_CREATED_AT {
            Value::Time(self.created_at)
        } else if column == COLUMN_UPDATED_AT {
            match self.updated_at {
                Some(t) => Value::Time(t),
                None => Value::Null,
            }
        } else {
            Value::Null
        }
    }

    fn duplicate(&self) -> (copy: Self) {
        self.clone()
    }
}

/// A filter on a time: that the column stands in the relation `kind` to
/// `time`, where a time is given.
pub open spec fn time_filter(column: usize, kind: Comparison, time: Option<i64>) -> FilterView {
    FilterView {
        column,
        kind,
        value: match time {
            Some(t) => Some(ValueView::Time(t)),
            None => None,
        },
    }
}

/// The filter on the email: that it matches `pattern`, where a pattern is
/// given.
pub open spec fn email_filter(pattern: Option<Seq<char>>) -> FilterView {
    FilterView {
        column: COLUMN_EMAIL,
        kind: Comparison::Like,
        value: match pattern {
            Some(p) => Some(ValueView::Text(p)),
            None => None,
        },
    }
}

/// The listing that a client's parameters ask for: the five filters in
/// their fixed order, the sort that `sort_by` names among the columns of
/// a user, and the page.
pub open spec fn user_query(params: ParamsView) -> ListQueryView {
    ListQueryView {
        filters: seq![
            email_filter(params.email),
            time_filter(COLUMN_CREATED_AT, Comparison::Ge, params.created_at_gte),
            time_filter(COLUMN_CREATED_AT, Comparison::Le, params.created_at_lte),
            time_filter(COLUMN_UPDATED_AT, Comparison::Ge, params.updated_at_gte),
            time_filter(COLUMN_UPDATED_AT, Comparison::Le, params.updated_at_lte),
        ],
        sort: match params.sort_by {
            Some(text) => sort_for(text, User::columns()),
            None => None,
        },
        page: params.page,
        page_size: params.page_size,
    }
}

fn filter_on_time(column: usize, kind: Comparison, time: Option<i64>) -> (filter: Filter)
    ensures
        filter@ == time_filter(column, kind, time),
{
    Filter {
        column,
        kind,
        value: match time {
            Some(t) => Some(Value::Time(t)),
            None => None,
        },
    }
}

impl Params {
    /// Parameters that ask for nothing: every user, unsorted, the first
    /// page of the default size.
    pub fn new() -> (params: Params)
        ensures
            params@ == (ParamsView {
                page: None,
                page_size: None,
                email: None,
                sort_by: None,
                created_at_gte: None,
                created_at_lte: None,
                updated_at_gte: None,
                updated_at_lte: None,
            }),
    {
        Params {
            page: None,
            page_size: None,
            email: None,
            sort_by: None,
            created_at_gte: None,
            created_at_lte: None,
            updated_at_gte: None,
            updated_at_lte: None,
        }
    }

    /// The listing that these parameters ask for.
    pub fn to_query(&self) -> (query: ListQuery)
        ensures
            query@ == user_query(self@),
    {
        let mut filters: Vec<Filter> = Vec::new();
        filters.push(
            Filter {
                column: COLUMN_EMAIL,
                kind: Comparison::Like,
                value: match &self.email {
                    Some(pattern) => Some(Value::Text(pattern.clone())),
                    None => None,
                },
            },
        );
        filters.push(filter_on_time(COLUMN_CREATED_AT, Comparison::Ge, self.created_at_gte));
        filters.push(filter_on_time(COLUMN_CREATED_AT, Comparison::Le, self.created_at_lte));
        filters.push(filter_on_time(COLUMN_UPDATED_AT, Comparison::Ge, self.updated_at_gte));
        filters.push(filter_on_time(COLUMN_UPDATED_AT, Comparison::Le, self.updated_at_lte));
        let sort = match &self.sort_by {
            Some(text) => parse_sort::<User>(text),
            None => None,
        };
        assert(filters_view(filters@) =~= user_query(self@).filters);
        ListQuery { filters, sort, page: self.page, page_size: self.page_size }
    }
}

} // verus!
