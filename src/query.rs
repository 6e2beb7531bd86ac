//! Composition of select queries: a base statement, a conjunction of
//! predicates whose values are bound as parameters (`$1`, `$2`, ...), an
//! optional grouping, an optional ordering and an optional page.

use crate::text::{decimal, decimal_string};
use crate::types::Limit;
use vstd::prelude::*;
use vstd::string::*;

verus! {

/// A value bound to a placeholder of a query, as the store receives it.
pub enum SqlArg {
    Text(Seq<char>),
    Uuid(u128),
    TextList(Seq<Seq<char>>),
    Int(i64),
    Null,
}

/// A value bound to a placeholder of a query.
#[derive(Debug)]
pub enum SqlValue {
    Text(String),
    Uuid(u128),
    TextList(Vec<String>),
    Int(i64),
    Null,
}

pub open spec fn text_list_view(v: Seq<String>) -> Seq<Seq<char>> {
    v.map_values(|s: String| s@)
}

impl View for SqlValue {
    type V = SqlArg;

    open spec fn view(&self) -> SqlArg {
        match self {
            SqlValue::Text(s) => SqlArg::Text(s@),
            SqlValue::Uuid(u) => SqlArg::Uuid(*u),
            SqlValue::TextList(v) => SqlArg::TextList(text_list_view(v@)),
            SqlValue::Int(i) => SqlArg::Int(*i),
            SqlValue::Null => SqlArg::Null,
        }
    }
}

/// Copies a list of strings.
pub fn clone_strings(v: &Vec<String>) -> (r: Vec<String>)
    ensures
        r@ == v@,
{
    let mut out: Vec<String> = Vec::new();
    let mut i: usize = 0;
    while i < v.len()
        invariant
            i <= v@.len(),
            out@ == v@.subrange(0, i as int),
        decreases v@.len() - i,
    {
        out.push(v[i].clone());
        i = i + 1;
        assert(out@ =~= v@.subrange(0, i as int));
    }
    assert(v@.subrange(0, i as int) =~= v@);
    out
}

/// Something that stands in a query as fixed text, such as a sort key.
pub trait ToSQL {
    spec fn sql(&self) -> Seq<char>;

    fn to_sql(&self) -> (r: String)
        ensures
            r@ == self.sql();
}

/// One condition of a query: text that compares a column with a placeholder,
/// and the value bound to that placeholder.
pub struct Fragment {
    pub condition: String,
    pub value: SqlValue,
}

/// A typed filter that becomes one condition of a query.
pub trait Predicate {
    /// The condition's text before its placeholder, such as `posts.author = `.
    spec fn condition(&self) -> Seq<char>;

    /// The value bound to the placeholder.
    spec fn bound(&self) -> SqlArg;

    fn to_fragment(&self) -> (r: Fragment)
        ensures
            r.condition@ == self.condition(),
            r.value@ == self.bound();
}

/// Sort order. `Up` sorts from the largest key down, `Down` from the
/// smallest up.
#[derive(Clone, Copy, Debug, PartialEq, Eq)]
pub enum SortingDirection<T> {
    Up(T),
    Down(T),
}

pub open spec fn ordering_sql<T: ToSQL>(o: SortingDirection<T>) -> Seq<char> {
    match o {
        SortingDirection::Up(k) => k.sql() + " desc"@,
        SortingDirection::Down(k) => k.sql() + " asc"@,
    }
}

impl<T: ToSQL> ToSQL for SortingDirection<T> {
    open spec fn sql(&self) -> Seq<char> {
        ordering_sql(*self)
    }

    fn to_sql(&self) -> (r: String) {
        match self {
            SortingDirection::Up(k) => {
                let s = k.to_sql();
                s.concat(" desc")
            },
            SortingDirection::Down(k) => {
                let s = k.to_sql();
                s.concat(" asc")
            },
        }
    }
}

/// The `k`-th condition (from 1) with its placeholder.
pub open spec fn placed(condition: Seq<char>, k: nat) -> Seq<char> {
    condition + "$"@ + decimal(k)
}

/// Conditions joined by `and`, numbered from 1.
pub open spec fn conjunction(cs: Seq<Seq<char>>) -> Seq<char>
    decreases cs.len(),
{
    if cs.len() == 0 {
        seq![]
    } else if cs.len() == 1 {
        placed(cs[0], 1)
    } else {
        conjunction(cs.drop_last()) + " and "@ + placed(cs.last(), cs.len())
    }
}

pub open spec fn where_sql(cs: Seq<Seq<char>>) -> Seq<char> {
    if cs.len() == 0 {
        seq![]
    } else {
        " where "@ + conjunction(cs)
    }
}

pub open spec fn group_sql(g: Option<Seq<char>>) -> Seq<char> {
    match g {
        Some(g) => " group by "@ + g,
        None => seq![],
    }
}

pub open spec fn order_sql<T: ToSQL>(o: Option<SortingDirection<T>>) -> Seq<char> {
    match o {
        Some(o) => " order by "@ + ordering_sql(o),
        None => seq![],
    }
}

pub open spec fn limit_sql(l: Option<Limit>) -> Seq<char> {
    match l {
        Some(l) => " limit "@ + decimal(l.limit as nat) + match l.offset {
            Some(off) => " offset "@ + decimal(off as nat),
            None => seq![],
        },
        None => seq![],
    }
}

/// A query ready for the store: its text and the values of its placeholders.
pub struct BuiltQuery {
    pub sql: String,
    pub binds: Vec<SqlValue>,
}

/// Collects the parts of a select query.
pub struct SelectRequestBuilder<OrderingType, Query> {
    main_query: String,
    group_by: Option<String>,
    order_by: Option<SortingDirection<OrderingType>>,
    limit: Option<Limit>,
    query: Vec<Query>,
}

pub open spec fn conditions_of<Q: Predicate>(qs: Seq<Q>) -> Seq<Seq<char>> {
    qs.map_values(|q: Q| q.condition())
}

pub open spec fn binds_of<Q: Predicate>(qs: Seq<Q>) -> Seq<SqlArg> {
    qs.map_values(|q: Q| q.bound())
}

impl<OrderingType: ToSQL, Query: Predicate> SelectRequestBuilder<OrderingType, Query> {
    pub closed spec fn spec_main(&self) -> Seq<char> {
        self.main_query@
    }

    pub closed spec fn spec_group(&self) -> Option<Seq<char>> {
        match self.group_by {
            Some(g) => Some(g@),
            None => None,
        }
    }

    pub closed spec fn spec_order(&self) -> Option<SortingDirection<OrderingType>> {
        self.order_by
    }

    pub closed spec fn spec_limit(&self) -> Option<Limit> {
        self.limit
    }

    pub closed spec fn spec_query(&self) -> Seq<Query> {
        self.query@
    }

    /// The text that `build` gives.
    pub open spec fn spec_sql(&self) -> Seq<char> {
        self.spec_main() + where_sql(conditions_of(self.spec_query())) + group_sql(
            self.spec_group(),
        ) + order_sql(self.spec_order()) + limit_sql(self.spec_limit()) + ";"@
    }

    /// Starts a query from a base statement and a conjunction of predicates.
    pub fn new(root_sql: String, query: Vec<Query>) -> (r: SelectRequestBuilder<OrderingType, Query>)
        ensures
            r.spec_main() == root_sql@,
            r.spec_query() == query@,
            r.spec_group() is None,
            r.spec_order() is None,
            r.spec_limit() is None,
    {
        SelectRequestBuilder { main_query: root_sql, group_by: None, order_by: None, query, limit: None }
    }

    pub fn order_by(self, order_by: SortingDirection<OrderingType>) -> (r: SelectRequestBuilder<
        OrderingType,
        Query,
    >)
        ensures
            r.spec_main() == self.spec_main(),
            r.spec_query() == self.spec_query(),
            r.spec_group() == self.spec_group(),
            r.spec_order() == Some(order_by),
            r.spec_limit() == self.spec_limit(),
    {
        SelectRequestBuilder {
            main_query: self.main_query,
            group_by: self.group_by,
            order_by: Some(order_by),
            query: self.query,
            limit: self.limit,
        }
    }

    pub fn group_by(self, group_by: String) -> (r: SelectRequestBuilder<OrderingType, Query>)
        ensures
            r.spec_main() == self.spec_main(),
            r.spec_query() == self.spec_query(),
            r.spec_group() == Some(group_by@),
            r.spec_order() == self.spec_order(),
            r.spec_limit() == self.spec_limit(),
    {
        SelectRequestBuilder {
            main_query: self.main_query,
            group_by: Some(group_by),
            order_by: self.order_by,
            query: self.query,
            limit: self.limit,
        }
    }

    pub fn limit(self, limit: Limit) -> (r: SelectRequestBuilder<OrderingType, Query>)
        ensures
            r.spec_main() == self.spec_main(),
            r.spec_query() == self.spec_query(),
            r.spec_group() == self.spec_group(),
            r.spec_order() == self.spec_order(),
            r.spec_limit() == Some(limit),
    {
        SelectRequestBuilder {
            main_query: self.main_query,
            group_by: self.group_by,
            order_by: self.order_by,
            limit: Some(limit),
            query: self.query,
        }
    }

    /// Writes the query, numbering the placeholders from 1 in the order of the
    /// predicates; `binds` holds their values in the same order.
    pub fn build(self) -> (r: BuiltQuery)
        ensures
            r.sql@ == self.spec_sql(),
            r.binds@.map_values(|v: SqlValue| v@) == binds_of(self.spec_query()),
    {
        let mut sql = self.main_query;
        let binds = append_conditions(&mut sql, &self.query);
        append_group(&mut sql, &self.group_by);
        append_order(&mut sql, &self.order_by);
        append_limit(&mut sql, self.limit);
        sql.append(";");
        BuiltQuery { sql, binds }
    }
}

/// Appends the `where` clause of the predicates and returns the values of
/// their placeholders.
fn append_conditions<Query: Predicate>(sql: &mut String, query: &Vec<Query>) -> (binds: Vec<SqlValue>)
    ensures
        final(sql)@ == old(sql)@ + where_sql(conditions_of(query@)),
        binds@.map_values(|v: SqlValue| v@) == binds_of(query@),
{
    let ghost conds = conditions_of(query@);
    let mut binds: Vec<SqlValue> = Vec::new();
    let n = query.len();
    if n > 0 {
        sql.append(" where ");
    }
    let ghost start = sql@;
    let mut i: usize = 0;
    while i < n
        invariant
            n == query@.len(),
            conds == conditions_of(query@),
            i <= n,
            sql@ == start + conjunction(conds.subrange(0, i as int)),
            binds@.map_values(|v: SqlValue| v@) == binds_of(query@.subrange(0, i as int)),
        decreases n - i,
    {
        let f = query[i].to_fragment();
        if i > 0 {
            sql.append(" and ");
        }
        sql.append(f.condition.as_str());
        sql.append("$");
        let num = decimal_string((i + 1) as u64);
        sql.append(num.as_str());
        binds.push(f.value);
        proof {
            let cs = conds.subrange(0, i + 1);
            assert(cs.drop_last() =~= conds.subrange(0, i as int));
            assert(cs.last() == query@[i as int].condition());
            if i == 0 {
                assert(cs.len() == 1);
            }
            let qs = query@.subrange(0, i + 1);
            assert(qs =~= query@.subrange(0, i as int).push(query@[i as int]));
            assert(binds_of(qs) =~= binds_of(query@.subrange(0, i as int)).push(
                query@[i as int].bound(),
            ));
            assert(binds@.map_values(|v: SqlValue| v@) =~= binds_of(qs));
        }
        i = i + 1;
    }
    assert(conds.subrange(0, n as int) =~= conds);
    assert(query@.subrange(0, n as int) =~= query@);
    binds
}

fn append_group(sql: &mut String, group_by: &Option<String>)
    ensures
        final(sql)@ == old(sql)@ + group_sql(
            match group_by {
                Some(g) => Some(g@),
                None => None,
            },
        ),
{
    match group_by {
        Some(g) => {
            sql.append(" group by ");
            sql.append(g.as_str());
        },
        None => {},
    }
}

fn append_order<T: ToSQL>(sql: &mut String, order_by: &Option<SortingDirection<T>>)
    ensures
        final(sql)@ == old(sql)@ + order_sql(*order_by),
{
    match order_by {
        Some(o) => {
            sql.append(" order by ");
            let os = o.to_sql();
            sql.append(os.as_str());
        },
        None => {},
    }
}

fn append_limit(sql: &mut String, limit: Option<Limit>)
    ensures
        final(sql)@ == old(sql)@ + limit_sql(limit),
{
    match limit {
        Some(l) => {
            sql.append(" limit ");
            let ls = decimal_string(l.limit);
            sql.append(ls.as_str());
            match l.offset {
                Some(off) => {
                    sql.append(" offset ");
                    let os = decimal_string(off);
                    sql.append(os.as_str());
                },
                None => {},
            }
        },
        None => {},
    }
}

} // verus!
