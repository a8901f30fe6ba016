//! BQL, the query language over realm state: values, field paths,
//! expressions, queries and their (trivial) plans.

use vstd::prelude::*;

verus! {

// ─── Values ──────────────────────────────────────────────────────────────────

/// A BQL scalar value. A float is held as the decimal text it was written
/// in, which `f64` parsing accepts.
#[derive(Debug, PartialEq)]
pub enum BqlValue {
    Null,
    Bool(bool),
    Int(i64),
    Float(String),
    Str(String),
    List(Vec<BqlValue>),
}

/// The mathematical value of a [`BqlValue`].
pub enum ValueView {
    Null,
    Bool(bool),
    Int(i64),
    Float(Seq<char>),
    Str(Seq<char>),
    List(Seq<ValueView>),
}

pub open spec fn value_view(v: BqlValue) -> ValueView
    decreases v,
{
    match v {
        BqlValue::Null => ValueView::Null,
        BqlValue::Bool(b) => ValueView::Bool(b),
        BqlValue::Int(n) => ValueView::Int(n),
        BqlValue::Float(t) => ValueView::Float(t@),
        BqlValue::Str(s) => ValueView::Str(s@),
        BqlValue::List(items) => ValueView::List(values_view(items@)),
    }
}

pub open spec fn values_view(s: Seq<BqlValue>) -> Seq<ValueView>
    decreases s,
{
    if s.len() == 0 {
        Seq::empty()
    } else {
        values_view(s.drop_last()).push(value_view(s.last()))
    }
}

impl View for BqlValue {
    type V = ValueView;

    open spec fn view(&self) -> ValueView {
        value_view(*self)
    }
}

/// An exact copy of a value.
pub fn copy_value(v: &BqlValue) -> (r: BqlValue)
    ensures
        r@ == v@,
    decreases v,
{
    match v {
        BqlValue::Null => BqlValue::Null,
        BqlValue::Bool(b) => BqlValue::Bool(*b),
        BqlValue::Int(n) => BqlValue::Int(*n),
        BqlValue::Float(t) => BqlValue::Float(t.clone()),
        BqlValue::Str(s) => BqlValue::Str(s.clone()),
        BqlValue::List(items) => {
            let mut out: Vec<BqlValue> = Vec::new();
            let mut k: usize = 0;
            while k < items.len()
                invariant
                    k <= items@.len(),
                    *v == BqlValue::List(*items),
                    values_view(out@) == values_view(items@.take(k as int)),
                decreases items@.len() - k,
            {
                proof {
                    assert(decreases_to!(*v => (*v)->List_0));
                    assert((*v)->List_0 == *items);
                    assert(decreases_to!(*items => items@));
                    assert(decreases_to!(items@ => items@[k as int]));
                }
                let ghost before = out@;
                let c = copy_value(&items[k]);
                out.push(c);
                proof {
                    assert(out@.drop_last() =~= before);
                    assert(items@.take(k + 1).drop_last() =~= items@.take(k as int));
                }
                k = k + 1;
            }
            assert(items@.take(items@.len() as int) =~= items@);
            BqlValue::List(out)
        },
    }
}

impl Clone for BqlValue {
    fn clone(&self) -> (r: Self)
        ensures
            r@ == self@,
    {
        copy_value(self)
    }
}

impl BqlValue {
    pub fn as_str(&self) -> (r: Option<&str>)
        ensures
            match self {
                BqlValue::Str(s) => r matches Some(x) && x@ == s@,
                _ => r is None,
            },
    {
        match self {
            BqlValue::Str(s) => Some(s.as_str()),
            _ => None,
        }
    }

    pub fn as_int(&self) -> (r: Option<i64>)
        ensures
            match self {
                BqlValue::Int(n) => r == Some(*n),
                _ => r is None,
            },
    {
        match self {
            BqlValue::Int(n) => Some(*n),
            _ => None,
        }
    }
}

// ─── Field paths, expressions, queries ───────────────────────────────────────

/// The entity type a query selects (`tasks`, `agents`, …).
#[derive(Debug, Clone, PartialEq, Eq)]
pub struct EntityType(pub String);

impl EntityType {
    pub fn new(s: &str) -> (r: Self)
        ensures
            r.0@ == s@,
    {
        EntityType(s.to_string())
    }
}

/// ORDER BY direction.
#[derive(Debug, Clone, Copy, PartialEq, Eq, Structural)]
pub enum OrderDir {
    Asc,
    Desc,
}

/// The pieces of `s` between dots, empty pieces included: what
/// `str::split('.')` yields.
pub open spec fn pieces_from(s: Seq<char>, i: int, cur: Seq<char>) -> Seq<Seq<char>>
    decreases s.len() - i,
{
    if i >= s.len() {
        seq![cur]
    } else if s[i] == '.' {
        seq![cur] + pieces_from(s, i + 1, Seq::empty())
    } else {
        pieces_from(s, i + 1, cur.push(s[i]))
    }
}

pub open spec fn split_dots(s: Seq<char>) -> Seq<Seq<char>> {
    pieces_from(s, 0, Seq::empty())
}

/// A field path within an entity, such as `dependency.depth`.
#[derive(Debug, Clone, PartialEq, Eq)]
pub struct FieldPath(pub Vec<String>);

impl View for FieldPath {
    type V = Seq<Seq<char>>;

    open spec fn view(&self) -> Seq<Seq<char>> {
        self.0@.map_values(|s: String| s@)
    }
}

impl FieldPath {
    /// The path split at each dot.
    pub fn new(path: &str) -> (r: Self)
        ensures
            r@ == split_dots(path@),
    {
        let n = path.unicode_len();
        let mut parts: Vec<String> = Vec::new();
        let mut start: usize = 0;
        let mut i: usize = 0;
        proof {
            assert(path@.subrange(0, 0) =~= Seq::<char>::empty());
            assert(parts@.map_values(|s: String| s@) =~= Seq::<Seq<char>>::empty());
            assert(Seq::<Seq<char>>::empty() + split_dots(path@) =~= split_dots(path@));
        }
        while i < n
            invariant
                start <= i <= n,
                n == path@.len(),
                parts@.map_values(|s: String| s@) + pieces_from(path@, i as int, path@.subrange(start as int, i as int))
                    == split_dots(path@),
            decreases n - i,
        {
            let c = path.get_char(i);
            if c == '.' {
                let ghost before = parts@.map_values(|s: String| s@);
                let piece = path.substring_char(start, i).to_owned();
                parts.push(piece);
                proof {
                    assert(parts@.map_values(|s: String| s@) =~= before.push(path@.subrange(start as int, i as int)));
                    assert(path@.subrange(i + 1, i + 1) =~= Seq::<char>::empty());
                    assert(before + pieces_from(path@, i as int, path@.subrange(start as int, i as int))
                        =~= before.push(path@.subrange(start as int, i as int)) + pieces_from(path@, i + 1, Seq::empty()));
                }
                start = i + 1;
            } else {
                proof {
                    assert(path@.subrange(start as int, i as int).push(path@[i as int]) =~= path@.subrange(start as int, i + 1));
                }
            }
            i = i + 1;
        }
        let ghost before = parts@.map_values(|s: String| s@);
        let last = path.substring_char(start, n).to_owned();
        parts.push(last);
        proof {
            assert(parts@.map_values(|s: String| s@) =~= before + seq![path@.subrange(start as int, n as int)]);
        }
        FieldPath(parts)
    }

    /// The first piece, or the empty text if there is none.
    pub fn first(&self) -> (r: &str)
        ensures
            r@ == if self@.len() > 0 { self@[0] } else { Seq::<char>::empty() },
    {
        if self.0.len() > 0 {
            self.0[0].as_str()
        } else {
            proof {
                reveal_strlit("");
            }
            ""
        }
    }
}

/// A BQL comparison or boolean expression.
#[derive(Debug)]
pub enum BqlExpr {
    Eq(FieldPath, BqlValue),
    Neq(FieldPath, BqlValue),
    Gt(FieldPath, BqlValue),
    Lt(FieldPath, BqlValue),
    Gte(FieldPath, BqlValue),
    Lte(FieldPath, BqlValue),
    Contains(FieldPath, BqlValue),
    And(Box<BqlExpr>, Box<BqlExpr>),
    Or(Box<BqlExpr>, Box<BqlExpr>),
    Not(Box<BqlExpr>),
    /// No WHERE clause: every entity matches.
    True,
}

/// The mathematical value of a [`BqlExpr`].
pub enum BqlExprView {
    Eq(Seq<Seq<char>>, ValueView),
    Neq(Seq<Seq<char>>, ValueView),
    Gt(Seq<Seq<char>>, ValueView),
    Lt(Seq<Seq<char>>, ValueView),
    Gte(Seq<Seq<char>>, ValueView),
    Lte(Seq<Seq<char>>, ValueView),
    Contains(Seq<Seq<char>>, ValueView),
    And(Box<BqlExprView>, Box<BqlExprView>),
    Or(Box<BqlExprView>, Box<BqlExprView>),
    Not(Box<BqlExprView>),
    True,
}

pub open spec fn bql_expr_view(e: &BqlExpr) -> BqlExprView
    decreases e,
{
    match e {
        BqlExpr::Eq(f, v) => BqlExprView::Eq(f@, v@),
        BqlExpr::Neq(f, v) => BqlExprView::Neq(f@, v@),
        BqlExpr::Gt(f, v) => BqlExprView::Gt(f@, v@),
        BqlExpr::Lt(f, v) => BqlExprView::Lt(f@, v@),
        BqlExpr::Gte(f, v) => BqlExprView::Gte(f@, v@),
        BqlExpr::Lte(f, v) => BqlExprView::Lte(f@, v@),
        BqlExpr::Contains(f, v) => BqlExprView::Contains(f@, v@),
        BqlExpr::And(a, b) => BqlExprView::And(Box::new(bql_expr_view(a)), Box::new(bql_expr_view(b))),
        BqlExpr::Or(a, b) => BqlExprView::Or(Box::new(bql_expr_view(a)), Box::new(bql_expr_view(b))),
        BqlExpr::Not(x) => BqlExprView::Not(Box::new(bql_expr_view(x))),
        BqlExpr::True => BqlExprView::True,
    }
}

impl View for BqlExpr {
    type V = BqlExprView;

    open spec fn view(&self) -> BqlExprView {
        bql_expr_view(self)
    }
}

fn copy_path(f: &FieldPath) -> (r: FieldPath)
    ensures
        r@ == f@,
{
    let mut out: Vec<String> = Vec::new();
    let mut k: usize = 0;
    while k < f.0.len()
        invariant
            k <= f.0@.len(),
            out@.map_values(|s: String| s@) == f.0@.take(k as int).map_values(|s: String| s@),
        decreases f.0@.len() - k,
    {
        let ghost before = out@.map_values(|s: String| s@);
        out.push(f.0[k].clone());
        proof {
            assert(out@.map_values(|s: String| s@) =~= before.push(f.0@[k as int]@));
            assert(f.0@.take(k + 1).map_values(|s: String| s@) =~= f.0@.take(k as int).map_values(|s: String| s@).push(f.0@[k as int]@));
        }
        k = k + 1;
    }
    assert(f.0@.take(f.0@.len() as int) =~= f.0@);
    FieldPath(out)
}

/// An exact copy of an expression.
pub fn copy_bql_expr(e: &BqlExpr) -> (r: BqlExpr)
    ensures
        r@ == e@,
    decreases e,
{
    match e {
        BqlExpr::Eq(f, v) => BqlExpr::Eq(copy_path(f), copy_value(v)),
        BqlExpr::Neq(f, v) => BqlExpr::Neq(copy_path(f), copy_value(v)),
        BqlExpr::Gt(f, v) => BqlExpr::Gt(copy_path(f), copy_value(v)),
        BqlExpr::Lt(f, v) => BqlExpr::Lt(copy_path(f), copy_value(v)),
        BqlExpr::Gte(f, v) => BqlExpr::Gte(copy_path(f), copy_value(v)),
        BqlExpr::Lte(f, v) => BqlExpr::Lte(copy_path(f), copy_value(v)),
        BqlExpr::Contains(f, v) => BqlExpr::Contains(copy_path(f), copy_value(v)),
        BqlExpr::And(a, b) => BqlExpr::And(Box::new(copy_bql_expr(a)), Box::new(copy_bql_expr(b))),
        BqlExpr::Or(a, b) => BqlExpr::Or(Box::new(copy_bql_expr(a)), Box::new(copy_bql_expr(b))),
        BqlExpr::Not(x) => BqlExpr::Not(Box::new(copy_bql_expr(x))),
        BqlExpr::True => BqlExpr::True,
    }
}

impl Clone for BqlExpr {
    fn clone(&self) -> (r: Self)
        ensures
            r@ == self@,
    {
        copy_bql_expr(self)
    }
}

/// A complete BQL query.
#[derive(Debug, Clone)]
pub struct BqlQuery {
    /// The entity type (e.g. `tasks`).
    pub entity_type: EntityType,
    /// The WHERE clause (`True` when there is none).
    pub filter: BqlExpr,
    pub order_by: Option<(FieldPath, OrderDir)>,
    /// `None` for no limit.
    pub limit: Option<usize>,
    pub offset: usize,
}

/// The mathematical value of a [`BqlQuery`].
pub struct QueryView {
    pub entity_type: Seq<char>,
    pub filter: BqlExprView,
    pub order_by: Option<(Seq<Seq<char>>, OrderDir)>,
    pub limit: Option<usize>,
    pub offset: usize,
}

impl View for BqlQuery {
    type V = QueryView;

    open spec fn view(&self) -> QueryView {
        QueryView {
            entity_type: self.entity_type.0@,
            filter: self.filter@,
            order_by: match self.order_by {
                Some((f, d)) => Some((f@, d)),
                None => None,
            },
            limit: self.limit,
            offset: self.offset,
        }
    }
}

impl BqlQuery {
    /// Every entity of a type: no filter, order, limit or offset.
    pub fn all(entity_type: &str) -> (r: Self)
        ensures
            r@ == (QueryView { entity_type: entity_type@, filter: BqlExprView::True, order_by: None, limit: None, offset: 0 }),
    {
        BqlQuery { entity_type: EntityType::new(entity_type), filter: BqlExpr::True, order_by: None, limit: None, offset: 0 }
    }

    pub fn with_filter(self, f: BqlExpr) -> (r: Self)
        ensures
            r@ == (QueryView { filter: f@, ..self@ }),
    {
        let mut q = self;
        q.filter = f;
        q
    }

    /// Order by the field path written with dots.
    pub fn order(self, field: &str, dir: OrderDir) -> (r: Self)
        ensures
            r@ == (QueryView { order_by: Some((split_dots(field@), dir)), ..self@ }),
    {
        let mut q = self;
        q.order_by = Some((FieldPath::new(field), dir));
        q
    }

    pub fn limit(self, n: usize) -> (r: Self)
        ensures
            r@ == (QueryView { limit: Some(n), ..self@ }),
    {
        let mut q = self;
        q.limit = Some(n);
        q
    }
}

// ─── Planning ────────────────────────────────────────────────────────────────

/// How a query is executed.
#[derive(Debug, Clone, PartialEq, Eq)]
pub enum ScanStrategy {
    /// Scan and filter every entity.
    TableScan,
    /// Use a projection index.
    IndexScan { index_name: String },
}

/// A query execution plan.
#[derive(Debug, Clone)]
pub struct QueryPlan {
    pub entity_type: String,
    pub estimated_cost: usize,
    pub strategy: ScanStrategy,
}

pub struct QueryPlanner;

impl QueryPlanner {
    /// The plan for a query over `hint_entity_count` entities: always a
    /// table scan, costing one unit per entity.
    pub fn plan(query: &BqlQuery, hint_entity_count: usize) -> (r: QueryPlan)
        ensures
            r.entity_type@ == query.entity_type.0@,
            r.estimated_cost == hint_entity_count,
            r.strategy is TableScan,
    {
        QueryPlan { entity_type: query.entity_type.0.clone(), estimated_cost: hint_entity_count, strategy: ScanStrategy::TableScan }
    }
}

} // verus!
