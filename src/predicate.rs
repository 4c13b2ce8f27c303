//! Filter expressions for join tests: a tree model of column references,
//! literals, casts and binary operators, with fixed catalogs of boundary
//! predicates that stress interval pruning.

use vstd::prelude::*;

verus! {

/// The binary operators a filter uses.
#[derive(Clone, Copy, Debug, PartialEq, Eq, Structural)]
pub enum Operator {
    Plus,
    Minus,
    Gt,
    GtEq,
    Lt,
    LtEq,
    And,
}

/// The numeric type of a numeric catalog's operands.
#[derive(Clone, Copy, Debug, PartialEq, Eq, Structural)]
pub enum NumericType {
    Int32,
    Float64,
}

/// A literal operand.
#[derive(Clone, Copy, Debug, PartialEq, Eq, Structural)]
pub enum ScalarLit {
    /// A whole number, typed as the given numeric type.
    Number(NumericType, i32),
    Int64(i64),
    /// A day-time interval of zero days and the given milliseconds.
    IntervalMs(i32),
    /// Milliseconds since the Unix epoch.
    TimestampMs(i64),
    DurationMs(i64),
}

/// A node of a filter expression tree; each node owns its children.
#[derive(Debug, PartialEq, Eq)]
pub enum PredicateExpr {
    /// The column at this position of the filter's schema.
    Column(usize),
    Literal(ScalarLit),
    /// Widening to a 64-bit integer.
    CastInt64(Box<PredicateExpr>),
    Binary(Box<PredicateExpr>, Operator, Box<PredicateExpr>),
}

pub open spec fn bin_spec(l: PredicateExpr, op: Operator, r: PredicateExpr) -> PredicateExpr {
    PredicateExpr::Binary(Box::new(l), op, Box::new(r))
}

/// `(left <op_1> a) <comparison_op> (right <op_2> b)`.
pub open spec fn single_side_spec(
    left: PredicateExpr,
    right: PredicateExpr,
    op_1: Operator,
    op_2: Operator,
    a: ScalarLit,
    b: ScalarLit,
    comparison_op: Operator,
) -> PredicateExpr {
    bin_spec(
        bin_spec(left, op_1, PredicateExpr::Literal(a)),
        comparison_op,
        bin_spec(right, op_2, PredicateExpr::Literal(b)),
    )
}

/// `(left <ops.0> a <bounds.0> right <ops.1> b) AND (left <ops.2> c <bounds.1> right <ops.3> d)`.
pub open spec fn two_clause_spec(
    left: PredicateExpr,
    right: PredicateExpr,
    ops: (Operator, Operator, Operator, Operator),
    operands: (ScalarLit, ScalarLit, ScalarLit, ScalarLit),
    bounds: (Operator, Operator),
) -> PredicateExpr {
    bin_spec(
        single_side_spec(left, right, ops.0, ops.1, operands.0, operands.1, bounds.0),
        Operator::And,
        single_side_spec(left, right, ops.2, ops.3, operands.2, operands.3, bounds.1),
    )
}

/// The in-order sequence of the literals of an expression.
pub open spec fn literals(e: PredicateExpr) -> Seq<ScalarLit>
    decreases e,
{
    match e {
        PredicateExpr::Column(_) => Seq::empty(),
        PredicateExpr::Literal(v) => seq![v],
        PredicateExpr::CastInt64(inner) => literals(*inner),
        PredicateExpr::Binary(l, _, r) => literals(*l) + literals(*r),
    }
}

/// Copies an expression tree.
pub fn copy_expr(e: &PredicateExpr) -> (r: PredicateExpr)
    ensures
        r == *e,
    decreases e,
{
    match e {
        PredicateExpr::Column(i) => PredicateExpr::Column(*i),
        PredicateExpr::Literal(v) => PredicateExpr::Literal(*v),
        PredicateExpr::CastInt64(inner) => PredicateExpr::CastInt64(Box::new(copy_expr(&**inner))),
        PredicateExpr::Binary(l, op, r) => PredicateExpr::Binary(
            Box::new(copy_expr(&**l)),
            *op,
            Box::new(copy_expr(&**r)),
        ),
    }
}

fn binary(l: PredicateExpr, op: Operator, r: PredicateExpr) -> (e: PredicateExpr)
    ensures
        e == bin_spec(l, op, r),
{
    PredicateExpr::Binary(Box::new(l), op, Box::new(r))
}

/// Builds `(left_col <op_1> a) <comparison_op> (right_col <op_2> b)` for temporal operands.
pub fn gen_conjunctive_temporal_expr_single_side(
    left_col: PredicateExpr,
    right_col: PredicateExpr,
    op_1: Operator,
    op_2: Operator,
    a: ScalarLit,
    b: ScalarLit,
    comparison_op: Operator,
) -> (e: PredicateExpr)
    ensures
        e == single_side_spec(left_col, right_col, op_1, op_2, a, b, comparison_op),
{
    binary(
        binary(left_col, op_1, PredicateExpr::Literal(a)),
        comparison_op,
        binary(right_col, op_2, PredicateExpr::Literal(b)),
    )
}

/// Builds `(left_col <op.0> a) <comparison_op> (right_col <op.1> b)` for numeric operands.
pub fn gen_conjunctive_numerical_expr_single_side_prunable(
    left_col: PredicateExpr,
    right_col: PredicateExpr,
    op: (Operator, Operator),
    a: ScalarLit,
    b: ScalarLit,
    comparison_op: Operator,
) -> (e: PredicateExpr)
    ensures
        e == single_side_spec(left_col, right_col, op.0, op.1, a, b, comparison_op),
{
    let (op_1, op_2) = op;
    binary(
        binary(left_col, op_1, PredicateExpr::Literal(a)),
        comparison_op,
        binary(right_col, op_2, PredicateExpr::Literal(b)),
    )
}

/// Builds the conjunction of two single-side boundary clauses over the same columns.
pub fn gen_conjunctive_expr(
    left_col: PredicateExpr,
    right_col: PredicateExpr,
    ops: (Operator, Operator, Operator, Operator),
    operands: (ScalarLit, ScalarLit, ScalarLit, ScalarLit),
    bounds: (Operator, Operator),
) -> (e: PredicateExpr)
    ensures
        e == two_clause_spec(left_col, right_col, ops, operands, bounds),
{
    let left_again = copy_expr(&left_col);
    let right_again = copy_expr(&right_col);
    let lower = gen_conjunctive_numerical_expr_single_side_prunable(
        left_col,
        right_col,
        (ops.0, ops.1),
        operands.0,
        operands.1,
        bounds.0,
    );
    let upper = gen_conjunctive_numerical_expr_single_side_prunable(
        left_again,
        right_again,
        (ops.2, ops.3),
        operands.2,
        operands.3,
        bounds.1,
    );
    binary(lower, Operator::And, upper)
}


/// The arithmetic operators of each entry of the numeric catalog.
pub open spec fn numeric_ops(expr_id: int) -> (Operator, Operator, Operator, Operator) {
    if expr_id == 0 {
        (Operator::Plus, Operator::Plus, Operator::Plus, Operator::Plus)
    } else if expr_id == 1 {
        (Operator::Minus, Operator::Plus, Operator::Plus, Operator::Plus)
    } else if expr_id == 2 {
        (Operator::Minus, Operator::Plus, Operator::Minus, Operator::Plus)
    } else if expr_id == 3 {
        (Operator::Minus, Operator::Minus, Operator::Minus, Operator::Plus)
    } else if expr_id == 4 {
        (Operator::Minus, Operator::Minus, Operator::Minus, Operator::Minus)
    } else if expr_id == 5 {
        (Operator::Minus, Operator::Plus, Operator::Plus, Operator::Minus)
    } else if expr_id == 6 {
        (Operator::Plus, Operator::Minus, Operator::Plus, Operator::Plus)
    } else {
        (Operator::Plus, Operator::Minus, Operator::Minus, Operator::Plus)
    }
}

/// The operands of each entry of the numeric catalog.
pub open spec fn numeric_operands(expr_id: int) -> (i32, i32, i32, i32) {
    if expr_id <= 2 {
        (1, 5, 3, 10)
    } else if expr_id == 3 {
        (10, 5, 3, 10)
    } else if expr_id == 4 {
        (10, 5, 30, 3)
    } else if expr_id == 5 {
        (2, 5, 7, 3)
    } else {
        (28, 11, 21, 39)
    }
}

/// The lower and upper comparison of each entry of the numeric catalog.
pub open spec fn numeric_bounds(expr_id: int) -> (Operator, Operator) {
    if expr_id <= 4 {
        (Operator::Gt, Operator::Lt)
    } else if expr_id == 5 {
        (Operator::GtEq, Operator::LtEq)
    } else if expr_id == 6 {
        (Operator::Gt, Operator::LtEq)
    } else {
        (Operator::GtEq, Operator::Lt)
    }
}

pub open spec fn numbers(kind: NumericType, v: (i32, i32, i32, i32)) -> (
    ScalarLit,
    ScalarLit,
    ScalarLit,
    ScalarLit,
) {
    (
        ScalarLit::Number(kind, v.0),
        ScalarLit::Number(kind, v.1),
        ScalarLit::Number(kind, v.2),
        ScalarLit::Number(kind, v.3),
    )
}

/// Entry `expr_id` of the numeric catalog over the given columns.
pub open spec fn numeric_fixture_spec(
    kind: NumericType,
    expr_id: int,
    left: PredicateExpr,
    right: PredicateExpr,
) -> PredicateExpr {
    two_clause_spec(
        left,
        right,
        numeric_ops(expr_id),
        numbers(kind, numeric_operands(expr_id)),
        numeric_bounds(expr_id),
    )
}

/// The number of entries of the numeric catalog.
pub const TWO_CLAUSE_ENTRIES: usize = 8;

/// The number of entries of the temporal catalog.
pub const TEMPORAL_ENTRIES: usize = 3;

/// The number of entries of the four-column catalog.
pub const FOUR_COLUMN_ENTRIES: usize = 3;

/// Entry `expr_id` of the numeric catalog of two-clause boundary predicates,
/// with operands of type `kind`.
pub fn join_expr_tests_fixture_numeric(
    kind: NumericType,
    expr_id: usize,
    left_col: PredicateExpr,
    right_col: PredicateExpr,
) -> (e: PredicateExpr)
    requires
        expr_id < TWO_CLAUSE_ENTRIES,
    ensures
        e == numeric_fixture_spec(kind, expr_id as int, left_col, right_col),
{
    let ops = if expr_id == 0 {
        (Operator::Plus, Operator::Plus, Operator::Plus, Operator::Plus)
    } else if expr_id == 1 {
        (Operator::Minus, Operator::Plus, Operator::Plus, Operator::Plus)
    } else if expr_id == 2 {
        (Operator::Minus, Operator::Plus, Operator::Minus, Operator::Plus)
    } else if expr_id == 3 {
        (Operator::Minus, Operator::Minus, Operator::Minus, Operator::Plus)
    } else if expr_id == 4 {
        (Operator::Minus, Operator::Minus, Operator::Minus, Operator::Minus)
    } else if expr_id == 5 {
        (Operator::Minus, Operator::Plus, Operator::Plus, Operator::Minus)
    } else if expr_id == 6 {
        (Operator::Plus, Operator::Minus, Operator::Plus, Operator::Plus)
    } else {
        (Operator::Plus, Operator::Minus, Operator::Minus, Operator::Plus)
    };
    let operands: (i32, i32, i32, i32) = if expr_id <= 2 {
        (1, 5, 3, 10)
    } else if expr_id == 3 {
        (10, 5, 3, 10)
    } else if expr_id == 4 {
        (10, 5, 30, 3)
    } else if expr_id == 5 {
        (2, 5, 7, 3)
    } else {
        (28, 11, 21, 39)
    };
    let bounds = if expr_id <= 4 {
        (Operator::Gt, Operator::Lt)
    } else if expr_id == 5 {
        (Operator::GtEq, Operator::LtEq)
    } else if expr_id == 6 {
        (Operator::Gt, Operator::LtEq)
    } else {
        (Operator::GtEq, Operator::Lt)
    };
    gen_conjunctive_expr(
        left_col,
        right_col,
        ops,
        (
            ScalarLit::Number(kind, operands.0),
            ScalarLit::Number(kind, operands.1),
            ScalarLit::Number(kind, operands.2),
            ScalarLit::Number(kind, operands.3),
        ),
        bounds,
    )
}

/// The numeric catalog with 32-bit integer operands.
pub fn join_expr_tests_fixture_i32(
    expr_id: usize,
    left_col: PredicateExpr,
    right_col: PredicateExpr,
) -> (e: PredicateExpr)
    requires
        expr_id < TWO_CLAUSE_ENTRIES,
    ensures
        e == numeric_fixture_spec(NumericType::Int32, expr_id as int, left_col, right_col),
{
    join_expr_tests_fixture_numeric(NumericType::Int32, expr_id, left_col, right_col)
}

/// The numeric catalog with 64-bit float operands.
pub fn join_expr_tests_fixture_f64(
    expr_id: usize,
    left_col: PredicateExpr,
    right_col: PredicateExpr,
) -> (e: PredicateExpr)
    requires
        expr_id < TWO_CLAUSE_ENTRIES,
    ensures
        e == numeric_fixture_spec(NumericType::Float64, expr_id as int, left_col, right_col),
{
    join_expr_tests_fixture_numeric(NumericType::Float64, expr_id, left_col, right_col)
}

/// The operands of each entry of the temporal catalog: interval offsets,
/// instants of 2023-01-01 around 12:00:00, and durations.
pub open spec fn temporal_operands(expr_id: int) -> (ScalarLit, ScalarLit, ScalarLit, ScalarLit) {
    if expr_id == 0 {
        (
            ScalarLit::IntervalMs(100),
            ScalarLit::IntervalMs(200),
            ScalarLit::IntervalMs(450),
            ScalarLit::IntervalMs(300),
        )
    } else if expr_id == 1 {
        (
            ScalarLit::TimestampMs(1672574403000),
            ScalarLit::TimestampMs(1672574401000),
            ScalarLit::TimestampMs(1672574400000),
            ScalarLit::TimestampMs(1672574402000),
        )
    } else {
        (
            ScalarLit::DurationMs(3000),
            ScalarLit::DurationMs(2000),
            ScalarLit::DurationMs(5000),
            ScalarLit::DurationMs(4000),
        )
    }
}

/// Entry `expr_id` of the temporal catalog: every offset is subtracted, the
/// first clause a lower bound and the second an upper bound.
pub open spec fn temporal_fixture_spec(
    expr_id: int,
    left: PredicateExpr,
    right: PredicateExpr,
) -> PredicateExpr {
    two_clause_spec(
        left,
        right,
        (Operator::Minus, Operator::Minus, Operator::Minus, Operator::Minus),
        temporal_operands(expr_id),
        (Operator::Gt, Operator::Lt),
    )
}

/// Entry `expr_id` of the temporal catalog of two-clause boundary predicates.
pub fn join_expr_tests_fixture_temporal(
    expr_id: usize,
    left_col: PredicateExpr,
    right_col: PredicateExpr,
) -> (e: PredicateExpr)
    requires
        expr_id < TEMPORAL_ENTRIES,
    ensures
        e == temporal_fixture_spec(expr_id as int, left_col, right_col),
{
    let operands = if expr_id == 0 {
        (
            ScalarLit::IntervalMs(100),
            ScalarLit::IntervalMs(200),
            ScalarLit::IntervalMs(450),
            ScalarLit::IntervalMs(300),
        )
    } else if expr_id == 1 {
        (
            ScalarLit::TimestampMs(1672574403000),
            ScalarLit::TimestampMs(1672574401000),
            ScalarLit::TimestampMs(1672574400000),
            ScalarLit::TimestampMs(1672574402000),
        )
    } else {
        (
            ScalarLit::DurationMs(3000),
            ScalarLit::DurationMs(2000),
            ScalarLit::DurationMs(5000),
            ScalarLit::DurationMs(4000),
        )
    };
    gen_conjunctive_expr(
        left_col,
        right_col,
        (Operator::Minus, Operator::Minus, Operator::Minus, Operator::Minus),
        operands,
        (Operator::Gt, Operator::Lt),
    )
}

pub open spec fn col_spec(i: usize) -> PredicateExpr {
    PredicateExpr::Column(i)
}

pub open spec fn cast_spec(e: PredicateExpr) -> PredicateExpr {
    PredicateExpr::CastInt64(Box::new(e))
}

/// `CAST(col_i AS BIGINT) + v`.
pub open spec fn offset_spec(i: usize, v: i64) -> PredicateExpr {
    bin_spec(cast_spec(col_spec(i)), Operator::Plus, PredicateExpr::Literal(ScalarLit::Int64(v)))
}

/// `CAST(col_0 + col_1 AS BIGINT)`.
pub open spec fn first_sum_spec() -> PredicateExpr {
    cast_spec(bin_spec(col_spec(0), Operator::Plus, col_spec(1)))
}

/// Entry `expr_id` of the four-column catalog, over columns 0 to 3 of a filter
/// schema (a, b, c, d):
/// `a + b > d + 10 AND a < c + 20`;
/// the same `AND c >= b + 20`;
/// `a + b > c + 10 AND a + b < c + 100`.
pub open spec fn four_column_spec(expr_id: int) -> PredicateExpr {
    let base = bin_spec(
        bin_spec(first_sum_spec(), Operator::Gt, offset_spec(3, 10)),
        Operator::And,
        bin_spec(cast_spec(col_spec(0)), Operator::Lt, offset_spec(2, 20)),
    );
    if expr_id == 0 {
        base
    } else if expr_id == 1 {
        bin_spec(
            base,
            Operator::And,
            bin_spec(cast_spec(col_spec(2)), Operator::GtEq, offset_spec(1, 20)),
        )
    } else {
        bin_spec(
            bin_spec(first_sum_spec(), Operator::Gt, offset_spec(2, 10)),
            Operator::And,
            bin_spec(first_sum_spec(), Operator::Lt, offset_spec(2, 100)),
        )
    }
}

fn cast_int64(e: PredicateExpr) -> (r: PredicateExpr)
    ensures
        r == cast_spec(e),
{
    PredicateExpr::CastInt64(Box::new(e))
}

fn offset(i: usize, v: i64) -> (r: PredicateExpr)
    ensures
        r == offset_spec(i, v),
{
    binary(
        cast_int64(PredicateExpr::Column(i)),
        Operator::Plus,
        PredicateExpr::Literal(ScalarLit::Int64(v)),
    )
}

fn first_sum() -> (r: PredicateExpr)
    ensures
        r == first_sum_spec(),
{
    cast_int64(binary(PredicateExpr::Column(0), Operator::Plus, PredicateExpr::Column(1)))
}

/// Entry `expr_id` of the catalog of filters over four columns of a filter schema.
pub fn complicated_4_column_exprs(expr_id: usize) -> (e: PredicateExpr)
    requires
        expr_id < FOUR_COLUMN_ENTRIES,
    ensures
        e == four_column_spec(expr_id as int),
{
    if expr_id == 2 {
        return binary(
            binary(first_sum(), Operator::Gt, offset(2, 10)),
            Operator::And,
            binary(first_sum(), Operator::Lt, offset(2, 100)),
        );
    }
    let base = binary(
        binary(first_sum(), Operator::Gt, offset(3, 10)),
        Operator::And,
        binary(cast_int64(PredicateExpr::Column(0)), Operator::Lt, offset(2, 20)),
    );
    if expr_id == 0 {
        base
    } else {
        binary(
            base,
            Operator::And,
            binary(cast_int64(PredicateExpr::Column(2)), Operator::GtEq, offset(1, 20)),
        )
    }
}

/// `a + b > c + 10 AND a + b < c + 100` over the first three columns of a filter schema.
pub fn complicated_filter() -> (e: PredicateExpr)
    ensures
        e == four_column_spec(2),
{
    complicated_4_column_exprs(2)
}

/// The integer a literal stands for.
pub open spec fn literal_value(v: ScalarLit) -> int {
    match v {
        ScalarLit::Number(_, x) => x as int,
        ScalarLit::Int64(x) => x as int,
        ScalarLit::IntervalMs(x) => x as int,
        ScalarLit::TimestampMs(x) => x as int,
        ScalarLit::DurationMs(x) => x as int,
    }
}

/// The value of an arithmetic expression on a row, over unbounded integers.
pub open spec fn value_on(e: PredicateExpr, row: Seq<int>) -> int
    decreases e,
{
    match e {
        PredicateExpr::Column(i) => row[i as int],
        PredicateExpr::Literal(v) => literal_value(v),
        PredicateExpr::CastInt64(inner) => value_on(*inner, row),
        PredicateExpr::Binary(l, op, r) => match op {
            Operator::Plus => value_on(*l, row) + value_on(*r, row),
            Operator::Minus => value_on(*l, row) - value_on(*r, row),
            _ => 0,
        },
    }
}

/// Whether a row satisfies a comparison or a conjunction of comparisons.
pub open spec fn holds_on(e: PredicateExpr, row: Seq<int>) -> bool
    decreases e,
{
    match e {
        PredicateExpr::Binary(l, op, r) => match op {
            Operator::Gt => value_on(*l, row) > value_on(*r, row),
            Operator::GtEq => value_on(*l, row) >= value_on(*r, row),
            Operator::Lt => value_on(*l, row) < value_on(*r, row),
            Operator::LtEq => value_on(*l, row) <= value_on(*r, row),
            Operator::And => holds_on(*l, row) && holds_on(*r, row),
            _ => false,
        },
        _ => false,
    }
}

/// Each entry of the numeric and temporal catalogs, built over two column
/// references, has as its literals the entry's four operands, in order.
pub proof fn lemma_two_clause_literals(expr_id: int, kind: NumericType, left: usize, right: usize)
    requires
        0 <= expr_id < TWO_CLAUSE_ENTRIES,
    ensures
        ({
            let v = numeric_operands(expr_id);
            literals(
                numeric_fixture_spec(
                    kind,
                    expr_id,
                    PredicateExpr::Column(left),
                    PredicateExpr::Column(right),
                ),
            ) == seq![
                ScalarLit::Number(kind, v.0),
                ScalarLit::Number(kind, v.1),
                ScalarLit::Number(kind, v.2),
                ScalarLit::Number(kind, v.3),
            ]
        }),
        expr_id < TEMPORAL_ENTRIES ==> ({
            let t = temporal_operands(expr_id);
            literals(
                temporal_fixture_spec(
                    expr_id,
                    PredicateExpr::Column(left),
                    PredicateExpr::Column(right),
                ),
            ) == seq![t.0, t.1, t.2, t.3]
        }),
{
    reveal_with_fuel(literals, 5);
    let l = PredicateExpr::Column(left);
    let r = PredicateExpr::Column(right);
    let v = numeric_operands(expr_id);
    assert(literals(numeric_fixture_spec(kind, expr_id, l, r)) =~= seq![
        ScalarLit::Number(kind, v.0),
        ScalarLit::Number(kind, v.1),
        ScalarLit::Number(kind, v.2),
        ScalarLit::Number(kind, v.3),
    ]);
    let t = temporal_operands(expr_id);
    assert(literals(temporal_fixture_spec(expr_id, l, r)) =~= seq![t.0, t.1, t.2, t.3]);
}

/// The literals of the four-column catalog are its offsets, in order:
/// 10 and 20; 10, 20 and 20; 10 and 100.
pub proof fn lemma_four_column_literals()
    ensures
        literals(four_column_spec(0)) == seq![ScalarLit::Int64(10), ScalarLit::Int64(20)],
        literals(four_column_spec(1)) == seq![
            ScalarLit::Int64(10),
            ScalarLit::Int64(20),
            ScalarLit::Int64(20),
        ],
        literals(four_column_spec(2)) == seq![ScalarLit::Int64(10), ScalarLit::Int64(100)],
{
    reveal_with_fuel(literals, 6);
    assert(literals(four_column_spec(0)) =~= seq![ScalarLit::Int64(10), ScalarLit::Int64(20)]);
    assert(literals(four_column_spec(1)) =~= seq![
        ScalarLit::Int64(10),
        ScalarLit::Int64(20),
        ScalarLit::Int64(20),
    ]);
    assert(literals(four_column_spec(2)) =~= seq![ScalarLit::Int64(10), ScalarLit::Int64(100)]);
}

/// The first numeric entry, `left + 1 > right + 5 AND left + 3 < right + 10`,
/// holds of no row on which both columns hold the same value.
pub proof fn lemma_first_entry_rejects_equal_columns(
    kind: NumericType,
    left: usize,
    right: usize,
    row: Seq<int>,
)
    requires
        left < row.len(),
        right < row.len(),
        row[left as int] == row[right as int],
    ensures
        !holds_on(
            numeric_fixture_spec(kind, 0, PredicateExpr::Column(left), PredicateExpr::Column(right)),
            row,
        ),
{
    reveal_with_fuel(holds_on, 2);
    reveal_with_fuel(value_on, 2);
}

} // verus!
