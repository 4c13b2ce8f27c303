use join_harness::dataset::build_sides_columns;
use join_harness::predicate::{
    complicated_4_column_exprs, complicated_filter, gen_conjunctive_numerical_expr_single_side_prunable,
    gen_conjunctive_temporal_expr_single_side, join_expr_tests_fixture_f64,
    join_expr_tests_fixture_i32, join_expr_tests_fixture_temporal, NumericType, Operator,
    PredicateExpr, ScalarLit,
};

fn bin(l: PredicateExpr, op: Operator, r: PredicateExpr) -> PredicateExpr {
    PredicateExpr::Binary(Box::new(l), op, Box::new(r))
}

fn lit(v: ScalarLit) -> PredicateExpr {
    PredicateExpr::Literal(v)
}

fn cast(e: PredicateExpr) -> PredicateExpr {
    PredicateExpr::CastInt64(Box::new(e))
}

fn col(i: usize) -> PredicateExpr {
    PredicateExpr::Column(i)
}

fn literals(e: &PredicateExpr, out: &mut Vec<ScalarLit>) {
    match e {
        PredicateExpr::Column(_) => {}
        PredicateExpr::Literal(v) => out.push(*v),
        PredicateExpr::CastInt64(inner) => literals(inner, out),
        PredicateExpr::Binary(l, _, r) => {
            literals(l, out);
            literals(r, out);
        }
    }
}

fn value(e: &PredicateExpr, row: &[i64]) -> i64 {
    match e {
        PredicateExpr::Column(i) => row[*i],
        PredicateExpr::Literal(ScalarLit::Number(_, v)) => *v as i64,
        PredicateExpr::Literal(ScalarLit::Int64(v)) => *v,
        PredicateExpr::CastInt64(inner) => value(inner, row),
        PredicateExpr::Binary(l, Operator::Plus, r) => value(l, row) + value(r, row),
        PredicateExpr::Binary(l, Operator::Minus, r) => value(l, row) - value(r, row),
        _ => panic!("not an arithmetic expression"),
    }
}

fn holds(e: &PredicateExpr, row: &[i64]) -> bool {
    match e {
        PredicateExpr::Binary(l, op, r) => match op {
            Operator::Gt => value(l, row) > value(r, row),
            Operator::GtEq => value(l, row) >= value(r, row),
            Operator::Lt => value(l, row) < value(r, row),
            Operator::LtEq => value(l, row) <= value(r, row),
            Operator::And => holds(l, row) && holds(r, row),
            _ => panic!("not a predicate"),
        },
        _ => panic!("not a predicate"),
    }
}

fn num(v: i32) -> ScalarLit {
    ScalarLit::Number(NumericType::Int32, v)
}

#[test]
fn numeric_entry_zero_has_its_shape() {
    let e = join_expr_tests_fixture_i32(0, col(0), col(1));
    let expected = bin(
        bin(
            bin(col(0), Operator::Plus, lit(num(1))),
            Operator::Gt,
            bin(col(1), Operator::Plus, lit(num(5))),
        ),
        Operator::And,
        bin(
            bin(col(0), Operator::Plus, lit(num(3))),
            Operator::Lt,
            bin(col(1), Operator::Plus, lit(num(10))),
        ),
    );
    assert_eq!(e, expected);
}

#[test]
fn numeric_catalog_literals_match_operands() {
    let table: [(i32, i32, i32, i32); 8] = [
        (1, 5, 3, 10),
        (1, 5, 3, 10),
        (1, 5, 3, 10),
        (10, 5, 3, 10),
        (10, 5, 30, 3),
        (2, 5, 7, 3),
        (28, 11, 21, 39),
        (28, 11, 21, 39),
    ];
    for (id, (a, b, c, d)) in table.iter().enumerate() {
        let mut got = Vec::new();
        literals(&join_expr_tests_fixture_i32(id, col(0), col(1)), &mut got);
        assert_eq!(got, vec![num(*a), num(*b), num(*c), num(*d)]);
        let mut got_f = Vec::new();
        literals(&join_expr_tests_fixture_f64(id, col(0), col(1)), &mut got_f);
        let f = |v: i32| ScalarLit::Number(NumericType::Float64, v);
        assert_eq!(got_f, vec![f(*a), f(*b), f(*c), f(*d)]);
    }
}

#[test]
fn numeric_catalog_comparisons() {
    let bounds = |id: usize| match join_expr_tests_fixture_i32(id, col(0), col(1)) {
        PredicateExpr::Binary(l, Operator::And, r) => match (*l, *r) {
            (PredicateExpr::Binary(_, a, _), PredicateExpr::Binary(_, b, _)) => (a, b),
            _ => panic!("unexpected clause"),
        },
        _ => panic!("unexpected root"),
    };
    assert_eq!(bounds(4), (Operator::Gt, Operator::Lt));
    assert_eq!(bounds(5), (Operator::GtEq, Operator::LtEq));
    assert_eq!(bounds(6), (Operator::Gt, Operator::LtEq));
    assert_eq!(bounds(7), (Operator::GtEq, Operator::Lt));
}

#[test]
fn temporal_catalog_literals_match_operands() {
    let mut got = Vec::new();
    literals(&join_expr_tests_fixture_temporal(0, col(0), col(1)), &mut got);
    assert_eq!(
        got,
        vec![
            ScalarLit::IntervalMs(100),
            ScalarLit::IntervalMs(200),
            ScalarLit::IntervalMs(450),
            ScalarLit::IntervalMs(300)
        ]
    );
    let mut got = Vec::new();
    literals(&join_expr_tests_fixture_temporal(1, col(0), col(1)), &mut got);
    assert_eq!(
        got,
        vec![
            ScalarLit::TimestampMs(1672574403000),
            ScalarLit::TimestampMs(1672574401000),
            ScalarLit::TimestampMs(1672574400000),
            ScalarLit::TimestampMs(1672574402000)
        ]
    );
    let mut got = Vec::new();
    literals(&join_expr_tests_fixture_temporal(2, col(0), col(1)), &mut got);
    assert_eq!(
        got,
        vec![
            ScalarLit::DurationMs(3000),
            ScalarLit::DurationMs(2000),
            ScalarLit::DurationMs(5000),
            ScalarLit::DurationMs(4000)
        ]
    );
}

#[test]
fn single_side_builders_have_their_shape() {
    let t = gen_conjunctive_temporal_expr_single_side(
        col(0),
        col(1),
        Operator::Minus,
        Operator::Plus,
        ScalarLit::DurationMs(1),
        ScalarLit::DurationMs(2),
        Operator::GtEq,
    );
    let expected = bin(
        bin(col(0), Operator::Minus, lit(ScalarLit::DurationMs(1))),
        Operator::GtEq,
        bin(col(1), Operator::Plus, lit(ScalarLit::DurationMs(2))),
    );
    assert_eq!(t, expected);
    let n = gen_conjunctive_numerical_expr_single_side_prunable(
        col(2),
        col(3),
        (Operator::Plus, Operator::Minus),
        num(4),
        num(6),
        Operator::Lt,
    );
    let expected = bin(
        bin(col(2), Operator::Plus, lit(num(4))),
        Operator::Lt,
        bin(col(3), Operator::Minus, lit(num(6))),
    );
    assert_eq!(n, expected);
}

#[test]
fn four_column_catalog_shapes() {
    let sum = || cast(bin(col(0), Operator::Plus, col(1)));
    let plus = |i: usize, v: i64| bin(cast(col(i)), Operator::Plus, lit(ScalarLit::Int64(v)));
    let base = || {
        bin(
            bin(sum(), Operator::Gt, plus(3, 10)),
            Operator::And,
            bin(cast(col(0)), Operator::Lt, plus(2, 20)),
        )
    };
    assert_eq!(complicated_4_column_exprs(0), base());
    assert_eq!(
        complicated_4_column_exprs(1),
        bin(base(), Operator::And, bin(cast(col(2)), Operator::GtEq, plus(1, 20)))
    );
    let third = bin(
        bin(sum(), Operator::Gt, plus(2, 10)),
        Operator::And,
        bin(sum(), Operator::Lt, plus(2, 100)),
    );
    assert_eq!(complicated_4_column_exprs(2), third);
    assert_eq!(complicated_filter(), third);
}

#[test]
fn four_column_filter_values() {
    let e = complicated_4_column_exprs(0);
    // a + b > d + 10 and a < c + 20
    assert!(holds(&e, &[10, 5, 0, 4]));
    assert!(!holds(&e, &[10, 5, 0, 5]));
    assert!(!holds(&e, &[20, 5, 0, 4]));
    let f = complicated_filter();
    assert!(holds(&f, &[30, 0, 0]));
    assert!(!holds(&f, &[10, 0, 0]));
    assert!(!holds(&f, &[100, 0, 0]));
}

#[test]
fn boundary_entry_selects_no_mirrored_rows() {
    let (l, r) = build_sides_columns(100, (4, 4));
    let e = join_expr_tests_fixture_i32(0, col(0), col(1));
    let selected = l
        .ordered
        .iter()
        .zip(r.ordered.iter())
        .filter(|(a, b)| holds(&e, &[**a as i64, **b as i64]))
        .count();
    assert_eq!(selected, 0);
    assert!(holds(&e, &[10, 5]));
}
