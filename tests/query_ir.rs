use mv_planner::query::{AggOp, Literal, OrderItem, PredValue, Predicate, Query, QueryError, SelectItem, Condition};

fn s(x: &str) -> String {
    x.to_string()
}

fn text(x: &str) -> Literal {
    Literal::Text(s(x))
}

#[test]
fn predicate_ops_and_arity() {
    let p = Predicate::parse(Some(s("type")), Some(s("eq")), Some(PredValue::Scalar(text("click")))).unwrap();
    assert!(matches!(p.cond, Condition::Eq(Literal::Text(ref v)) if v == "click"));
    let b = Predicate::parse(
        Some(s("day")),
        Some(s("between")),
        Some(PredValue::List(vec![text("2024-01-01"), text("2024-01-31")])),
    )
    .unwrap();
    assert!(matches!(b.cond, Condition::Between(_, _)));
    assert_eq!(
        Predicate::parse(Some(s("day")), Some(s("between")), Some(PredValue::List(vec![text("a")]))).unwrap_err(),
        QueryError::BetweenArity
    );
    assert_eq!(
        Predicate::parse(Some(s("day")), Some(s("between")), Some(PredValue::List(vec![text("a"), text("b"), text("c")]))).unwrap_err(),
        QueryError::BetweenArity
    );
    assert_eq!(
        Predicate::parse(Some(s("day")), Some(s("like")), Some(PredValue::Scalar(text("a")))).unwrap_err(),
        QueryError::UnknownOp
    );
    assert_eq!(
        Predicate::parse(Some(s("country")), Some(s("in")), Some(PredValue::List(vec![]))).unwrap_err(),
        QueryError::BadValue
    );
    assert_eq!(
        Predicate::parse(Some(s("country")), Some(s("eq")), Some(PredValue::List(vec![text("US")]))).unwrap_err(),
        QueryError::BadValue
    );
    assert_eq!(
        Predicate::parse(None, Some(s("eq")), Some(PredValue::Scalar(text("US")))).unwrap_err(),
        QueryError::MissingField
    );
}

#[test]
fn aggregate_entries() {
    let a = SelectItem::parse_aggregate(vec![(s("SUM"), s("bid_price"))]).unwrap();
    match a {
        SelectItem::Aggregate(agg) => {
            assert_eq!(agg.op, AggOp::Sum);
            assert_eq!(agg.column, Some(s("bid_price")));
        }
        _ => panic!("expected an aggregate"),
    }
    match SelectItem::parse_aggregate(vec![(s("count"), s("*"))]).unwrap() {
        SelectItem::Aggregate(agg) => {
            assert_eq!(agg.op, AggOp::Count);
            assert_eq!(agg.column, None);
        }
        _ => panic!("expected an aggregate"),
    }
    assert_eq!(SelectItem::parse_aggregate(vec![(s("sum"), s("*"))]).unwrap_err(), QueryError::StarNotCount);
    assert_eq!(SelectItem::parse_aggregate(vec![(s("median"), s("x"))]).unwrap_err(), QueryError::UnknownAggregate);
    assert_eq!(
        SelectItem::parse_aggregate(vec![(s("sum"), s("x")), (s("avg"), s("y"))]).unwrap_err(),
        QueryError::BadSelectItem
    );
}

#[test]
fn order_directions() {
    assert!(!OrderItem::parse(Some(s("day")), None).unwrap().desc);
    assert!(OrderItem::parse(Some(s("day")), Some(s("DESC"))).unwrap().desc);
    assert!(!OrderItem::parse(Some(s("day")), Some(s("asc"))).unwrap().desc);
    assert_eq!(OrderItem::parse(Some(s("day")), Some(s("up"))).unwrap_err(), QueryError::UnknownDirection);
    assert_eq!(OrderItem::parse(None, None).unwrap_err(), QueryError::MissingField);
}

#[test]
fn query_rules() {
    let agg = SelectItem::parse_aggregate(vec![(s("count"), s("*"))]).unwrap();
    let q = Query::new(Some(vec![agg.clone()]), None, vec![], vec![], vec![], None).unwrap();
    assert_eq!(q.from, "events");
    assert_eq!(Query::new(None, None, vec![], vec![], vec![], None).unwrap_err(), QueryError::MissingField);
    assert_eq!(Query::new(Some(vec![]), None, vec![], vec![], vec![], None).unwrap_err(), QueryError::MissingField);
    // A bare column beside an aggregate must be grouped.
    assert_eq!(
        Query::new(Some(vec![SelectItem::Column(s("country")), agg.clone()]), None, vec![], vec![], vec![], None).unwrap_err(),
        QueryError::UngroupedColumn
    );
    assert_eq!(
        Query::new(Some(vec![SelectItem::Column(s("day"))]), None, vec![], vec![s("country")], vec![], None).unwrap_err(),
        QueryError::UngroupedColumn
    );
    let ok = Query::new(Some(vec![SelectItem::Column(s("country")), agg]), Some(s("events")), vec![], vec![s("country")], vec![], Some(10)).unwrap();
    assert_eq!(ok.limit, Some(10));
    // Without grouping or aggregates, bare columns stand alone.
    assert!(Query::new(Some(vec![SelectItem::Column(s("day"))]), None, vec![], vec![], vec![], None).is_ok());
}

#[test]
fn query_rejects_empty_in_list() {
    let agg = SelectItem::parse_aggregate(vec![(s("count"), s("*"))]).unwrap();
    let empty_in = Predicate { col: s("country"), cond: Condition::In(vec![]) };
    assert_eq!(
        Query::new(Some(vec![agg.clone()]), None, vec![empty_in], vec![], vec![], None).unwrap_err(),
        QueryError::BadValue
    );
    let ok_in = Predicate { col: s("country"), cond: Condition::In(vec![text("US")]) };
    assert!(Query::new(Some(vec![agg]), None, vec![ok_in], vec![], vec![], None).is_ok());
}
