use std::cell::Cell;

use mongosql::rewrites::{rewrite_query, Error, Pass, RewritePipeline};

/// Adds `amount` to the query, failing once the query would exceed `limit`.
struct AddPass<'a> {
    amount: i64,
    limit: i64,
    calls: &'a Cell<u32>,
}

impl<'a> AddPass<'a> {
    fn step(&self, query: i64) -> Result<i64, Error> {
        let next = query + self.amount;
        if next > self.limit {
            Err(Error::PositionalSortKeyOutOfRange(next as usize))
        } else {
            Ok(next)
        }
    }
}

impl<'a> Pass<i64> for AddPass<'a> {
    // What the pass does, stated for the verifier; the same computation as `apply`.
    fn spec_apply(&self, query: i64) -> Result<i64, Error> {
        self.step(query)
    }

    fn apply(&self, query: i64) -> Result<i64, Error> {
        self.calls.set(self.calls.get() + 1);
        self.step(query)
    }
}

#[test]
fn no_passes_leave_the_query_unchanged() {
    let passes: Vec<AddPass> = vec![];
    assert_eq!(rewrite_query(7, &passes), Ok(7));
}

#[test]
fn passes_run_in_order() {
    let calls = Cell::new(0);
    let passes = vec![
        AddPass { amount: 1, limit: 100, calls: &calls },
        AddPass { amount: 10, limit: 100, calls: &calls },
        AddPass { amount: 100, limit: 200, calls: &calls },
    ];
    assert_eq!(rewrite_query(0, &passes), Ok(111));
    assert_eq!(calls.get(), 3);
}

#[test]
fn first_error_stops_the_rewrite() {
    let calls = Cell::new(0);
    let passes = vec![
        AddPass { amount: 5, limit: 100, calls: &calls },
        AddPass { amount: 10, limit: 12, calls: &calls },
        AddPass { amount: 1, limit: 0, calls: &calls },
    ];
    assert_eq!(rewrite_query(0, &passes), Err(Error::PositionalSortKeyOutOfRange(15)));
    assert_eq!(calls.get(), 2);
}

#[test]
fn single_pass_is_the_pass() {
    let calls = Cell::new(0);
    let pass = AddPass { amount: 3, limit: 10, calls: &calls };
    let direct = pass.apply(4);
    let passes = vec![AddPass { amount: 3, limit: 10, calls: &calls }];
    assert_eq!(rewrite_query(4, &passes), direct);
}

#[test]
fn concatenated_passes_compose() {
    let calls = Cell::new(0);
    let first = vec![
        AddPass { amount: 2, limit: 100, calls: &calls },
        AddPass { amount: 3, limit: 100, calls: &calls },
    ];
    let second = vec![AddPass { amount: 4, limit: 100, calls: &calls }];
    let all = vec![
        AddPass { amount: 2, limit: 100, calls: &calls },
        AddPass { amount: 3, limit: 100, calls: &calls },
        AddPass { amount: 4, limit: 100, calls: &calls },
    ];
    let staged = rewrite_query(1, &first).and_then(|q| rewrite_query(q, &second));
    assert_eq!(rewrite_query(1, &all), staged);
    assert_eq!(staged, Ok(10));
}

#[test]
fn pipeline_is_a_pass() {
    let calls = Cell::new(0);
    let pipeline = RewritePipeline {
        passes: vec![
            AddPass { amount: 1, limit: 100, calls: &calls },
            AddPass { amount: 2, limit: 100, calls: &calls },
        ],
    };
    assert_eq!(pipeline.apply(10), Ok(13));
}

#[test]
fn error_messages() {
    assert_eq!(
        Error::PositionalSortKeyWithSelectValue.message(),
        "positional sort keys are not allowed with SELECT VALUE"
    );
    assert_eq!(
        Error::PositionalSortKeyOutOfRange(3).message(),
        "positional sort key 3 out of range"
    );
    assert_eq!(
        Error::NoAliasForSortKeyAtPosition(120).message(),
        "positional sort key 120 references a select expression with no alias"
    );
    assert_eq!(
        Error::AggregationFunctionInGroupByKeyList.message(),
        "aggregation functions may not be used as GROUP BY keys"
    );
    assert_eq!(
        Error::AggregationFunctionInGroupByAggListNotAliased.message(),
        "aggregation functions in GROUP BY must have an alias"
    );
    assert_eq!(
        Error::AggregationFunctionInGroupByAggListAndElsewhere.message(),
        "cannot specify aggregation functions in GROUP BY AGGREGATE clause and elsewhere"
    );
    assert_eq!(Error::PositionalSortKeyOutOfRange(0).message(), "positional sort key 0 out of range");
}
