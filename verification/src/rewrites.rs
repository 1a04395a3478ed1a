//! Driver for the fallible rewrite passes that run over a parsed query.

use vstd::prelude::*;
use crate::text::{decimal, push_decimal};

verus! {

/// Errors that can occur during rewrite passes.
#[derive(Debug, Clone, Copy, PartialEq, Eq, Structural)]
pub enum Error {
    PositionalSortKeyWithSelectValue,
    PositionalSortKeyOutOfRange(usize),
    NoAliasForSortKeyAtPosition(usize),
    AggregationFunctionInGroupByKeyList,
    AggregationFunctionInGroupByAggListNotAliased,
    AggregationFunctionInGroupByAggListAndElsewhere,
}

/// The message of a rewrite error.
pub open spec fn error_message(e: Error) -> Seq<char> {
    match e {
        Error::PositionalSortKeyWithSelectValue => "positional sort keys are not allowed with SELECT VALUE"@,
        Error::PositionalSortKeyOutOfRange(n) => "positional sort key "@ + decimal(n as nat)
            + " out of range"@,
        Error::NoAliasForSortKeyAtPosition(n) => "positional sort key "@ + decimal(n as nat)
            + " references a select expression with no alias"@,
        Error::AggregationFunctionInGroupByKeyList => "aggregation functions may not be used as GROUP BY keys"@,
        Error::AggregationFunctionInGroupByAggListNotAliased => "aggregation functions in GROUP BY must have an alias"@,
        Error::AggregationFunctionInGroupByAggListAndElsewhere => "cannot specify aggregation functions in GROUP BY AGGREGATE clause and elsewhere"@,
    }
}

impl Error {
    /// The message that describes the error.
    pub fn message(&self) -> (r: String)
        ensures
            r@ == error_message(*self),
    {
        match self {
            Error::PositionalSortKeyWithSelectValue => String::from_str(
                "positional sort keys are not allowed with SELECT VALUE",
            ),
            Error::PositionalSortKeyOutOfRange(n) => {
                let mut r = String::from_str("positional sort key ");
                push_decimal(&mut r, *n as u64);
                r.append(" out of range");
                r
            },
            Error::NoAliasForSortKeyAtPosition(n) => {
                let mut r = String::from_str("positional sort key ");
                push_decimal(&mut r, *n as u64);
                r.append(" references a select expression with no alias");
                r
            },
            Error::AggregationFunctionInGroupByKeyList => String::from_str(
                "aggregation functions may not be used as GROUP BY keys",
            ),
            Error::AggregationFunctionInGroupByAggListNotAliased => String::from_str(
                "aggregation functions in GROUP BY must have an alias",
            ),
            Error::AggregationFunctionInGroupByAggListAndElsewhere => String::from_str(
                "cannot specify aggregation functions in GROUP BY AGGREGATE clause and elsewhere",
            ),
        }
    }
}

pub type Result<T> = core::result::Result<T, Error>;

/// A fallible transformation that can be applied to a query of type `Q`.
///
/// `spec_apply` states what the pass does; `apply` carries it out.
pub trait Pass<Q> {
    spec fn spec_apply(&self, query: Q) -> Result<Q>;

    fn apply(&self, query: Q) -> (r: Result<Q>)
        ensures
            r == self.spec_apply(query),
    ;
}

/// The result of running `passes` in order on `query`, stopping at the first
/// pass that fails.
pub open spec fn spec_rewrite<Q, P: Pass<Q>>(passes: Seq<P>, query: Q) -> Result<Q>
    decreases passes.len(),
{
    if passes.len() == 0 {
        Ok(query)
    } else {
        match passes[0].spec_apply(query) {
            Ok(q) => spec_rewrite(passes.drop_first(), q),
            Err(e) => Err(e),
        }
    }
}

/// Rewrite the provided query by applying the given passes in order. The
/// first failing pass ends the rewrite with its error.
pub fn rewrite_query<Q, P: Pass<Q>>(query: Q, passes: &Vec<P>) -> (r: Result<Q>)
    ensures
        r == spec_rewrite(passes@, query),
{
    let mut rewritten = query;
    let mut i: usize = 0;
    assert(passes@.skip(0) =~= passes@);
    while i < passes.len()
        invariant
            i <= passes@.len(),
            spec_rewrite(passes@, query) == spec_rewrite(passes@.skip(i as int), rewritten),
        decreases passes@.len() - i,
    {
        assert(passes@.skip(i as int).drop_first() =~= passes@.skip(i + 1));
        match passes[i].apply(rewritten) {
            Ok(q) => {
                rewritten = q;
            },
            Err(e) => {
                return Err(e);
            },
        }
        i = i + 1;
    }
    assert(passes@.skip(i as int) =~= Seq::<P>::empty());
    Ok(rewritten)
}

/// A sequence of passes run in order is itself a pass.
pub struct RewritePipeline<P> {
    pub passes: Vec<P>,
}

impl<Q, P: Pass<Q>> Pass<Q> for RewritePipeline<P> {
    open spec fn spec_apply(&self, query: Q) -> Result<Q> {
        spec_rewrite(self.passes@, query)
    }

    fn apply(&self, query: Q) -> (r: Result<Q>) {
        rewrite_query(query, &self.passes)
    }
}

/// Running no passes leaves the query unchanged.
pub proof fn lemma_rewrite_no_passes<Q, P: Pass<Q>>(query: Q)
    ensures
        spec_rewrite(Seq::<P>::empty(), query) == Ok::<Q, Error>(query),
{
}

/// Running a single pass is the same as applying that pass.
pub proof fn lemma_rewrite_single_pass<Q, P: Pass<Q>>(pass: P, query: Q)
    ensures
        spec_rewrite(seq![pass], query) == pass.spec_apply(query),
{
    assert(seq![pass].drop_first() =~= Seq::<P>::empty());
    match pass.spec_apply(query) {
        Ok(q) => {
            assert(spec_rewrite(seq![pass].drop_first(), q) == Ok::<Q, Error>(q));
        },
        Err(e) => {},
    }
}

/// Running `first` and then `second` is the same as running their
/// concatenation: the second group sees what the first produced, and an
/// error in the first group is the final result.
pub proof fn lemma_rewrite_concat<Q, P: Pass<Q>>(first: Seq<P>, second: Seq<P>, query: Q)
    ensures
        spec_rewrite(first + second, query) == (match spec_rewrite(first, query) {
            Ok(q) => spec_rewrite(second, q),
            Err(e) => Err(e),
        }),
    decreases first.len(),
{
    if first.len() == 0 {
        assert(first + second =~= second);
    } else {
        assert((first + second)[0] == first[0]);
        assert((first + second).drop_first() =~= first.drop_first() + second);
        match first[0].spec_apply(query) {
            Ok(q) => {
                lemma_rewrite_concat(first.drop_first(), second, q);
            },
            Err(e) => {},
        }
    }
}

/// If the passes before index `k` succeed and the pass at `k` fails, the
/// rewrite fails with that pass's error: the passes after it never run.
pub proof fn lemma_rewrite_first_error<Q, P: Pass<Q>>(passes: Seq<P>, k: int, query: Q)
    requires
        0 <= k < passes.len(),
        spec_rewrite(passes.take(k), query) is Ok,
        passes[k].spec_apply(spec_rewrite(passes.take(k), query)->Ok_0) is Err,
    ensures
        spec_rewrite(passes, query) == passes[k].spec_apply(
            spec_rewrite(passes.take(k), query)->Ok_0,
        ),
{
    let q = spec_rewrite(passes.take(k), query)->Ok_0;
    assert(passes =~= passes.take(k) + passes.skip(k));
    lemma_rewrite_concat(passes.take(k), passes.skip(k), query);
    assert(passes.skip(k)[0] == passes[k]);
}

} // verus!
