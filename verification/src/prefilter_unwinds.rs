//! The prefilter-unwinds optimization. A filter that sits right above an
//! unwind and tests a single field that the unwind exposes can be answered,
//! in part, before the array is unwound: a `$match` with `$elemMatch` on the
//! array keeps only the documents that have at least one element that could
//! pass the filter. The filter itself stays in place.

use vstd::prelude::*;
use crate::mir::{
    ElemMatch, Expression, FieldPath, Filter, LiteralValue, MQLStage, MatchFilter,
    MatchLanguageComparison, MatchLanguageComparisonOp, MatchLanguageLogical,
    MatchLanguageLogicalOp, MatchQuery, ScalarFunction, ScalarFunctionApplication, SchemaCache,
    Stage, Unwind, is_comparison, match_comparison, scalar_comparison,
};

verus! {

/// The comparison operator of the match language that a scalar function
/// corresponds to, if any.
pub open spec fn spec_comparison_op(s: ScalarFunction) -> Option<MatchLanguageComparisonOp> {
    match s {
        ScalarFunction::Lt => Some(MatchLanguageComparisonOp::Lt),
        ScalarFunction::Lte => Some(MatchLanguageComparisonOp::Lte),
        ScalarFunction::Neq => Some(MatchLanguageComparisonOp::Ne),
        ScalarFunction::Eq => Some(MatchLanguageComparisonOp::Eq),
        ScalarFunction::Gt => Some(MatchLanguageComparisonOp::Gt),
        ScalarFunction::Gte => Some(MatchLanguageComparisonOp::Gte),
        _ => None,
    }
}

impl MatchLanguageComparisonOp {
    /// Converts a comparison scalar function to the match-language operator;
    /// every other function is refused.
    pub fn try_from(s: ScalarFunction) -> (r: Result<MatchLanguageComparisonOp, ()>)
        ensures
            r matches Ok(op) ==> spec_comparison_op(s) == Some(op),
            r is Err <==> spec_comparison_op(s) is None,
    {
        match s {
            ScalarFunction::Lt => Ok(MatchLanguageComparisonOp::Lt),
            ScalarFunction::Lte => Ok(MatchLanguageComparisonOp::Lte),
            ScalarFunction::Neq => Ok(MatchLanguageComparisonOp::Ne),
            ScalarFunction::Eq => Ok(MatchLanguageComparisonOp::Eq),
            ScalarFunction::Gt => Ok(MatchLanguageComparisonOp::Gt),
            ScalarFunction::Gte => Ok(MatchLanguageComparisonOp::Gte),
            _ => Err(()),
        }
    }
}

/// The literal of a two-argument comparison between a field and a literal,
/// in either order.
pub open spec fn spec_comparison_literal(args: Seq<Expression>) -> Option<LiteralValue> {
    if args.len() == 2 && args[0] is Literal && args[1] is FieldAccess {
        Some(args[0]->Literal_0.value)
    } else if args.len() == 2 && args[0] is FieldAccess && args[1] is Literal {
        Some(args[1]->Literal_0.value)
    } else {
        None
    }
}

/// The two bounds of `field BETWEEN literal AND literal`.
pub open spec fn spec_between_literals(args: Seq<Expression>) -> Option<(LiteralValue, LiteralValue)> {
    if args.len() == 3 && args[0] is FieldAccess && args[1] is Literal && args[2] is Literal {
        Some((args[1]->Literal_0.value, args[2]->Literal_0.value))
    } else {
        None
    }
}

pub fn get_comparison_literal(args: &Vec<Expression>) -> (r: Option<LiteralValue>)
    ensures
        r == spec_comparison_literal(args@),
{
    if args.len() != 2 {
        return None;
    }
    match (&args[0], &args[1]) {
        (Expression::Literal(lit), Expression::FieldAccess(_)) => Some(lit.value.clone()),
        (Expression::FieldAccess(_), Expression::Literal(lit)) => Some(lit.value.clone()),
        _ => None,
    }
}

pub fn get_between_literals(args: &Vec<Expression>) -> (r: Option<(LiteralValue, LiteralValue)>)
    ensures
        r == spec_between_literals(args@),
{
    if args.len() != 3 {
        return None;
    }
    match (&args[0], &args[1], &args[2]) {
        (Expression::FieldAccess(_), Expression::Literal(lit1), Expression::Literal(lit2)) => {
            Some((lit1.value.clone(), lit2.value.clone()))
        },
        _ => None,
    }
}

/// The match-language comparison of the current value against a literal.
pub open spec fn spec_match_comparison(function: MatchLanguageComparisonOp, lit: LiteralValue) -> MatchQuery {
    MatchQuery::Comparison(
        MatchLanguageComparison { function, input: None, arg: lit, cache: SchemaCache {} },
    )
}

/// `{field: {$elemMatch: {<function>: lit}}}`
pub open spec fn spec_comparison_elem_match(
    function: MatchLanguageComparisonOp,
    field: FieldPath,
    lit: LiteralValue,
) -> MatchQuery {
    MatchQuery::ElemMatch(
        ElemMatch {
            input: field,
            condition: Box::new(spec_match_comparison(function, lit)),
            cache: SchemaCache {},
        },
    )
}

/// `q` is `{field: {$elemMatch: {$and: [{$gte: lower}, {$lte: upper}]}}}`.
pub open spec fn is_between_elem_match(
    q: MatchQuery,
    field: FieldPath,
    lower: LiteralValue,
    upper: LiteralValue,
) -> bool {
    &&& q matches MatchQuery::ElemMatch(em)
    &&& em.input == field
    &&& em.cache == SchemaCache {}
    &&& *em.condition matches MatchQuery::Logical(l)
    &&& l.op == MatchLanguageLogicalOp::And
    &&& l.cache == SchemaCache {}
    &&& l.args@ == seq![
        spec_match_comparison(MatchLanguageComparisonOp::Gte, lower),
        spec_match_comparison(MatchLanguageComparisonOp::Lte, upper),
    ]
}

pub fn generate_match_comparison(function: MatchLanguageComparisonOp, lit: LiteralValue) -> (r:
    MatchQuery)
    ensures
        r == spec_match_comparison(function, lit),
{
    MatchQuery::Comparison(
        MatchLanguageComparison { function, input: None, arg: lit, cache: SchemaCache::new() },
    )
}

pub fn generate_comparison_elem_match_query(
    function: MatchLanguageComparisonOp,
    field: FieldPath,
    lit: LiteralValue,
) -> (r: MatchQuery)
    ensures
        r == spec_comparison_elem_match(function, field, lit),
{
    MatchQuery::ElemMatch(
        ElemMatch {
            input: field,
            condition: Box::new(generate_match_comparison(function, lit)),
            cache: SchemaCache::new(),
        },
    )
}

pub fn generate_between_elem_match_query(
    field: FieldPath,
    lower_bound: LiteralValue,
    upper_bound: LiteralValue,
) -> (r: MatchQuery)
    ensures
        is_between_elem_match(r, field, lower_bound, upper_bound),
{
    let ghost lo = lower_bound;
    let ghost hi = upper_bound;
    let args = vec![
        generate_match_comparison(MatchLanguageComparisonOp::Gte, lower_bound),
        generate_match_comparison(MatchLanguageComparisonOp::Lte, upper_bound),
    ];
    let r = MatchQuery::ElemMatch(
        ElemMatch {
            input: field,
            condition: Box::new(
                MatchQuery::Logical(
                    MatchLanguageLogical {
                        op: MatchLanguageLogicalOp::And,
                        args,
                        cache: SchemaCache::new(),
                    },
                ),
            ),
            cache: SchemaCache::new(),
        },
    );
    assert(args@ =~= seq![
        spec_match_comparison(MatchLanguageComparisonOp::Gte, lo),
        spec_match_comparison(MatchLanguageComparisonOp::Lte, hi),
    ]);
    r
}

/// What the prefilter for a filter condition looks like.
pub enum PrefilterPlan {
    /// No useful prefilter can be derived from the condition.
    NoPrefilter,
    /// `field BETWEEN lower AND upper`.
    Between(LiteralValue, LiteralValue),
    /// A comparison between the field and a literal.
    Comparison(MatchLanguageComparisonOp, LiteralValue),
}

/// The prefilter that a filter condition admits.
pub open spec fn spec_prefilter_plan(condition: Expression) -> PrefilterPlan {
    match condition {
        Expression::ScalarFunction(app) => {
            if app.function == ScalarFunction::Between {
                match spec_between_literals(app.args@) {
                    Some((lower, upper)) => PrefilterPlan::Between(lower, upper),
                    None => PrefilterPlan::NoPrefilter,
                }
            } else {
                match (spec_comparison_literal(app.args@), spec_comparison_op(app.function)) {
                    (Some(lit), Some(op)) => PrefilterPlan::Comparison(op, lit),
                    _ => PrefilterPlan::NoPrefilter,
                }
            }
        },
        _ => PrefilterPlan::NoPrefilter,
    }
}

/// `r` is `source`, with the prefilter for `condition` on `field` put on
/// top of it when the condition admits one.
pub open spec fn is_prefiltered_source(r: Stage, field: FieldPath, source: Stage, condition: Expression) -> bool {
    match spec_prefilter_plan(condition) {
        PrefilterPlan::NoPrefilter => r == source,
        PrefilterPlan::Between(lower, upper) => {
            &&& r matches Stage::MQLIntrinsic(MQLStage::MatchFilter(mf))
            &&& *mf.source == source
            &&& mf.cache == SchemaCache {}
            &&& is_between_elem_match(mf.condition, field, lower, upper)
        },
        PrefilterPlan::Comparison(op, lit) => r == Stage::MQLIntrinsic(
            MQLStage::MatchFilter(
                MatchFilter {
                    source: Box::new(source),
                    condition: spec_comparison_elem_match(op, field, lit),
                    cache: SchemaCache {},
                },
            ),
        ),
    }
}

/// Puts a `$match` with `$elemMatch` on `field` above `source` when the
/// condition is a comparison or a BETWEEN of that field with literals;
/// otherwise returns `source` unchanged.
pub fn generate_prefilter(field: FieldPath, source: Box<Stage>, condition: &Expression) -> (r: Box<
    Stage,
>)
    ensures
        is_prefiltered_source(*r, field, *source, *condition),
{
    if let Expression::ScalarFunction(app) = condition {
        let f = app.function;
        if f == ScalarFunction::Between {
            let (lower_bound, upper_bound) = match get_between_literals(&app.args) {
                Some((lower_bound, upper_bound)) => (lower_bound, upper_bound),
                None => {
                    return source;
                },
            };
            return Box::new(
                Stage::MQLIntrinsic(
                    MQLStage::MatchFilter(
                        MatchFilter {
                            source,
                            condition: generate_between_elem_match_query(
                                field,
                                lower_bound,
                                upper_bound,
                            ),
                            cache: SchemaCache::new(),
                        },
                    ),
                ),
            );
        }
        let lit = match get_comparison_literal(&app.args) {
            Some(lit) => lit,
            None => {
                return source;
            },
        };
        let function = match MatchLanguageComparisonOp::try_from(f) {
            Ok(op) => op,
            Err(_) => {
                return source;
            },
        };
        return Box::new(
            Stage::MQLIntrinsic(
                MQLStage::MatchFilter(
                    MatchFilter {
                        source,
                        condition: generate_comparison_elem_match_query(function, field, lit),
                        cache: SchemaCache::new(),
                    },
                ),
            ),
        );
    }
    source
}

/// `opaque_field_defines` holds a field path equal to `field`.
pub open spec fn defines_field(opaque_field_defines: Seq<FieldPath>, field: FieldPath) -> bool {
    exists|i: int| 0 <= i < opaque_field_defines.len() && #[trigger] opaque_field_defines[i]@ == field@
}

/// The first field of `field` is the unwind's index field (both absent
/// counts as equal).
pub open spec fn first_field_is_index(field: FieldPath, index: Option<String>) -> bool {
    match index {
        None => field.fields@.len() == 0,
        Some(ix) => field.fields@.len() > 0 && field.fields@[0]@ == ix@,
    }
}

/// The field on which the filter at the top of `node` is prefiltered: the
/// node must be a filter right above an unwind, whose condition uses exactly
/// one field path, that field path must be one the unwind defines, and it
/// must not start at the unwind's index field.
pub open spec fn spec_prefilter_field(
    node: Stage,
    field_uses: Option<Seq<FieldPath>>,
    opaque_field_defines: Seq<FieldPath>,
) -> Option<FieldPath> {
    match node {
        Stage::Filter(f) => match *f.source {
            Stage::Unwind(u) => match field_uses {
                Some(uses) => if uses.len() == 1 && defines_field(opaque_field_defines, uses[0])
                    && !first_field_is_index(uses[0], u.index) {
                    Some(uses[0])
                } else {
                    None
                },
                None => None,
            },
            _ => None,
        },
        _ => None,
    }
}

/// `r` is the filter-over-unwind `node` with the prefilter on `field` put
/// below the unwind; everything else is kept.
pub open spec fn is_prefiltered_filter(r: Stage, node: Stage, field: FieldPath) -> bool {
    &&& node matches Stage::Filter(f)
    &&& *f.source matches Stage::Unwind(u)
    &&& r matches Stage::Filter(rf)
    &&& rf.condition == f.condition
    &&& rf.cache == f.cache
    &&& *rf.source matches Stage::Unwind(ru)
    &&& ru.path == u.path
    &&& ru.index == u.index
    &&& ru.outer == u.outer
    &&& ru.cache == u.cache
    &&& is_prefiltered_source(*ru.source, field, *u.source, f.condition)
}

/// No two field paths of `paths` are equal.
pub open spec fn distinct_paths(paths: Seq<FieldPath>) -> bool {
    forall|i: int, j: int| 0 <= i < j < paths.len() ==> paths[i]@ != paths[j]@
}

pub open spec fn option_vec_view(v: Option<Vec<FieldPath>>) -> Option<Seq<FieldPath>> {
    match v {
        Some(v) => Some(v@),
        None => None,
    }
}

/// Whether `paths` holds a field path equal to `field`.
pub fn contains_path(paths: &Vec<FieldPath>, field: &FieldPath) -> (r: bool)
    ensures
        r == defines_field(paths@, *field),
{
    let mut i: usize = 0;
    while i < paths.len()
        invariant
            i <= paths@.len(),
            forall|j: int| 0 <= j < i ==> paths@[j]@ != field@,
        decreases paths@.len() - i,
    {
        if paths[i].same_path(field) {
            return true;
        }
        i = i + 1;
    }
    false
}

/// Whether the first field of `field` is the unwind's index field.
pub fn is_index_field(field: &FieldPath, index: &Option<String>) -> (r: bool)
    ensures
        r == first_field_is_index(*field, *index),
{
    match index {
        None => field.fields.len() == 0,
        Some(ix) => field.fields.len() > 0 && field.fields[0] == *ix,
    }
}

/// The MIR analyses of one filter stage that the optimization reads: the
/// field paths that its condition uses (`None` when the condition uses a
/// reference that is not a field path) and, when the filter sits right above
/// an unwind, the field paths that the unwind defines.
pub struct FilterAnalysis {
    pub field_uses: Option<Vec<FieldPath>>,
    pub opaque_field_defines: Vec<FieldPath>,
}

/// The number of filter stages in the chain of stages that ends at `s`.
pub open spec fn filter_count(s: Stage) -> nat
    decreases s,
{
    match s {
        Stage::Filter(f) => 1 + filter_count(*f.source),
        Stage::Unwind(u) => filter_count(*u.source),
        Stage::Collection(_) => 0,
        Stage::MQLIntrinsic(MQLStage::MatchFilter(mf)) => filter_count(*mf.source),
    }
}

/// Every analysis that lists field uses lists each use once.
pub open spec fn analyses_distinct(analyses: Seq<FilterAnalysis>) -> bool {
    forall|i: int|
        0 <= i < analyses.len() ==> ((#[trigger] analyses[i]).field_uses matches Some(uses)
            ==> distinct_paths(uses@))
}

/// `r` is `s` with the optimization applied bottom-up: every stage is kept,
/// and each filter right above an unwind that passes the test of
/// `spec_prefilter_field` gets the prefilter for its condition put below the
/// unwind, on top of the optimized source of the unwind. `analyses` holds
/// the analyses of the filters of `s`, from the top down.
pub open spec fn is_optimized(r: Stage, s: Stage, analyses: Seq<FilterAnalysis>) -> bool
    decreases s,
{
    match s {
        Stage::Collection(_) => r == s,
        Stage::Unwind(u) => {
            &&& r matches Stage::Unwind(ru)
            &&& ru.path == u.path
            &&& ru.index == u.index
            &&& ru.outer == u.outer
            &&& ru.cache == u.cache
            &&& is_optimized(*ru.source, *u.source, analyses)
        },
        Stage::MQLIntrinsic(MQLStage::MatchFilter(mf)) => {
            &&& r matches Stage::MQLIntrinsic(MQLStage::MatchFilter(rmf))
            &&& rmf.condition == mf.condition
            &&& rmf.cache == mf.cache
            &&& is_optimized(*rmf.source, *mf.source, analyses)
        },
        Stage::Filter(f) => {
            let a = analyses[0];
            let rest = analyses.drop_first();
            &&& r matches Stage::Filter(rf)
            &&& rf.condition == f.condition
            &&& rf.cache == f.cache
            &&& match spec_prefilter_field(
                s,
                option_vec_view(a.field_uses),
                a.opaque_field_defines@,
            ) {
                None => is_optimized(*rf.source, *f.source, rest),
                Some(field) => {
                    &&& *f.source matches Stage::Unwind(u)
                    &&& *rf.source matches Stage::Unwind(ru)
                    &&& ru.path == u.path
                    &&& ru.index == u.index
                    &&& ru.outer == u.outer
                    &&& ru.cache == u.cache
                    &&& match spec_prefilter_plan(f.condition) {
                        PrefilterPlan::NoPrefilter => is_optimized(*ru.source, *u.source, rest),
                        PrefilterPlan::Between(lower, upper) => {
                            &&& *ru.source matches Stage::MQLIntrinsic(MQLStage::MatchFilter(mf))
                            &&& mf.cache == SchemaCache {}
                            &&& is_between_elem_match(mf.condition, field, lower, upper)
                            &&& is_optimized(*mf.source, *u.source, rest)
                        },
                        PrefilterPlan::Comparison(op, lit) => {
                            &&& *ru.source matches Stage::MQLIntrinsic(MQLStage::MatchFilter(mf))
                            &&& mf.cache == SchemaCache {}
                            &&& mf.condition == spec_comparison_elem_match(op, field, lit)
                            &&& is_optimized(*mf.source, *u.source, rest)
                        },
                    }
                },
            }
        },
    }
}

/// The prefilter for a comparison between the field and a literal tests
/// each array element against that literal with the very comparison the
/// filter makes: for every pair of values, the match operator holds exactly
/// when the scalar function does. An element that passes the filter passes
/// the prefilter, so no document whose row the filter keeps is dropped
/// before the unwind.
pub proof fn lemma_prefilter_comparison_agrees_with_filter(
    r: Stage,
    field: FieldPath,
    source: Stage,
    app: ScalarFunctionApplication,
)
    requires
        is_prefiltered_source(r, field, source, Expression::ScalarFunction(app)),
        is_comparison(app.function),
        app.args@.len() == 2,
        (app.args@[0] is FieldAccess && app.args@[1] is Literal) || (app.args@[0] is Literal
            && app.args@[1] is FieldAccess),
    ensures
        ({
            let lit = if app.args@[0] is Literal {
                app.args@[0]->Literal_0.value
            } else {
                app.args@[1]->Literal_0.value
            };
            &&& r matches Stage::MQLIntrinsic(MQLStage::MatchFilter(mf))
            &&& *mf.source == source
            &&& mf.condition matches MatchQuery::ElemMatch(em)
            &&& em.input == field
            &&& *em.condition matches MatchQuery::Comparison(c)
            &&& c.input is None
            &&& c.arg == lit
            &&& forall|x: int, y: int|
                #[trigger] scalar_comparison(app.function, x, y) == Some(
                    match_comparison(c.function, x, y),
                )
        }),
{
}

/// The visitor that applies the prefilter-unwinds optimization.
pub struct PrefilterUnwindsVisitor {}

impl PrefilterUnwindsVisitor {
    /// Visits the sub-stages of `node` first and then `node` itself, taking
    /// the analysis of each filter, from the top down, off the front of
    /// `analyses`.
    fn optimize_stage(&mut self, node: Stage, analyses: &mut Vec<FilterAnalysis>) -> (r: Stage)
        requires
            filter_count(node) <= old(analyses)@.len(),
            analyses_distinct(old(analyses)@),
        ensures
            final(analyses)@ == old(analyses)@.skip(filter_count(node) as int),
            is_optimized(r, node, old(analyses)@),
        decreases node,
    {
        let ghost all = analyses@;
        match node {
            Stage::Collection(c) => {
                assert(all.skip(0) =~= all);
                Stage::Collection(c)
            },
            Stage::Unwind(u) => {
                let Unwind { source, path, index, outer, cache } = u;
                let walked = self.optimize_stage(*source, analyses);
                Stage::Unwind(Unwind { source: Box::new(walked), path, index, outer, cache })
            },
            Stage::MQLIntrinsic(MQLStage::MatchFilter(mf)) => {
                let MatchFilter { source, condition, cache } = mf;
                let walked = self.optimize_stage(*source, analyses);
                Stage::MQLIntrinsic(
                    MQLStage::MatchFilter(MatchFilter { source: Box::new(walked), condition, cache }),
                )
            },
            Stage::Filter(f) => {
                let ghost original = Stage::Filter(f);
                let a = analyses.remove(0);
                assert(a == all[0]);
                assert(analyses@ =~= all.drop_first());
                assert(analyses_distinct(analyses@)) by {
                    assert forall|i: int| 0 <= i < analyses@.len() implies ((
                    #[trigger] analyses@[i]).field_uses matches Some(uses) ==> distinct_paths(uses@)) by {
                        assert(analyses@[i] == all[i + 1]);
                    }
                }
                let Filter { source, condition, cache } = f;
                let ghost src = *source;
                let walked = self.optimize_stage(*source, analyses);
                assert(all.drop_first().skip(filter_count(src) as int) =~= all.skip(
                    filter_count(original) as int,
                ));
                let FilterAnalysis { field_uses, opaque_field_defines } = a;
                let stepped = Stage::Filter(Filter { source: Box::new(walked), condition, cache });
                assert(spec_prefilter_field(stepped, option_vec_view(field_uses), opaque_field_defines@)
                    == spec_prefilter_field(original, option_vec_view(field_uses), opaque_field_defines@));
                let r = self.visit_stage(stepped, field_uses, &opaque_field_defines);
                r
            },
        }
    }

    /// Rewrites one stage whose sub-stages have already been visited.
    ///
    /// `field_uses` is the MIR analysis of the field paths that the
    /// condition of a filter at the top of `node` uses (`None` when the
    /// condition uses a reference that is not a field path), and
    /// `opaque_field_defines` the field paths that an unwind right below it
    /// defines. When the filter tests exactly one of those paths, a prefilter
    /// on it goes below the unwind; in every other case `node` is returned
    /// unchanged.
    pub fn visit_stage(
        &mut self,
        node: Stage,
        field_uses: Option<Vec<FieldPath>>,
        opaque_field_defines: &Vec<FieldPath>,
    ) -> (r: Stage)
        requires
            field_uses matches Some(uses) ==> distinct_paths(uses@),
        ensures
            match spec_prefilter_field(node, option_vec_view(field_uses), opaque_field_defines@) {
                None => r == node,
                Some(field) => is_prefiltered_filter(r, node, field),
            },
    {
        match node {
            Stage::Filter(f) => {
                let Filter { source, condition, cache } = f;
                match *source {
                    Stage::Unwind(u) => {
                        let mut uses = match field_uses {
                            Some(uses) => uses,
                            None => {
                                return Stage::Filter(
                                    Filter { source: Box::new(Stage::Unwind(u)), condition, cache },
                                );
                            },
                        };
                        if uses.len() != 1 {
                            return Stage::Filter(
                                Filter { source: Box::new(Stage::Unwind(u)), condition, cache },
                            );
                        }
                        let ghost only = uses@[0];
                        let field_use = match uses.pop() {
                            Some(field_use) => field_use,
                            None => {
                                return Stage::Filter(
                                    Filter { source: Box::new(Stage::Unwind(u)), condition, cache },
                                );
                            },
                        };
                        assert(field_use == only);
                        if !contains_path(opaque_field_defines, &field_use) {
                            return Stage::Filter(
                                Filter { source: Box::new(Stage::Unwind(u)), condition, cache },
                            );
                        }
                        if is_index_field(&field_use, &u.index) {
                            return Stage::Filter(
                                Filter { source: Box::new(Stage::Unwind(u)), condition, cache },
                            );
                        }
                        let Unwind { source: unwind_source, path, index, outer, cache: unwind_cache } =
                            u;
                        let prefiltered = generate_prefilter(field_use, unwind_source, &condition);
                        Stage::Filter(
                            Filter {
                                source: Box::new(
                                    Stage::Unwind(
                                        Unwind {
                                            source: prefiltered,
                                            path,
                                            index,
                                            outer,
                                            cache: unwind_cache,
                                        },
                                    ),
                                ),
                                condition,
                                cache,
                            },
                        )
                    },
                    other => Stage::Filter(Filter { source: Box::new(other), condition, cache }),
                }
            },
            _ => node,
        }
    }
}

/// The prefilter-unwinds optimization over a whole stage.
pub struct PrefilterUnwindsOptimizer {}

impl PrefilterUnwindsOptimizer {
    /// Applies the prefilter-unwinds optimization to `st` and to every stage
    /// below it, sub-stages first. `analyses` holds the MIR analyses of the
    /// filters of `st`, one for each, from the top down.
    pub fn optimize(&self, st: Stage, analyses: Vec<FilterAnalysis>) -> (r: Stage)
        requires
            analyses@.len() == filter_count(st),
            analyses_distinct(analyses@),
        ensures
            is_optimized(r, st, analyses@),
    {
        let mut visitor = PrefilterUnwindsVisitor {};
        let mut analyses = analyses;
        visitor.optimize_stage(st, &mut analyses)
    }
}

} // verus!
