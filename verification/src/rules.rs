use vstd::prelude::*;

verus! {

use vstd::string::StringExecFns;
use crate::cli::Alert;
use crate::error::RuleError;
use crate::hash::{u64_to_string, spec_dec_str};

/// The three condition lists of a rule: `any` conditions are combined
/// with OR, `all` conditions with AND, `not` conditions are negated.
#[derive(Debug, Clone)]
pub struct Conditions {
    pub any: Vec<String>,
    pub all: Vec<String>,
    pub not: Vec<String>,
}

/// One user-defined alerting rule: a name and its condition lists.
#[derive(Debug, Clone)]
pub struct Rule {
    pub rulename: String,
    pub conditions: Conditions,
}

/// The parts joined by the separator: empty for no parts, the sole part
/// for one, and each later part preceded by the separator.
pub open spec fn join_with(parts: Seq<Seq<char>>, sep: Seq<char>) -> Seq<char>
    decreases parts.len(),
{
    if parts.len() == 0 {
        Seq::empty()
    } else if parts.len() == 1 {
        parts[0]
    } else {
        join_with(parts.drop_last(), sep) + sep + parts.last()
    }
}

/// The predicate text of a rule's conditions, assembled by straight
/// concatenation: the `any` conditions joined by OR, directly followed
/// by the `all` conditions joined by AND, directly followed by the
/// `not` conditions joined by NOT. No combinator stands between the
/// groups; that unguarded concatenation is kept for compatibility with
/// deployed rule documents, and the typed expression builder below is
/// the corrected form.
pub open spec fn spec_predicate(c: Conditions) -> Seq<char> {
    join_with(c.any.deep_view(), " OR "@) + join_with(c.all.deep_view(), " AND "@) + join_with(
        c.not.deep_view(),
        " NOT "@,
    )
}

/// The full query text for a rule: a selection of every row of the
/// fixed virtual relation that satisfies the predicate.
pub open spec fn spec_query(c: Conditions) -> Seq<char> {
    "SELECT * FROM virtual_table WHERE "@ + spec_predicate(c)
}

/// Join condition strings with a separator.
fn join_conditions(parts: &Vec<String>, sep: &str) -> (r: String)
    ensures
        r@ == join_with(parts.deep_view(), sep@),
{
    let ghost vs: Seq<Seq<char>> = parts.deep_view();
    let mut s: String = String::new();
    let mut i: usize = 0;
    proof {
        assert(vs.take(0) =~= Seq::<Seq<char>>::empty());
    }
    while i < parts.len()
        invariant
            i <= parts@.len(),
            vs == parts.deep_view(),
            vs.len() == parts@.len(),
            s@ == join_with(vs.take(i as int), sep@),
        decreases parts@.len() - i,
    {
        proof {
            assert(vs.take(i as int + 1).drop_last() =~= vs.take(i as int));
            assert(vs.take(i as int + 1).last() == vs[i as int]);
            assert(parts@[i as int]@ == vs[i as int]);
        }
        if i > 0 {
            s.append(sep);
        }
        s.append(parts[i].as_str());
        i = i + 1;
    }
    proof {
        assert(vs.take(vs.len() as int) =~= vs);
    }
    s
}

/// Compile one rule into its query text. A rule with no condition in
/// any of its three lists is skipped: no query is emitted for it, so it
/// can trigger no execution and no alert.
pub fn compile_rule(rule: &Rule) -> (r: Option<String>)
    ensures
        (r is Some) == (rule.conditions.any@.len() > 0 || rule.conditions.all@.len() > 0
            || rule.conditions.not@.len() > 0),
        match r {
            Some(q) => q@ == spec_query(rule.conditions),
            None => true,
        },
{
    let c: &Conditions = &rule.conditions;
    if c.any.len() == 0 && c.all.len() == 0 && c.not.len() == 0 {
        return None;
    }
    let mut q: String = String::new();
    q.append("SELECT * FROM virtual_table WHERE ");
    let ja: String = join_conditions(&c.any, " OR ");
    q.append(ja.as_str());
    let jl: String = join_conditions(&c.all, " AND ");
    q.append(jl.as_str());
    let jn: String = join_conditions(&c.not, " NOT ");
    q.append(jn.as_str());
    proof {
        assert(q@ =~= spec_query(rule.conditions));
    }
    Some(q)
}

/// Whether the statement text parses under the generic SQL grammar. The
/// result depends on the text alone.
pub uninterp spec fn sql_parse_ok(s: Seq<char>) -> bool;

/// Relies on sqlparser's `Parser::parse_sql` with `GenericDialect`:
/// parsing a statement string is a pure function of the string, and the
/// call returns `Ok` exactly when the text is grammatical.
#[verifier::external_body]
fn parse_sql_ok(sql: &str) -> (r: bool)
    ensures
        r == sql_parse_ok(sql@),
{
    sqlparser::parser::Parser::parse_sql(&sqlparser::dialect::GenericDialect {}, sql).is_ok()
}

/// Validate a compiled query's syntax before execution: a text the SQL
/// grammar rejects is the rule's syntax error, and such a rule is
/// skipped without aborting the others.
pub fn validate_query(sql: &str) -> (r: Result<(), RuleError>)
    ensures
        match r {
            Ok(_) => sql_parse_ok(sql@),
            Err(e) => !sql_parse_ok(sql@) && e == RuleError::RuleSyntaxError,
        },
{
    if parse_sql_ok(sql) {
        Ok(())
    } else {
        Err(RuleError::RuleSyntaxError)
    }
}

/// The human-readable alert message for a match count.
pub open spec fn spec_alert_message(n: nat) -> Seq<char> {
    spec_dec_str(n) + " elements triggered alert"@
}

/// Produce the alert record for one rule's match count: an unnamed
/// alert carrying "N elements triggered alert". A rule that matched no
/// row still yields this record, with a zero count.
pub fn alert_for_count(count: u64) -> (a: Alert)
    ensures
        a.id is None,
        a.delete == false,
        match a.data {
            Some(m) => m@ == spec_alert_message(count as nat),
            None => false,
        },
{
    let mut s: String = u64_to_string(count);
    s.append(" elements triggered alert");
    Alert::new(None, Some(s))
}

/// A typed predicate expression: leaf comparison texts combined by AND,
/// OR and NOT nodes. Rendering inserts parentheses around every node,
/// so the combination carries no precedence ambiguity.
#[derive(Debug)]
pub enum Expr {
    Cond(String),
    And(Box<Expr>, Box<Expr>),
    Or(Box<Expr>, Box<Expr>),
    Not(Box<Expr>),
}

/// The rendered text of an expression, parenthesized at every node.
pub open spec fn spec_render(e: Expr) -> Seq<char>
    decreases e,
{
    match e {
        Expr::Cond(s) => "("@ + s@ + ")"@,
        Expr::And(a, b) => "("@ + spec_render(*a) + " AND "@ + spec_render(*b) + ")"@,
        Expr::Or(a, b) => "("@ + spec_render(*a) + " OR "@ + spec_render(*b) + ")"@,
        Expr::Not(a) => "(NOT "@ + spec_render(*a) + ")"@,
    }
}

/// Render an expression to query text.
pub fn render_expr(e: &Expr) -> (r: String)
    ensures
        r@ == spec_render(*e),
    decreases *e,
{
    match e {
        Expr::Cond(s) => {
            let mut out: String = String::new();
            out.append("(");
            out.append(s.as_str());
            out.append(")");
            proof {
                assert(out@ =~= spec_render(*e));
            }
            out
        },
        Expr::And(a, b) => {
            let ra: String = render_expr(&**a);
            let rb: String = render_expr(&**b);
            let mut out: String = String::new();
            out.append("(");
            out.append(ra.as_str());
            out.append(" AND ");
            out.append(rb.as_str());
            out.append(")");
            proof {
                assert(out@ =~= spec_render(*e));
            }
            out
        },
        Expr::Or(a, b) => {
            let ra: String = render_expr(&**a);
            let rb: String = render_expr(&**b);
            let mut out: String = String::new();
            out.append("(");
            out.append(ra.as_str());
            out.append(" OR ");
            out.append(rb.as_str());
            out.append(")");
            proof {
                assert(out@ =~= spec_render(*e));
            }
            out
        },
        Expr::Not(a) => {
            let ra: String = render_expr(&**a);
            let mut out: String = String::new();
            out.append("(NOT ");
            out.append(ra.as_str());
            out.append(")");
            proof {
                assert(out@ =~= spec_render(*e));
            }
            out
        },
    }
}

/// A parenthesized leaf condition.
pub open spec fn leaf_str(s: Seq<char>) -> Seq<char> {
    "("@ + s + ")"@
}

/// A negated, parenthesized leaf condition.
pub open spec fn not_str(s: Seq<char>) -> Seq<char> {
    "(NOT "@ + leaf_str(s) + ")"@
}

/// The OR-combination of the `any` conditions, folded left to right.
pub open spec fn or_chain(parts: Seq<Seq<char>>) -> Seq<char>
    recommends
        parts.len() > 0,
    decreases parts.len(),
{
    if parts.len() <= 1 {
        leaf_str(parts[0])
    } else {
        "("@ + or_chain(parts.drop_last()) + " OR "@ + leaf_str(parts.last()) + ")"@
    }
}

/// Extend an accumulated predicate with one further AND term.
pub open spec fn and_extend(acc: Option<Seq<char>>, t: Seq<char>) -> Seq<char> {
    match acc {
        Option::None => t,
        Option::Some(a) => "("@ + a + " AND "@ + t + ")"@,
    }
}

/// Fold condition texts into the accumulated predicate, one AND term
/// per condition, negating each term when asked.
pub open spec fn fold_and_terms(
    acc: Option<Seq<char>>,
    parts: Seq<Seq<char>>,
    negate: bool,
) -> Option<Seq<char>>
    decreases parts.len(),
{
    if parts.len() == 0 {
        acc
    } else {
        let t = if negate {
            not_str(parts[0])
        } else {
            leaf_str(parts[0])
        };
        fold_and_terms(Some(and_extend(acc, t)), parts.drop_first(), negate)
    }
}

/// The rendered text of the corrected, typed combination of a rule's
/// conditions: the OR-chain of `any`, each `all` condition as a further
/// AND term, and each `not` condition as a further negated AND term.
/// `None` exactly for a rule with no condition at all.
pub open spec fn spec_rule_expr_str(c: Conditions) -> Option<Seq<char>> {
    let acc0: Option<Seq<char>> = if c.any@.len() > 0 {
        Some(or_chain(c.any.deep_view()))
    } else {
        None
    };
    let acc1 = fold_and_terms(acc0, c.all.deep_view(), false);
    fold_and_terms(acc1, c.not.deep_view(), true)
}

/// The rendered text of an optional expression.
pub open spec fn opt_render(r: Option<Expr>) -> Option<Seq<char>> {
    match r {
        Option::None => None,
        Option::Some(e) => Some(spec_render(e)),
    }
}

/// Build the typed predicate expression of a rule's conditions: the
/// `any` conditions OR-combined, then every `all` condition and every
/// negated `not` condition AND-combined onto it. Yields an expression
/// exactly for a rule with at least one condition, and its rendering is
/// the corrected combination text.
pub fn build_rule_expr(c: &Conditions) -> (r: Option<Expr>)
    ensures
        (r is Some) == (c.any@.len() > 0 || c.all@.len() > 0 || c.not@.len() > 0),
        opt_render(r) == spec_rule_expr_str(*c),
{
    let ghost va: Seq<Seq<char>> = c.any.deep_view();
    let ghost vl: Seq<Seq<char>> = c.all.deep_view();
    let ghost vn: Seq<Seq<char>> = c.not.deep_view();
    let mut cur: Option<Expr> = None;
    if c.any.len() > 0 {
        proof {
            assert(c.any@[0]@ == va[0]);
            assert(va.take(1)[0] == va[0]);
        }
        let mut e: Expr = Expr::Cond(c.any[0].clone());
        proof {
            assert(spec_render(e) =~= or_chain(va.take(1)));
        }
        let mut i: usize = 1;
        while i < c.any.len()
            invariant
                1 <= i <= c.any@.len(),
                va == c.any.deep_view(),
                va.len() == c.any@.len(),
                spec_render(e) == or_chain(va.take(i as int)),
            decreases c.any@.len() - i,
        {
            proof {
                assert(va.take(i as int + 1).drop_last() =~= va.take(i as int));
                assert(va.take(i as int + 1).last() == va[i as int]);
                assert(c.any@[i as int]@ == va[i as int]);
            }
            let t: Expr = Expr::Cond(c.any[i].clone());
            proof {
                assert(spec_render(t) =~= leaf_str(va[i as int]));
            }
            let prev: Expr = e;
            e = Expr::Or(Box::new(prev), Box::new(t));
            proof {
                assert(spec_render(e) =~= or_chain(va.take(i as int + 1)));
            }
            i = i + 1;
        }
        proof {
            assert(va.take(va.len() as int) =~= va);
        }
        cur = Some(e);
    }
    let ghost acc0: Option<Seq<char>> = opt_render(cur);
    let mut j: usize = 0;
    proof {
        assert(vl.skip(0) =~= vl);
    }
    while j < c.all.len()
        invariant
            j <= c.all@.len(),
            vl == c.all.deep_view(),
            vl.len() == c.all@.len(),
            fold_and_terms(opt_render(cur), vl.skip(j as int), false) == fold_and_terms(
                acc0,
                vl,
                false,
            ),
            (cur is Some) == (acc0 is Some || j > 0),
        decreases c.all@.len() - j,
    {
        proof {
            assert(vl.skip(j as int)[0] == vl[j as int]);
            assert(vl.skip(j as int).drop_first() =~= vl.skip(j as int + 1));
            assert(c.all@[j as int]@ == vl[j as int]);
        }
        let t: Expr = Expr::Cond(c.all[j].clone());
        proof {
            assert(spec_render(t) =~= leaf_str(vl[j as int]));
        }
        let next: Expr = match cur {
            None => t,
            Some(a) => Expr::And(Box::new(a), Box::new(t)),
        };
        proof {
            assert(spec_render(next) =~= and_extend(opt_render(cur), leaf_str(vl[j as int])));
        }
        cur = Some(next);
        j = j + 1;
    }
    proof {
        assert(vl.skip(vl.len() as int) =~= Seq::<Seq<char>>::empty());
    }
    let ghost acc1: Option<Seq<char>> = opt_render(cur);
    let mut k: usize = 0;
    proof {
        assert(vn.skip(0) =~= vn);
    }
    while k < c.not.len()
        invariant
            k <= c.not@.len(),
            vn == c.not.deep_view(),
            vn.len() == c.not@.len(),
            fold_and_terms(opt_render(cur), vn.skip(k as int), true) == fold_and_terms(
                acc1,
                vn,
                true,
            ),
            (cur is Some) == (acc1 is Some || k > 0),
        decreases c.not@.len() - k,
    {
        proof {
            assert(vn.skip(k as int)[0] == vn[k as int]);
            assert(vn.skip(k as int).drop_first() =~= vn.skip(k as int + 1));
            assert(c.not@[k as int]@ == vn[k as int]);
        }
        let inner: Expr = Expr::Cond(c.not[k].clone());
        proof {
            assert(spec_render(inner) =~= leaf_str(vn[k as int]));
        }
        let t: Expr = Expr::Not(Box::new(inner));
        proof {
            assert(spec_render(t) =~= not_str(vn[k as int]));
        }
        let next: Expr = match cur {
            None => t,
            Some(a) => Expr::And(Box::new(a), Box::new(t)),
        };
        proof {
            assert(spec_render(next) =~= and_extend(opt_render(cur), not_str(vn[k as int])));
        }
        cur = Some(next);
        k = k + 1;
    }
    proof {
        assert(vn.skip(vn.len() as int) =~= Seq::<Seq<char>>::empty());
    }
    cur
}

} // verus!
