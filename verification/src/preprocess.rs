//! Hoists every function definition out of nested positions into a flat
//! list of top-level definitions, leaving the constant zero in its place,
//! so that the code generator never meets a nested function form.

use vstd::prelude::*;

use crate::expression::Expression;

verus! {

/// The program split into its function definitions and the rest.
#[derive(Debug)]
pub struct Preprocessed {
    pub fn_defs: Vec<Expression>,
    pub main: Vec<Expression>,
}

/// No function definition anywhere inside the expression.
pub open spec fn spec_no_fn_def(e: Expression) -> bool
    decreases e,
{
    match e {
        Expression::Value(_) => true,
        Expression::Str(_) => true,
        Expression::Var(_) => true,
        Expression::Fn { name, args } => forall|i: int|
            0 <= i < args.len() ==> spec_no_fn_def(#[trigger] args[i]),
        Expression::VarDef { name, init, expr } => spec_no_fn_def(*init) && spec_no_fn_def(*expr),
        Expression::For { var, next_val, while_expr, expr } => {
            &&& spec_no_fn_def(*next_val)
            &&& spec_no_fn_def(*while_expr)
            &&& spec_no_fn_def(*expr)
        },
        Expression::Case { condition, t, f } => {
            &&& spec_no_fn_def(*condition)
            &&& spec_no_fn_def(*t)
            &&& spec_no_fn_def(*f)
        },
        Expression::FnDef { .. } => false,
    }
}

/// A top-level function definition whose body holds no further definition.
pub open spec fn spec_flat_fn_def(e: Expression) -> bool {
    e matches Expression::FnDef { expr, .. } && spec_no_fn_def(*expr)
}

/// Hoisting, pinned exactly: `r` is `e` with every function definition
/// replaced by the integer zero and all other structure kept, and `defs`
/// is precisely the list of definitions lifted out of `e`, in emission
/// order (subexpressions left to right, inner definitions before the
/// definition that contains them), each with its own body flattened the
/// same way. For a given `e` this determines `r` and `defs` uniquely.
pub open spec fn spec_hoists_to(e: Expression, r: Expression, defs: Seq<Expression>) -> bool
    decreases e, 0int,
{
    match e {
        Expression::FnDef { name, arguments, expr } => {
            &&& r == Expression::Value(0)
            &&& defs.len() >= 1
            &&& (defs.last() matches Expression::FnDef { name: n2, arguments: a2, expr: body2 }
                && n2 == name && a2 == arguments && spec_hoists_to(*expr, *body2, defs.drop_last())
            )
        },
        Expression::Case { condition, t, f } => {
            &&& (r matches Expression::Case { condition: rc, t: rt, f: rf } && (exists|
                i: int,
                j: int,
            |
                #![trigger defs.take(i), defs.skip(j)]
                {
                    &&& 0 <= i <= j <= defs.len()
                    &&& spec_hoists_to(*condition, *rc, defs.take(i))
                    &&& spec_hoists_to(*t, *rt, defs.subrange(i, j))
                    &&& spec_hoists_to(*f, *rf, defs.skip(j))
                }))
        },
        Expression::For { var, next_val, while_expr, expr } => {
            &&& (r matches Expression::For {
                var: v2,
                next_val: rn,
                while_expr: rw,
                expr: re,
            } && v2 == var && (exists|i: int, j: int|
                #![trigger defs.take(i), defs.skip(j)]
                {
                    &&& 0 <= i <= j <= defs.len()
                    &&& spec_hoists_to(*next_val, *rn, defs.take(i))
                    &&& spec_hoists_to(*while_expr, *rw, defs.subrange(i, j))
                    &&& spec_hoists_to(*expr, *re, defs.skip(j))
                }))
        },
        Expression::Fn { name, args } => {
            &&& (r matches Expression::Fn { name: n2, args: rargs } && n2 == name && rargs.len()
                == args.len() && spec_hoists_list(args@, rargs@, 0, defs))
        },
        Expression::VarDef { name, init, expr } => {
            &&& (r matches Expression::VarDef { name: n2, init: ri, expr: re } && n2 == name && (
            exists|i: int|
                #![trigger defs.take(i)]
                {
                    &&& 0 <= i <= defs.len()
                    &&& spec_hoists_to(*init, *ri, defs.take(i))
                    &&& spec_hoists_to(*expr, *re, defs.skip(i))
                }))
        },
        Expression::Var(_) => r == e && defs.len() == 0,
        Expression::Str(_) => r == e && defs.len() == 0,
        Expression::Value(_) => r == e && defs.len() == 0,
    }
}

/// Elementwise hoisting of a list of expressions from position `pos` on:
/// `defs` splits into one consecutive segment per element.
pub open spec fn spec_hoists_list(
    es: Seq<Expression>,
    rs: Seq<Expression>,
    pos: int,
    defs: Seq<Expression>,
) -> bool
    decreases es, es.len() - pos,
{
    if pos < 0 || pos >= es.len() {
        defs.len() == 0
    } else {
        exists|k: int|
            #![trigger defs.take(k)]
            {
                &&& 0 <= k <= defs.len()
                &&& spec_hoists_to(es[pos], rs[pos], defs.take(k))
                &&& spec_hoists_list(es, rs, pos + 1, defs.skip(k))
            }
    }
}

/// Extending a hoisted list by one more element extends its definition
/// segments by that element's own.
proof fn lemma_hoists_list_snoc(
    es: Seq<Expression>,
    rs: Seq<Expression>,
    pos: int,
    defs: Seq<Expression>,
    e: Expression,
    r: Expression,
    gain: Seq<Expression>,
)
    requires
        0 <= pos <= es.len(),
        rs.len() == es.len(),
        spec_hoists_list(es, rs, pos, defs),
        spec_hoists_to(e, r, gain),
    ensures
        spec_hoists_list(es.push(e), rs.push(r), pos, defs + gain),
    decreases es.len() - pos,
{
    let es2 = es.push(e);
    let rs2 = rs.push(r);
    if pos >= es.len() {
        assert(defs.len() == 0);
        assert((defs + gain) =~= gain);
        assert(es2[pos] == e && rs2[pos] == r);
        assert((defs + gain).take(gain.len() as int) =~= gain);
        assert((defs + gain).skip(gain.len() as int).len() == 0);
        assert(spec_hoists_list(es2, rs2, pos + 1, (defs + gain).skip(gain.len() as int)));
    } else {
        let k = choose|k: int|
            {
                &&& 0 <= k <= defs.len()
                &&& spec_hoists_to(es[pos], rs[pos], #[trigger] defs.take(k))
                &&& spec_hoists_list(es, rs, pos + 1, defs.skip(k))
            };
        lemma_hoists_list_snoc(es, rs, pos + 1, defs.skip(k), e, r, gain);
        assert((defs + gain).take(k) =~= defs.take(k));
        assert((defs + gain).skip(k) =~= defs.skip(k) + gain);
        assert(es2[pos] == es[pos] && rs2[pos] == rs[pos]);
    }
}

/// Hoist every function definition out of the expression into
/// `preprocessed.fn_defs`, replacing it by the integer zero.
#[verifier::loop_isolation(false)]
#[verifier::rlimit(100)]
pub fn preprocess_expr(expression: Expression, preprocessed: &mut Preprocessed) -> (r: Expression)
    ensures
        spec_no_fn_def(r),
        spec_hoists_to(
            expression,
            r,
            final(preprocessed).fn_defs@.skip(old(preprocessed).fn_defs@.len() as int),
        ),
        final(preprocessed).main == old(preprocessed).main,
        old(preprocessed).fn_defs@.len() <= final(preprocessed).fn_defs@.len(),
        final(preprocessed).fn_defs@.take(old(preprocessed).fn_defs@.len() as int) == old(
            preprocessed,
        ).fn_defs@,
        forall|i: int|
            old(preprocessed).fn_defs@.len() <= i < final(preprocessed).fn_defs@.len()
                ==> spec_flat_fn_def(#[trigger] final(preprocessed).fn_defs@[i]),
    decreases expression,
{
    let ghost e0 = expression;
    match expression {
        Expression::FnDef { name, arguments, expr } => {
            let ghost base = old(preprocessed).fn_defs@.len() as int;
            let ghost body0 = *expr;
            let inner = preprocess_expr(*expr, preprocessed);
            let ghost inner0 = inner;
            let ghost mid = preprocessed.fn_defs@;
            preprocessed.fn_defs.push(
                Expression::FnDef { name, arguments, expr: Box::new(inner) },
            );
            proof {
                assert(preprocessed.fn_defs@.take(mid.len() as int) =~= mid);
                lemma_take_trans(old(preprocessed).fn_defs@, mid, preprocessed.fn_defs@);
                assert forall|i: int|
                    old(preprocessed).fn_defs@.len() <= i
                        < preprocessed.fn_defs@.len() implies spec_flat_fn_def(
                    #[trigger] preprocessed.fn_defs@[i],
                ) by {
                    if i < mid.len() {
                        assert(preprocessed.fn_defs@[i] == mid[i]);
                    }
                }
                let tail = preprocessed.fn_defs@.skip(base);
                assert(tail =~= mid.skip(base).push(preprocessed.fn_defs@.last()));
                assert(tail.drop_last() =~= mid.skip(base));
                assert(spec_hoists_to(body0, inner0, mid.skip(base)));
                assert(spec_hoists_to(e0, Expression::Value(0), tail));
            }
            Expression::Value(0)
        },
        Expression::Case { condition, t, f } => {
            let ghost base = old(preprocessed).fn_defs@.len() as int;
            let ghost c0 = *condition;
            let ghost t0 = *t;
            let ghost f0 = *f;
            let condition = Box::new(preprocess_expr(*condition, preprocessed));
            let ghost d1 = preprocessed.fn_defs@;
            let t = Box::new(preprocess_expr(*t, preprocessed));
            let ghost d2 = preprocessed.fn_defs@;
            let f = Box::new(preprocess_expr(*f, preprocessed));
            let result = Expression::Case { condition, t, f };
            proof {
                let df = preprocessed.fn_defs@;
                lemma_take_trans(old(preprocessed).fn_defs@, d1, d2);
                lemma_take_trans(old(preprocessed).fn_defs@, d2, df);
                lemma_take_trans(d1, d2, df);
                assert forall|i: int|
                    old(preprocessed).fn_defs@.len() <= i < df.len() implies spec_flat_fn_def(
                    #[trigger] df[i],
                ) by {
                    if i < d1.len() {
                        assert(df[i] == d2[i] && d2[i] == d1[i]);
                    } else if i < d2.len() {
                        assert(df[i] == d2[i]);
                    }
                }
                let tail = df.skip(base);
                let i = d1.len() - base;
                let j = d2.len() - base;
                assert(tail.take(i) =~= d1.skip(base));
                assert(tail.subrange(i, j) =~= d2.skip(d1.len() as int));
                assert(tail.skip(j) =~= df.skip(d2.len() as int));
                assert(spec_hoists_to(e0, result, tail));
            }
            result
        },
        Expression::For { var, next_val, while_expr, expr } => {
            let ghost base = old(preprocessed).fn_defs@.len() as int;
            let ghost n0 = *next_val;
            let ghost w0 = *while_expr;
            let ghost x0 = *expr;
            let next_val = Box::new(preprocess_expr(*next_val, preprocessed));
            let ghost d1 = preprocessed.fn_defs@;
            let while_expr = Box::new(preprocess_expr(*while_expr, preprocessed));
            let ghost d2 = preprocessed.fn_defs@;
            let expr = Box::new(preprocess_expr(*expr, preprocessed));
            let result = Expression::For { var, next_val, while_expr, expr };
            proof {
                let df = preprocessed.fn_defs@;
                lemma_take_trans(old(preprocessed).fn_defs@, d1, d2);
                lemma_take_trans(old(preprocessed).fn_defs@, d2, df);
                lemma_take_trans(d1, d2, df);
                assert forall|i: int|
                    old(preprocessed).fn_defs@.len() <= i < df.len() implies spec_flat_fn_def(
                    #[trigger] df[i],
                ) by {
                    if i < d1.len() {
                        assert(df[i] == d2[i] && d2[i] == d1[i]);
                    } else if i < d2.len() {
                        assert(df[i] == d2[i]);
                    }
                }
                let tail = df.skip(base);
                let i = d1.len() - base;
                let j = d2.len() - base;
                assert(tail.take(i) =~= d1.skip(base));
                assert(tail.subrange(i, j) =~= d2.skip(d1.len() as int));
                assert(tail.skip(j) =~= df.skip(d2.len() as int));
                assert(spec_hoists_to(e0, result, tail));
            }
            result
        },
        Expression::Fn { name, args } => {
            let ghost base = old(preprocessed).fn_defs@.len() as int;
            let mut rest = args;
            let ghost orig = rest@;
            let mut new_args: Vec<Expression> = Vec::new();
            proof {
                assert(orig.skip(0) =~= orig);
                assert(preprocessed.fn_defs@.skip(base).len() == 0);
            }
            while rest.len() > 0
                invariant
                    rest@.len() <= orig.len(),
                    rest@ == orig.skip(orig.len() - rest@.len()),
                    new_args@.len() + rest@.len() == orig.len(),
                    forall|j: int|
                        0 <= j < new_args@.len() ==> spec_no_fn_def(#[trigger] new_args@[j]),
                    preprocessed.main == old(preprocessed).main,
                    old(preprocessed).fn_defs@.len() <= preprocessed.fn_defs@.len(),
                    preprocessed.fn_defs@.take(old(preprocessed).fn_defs@.len() as int) == old(
                        preprocessed,
                    ).fn_defs@,
                    forall|i: int|
                        old(preprocessed).fn_defs@.len() <= i < preprocessed.fn_defs@.len()
                            ==> spec_flat_fn_def(#[trigger] preprocessed.fn_defs@[i]),
                    spec_hoists_list(
                        orig.take(new_args@.len() as int),
                        new_args@,
                        0,
                        preprocessed.fn_defs@.skip(base),
                    ),
                decreases rest@.len(),
            {
                let ghost k = orig.len() - rest@.len();
                let a = rest.remove(0);
                proof {
                    assert(a == orig[k]);
                    assert(rest@ =~= orig.skip(k + 1));
                }
                let ghost a0 = a;
                let ghost d_before = preprocessed.fn_defs@;
                let ghost args_before = new_args@;
                let b = preprocess_expr(a, preprocessed);
                let ghost b0 = b;
                new_args.push(b);
                proof {
                    lemma_take_trans(old(preprocessed).fn_defs@, d_before, preprocessed.fn_defs@);
                    assert forall|i: int|
                        old(preprocessed).fn_defs@.len() <= i
                            < preprocessed.fn_defs@.len() implies spec_flat_fn_def(
                        #[trigger] preprocessed.fn_defs@[i],
                    ) by {
                        if i < d_before.len() {
                            assert(preprocessed.fn_defs@[i] == d_before[i]);
                        }
                    }
                    let gain = preprocessed.fn_defs@.skip(d_before.len() as int);
                    lemma_hoists_list_snoc(
                        orig.take(k),
                        args_before,
                        0,
                        d_before.skip(base),
                        a0,
                        b0,
                        gain,
                    );
                    assert(orig.take(k).push(a0) =~= orig.take(k + 1));
                    assert(new_args@ == args_before.push(b0));
                    assert((d_before.skip(base) + gain) =~= preprocessed.fn_defs@.skip(base));
                }
            }
            proof {
                assert(orig.take(new_args@.len() as int) =~= orig);
            }
            let result = Expression::Fn { name, args: new_args };
            proof {
                assert(spec_hoists_to(e0, result, preprocessed.fn_defs@.skip(base)));
            }
            result
        },
        Expression::VarDef { name, init, expr } => {
            let ghost base = old(preprocessed).fn_defs@.len() as int;
            let ghost i0 = *init;
            let ghost x0 = *expr;
            let init = Box::new(preprocess_expr(*init, preprocessed));
            let ghost d1 = preprocessed.fn_defs@;
            let expr = Box::new(preprocess_expr(*expr, preprocessed));
            let result = Expression::VarDef { name, init, expr };
            proof {
                let df = preprocessed.fn_defs@;
                lemma_take_trans(old(preprocessed).fn_defs@, d1, df);
                assert forall|i: int|
                    old(preprocessed).fn_defs@.len() <= i < df.len() implies spec_flat_fn_def(
                    #[trigger] df[i],
                ) by {
                    if i < d1.len() {
                        assert(df[i] == d1[i]);
                    }
                }
                let tail = df.skip(base);
                let i = d1.len() - base;
                assert(tail.take(i) =~= d1.skip(base));
                assert(tail.skip(i) =~= df.skip(d1.len() as int));
                assert(spec_hoists_to(e0, result, tail));
            }
            result
        },
        Expression::Var(s) => {
            proof {
                assert(preprocessed.fn_defs@.skip(old(preprocessed).fn_defs@.len() as int).len()
                    == 0);
            }
            Expression::Var(s)
        },
        Expression::Str(s) => {
            proof {
                assert(preprocessed.fn_defs@.skip(old(preprocessed).fn_defs@.len() as int).len()
                    == 0);
            }
            Expression::Str(s)
        },
        Expression::Value(v) => {
            proof {
                assert(preprocessed.fn_defs@.skip(old(preprocessed).fn_defs@.len() as int).len()
                    == 0);
            }
            Expression::Value(v)
        },
    }
}

/// Prefix preservation composes across successive extensions of the
/// hoisted list.
proof fn lemma_take_trans(d0: Seq<Expression>, d1: Seq<Expression>, d2: Seq<Expression>)
    requires
        d0.len() <= d1.len() <= d2.len(),
        d1.take(d0.len() as int) == d0,
        d2.take(d1.len() as int) == d1,
    ensures
        d2.take(d0.len() as int) == d0,
{
    assert(d2.take(d0.len() as int) =~= d1.take(d0.len() as int));
}

/// Split a program into its hoisted function definitions and the remaining
/// top-level expressions. The hoisting relation pins the result exactly:
/// `main` is the program with each definition replaced by zero, structure
/// otherwise kept, and `fn_defs` is precisely the definitions hoisted out
/// of each expression in turn; no definition is left anywhere inside
/// either.
#[verifier::loop_isolation(false)]
pub fn preprocess(program: Vec<Expression>) -> (r: Preprocessed)
    ensures
        r.main@.len() == program@.len(),
        spec_hoists_list(program@, r.main@, 0, r.fn_defs@),
        forall|i: int| 0 <= i < r.main@.len() ==> spec_no_fn_def(#[trigger] r.main@[i]),
        forall|i: int| 0 <= i < r.fn_defs@.len() ==> spec_flat_fn_def(#[trigger] r.fn_defs@[i]),
{
    let mut preprocessed = Preprocessed { fn_defs: Vec::new(), main: Vec::new() };
    let mut rest = program;
    let ghost orig = rest@;
    let mut main: Vec<Expression> = Vec::new();
    proof {
        assert(orig.skip(0) =~= orig);
    }
    while rest.len() > 0
        invariant
            rest@ == orig.skip(orig.len() - rest@.len()),
            main@.len() + rest@.len() == orig.len(),
            preprocessed.main@.len() == 0,
            forall|j: int| 0 <= j < main@.len() ==> spec_no_fn_def(#[trigger] main@[j]),
            forall|i: int|
                0 <= i < preprocessed.fn_defs@.len() ==> spec_flat_fn_def(
                    #[trigger] preprocessed.fn_defs@[i],
                ),
            spec_hoists_list(
                orig.take(main@.len() as int),
                main@,
                0,
                preprocessed.fn_defs@,
            ),
        decreases rest@.len(),
    {
        let ghost k = orig.len() - rest@.len();
        let a = rest.remove(0);
        proof {
            assert(a == orig[k]);
            assert(rest@ =~= orig.skip(k + 1));
        }
        let ghost a0 = a;
        let ghost d_before = preprocessed.fn_defs@;
        let ghost main_before = main@;
        let b = preprocess_expr(a, &mut preprocessed);
        let ghost b0 = b;
        main.push(b);
        proof {
            assert forall|i: int|
                0 <= i < preprocessed.fn_defs@.len() implies spec_flat_fn_def(
                #[trigger] preprocessed.fn_defs@[i],
            ) by {
                if i < d_before.len() {
                    assert(preprocessed.fn_defs@.take(d_before.len() as int)[i]
                        == preprocessed.fn_defs@[i]);
                }
            }
            let gain = preprocessed.fn_defs@.skip(d_before.len() as int);
            lemma_hoists_list_snoc(orig.take(k), main_before, 0, d_before, a0, b0, gain);
            assert(orig.take(k).push(a0) =~= orig.take(k + 1));
            assert(main@ == main_before.push(b0));
            assert((d_before + gain) =~= preprocessed.fn_defs@);
        }
    }
    proof {
        assert(orig.take(main@.len() as int) =~= orig);
    }
    preprocessed.main = main;
    preprocessed
}

} // verus!
