//! Top-down recursive descent over the trimmed source. Every non-atom
//! expression is parenthesized; the heads `fn`, `case`, `for` and `let` are
//! recognized, any other head is a declared function or a variable
//! reference. The contracts pin the parser down on three sides: the main
//! invariant, that every reference in what comes back resolves to a
//! declared name with the right arity; the shape side, that each step
//! returns the node its token dictates, with the atoms' success conditions
//! and values exact; and the error side, that every failure carries one of
//! the located messages with its hint of at most the leading 30 characters
//! of the remaining source.

use vstd::prelude::*;
use vstd::string::StrSliceExecFns;

use crate::declare::Declared;
use crate::expression::{spec_explained, Expression, ExpressionType};
use crate::util::{error_code, parse_i32, spec_found_at, spec_parse_int, split_first, str_eq};

verus! {

/// The set of names a list of parameter names declares.
pub open spec fn names_set(names: Seq<String>) -> Set<Seq<char>> {
    Set::new(|n: Seq<char>| exists|i: int| 0 <= i < names.len() && names[i]@ == n)
}

/// Every variable reference is a variable in scope, and every call names a
/// declared function with exactly as many arguments as declared. A `let`
/// extends the scope over its body, a `for` declares its induction
/// variable over its three subexpressions, and a function body sees only
/// its parameters and the functions, itself included.
pub open spec fn spec_resolved(
    e: Expression,
    vars: Set<Seq<char>>,
    fns: Map<Seq<char>, usize>,
) -> bool
    decreases e,
{
    match e {
        Expression::Value(_) => true,
        Expression::Str(_) => true,
        Expression::Var(name) => vars.contains(name@),
        Expression::Fn { name, args } => {
            &&& fns.contains_key(name@)
            &&& fns[name@] == args.len()
            &&& forall|i: int|
                0 <= i < args.len() ==> spec_resolved(#[trigger] args[i], vars, fns)
        },
        Expression::VarDef { name, init, expr } => {
            &&& spec_resolved(*init, vars, fns)
            &&& spec_resolved(*expr, vars.insert(name@), fns)
        },
        Expression::For { var, next_val, while_expr, expr } => {
            &&& spec_resolved(*next_val, vars.insert(var@), fns)
            &&& spec_resolved(*while_expr, vars.insert(var@), fns)
            &&& spec_resolved(*expr, vars.insert(var@), fns)
        },
        Expression::Case { condition, t, f } => {
            &&& spec_resolved(*condition, vars, fns)
            &&& spec_resolved(*t, vars, fns)
            &&& spec_resolved(*f, vars, fns)
        },
        Expression::FnDef { name, arguments, expr } => spec_resolved(
            *expr,
            names_set(arguments@),
            fns.insert(name@, arguments.len()),
        ),
    }
}

/// `m2` keeps every entry of `m1`.
pub open spec fn spec_fmap_extends(m1: Map<Seq<char>, usize>, m2: Map<Seq<char>, usize>) -> bool {
    forall|k: Seq<char>|
        #[trigger] m1.contains_key(k) ==> m2.contains_key(k) && m2[k] == m1[k]
}

/// Resolution survives declaring more functions: an expression resolved
/// under an arity map stays resolved under any extension of it.
pub proof fn lemma_resolved_mono(
    e: Expression,
    vars: Set<Seq<char>>,
    m1: Map<Seq<char>, usize>,
    m2: Map<Seq<char>, usize>,
)
    requires
        spec_resolved(e, vars, m1),
        spec_fmap_extends(m1, m2),
    ensures
        spec_resolved(e, vars, m2),
    decreases e,
{
    match e {
        Expression::Value(_) => {},
        Expression::Str(_) => {},
        Expression::Var(_) => {},
        Expression::Fn { name, args } => {
            assert forall|i: int| 0 <= i < args.len() implies spec_resolved(
                #[trigger] args[i],
                vars,
                m2,
            ) by {
                lemma_resolved_mono(args[i], vars, m1, m2);
            }
        },
        Expression::VarDef { name, init, expr } => {
            lemma_resolved_mono(*init, vars, m1, m2);
            lemma_resolved_mono(*expr, vars.insert(name@), m1, m2);
        },
        Expression::For { var, next_val, while_expr, expr } => {
            lemma_resolved_mono(*next_val, vars.insert(var@), m1, m2);
            lemma_resolved_mono(*while_expr, vars.insert(var@), m1, m2);
            lemma_resolved_mono(*expr, vars.insert(var@), m1, m2);
        },
        Expression::Case { condition, t, f } => {
            lemma_resolved_mono(*condition, vars, m1, m2);
            lemma_resolved_mono(*t, vars, m1, m2);
            lemma_resolved_mono(*f, vars, m1, m2);
        },
        Expression::FnDef { name, arguments, expr } => {
            assert(spec_fmap_extends(
                m1.insert(name@, arguments.len()),
                m2.insert(name@, arguments.len()),
            ));
            lemma_resolved_mono(
                *expr,
                names_set(arguments@),
                m1.insert(name@, arguments.len()),
                m2.insert(name@, arguments.len()),
            );
        },
    }
}

/// The delimiters that end a token: a space or a closing parenthesis.
pub open spec fn spec_expr_delims() -> Seq<char> {
    seq![' ', ')']
}

/// The one delimiter that ends a name in a definition head.
pub open spec fn spec_space_delim() -> Seq<char> {
    seq![' ']
}

/// The length of the token that starts the text: the position of its
/// first delimiter, or the whole length when none occurs.
pub open spec fn spec_token_end(s: Seq<char>, ds: Seq<char>) -> int
    decreases s.len(),
{
    if s.len() == 0 {
        0
    } else if ds.contains(s[0]) {
        0
    } else {
        1 + spec_token_end(s.drop_first(), ds)
    }
}

/// A first-delimiter position is the token end.
proof fn lemma_token_end_found(s: Seq<char>, ds: Seq<char>, i: int)
    requires
        spec_found_at(s, ds, i),
    ensures
        spec_token_end(s, ds) == i,
    decreases i,
{
    if i > 0 {
        assert(!ds.contains(s[0]));
        assert(spec_found_at(s.drop_first(), ds, i - 1)) by {
            assert(s.drop_first()[i - 1] == s[i]);
            assert forall|j: int| 0 <= j < i - 1 implies !ds.contains(
                #[trigger] s.drop_first()[j],
            ) by {
                assert(s.drop_first()[j] == s[j + 1]);
            }
        }
        lemma_token_end_found(s.drop_first(), ds, i - 1);
    }
}

/// With no delimiter anywhere the token is the whole text.
proof fn lemma_token_end_all(s: Seq<char>, ds: Seq<char>)
    requires
        forall|j: int| 0 <= j < s.len() ==> !ds.contains(s[j]),
    ensures
        spec_token_end(s, ds) == s.len(),
    decreases s.len(),
{
    if s.len() > 0 {
        assert forall|j: int| 0 <= j < s.drop_first().len() implies !ds.contains(
            #[trigger] s.drop_first()[j],
        ) by {
            assert(s.drop_first()[j] == s[j + 1]);
        }
        lemma_token_end_all(s.drop_first(), ds);
    }
}

/// Trimming is idempotent.
proof fn lemma_trim_idem(s: Seq<char>)
    ensures
        spec_trim(spec_trim(s)) == spec_trim(s),
    decreases s.len(),
{
    if s.len() > 0 && spec_is_space(s[0]) {
        lemma_trim_idem(s.drop_first());
    }
}

/// The name token of a definition head: skip the keyword, trim, and take
/// up to the first space.
pub open spec fn spec_def_head_name(t: Seq<char>, keyword_len: int) -> Seq<char> {
    let t2 = spec_trim(t.skip(keyword_len));
    t2.take(spec_token_end(t2, spec_space_delim()))
}

/// Every error of the parser family is one of the located message forms,
/// each of which embeds at most the leading 30 characters of the
/// remaining source as its hint.
pub open spec fn spec_located_err(m: Seq<char>) -> bool {
    ||| exists|k: ExpressionType, s: Seq<char>| m == #[trigger] spec_explained(k, s)
    ||| exists|s: Seq<char>| m == #[trigger] spec_parse_err_msg(s)
    ||| exists|n: Seq<char>, s: Seq<char>| m == #[trigger] spec_undeclared_msg(n, s)
    ||| exists|n: Seq<char>| m == #[trigger] crate::declare::spec_taken_msg(n)
    ||| exists|n: Seq<char>| m == #[trigger] crate::declare::spec_undeclare_msg(n)
}

/// A whitespace character of the surface syntax.
pub open spec fn spec_is_space(c: char) -> bool {
    c == ' ' || c == '\n' || c == '\t' || c == '\r'
}

/// The text with its leading whitespace dropped.
pub open spec fn spec_trim(s: Seq<char>) -> Seq<char>
    decreases s.len(),
{
    if s.len() > 0 && spec_is_space(s[0]) {
        spec_trim(s.drop_first())
    } else {
        s
    }
}

/// What the trim leaves never starts with whitespace.
proof fn lemma_trim_first(s: Seq<char>)
    ensures
        spec_trim(s).len() > 0 ==> !spec_is_space(spec_trim(s)[0]),
    decreases s.len(),
{
    if s.len() > 0 && spec_is_space(s[0]) {
        lemma_trim_first(s.drop_first());
    }
}

fn is_space(c: char) -> (r: bool)
    ensures
        r == spec_is_space(c),
{
    c == ' ' || c == '\n' || c == '\t' || c == '\r'
}

#[verifier::loop_isolation(false)]
fn trim_start_str(s: &str) -> (r: &str)
    ensures
        r@ == spec_trim(s@),
        r@.len() <= s@.len(),
{
    let n = s.unicode_len();
    let mut i: usize = 0;
    proof {
        assert(s@.skip(0) =~= s@);
    }
    while i < n && is_space(s.get_char(i))
        invariant
            i <= n,
            spec_trim(s@) == spec_trim(s@.skip(i as int)),
        decreases n - i,
    {
        proof {
            assert(s@.skip(i as int).drop_first() =~= s@.skip(i + 1));
        }
        i = i + 1;
    }
    let r = s.substring_char(i, n);
    proof {
        assert(r@ =~= s@.skip(i as int));
    }
    r
}

/// The position of the first delimiter, or the length when there is none.
#[verifier::loop_isolation(false)]
fn find_delim(s: &str, ds: &[char]) -> (k: usize)
    ensures
        k <= s@.len(),
        forall|j: int| 0 <= j < k ==> !ds@.contains(s@[j]),
        k < s@.len() ==> ds@.contains(s@[k as int]),
{
    let n = s.unicode_len();
    let mut i: usize = 0;
    while i < n
        invariant
            i <= n,
            forall|j: int| 0 <= j < i ==> !ds@.contains(s@[j]),
        decreases n - i,
    {
        if crate::util::char_in(ds, s.get_char(i)) {
            return i;
        }
        i = i + 1;
    }
    n
}

/// The message of a malformed or exhausted input.
pub open spec fn spec_parse_err_msg(s: Seq<char>) -> Seq<char> {
    "Parsing error: "@ + crate::expression::spec_error_code(s) + "..."@
}

fn parse_err(rest: &str) -> (r: String)
    ensures
        r@ == spec_parse_err_msg(rest@),
{
    let mut m = <String as vstd::string::StringExecFns>::from_str("Parsing error: ");
    <String as vstd::string::StringExecFns>::append(&mut m, error_code(rest));
    <String as vstd::string::StringExecFns>::append(&mut m, "...");
    m
}

/// The message of a reference to a name that is not declared.
pub open spec fn spec_undeclared_msg(name: Seq<char>, rest: Seq<char>) -> Seq<char> {
    "Variable '"@ + name + "' did not declared: "@ + crate::expression::spec_error_code(rest)
        + "..."@
}

fn undeclared_err(name: &str, rest: &str) -> (r: String)
    ensures
        r@ == spec_undeclared_msg(name@, rest@),
{
    let mut m = <String as vstd::string::StringExecFns>::from_str("Variable '");
    <String as vstd::string::StringExecFns>::append(&mut m, name);
    <String as vstd::string::StringExecFns>::append(&mut m, "' did not declared: ");
    <String as vstd::string::StringExecFns>::append(&mut m, error_code(rest));
    <String as vstd::string::StringExecFns>::append(&mut m, "...");
    m
}

/// A character literal: a single character between single quotes; its
/// value is the character's code.
fn parse_char<'a>(rem: &'a str) -> (r: Result<(Expression, &'a str), String>)
    ensures
        ({
            let t = spec_trim(rem@);
            &&& (r is Ok <==> t.len() >= 3 && t[0] == '\'' && t[2] == '\'')
            &&& (r matches Ok(v) ==> {
                &&& v.1@.len() < rem@.len()
                &&& v.0 == Expression::Value((t[1] as u32) as i32)
                &&& v.1@ == t.skip(3)
            })
            &&& (r matches Err(e) ==> e@ == spec_explained(ExpressionType::Char, t)
                && spec_located_err(e@))
        }),
{
    let t = trim_start_str(rem);
    let n = t.unicode_len();
    if n < 3 {
        return Err(ExpressionType::Char.to_explained_string(t));
    }
    if t.get_char(0) != '\'' || t.get_char(2) != '\'' {
        return Err(ExpressionType::Char.to_explained_string(t));
    }
    let chr = t.get_char(1);
    let rest = t.substring_char(3, n);
    proof {
        assert(rest@ =~= spec_trim(rem@).skip(3));
    }
    Ok((Expression::Value((chr as u32) as i32), rest))
}

/// A decimal integer literal, delimited by a space or a closing
/// parenthesis.
fn parse_num<'a>(rem: &'a str) -> (r: Result<(Expression, &'a str), String>)
    ensures
        ({
            let t = spec_trim(rem@);
            let k = spec_token_end(t, spec_expr_delims());
            &&& (r is Ok <==> k < t.len() && (spec_parse_int(t.take(k)) matches Some(value)
                && i32::MIN <= value <= i32::MAX))
            &&& (r matches Ok(v) ==> {
                &&& v.1@.len() < rem@.len()
                &&& v.1@ == t.skip(k)
                &&& (spec_parse_int(t.take(k)) matches Some(value) && v.0 == Expression::Value(
                    value as i32,
                ))
            })
            &&& (r matches Err(e) ==> e@ == spec_explained(ExpressionType::Number, t)
                && spec_located_err(e@))
        }),
{
    let t = trim_start_str(rem);
    let ds: [char; 2] = [' ', ')'];
    proof {
        assert(ds@ =~= spec_expr_delims());
    }
    let parts = match split_first(t, &ds, ExpressionType::Number) {
        Ok(p) => p,
        Err(e) => {
            proof {
                lemma_token_end_all(t@, spec_expr_delims());
            }
            return Err(e);
        },
    };
    proof {
        let i = choose|i: int|
            {
                &&& #[trigger] spec_found_at(t@, ds@, i)
                &&& parts.0@ == t@.take(i)
                &&& parts.1@ == t@.skip(i)
            };
        assert(spec_found_at(t@, spec_expr_delims(), i));
        lemma_token_end_found(t@, spec_expr_delims(), i);
    }
    match parse_i32(parts.0) {
        Some(value) => {
            proof {
                let k = spec_token_end(t@, spec_expr_delims());
                assert(k >= 1) by {
                    if k == 0 {
                        assert(spec_parse_int(t@.take(0)) is None);
                    }
                };
                assert(parts.1@.len() < rem@.len());
            }
            Ok((Expression::Value(value), parts.1))
        },
        None => Err(ExpressionType::Number.to_explained_string(t)),
    }
}

/// A string literal between double quotes, with no escapes.
fn parse_str<'a>(rem: &'a str) -> (r: Result<(Expression, &'a str), String>)
    ensures
        ({
            let t = spec_trim(rem@);
            &&& (r is Ok <==> t.len() >= 1 && t[0] == '"' && (exists|i: int|
                1 <= i < t.len() && #[trigger] t[i] == '"'))
            &&& (r matches Ok(v) ==> {
                &&& v.1@.len() < rem@.len()
                &&& exists|i: int|
                    {
                        &&& 1 <= i < t.len()
                        &&& t[i] == '"'
                        &&& (forall|j: int| 1 <= j < i ==> t[j] != '"')
                        &&& v.0 matches Expression::Str(lit) && lit@ == t.subrange(1, i)
                        &&& v.1@ == t.skip(i + 1)
                    }
            })
            &&& ((t.len() == 0 || t[0] != '"') ==> (r matches Err(e) && e@ == spec_explained(
                ExpressionType::Literal,
                t,
            )))
            &&& (t.len() >= 1 && t[0] == '"' && !(exists|i: int|
                1 <= i < t.len() && #[trigger] t[i] == '"') ==> (r matches Err(e) && e@
                == spec_explained(ExpressionType::Literal, t.skip(1))))
            &&& (r matches Err(e) ==> spec_located_err(e@))
        }),
{
    let t = trim_start_str(rem);
    let n = t.unicode_len();
    if n == 0 || t.get_char(0) != '"' {
        return Err(ExpressionType::Literal.to_explained_string(t));
    }
    let tail = t.substring_char(1, n);
    let qd: [char; 1] = ['"'];
    let parts = match split_first(tail, &qd, ExpressionType::Literal) {
        Ok(p) => p,
        Err(e) => {
            proof {
                assert(tail@ =~= t@.skip(1));
                if exists|i: int| 1 <= i < t@.len() && #[trigger] t@[i] == '"' {
                    let i = choose|i: int| 1 <= i < t@.len() && #[trigger] t@[i] == '"';
                    assert(qd@.contains(tail@[i - 1]));
                    assert(false);
                }
            }
            return Err(e);
        },
    };
    let lit = parts.0.to_owned();
    let after = parts.1;
    let an = after.unicode_len();
    let rest = after.substring_char(1, an);
    proof {
        let k = choose|k: int|
            {
                &&& #[trigger] spec_found_at(tail@, qd@, k)
                &&& parts.0@ == tail@.take(k)
                &&& parts.1@ == tail@.skip(k)
            };
        assert(tail@ =~= t@.skip(1));
        let i = k + 1;
        assert(t@[i] == '"');
        assert forall|j: int| 1 <= j < i implies t@[j] != '"' by {
            assert(tail@[j - 1] == t@[j]);
            if t@[j] == '"' {
                assert(qd@.contains(tail@[j - 1]));
            }
        }
        assert(lit@ =~= t@.subrange(1, i));
        assert(rest@ =~= t@.skip(i + 1));
    }
    Ok((Expression::Str(lit), rest))
}

proof fn lemma_names_set_push(names: Seq<String>, x: String)
    ensures
        names_set(names.push(x)) =~= names_set(names).insert(x@),
{
    let sa = names_set(names.push(x));
    let sb = names_set(names).insert(x@);
    assert forall|n: Seq<char>| #[trigger] sa.contains(n) implies sb.contains(n) by {
        let i = choose|i: int| 0 <= i < names.push(x).len() && names.push(x)[i]@ == n;
        if i < names.len() {
            assert(names[i]@ == n);
        }
    }
    assert forall|n: Seq<char>| #[trigger] sb.contains(n) implies sa.contains(n) by {
        if n == x@ {
            assert(names.push(x)[names.len() as int]@ == n);
        } else {
            let i = choose|i: int| 0 <= i < names.len() && names[i]@ == n;
            assert(names.push(x)[i]@ == n);
        }
    }
}

/// The parenthesized, whitespace-separated parameter names of a function
/// definition; each is declared as a variable of the new scope.
#[verifier::loop_isolation(false)]
fn parse_arg_names<'a>(rem: &'a str, declared: &mut Declared) -> (r: Result<
    (Vec<String>, &'a str),
    String,
>)
    requires
        old(declared).wf(),
    ensures
        final(declared).wf(),
        final(declared).fmap() == old(declared).fmap(),
        r matches Ok(v) ==> ({
            &&& v.1@.len() + 2 <= rem@.len()
            &&& final(declared).vset() == old(declared).vset().union(names_set(v.0@))
        }),
        ({
            let t = spec_trim(rem@);
            &&& ((t.len() == 0 || t[0] != '(') ==> (r matches Err(e) && e@ == spec_explained(
                ExpressionType::Args,
                t,
            )))
            &&& (t.len() >= 1 && t[0] == '(' && (forall|j: int|
                1 <= j < t.len() ==> t[j] != ')') ==> (r matches Err(e) && e@ == spec_explained(
                ExpressionType::Args,
                t.skip(1),
            )))
            &&& (r matches Err(e) ==> spec_located_err(e@))
        }),
{
    let t = trim_start_str(rem);
    let n = t.unicode_len();
    if n == 0 || t.get_char(0) != '(' {
        return Err(ExpressionType::Args.to_explained_string(t));
    }
    let tail = t.substring_char(1, n);
    let cd: [char; 1] = [')'];
    let parts = match split_first(tail, &cd, ExpressionType::Args) {
        Ok(p) => p,
        Err(e) => {
            proof {
                assert(tail@ =~= t@.skip(1));
            }
            return Err(e);
        },
    };
    proof {
        let i = choose|i: int|
            {
                &&& #[trigger] spec_found_at(tail@, cd@, i)
                &&& parts.0@ == tail@.take(i)
                &&& parts.1@ == tail@.skip(i)
            };
        assert(t@[i + 1] == ')');
    }
    let mut names: Vec<String> = Vec::new();
    let mut cur: &str = parts.0;
    let ghost v0 = old(declared).vset();
    proof {
        assert(v0.union(names_set(names@)) =~= v0);
    }
    loop
        invariant
            declared.wf(),
            declared.fmap() == old(declared).fmap(),
            declared.vset() == v0.union(names_set(names@)),
        decreases cur@.len(),
    {
        let c2 = trim_start_str(cur);
        if c2.unicode_len() == 0 {
            break;
        }
        let sp: [char; 4] = [' ', '\t', '\n', '\r'];
        let k = find_delim(c2, &sp);
        proof {
            lemma_trim_first(cur@);
            assert(k >= 1) by {
                if k == 0 {
                    let j = choose|j: int| 0 <= j < sp@.len() && sp@[j] == c2@[0];
                    assert(spec_is_space(c2@[0]));
                }
            };
        }
        let name = c2.substring_char(0, k);
        match declared.var_dec(name) {
            Err(e) => {
                return Err(e);
            },
            Ok(_) => {},
        }
        let ghost names_old = names@;
        names.push(name.to_owned());
        proof {
            lemma_names_set_push(names_old, names@[names@.len() - 1]);
            assert(declared.vset() =~= v0.union(names_set(names@)));
        }
        let cn = c2.unicode_len();
        cur = c2.substring_char(k, cn);
    }
    let after = parts.1;
    let an = after.unicode_len();
    let rest = after.substring_char(1, an);
    proof {
        let k = choose|k: int|
            {
                &&& #[trigger] spec_found_at(tail@, cd@, k)
                &&& parts.0@ == tail@.take(k)
                &&& parts.1@ == tail@.skip(k)
            };
        assert(rest@.len() + 2 <= rem@.len());
    }
    Ok((names, rest))
}

/// A function definition: `fn`, its name, its parameter list, and its body
/// parsed in a scope with no enclosing variables. The outer table gains the
/// new function and its arity.
#[verifier::loop_isolation(false)]
fn parse_fn_def<'a>(rem: &'a str, declared: &mut Declared) -> (r: Result<
    (Expression, &'a str),
    String,
>)
    requires
        old(declared).wf(),
    ensures
        final(declared).wf(),
        spec_fmap_extends(old(declared).fmap(), final(declared).fmap()),
        r matches Ok(v) ==> ({
            &&& v.1@.len() < rem@.len()
            &&& final(declared).vset() == old(declared).vset()
            &&& spec_resolved(v.0, final(declared).vset(), final(declared).fmap())
        }),
        r matches Ok(v) ==> ({
            let nm = spec_def_head_name(spec_trim(rem@), 2);
            &&& v.0 matches Expression::FnDef { name, arguments, expr }
            &&& (v.0 matches Expression::FnDef { name, arguments, expr } ==> {
                &&& name@ == nm
                &&& final(declared).fmap().contains_key(name@)
                &&& final(declared).fmap()[name@] == arguments.len()
                &&& spec_fmap_extends(
                    old(declared).fmap().insert(name@, arguments.len() as usize),
                    final(declared).fmap(),
                )
            })
        }),
        r matches Err(e) ==> spec_located_err(e@),
    decreases rem@.len(), 1int,
{
    let t = trim_start_str(rem);
    let n = t.unicode_len();
    if n < 2 {
        return Err(parse_err(t));
    }
    let t2 = trim_start_str(t.substring_char(2, n));
    let sp: [char; 1] = [' '];
    let parts = split_first(t2, &sp, ExpressionType::FnDef)?;
    let fn_name = parts.0;
    proof {
        assert(t2@ =~= spec_trim(spec_trim(rem@).skip(2)));
        let i = choose|i: int|
            {
                &&& #[trigger] spec_found_at(t2@, sp@, i)
                &&& parts.0@ == t2@.take(i)
                &&& parts.1@ == t2@.skip(i)
            };
        assert(sp@ =~= spec_space_delim());
        assert(spec_found_at(t2@, spec_space_delim(), i));
        lemma_token_end_found(t2@, spec_space_delim(), i);
        assert(fn_name@ == spec_def_head_name(spec_trim(rem@), 2));
    }
    let mut novar = declared.novar();
    let an = parse_arg_names(parts.1, &mut novar)?;
    let arg_names = an.0;
    match novar.fn_def(fn_name, arg_names.len()) {
        Err(e) => {
            return Err(e);
        },
        Ok(_) => {},
    }
    let ghost m_pre_body = novar.fmap();
    let body = parse_expr(an.1, &mut novar)?;
    declared.fns = novar.fns;
    let e = Expression::FnDef {
        name: fn_name.to_owned(),
        arguments: arg_names,
        expr: Box::new(body.0),
    };
    proof {
        let m = declared.fmap();
        assert(m_pre_body.contains_key(fn_name@));
        assert(m.contains_key(fn_name@) && m[fn_name@] == arg_names@.len());
        assert(m.insert(fn_name@, arg_names@.len() as usize) =~= m);
        assert(Set::<Seq<char>>::empty().union(names_set(arg_names@)) =~= names_set(arg_names@));
        assert forall|k: Seq<char>| #[trigger] old(declared).fmap().contains_key(
            k,
        ) implies m.contains_key(k) && m[k] == old(declared).fmap()[k] by {
            assert(m_pre_body.contains_key(k));
        }
    }
    Ok((e, body.1))
}

/// A `let`: the name, its initializer parsed outside the new scope, and the
/// body parsed with the name in scope; the name goes out of scope again.
#[verifier::loop_isolation(false)]
fn parse_var_def<'a>(rem: &'a str, declared: &mut Declared) -> (r: Result<
    (Expression, &'a str),
    String,
>)
    requires
        old(declared).wf(),
    ensures
        final(declared).wf(),
        spec_fmap_extends(old(declared).fmap(), final(declared).fmap()),
        r matches Ok(v) ==> ({
            &&& v.1@.len() < rem@.len()
            &&& final(declared).vset() == old(declared).vset()
            &&& spec_resolved(v.0, final(declared).vset(), final(declared).fmap())
        }),
        r matches Ok(v) ==> (v.0 matches Expression::VarDef { name, .. } && name@
            == spec_def_head_name(spec_trim(rem@), 3)),
        r matches Err(e) ==> spec_located_err(e@),
    decreases rem@.len(), 1int,
{
    let t = trim_start_str(rem);
    let n = t.unicode_len();
    if n < 3 {
        return Err(parse_err(t));
    }
    let t2 = trim_start_str(t.substring_char(3, n));
    let sp: [char; 1] = [' '];
    let parts = split_first(t2, &sp, ExpressionType::VarDef)?;
    let var_name = parts.0;
    proof {
        assert(t2@ =~= spec_trim(spec_trim(rem@).skip(3)));
        let i = choose|i: int|
            {
                &&& #[trigger] spec_found_at(t2@, sp@, i)
                &&& parts.0@ == t2@.take(i)
                &&& parts.1@ == t2@.skip(i)
            };
        assert(sp@ =~= spec_space_delim());
        assert(spec_found_at(t2@, spec_space_delim(), i));
        lemma_token_end_found(t2@, spec_space_delim(), i);
        assert(var_name@ == spec_def_head_name(spec_trim(rem@), 3));
    }
    let init = parse_expr(parts.1, declared)?;
    let ghost m_init = declared.fmap();
    match declared.var_dec(var_name) {
        Err(e) => {
            return Err(e);
        },
        Ok(_) => {},
    }
    let expr = parse_expr(init.1, declared)?;
    let ghost v_in = declared.vset();
    let ghost m_fin = declared.fmap();
    match declared.var_undec(var_name) {
        Err(e) => {
            return Err(e);
        },
        Ok(_) => {},
    }
    proof {
        assert(declared.vset() =~= old(declared).vset());
        lemma_resolved_mono(init.0, old(declared).vset(), m_init, m_fin);
        assert(v_in =~= declared.vset().insert(var_name@));
    }
    Ok(
        (
            Expression::VarDef {
                name: var_name.to_owned(),
                init: Box::new(init.0),
                expr: Box::new(expr.0),
            },
            expr.1,
        ),
    )
}

/// A `case`: the condition and the two branches.
#[verifier::loop_isolation(false)]
fn parse_case<'a>(rem: &'a str, declared: &mut Declared) -> (r: Result<
    (Expression, &'a str),
    String,
>)
    requires
        old(declared).wf(),
    ensures
        final(declared).wf(),
        spec_fmap_extends(old(declared).fmap(), final(declared).fmap()),
        r matches Ok(v) ==> ({
            &&& v.1@.len() < rem@.len()
            &&& final(declared).vset() == old(declared).vset()
            &&& spec_resolved(v.0, final(declared).vset(), final(declared).fmap())
        }),
        r matches Ok(v) ==> v.0 matches Expression::Case { .. },
        r matches Err(e) ==> spec_located_err(e@),
    decreases rem@.len(), 1int,
{
    let t = trim_start_str(rem);
    let n = t.unicode_len();
    if n < 4 {
        return Err(parse_err(t));
    }
    let sub = t.substring_char(4, n);
    let c = parse_expr(sub, declared)?;
    let ghost m_c = declared.fmap();
    let tt = parse_expr(c.1, declared)?;
    let ghost m_t = declared.fmap();
    let f = parse_expr(tt.1, declared)?;
    proof {
        lemma_resolved_mono(c.0, declared.vset(), m_c, declared.fmap());
        lemma_resolved_mono(tt.0, declared.vset(), m_t, declared.fmap());
    }
    Ok(
        (
            Expression::Case {
                condition: Box::new(c.0),
                t: Box::new(tt.0),
                f: Box::new(f.0),
            },
            f.1,
        ),
    )
}

/// A `for`: the induction variable, in scope over the three
/// subexpressions and gone afterwards.
#[verifier::loop_isolation(false)]
fn parse_for<'a>(rem: &'a str, declared: &mut Declared) -> (r: Result<
    (Expression, &'a str),
    String,
>)
    requires
        old(declared).wf(),
    ensures
        final(declared).wf(),
        spec_fmap_extends(old(declared).fmap(), final(declared).fmap()),
        r matches Ok(v) ==> ({
            &&& v.1@.len() < rem@.len()
            &&& final(declared).vset() == old(declared).vset()
            &&& spec_resolved(v.0, final(declared).vset(), final(declared).fmap())
        }),
        r matches Ok(v) ==> (v.0 matches Expression::For { var, .. } && var@
            == spec_def_head_name(spec_trim(rem@), 3)),
        r matches Err(e) ==> spec_located_err(e@),
    decreases rem@.len(), 1int,
{
    let t = trim_start_str(rem);
    let n = t.unicode_len();
    if n < 3 {
        return Err(parse_err(t));
    }
    let t2 = trim_start_str(t.substring_char(3, n));
    let sp: [char; 1] = [' '];
    let parts = split_first(t2, &sp, ExpressionType::For)?;
    let var = parts.0;
    proof {
        assert(t2@ =~= spec_trim(spec_trim(rem@).skip(3)));
        let i = choose|i: int|
            {
                &&& #[trigger] spec_found_at(t2@, sp@, i)
                &&& parts.0@ == t2@.take(i)
                &&& parts.1@ == t2@.skip(i)
            };
        assert(sp@ =~= spec_space_delim());
        assert(spec_found_at(t2@, spec_space_delim(), i));
        lemma_token_end_found(t2@, spec_space_delim(), i);
        assert(var@ == spec_def_head_name(spec_trim(rem@), 3));
    }
    match declared.var_dec(var) {
        Err(e) => {
            return Err(e);
        },
        Ok(_) => {},
    }
    let nv = parse_expr(parts.1, declared)?;
    let ghost m_nv = declared.fmap();
    let we = parse_expr(nv.1, declared)?;
    let ghost m_we = declared.fmap();
    let ex = parse_expr(we.1, declared)?;
    let ghost v_in = declared.vset();
    let ghost m_fin = declared.fmap();
    match declared.var_undec(var) {
        Err(e) => {
            return Err(e);
        },
        Ok(_) => {},
    }
    proof {
        assert(declared.vset() =~= old(declared).vset());
        assert(v_in =~= declared.vset().insert(var@));
        lemma_resolved_mono(nv.0, v_in, m_nv, m_fin);
        lemma_resolved_mono(we.0, v_in, m_we, m_fin);
    }
    Ok(
        (
            Expression::For {
                var: var.to_owned(),
                next_val: Box::new(nv.0),
                while_expr: Box::new(we.0),
                expr: Box::new(ex.0),
            },
            ex.1,
        ),
    )
}

/// A call of a declared function, consuming as many argument expressions
/// as its declared arity, or a reference to a variable in scope.
#[verifier::loop_isolation(false)]
fn parse_fn_or_var<'a>(rem: &'a str, declared: &mut Declared) -> (r: Result<
    (Expression, &'a str),
    String,
>)
    requires
        old(declared).wf(),
    ensures
        final(declared).wf(),
        spec_fmap_extends(old(declared).fmap(), final(declared).fmap()),
        r matches Ok(v) ==> ({
            &&& v.1@.len() < rem@.len()
            &&& final(declared).vset() == old(declared).vset()
            &&& spec_resolved(v.0, final(declared).vset(), final(declared).fmap())
        }),
        ({
            let t = spec_trim(rem@);
            let k = spec_token_end(t, spec_expr_delims());
            let name = t.take(k);
            let after = t.skip(k);
            &&& (k >= t.len() ==> (r matches Err(e) && e@ == spec_explained(
                ExpressionType::FnOrVar,
                t,
            )))
            &&& (k < t.len() && name.len() == 0 ==> (r matches Err(e) && e@
                == spec_undeclared_msg(name, after)))
            &&& (k < t.len() && name.len() > 0 && crate::declare::spec_fns_lookup(
                old(declared).fns@,
                name,
            ) is Some ==> (r matches Ok(v) ==> (v.0 matches Expression::Fn {
                name: nm,
                args,
            } && nm@ == name && args.len() == crate::declare::spec_fns_lookup(
                old(declared).fns@,
                name,
            )->Some_0)))
            &&& (k < t.len() && name.len() > 0 && crate::declare::spec_fns_lookup(
                old(declared).fns@,
                name,
            ) is None && old(declared).vset().contains(name) ==> (r matches Ok(v) && (
            v.0 matches Expression::Var(nm) && nm@ == name) && v.1@ == after))
            &&& (k < t.len() && name.len() > 0 && crate::declare::spec_fns_lookup(
                old(declared).fns@,
                name,
            ) is None && !old(declared).vset().contains(name) ==> (r matches Err(e) && e@
                == spec_undeclared_msg(name, after)))
        }),
        r matches Err(e) ==> spec_located_err(e@),
    decreases rem@.len(), 1int,
{
    let t = trim_start_str(rem);
    let ds: [char; 2] = [' ', ')'];
    let parts = match split_first(t, &ds, ExpressionType::FnOrVar) {
        Ok(p) => p,
        Err(e) => {
            proof {
                assert(ds@ =~= spec_expr_delims());
                lemma_token_end_all(t@, spec_expr_delims());
            }
            return Err(e);
        },
    };
    proof {
        assert(ds@ =~= spec_expr_delims());
        let i = choose|i: int|
            {
                &&& #[trigger] spec_found_at(t@, ds@, i)
                &&& parts.0@ == t@.take(i)
                &&& parts.1@ == t@.skip(i)
            };
        assert(spec_found_at(t@, spec_expr_delims(), i));
        lemma_token_end_found(t@, spec_expr_delims(), i);
    }
    let name = parts.0;
    let other = parts.1;
    if name.unicode_len() == 0 {
        return Err(undeclared_err(name, other));
    }
    proof {
        crate::declare::lemma_fns_lookup_map(declared.fns@, name@);
    }
    match declared.find_fn(name) {
        Some(args_count) => {
            let ghost m0 = declared.fmap();
            let mut args: Vec<Expression> = Vec::new();
            let mut cur: &str = other;
            let mut k: usize = 0;
            while k < args_count
                invariant
                    k <= args_count,
                    declared.wf(),
                    spec_fmap_extends(old(declared).fmap(), declared.fmap()),
                    declared.vset() == old(declared).vset(),
                    args@.len() == k,
                    forall|j: int|
                        0 <= j < k ==> spec_resolved(
                            #[trigger] args@[j],
                            declared.vset(),
                            declared.fmap(),
                        ),
                    cur@.len() < rem@.len(),
                decreases args_count - k,
            {
                let ghost m_before = declared.fmap();
                let a = match parse_expr(cur, declared) {
                    Err(e) => {
                        return Err(e);
                    },
                    Ok(a) => a,
                };
                proof {
                    assert forall|j: int| 0 <= j < k implies spec_resolved(
                        #[trigger] args@[j],
                        declared.vset(),
                        declared.fmap(),
                    ) by {
                        lemma_resolved_mono(args@[j], declared.vset(), m_before, declared.fmap());
                    }
                }
                args.push(a.0);
                cur = a.1;
                k = k + 1;
            }
            let e = Expression::Fn { name: name.to_owned(), args };
            proof {
                assert(old(declared).fmap().contains_key(name@));
                assert(declared.fmap().contains_key(name@) && declared.fmap()[name@]
                    == args_count);
            }
            Ok((e, cur))
        },
        None => {
            match declared.find_var(name) {
                Some(_) => {
                    proof {
                        assert(declared.vset().contains(name@));
                    }
                    Ok((Expression::Var(name.to_owned()), other))
                },
                None => Err(undeclared_err(name, other)),
            }
        },
    }
}

/// One expression: a parenthesized form, a character, string or integer
/// literal, one of the heads `fn`, `case`, `for` and `let`, or a function
/// call or variable reference.
#[verifier::loop_isolation(false)]
pub fn parse_expr<'a>(rem: &'a str, declared: &mut Declared) -> (r: Result<
    (Expression, &'a str),
    String,
>)
    requires
        old(declared).wf(),
    ensures
        final(declared).wf(),
        spec_fmap_extends(old(declared).fmap(), final(declared).fmap()),
        r matches Ok(v) ==> ({
            &&& v.1@.len() < rem@.len()
            &&& final(declared).vset() == old(declared).vset()
            &&& spec_resolved(v.0, final(declared).vset(), final(declared).fmap())
        }),
        r matches Err(e) ==> spec_located_err(e@),
        ({
            let t = spec_trim(rem@);
            let k = spec_token_end(t, spec_expr_delims());
            let token = t.take(k);
            &&& (t.len() == 0 ==> (r matches Err(e) && e@ == spec_parse_err_msg(t)))
            &&& (t.len() > 0 && t[0] == '\'' ==> ((r is Ok <==> t.len() >= 3 && t[2] == '\'')
                && (r matches Ok(v) ==> v.0 == Expression::Value((t[1] as u32) as i32) && v.1@
                == t.skip(3))))
            &&& (t.len() > 0 && t[0] == '"' ==> (r is Ok <==> exists|i: int|
                1 <= i < t.len() && #[trigger] t[i] == '"'))
            &&& (t.len() > 0 && t[0] != '(' && t[0] != '\'' && t[0] != '"' ==> {
                &&& (token == "fn"@ ==> (r matches Ok(v) ==> v.0 matches Expression::FnDef {
                    ..
                }))
                &&& (token == "case"@ ==> (r matches Ok(v) ==> v.0 matches Expression::Case {
                    ..
                }))
                &&& (token == "for"@ ==> (r matches Ok(v) ==> v.0 matches Expression::For { .. }))
                &&& (token == "let"@ ==> (r matches Ok(v) ==> v.0 matches Expression::VarDef {
                    ..
                }))
                &&& (token != "fn"@ && token != "case"@ && token != "for"@ && token != "let"@
                    && spec_parse_int(token) is Some && i32::MIN <= spec_parse_int(token)->Some_0
                    <= i32::MAX ==> ((r is Ok <==> k < t.len()) && (r matches Ok(v) ==> v.0
                    == Expression::Value(spec_parse_int(token)->Some_0 as i32) && v.1@ == t.skip(
                    k,
                ))))
            })
        }),
    decreases rem@.len(), 2int,
{
    let t = trim_start_str(rem);
    proof {
        lemma_trim_idem(rem@);
    }
    let n = t.unicode_len();
    if n == 0 {
        return Err(parse_err(t));
    }
    let c0 = t.get_char(0);
    if c0 == '(' {
        let inner = parse_expr(t.substring_char(1, n), declared)?;
        let t2 = trim_start_str(inner.1);
        let m2 = t2.unicode_len();
        if m2 == 0 {
            return Err(parse_err(t2));
        }
        let rest = t2.substring_char(1, m2);
        return Ok((inner.0, rest));
    }
    if c0 == '\'' {
        return parse_char(t);
    }
    if c0 == '"' {
        return parse_str(t);
    }
    let ds: [char; 2] = [' ', ')'];
    let k = find_delim(t, &ds);
    let token = t.substring_char(0, k);
    proof {
        assert(ds@ =~= spec_expr_delims());
        if k < t@.len() {
            assert(spec_found_at(t@, spec_expr_delims(), k as int));
            lemma_token_end_found(t@, spec_expr_delims(), k as int);
        } else {
            lemma_token_end_all(t@, spec_expr_delims());
        }
        assert(token@ =~= t@.take(spec_token_end(t@, spec_expr_delims())));
        reveal_strlit("fn");
        reveal_strlit("case");
        reveal_strlit("for");
        reveal_strlit("let");
        assert("for"@ != "let"@) by {
            assert("for"@[0] != "let"@[0]);
        }
    }
    if str_eq(token, "fn") {
        return parse_fn_def(t, declared);
    }
    if str_eq(token, "case") {
        return parse_case(t, declared);
    }
    if str_eq(token, "for") {
        return parse_for(t, declared);
    }
    if str_eq(token, "let") {
        return parse_var_def(t, declared);
    }
    if parse_i32(token).is_some() {
        return parse_num(t);
    }
    parse_fn_or_var(t, declared)
}

/// Parse a whole source text: newlines outside string literals become
/// spaces, then every leading parenthesized expression is parsed in turn.
/// Everything returned resolves to a declared name with the right arity
/// under the table as it stands afterwards.
#[verifier::loop_isolation(false)]
pub fn parse(input: String, std_declared: &mut Declared) -> (r: Result<Vec<Expression>, String>)
    requires
        old(std_declared).wf(),
    ensures
        final(std_declared).wf(),
        spec_fmap_extends(old(std_declared).fmap(), final(std_declared).fmap()),
        r matches Err(e) ==> spec_located_err(e@),
        ({
            let t0 = spec_trim(crate::util::spec_replace_n(input@));
            (t0.len() == 0 || t0[0] != '(') ==> (r matches Ok(exprs) && exprs@.len() == 0)
        }),
        r matches Ok(exprs) ==> ({
            &&& final(std_declared).vset() == old(std_declared).vset()
            &&& (exprs.len() == 0 ==> ({
                let t0 = spec_trim(crate::util::spec_replace_n(input@));
                t0.len() == 0 || t0[0] != '('
            }))
            &&& forall|i: int|
                0 <= i < exprs.len() ==> spec_resolved(
                    #[trigger] exprs[i],
                    final(std_declared).vset(),
                    final(std_declared).fmap(),
                )
        }),
{
    let text = crate::util::replace_n(input);
    let mut exprs: Vec<Expression> = Vec::new();
    let mut rest: &str = text.as_str();
    let mut t: &str = trim_start_str(rest);
    let ghost t0 = spec_trim(crate::util::spec_replace_n(input@));
    while t.unicode_len() > 0 && t.get_char(0) == '('
        invariant
            exprs@.len() == 0 ==> t@ == t0,
            (t0.len() == 0 || t0[0] != '(') ==> exprs@.len() == 0,
            std_declared.wf(),
            spec_fmap_extends(old(std_declared).fmap(), std_declared.fmap()),
            std_declared.vset() == old(std_declared).vset(),
            forall|i: int|
                0 <= i < exprs@.len() ==> spec_resolved(
                    #[trigger] exprs@[i],
                    std_declared.vset(),
                    std_declared.fmap(),
                ),
        decreases rest@.len(),
    {
        let ghost m_before = std_declared.fmap();
        let v = match parse_expr(rest, std_declared) {
            Err(e) => {
                return Err(e);
            },
            Ok(v) => v,
        };
        proof {
            assert forall|i: int| 0 <= i < exprs@.len() implies spec_resolved(
                #[trigger] exprs@[i],
                std_declared.vset(),
                std_declared.fmap(),
            ) by {
                lemma_resolved_mono(exprs@[i], std_declared.vset(), m_before, std_declared.fmap());
            }
        }
        exprs.push(v.0);
        rest = v.1;
        t = trim_start_str(rest);
    }
    Ok(exprs)
}

} // verus!
