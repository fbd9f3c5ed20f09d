//! The bundled standard prelude: the primitive functions the compiler
//! knows (arithmetic, a character read, a character write) and a small
//! library written in the surface language itself.

use vstd::prelude::*;

use crate::declare::Declared;
use crate::expression::Expression;
use crate::parser::{parse, spec_fmap_extends, spec_resolved};
use crate::preprocess::{preprocess, spec_no_fn_def, Preprocessed};

verus! {

/// The declaration table of the prelude: the arithmetic primitives take
/// two arguments, `readc` none, `printc` one.
pub fn declared_std() -> (r: Declared)
    ensures
        r.wf(),
        r.vset() == Set::<Seq<char>>::empty(),
        r.fmap() == Map::<Seq<char>, usize>::empty().insert("+"@, 2usize).insert(
            "-"@,
            2usize,
        ).insert("*"@, 2usize).insert("/"@, 2usize).insert("%"@, 2usize).insert(
            "readc"@,
            0usize,
        ).insert("printc"@, 1usize),
{
    proof {
        reveal_strlit("+");
        reveal_strlit("-");
        reveal_strlit("*");
        reveal_strlit("/");
        reveal_strlit("%");
        reveal_strlit("readc");
        reveal_strlit("printc");
        assert("+"@ != "-"@) by {
            assert("+"@[0] != "-"@[0]);
        }
        assert("+"@ != "*"@) by {
            assert("+"@[0] != "*"@[0]);
        }
        assert("+"@ != "/"@) by {
            assert("+"@[0] != "/"@[0]);
        }
        assert("+"@ != "%"@) by {
            assert("+"@[0] != "%"@[0]);
        }
        assert("-"@ != "*"@) by {
            assert("-"@[0] != "*"@[0]);
        }
        assert("-"@ != "/"@) by {
            assert("-"@[0] != "/"@[0]);
        }
        assert("-"@ != "%"@) by {
            assert("-"@[0] != "%"@[0]);
        }
        assert("*"@ != "/"@) by {
            assert("*"@[0] != "/"@[0]);
        }
        assert("*"@ != "%"@) by {
            assert("*"@[0] != "%"@[0]);
        }
        assert("/"@ != "%"@) by {
            assert("/"@[0] != "%"@[0]);
        }
    }
    let mut declared = Declared::new();
    let r1 = declared.fn_def("+", 2);
    proof {
        assert(r1 is Ok);
    }
    let r2 = declared.fn_def("-", 2);
    proof {
        assert(r2 is Ok);
    }
    let r3 = declared.fn_def("*", 2);
    proof {
        assert(r3 is Ok);
    }
    let r4 = declared.fn_def("/", 2);
    proof {
        assert(r4 is Ok);
    }
    let r5 = declared.fn_def("%", 2);
    proof {
        assert(r5 is Ok);
    }
    let r6 = declared.fn_def("readc", 0);
    proof {
        assert(r6 is Ok);
    }
    let r7 = declared.fn_def("printc", 1);
    proof {
        assert(r7 is Ok);
    }
    declared
}

/// Parse the prelude's own source on top of the primitive declarations:
/// either exactly its two function definitions, or nothing when the
/// bundled source fails to parse or does not come back as two
/// definitions. Everything returned resolves under the returned table,
/// which always keeps the primitive arities.
pub fn parse_std() -> (r: (Vec<Expression>, Declared))
    ensures
        r.1.wf(),
        spec_fmap_extends(
            Map::<Seq<char>, usize>::empty().insert("+"@, 2usize).insert("-"@, 2usize).insert(
                "*"@,
                2usize,
            ).insert("/"@, 2usize).insert("%"@, 2usize).insert("readc"@, 0usize).insert(
                "printc"@,
                1usize,
            ),
            r.1.fmap(),
        ),
        r.0@.len() == 0 || r.0@.len() == 2,
        forall|i: int|
            0 <= i < r.0@.len() ==> (#[trigger] r.0@[i]) matches Expression::FnDef { .. },
        forall|i: int|
            0 <= i < r.0@.len() ==> spec_resolved(#[trigger] r.0@[i], r.1.vset(), r.1.fmap()),
{
    let mut declared = declared_std();
    let std_nl = <String as vstd::string::StringExecFns>::from_str(
        "(fn neg (x) (- 0 x)) (fn not (x) (case x 0 1))",
    );
    match parse(std_nl, &mut declared) {
        Ok(exprs) => {
            if exprs.len() == 2 && matches!(exprs[0], Expression::FnDef { .. }) && matches!(
                exprs[1],
                Expression::FnDef { .. },
            ) {
                (exprs, declared)
            } else {
                (Vec::new(), declared)
            }
        },
        Err(_) => (Vec::new(), declared),
    }
}

/// Parse a program on top of the prelude, hoist its function definitions,
/// and put the prelude's own definitions in front of them. On success the
/// result is pinned up to the parse: the definition list is the prelude's
/// definitions followed by exactly the definitions hoisted out of the
/// parsed program, and `main` is that program with each definition
/// replaced by zero; in particular no definition is left inside `main`.
pub fn preprocessed_expressions(input_str: String) -> (r: Result<Preprocessed, String>)
    ensures
        r matches Ok(p) ==> forall|i: int|
            0 <= i < p.main@.len() ==> spec_no_fn_def(#[trigger] p.main@[i]),
        r matches Ok(p) ==> exists|es: Seq<Expression>, nstd: int|
            {
                &&& 0 <= nstd <= p.fn_defs@.len()
                &&& #[trigger] crate::preprocess::spec_hoists_list(
                    es,
                    p.main@,
                    0,
                    p.fn_defs@.skip(nstd),
                )
                &&& forall|i: int|
                    0 <= i < nstd ==> (#[trigger] p.fn_defs@[i]) matches Expression::FnDef { .. }
            },
        r matches Err(e) ==> crate::parser::spec_located_err(e@),
{
    let std = parse_std();
    let mut std_expressions = std.0;
    let mut std_declared = std.1;
    let expressions = match parse(input_str, &mut std_declared) {
        Ok(e) => e,
        Err(e) => {
            return Err(e);
        },
    };
    let ghost es0 = expressions@;
    let mut preprocessed = preprocess(expressions);
    let ghost hoisted = preprocessed.fn_defs@;
    let ghost nstd = std_expressions@.len() as int;
    let ghost std0 = std_expressions@;
    std_expressions.append(&mut preprocessed.fn_defs);
    preprocessed.fn_defs = std_expressions;
    proof {
        assert(preprocessed.fn_defs@ =~= std0 + hoisted);
        assert(preprocessed.fn_defs@.skip(nstd) =~= hoisted);
        assert(crate::preprocess::spec_hoists_list(
            es0,
            preprocessed.main@,
            0,
            preprocessed.fn_defs@.skip(nstd),
        ));
        assert forall|i: int| 0 <= i < nstd implies (#[trigger] preprocessed.fn_defs@[i]) matches Expression::FnDef {
            ..
        } by {
            assert(preprocessed.fn_defs@[i] == std0[i]);
        }
    }
    let result: Result<Preprocessed, String> = Ok(preprocessed);
    proof {
        let p = result->Ok_0;
        assert(crate::preprocess::spec_hoists_list(es0, p.main@, 0, p.fn_defs@.skip(nstd)));
        assert(exists|es: Seq<Expression>, n2: int|
            {
                &&& 0 <= n2 <= p.fn_defs@.len()
                &&& #[trigger] crate::preprocess::spec_hoists_list(
                    es,
                    p.main@,
                    0,
                    p.fn_defs@.skip(n2),
                )
                &&& forall|i: int|
                    0 <= i < n2 ==> (#[trigger] p.fn_defs@[i]) matches Expression::FnDef { .. }
            });
    }
    result
}

} // verus!
