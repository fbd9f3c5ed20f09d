//! The code generator: walks the AST and emits 32-bit instruction words and
//! a growing data segment, tracking each variable's location and rebasing
//! every stack-relative offset whenever emitted code shifts the stack
//! pointer. The packaging step prepends the 12-byte header and concatenates
//! data and instructions into one byte stream.
//!
//! All size and offset arithmetic wraps, exactly as the emitted fields do.

use vstd::prelude::*;

use crate::expression::Expression;
use crate::preprocess::Preprocessed;
use crate::util::str_eq;

verus! {

/// Where a name lives: an absolute data address, a byte offset above the
/// stack pointer, or an immediate held in the instruction word itself.
#[derive(Clone, Copy, Debug, PartialEq, Eq, Structural)]
pub enum Var {
    Memory(u16),
    Stack(u16),
    InWord(u16),
}

impl Var {
    /// The location encoded into an instruction's argument and
    /// addressing-mode bits.
    pub open spec fn spec_to_arg(self) -> u32 {
        match self {
            Var::Memory(arg) => arg as u32,
            Var::Stack(arg) => (arg as u32) | 0x0040_0000u32,
            Var::InWord(arg) => (arg as u32) | 0x0080_0000u32,
        }
    }

    pub fn to_arg(&self) -> (r: u32)
        ensures
            r == self.spec_to_arg(),
    {
        match self {
            Var::Memory(arg) => *arg as u32,
            Var::Stack(arg) => (*arg as u32) | 0x0040_0000u32,
            Var::InWord(arg) => (*arg as u32) | 0x0080_0000u32,
        }
    }
}

/// The first binding of the name in the variable table.
pub open spec fn vt_lookup(vars: Seq<(String, Var)>, name: Seq<char>) -> Option<Var>
    decreases vars.len(),
{
    if vars.len() == 0 {
        None
    } else if vars[0].0@ == name {
        Some(vars[0].1)
    } else {
        vt_lookup(vars.drop_first(), name)
    }
}

/// The table without the first binding of the name.
pub open spec fn vt_remove(vars: Seq<(String, Var)>, name: Seq<char>) -> Seq<(String, Var)>
    decreases vars.len(),
{
    if vars.len() == 0 {
        vars
    } else if vars[0].0@ == name {
        vars.drop_first()
    } else {
        seq![vars[0]] + vt_remove(vars.drop_first(), name)
    }
}

/// A stack-resident location shifted by `delta` bytes, upward or downward.
pub open spec fn spec_rebase_var(v: Var, delta: u16, up: bool) -> Var {
    match v {
        Var::Stack(n) => Var::Stack(
            if up {
                n.wrapping_add(delta)
            } else {
                n.wrapping_sub(delta)
            },
        ),
        _ => v,
    }
}

/// The whole table rebased: every stack-resident binding shifts, the rest
/// stay.
pub open spec fn vt_rebase(vars: Seq<(String, Var)>, delta: u16, up: bool) -> Seq<(String, Var)> {
    vars.map_values(|p: (String, Var)| (p.0, spec_rebase_var(p.1, delta, up)))
}

/// The first address of the name in the function-address table.
pub open spec fn spec_addr_lookup(fns: Seq<(String, u16)>, name: Seq<char>) -> Option<u16>
    decreases fns.len(),
{
    if fns.len() == 0 {
        None
    } else if fns[0].0@ == name {
        Some(fns[0].1)
    } else {
        spec_addr_lookup(fns.drop_first(), name)
    }
}

/// The four little-endian bytes of a 32-bit word.
pub open spec fn spec_le4(w: u32) -> Seq<u8> {
    seq![
        (w & 0xFF) as u8,
        ((w >> 8u32) & 0xFF) as u8,
        ((w >> 16u32) & 0xFF) as u8,
        ((w >> 24u32) & 0xFF) as u8,
    ]
}

/// An instruction stream as its little-endian byte stream.
pub open spec fn spec_words_le(ws: Seq<u32>) -> Seq<u8>
    decreases ws.len(),
{
    if ws.len() == 0 {
        Seq::<u8>::empty()
    } else {
        spec_words_le(ws.drop_last()) + spec_le4(ws.last())
    }
}

/// The parameter table of a function body: the i-th parameter, counted
/// from the end, lives `4 * (i + 1)` bytes above the stack pointer, so the
/// first argument sits deepest — exactly as the caller filled the slots.
pub open spec fn spec_fn_vars(arguments: Seq<String>) -> Seq<(String, Var)> {
    Seq::new(
        arguments.len(),
        |j: int|
            (
                arguments[j],
                Var::Stack(
                    crate::compiler::mul4_u16((arguments.len() - j) as u16),
                ),
            ),
    )
}

/// A 16-bit offset times four, wrapping.
pub open spec fn mul4_u16(n: u16) -> u16 {
    vstd::wrapping::u16_specs::wrapping_mul(n, 4)
}

/// What the code generator emits for one expression: the instruction
/// words, the variable table and the data segment as it leaves them. None
/// when a name has no binding or a called function no address.
pub open spec fn spec_translate(
    e: Expression,
    vars: Seq<(String, Var)>,
    fns: Seq<(String, u16)>,
    data: Seq<u8>,
) -> Option<(Seq<u32>, Seq<(String, Var)>, Seq<u8>)>
    decreases e, 0int,
{
    match e {
        Expression::FnDef { name, arguments, expr } => {
            match spec_translate(*expr, spec_fn_vars(arguments@), fns, data) {
                Some((body, _, data2)) => Some((body.push(0x0B000000u32), vars, data2)),
                None => None,
            }
        },
        Expression::Case { condition, t, f } => {
            match spec_translate(*condition, vars, fns, data) {
                Some((ci, v1, d1)) => match spec_translate(*t, v1, fns, d1) {
                    Some((ti, v2, d2)) => match spec_translate(*f, v2, fns, d2) {
                        Some((fi, v3, d3)) => {
                            let ti2 = ti.push(
                                (0x08000000u32).wrapping_add(
                                    (fi.len() as u32).wrapping_add(1),
                                ),
                            );
                            let ci2 = ci.push(
                                (0x09000000u32).wrapping_add(
                                    (ti2.len() as u32).wrapping_add(1),
                                ),
                            );
                            Some((ci2 + ti2 + fi, v3, d3))
                        },
                        None => None,
                    },
                    None => None,
                },
                None => None,
            }
        },
        Expression::For { var, next_val, while_expr, expr } => {
            let addr = (data.len() as u16).wrapping_add(12);
            let vars1 = seq![(var, Var::Memory(addr))] + vars;
            let data1 = data + seq![0u8, 0u8, 0u8, 0u8];
            match vt_lookup(vars1, var@) {
                None => None,
                Some(bv0) => {
            let head = seq![
                0x0D800000u32,
                0x0E000000u32 | bv0.spec_to_arg(),
                0x0C80FFFCu32,
                0x0E400000u32,
            ];
            let vars2 = vt_rebase(vars1, 4, true);
            match spec_translate(*next_val, vars2, fns, data1) {
                Some((nvi, v3, d2)) => {
                    match vt_lookup(v3, var@) {
                None => None,
                Some(bv1) => {
                    let i1 = head + nvi + seq![0x0E000000u32 | bv1.spec_to_arg()];
                    match spec_translate(*while_expr, v3, fns, d2) {
                        Some((wi, v4, d3)) => {
                            let i2 = i1 + wi;
                            match spec_translate(*expr, v4, fns, d3) {
                                Some((ei, v5, d4)) => {
                                    let i3 = i2.push(
                                        (0x09000000u32).wrapping_add(
                                            (ei.len() as u32).wrapping_add(4),
                                        ),
                                    ) + ei + seq![0x03400000u32, 0x0E400000u32];
                                    let back = 0x08000000u32 | (
                                    (4i32).wrapping_sub(i3.len() as i32) as i16 as u16 as u32);
                                    let i4 = i3 + seq![back, 0x0D400000u32, 0x0C800004u32];
                                    let v6 = vt_remove(vt_rebase(v5, 4, false), var@);
                                    Some((i4, v6, d4))
                                },
                                None => None,
                            }
                        },
                        None => None,
                    }
                },
                }
                },
                None => None,
            }
                },
            }
        },
        Expression::Fn { name, args } => {
            match spec_addr_lookup(fns, name@) {
                None => None,
                Some(target) => {
                    let n = args.len();
                    let head = seq![
                        0x0C800000u32 | ((n as i16).wrapping_mul(-4i16) as u16 as u32),
                    ];
                    let delta = mul4_u16(n as u16);
                    let vars1 = vt_rebase(vars, delta, true);
                    match spec_translate_args(args@, 0, vars1, fns, data) {
                        Some((ai, v2, d2)) => {
                            let tailseq = seq![
                                0x0A000000u32 | (target as u32),
                                0x0C800000u32 | ((n as u32).wrapping_mul(4u32)),
                            ];
                            let v3 = vt_rebase(v2, delta, false);
                            Some((head + ai + tailseq, v3, d2))
                        },
                        None => None,
                    }
                },
            }
        },
        Expression::VarDef { name, init, expr } => {
            let addr = (data.len() as u16).wrapping_add(12);
            let vars1 = seq![(name, Var::Memory(addr))] + vars;
            let data1 = data + seq![0u8, 0u8, 0u8, 0u8];
            match spec_translate(*init, vars1, fns, data1) {
                Some((ii, v2, d2)) => {
                    match vt_lookup(v2, name@) {
                        None => None,
                        Some(bv) => {
                            let i1 = ii.push(0x0E000000u32 | bv.spec_to_arg());
                            match spec_translate(*expr, v2, fns, d2) {
                                Some((ei, v3, d3)) => Some((i1 + ei, vt_remove(v3, name@), d3)),
                                None => None,
                            }
                        },
                    }
                },
                None => None,
            }
        },
        Expression::Var(name) => {
            match vt_lookup(vars, name@) {
                Some(v) => Some((seq![0x0D000000u32 | v.spec_to_arg()], vars, data)),
                None => None,
            }
        },
        Expression::Str(s) => {
            let pointer = (data.len() as u32).wrapping_add(12u32);
            let data1 = data + vstd::utf8::encode_utf8(s@) + seq![0u8];
            Some((seq![0x0D800000u32 | pointer], vars, data1))
        },
        Expression::Value(num) => {
            if -32768 <= num <= 32767 {
                Some(
                    (
                        seq![0x0D000000u32 | Var::InWord(num as u16).spec_to_arg()],
                        vars,
                        data,
                    ),
                )
            } else {
                let addr = (data.len() as u16).wrapping_add(12);
                let data1 = data + spec_le4(num as u32);
                Some(
                    (
                        seq![0x0D000000u32 | Var::Memory(addr).spec_to_arg()],
                        vars,
                        data1,
                    ),
                )
            }
        },
    }
}

/// The argument expressions from `pos` on: each is emitted, then stored
/// into its slot above the stack pointer, the last argument into the
/// lowest slot.
pub open spec fn spec_translate_args(
    args: Seq<Expression>,
    pos: int,
    vars: Seq<(String, Var)>,
    fns: Seq<(String, u16)>,
    data: Seq<u8>,
) -> Option<(Seq<u32>, Seq<(String, Var)>, Seq<u8>)>
    decreases args, args.len() - pos,
{
    if pos < 0 || pos >= args.len() {
        Some((Seq::<u32>::empty(), vars, data))
    } else {
        match spec_translate(args[pos], vars, fns, data) {
            Some((ai, v2, d2)) => {
                let slot = (args.len() - 1 - pos) as u32;
                let save = (0x0E400000u32).wrapping_add(slot.wrapping_mul(4u32));
                match spec_translate_args(args, pos + 1, v2, fns, d2) {
                    Some((rest, v3, d3)) => Some((ai.push(save) + rest, v3, d3)),
                    None => None,
                }
            },
            None => None,
        }
    }
}

#[verifier::loop_isolation(false)]
fn lookup_var(vars: &Vec<(String, Var)>, name: &str) -> (r: Option<Var>)
    ensures
        r == vt_lookup(vars@, name@),
{
    let n = vars.len();
    let mut i: usize = 0;
    proof {
        assert(vars@.skip(0) =~= vars@);
    }
    while i < n
        invariant
            i <= n,
            vt_lookup(vars@, name@) == vt_lookup(vars@.skip(i as int), name@),
        decreases n - i,
    {
        proof {
            assert(vars@.skip(i as int).drop_first() =~= vars@.skip(i + 1));
        }
        if str_eq(vars[i].0.as_str(), name) {
            return Some(vars[i].1);
        }
        i = i + 1;
    }
    None
}

proof fn lemma_vt_remove_at(vars: Seq<(String, Var)>, name: Seq<char>, i: int)
    requires
        0 <= i < vars.len(),
        vars[i].0@ == name,
        forall|j: int| 0 <= j < i ==> vars[j].0@ != name,
    ensures
        vt_remove(vars, name) == vars.remove(i),
    decreases i,
{
    if i == 0 {
        assert(vt_remove(vars, name) =~= vars.remove(0));
    } else {
        lemma_vt_remove_at(vars.drop_first(), name, i - 1);
        assert(seq![vars[0]] + vars.drop_first().remove(i - 1) =~= vars.remove(i));
    }
}

proof fn lemma_vt_remove_absent(vars: Seq<(String, Var)>, name: Seq<char>)
    requires
        forall|j: int| 0 <= j < vars.len() ==> vars[j].0@ != name,
    ensures
        vt_remove(vars, name) == vars,
    decreases vars.len(),
{
    if vars.len() > 0 {
        lemma_vt_remove_absent(vars.drop_first(), name);
        assert(seq![vars[0]] + vars.drop_first() =~= vars);
    }
}

#[verifier::loop_isolation(false)]
fn remove_var(vars: &mut Vec<(String, Var)>, name: &str)
    ensures
        final(vars)@ == vt_remove(old(vars)@, name@),
{
    let n = vars.len();
    let mut i: usize = 0;
    while i < n
        invariant
            i <= n,
            *vars == *old(vars),
            forall|j: int| 0 <= j < i ==> vars@[j].0@ != name@,
        decreases n - i,
    {
        if str_eq(vars[i].0.as_str(), name) {
            vars.remove(i);
            proof {
                lemma_vt_remove_at(old(vars)@, name@, i as int);
            }
            return ;
        }
        i = i + 1;
    }
    proof {
        lemma_vt_remove_absent(vars@, name@);
    }
}

#[verifier::loop_isolation(false)]
fn rebase(vars: &mut Vec<(String, Var)>, delta: u16, up: bool)
    ensures
        final(vars)@ == vt_rebase(old(vars)@, delta, up),
{
    let n = vars.len();
    let mut out: Vec<(String, Var)> = Vec::new();
    let mut i: usize = 0;
    while i < n
        invariant
            i <= n,
            *vars == *old(vars),
            out@.len() == i,
            forall|j: int| 0 <= j < i ==> out@[j] == vt_rebase(vars@, delta, up)[j],
        decreases n - i,
    {
        let name = vars[i].0.clone();
        let v = vars[i].1;
        let v2 = match v {
            Var::Stack(k) => Var::Stack(
                if up {
                    k.wrapping_add(delta)
                } else {
                    k.wrapping_sub(delta)
                },
            ),
            other => other,
        };
        out.push((name, v2));
        i = i + 1;
    }
    proof {
        assert(out@ =~= vt_rebase(vars@, delta, up));
    }
    *vars = out;
}

#[verifier::loop_isolation(false)]
fn find_addr(fns: &Vec<(String, u16)>, name: &str) -> (r: Option<u16>)
    ensures
        r == spec_addr_lookup(fns@, name@),
{
    let n = fns.len();
    let mut i: usize = 0;
    proof {
        assert(fns@.skip(0) =~= fns@);
    }
    while i < n
        invariant
            i <= n,
            spec_addr_lookup(fns@, name@) == spec_addr_lookup(fns@.skip(i as int), name@),
        decreases n - i,
    {
        proof {
            assert(fns@.skip(i as int).drop_first() =~= fns@.skip(i + 1));
        }
        if str_eq(fns[i].0.as_str(), name) {
            return Some(fns[i].1);
        }
        i = i + 1;
    }
    None
}

fn unknown_name_err(name: &str) -> (r: String)
    ensures
        r@ == "Unknown name '"@ + name@ + "'"@,
{
    let mut m = <String as vstd::string::StringExecFns>::from_str("Unknown name '");
    <String as vstd::string::StringExecFns>::append(&mut m, name);
    <String as vstd::string::StringExecFns>::append(&mut m, "'");
    m
}

/// Append the four little-endian bytes of the word.
fn push_le4(data: &mut Vec<u8>, w: u32)
    ensures
        final(data)@ == old(data)@ + spec_le4(w),
{
    data.push((w & 0xFF) as u8);
    data.push(((w >> 8u32) & 0xFF) as u8);
    data.push(((w >> 16u32) & 0xFF) as u8);
    data.push(((w >> 24u32) & 0xFF) as u8);
    proof {
        assert(data@ =~= old(data)@ + spec_le4(w));
    }
}

/// Emit the instruction words of one expression, growing the data segment
/// and keeping the variable table as the emission rules say. Err exactly
/// when a referenced name has no binding or a called function no address.
#[verifier::loop_isolation(false)]
#[verifier::rlimit(60)]
fn translate(
    expr: &Expression,
    vars: &mut Vec<(String, Var)>,
    fn_addresses: &Vec<(String, u16)>,
    data: &mut Vec<u8>,
) -> (r: Result<Vec<u32>, String>)
    ensures
        ({
            let s = spec_translate(*expr, old(vars)@, fn_addresses@, old(data)@);
            &&& (r is Ok <==> s is Some)
            &&& (r is Ok ==> r->Ok_0@ == s->Some_0.0)
            &&& (r is Ok ==> final(vars)@ == s->Some_0.1)
            &&& (r is Ok ==> final(data)@ == s->Some_0.2)
        }),
    decreases *expr, 1int,
{
    match expr {
        Expression::FnDef { .. } => translate_fn_def(expr, vars, fn_addresses, data),
        Expression::Case { .. } => translate_case(expr, vars, fn_addresses, data),
        Expression::For { .. } => translate_for(expr, vars, fn_addresses, data),
        Expression::Fn { .. } => translate_call(expr, vars, fn_addresses, data),
        Expression::VarDef { .. } => translate_var_def(expr, vars, fn_addresses, data),
        Expression::Var(name) => {
            match lookup_var(vars, name.as_str()) {
                Some(v) => {
                    let mut instructions: Vec<u32> = Vec::new();
                    instructions.push(0x0D000000 | v.to_arg());
                    proof {
                        assert(instructions@ =~= seq![0x0D000000u32 | v.spec_to_arg()]);
                    }
                    Ok(instructions)
                },
                None => Err(unknown_name_err(name.as_str())),
            }
        },
        Expression::Str(s) => {
            let pointer = (data.len() as u32).wrapping_add(12u32);
            let mut bytes = vstd::string::StrSliceExecFns::as_bytes_vec(s.as_str());
            let ghost bs = bytes@;
            data.append(&mut bytes);
            data.push(0);
            proof {
                assert(data@ =~= old(data)@ + bs + seq![0u8]);
            }
            let mut instructions: Vec<u32> = Vec::new();
            instructions.push(0x0D800000 | pointer);
            proof {
                assert(instructions@ =~= seq![0x0D800000u32 | pointer]);
            }
            Ok(instructions)
        },
        Expression::Value(num) => {
            let mut instructions: Vec<u32> = Vec::new();
            if *num >= -32768 && *num <= 32767 {
                instructions.push(0x0D000000 | Var::InWord(*num as u16).to_arg());
                proof {
                    assert(instructions@ =~= seq![
                        0x0D000000u32 | Var::InWord(*num as u16).spec_to_arg(),
                    ]);
                }
            } else {
                let addr = (data.len() as u16).wrapping_add(12);
                push_le4(data, *num as u32);
                instructions.push(0x0D000000 | Var::Memory(addr).to_arg());
                proof {
                    assert(instructions@ =~= seq![
                        0x0D000000u32 | Var::Memory(addr).spec_to_arg(),
                    ]);
                }
            }
            Ok(instructions)
        },
    }
}

/// One arm of the emission rules; see `translate`.
#[verifier::loop_isolation(false)]
#[verifier::rlimit(60)]
fn translate_fn_def(
    expr: &Expression,
    vars: &mut Vec<(String, Var)>,
    fn_addresses: &Vec<(String, u16)>,
    data: &mut Vec<u8>,
) -> (r: Result<Vec<u32>, String>)
    requires
        *expr is FnDef,
    ensures
        ({
            let s = spec_translate(*expr, old(vars)@, fn_addresses@, old(data)@);
            &&& (r is Ok <==> s is Some)
            &&& (r is Ok ==> r->Ok_0@ == s->Some_0.0)
            &&& (r is Ok ==> final(vars)@ == s->Some_0.1)
            &&& (r is Ok ==> final(data)@ == s->Some_0.2)
        }),
    decreases *expr, 0int,
{
    match expr {
        Expression::FnDef { name: _, arguments, expr } => {
            let n = arguments.len();
            let mut fn_vars: Vec<(String, Var)> = Vec::new();
            let mut j: usize = 0;
            while j < n
                invariant
                    j <= n,
                    fn_vars@.len() == j,
                    forall|k: int| 0 <= k < j ==> fn_vars@[k] == spec_fn_vars(arguments@)[k],
                decreases n - j,
            {
                fn_vars.push((arguments[j].clone(), Var::Stack(((n - j) as u16).wrapping_mul(4))));
                j = j + 1;
            }
            proof {
                assert(fn_vars@ =~= spec_fn_vars(arguments@));
            }
            let mut instructions = translate(expr, &mut fn_vars, fn_addresses, data)?;
            instructions.push(0x0B000000);
            Ok(instructions)
        },
        _ => {
            proof {
                assert(false);
            }
            Err(<String as vstd::string::StringExecFns>::from_str(""))
        },
    }
}

/// One arm of the emission rules; see `translate`.
#[verifier::loop_isolation(false)]
#[verifier::rlimit(60)]
fn translate_case(
    expr: &Expression,
    vars: &mut Vec<(String, Var)>,
    fn_addresses: &Vec<(String, u16)>,
    data: &mut Vec<u8>,
) -> (r: Result<Vec<u32>, String>)
    requires
        *expr is Case,
    ensures
        ({
            let s = spec_translate(*expr, old(vars)@, fn_addresses@, old(data)@);
            &&& (r is Ok <==> s is Some)
            &&& (r is Ok ==> r->Ok_0@ == s->Some_0.0)
            &&& (r is Ok ==> final(vars)@ == s->Some_0.1)
            &&& (r is Ok ==> final(data)@ == s->Some_0.2)
        }),
    decreases *expr, 0int,
{
    match expr {
        Expression::Case { condition, t, f } => {
            let mut ci = translate(condition, vars, fn_addresses, data)?;
            let mut ti = translate(t, vars, fn_addresses, data)?;
            let mut fi = translate(f, vars, fn_addresses, data)?;
            ti.push((0x08000000u32).wrapping_add((fi.len() as u32).wrapping_add(1)));
            ci.push((0x09000000u32).wrapping_add((ti.len() as u32).wrapping_add(1)));
            let ghost ci2 = ci@;
            let ghost ti2 = ti@;
            let ghost fi2 = fi@;
            ci.append(&mut ti);
            ci.append(&mut fi);
            proof {
                assert(ci@ =~= ci2 + ti2 + fi2);
            }
            Ok(ci)
        },
        _ => {
            proof {
                assert(false);
            }
            Err(<String as vstd::string::StringExecFns>::from_str(""))
        },
    }
}

/// One arm of the emission rules; see `translate`.
#[verifier::loop_isolation(false)]
#[verifier::rlimit(60)]
fn translate_for(
    expr: &Expression,
    vars: &mut Vec<(String, Var)>,
    fn_addresses: &Vec<(String, u16)>,
    data: &mut Vec<u8>,
) -> (r: Result<Vec<u32>, String>)
    requires
        *expr is For,
    ensures
        ({
            let s = spec_translate(*expr, old(vars)@, fn_addresses@, old(data)@);
            &&& (r is Ok <==> s is Some)
            &&& (r is Ok ==> r->Ok_0@ == s->Some_0.0)
            &&& (r is Ok ==> final(vars)@ == s->Some_0.1)
            &&& (r is Ok ==> final(data)@ == s->Some_0.2)
        }),
    decreases *expr, 0int,
{
    match expr {
        Expression::For { var, next_val, while_expr, expr } => {
            let addr = (data.len() as u16).wrapping_add(12);
            let var_c = var.clone();
            vars.insert(0, (var_c, Var::Memory(addr)));
            proof {
                assert(vars@ =~= seq![((*var), Var::Memory(addr))] + old(vars)@);
            }
            data.push(0);
            data.push(0);
            data.push(0);
            data.push(0);
            proof {
                assert(data@ =~= old(data)@ + seq![0u8, 0u8, 0u8, 0u8]);
            }
            let bv0 = match lookup_var(vars, var.as_str()) {
                Some(v) => v,
                None => {
                    return Err(unknown_name_err(var.as_str()));
                },
            };
            let mut instructions: Vec<u32> = Vec::new();
            instructions.push(0x0D800000);
            instructions.push(0x0E000000 | bv0.to_arg());
            instructions.push(0x0C80FFFC);
            instructions.push(0x0E400000);
            rebase(vars, 4, true);
            let ghost head = instructions@;
            let mut nvi = match translate(next_val, vars, fn_addresses, data) {
                Ok(x) => x,
                Err(e) => {
                    return Err(e);
                },
            };
            let ghost nvis = nvi@;
            instructions.append(&mut nvi);
            let bv1 = match lookup_var(vars, var.as_str()) {
                Some(v) => v,
                None => {
                    return Err(unknown_name_err(var.as_str()));
                },
            };
            instructions.push(0x0E000000 | bv1.to_arg());
            proof {
                assert(instructions@ =~= head + nvis + seq![0x0E000000u32 | bv1.spec_to_arg()]);
            }
            let ghost i1 = instructions@;
            let mut wi = match translate(while_expr, vars, fn_addresses, data) {
                Ok(x) => x,
                Err(e) => {
                    return Err(e);
                },
            };
            let ghost wis = wi@;
            instructions.append(&mut wi);
            proof {
                assert(instructions@ =~= i1 + wis);
            }
            let ghost i2 = instructions@;
            let ei = match translate(expr, vars, fn_addresses, data) {
                Ok(x) => x,
                Err(e) => {
                    return Err(e);
                },
            };
            instructions.push((0x09000000u32).wrapping_add((ei.len() as u32).wrapping_add(4)));
            let ghost eis = ei@;
            let mut ei = ei;
            instructions.append(&mut ei);
            instructions.push(0x03400000);
            instructions.push(0x0E400000);
            proof {
                assert(instructions@ =~= i2.push(
                    (0x09000000u32).wrapping_add((eis.len() as u32).wrapping_add(4)),
                ) + eis + seq![0x03400000u32, 0x0E400000u32]);
            }
            let back = 0x08000000u32 | ((4i32).wrapping_sub(instructions.len() as i32) as i16
                as u16 as u32);
            let ghost i3 = instructions@;
            instructions.push(back);
            instructions.push(0x0D400000);
            instructions.push(0x0C800004);
            proof {
                assert(instructions@ =~= i3 + seq![back, 0x0D400000u32, 0x0C800004u32]);
            }
            rebase(vars, 4, false);
            remove_var(vars, var.as_str());
            Ok(instructions)
        },
        _ => {
            proof {
                assert(false);
            }
            Err(<String as vstd::string::StringExecFns>::from_str(""))
        },
    }
}

/// One arm of the emission rules; see `translate`.
#[verifier::loop_isolation(false)]
#[verifier::rlimit(60)]
fn translate_call(
    expr: &Expression,
    vars: &mut Vec<(String, Var)>,
    fn_addresses: &Vec<(String, u16)>,
    data: &mut Vec<u8>,
) -> (r: Result<Vec<u32>, String>)
    requires
        *expr is Fn,
    ensures
        ({
            let s = spec_translate(*expr, old(vars)@, fn_addresses@, old(data)@);
            &&& (r is Ok <==> s is Some)
            &&& (r is Ok ==> r->Ok_0@ == s->Some_0.0)
            &&& (r is Ok ==> final(vars)@ == s->Some_0.1)
            &&& (r is Ok ==> final(data)@ == s->Some_0.2)
        }),
    decreases *expr, 0int,
{
    match expr {
        Expression::Fn { name, args } => {
            let target = match find_addr(fn_addresses, name.as_str()) {
                Some(t) => t,
                None => {
                    return Err(unknown_name_err(name.as_str()));
                },
            };
            let n = args.len();
            let mut instructions: Vec<u32> = Vec::new();
            instructions.push(0x0C800000u32 | ((n as i16).wrapping_mul(-4i16) as u16 as u32));
            let delta = (n as u16).wrapping_mul(4);
            rebase(vars, delta, true);
            let ghost v1 = vars@;
            let ghost d1 = data@;
            let ghost full = spec_translate_args(args@, 0, v1, fn_addresses@, d1);
            let mut body: Vec<u32> = Vec::new();
            let mut j: usize = 0;
            while j < n
                invariant
                    j <= n,
                    n == args@.len(),
                    ({
                        match spec_translate_args(args@, j as int, vars@, fn_addresses@, data@) {
                            Some(rest) => full == Some(
                                ((body@ + rest.0, rest.1, rest.2)),
                            ),
                            None => full is None,
                        }
                    }),
                decreases n - j,
            {
                let mut ai = match translate(&args[j], vars, fn_addresses, data) {
                    Ok(x) => x,
                    Err(e) => {
                        proof {
                            assert(full is None);
                        }
                        return Err(e);
                    },
                };
                let slot = ((n - 1 - j) as u32).wrapping_mul(4u32);
                let ghost ais = ai@;
                body.append(&mut ai);
                body.push((0x0E400000u32).wrapping_add(slot));
                proof {
                    let save = (0x0E400000u32).wrapping_add(slot);
                    assert(body@ =~= (body@.subrange(
                        0,
                        body@.len() - ais.len() - 1,
                    ) + ais.push(save)));
                }
                j = j + 1;
            }
            proof {
                assert(body@ + Seq::<u32>::empty() =~= body@);
            }
            let ghost bodys = body@;
            instructions.append(&mut body);
            instructions.push(0x0A000000u32 | (target as u32));
            instructions.push(0x0C800000u32 | ((n as u32).wrapping_mul(4u32)));
            proof {
                assert(instructions@ =~= seq![
                    0x0C800000u32 | ((n as i16).wrapping_mul(-4i16) as u16 as u32),
                ] + bodys + seq![
                    0x0A000000u32 | (target as u32),
                    0x0C800000u32 | ((n as u32).wrapping_mul(4u32)),
                ]);
            }
            rebase(vars, delta, false);
            Ok(instructions)
        },
        _ => {
            proof {
                assert(false);
            }
            Err(<String as vstd::string::StringExecFns>::from_str(""))
        },
    }
}

/// One arm of the emission rules; see `translate`.
#[verifier::loop_isolation(false)]
#[verifier::rlimit(60)]
fn translate_var_def(
    expr: &Expression,
    vars: &mut Vec<(String, Var)>,
    fn_addresses: &Vec<(String, u16)>,
    data: &mut Vec<u8>,
) -> (r: Result<Vec<u32>, String>)
    requires
        *expr is VarDef,
    ensures
        ({
            let s = spec_translate(*expr, old(vars)@, fn_addresses@, old(data)@);
            &&& (r is Ok <==> s is Some)
            &&& (r is Ok ==> r->Ok_0@ == s->Some_0.0)
            &&& (r is Ok ==> final(vars)@ == s->Some_0.1)
            &&& (r is Ok ==> final(data)@ == s->Some_0.2)
        }),
    decreases *expr, 0int,
{
    match expr {
        Expression::VarDef { name, init, expr } => {
            let addr = (data.len() as u16).wrapping_add(12);
            let name_c = name.clone();
            vars.insert(0, (name_c, Var::Memory(addr)));
            proof {
                assert(vars@ =~= seq![((*name), Var::Memory(addr))] + old(vars)@);
            }
            data.push(0);
            data.push(0);
            data.push(0);
            data.push(0);
            proof {
                assert(data@ =~= old(data)@ + seq![0u8, 0u8, 0u8, 0u8]);
            }
            let mut instructions = match translate(init, vars, fn_addresses, data) {
                Ok(x) => x,
                Err(e) => {
                    return Err(e);
                },
            };
            let bv = match lookup_var(vars, name.as_str()) {
                Some(v) => v,
                None => {
                    return Err(unknown_name_err(name.as_str()));
                },
            };
            instructions.push(0x0E000000 | bv.to_arg());
            let ghost i1 = instructions@;
            let mut ei = match translate(expr, vars, fn_addresses, data) {
                Ok(x) => x,
                Err(e) => {
                    return Err(e);
                },
            };
            let ghost eis = ei@;
            instructions.append(&mut ei);
            proof {
                assert(instructions@ =~= i1 + eis);
            }
            remove_var(vars, name.as_str());
            Ok(instructions)
        },
        _ => {
            proof {
                assert(false);
            }
            Err(<String as vstd::string::StringExecFns>::from_str(""))
        },
    }
}

/// The instruction words of the bundled prelude: slot 0 reserved for the
/// jump over all function bodies, then one small routine per primitive.
pub open spec fn spec_builtin_words() -> Seq<u32> {
    seq![
        0u32,
        0x0D400008u32,
        0x03400004u32,
        0x0B000000u32,
        0x0D400008u32,
        0x04400004u32,
        0x0B000000u32,
        0x0D400008u32,
        0x05400004u32,
        0x0B000000u32,
        0x0D400008u32,
        0x06400004u32,
        0x0B000000u32,
        0x0D400008u32,
        0x07400004u32,
        0x0B000000u32,
        0x0D000000u32,
        0x0B000000u32,
        0x0D400004u32,
        0x0E000004u32,
        0x0B000000u32,
    ]
}

/// The prelude's address table: the arithmetic primitives, a character
/// read, and a character write, at their entry points in
/// `spec_builtin_words`.
pub open spec fn spec_builtin_table(fns: Seq<(String, u16)>) -> bool {
    &&& fns.len() == 7
    &&& fns[0].0@ == "+"@ && fns[0].1 == 1u16
    &&& fns[1].0@ == "-"@ && fns[1].1 == 4u16
    &&& fns[2].0@ == "*"@ && fns[2].1 == 7u16
    &&& fns[3].0@ == "/"@ && fns[3].1 == 10u16
    &&& fns[4].0@ == "%"@ && fns[4].1 == 13u16
    &&& fns[5].0@ == "readc"@ && fns[5].1 == 16u16
    &&& fns[6].0@ == "printc"@ && fns[6].1 == 18u16
}

/// The bundled prelude: its instruction words, with slot 0 reserved so it
/// can be patched to jump past all function bodies, and the address of
/// each of its routines. Each arithmetic routine loads its first argument,
/// combines it with the second, and returns; `readc` reads one byte from
/// the input port; `printc` writes its argument's low byte to the output
/// port.
pub fn built_in() -> (r: (Vec<u32>, Vec<(String, u16)>))
    ensures
        r.0@ == spec_builtin_words(),
        spec_builtin_table(r.1@),
{
    let mut ws: Vec<u32> = Vec::new();
    ws.push(0);
    ws.push(0x0D400008);
    ws.push(0x03400004);
    ws.push(0x0B000000);
    ws.push(0x0D400008);
    ws.push(0x04400004);
    ws.push(0x0B000000);
    ws.push(0x0D400008);
    ws.push(0x05400004);
    ws.push(0x0B000000);
    ws.push(0x0D400008);
    ws.push(0x06400004);
    ws.push(0x0B000000);
    ws.push(0x0D400008);
    ws.push(0x07400004);
    ws.push(0x0B000000);
    ws.push(0x0D000000);
    ws.push(0x0B000000);
    ws.push(0x0D400004);
    ws.push(0x0E000004);
    ws.push(0x0B000000);
    proof {
        assert(ws@ =~= spec_builtin_words());
    }
    let mut table: Vec<(String, u16)> = Vec::new();
    table.push((<String as vstd::string::StringExecFns>::from_str("+"), 1));
    table.push((<String as vstd::string::StringExecFns>::from_str("-"), 4));
    table.push((<String as vstd::string::StringExecFns>::from_str("*"), 7));
    table.push((<String as vstd::string::StringExecFns>::from_str("/"), 10));
    table.push((<String as vstd::string::StringExecFns>::from_str("%"), 13));
    table.push((<String as vstd::string::StringExecFns>::from_str("readc"), 16));
    table.push((<String as vstd::string::StringExecFns>::from_str("printc"), 18));
    (ws, table)
}

/// The function definitions translated in turn: each body's code is
/// appended and the function's name is bound to the address where its code
/// begins. None on anything but a definition, or on a body that does not
/// translate.
pub open spec fn spec_compile_defs(
    defs: Seq<Expression>,
    pos: int,
    vars: Seq<(String, Var)>,
    fns: Seq<(String, u16)>,
    instrs: Seq<u32>,
    data: Seq<u8>,
) -> Option<(Seq<(String, Var)>, Seq<(String, u16)>, Seq<u32>, Seq<u8>)>
    decreases defs.len() - pos,
{
    if pos < 0 || pos >= defs.len() {
        Some((vars, fns, instrs, data))
    } else {
        match defs[pos] {
            Expression::FnDef { name, .. } => {
                match spec_translate(defs[pos], vars, fns, data) {
                    Some((code, vars2, data2)) => spec_compile_defs(
                        defs,
                        pos + 1,
                        vars2,
                        seq![(name, (instrs.len() as u16))] + fns,
                        instrs + code,
                        data2,
                    ),
                    None => None,
                }
            },
            _ => None,
        }
    }
}

/// The top-level expressions translated in turn onto the instruction
/// stream.
pub open spec fn spec_compile_mains(
    mains: Seq<Expression>,
    pos: int,
    vars: Seq<(String, Var)>,
    fns: Seq<(String, u16)>,
    instrs: Seq<u32>,
    data: Seq<u8>,
) -> Option<(Seq<(String, Var)>, Seq<u32>, Seq<u8>)>
    decreases mains.len() - pos,
{
    if pos < 0 || pos >= mains.len() {
        Some((vars, instrs, data))
    } else {
        match spec_translate(mains[pos], vars, fns, data) {
            Some((code, vars2, data2)) => spec_compile_mains(
                mains,
                pos + 1,
                vars2,
                fns,
                instrs + code,
                data2,
            ),
            None => None,
        }
    }
}

/// The whole packaged byte stream: the patched jump in slot 0, the 12-byte
/// header whose bytes 8..11 hold the length of header plus data, the data
/// segment, and the instruction words in little-endian order; with it the
/// instruction count and the byte count.
pub open spec fn spec_compile(
    fn_defs: Seq<Expression>,
    mains: Seq<Expression>,
    fns0: Seq<(String, u16)>,
) -> Option<(Seq<u8>, int, int)> {
    match spec_compile_defs(fn_defs, 0, Seq::empty(), fns0, spec_builtin_words(), Seq::empty()) {
        None => None,
        Some((vars1, fns1, instrs1, data1)) => {
            let patched = instrs1.update(
                0,
                (0x08000000u32).wrapping_add(instrs1.len() as u32),
            );
            match spec_compile_mains(mains, 0, vars1, fns1, patched, data1) {
                None => None,
                Some((_, instrs2, data2)) => {
                    let instrs3 = instrs2.push(0x11000000u32);
                    let pre = seq![
                        0u8,
                        0u8,
                        0u8,
                        0u8,
                        0u8,
                        0u8,
                        0u8,
                        0u8,
                        0u8,
                        0u8,
                        0u8,
                        0u8,
                    ] + data2;
                    let hl = pre.len() as u32;
                    let pre2 = pre.update(8, (hl & 0xFF) as u8).update(
                        9,
                        ((hl >> 8u32) & 0xFF) as u8,
                    ).update(10, ((hl >> 16u32) & 0xFF) as u8).update(
                        11,
                        ((hl >> 24u32) & 0xFF) as u8,
                    );
                    let bytes = pre2 + spec_words_le(instrs3);
                    Some((bytes, instrs3.len() as int, bytes.len() as int))
                },
            }
        },
    }
}

/// The definitions pass: translate each definition, bind its name to the
/// address its code starts at, and append the code.
#[verifier::loop_isolation(false)]
#[verifier::rlimit(60)]
fn compile_defs(
    defs: &Vec<Expression>,
    vars: &mut Vec<(String, Var)>,
    fn_addresses: &mut Vec<(String, u16)>,
    instructions: &mut Vec<u32>,
    data: &mut Vec<u8>,
) -> (r: Result<(), String>)
    ensures
        ({
            let s = spec_compile_defs(
                defs@,
                0,
                old(vars)@,
                old(fn_addresses)@,
                old(instructions)@,
                old(data)@,
            );
            &&& (r is Ok <==> s is Some)
            &&& (r is Ok ==> final(vars)@ == s->Some_0.0)
            &&& (r is Ok ==> final(fn_addresses)@ == s->Some_0.1)
            &&& (r is Ok ==> final(instructions)@ == s->Some_0.2)
            &&& (r is Ok ==> final(data)@ == s->Some_0.3)
        }),
{
    let ghost full = spec_compile_defs(
        defs@,
        0,
        old(vars)@,
        old(fn_addresses)@,
        old(instructions)@,
        old(data)@,
    );
    let nd = defs.len();
    let mut i: usize = 0;
    while i < nd
        invariant
            i <= nd,
            nd == defs@.len(),
            full == spec_compile_defs(
                defs@,
                i as int,
                vars@,
                fn_addresses@,
                instructions@,
                data@,
            ),
        decreases nd - i,
    {
        let ghost vars_b = vars@;
        let ghost fns_b = fn_addresses@;
        let ghost instrs_b = instructions@;
        let ghost data_b = data@;
        let name = match &defs[i] {
            Expression::FnDef { name, .. } => name.clone(),
            _ => {
                return Err(
                    <String as vstd::string::StringExecFns>::from_str(
                        "There must be function definition",
                    ),
                );
            },
        };
        let ghost name_g = name;
        let mut fn_def_asm = match translate(&defs[i], vars, fn_addresses, data) {
            Ok(x) => x,
            Err(e) => {
                return Err(e);
            },
        };
        let addr = instructions.len() as u16;
        fn_addresses.insert(0, (name, addr));
        proof {
            assert(fn_addresses@ =~= seq![(name_g, addr)] + fns_b);
        }
        instructions.append(&mut fn_def_asm);
        proof {
            assert(spec_compile_defs(defs@, i as int, vars_b, fns_b, instrs_b, data_b)
                == spec_compile_defs(
                defs@,
                i + 1,
                vars@,
                fn_addresses@,
                instructions@,
                data@,
            ));
        }
        i = i + 1;
    }
    Ok(())
}

/// No pass ever shortens the instruction stream.
proof fn lemma_compile_defs_len(
    defs: Seq<Expression>,
    pos: int,
    vars: Seq<(String, Var)>,
    fns: Seq<(String, u16)>,
    instrs: Seq<u32>,
    data: Seq<u8>,
)
    ensures
        spec_compile_defs(defs, pos, vars, fns, instrs, data) matches Some(o) ==> o.2.len()
            >= instrs.len(),
    decreases defs.len() - pos,
{
    if 0 <= pos < defs.len() {
        match defs[pos] {
            Expression::FnDef { name, .. } => {
                match spec_translate(defs[pos], vars, fns, data) {
                    Some((code, vars2, data2)) => {
                        lemma_compile_defs_len(
                            defs,
                            pos + 1,
                            vars2,
                            seq![(name, (instrs.len() as u16))] + fns,
                            instrs + code,
                            data2,
                        );
                    },
                    None => {},
                }
            },
            _ => {},
        }
    }
}

/// The main pass: translate each top-level expression onto the stream.
#[verifier::loop_isolation(false)]
#[verifier::rlimit(60)]
fn compile_mains(
    mains: &Vec<Expression>,
    vars: &mut Vec<(String, Var)>,
    fn_addresses: &Vec<(String, u16)>,
    instructions: &mut Vec<u32>,
    data: &mut Vec<u8>,
) -> (r: Result<(), String>)
    ensures
        ({
            let s = spec_compile_mains(
                mains@,
                0,
                old(vars)@,
                fn_addresses@,
                old(instructions)@,
                old(data)@,
            );
            &&& (r is Ok <==> s is Some)
            &&& (r is Ok ==> final(vars)@ == s->Some_0.0)
            &&& (r is Ok ==> final(instructions)@ == s->Some_0.1)
            &&& (r is Ok ==> final(data)@ == s->Some_0.2)
        }),
{
    let ghost full = spec_compile_mains(
        mains@,
        0,
        old(vars)@,
        fn_addresses@,
        old(instructions)@,
        old(data)@,
    );
    let nm = mains.len();
    let mut j: usize = 0;
    while j < nm
        invariant
            j <= nm,
            nm == mains@.len(),
            full == spec_compile_mains(
                mains@,
                j as int,
                vars@,
                fn_addresses@,
                instructions@,
                data@,
            ),
        decreases nm - j,
    {
        let mut expr_instructions = match translate(&mains[j], vars, fn_addresses, data) {
            Ok(x) => x,
            Err(e) => {
                return Err(e);
            },
        };
        instructions.append(&mut expr_instructions);
        j = j + 1;
    }
    Ok(())
}

/// Compile a preprocessed program against the bundled prelude into the
/// packaged byte stream, with the instruction count and the byte count.
/// Err exactly when a definition slot holds something other than a
/// function definition, or a name somewhere has no binding.
#[verifier::loop_isolation(false)]
#[verifier::rlimit(60)]
pub fn compile(preprocessed: Preprocessed) -> (r: Result<(Vec<u8>, usize, usize), String>)
    ensures
        exists|fns0: Seq<(String, u16)>|
            {
                &&& #[trigger] spec_builtin_table(fns0)
                &&& (r is Ok <==> spec_compile(
                    preprocessed.fn_defs@,
                    preprocessed.main@,
                    fns0,
                ) is Some)
                &&& (r is Ok ==> ({
                    let out = spec_compile(preprocessed.fn_defs@, preprocessed.main@, fns0);
                    &&& r->Ok_0.0@ == out->Some_0.0
                    &&& r->Ok_0.1 == out->Some_0.1
                    &&& r->Ok_0.2 == out->Some_0.2
                }))
            },
{
    let bi = built_in();
    let mut instructions = bi.0;
    let mut fn_addresses = bi.1;
    let ghost fns0 = fn_addresses@;
    let mut data: Vec<u8> = Vec::new();
    let mut vars: Vec<(String, Var)> = Vec::new();
    let defs = preprocessed.fn_defs;
    let mains = preprocessed.main;
    proof {
        assert(vars@ =~= Seq::<(String, Var)>::empty());
        assert(data@ =~= Seq::<u8>::empty());
    }
    match compile_defs(&defs, &mut vars, &mut fn_addresses, &mut instructions, &mut data) {
        Ok(_) => {},
        Err(e) => {
            return Err(e);
        },
    }
    proof {
        lemma_compile_defs_len(
            defs@,
            0,
            Seq::empty(),
            fns0,
            spec_builtin_words(),
            Seq::empty(),
        );
    }
    let jump_over = (0x08000000u32).wrapping_add(instructions.len() as u32);
    instructions[0] = jump_over;
    match compile_mains(&mains, &mut vars, &fn_addresses, &mut instructions, &mut data) {
        Ok(_) => {},
        Err(e) => {
            return Err(e);
        },
    }
    instructions.push(0x11000000);
    let out = package(instructions, data);
    Ok(out)
}

/// The packaging spec: a 12-byte header whose bytes 8..11 hold the length
/// of header plus data, the data segment, then the instructions as
/// little-endian words.
pub open spec fn spec_package(instrs: Seq<u32>, data: Seq<u8>) -> (Seq<u8>, int, int) {
    let pre = seq![0u8, 0u8, 0u8, 0u8, 0u8, 0u8, 0u8, 0u8, 0u8, 0u8, 0u8, 0u8] + data;
    let hl = pre.len() as u32;
    let pre2 = pre.update(8, (hl & 0xFF) as u8).update(9, ((hl >> 8u32) & 0xFF) as u8).update(
        10,
        ((hl >> 16u32) & 0xFF) as u8,
    ).update(11, ((hl >> 24u32) & 0xFF) as u8);
    let bytes = pre2 + spec_words_le(instrs);
    (bytes, instrs.len() as int, bytes.len() as int)
}

/// Prepend the header, fill in the data-segment length, and append the
/// instruction words in little-endian order.
#[verifier::loop_isolation(false)]
fn package(instructions: Vec<u32>, data: Vec<u8>) -> (r: (Vec<u8>, usize, usize))
    ensures
        r.0@ == spec_package(instructions@, data@).0,
        r.1 == spec_package(instructions@, data@).1,
        r.2 == spec_package(instructions@, data@).2,
{
    let instructions_count = instructions.len();
    let mut packaged: Vec<u8> = Vec::new();
    let mut k: usize = 0;
    while k < 12
        invariant
            k <= 12,
            packaged@ =~= Seq::new(k as nat, |q: int| 0u8),
        decreases 12 - k,
    {
        packaged.push(0);
        k = k + 1;
    }
    let ghost zeros12 = packaged@;
    let ghost data_final = data@;
    let mut data_moved = data;
    packaged.append(&mut data_moved);
    let hl = packaged.len() as u32;
    packaged[8] = (hl & 0xFF) as u8;
    packaged[9] = ((hl >> 8u32) & 0xFF) as u8;
    packaged[10] = ((hl >> 16u32) & 0xFF) as u8;
    packaged[11] = ((hl >> 24u32) & 0xFF) as u8;
    let ghost header_done = packaged@;
    let ghost words_final = instructions@;
    let nw = instructions.len();
    let mut w: usize = 0;
    while w < nw
        invariant
            w <= nw,
            nw == words_final.len(),
            instructions@ == words_final,
            packaged@ == header_done + spec_words_le(words_final.take(w as int)),
        decreases nw - w,
    {
        let word = instructions[w];
        push_le4(&mut packaged, word);
        proof {
            assert(words_final.take(w + 1).drop_last() =~= words_final.take(w as int));
            assert(packaged@ =~= header_done + spec_words_le(words_final.take(w + 1)));
        }
        w = w + 1;
    }
    proof {
        assert(words_final.take(nw as int) =~= words_final);
        let pre = seq![0u8, 0u8, 0u8, 0u8, 0u8, 0u8, 0u8, 0u8, 0u8, 0u8, 0u8, 0u8] + data_final;
        assert(zeros12 =~= seq![0u8, 0u8, 0u8, 0u8, 0u8, 0u8, 0u8, 0u8, 0u8, 0u8, 0u8, 0u8]);
        assert(header_done =~= pre.update(8, (hl & 0xFF) as u8).update(
            9,
            ((hl >> 8u32) & 0xFF) as u8,
        ).update(10, ((hl >> 16u32) & 0xFF) as u8).update(11, ((hl >> 24u32) & 0xFF) as u8));
    }
    let bytes_count = packaged.len();
    (packaged, instructions_count, bytes_count)
}

} // verus!
