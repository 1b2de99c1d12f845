//! Target-language output templates: one specification function per line
//! shape, and executable builders proved to produce exactly those shapes.
use vstd::prelude::*;
use crate::parse::{ForeachModel, RangeModel};
use crate::state::{FunctionSig, Modifier, Param, ParamModel, SigModel};
use crate::text::{lit_vec, push_all, push_lit, trimmed};

verus! {

/// A keyword output followed by its forwarded remainder, when there is one.
pub open spec fn opt_rest(kw: Seq<char>, rest: Seq<char>) -> Seq<char> {
    if rest.len() == 0 {
        kw
    } else {
        kw + " "@ + rest
    }
}

/// The include directive emitted for a library import.
pub open spec fn use_line(rest: Seq<char>) -> Seq<char> {
    "#include <"@ + trimmed(rest) + ">"@
}

/// The enumerated-type declaration, terminated unless it already ends in a
/// statement terminator or a block opener.
pub open spec fn type_line(rest: Seq<char>) -> Seq<char> {
    if rest.len() > 0 && (rest[rest.len() - 1] == ';' || rest[rest.len() - 1] == '{') {
        "enum "@ + rest
    } else {
        "enum "@ + rest + ";"@
    }
}

/// The access-section label of a visibility modifier, with its separator.
pub open spec fn access_label(m: Modifier) -> Seq<char> {
    match m {
        Modifier::Public => "pub: "@,
        Modifier::Private => "priv: "@,
        Modifier::Protected => "prot: "@,
        _ => Seq::empty(),
    }
}

/// The binding prefix of a binding modifier.
pub open spec fn binding_prefix(m: Modifier) -> Seq<char> {
    match m {
        Modifier::Virtual => "virtual "@,
        Modifier::Static => "static "@,
        _ => Seq::empty(),
    }
}

/// One translated parameter: its type, a space, its name.
pub open spec fn param_text(p: ParamModel) -> Seq<char> {
    p.ty + " "@ + p.name
}

/// The translated parameters after the first, each with its separator.
pub open spec fn params_join_rest(ps: Seq<ParamModel>) -> Seq<char>
    decreases ps.len(),
{
    if ps.len() == 0 {
        Seq::empty()
    } else {
        ", "@ + param_text(ps[0]) + params_join_rest(ps.skip(1))
    }
}

/// The translated parameter list, separated by commas.
pub open spec fn params_join(ps: Seq<ParamModel>) -> Seq<char> {
    if ps.len() == 0 {
        Seq::empty()
    } else {
        param_text(ps[0]) + params_join_rest(ps.skip(1))
    }
}

/// The opening line of a translated function: optional access label or
/// binding prefix, return type, name, parameter list, block opener.
pub open spec fn signature_line(sig: SigModel) -> Seq<char> {
    access_label(sig.modifier) + binding_prefix(sig.modifier) + sig.ret + " "@ + sig.name + "("@
        + params_join(sig.params) + ") {"@
}

/// The counted-loop header: start at the lower bound, continue while below
/// the upper bound, increment by one.
pub open spec fn range_line(r: RangeModel) -> Seq<char> {
    "for (int "@ + r.var + " = "@ + r.lo + "; "@ + r.var + " < "@ + r.hi + "; "@ + r.var
        + "++) {"@
}

/// The element-iteration header over a container.
pub open spec fn foreach_line(f: ForeachModel) -> Seq<char> {
    "for (any&& "@ + f.var + " : "@ + f.container + ") {"@
}

/// The translated return statement: terminated exactly once.
pub open spec fn return_line(expr: Seq<char>) -> Seq<char> {
    if expr.len() > 0 && expr[expr.len() - 1] == ';' {
        "return "@ + expr.take(expr.len() - 1) + ";"@
    } else {
        "return "@ + expr + ";"@
    }
}

/// The translated declaration-assignment: recorded type, name, value.
pub open spec fn assign_line(ty: Seq<char>, name: Seq<char>, value: Seq<char>) -> Seq<char> {
    ty + " "@ + name + " = "@ + value + ";"@
}

/// A line already structural is passed through; anything else becomes an
/// expression statement with a terminator.
pub open spec fn passthrough_line(t: Seq<char>) -> Seq<char> {
    if t.len() > 0 && (t[t.len() - 1] == '{' || t[t.len() - 1] == ',' || t[t.len() - 1] == ':'
        || t[t.len() - 1] == ';') {
        t
    } else {
        t + ";"@
    }
}

/// The diagnostic placeholder: a comment preserving the original text of a
/// line no translation rule matched.
pub open spec fn diagnostic_line(t: Seq<char>) -> Seq<char> {
    "// [astra] untranslated: "@ + t
}

/// Build `pre + mid + post` from two literals around a computed middle.
pub fn cat3(pre: &str, mid: &Vec<char>, post: &str) -> (r: Vec<char>)
    ensures
        r@ == pre@ + mid@ + post@,
{
    let mut r = lit_vec(pre);
    push_all(&mut r, mid);
    push_lit(&mut r, post);
    r
}

/// Build a keyword line with its optional remainder.
pub fn emit_kw_rest(kw: &str, rest: &Vec<char>) -> (r: Vec<char>)
    ensures
        r@ == opt_rest(kw@, rest@),
{
    if rest.len() == 0 {
        proof {
            assert(rest@ =~= Seq::<char>::empty());
        }
        lit_vec(kw)
    } else {
        let mut r = lit_vec(kw);
        push_lit(&mut r, " ");
        push_all(&mut r, rest);
        r
    }
}

/// Build the enumerated-type line.
pub fn emit_type(rest: &Vec<char>) -> (r: Vec<char>)
    ensures
        r@ == type_line(rest@),
{
    let n = rest.len();
    let mut r = lit_vec("enum ");
    push_all(&mut r, rest);
    if n > 0 && (rest[n - 1] == ';' || rest[n - 1] == '{') {
        r
    } else {
        push_lit(&mut r, ";");
        r
    }
}

/// Build the translated parameter list.
pub fn emit_params(ps: &Vec<Param>) -> (r: Vec<char>)
    ensures
        r@ == params_join(Seq::new(ps@.len(), |i: int| ps@[i].model())),
{
    let ghost m = Seq::new(ps@.len(), |i: int| ps@[i].model());
    let mut r: Vec<char> = Vec::new();
    if ps.len() == 0 {
        return r;
    }
    push_all(&mut r, &ps[0].ty);
    push_lit(&mut r, " ");
    push_all(&mut r, &ps[0].name);
    proof {
        assert(r@ =~= param_text(m[0]));
    }
    let mut i: usize = 1;
    while i < ps.len()
        invariant
            1 <= i <= ps.len(),
            m == Seq::new(ps@.len(), |k: int| ps@[k].model()),
            r@ + params_join_rest(m.skip(i as int)) == params_join(m),
        decreases ps.len() - i,
    {
        let ghost before = r@;
        push_lit(&mut r, ", ");
        push_all(&mut r, &ps[i].ty);
        push_lit(&mut r, " ");
        push_all(&mut r, &ps[i].name);
        proof {
            assert(m.skip(i as int)[0] == m[i as int]);
            assert(m.skip(i as int).skip(1) =~= m.skip(i + 1));
            assert(r@ =~= before + (", "@ + param_text(m[i as int])));
            assert(before + (", "@ + param_text(m[i as int])) + params_join_rest(m.skip(i + 1))
                =~= before + (", "@ + param_text(m[i as int]) + params_join_rest(m.skip(i + 1))));
        }
        i += 1;
    }
    proof {
        assert(m.skip(ps@.len() as int).len() == 0);
        assert(r@ + params_join_rest(m.skip(ps@.len() as int)) =~= r@);
    }
    r
}

/// Build the opening signature line of a translated function.
pub fn emit_signature(sig: &FunctionSig) -> (r: Vec<char>)
    ensures
        r@ == signature_line(sig.model()),
{
    let mut r: Vec<char> = match sig.modifier {
        Modifier::Public => lit_vec("pub: "),
        Modifier::Private => lit_vec("priv: "),
        Modifier::Protected => lit_vec("prot: "),
        Modifier::Virtual => lit_vec("virtual "),
        Modifier::Static => lit_vec("static "),
        Modifier::Plain => Vec::new(),
    };
    proof {
        assert(r@ =~= access_label(sig.modifier) + binding_prefix(sig.modifier));
    }
    push_all(&mut r, &sig.ret);
    push_lit(&mut r, " ");
    push_all(&mut r, &sig.name);
    push_lit(&mut r, "(");
    let params = emit_params(&sig.params);
    push_all(&mut r, &params);
    push_lit(&mut r, ") {");
    proof {
        assert(r@ =~= signature_line(sig.model()));
    }
    r
}

/// Build the counted-loop header.
pub fn emit_range(var: &Vec<char>, lo: &Vec<char>, hi: &Vec<char>) -> (r: Vec<char>)
    ensures
        r@ == range_line(RangeModel { var: var@, lo: lo@, hi: hi@ }),
{
    let mut r = lit_vec("for (int ");
    push_all(&mut r, var);
    push_lit(&mut r, " = ");
    push_all(&mut r, lo);
    push_lit(&mut r, "; ");
    push_all(&mut r, var);
    push_lit(&mut r, " < ");
    push_all(&mut r, hi);
    push_lit(&mut r, "; ");
    push_all(&mut r, var);
    push_lit(&mut r, "++) {");
    proof {
        assert(r@ =~= range_line(RangeModel { var: var@, lo: lo@, hi: hi@ }));
    }
    r
}

/// Build the element-iteration header.
pub fn emit_foreach(var: &Vec<char>, container: &Vec<char>) -> (r: Vec<char>)
    ensures
        r@ == foreach_line(ForeachModel { var: var@, container: container@ }),
{
    let mut r = lit_vec("for (any&& ");
    push_all(&mut r, var);
    push_lit(&mut r, " : ");
    push_all(&mut r, container);
    push_lit(&mut r, ") {");
    proof {
        assert(r@ =~= foreach_line(ForeachModel { var: var@, container: container@ }));
    }
    r
}

/// Build the translated return statement.
pub fn emit_return(expr: &Vec<char>) -> (r: Vec<char>)
    ensures
        r@ == return_line(expr@),
{
    let n = expr.len();
    let mut r = lit_vec("return ");
    if n > 0 && expr[n - 1] == ';' {
        crate::text::push_range(&mut r, expr, 0, n - 1);
        proof {
            assert(expr@.subrange(0, n - 1) =~= expr@.take(n - 1));
        }
    } else {
        push_all(&mut r, expr);
    }
    push_lit(&mut r, ";");
    r
}

/// Build the translated declaration-assignment.
pub fn emit_assign(ty: &Vec<char>, name: &Vec<char>, value: &Vec<char>) -> (r: Vec<char>)
    ensures
        r@ == assign_line(ty@, name@, value@),
{
    let mut r: Vec<char> = Vec::new();
    push_all(&mut r, ty);
    push_lit(&mut r, " ");
    push_all(&mut r, name);
    push_lit(&mut r, " = ");
    push_all(&mut r, value);
    push_lit(&mut r, ";");
    proof {
        assert(r@ =~= assign_line(ty@, name@, value@));
    }
    r
}

/// Pass a structural line through, or terminate an expression statement.
pub fn emit_passthrough(t: &Vec<char>) -> (r: Vec<char>)
    ensures
        r@ == passthrough_line(t@),
{
    let n = t.len();
    let mut r: Vec<char> = Vec::new();
    push_all(&mut r, t);
    proof {
        assert(r@ =~= t@);
    }
    if n > 0 && (t[n - 1] == '{' || t[n - 1] == ',' || t[n - 1] == ':' || t[n - 1] == ';') {
        r
    } else {
        push_lit(&mut r, ";");
        r
    }
}

/// Build the diagnostic placeholder for an untranslatable line.
pub fn emit_diagnostic(t: &Vec<char>) -> (r: Vec<char>)
    ensures
        r@ == diagnostic_line(t@),
{
    let mut r = lit_vec("// [astra] untranslated: ");
    push_all(&mut r, t);
    r
}

} // verus!
