//! Parsers for the surface-language grammar: function declaration lines,
//! parameter lists, counted-range and element-iteration loop headers, and the
//! position of a top-level assignment operator.  Each executable parser is
//! proved to return exactly what its specification-level counterpart does.
use vstd::prelude::*;
use crate::state::{FunctionSig, Modifier, Param, ParamModel, SigModel};
use crate::text::{
    char_is_word, digit_end, digit_run, find_char, find_from, lemma_find_from_bounds, lit_vec,
    space_end, space_run, subvec, trim_chars, trimmed, word_end, word_run,
};

verus! {

/// Whether the characters of `p` occur in `t` starting exactly at `i`.
pub open spec fn lit_at(t: Seq<char>, i: int, p: Seq<char>) -> bool {
    0 <= i && i + p.len() <= t.len() && t.subrange(i, i + p.len()) == p
}

/// Whether the literal `p` occurs in `t` starting exactly at `i`.
pub fn has_lit_at(t: &Vec<char>, i: usize, p: &str) -> (r: bool)
    ensures
        r == lit_at(t@, i as int, p@),
{
    let m = p.unicode_len();
    if i > t.len() || t.len() - i < m {
        return false;
    }
    let mut k: usize = 0;
    while k < m
        invariant
            0 <= k <= m,
            m == p@.len(),
            i + m <= t.len(),
            forall|s: int| 0 <= s < k ==> t@[i + s] == p@[s],
        decreases m - k,
    {
        if t[i + k] != p.get_char(k) {
            proof {
                assert(t@.subrange(i as int, i + p@.len())[k as int] != p@[k as int]);
            }
            return false;
        }
        k += 1;
    }
    proof {
        assert(t@.subrange(i as int, i + p@.len()) =~= p@);
    }
    true
}

/// The modifier named by the line's leading token, if any.
pub open spec fn modifier_of(t: Seq<char>) -> Modifier {
    if lit_at(t, 0, "pub "@) {
        Modifier::Public
    } else if lit_at(t, 0, "priv "@) {
        Modifier::Private
    } else if lit_at(t, 0, "prot "@) {
        Modifier::Protected
    } else if lit_at(t, 0, "virt "@) {
        Modifier::Virtual
    } else if lit_at(t, 0, "stat "@) {
        Modifier::Static
    } else {
        Modifier::Plain
    }
}

/// How many characters the leading modifier token and its space occupy.
pub open spec fn modifier_offset(t: Seq<char>) -> int {
    match modifier_of(t) {
        Modifier::Plain => 0,
        Modifier::Public => 4,
        Modifier::Private => 5,
        Modifier::Protected => 5,
        Modifier::Virtual => 5,
        Modifier::Static => 5,
    }
}

/// Recognize the leading modifier token.
pub fn read_modifier(t: &Vec<char>) -> (r: (Modifier, usize))
    ensures
        r.0 == modifier_of(t@),
        r.1 == modifier_offset(t@),
        r.1 <= t.len(),
{
    proof {
        reveal_strlit("pub ");
        reveal_strlit("priv ");
        reveal_strlit("prot ");
        reveal_strlit("virt ");
        reveal_strlit("stat ");
    }
    if has_lit_at(t, 0, "pub ") {
        (Modifier::Public, 4)
    } else if has_lit_at(t, 0, "priv ") {
        (Modifier::Private, 5)
    } else if has_lit_at(t, 0, "prot ") {
        (Modifier::Protected, 5)
    } else if has_lit_at(t, 0, "virt ") {
        (Modifier::Virtual, 5)
    } else if has_lit_at(t, 0, "stat ") {
        (Modifier::Static, 5)
    } else {
        (Modifier::Plain, 0)
    }
}

/// Whether the line is routed to the function-signature translator: after an
/// optional modifier token it begins with the declaration keyword.
pub open spec fn is_fn_candidate(t: Seq<char>) -> bool {
    lit_at(t, modifier_offset(t), "fn"@)
}

/// One parameter piece between commas, after trimming: empty pieces vanish,
/// `name: type` keeps its declared type, a bare name gets the inferred-type
/// placeholder.
pub open spec fn param_piece(piece: Seq<char>) -> Seq<ParamModel> {
    let tp = trimmed(piece);
    if tp.len() == 0 {
        Seq::empty()
    } else {
        let c = find_from(tp, ':', 0);
        if c < 0 {
            seq![ParamModel { name: tp, ty: "any"@ }]
        } else {
            seq![
                ParamModel {
                    name: trimmed(tp.subrange(0, c)),
                    ty: trimmed(tp.subrange(c + 1, tp.len() as int)),
                },
            ]
        }
    }
}

/// The parameters declared from position `i` on, splitting on commas.
pub open spec fn parse_params_from(p: Seq<char>, i: int) -> Seq<ParamModel>
    decreases p.len() - i,
    via parse_params_from_decreases
{
    if i < 0 || i > p.len() {
        Seq::empty()
    } else {
        let c = find_from(p, ',', i);
        if c < 0 {
            param_piece(p.subrange(i, p.len() as int))
        } else {
            param_piece(p.subrange(i, c)) + parse_params_from(p, c + 1)
        }
    }
}

#[via_fn]
proof fn parse_params_from_decreases(p: Seq<char>, i: int) {
    if 0 <= i <= p.len() {
        lemma_find_from_bounds(p, ',', i);
    }
}

/// The whole parsed parameter list.
pub open spec fn parse_params(p: Seq<char>) -> Seq<ParamModel> {
    parse_params_from(p, 0)
}

/// The declared return type from position `i` on: a ` -> type` suffix if one
/// stands right after the closing parenthesis, the no-value type otherwise.
pub open spec fn parse_ret(t: Seq<char>, i: int) -> Seq<char> {
    if lit_at(t, i, " -> "@) {
        let e = word_end(t, i + 4);
        if e > i + 4 {
            t.subrange(i + 4, e)
        } else {
            "void"@
        }
    } else {
        "void"@
    }
}

/// Parse a function declaration line: optional modifier, the declaration
/// keyword, a name, a parenthesized parameter list, and an optional return
/// type.  `None` when the line does not have that shape.
pub open spec fn parse_fn(t: Seq<char>) -> Option<SigModel> {
    let off = modifier_offset(t);
    if !lit_at(t, off, "fn "@) {
        None
    } else {
        let ns = off + 3;
        let ne = word_end(t, ns);
        if ne == ns {
            None
        } else if !(ne < t.len() && t[ne] == '(') {
            None
        } else {
            let close = find_from(t, ')', ne + 1);
            if close < 0 {
                None
            } else {
                Some(
                    SigModel {
                        modifier: modifier_of(t),
                        name: t.subrange(ns, ne),
                        params: parse_params(t.subrange(ne + 1, close)),
                        ret: parse_ret(t, close + 1),
                    },
                )
            }
        }
    }
}

/// The model of an executable parameter vector.
pub open spec fn params_model(ps: Seq<Param>) -> Seq<ParamModel> {
    Seq::new(ps.len(), |i: int| ps[i].model())
}

/// One trimmed parameter piece, executably.
fn read_param_piece(piece: &Vec<char>) -> (r: Option<Param>)
    ensures
        match r {
            Some(pm) => param_piece(piece@) == seq![pm.model()],
            None => param_piece(piece@) == Seq::<ParamModel>::empty(),
        },
{
    let tp = trim_chars(piece);
    if tp.len() == 0 {
        None
    } else {
        match find_char(&tp, ':', 0) {
            None => {
                let r = Param { name: tp, ty: lit_vec("any") };
                Some(r)
            },
            Some(c) => {
                proof {
                    lemma_find_from_bounds(tp@, ':', 0);
                }
                let name = trim_chars(&subvec(&tp, 0, c));
                let ty = trim_chars(&subvec(&tp, c + 1, tp.len()));
                Some(Param { name, ty })
            },
        }
    }
}

/// Parse a comma-separated parameter list.
pub fn read_params(p: &Vec<char>) -> (r: Vec<Param>)
    ensures
        params_model(r@) == parse_params(p@),
{
    let mut acc: Vec<Param> = Vec::new();
    let mut start: usize = 0;
    loop
        invariant
            start <= p.len(),
            params_model(acc@) + parse_params_from(p@, start as int) == parse_params(p@),
        decreases p.len() - start,
    {
        match find_char(p, ',', start) {
            None => {
                let piece = subvec(p, start, p.len());
                let ghost before = params_model(acc@);
                match read_param_piece(&piece) {
                    Some(pm) => {
                        let ghost pmm = pm.model();
                        acc.push(pm);
                        proof {
                            assert(params_model(acc@) =~= before.push(pmm));
                            assert(before.push(pmm) =~= before + seq![pmm]);
                        }
                    },
                    None => {
                        proof {
                            assert(before + Seq::<ParamModel>::empty() =~= before);
                        }
                    },
                }
                proof {
                    assert(params_model(acc@) =~= parse_params(p@));
                }
                return acc;
            },
            Some(c) => {
                proof {
                    lemma_find_from_bounds(p@, ',', start as int);
                }
                let piece = subvec(p, start, c);
                let ghost before = params_model(acc@);
                match read_param_piece(&piece) {
                    Some(pm) => {
                        let ghost pmm = pm.model();
                        acc.push(pm);
                        proof {
                            assert(params_model(acc@) =~= before.push(pmm));
                            assert(before.push(pmm) =~= before + seq![pmm]);
                            assert((before + seq![pmm]) + parse_params_from(p@, c + 1) =~= before
                                + (seq![pmm] + parse_params_from(p@, c + 1)));
                        }
                    },
                    None => {
                        proof {
                            assert(before + Seq::<ParamModel>::empty() =~= before);
                            assert(before + parse_params_from(p@, c + 1) =~= before + (Seq::<
                                ParamModel,
                            >::empty() + parse_params_from(p@, c + 1)));
                        }
                    },
                }
                start = c + 1;
            },
        }
    }
}

/// The declared return type, executably.
pub fn read_ret(t: &Vec<char>, i: usize) -> (r: Vec<char>)
    requires
        i <= t.len(),
    ensures
        r@ == parse_ret(t@, i as int),
{
    if has_lit_at(t, i, " -> ") {
        proof {
            reveal_strlit(" -> ");
        }
        let e = word_run(t, i + 4);
        if e > i + 4 {
            subvec(t, i + 4, e)
        } else {
            lit_vec("void")
        }
    } else {
        lit_vec("void")
    }
}

/// Parse a function declaration line, executably.
pub fn read_fn(t: &Vec<char>) -> (r: Option<FunctionSig>)
    ensures
        match r {
            Some(sig) => parse_fn(t@) == Some(sig.model()),
            None => parse_fn(t@) is None,
        },
{
    let (m, off) = read_modifier(t);
    if !has_lit_at(t, off, "fn ") {
        return None;
    }
    proof {
        reveal_strlit("fn ");
    }
    let ns = off + 3;
    let ne = word_run(t, ns);
    if ne == ns {
        return None;
    }
    if !(ne < t.len() && t[ne] == '(') {
        return None;
    }
    match find_char(t, ')', ne + 1) {
        None => None,
        Some(close) => {
            proof {
                lemma_find_from_bounds(t@, ')', ne + 1);
            }
            let name = subvec(t, ns, ne);
            let params_text = subvec(t, ne + 1, close);
            let params = read_params(&params_text);
            let ret = read_ret(t, close + 1);
            let sig = FunctionSig { modifier: m, name, params, ret };
            proof {
                assert(sig.model().params =~= params_model(sig.params@));
                assert(sig.model() == parse_fn(t@).unwrap());
            }
            Some(sig)
        },
    }
}

/// The pieces of a counted-range loop header.
pub ghost struct RangeModel {
    pub var: Seq<char>,
    pub lo: Seq<char>,
    pub hi: Seq<char>,
}

/// The executable pieces of a counted-range loop header.
pub struct RangeParts {
    pub var: Vec<char>,
    pub lo: Vec<char>,
    pub hi: Vec<char>,
}

impl RangeParts {
    pub open spec fn model(&self) -> RangeModel {
        RangeModel { var: self.var@, lo: self.lo@, hi: self.hi@ }
    }
}

/// Parse `for <var> in range(<lo>, <hi>)`: a loop variable, then two decimal
/// bounds, with optional whitespace after the comma.
pub open spec fn parse_range(t: Seq<char>) -> Option<RangeModel> {
    if !lit_at(t, 0, "for "@) {
        None
    } else {
        let ve = word_end(t, 4);
        if ve == 4 {
            None
        } else if !lit_at(t, ve, " in range("@) {
            None
        } else {
            let ds = ve + 10;
            let de = digit_end(t, ds);
            if de == ds {
                None
            } else if !(de < t.len() && t[de] == ',') {
                None
            } else {
                let hs = space_end(t, de + 1);
                let he = digit_end(t, hs);
                if he == hs {
                    None
                } else if !(he < t.len() && t[he] == ')') {
                    None
                } else {
                    Some(
                        RangeModel {
                            var: t.subrange(4, ve),
                            lo: t.subrange(ds, de),
                            hi: t.subrange(hs, he),
                        },
                    )
                }
            }
        }
    }
}

/// Parse a counted-range loop header, executably.
pub fn read_range(t: &Vec<char>) -> (r: Option<RangeParts>)
    ensures
        match r {
            Some(parts) => parse_range(t@) == Some(parts.model()),
            None => parse_range(t@) is None,
        },
{
    if !has_lit_at(t, 0, "for ") {
        return None;
    }
    proof {
        reveal_strlit("for ");
    }
    let ve = word_run(t, 4);
    if ve == 4 {
        return None;
    }
    if !has_lit_at(t, ve, " in range(") {
        return None;
    }
    proof {
        reveal_strlit(" in range(");
    }
    let ds = ve + 10;
    let de = digit_run(t, ds);
    if de == ds {
        return None;
    }
    if !(de < t.len() && t[de] == ',') {
        return None;
    }
    let hs = space_run(t, de + 1);
    let he = digit_run(t, hs);
    if he == hs {
        return None;
    }
    if !(he < t.len() && t[he] == ')') {
        return None;
    }
    Some(RangeParts { var: subvec(t, 4, ve), lo: subvec(t, ds, de), hi: subvec(t, hs, he) })
}

/// The pieces of an element-iteration loop header.
pub ghost struct ForeachModel {
    pub var: Seq<char>,
    pub container: Seq<char>,
}

/// The executable pieces of an element-iteration loop header.
pub struct ForeachParts {
    pub var: Vec<char>,
    pub container: Vec<char>,
}

impl ForeachParts {
    pub open spec fn model(&self) -> ForeachModel {
        ForeachModel { var: self.var@, container: self.container@ }
    }
}

/// Parse `for <var> in <container>`: a loop variable bound to each element.
pub open spec fn parse_foreach(t: Seq<char>) -> Option<ForeachModel> {
    if !lit_at(t, 0, "for "@) {
        None
    } else {
        let ve = word_end(t, 4);
        if ve == 4 {
            None
        } else if !lit_at(t, ve, " in "@) {
            None
        } else {
            let ce = word_end(t, ve + 4);
            if ce == ve + 4 {
                None
            } else {
                Some(ForeachModel { var: t.subrange(4, ve), container: t.subrange(ve + 4, ce) })
            }
        }
    }
}

/// Parse an element-iteration loop header, executably.
pub fn read_foreach(t: &Vec<char>) -> (r: Option<ForeachParts>)
    ensures
        match r {
            Some(parts) => parse_foreach(t@) == Some(parts.model()),
            None => parse_foreach(t@) is None,
        },
{
    if !has_lit_at(t, 0, "for ") {
        return None;
    }
    proof {
        reveal_strlit("for ");
    }
    let ve = word_run(t, 4);
    if ve == 4 {
        return None;
    }
    if !has_lit_at(t, ve, " in ") {
        return None;
    }
    proof {
        reveal_strlit(" in ");
    }
    let ce = word_run(t, ve + 4);
    if ce == ve + 4 {
        return None;
    }
    Some(ForeachParts { var: subvec(t, 4, ve), container: subvec(t, ve + 4, ce) })
}

/// Whether position `i` holds an assignment operator: a bare `=` that is not
/// part of a comparison operator.
pub open spec fn is_assign_eq(t: Seq<char>, i: int) -> bool {
    &&& t[i] == '='
    &&& (i + 1 == t.len() || t[i + 1] != '=')
    &&& (i == 0 || !(t[i - 1] == '=' || t[i - 1] == '!' || t[i - 1] == '<' || t[i - 1] == '>'))
}

/// The first assignment operator at or after `i`; -1 if there is none.
pub open spec fn assign_pos_from(t: Seq<char>, i: int) -> int
    decreases t.len() - i,
{
    if i < 0 || i >= t.len() {
        -1
    } else if is_assign_eq(t, i) {
        i
    } else {
        assign_pos_from(t, i + 1)
    }
}

/// The first top-level assignment operator of the line; -1 if there is none.
pub open spec fn assign_pos(t: Seq<char>) -> int {
    assign_pos_from(t, 0)
}

pub proof fn lemma_assign_pos_bounds(t: Seq<char>, i: int)
    requires
        0 <= i,
    ensures
        assign_pos_from(t, i) == -1 || (i <= assign_pos_from(t, i) < t.len()),
    decreases t.len() - i,
{
    if i < t.len() && !is_assign_eq(t, i) {
        lemma_assign_pos_bounds(t, i + 1);
    }
}

/// Find the first top-level assignment operator, executably.
pub fn find_assign(t: &Vec<char>) -> (r: Option<usize>)
    ensures
        ({
            let f = assign_pos(t@);
            if f >= 0 {
                r == Some(f as usize)
            } else {
                r == None::<usize>
            }
        }),
{
    let n = t.len();
    let mut k: usize = 0;
    while k < n
        invariant
            0 <= k <= n,
            n == t.len(),
            assign_pos(t@) == assign_pos_from(t@, k as int),
        decreases n - k,
    {
        if t[k] == '=' && (k + 1 == n || t[k + 1] != '=') && (k == 0 || !(t[k - 1] == '=' || t[k
            - 1] == '!' || t[k - 1] == '<' || t[k - 1] == '>')) {
            return Some(k);
        }
        k += 1;
    }
    None
}

/// The sequence with every trailing statement terminator removed.
pub open spec fn strip_semis(s: Seq<char>) -> Seq<char>
    decreases s.len(),
{
    if s.len() > 0 && s[s.len() - 1] == ';' {
        strip_semis(s.take(s.len() - 1))
    } else {
        s
    }
}

pub proof fn lemma_strip_semis_index(s: Seq<char>, j: int)
    requires
        0 <= j <= s.len(),
        forall|k: int| j <= k < s.len() ==> s[k] == ';',
        j == 0 || s[j - 1] != ';',
    ensures
        strip_semis(s) == s.take(j),
    decreases s.len() - j,
{
    if j == s.len() {
        assert(s.take(j) =~= s);
    } else {
        lemma_strip_semis_index(s.take(s.len() - 1), j);
        assert(s.take(s.len() - 1).take(j) =~= s.take(j));
    }
}

/// Remove every trailing statement terminator, executably.
pub fn strip_semis_exec(s: &Vec<char>) -> (r: Vec<char>)
    ensures
        r@ == strip_semis(s@),
{
    let n = s.len();
    let mut j: usize = n;
    while j > 0 && s[j - 1] == ';'
        invariant
            0 <= j <= n,
            n == s.len(),
            forall|k: int| j <= k < n ==> s@[k] == ';',
        decreases j,
    {
        j -= 1;
    }
    proof {
        lemma_strip_semis_index(s@, j as int);
    }
    subvec(s, 0, j)
}

} // verus!
