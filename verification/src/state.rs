//! The translation state and its mathematical model.
//!
//! One `Translator` value is created per input and threaded through the whole
//! pass.  Recorded symbol information (variables, function signatures) is
//! accumulated but never consulted when later lines are translated: the
//! translation of a line depends only on the line's own text, the nesting
//! depth and the raw-capture flag.
use vstd::prelude::*;

verus! {

/// The optional visibility or binding modifier of a function declaration.
#[derive(Clone, Copy, PartialEq, Eq, Structural, Debug)]
pub enum Modifier {
    /// No modifier.
    Plain,
    /// Public access label.
    Public,
    /// Private access label.
    Private,
    /// Protected access label.
    Protected,
    /// Virtual binding prefix.
    Virtual,
    /// Static binding prefix.
    Static,
}

/// One declared parameter: its name and its (possibly inferred) type text.
pub struct Param {
    pub name: Vec<char>,
    pub ty: Vec<char>,
}

/// Mathematical view of a parameter.
pub ghost struct ParamModel {
    pub name: Seq<char>,
    pub ty: Seq<char>,
}

impl Param {
    pub open spec fn model(&self) -> ParamModel {
        ParamModel { name: self.name@, ty: self.ty@ }
    }
}

/// A parsed function declaration, as recorded in the function table.
pub struct FunctionSig {
    pub modifier: Modifier,
    pub name: Vec<char>,
    pub params: Vec<Param>,
    pub ret: Vec<char>,
}

/// Mathematical view of a function signature.
pub ghost struct SigModel {
    pub modifier: Modifier,
    pub name: Seq<char>,
    pub params: Seq<ParamModel>,
    pub ret: Seq<char>,
}

impl FunctionSig {
    pub open spec fn model(&self) -> SigModel {
        SigModel {
            modifier: self.modifier,
            name: self.name@,
            params: Seq::new(self.params@.len(), |i: int| self.params@[i].model()),
            ret: self.ret@,
        }
    }
}

/// One recorded variable declaration: name and recorded type text.
pub struct VarRecord {
    pub name: Vec<char>,
    pub ty: Vec<char>,
}

/// Mathematical view of a variable record.
pub ghost struct VarModel {
    pub name: Seq<char>,
    pub ty: Seq<char>,
}

impl VarRecord {
    pub open spec fn model(&self) -> VarModel {
        VarModel { name: self.name@, ty: self.ty@ }
    }
}

/// Mathematical view of the whole translation state.
pub ghost struct StateModel {
    /// Recorded variable declarations, in arrival order.
    pub vars: Seq<VarModel>,
    /// Recorded function signatures, in arrival order.
    pub funs: Seq<SigModel>,
    /// Nesting depth: how many block openers are currently unclosed.
    pub depth: int,
    /// Whether a raw passthrough region is being captured.
    pub capturing: bool,
    /// The lines captured so far in the current raw region.
    pub raw: Seq<Seq<char>>,
}

/// The state at the start of a translation pass.
pub open spec fn init_model() -> StateModel {
    StateModel {
        vars: Seq::empty(),
        funs: Seq::empty(),
        depth: 0,
        capturing: false,
        raw: Seq::empty(),
    }
}

/// The state is well formed when the raw buffer is empty outside a capture.
pub open spec fn state_wf(st: StateModel) -> bool {
    (!st.capturing ==> st.raw.len() == 0) && st.depth >= 0
}

/// The mutable state of one translation pass.
pub struct Translator {
    /// Recorded variable declarations, in arrival order; later records of the
    /// same name shadow earlier ones (last write wins).
    pub variables: Vec<VarRecord>,
    /// Recorded function signatures, in arrival order; last write wins.
    pub functions: Vec<FunctionSig>,
    /// Current nesting depth.
    pub depth: usize,
    /// Whether a raw passthrough region is open.
    pub capturing: bool,
    /// Lines captured in the current raw region, in input order.
    pub raw_buffer: Vec<Vec<char>>,
}

/// The views of a sequence of character lines.
pub open spec fn lines_view(v: Seq<Vec<char>>) -> Seq<Seq<char>> {
    Seq::new(v.len(), |i: int| v[i]@)
}

pub proof fn lemma_lines_view_push(v: Seq<Vec<char>>, x: Vec<char>)
    ensures
        lines_view(v.push(x)) =~= lines_view(v).push(x@),
{
}

/// The type recorded for a name, where the latest record wins.
pub open spec fn lookup_last(vars: Seq<VarModel>, name: Seq<char>) -> Option<Seq<char>>
    decreases vars.len(),
{
    if vars.len() == 0 {
        None
    } else if vars.last().name == name {
        Some(vars.last().ty)
    } else {
        lookup_last(vars.drop_last(), name)
    }
}

impl Translator {
    pub open spec fn model(&self) -> StateModel {
        StateModel {
            vars: Seq::new(self.variables@.len(), |i: int| self.variables@[i].model()),
            funs: Seq::new(self.functions@.len(), |i: int| self.functions@[i].model()),
            depth: self.depth as int,
            capturing: self.capturing,
            raw: lines_view(self.raw_buffer@),
        }
    }

    /// A fresh translation state: empty tables, depth zero, not capturing.
    pub fn new() -> (r: Translator)
        ensures
            r.model() == init_model(),
    {
        let r = Translator {
            variables: Vec::new(),
            functions: Vec::new(),
            depth: 0,
            capturing: false,
            raw_buffer: Vec::new(),
        };
        proof {
            assert(r.model().vars =~= init_model().vars);
            assert(r.model().funs =~= init_model().funs);
            assert(r.model().raw =~= init_model().raw);
        }
        r
    }

    /// The type currently recorded for a variable name: records of the same
    /// name silently overwrite, so the latest record wins.
    pub fn recorded_type(&self, name: &Vec<char>) -> (r: Option<Vec<char>>)
        ensures
            match r {
                Some(ty) => lookup_last(self.model().vars, name@) == Some(ty@),
                None => lookup_last(self.model().vars, name@) is None,
            },
    {
        let ghost vars = self.model().vars;
        let mut i: usize = self.variables.len();
        proof {
            assert(vars.take(i as int) =~= vars);
        }
        while i > 0
            invariant
                i <= self.variables.len(),
                vars == self.model().vars,
                lookup_last(vars, name@) == lookup_last(vars.take(i as int), name@),
            decreases i,
        {
            i -= 1;
            proof {
                assert(vars.take(i + 1).last() == vars[i as int]);
                assert(vars.take(i + 1).drop_last() =~= vars.take(i as int));
            }
            if crate::text::chars_eq(&self.variables[i].name, name) {
                let ty = crate::text::subvec(&self.variables[i].ty, 0, self.variables[i].ty.len());
                proof {
                    assert(ty@ =~= vars[i as int].ty);
                }
                return Some(ty);
            }
        }
        proof {
            assert(vars.take(0).len() == 0);
        }
        None
    }

    /// The position of the function signature currently recorded for a name:
    /// the latest record wins.
    pub fn recorded_fn(&self, name: &Vec<char>) -> (r: Option<usize>)
        ensures
            match r {
                Some(i) => 0 <= i < self.model().funs.len() && self.model().funs[i as int].name
                    == name@ && (forall|k: int|
                    i < k < self.model().funs.len() ==> #[trigger] self.model().funs[k].name
                        != name@),
                None => forall|k: int|
                    0 <= k < self.model().funs.len() ==> #[trigger] self.model().funs[k].name
                        != name@,
            },
    {
        let ghost funs = self.model().funs;
        let mut i: usize = self.functions.len();
        while i > 0
            invariant
                i <= self.functions.len(),
                funs == self.model().funs,
                forall|k: int| i <= k < funs.len() ==> #[trigger] funs[k].name != name@,
            decreases i,
        {
            i -= 1;
            if crate::text::chars_eq(&self.functions[i].name, name) {
                return Some(i);
            }
        }
        None
    }
}

} // verus!
