//! The translation pass itself: the per-line translation rule as one
//! specification function, the executable step proved equal to it, and the
//! whole-input pipeline (split, translate, join, fixed prelude).
use vstd::prelude::*;
use crate::emit::{
    assign_line, cat3, diagnostic_line, emit_assign, emit_diagnostic, emit_foreach, emit_kw_rest,
    emit_passthrough, emit_range, emit_return, emit_signature, emit_type, foreach_line, opt_rest,
    passthrough_line, range_line, return_line, signature_line, type_line, use_line,
};
use crate::parse::{
    assign_pos, find_assign, has_lit_at, is_fn_candidate, lemma_assign_pos_bounds, lit_at,
    parse_fn, parse_foreach, parse_range, read_fn, read_foreach, read_modifier, read_range,
    strip_semis, strip_semis_exec,
};
use crate::state::{
    init_model, lemma_lines_view_push, lines_view, StateModel, Translator, VarModel, VarRecord,
};
use crate::text::{
    contains_seq, contains_lit, eq_lit, find_char, find_from, lemma_find_from_bounds, lit_vec,
    push_all, subvec, trim_chars, trimmed,
};

verus! {

/// Whether the trimmed line is a comment (either comment marker).
pub open spec fn is_comment(t: Seq<char>) -> bool {
    lit_at(t, 0, "//"@) || lit_at(t, 0, "##"@)
}

/// Position of the first space: the boundary of the head token.
pub open spec fn head_split(t: Seq<char>) -> int {
    find_from(t, ' ', 0)
}

/// The first whitespace-delimited token of the line.
pub open spec fn head_token(t: Seq<char>) -> Seq<char> {
    if head_split(t) < 0 {
        t
    } else {
        t.subrange(0, head_split(t))
    }
}

/// Whatever follows the head token and its space, forwarded verbatim.
pub open spec fn tail_rest(t: Seq<char>) -> Seq<char> {
    if head_split(t) < 0 {
        Seq::empty()
    } else {
        t.subrange(head_split(t) + 1, t.len() as int)
    }
}

/// Whether the head token names a directive.
pub open spec fn is_directive(t: Seq<char>) -> bool {
    ||| head_token(t) == "use"@
    ||| head_token(t) == "def"@
    ||| head_token(t) == "ifdef"@
    ||| head_token(t) == "ifndef"@
    ||| head_token(t) == "endif"@
    ||| head_token(t) == "type"@
}

/// The one-line target directive a directive line becomes.
pub open spec fn directive_out(t: Seq<char>) -> Seq<char> {
    let k = head_token(t);
    let rest = tail_rest(t);
    if k == "use"@ {
        use_line(rest)
    } else if k == "def"@ {
        opt_rest("#define"@, rest)
    } else if k == "ifdef"@ {
        opt_rest("#ifdef"@, rest)
    } else if k == "ifndef"@ {
        opt_rest("#ifndef"@, rest)
    } else if k == "endif"@ {
        opt_rest("#endif"@, rest)
    } else {
        type_line(rest)
    }
}

/// Whether the line is an assignment: no compound-assignment operator
/// anywhere, and a bare `=` that is not part of a comparison.
pub open spec fn is_assignment(t: Seq<char>) -> bool {
    &&& !contains_seq(t, "-="@)
    &&& !contains_seq(t, "+="@)
    &&& !contains_seq(t, "*="@)
    &&& !contains_seq(t, "/="@)
    &&& assign_pos(t) >= 0
}

/// The declared name of an assignment's left side.
pub open spec fn assign_name(left: Seq<char>) -> Seq<char> {
    let c = find_from(left, ':', 0);
    if c < 0 {
        trimmed(left)
    } else {
        trimmed(left.subrange(0, c))
    }
}

/// The recorded type of an assignment's left side: the annotation when one is
/// written, the inferred-type placeholder otherwise.
pub open spec fn assign_ty(left: Seq<char>) -> Seq<char> {
    let c = find_from(left, ':', 0);
    if c < 0 {
        "any"@
    } else {
        trimmed(left.subrange(c + 1, left.len() as int))
    }
}

/// Translate one trimmed, non-blank content line outside any raw region:
/// directives first, then function declarations, block close, conditionals,
/// loops, return, assignment, and last the expression-statement fallback.
pub open spec fn spec_content(st: StateModel, t: Seq<char>) -> (StateModel, Seq<Seq<char>>) {
    if is_directive(t) {
        (st, seq![directive_out(t)])
    } else if is_fn_candidate(t) {
        match parse_fn(t) {
            Some(sig) => (
                StateModel { funs: st.funs.push(sig), depth: st.depth + 1, ..st },
                seq![signature_line(sig)],
            ),
            None => (st, seq![diagnostic_line(t)]),
        }
    } else if t == "}"@ {
        (
            StateModel { depth: if st.depth > 0 { st.depth - 1 } else { 0 }, ..st },
            seq!["}"@],
        )
    } else if lit_at(t, 0, "if "@) {
        (StateModel { depth: st.depth + 1, ..st }, seq!["if "@ + trimmed(t.skip(3))])
    } else if lit_at(t, 0, "} else if "@) {
        (st, seq!["} else "@ + trimmed(t.skip(7))])
    } else if lit_at(t, 0, "} else"@) {
        (st, seq!["} else {"@])
    } else if lit_at(t, 0, "for "@) {
        match parse_range(t) {
            Some(r) => (StateModel { depth: st.depth + 1, ..st }, seq![range_line(r)]),
            None => match parse_foreach(t) {
                Some(f) => (StateModel { depth: st.depth + 1, ..st }, seq![foreach_line(f)]),
                None => (st, seq![diagnostic_line(t)]),
            },
        }
    } else if lit_at(t, 0, "while "@) {
        (StateModel { depth: st.depth + 1, ..st }, seq!["while "@ + trimmed(t.skip(6))])
    } else if lit_at(t, 0, "return "@) {
        (st, seq![return_line(trimmed(t.skip(7)))])
    } else if is_assignment(t) {
        let i = assign_pos(t);
        let left = t.subrange(0, i);
        let right = t.subrange(i + 1, t.len() as int);
        let name = assign_name(left);
        let ty = assign_ty(left);
        let value = strip_semis(trimmed(right));
        (
            StateModel { vars: st.vars.push(VarModel { name, ty }), ..st },
            seq![assign_line(ty, name, value)],
        )
    } else {
        (st, seq![passthrough_line(t)])
    }
}

/// Translate one raw input line.  The line is trimmed; a blank line emits one
/// blank output line whatever the state; the raw-capture machinery comes
/// next; a comment emits nothing; everything else is content.
pub open spec fn spec_step(st: StateModel, line: Seq<char>) -> (StateModel, Seq<Seq<char>>) {
    let t = trimmed(line);
    if t.len() == 0 {
        (st, seq![Seq::<char>::empty()])
    } else if t == "::++ {"@ {
        (StateModel { capturing: true, ..st }, Seq::empty())
    } else if st.capturing {
        if t == "}"@ {
            (StateModel { capturing: false, raw: Seq::empty(), ..st }, st.raw)
        } else {
            (StateModel { raw: st.raw.push(t), ..st }, Seq::empty())
        }
    } else if is_comment(t) {
        (st, Seq::empty())
    } else {
        spec_content(st, t)
    }
}

/// Translate a whole sequence of lines, in order, threading the state.
pub open spec fn spec_run(st: StateModel, lines: Seq<Seq<char>>) -> (StateModel, Seq<Seq<char>>)
    decreases lines.len(),
{
    if lines.len() == 0 {
        (st, Seq::empty())
    } else {
        let first = spec_step(st, lines[0]);
        let rest = spec_run(first.0, lines.skip(1));
        (rest.0, first.1 + rest.1)
    }
}

/// One step never raises the nesting depth by more than one.
#[verifier::rlimit(50)]
pub proof fn lemma_step_depth_bound(st: StateModel, line: Seq<char>)
    requires
        st.depth >= 0,
    ensures
        spec_step(st, line).0.depth <= st.depth + 1,
        spec_step(st, line).0.depth >= 0,
{
    let t = trimmed(line);
    if t.len() == 0 || t == "::++ {"@ || st.capturing || is_comment(t) {
    } else {
        assert(spec_step(st, line) == spec_content(st, t));
        assert(spec_content(st, t).0.depth <= st.depth + 1);
    }
}

impl Translator {
    /// Translate one input line, appending its output lines to `out`.
    pub fn step(&mut self, line: &Vec<char>, out: &mut Vec<Vec<char>>)
        requires
            old(self).depth < usize::MAX,
        ensures
            ({
                let sr = spec_step(old(self).model(), line@);
                final(self).model() == sr.0 && lines_view(final(out)@) == lines_view(old(out)@)
                    + sr.1
            }),
    {
        let t = trim_chars(line);
        if t.len() == 0 {
            out.push(Vec::new());
            proof {
                assert(lines_view(out@) =~= lines_view(old(out)@) + seq![Seq::<char>::empty()]);
            }
            return;
        }
        if eq_lit(&t, "::++ {") {
            let ghost st0 = self.model();
            self.capturing = true;
            proof {
                assert(self.model() == StateModel { capturing: true, ..st0 });
                assert(lines_view(out@) =~= lines_view(old(out)@) + Seq::<Seq<char>>::empty());
            }
            return;
        }
        if self.capturing {
            if eq_lit(&t, "}") {
                let ghost st0 = self.model();
                self.capturing = false;
                out.append(&mut self.raw_buffer);
                proof {
                    assert(self.model().raw =~= Seq::<Seq<char>>::empty());
                    assert(self.model() == StateModel {
                        capturing: false,
                        raw: Seq::empty(),
                        ..st0
                    });
                    assert(lines_view(out@) =~= lines_view(old(out)@) + st0.raw);
                }
            } else {
                let ghost st0 = self.model();
                let ghost tv = t@;
                self.raw_buffer.push(t);
                proof {
                    assert(self.model().raw =~= st0.raw.push(tv));
                    assert(self.model() == StateModel { raw: st0.raw.push(tv), ..st0 });
                    assert(lines_view(out@) =~= lines_view(old(out)@) + Seq::<Seq<char>>::empty());
                }
            }
            return;
        }
        if has_lit_at(&t, 0, "//") || has_lit_at(&t, 0, "##") {
            proof {
                assert(lines_view(out@) =~= lines_view(old(out)@) + Seq::<Seq<char>>::empty());
            }
            return;
        }
        self.content_step(&t, out);
    }

    /// Translate one trimmed content line.
    #[verifier::rlimit(50)]
    fn content_step(&mut self, t: &Vec<char>, out: &mut Vec<Vec<char>>)
        requires
            old(self).depth < usize::MAX,
        ensures
            ({
                let sr = spec_content(old(self).model(), t@);
                final(self).model() == sr.0 && lines_view(final(out)@) == lines_view(old(out)@)
                    + sr.1
            }),
    {
        let ghost st0 = self.model();
        // Directives: the head token decides.
        let head: Vec<char>;
        let rest: Vec<char>;
        match find_char(t, ' ', 0) {
            None => {
                head = subvec(t, 0, t.len());
                rest = Vec::new();
                proof {
                    assert(head@ =~= head_token(t@));
                    assert(rest@ =~= tail_rest(t@));
                }
            },
            Some(i) => {
                proof {
                    lemma_find_from_bounds(t@, ' ', 0);
                }
                head = subvec(t, 0, i);
                rest = subvec(t, i + 1, t.len());
            },
        }
        if eq_lit(&head, "use") {
            let mid = trim_chars(&rest);
            let line_out = cat3("#include <", &mid, ">");
            out.push(line_out);
            proof {
                assert(lines_view(out@) =~= lines_view(old(out)@) + seq![directive_out(t@)]);
            }
            return;
        }
        if eq_lit(&head, "def") {
            let line_out = emit_kw_rest("#define", &rest);
            out.push(line_out);
            proof {
                assert(lines_view(out@) =~= lines_view(old(out)@) + seq![directive_out(t@)]);
            }
            return;
        }
        if eq_lit(&head, "ifdef") {
            let line_out = emit_kw_rest("#ifdef", &rest);
            out.push(line_out);
            proof {
                assert(lines_view(out@) =~= lines_view(old(out)@) + seq![directive_out(t@)]);
            }
            return;
        }
        if eq_lit(&head, "ifndef") {
            let line_out = emit_kw_rest("#ifndef", &rest);
            out.push(line_out);
            proof {
                assert(lines_view(out@) =~= lines_view(old(out)@) + seq![directive_out(t@)]);
            }
            return;
        }
        if eq_lit(&head, "endif") {
            let line_out = emit_kw_rest("#endif", &rest);
            out.push(line_out);
            proof {
                assert(lines_view(out@) =~= lines_view(old(out)@) + seq![directive_out(t@)]);
            }
            return;
        }
        if eq_lit(&head, "type") {
            let line_out = emit_type(&rest);
            out.push(line_out);
            proof {
                assert(lines_view(out@) =~= lines_view(old(out)@) + seq![directive_out(t@)]);
            }
            return;
        }
        proof {
            assert(!is_directive(t@));
        }
        // Function declarations.
        let (_m, off) = read_modifier(t);
        if has_lit_at(t, off, "fn") {
            match read_fn(t) {
                Some(sig) => {
                    let ghost sigm = sig.model();
                    let line_out = emit_signature(&sig);
                    out.push(line_out);
                    self.functions.push(sig);
                    self.depth = self.depth + 1;
                    proof {
                        assert(self.model().funs =~= st0.funs.push(sigm));
                        assert(self.model() == StateModel {
                            funs: st0.funs.push(sigm),
                            depth: st0.depth + 1,
                            ..st0
                        });
                        assert(lines_view(out@) =~= lines_view(old(out)@) + seq![
                            signature_line(sigm),
                        ]);
                    }
                },
                None => {
                    let line_out = emit_diagnostic(t);
                    out.push(line_out);
                    proof {
                        assert(lines_view(out@) =~= lines_view(old(out)@) + seq![
                            diagnostic_line(t@),
                        ]);
                    }
                },
            }
            return;
        }
        // A bare closing brace ends the innermost block; the depth is clamped
        // at zero when the input closes more blocks than it opened.
        if eq_lit(t, "}") {
            out.push(lit_vec("}"));
            if self.depth > 0 {
                self.depth = self.depth - 1;
            }
            proof {
                assert(self.model() == StateModel {
                    depth: if st0.depth > 0 { st0.depth - 1 } else { 0 },
                    ..st0
                });
                assert(lines_view(out@) =~= lines_view(old(out)@) + seq!["}"@]);
            }
            return;
        }
        if has_lit_at(t, 0, "if ") {
            proof {
                reveal_strlit("if ");
            }
            let cond = trim_chars(&subvec(t, 3, t.len()));
            let line_out = cat3("if ", &cond, "");
            out.push(line_out);
            self.depth = self.depth + 1;
            proof {
                reveal_strlit("");
                assert(("if "@ + cond@ + ""@) =~= "if "@ + trimmed(t@.skip(3)));
                assert(self.model() == StateModel { depth: st0.depth + 1, ..st0 });
                assert(lines_view(out@) =~= lines_view(old(out)@) + seq![
                    "if "@ + trimmed(t@.skip(3)),
                ]);
            }
            return;
        }
        if has_lit_at(t, 0, "} else if ") {
            proof {
                reveal_strlit("} else if ");
            }
            let mid = trim_chars(&subvec(t, 7, t.len()));
            let line_out = cat3("} else ", &mid, "");
            out.push(line_out);
            proof {
                reveal_strlit("");
                assert(("} else "@ + mid@ + ""@) =~= "} else "@ + trimmed(t@.skip(7)));
                assert(lines_view(out@) =~= lines_view(old(out)@) + seq![
                    "} else "@ + trimmed(t@.skip(7)),
                ]);
            }
            return;
        }
        if has_lit_at(t, 0, "} else") {
            out.push(lit_vec("} else {"));
            proof {
                assert(lines_view(out@) =~= lines_view(old(out)@) + seq!["} else {"@]);
            }
            return;
        }
        if has_lit_at(t, 0, "for ") {
            match read_range(t) {
                Some(parts) => {
                    let line_out = emit_range(&parts.var, &parts.lo, &parts.hi);
                    out.push(line_out);
                    self.depth = self.depth + 1;
                    proof {
                        assert(self.model() == StateModel { depth: st0.depth + 1, ..st0 });
                        assert(lines_view(out@) =~= lines_view(old(out)@) + seq![
                            range_line(parse_range(t@).unwrap()),
                        ]);
                    }
                },
                None => {
                    match read_foreach(t) {
                        Some(parts) => {
                            let line_out = emit_foreach(&parts.var, &parts.container);
                            out.push(line_out);
                            self.depth = self.depth + 1;
                            proof {
                                assert(self.model() == StateModel { depth: st0.depth + 1, ..st0 });
                                assert(lines_view(out@) =~= lines_view(old(out)@) + seq![
                                    foreach_line(parse_foreach(t@).unwrap()),
                                ]);
                            }
                        },
                        None => {
                            let line_out = emit_diagnostic(t);
                            out.push(line_out);
                            proof {
                                assert(lines_view(out@) =~= lines_view(old(out)@) + seq![
                                    diagnostic_line(t@),
                                ]);
                            }
                        },
                    }
                },
            }
            return;
        }
        if has_lit_at(t, 0, "while ") {
            proof {
                reveal_strlit("while ");
            }
            let cond = trim_chars(&subvec(t, 6, t.len()));
            let line_out = cat3("while ", &cond, "");
            out.push(line_out);
            self.depth = self.depth + 1;
            proof {
                reveal_strlit("");
                assert(("while "@ + cond@ + ""@) =~= "while "@ + trimmed(t@.skip(6)));
                assert(self.model() == StateModel { depth: st0.depth + 1, ..st0 });
                assert(lines_view(out@) =~= lines_view(old(out)@) + seq![
                    "while "@ + trimmed(t@.skip(6)),
                ]);
            }
            return;
        }
        if has_lit_at(t, 0, "return ") {
            proof {
                reveal_strlit("return ");
            }
            let expr = trim_chars(&subvec(t, 7, t.len()));
            let line_out = emit_return(&expr);
            out.push(line_out);
            proof {
                assert(lines_view(out@) =~= lines_view(old(out)@) + seq![
                    return_line(trimmed(t@.skip(7))),
                ]);
            }
            return;
        }
        // Assignments: no compound operator anywhere, and a bare `=`.
        if !contains_lit(t, "-=") && !contains_lit(t, "+=") && !contains_lit(t, "*=")
            && !contains_lit(t, "/=") {
            match find_assign(t) {
                Some(i) => {
                    proof {
                        lemma_assign_pos_bounds(t@, 0);
                    }
                    let left = subvec(t, 0, i);
                    let right = subvec(t, i + 1, t.len());
                    let name: Vec<char>;
                    let ty: Vec<char>;
                    match find_char(&left, ':', 0) {
                        None => {
                            name = trim_chars(&left);
                            ty = lit_vec("any");
                        },
                        Some(c) => {
                            proof {
                                lemma_find_from_bounds(left@, ':', 0);
                            }
                            name = trim_chars(&subvec(&left, 0, c));
                            ty = trim_chars(&subvec(&left, c + 1, left.len()));
                        },
                    }
                    let value = strip_semis_exec(&trim_chars(&right));
                    let line_out = emit_assign(&ty, &name, &value);
                    out.push(line_out);
                    let ghost namev = name@;
                    let ghost tyv = ty@;
                    self.variables.push(VarRecord { name, ty });
                    proof {
                        assert(self.model().vars =~= st0.vars.push(
                            VarModel { name: namev, ty: tyv },
                        ));
                        assert(self.model() == StateModel {
                            vars: st0.vars.push(VarModel { name: namev, ty: tyv }),
                            ..st0
                        });
                        assert(lines_view(out@) =~= lines_view(old(out)@) + seq![
                            assign_line(tyv, namev, strip_semis(trimmed(t@.subrange(
                                assign_pos(t@) + 1,
                                t@.len() as int,
                            )))),
                        ]);
                    }
                    return;
                },
                None => {
                },
            }
        }
        let line_out = emit_passthrough(t);
        out.push(line_out);
        proof {
            assert(lines_view(out@) =~= lines_view(old(out)@) + seq![passthrough_line(t@)]);
        }
    }

    /// Translate a whole sequence of lines, appending their output to `out`.
    pub fn run(&mut self, lines: &Vec<Vec<char>>, out: &mut Vec<Vec<char>>)
        requires
            old(self).depth + lines@.len() <= usize::MAX,
        ensures
            ({
                let sr = spec_run(old(self).model(), lines_view(lines@));
                final(self).model() == sr.0 && lines_view(final(out)@) == lines_view(old(out)@)
                    + sr.1
            }),
    {
        let ghost full = lines_view(lines@);
        let ghost st0 = self.model();
        proof {
            assert(full.skip(0) =~= full);
        }
        let n = lines.len();
        let mut i: usize = 0;
        while i < n
            invariant
                0 <= i <= n,
                n == lines@.len(),
                self.depth + (n - i) <= usize::MAX,
                spec_run(st0, full).0 == spec_run(self.model(), full.skip(i as int)).0,
                lines_view(out@) + spec_run(self.model(), full.skip(i as int)).1 == lines_view(
                    old(out)@,
                ) + spec_run(st0, full).1,
                full == lines_view(lines@),
            decreases n - i,
        {
            let ghost cur = self.model();
            let ghost tail = full.skip(i as int);
            proof {
                assert(tail.len() > 0);
                assert(tail[0] == lines@[i as int]@);
                assert(tail.skip(1) =~= full.skip(i + 1));
                lemma_step_depth_bound(cur, tail[0]);
            }
            let ghost out_before = lines_view(out@);
            self.step(&lines[i], out);
            proof {
                let sr = spec_step(cur, tail[0]);
                assert(spec_run(cur, tail).0 == spec_run(sr.0, tail.skip(1)).0);
                assert(spec_run(cur, tail).1 == sr.1 + spec_run(sr.0, tail.skip(1)).1);
                assert((out_before + sr.1) + spec_run(sr.0, full.skip(i + 1)).1 =~= out_before + (
                sr.1 + spec_run(sr.0, full.skip(i + 1)).1));
            }
            i += 1;
        }
        proof {
            assert(full.skip(n as int).len() == 0);
            assert(lines_view(out@) + Seq::<Seq<char>>::empty() =~= lines_view(out@));
        }
    }
}

/// Split the input text into its lines at each newline character.
pub open spec fn spec_split_from(s: Seq<char>, i: int) -> Seq<Seq<char>>
    decreases s.len() - i,
    via spec_split_from_decreases
{
    if i < 0 || i > s.len() {
        Seq::empty()
    } else {
        let j = find_from(s, '\n', i);
        if j < 0 {
            seq![s.subrange(i, s.len() as int)]
        } else {
            seq![s.subrange(i, j)] + spec_split_from(s, j + 1)
        }
    }
}

#[via_fn]
proof fn spec_split_from_decreases(s: Seq<char>, i: int) {
    if 0 <= i <= s.len() {
        lemma_find_from_bounds(s, '\n', i);
    }
}

/// The lines of the input text.
pub open spec fn spec_split(s: Seq<char>) -> Seq<Seq<char>> {
    spec_split_from(s, 0)
}

/// Split the input into lines, executably.
pub fn split_lines(input: &Vec<char>) -> (r: Vec<Vec<char>>)
    ensures
        lines_view(r@) == spec_split(input@),
{
    let mut acc: Vec<Vec<char>> = Vec::new();
    let mut start: usize = 0;
    loop
        invariant
            start <= input.len(),
            lines_view(acc@) + spec_split_from(input@, start as int) == spec_split(input@),
        decreases input.len() - start,
    {
        let ghost before = lines_view(acc@);
        match find_char(input, '\n', start) {
            None => {
                let piece = subvec(input, start, input.len());
                let ghost piecev = piece@;
                acc.push(piece);
                proof {
                    lemma_lines_view_push(acc@.drop_last(), acc@.last());
                    assert(lines_view(acc@) =~= before.push(piecev));
                    assert(before.push(piecev) =~= before + seq![piecev]);
                    assert(lines_view(acc@) =~= spec_split(input@));
                }
                return acc;
            },
            Some(j) => {
                proof {
                    lemma_find_from_bounds(input@, '\n', start as int);
                }
                let piece = subvec(input, start, j);
                let ghost piecev = piece@;
                acc.push(piece);
                proof {
                    assert(lines_view(acc@) =~= before.push(piecev));
                    assert(before.push(piecev) =~= before + seq![piecev]);
                    assert((before + seq![piecev]) + spec_split_from(input@, j + 1) =~= before + (
                    seq![piecev] + spec_split_from(input@, j + 1)));
                }
                start = j + 1;
            },
        }
    }
}

/// The lines after the first, each preceded by a newline.
pub open spec fn join_rest(ls: Seq<Seq<char>>) -> Seq<char>
    decreases ls.len(),
{
    if ls.len() == 0 {
        Seq::empty()
    } else {
        seq!['\n'] + ls[0] + join_rest(ls.skip(1))
    }
}

/// The lines joined by single newlines.
pub open spec fn spec_join(ls: Seq<Seq<char>>) -> Seq<char> {
    if ls.len() == 0 {
        Seq::empty()
    } else {
        ls[0] + join_rest(ls.skip(1))
    }
}

/// Join lines with newlines, executably.
pub fn join_lines(ls: &Vec<Vec<char>>) -> (r: Vec<char>)
    ensures
        r@ == spec_join(lines_view(ls@)),
{
    let ghost m = lines_view(ls@);
    let mut r: Vec<char> = Vec::new();
    if ls.len() == 0 {
        return r;
    }
    push_all(&mut r, &ls[0]);
    proof {
        assert(r@ =~= m[0]);
    }
    let mut i: usize = 1;
    while i < ls.len()
        invariant
            1 <= i <= ls@.len(),
            m == lines_view(ls@),
            r@ + join_rest(m.skip(i as int)) == spec_join(m),
        decreases ls@.len() - i,
    {
        let ghost before = r@;
        r.push('\n');
        push_all(&mut r, &ls[i]);
        proof {
            assert(m.skip(i as int)[0] == m[i as int]);
            assert(m.skip(i as int).skip(1) =~= m.skip(i + 1));
            assert(r@ =~= before + (seq!['\n'] + m[i as int]));
            assert(before + (seq!['\n'] + m[i as int]) + join_rest(m.skip(i + 1)) =~= before + (
            seq!['\n'] + m[i as int] + join_rest(m.skip(i + 1))));
        }
        i += 1;
    }
    proof {
        assert(m.skip(ls@.len() as int).len() == 0);
        assert(r@ + Seq::<char>::empty() =~= r@);
    }
    r
}

/// The characters of a string slice as a vector.
pub fn str_to_chars(s: &str) -> (r: Vec<char>)
    ensures
        r@ == s@,
{
    let n = s.unicode_len();
    let mut r: Vec<char> = Vec::new();
    let mut i: usize = 0;
    while i < n
        invariant
            0 <= i <= n,
            n == s@.len(),
            r@ == s@.subrange(0, i as int),
        decreases n - i,
    {
        r.push(s.get_char(i));
        proof {
            assert(s@.subrange(0, i as int).push(s@[i as int]) =~= s@.subrange(0, i + 1));
        }
        i += 1;
    }
    proof {
        assert(s@.subrange(0, n as int) =~= s@);
    }
    r
}

/// Relies on `String::from_iter` over `char`: collecting characters yields
/// the string of exactly those characters, in order.
#[verifier::external_body]
fn chars_to_string(v: &Vec<char>) -> (r: String)
    ensures
        r@ == v@,
{
    v.iter().collect()
}

/// The constant target-language prelude that every translation begins with:
/// include directives, macro aliases for the surface keywords, and a small
/// fixed runtime shim.
pub open spec fn spec_prelude() -> Seq<Seq<char>> {
    seq![
        "#include <iostream>"@,
        "#define any auto"@,
        "#define lib namespace"@,
        "#define tn typename"@,
        "#define pub public"@,
        "#define priv private"@,
        "#define prot protected"@,
        "#define virt virtual"@,
        "#define println print"@,
        "#define blueprint(...) template <__VA_ARGS__>"@,
        "#define null nullptr"@,
        "#define mut const"@,
        "#define match(val) switch(val)"@,
        "#define case(val) case val:"@,
        "#include <fstream>"@,
        "#include <string>"@,
        "#include <functional>"@,
        "#include <memory>"@,
        "#include <cmath>"@,
        "#include <ctime>"@,
        "#include <stdexcept>"@,
        "#include <cstdio>"@,
        "#include <filesystem>"@,
        "#include <vector>"@,
        "using namespace std;"@,
        "void print(auto x) {cout << x << '\\n';}"@,
        "void printn(auto x) {cout << x;}"@,
        "int $(char* x) {return system(x);}"@,
        "lib Astra {"@,
        "class fs { pub: static void write(const std::string& p, const std::string& c) { std::ofstream(p) << c; } static std::string read(const std::string& p) { std::ifstream f(p); return {std::istreambuf_iterator<char>(f), {}}; } static void remove(const std::string& p) { std::filesystem::remove(p); } static std::vector<std::string> list(const std::string& d) { std::vector<std::string> fs; for (auto& e : std::filesystem::directory_iterator(d)) {fs.push_back(e.path().string());} return fs; } };"@,
        "blueprint(tn T)"@,
        "class DynamicArray {"@,
        "pub:"@,
        "T* arr;"@,
        "size_t capacity, size;"@,
        "void resize() { capacity *= 2; T* newArr = new T[capacity]; for (size_t i = 0; i < size; ++i) newArr[i] = arr[i]; delete[] arr; arr = newArr; }"@,
        "DynamicArray(size_t initial_capacity = 2) : capacity(initial_capacity), size(0) { arr = new T[capacity]; }"@,
        "~DynamicArray() { delete[] arr; }"@,
        "void add(T value) { if (size == capacity) resize(); arr[size++] = value; }"@,
        "T get(size_t index) const { if (index >= size) throw std::out_of_range(\"Index out of range\"); return arr[index]; }"@,
        "size_t getSize() const { return size; }"@,
        "void removeAt(size_t index) { if (index >= size) throw std::out_of_range(\"Index out of range\"); for (size_t i = index; i < size - 1; ++i) arr[i] = arr[i + 1]; --size; }"@,
        "void print() const { for (size_t i = 0; i < size; ++i) std::cout << arr[i] << ' '; std::cout << std::endl; }"@,
        "};"@,
        "}"@,
    ]
}

/// Build the constant prelude, executably.
pub fn prelude_lines() -> (r: Vec<Vec<char>>)
    ensures
        lines_view(r@) == spec_prelude(),
{
    let mut r: Vec<Vec<char>> = Vec::new();
    r.push(lit_vec("#include <iostream>"));
    r.push(lit_vec("#define any auto"));
    r.push(lit_vec("#define lib namespace"));
    r.push(lit_vec("#define tn typename"));
    r.push(lit_vec("#define pub public"));
    r.push(lit_vec("#define priv private"));
    r.push(lit_vec("#define prot protected"));
    r.push(lit_vec("#define virt virtual"));
    r.push(lit_vec("#define println print"));
    r.push(lit_vec("#define blueprint(...) template <__VA_ARGS__>"));
    r.push(lit_vec("#define null nullptr"));
    r.push(lit_vec("#define mut const"));
    r.push(lit_vec("#define match(val) switch(val)"));
    r.push(lit_vec("#define case(val) case val:"));
    r.push(lit_vec("#include <fstream>"));
    r.push(lit_vec("#include <string>"));
    r.push(lit_vec("#include <functional>"));
    r.push(lit_vec("#include <memory>"));
    r.push(lit_vec("#include <cmath>"));
    r.push(lit_vec("#include <ctime>"));
    r.push(lit_vec("#include <stdexcept>"));
    r.push(lit_vec("#include <cstdio>"));
    r.push(lit_vec("#include <filesystem>"));
    r.push(lit_vec("#include <vector>"));
    r.push(lit_vec("using namespace std;"));
    r.push(lit_vec("void print(auto x) {cout << x << '\\n';}"));
    r.push(lit_vec("void printn(auto x) {cout << x;}"));
    r.push(lit_vec("int $(char* x) {return system(x);}"));
    r.push(lit_vec("lib Astra {"));
    r.push(lit_vec("class fs { pub: static void write(const std::string& p, const std::string& c) { std::ofstream(p) << c; } static std::string read(const std::string& p) { std::ifstream f(p); return {std::istreambuf_iterator<char>(f), {}}; } static void remove(const std::string& p) { std::filesystem::remove(p); } static std::vector<std::string> list(const std::string& d) { std::vector<std::string> fs; for (auto& e : std::filesystem::directory_iterator(d)) {fs.push_back(e.path().string());} return fs; } };"));
    r.push(lit_vec("blueprint(tn T)"));
    r.push(lit_vec("class DynamicArray {"));
    r.push(lit_vec("pub:"));
    r.push(lit_vec("T* arr;"));
    r.push(lit_vec("size_t capacity, size;"));
    r.push(lit_vec("void resize() { capacity *= 2; T* newArr = new T[capacity]; for (size_t i = 0; i < size; ++i) newArr[i] = arr[i]; delete[] arr; arr = newArr; }"));
    r.push(lit_vec("DynamicArray(size_t initial_capacity = 2) : capacity(initial_capacity), size(0) { arr = new T[capacity]; }"));
    r.push(lit_vec("~DynamicArray() { delete[] arr; }"));
    r.push(lit_vec("void add(T value) { if (size == capacity) resize(); arr[size++] = value; }"));
    r.push(lit_vec("T get(size_t index) const { if (index >= size) throw std::out_of_range(\"Index out of range\"); return arr[index]; }"));
    r.push(lit_vec("size_t getSize() const { return size; }"));
    r.push(lit_vec("void removeAt(size_t index) { if (index >= size) throw std::out_of_range(\"Index out of range\"); for (size_t i = index; i < size - 1; ++i) arr[i] = arr[i + 1]; --size; }"));
    r.push(lit_vec("void print() const { for (size_t i = 0; i < size; ++i) std::cout << arr[i] << ' '; std::cout << std::endl; }"));
    r.push(lit_vec("};"));
    r.push(lit_vec("}"));
    proof {
        assert(lines_view(r@) =~= spec_prelude());
    }
    r
}

/// The whole translation of an input text: the constant prelude followed by
/// the translated body, joined by newlines.
pub open spec fn spec_transpile(s: Seq<char>) -> Seq<char> {
    spec_join(spec_prelude() + spec_run(init_model(), spec_split(s)).1)
}

/// Translate a whole surface-language source text to target-language text.
pub fn transpile_source(input: &str) -> (r: String)
    ensures
        r@ == spec_transpile(input@),
{
    let chars = str_to_chars(input);
    let lines = split_lines(&chars);
    let line_count = lines.len();
    let mut translator = Translator::new();
    let mut out = prelude_lines();
    proof {
        assert(translator.depth + lines@.len() == line_count);
    }
    translator.run(&lines, &mut out);
    let joined = join_lines(&out);
    chars_to_string(&joined)
}

} // verus!
