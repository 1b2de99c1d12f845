//! Laws of the translation pass, proved over the specification-level
//! interpreter: blank and comment handling, raw-passthrough exactness, the
//! counted-loop reference semantics, and depth balance.
use vstd::prelude::*;
use crate::engine::{is_comment, lemma_step_depth_bound, spec_content, spec_run, spec_step};
use crate::state::{init_model, state_wf, StateModel};
use crate::text::trimmed;

verus! {

/// The state invariant holds at the start of a pass.
pub proof fn lemma_init_wf()
    ensures
        state_wf(init_model()),
{
}

/// Every step preserves the state invariant: the raw buffer is non-empty
/// only while the raw-capture flag is set, and the depth never goes
/// negative.
#[verifier::rlimit(50)]
pub proof fn lemma_step_preserves_wf(st: StateModel, line: Seq<char>)
    requires
        state_wf(st),
    ensures
        state_wf(spec_step(st, line).0),
{
    lemma_step_depth_bound(st, line);
}

/// Blank handling: a blank line yields exactly one blank output line and
/// leaves the state untouched, whatever the state.
pub proof fn lemma_blank_line(st: StateModel, line: Seq<char>)
    requires
        trimmed(line).len() == 0,
    ensures
        spec_step(st, line).0 == st,
        spec_step(st, line).1 == seq![Seq::<char>::empty()],
{
}

/// Comment handling: outside a raw region, a comment line yields no output
/// line and leaves the state untouched.
pub proof fn lemma_comment_line(st: StateModel, line: Seq<char>)
    requires
        !st.capturing,
        trimmed(line).len() > 0,
        is_comment(trimmed(line)),
    ensures
        spec_step(st, line).0 == st,
        spec_step(st, line).1 == Seq::<Seq<char>>::empty(),
{
    let t = trimmed(line);
    reveal_strlit("//");
    reveal_strlit("##");
    reveal_strlit("::++ {");
    if crate::parse::lit_at(t, 0, "//"@) {
        assert(t.subrange(0, 2)[0] == '/');
    } else {
        assert(t.subrange(0, 2)[0] == '#');
    }
    if t == "::++ {"@ {
        assert(t[0] == ':');
        assert(false);
    }
}

/// Running two line sequences one after the other is running their
/// concatenation.
pub proof fn lemma_run_concat(st: StateModel, a: Seq<Seq<char>>, b: Seq<Seq<char>>)
    ensures
        spec_run(st, a + b).0 == spec_run(spec_run(st, a).0, b).0,
        spec_run(st, a + b).1 == spec_run(st, a).1 + spec_run(spec_run(st, a).0, b).1,
    decreases a.len(),
{
    if a.len() == 0 {
        assert(a + b =~= b);
        assert(spec_run(st, a).1 + spec_run(spec_run(st, a).0, b).1 =~= spec_run(st, b).1);
    } else {
        let st1 = spec_step(st, a[0]).0;
        assert((a + b).skip(1) =~= a.skip(1) + b);
        lemma_run_concat(st1, a.skip(1), b);
        assert(spec_step(st, (a + b)[0]) == spec_step(st, a[0]));
        assert(spec_step(st, a[0]).1 + (spec_run(st1, a.skip(1)).1 + spec_run(
            spec_run(st1, a.skip(1)).0,
            b,
        ).1) =~= (spec_step(st, a[0]).1 + spec_run(st1, a.skip(1)).1) + spec_run(
            spec_run(st1, a.skip(1)).0,
            b,
        ).1);
    }
}

/// Running a single line is stepping it.
pub proof fn lemma_run_single(st: StateModel, line: Seq<char>)
    ensures
        spec_run(st, seq![line]).0 == spec_step(st, line).0,
        spec_run(st, seq![line]).1 == spec_step(st, line).1,
{
    let single = seq![line];
    assert(single[0] == line);
    assert(single.skip(1) =~= Seq::<Seq<char>>::empty());
    assert(spec_run(spec_step(st, line).0, single.skip(1)).0 == spec_step(st, line).0);
    assert(spec_run(spec_step(st, line).0, single.skip(1)).1 == Seq::<Seq<char>>::empty());
    assert(spec_step(st, line).1 + Seq::<Seq<char>>::empty() =~= spec_step(st, line).1);
}

/// While a raw region is open, lines that are neither blank nor a sentinel
/// are captured in order, and nothing is emitted.
pub proof fn lemma_raw_capture_run(st: StateModel, lines: Seq<Seq<char>>)
    requires
        st.capturing,
        forall|i: int|
            0 <= i < lines.len() ==> (#[trigger] trimmed(lines[i])).len() > 0 && trimmed(lines[i])
                != "}"@ && trimmed(lines[i]) != "::++ {"@,
    ensures
        spec_run(st, lines).0 == (StateModel {
            raw: st.raw + Seq::new(lines.len(), |i: int| trimmed(lines[i])),
            ..st
        }),
        spec_run(st, lines).1 == Seq::<Seq<char>>::empty(),
    decreases lines.len(),
{
    let captured = Seq::new(lines.len(), |i: int| trimmed(lines[i]));
    if lines.len() == 0 {
        assert(st.raw + captured =~= st.raw);
        assert(spec_run(st, lines).0 == StateModel { raw: st.raw + captured, ..st });
    } else {
        let t0 = trimmed(lines[0]);
        let st1 = spec_step(st, lines[0]).0;
        assert(st1 == StateModel { raw: st.raw.push(t0), ..st });
        assert(spec_step(st, lines[0]).1 == Seq::<Seq<char>>::empty());
        assert(forall|i: int|
            0 <= i < lines.skip(1).len() ==> lines.skip(1)[i] == lines[i + 1]);
        lemma_raw_capture_run(st1, lines.skip(1));
        assert(st.raw.push(t0) + Seq::new(lines.skip(1).len(), |i: int| trimmed(lines.skip(1)[i]))
            =~= st.raw + captured);
        assert(Seq::<Seq<char>>::empty() + Seq::<Seq<char>>::empty() =~= Seq::<
            Seq<char>,
        >::empty());
    }
}

/// Raw passthrough exactness: the lines between the start sentinel and its
/// matching closing brace appear in the output exactly once, in their input
/// order and with their trimmed content unchanged — no translation applies.
pub proof fn lemma_raw_passthrough(
    st: StateModel,
    open_line: Seq<char>,
    lines: Seq<Seq<char>>,
    close_line: Seq<char>,
)
    requires
        !st.capturing,
        st.raw.len() == 0,
        trimmed(open_line) == "::++ {"@,
        trimmed(close_line) == "}"@,
        forall|i: int|
            0 <= i < lines.len() ==> (#[trigger] trimmed(lines[i])).len() > 0 && trimmed(lines[i])
                != "}"@ && trimmed(lines[i]) != "::++ {"@,
    ensures
        spec_run(st, seq![open_line] + lines + seq![close_line]).1 == Seq::new(
            lines.len(),
            |i: int| trimmed(lines[i]),
        ),
        !spec_run(st, seq![open_line] + lines + seq![close_line]).0.capturing,
        spec_run(st, seq![open_line] + lines + seq![close_line]).0.raw.len() == 0,
{
    reveal_strlit("::++ {");
    reveal_strlit("}");
    let captured = Seq::new(lines.len(), |i: int| trimmed(lines[i]));
    // Entering the region captures nothing and emits nothing.
    let st1 = spec_step(st, open_line).0;
    assert(st1 == StateModel { capturing: true, ..st });
    assert(spec_step(st, open_line).1 == Seq::<Seq<char>>::empty());
    lemma_run_single(st, open_line);
    // The region's lines are buffered in order.
    lemma_raw_capture_run(st1, lines);
    let st2 = spec_run(st1, lines).0;
    assert(st2.raw =~= captured);
    // The closing brace flushes the buffer as the output.
    assert(spec_step(st2, close_line).1 == st2.raw);
    lemma_run_single(st2, close_line);
    // Compose the three runs.
    lemma_run_concat(st, seq![open_line], lines);
    lemma_run_concat(st, seq![open_line] + lines, seq![close_line]);
    assert(spec_run(st, seq![open_line] + lines).0 == st2);
    assert(spec_run(st, seq![open_line] + lines).1 =~= Seq::<Seq<char>>::empty());
    assert(spec_run(st, seq![open_line] + lines + seq![close_line]).1 =~= captured);
}

/// The number of times the body of the translated counted loop runs: the
/// loop starts its counter at `lo`, tests that the counter is below `hi`
/// before each iteration, and increments it by one after each.
pub open spec fn counted_loop_iterations(lo: int, hi: int) -> nat
    decreases hi - lo,
{
    if lo < hi {
        1 + counted_loop_iterations(lo + 1, hi)
    } else {
        0
    }
}

/// Range loop semantics: for bounds with `lo <= hi`, the counted loop the
/// translator emits for a range header runs its body exactly `hi - lo`
/// times.
pub proof fn lemma_range_loop_count(lo: int, hi: int)
    requires
        lo <= hi,
    ensures
        counted_loop_iterations(lo, hi) == hi - lo,
    decreases hi - lo,
{
    if lo < hi {
        lemma_range_loop_count(lo + 1, hi);
    }
}

/// Whether this line, in this state, asks to close a block: a bare closing
/// brace outside any raw region.
pub open spec fn is_close_attempt(st: StateModel, line: Seq<char>) -> bool {
    trimmed(line) == "}"@ && !st.capturing
}

/// How many steps of the run raise the nesting depth.
pub open spec fn opens_count(st: StateModel, lines: Seq<Seq<char>>) -> int
    decreases lines.len(),
{
    if lines.len() == 0 {
        0
    } else {
        let st1 = spec_step(st, lines[0]).0;
        (if st1.depth == st.depth + 1 {
            1int
        } else {
            0int
        }) + opens_count(st1, lines.skip(1))
    }
}

/// How many lines of the run ask to close a block.
pub open spec fn closes_count(st: StateModel, lines: Seq<Seq<char>>) -> int
    decreases lines.len(),
{
    if lines.len() == 0 {
        0
    } else {
        (if is_close_attempt(st, lines[0]) {
            1int
        } else {
            0int
        }) + closes_count(spec_step(st, lines[0]).0, lines.skip(1))
    }
}

/// Whether every close attempt of the run finds an open block: the depth is
/// never asked below zero.
pub open spec fn no_underflow(st: StateModel, lines: Seq<Seq<char>>) -> bool
    decreases lines.len(),
{
    lines.len() == 0 || ((is_close_attempt(st, lines[0]) ==> st.depth > 0) && no_underflow(
        spec_step(st, lines[0]).0,
        lines.skip(1),
    ))
}

/// One step moves the depth exactly as the line asks: down by one (to a
/// floor of zero) on a close attempt, otherwise up by one or not at all.
#[verifier::rlimit(80)]
pub proof fn lemma_step_depth_cases(st: StateModel, line: Seq<char>)
    requires
        st.depth >= 0,
    ensures
        is_close_attempt(st, line) ==> spec_step(st, line).0.depth == (if st.depth > 0 {
            st.depth - 1
        } else {
            0
        }),
        !is_close_attempt(st, line) ==> (spec_step(st, line).0.depth == st.depth || spec_step(
            st,
            line,
        ).0.depth == st.depth + 1),
{
    let t = trimmed(line);
    reveal_strlit("}");
    reveal_strlit("::++ {");
    reveal_strlit("//");
    reveal_strlit("##");
    reveal_strlit("use");
    reveal_strlit("def");
    reveal_strlit("ifdef");
    reveal_strlit("ifndef");
    reveal_strlit("endif");
    reveal_strlit("type");
    reveal_strlit("pub ");
    reveal_strlit("priv ");
    reveal_strlit("prot ");
    reveal_strlit("virt ");
    reveal_strlit("stat ");
    reveal_strlit("fn");
    if is_close_attempt(st, line) {
        assert(t.len() == 1);
        assert(t != "::++ {"@);
        assert(!is_comment(t));
        assert(!crate::engine::is_directive(t)) by {
            assert(t[0] == '}');
            assert(crate::text::find_from(t, ' ', 1) == -1);
            assert(crate::text::find_from(t, ' ', 0) == -1);
            assert(crate::engine::head_token(t) == t);
        }
        assert(!crate::parse::is_fn_candidate(t));
        assert(spec_step(st, line) == spec_content(st, t));
    }
}

/// Depth accounting: when no close attempt underflows, the final depth is
/// the initial depth plus the opens minus the closes, and never negative.
pub proof fn lemma_depth_accounting(st: StateModel, lines: Seq<Seq<char>>)
    requires
        st.depth >= 0,
        no_underflow(st, lines),
    ensures
        spec_run(st, lines).0.depth == st.depth + opens_count(st, lines) - closes_count(st, lines),
        spec_run(st, lines).0.depth >= 0,
    decreases lines.len(),
{
    if lines.len() > 0 {
        let st1 = spec_step(st, lines[0]).0;
        lemma_step_depth_cases(st, lines[0]);
        lemma_depth_accounting(st1, lines.skip(1));
    }
}

/// Depth balance: over a well-formed input — one where every bare closing
/// brace finds an open block, and the openers and closers are equal in
/// number — a pass started at depth zero ends at depth zero.
pub proof fn lemma_depth_balance(st: StateModel, lines: Seq<Seq<char>>)
    requires
        st.depth == 0,
        no_underflow(st, lines),
        opens_count(st, lines) == closes_count(st, lines),
    ensures
        spec_run(st, lines).0.depth == 0,
{
    lemma_depth_accounting(st, lines);
}

} // verus!
