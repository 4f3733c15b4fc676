//! The highlight-to-span projector: turns an offset-ordered stream of
//! highlight events into per-line styled text runs.
//!
//! Per line, the projector applies every event lying before the line's
//! start to the running style without emitting text, closes the current run
//! whenever an event inside the line passes the last split point, and closes
//! the final run at the line's end. A refresh event replaces the whole
//! style stack with its own scopes; a push event only appends. Emitted runs
//! exactly tile the line's text; with no event in range the whole line is
//! one run. Events beyond the line's end are ignored, never consumed early.

use vstd::prelude::*;

use crate::style::{spec_patch, Style};

verus! {

/// What a highlight event does to the style stack.
#[derive(Clone, Copy, Debug, PartialEq, Eq, Structural)]
pub enum HighlightKind {
    Push,
    Refresh,
}

/// One highlight event: at byte offset `offset`, push the given scopes onto
/// the stack, or replace the stack with them.
#[derive(Clone, Debug)]
pub struct HighlightEvent {
    pub offset: usize,
    pub kind: HighlightKind,
    pub scopes: Vec<u32>,
}

/// A theme: the base style every line starts from, and the style each
/// scope overlays.
#[derive(Clone, Debug)]
pub struct Theme {
    pub base: Style,
    pub entries: Vec<(u32, Style)>,
}

/// One emitted run: a slice of the line's text and the style it resolved to.
#[derive(Clone, Debug)]
pub struct Run {
    pub text: Vec<u8>,
    pub style: Style,
}

/// The style a scope maps to: the first matching entry, or a style that
/// sets nothing when the theme does not know the scope.
pub open spec fn lookup_rec(entries: Seq<(u32, Style)>, scope: u32) -> Style
    decreases entries.len(),
{
    if entries.len() == 0 {
        Style { fg: None, bg: None, modifiers: None, underline: None }
    } else if entries[0].0 == scope {
        entries[0].1
    } else {
        lookup_rec(entries.skip(1), scope)
    }
}

/// The style a whole stack of scopes resolves to: the theme's base with
/// each scope's style overlaid in stack order, attribute by attribute.
pub open spec fn resolve(th: Theme, stack: Seq<u32>) -> Style
    decreases stack.len(),
{
    if stack.len() == 0 {
        th.base
    } else {
        spec_patch(resolve(th, stack.drop_last()), lookup_rec(th.entries@, stack.last()))
    }
}

/// What an event does to the stack: push appends its scopes, refresh
/// replaces the stack wholesale.
pub open spec fn apply_stack(stack: Seq<u32>, e: HighlightEvent) -> Seq<u32> {
    match e.kind {
        HighlightKind::Push => stack + e.scopes@,
        HighlightKind::Refresh => e.scopes@,
    }
}

/// The runs of the line `[start, start + line.len())` produced from event
/// `i` on, with `stack` active and the text emitted up to `split` already.
/// Events at or past the line's end are ignored; offsets before `start`
/// count as `start`. An event strictly past the split point closes the
/// current run before it applies.
pub open spec fn proj_rec(
    th: Theme,
    evs: Seq<HighlightEvent>,
    i: int,
    stack: Seq<u32>,
    split: int,
    line: Seq<u8>,
    start: int,
) -> Seq<(Seq<u8>, Style)>
    decreases evs.len() - i,
{
    if i < 0 || i >= evs.len() {
        seq![(line.subrange(split - start, line.len() as int), resolve(th, stack))]
    } else {
        let e = evs[i];
        if e.offset >= start + line.len() {
            proj_rec(th, evs, i + 1, stack, split, line, start)
        } else {
            let off: int = if e.offset < start {
                start
            } else {
                e.offset as int
            };
            if off > split {
                seq![(line.subrange(split - start, off - start), resolve(th, stack))]
                    + proj_rec(th, evs, i + 1, apply_stack(stack, e), off, line, start)
            } else {
                proj_rec(th, evs, i + 1, apply_stack(stack, e), split, line, start)
            }
        }
    }
}

/// The runs one line projects to: start with the empty stack and nothing
/// emitted.
pub open spec fn project_spec(
    th: Theme,
    evs: Seq<HighlightEvent>,
    line: Seq<u8>,
    start: int,
) -> Seq<(Seq<u8>, Style)> {
    proj_rec(th, evs, 0, Seq::empty(), start, line, start)
}

/// The text slices of a sequence of run models, concatenated in order.
pub open spec fn concat_models(ms: Seq<(Seq<u8>, Style)>) -> Seq<u8>
    decreases ms.len(),
{
    if ms.len() == 0 {
        Seq::empty()
    } else {
        ms[0].0 + concat_models(ms.skip(1))
    }
}

/// The model of a vector of runs: each run as its text view and style.
pub open spec fn run_models(runs: Seq<Run>) -> Seq<(Seq<u8>, Style)> {
    runs.map_values(|r: Run| (r.text@, r.style))
}

/// The runs from any midpoint tile the rest of the line: their texts
/// concatenate to exactly the bytes from the split point to the end.
pub proof fn lemma_proj_rec_tiles(
    th: Theme,
    evs: Seq<HighlightEvent>,
    i: int,
    stack: Seq<u32>,
    split: int,
    line: Seq<u8>,
    start: int,
)
    requires
        start <= split <= start + line.len(),
    ensures
        concat_models(proj_rec(th, evs, i, stack, split, line, start)) == line.subrange(
            split - start,
            line.len() as int,
        ),
    decreases evs.len() - i,
{
    if i < 0 || i >= evs.len() {
        let r = proj_rec(th, evs, i, stack, split, line, start);
        assert(r.len() == 1);
        assert(r.skip(1) =~= Seq::<(Seq<u8>, Style)>::empty());
        assert(concat_models(r.skip(1)) == Seq::<u8>::empty());
        assert(r[0].0 == line.subrange(split - start, line.len() as int));
        assert(concat_models(r) =~= line.subrange(split - start, line.len() as int));
    } else {
        let e = evs[i];
        if e.offset >= start + line.len() {
            lemma_proj_rec_tiles(th, evs, i + 1, stack, split, line, start);
        } else {
            let off: int = if e.offset < start {
                start
            } else {
                e.offset as int
            };
            if off > split {
                lemma_proj_rec_tiles(th, evs, i + 1, apply_stack(stack, e), off, line, start);
                let head = seq![
                    (line.subrange(split - start, off - start), resolve(th, stack)),
                ];
                let tail = proj_rec(th, evs, i + 1, apply_stack(stack, e), off, line, start);
                assert((head + tail).skip(1) =~= tail);
                assert((head + tail)[0] == head[0]);
                assert(line.subrange(split - start, off - start) + line.subrange(
                    off - start,
                    line.len() as int,
                ) =~= line.subrange(split - start, line.len() as int));
            } else {
                lemma_proj_rec_tiles(th, evs, i + 1, apply_stack(stack, e), split, line, start);
            }
        }
    }
}

/// For any line text and any event stream, the concatenated run texts equal
/// the line text exactly.
pub proof fn lemma_runs_tile_line(th: Theme, evs: Seq<HighlightEvent>, line: Seq<u8>, start: int)
    ensures
        concat_models(project_spec(th, evs, line, start)) == line,
{
    lemma_proj_rec_tiles(th, evs, 0, Seq::empty(), start, line, start);
    assert(line.subrange(0, line.len() as int) =~= line);
}

/// With no event inside the line's range, projection emits exactly one run,
/// whatever lies before or after the range.
pub proof fn lemma_no_inrange_events_single_run(
    th: Theme,
    evs: Seq<HighlightEvent>,
    i: int,
    stack: Seq<u32>,
    line: Seq<u8>,
    start: int,
)
    requires
        forall|j: int|
            0 <= j < evs.len() ==> (evs[j].offset < start || evs[j].offset >= start + line.len()),
    ensures
        proj_rec(th, evs, i, stack, start, line, start).len() == 1,
    decreases evs.len() - i,
{
    if 0 <= i < evs.len() {
        lemma_no_inrange_events_single_run(
            th,
            evs,
            i + 1,
            apply_stack(stack, evs[i]),
            line,
            start,
        );
        lemma_no_inrange_events_single_run(th, evs, i + 1, stack, line, start);
    }
}

/// A refresh event replaces the whole stack: what was pushed before it has
/// no bearing on the stack after it.
pub proof fn lemma_refresh_replaces_stack(s1: Seq<u32>, s2: Seq<u32>, e: HighlightEvent)
    requires
        e.kind is Refresh,
    ensures
        apply_stack(s1, e) == apply_stack(s2, e),
{
}

/// Once a refresh event has fired, every later run is independent of the
/// stack that was active before it.
pub proof fn lemma_runs_after_refresh_independent(
    th: Theme,
    evs: Seq<HighlightEvent>,
    i: int,
    s1: Seq<u32>,
    s2: Seq<u32>,
    split: int,
    line: Seq<u8>,
    start: int,
)
    requires
        0 <= i < evs.len(),
        evs[i].kind is Refresh,
    ensures
        proj_rec(th, evs, i + 1, apply_stack(s1, evs[i]), split, line, start) == proj_rec(
            th,
            evs,
            i + 1,
            apply_stack(s2, evs[i]),
            split,
            line,
            start,
        ),
{
    lemma_refresh_replaces_stack(s1, s2, evs[i]);
}

/// Copy the byte range `[from, to)` of `v` into a fresh vector.
fn copy_range(v: &Vec<u8>, from: usize, to: usize) -> (r: Vec<u8>)
    requires
        from <= to <= v@.len(),
    ensures
        r@ == v@.subrange(from as int, to as int),
{
    let mut r: Vec<u8> = Vec::new();
    let mut j: usize = from;
    while j < to
        invariant
            from <= j <= to <= v@.len(),
            r@ == v@.subrange(from as int, j as int),
        decreases to - j,
    {
        r.push(v[j]);
        j = j + 1;
        assert(r@ =~= v@.subrange(from as int, j as int));
    }
    r
}

/// The style one scope maps to in this theme.
fn lookup_exec(th: &Theme, scope: u32) -> (r: Style)
    ensures
        r == lookup_rec(th.entries@, scope),
{
    let mut j: usize = 0;
    proof {
        assert(th.entries@.skip(0) =~= th.entries@);
    }
    while j < th.entries.len()
        invariant
            0 <= j <= th.entries@.len(),
            lookup_rec(th.entries@, scope) == lookup_rec(th.entries@.skip(j as int), scope),
        decreases th.entries@.len() - j,
    {
        let (s, st) = th.entries[j];
        if s == scope {
            return st;
        }
        proof {
            assert(th.entries@.skip(j as int).skip(1) =~= th.entries@.skip(j as int + 1));
        }
        j = j + 1;
    }
    Style { fg: None, bg: None, modifiers: None, underline: None }
}

/// The style the whole stack resolves to.
fn resolve_exec(th: &Theme, stack: &Vec<u32>) -> (r: Style)
    ensures
        r == resolve(*th, stack@),
{
    let mut r = th.base;
    let mut j: usize = 0;
    proof {
        assert(stack@.take(0) =~= Seq::<u32>::empty());
    }
    while j < stack.len()
        invariant
            0 <= j <= stack@.len(),
            r == resolve(*th, stack@.take(j as int)),
        decreases stack@.len() - j,
    {
        let sc = stack[j];
        let over = lookup_exec(th, sc);
        r = r.patch(&over);
        j = j + 1;
        proof {
            assert(stack@.take(j as int).drop_last() =~= stack@.take(j as int - 1));
            assert(stack@.take(j as int).last() == stack@[j as int - 1]);
        }
    }
    proof {
        assert(stack@.take(stack@.len() as int) =~= stack@);
    }
    r
}

/// Apply one event to the live stack.
fn apply_stack_exec(stack: &mut Vec<u32>, e: &HighlightEvent)
    ensures
        final(stack)@ == apply_stack(old(stack)@, *e),
{
    match e.kind {
        HighlightKind::Push => {
            stack.extend_from_slice(e.scopes.as_slice());
        },
        HighlightKind::Refresh => {
            stack.clear();
            stack.extend_from_slice(e.scopes.as_slice());
            assert(stack@ =~= e.scopes@);
        },
    }
}

/// Project one line: walk the events once, close a run at every split
/// point inside `[start, start + line.len())`, and close the final run at
/// the line's end. The result is fixed by [`project_spec`]; its runs tile
/// the line exactly, and a stream without events yields exactly one run.
pub fn project_line(th: &Theme, evs: &Vec<HighlightEvent>, line: &Vec<u8>, start: usize) -> (runs:
    Vec<Run>)
    requires
        start + line@.len() <= usize::MAX,
    ensures
        run_models(runs@) == project_spec(*th, evs@, line@, start as int),
        concat_models(run_models(runs@)) == line@,
        evs@.len() == 0 ==> runs@.len() == 1,
{
    let mut stack: Vec<u32> = Vec::new();
    let mut split: usize = start;
    let mut runs: Vec<Run> = Vec::new();
    let mut i: usize = 0;
    proof {
        assert(run_models(runs@) =~= Seq::<(Seq<u8>, Style)>::empty());
        assert(run_models(runs@) + proj_rec(
            *th,
            evs@,
            0,
            stack@,
            start as int,
            line@,
            start as int,
        ) =~= project_spec(*th, evs@, line@, start as int));
    }
    while i < evs.len()
        invariant
            0 <= i <= evs@.len(),
            start <= split,
            split as int <= start + line@.len(),
            start + line@.len() <= usize::MAX,
            project_spec(*th, evs@, line@, start as int) == run_models(runs@) + proj_rec(
                *th,
                evs@,
                i as int,
                stack@,
                split as int,
                line@,
                start as int,
            ),
        decreases evs@.len() - i,
    {
        let e = &evs[i];
        let ghost pre_runs = runs@;
        let ghost pre_stack = stack@;
        let ghost pre_split = split as int;
        if e.offset < start + line.len() {
            let off: usize = if e.offset < start {
                start
            } else {
                e.offset
            };
            if off > split {
                let text = copy_range(line, split - start, off - start);
                let style = resolve_exec(th, &stack);
                runs.push(Run { text, style });
                proof {
                    assert(run_models(runs@) =~= run_models(pre_runs) + seq![
                        (line@.subrange(pre_split - start, off - start), resolve(*th, pre_stack)),
                    ]);
                }
                split = off;
            }
            apply_stack_exec(&mut stack, e);
        }
        i = i + 1;
        proof {
            assert(project_spec(*th, evs@, line@, start as int) == run_models(runs@) + proj_rec(
                *th,
                evs@,
                i as int,
                stack@,
                split as int,
                line@,
                start as int,
            ));
        }
    }
    let text = copy_range(line, split - start, line.len());
    let style = resolve_exec(th, &stack);
    runs.push(Run { text, style });
    proof {
        assert(run_models(runs@) =~= project_spec(*th, evs@, line@, start as int));
        lemma_runs_tile_line(*th, evs@, line@, start as int);
    }
    runs
}

/// The text of one visible line: where it starts in the document, and its
/// bytes.
#[derive(Clone, Debug)]
pub struct LineText {
    pub start: usize,
    pub text: Vec<u8>,
}

/// Project every line of the viewport, top to bottom, but never more lines
/// than the viewport is high: a height of zero yields zero line spans.
pub fn project_viewport(
    th: &Theme,
    evs: &Vec<HighlightEvent>,
    lines: &Vec<LineText>,
    height: u16,
) -> (r: Vec<Vec<Run>>)
    requires
        forall|j: int|
            0 <= j < lines@.len() ==> lines@[j].start + lines@[j].text@.len() <= usize::MAX,
    ensures
        r@.len() == if lines@.len() < height as int {
            lines@.len() as int
        } else {
            height as int
        },
        forall|j: int|
            0 <= j < r@.len() ==> run_models(r@[j]@) == project_spec(
                *th,
                evs@,
                lines@[j].text@,
                lines@[j].start as int,
            ),
{
    let n: usize = if lines.len() < height as usize {
        lines.len()
    } else {
        height as usize
    };
    let mut r: Vec<Vec<Run>> = Vec::new();
    let mut j: usize = 0;
    while j < n
        invariant
            0 <= j <= n <= lines@.len(),
            r@.len() == j,
            forall|k: int|
                0 <= k < j ==> run_models(r@[k]@) == project_spec(
                    *th,
                    evs@,
                    lines@[k].text@,
                    lines@[k].start as int,
                ),
            forall|k: int|
                0 <= k < lines@.len() ==> lines@[k].start + lines@[k].text@.len() <= usize::MAX,
        decreases n - j,
    {
        let lt = &lines[j];
        let spans = project_line(th, evs, &lt.text, lt.start);
        r.push(spans);
        j = j + 1;
    }
    r
}

} // verus!
