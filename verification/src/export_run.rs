//! What a whole export comes to when every action succeeds: the actions
//! that its driver is handed, in order, and the combined text among them.

use vstd::prelude::*;
use crate::export::{
    diagram_piece, export_sources, image_name, markdown_piece, source_kind, SourceKind,
    HEADER_FILE, HEADER_TEXT,
};
use crate::export_job::{
    diagram_count, lemma_diagram_count_next, ActionView, EventView, JobView, Phase,
};
use crate::listing::Entry;

verus! {

/// The state after `events`, one after the other, and the actions that were
/// handed out on the way.
pub open spec fn run(job: JobView, events: Seq<EventView>) -> (JobView, Seq<ActionView>)
    decreases events.len(),
{
    if events.len() == 0 {
        (job, Seq::empty())
    } else {
        let before = run(job, events.drop_last());
        let after = before.0.step(events.last());
        (after.0, before.1.push(after.1))
    }
}

/// The source at place `i` is a diagram.
pub open spec fn is_diagram(sources: Seq<Seq<char>>, i: int) -> bool {
    source_kind(sources[i]) == Some(SourceKind::Diagram)
}

/// What the driver reports of the source at place `i` when all goes well:
/// that the renderer succeeded, or the text `texts[i]` of the file.
pub open spec fn walk_event(sources: Seq<Seq<char>>, texts: Seq<Seq<char>>, i: int) -> EventView {
    if is_diagram(sources, i) {
        EventView::ToolExited { success: true, stderr: Seq::empty() }
    } else {
        EventView::Text(texts[i])
    }
}

/// What the source at place `i` adds to the combined text: a markdown file
/// its text, a diagram the reference to its image, which is numbered by
/// the diagram's place among the diagrams.
pub open spec fn export_piece(sources: Seq<Seq<char>>, texts: Seq<Seq<char>>, i: int) -> Seq<
    char,
> {
    if is_diagram(sources, i) {
        diagram_piece(image_name(diagram_count(sources.take(i + 1))))
    } else {
        markdown_piece(texts[i])
    }
}

/// The combined text of the first `k` sources.
pub open spec fn export_text(sources: Seq<Seq<char>>, texts: Seq<Seq<char>>, k: nat) -> Seq<char>
    decreases k,
{
    if k == 0 {
        Seq::empty()
    } else {
        export_text(sources, texts, (k - 1) as nat) + export_piece(sources, texts, k - 1)
    }
}

/// The state in which the first `k` sources are dealt with.
pub open spec fn walked(sources: Seq<Seq<char>>, texts: Seq<Seq<char>>, k: nat) -> JobView {
    JobView {
        phase: if k < sources.len() {
            Phase::Walking
        } else {
            Phase::WritingText
        },
        sources,
        next: k,
        diagrams: diagram_count(sources.take(k as int)),
        text: export_text(sources, texts, k),
    }
}

/// The action that is handed out when the first `k` sources are dealt
/// with: to read or render the next one, or, after the last, to write the
/// combined text.
pub open spec fn walk_action(sources: Seq<Seq<char>>, texts: Seq<Seq<char>>, k: nat) -> ActionView {
    walked(sources, texts, k).advance().1
}

/// The events of an export in which every action succeeds, the markdown
/// file at place `i` of the sources holding `texts[i]`.
pub open spec fn smooth_events(entries: Seq<Entry>, texts: Seq<Seq<char>>) -> Seq<EventView> {
    let sources = export_sources(entries);
    seq![EventView::IsDirectory(true), EventView::Succeeded, EventView::Entries(entries)]
        + Seq::new(sources.len(), |i: int| walk_event(sources, texts, i)) + seq![
        EventView::Succeeded,
        EventView::Succeeded,
        EventView::ToolExited { success: true, stderr: Seq::empty() },
    ]
}

/// The actions of an export in which every action succeeds.
pub open spec fn smooth_actions(entries: Seq<Entry>, texts: Seq<Seq<char>>) -> Seq<ActionView> {
    let sources = export_sources(entries);
    seq![ActionView::ResetOutput, ActionView::ListEntries] + Seq::new(
        sources.len() + 1,
        |k: int| walk_action(sources, texts, k as nat),
    ) + seq![
        ActionView::WriteFile { name: HEADER_FILE@, content: HEADER_TEXT@ },
        ActionView::Convert,
        ActionView::Finish,
    ]
}

/// From the state in which `k` sources are dealt with, the success of the
/// next one leads to the state in which `k + 1` are.
pub proof fn lemma_walk_step(sources: Seq<Seq<char>>, texts: Seq<Seq<char>>, k: nat)
    requires
        k < sources.len(),
    ensures
        walked(sources, texts, k).step(walk_event(sources, texts, k as int)) == (
            walked(sources, texts, k + 1),
            walk_action(sources, texts, k + 1),
        ),
{
    lemma_diagram_count_next(sources, k as int);
    let job = walked(sources, texts, k);
    let after = job.step(walk_event(sources, texts, k as int));
    assert(export_text(sources, texts, k + 1) == export_text(sources, texts, k) + export_piece(
        sources,
        texts,
        k as int,
    ));
    assert(after.0.text == export_text(sources, texts, k + 1));
}

proof fn lemma_walk_prefix(entries: Seq<Entry>, texts: Seq<Seq<char>>, k: nat)
    requires
        k <= export_sources(entries).len(),
    ensures
        run(JobView::initial(), smooth_events(entries, texts).take(3 + k as int)) == (
            walked(export_sources(entries), texts, k),
            smooth_actions(entries, texts).take(3 + k as int),
        ),
    decreases k,
{
    let sources = export_sources(entries);
    let events = smooth_events(entries, texts);
    let actions = smooth_actions(entries, texts);
    let prefix = events.take(3 + k as int);
    if k == 0 {
        let e0 = EventView::IsDirectory(true);
        let e1 = EventView::Succeeded;
        let e2 = EventView::Entries(entries);
        assert(prefix =~= seq![e0, e1, e2]);
        assert(prefix.drop_last() =~= seq![e0, e1]);
        assert(prefix.drop_last().drop_last() =~= seq![e0]);
        assert(prefix.drop_last().drop_last().drop_last() =~= Seq::<EventView>::empty());
        reveal_with_fuel(run, 4);
        assert(sources.take(0) =~= Seq::<Seq<char>>::empty());
        let r = run(JobView::initial(), prefix);
        assert(r.0 == walked(sources, texts, 0));
        assert(r.1 =~= actions.take(3));
    } else {
        let j = (k - 1) as nat;
        lemma_walk_prefix(entries, texts, j);
        lemma_walk_step(sources, texts, j);
        assert(prefix.drop_last() =~= events.take(3 + j as int));
        assert(prefix.last() == walk_event(sources, texts, j as int));
        let r = run(JobView::initial(), prefix);
        assert(r.1 =~= actions.take(3 + k as int));
    }
}

/// An export in which every action succeeds hands out, in this order: to
/// reset the output directory; to list the project; for each source, in
/// ascending order of the names, to read it or to render it to the image of
/// its number; to write the combined text, which is the pieces of the
/// sources in that order; to write the header; to convert; and to finish.
pub proof fn lemma_smooth_export(entries: Seq<Entry>, texts: Seq<Seq<char>>)
    ensures
        run(JobView::initial(), smooth_events(entries, texts)) == (
            JobView {
                phase: Phase::Finished,
                ..walked(export_sources(entries), texts, export_sources(entries).len())
            },
            smooth_actions(entries, texts),
        ),
{
    let sources = export_sources(entries);
    let n = sources.len() as int;
    let events = smooth_events(entries, texts);
    let actions = smooth_actions(entries, texts);
    lemma_walk_prefix(entries, texts, sources.len());
    let e3 = events.take(3 + n + 1);
    let e4 = events.take(3 + n + 2);
    assert(e3.drop_last() =~= events.take(3 + n));
    assert(e4.drop_last() =~= e3);
    assert(events.drop_last() =~= e4);
    assert(e3.last() == EventView::Succeeded);
    assert(e4.last() == EventView::Succeeded);
    assert(events.last() == (EventView::ToolExited { success: true, stderr: Seq::empty() }));
    let r3 = run(JobView::initial(), e3);
    let r4 = run(JobView::initial(), e4);
    let r = run(JobView::initial(), events);
    assert(r3.1 =~= actions.take(3 + n + 1));
    assert(r4.1 =~= actions.take(3 + n + 2));
    assert(r.1 =~= actions);
}

} // verus!
