//! Rendering of a whole answer: the entries up to a limit, one blank-line
//! separated block each, and the choice of how to show the result.

use vstd::prelude::*;
use vstd::string::*;
use crate::entry::{Entry, EntryModel};
use crate::pager::{decide, paging_for, Paging};
use crate::render::{capped, entry_lines, entry_text, render, renderable, rendered};

verus! {

/// The rendered text of several entries, its line count and how many
/// entries it shows.
pub struct BatchModel {
    pub text: Seq<char>,
    pub lines: nat,
    pub shown: nat,
}

/// How many of `n` entries are considered under `limit`; 0 sets no limit.
pub open spec fn considered(n: nat, limit: usize) -> nat {
    if limit == 0 || limit >= n {
        n
    } else {
        limit as nat
    }
}

/// The renderable entries in order, a newline between each two; the line
/// count counts the blank line that this leaves between two blocks.
pub open spec fn batch_of(query: Seq<char>, es: Seq<EntryModel>, on: bool) -> BatchModel
    decreases es.len(),
{
    if es.len() == 0 {
        BatchModel { text: Seq::empty(), lines: 0, shown: 0 }
    } else {
        let b = batch_of(query, es.drop_last(), on);
        match rendered(query, es.last(), on) {
            Some((t, n)) => {
                let sep: Seq<char> = if b.shown > 0 { "\n"@ } else { Seq::empty() };
                BatchModel {
                    text: b.text + sep + t,
                    lines: b.lines + n + if b.shown > 0 { 1nat } else { 0nat },
                    shown: b.shown + 1,
                }
            },
            None => b,
        }
    }
}

/// The batch of the entries that `limit` lets through.
pub open spec fn limited_batch(query: Seq<char>, es: Seq<EntryModel>, limit: usize, on: bool) -> BatchModel {
    batch_of(query, es.take(considered(es.len(), limit) as int), on)
}

pub open spec fn entries_view(v: Seq<Entry>) -> Seq<EntryModel> {
    v.map_values(|e: Entry| e@)
}

/// The number of entries that cannot be rendered.
pub open spec fn unrenderable_count(es: Seq<EntryModel>) -> nat
    decreases es.len(),
{
    if es.len() == 0 {
        0
    } else {
        unrenderable_count(es.drop_last()) + if renderable(es.last()) { 0nat } else { 1nat }
    }
}

/// Rendered entries, as the library hands them back.
pub struct Batch {
    pub text: String,
    pub lines: usize,
    pub shown: usize,
}

/// The rendered entries and where they go.
pub struct Presentation {
    pub text: String,
    pub paging: Paging,
}

/// Colouring changes neither the line count nor the number of entries shown.
pub proof fn lemma_batch_lines_uncoloured(query: Seq<char>, es: Seq<EntryModel>, on: bool)
    ensures
        batch_of(query, es, on).lines == batch_of(query, es, false).lines,
        batch_of(query, es, on).shown == batch_of(query, es, false).shown,
    decreases es.len(),
{
    if es.len() > 0 {
        lemma_batch_lines_uncoloured(query, es.drop_last(), on);
    }
}

/// An entry without any form renders as nothing, and the entries shown are
/// exactly those given less those that cannot be rendered.
pub proof fn lemma_unrenderable_dropped(query: Seq<char>, es: Seq<EntryModel>, on: bool)
    ensures
        forall|i: int| 0 <= i < es.len() && (#[trigger] es[i]).forms.len() == 0 ==> rendered(query, es[i], on) is None,
        batch_of(query, es, on).shown + unrenderable_count(es) == es.len(),
    decreases es.len(),
{
    if es.len() > 0 {
        lemma_unrenderable_dropped(query, es.drop_last(), on);
    }
}

proof fn lemma_capped_sum(a: nat, b: nat)
    ensures
        (if capped(a) + capped(b) > usize::MAX { usize::MAX as int } else { capped(a) + capped(b) }) == capped(a + b) as int,
{
}

/// Renders the entries that `limit` lets through (0 sets no limit), skipping
/// those that cannot be rendered, with a blank line between two blocks.
pub fn render_all(query: &str, entries: &Vec<Entry>, limit: usize, on: bool) -> (r: Batch)
    ensures
        r.text@ == limited_batch(query@, entries_view(entries@), limit, on).text,
        r.lines == capped(limited_batch(query@, entries_view(entries@), limit, on).lines),
        r.shown == limited_batch(query@, entries_view(entries@), limit, on).shown,
{
    let ghost ev = entries_view(entries@);
    let count: usize = if limit == 0 || limit >= entries.len() { entries.len() } else { limit };
    let mut text = String::new();
    let mut lines: usize = 0;
    let mut shown: usize = 0;
    let mut i: usize = 0;
    proof {
        reveal_strlit("\n");
    }
    while i < count
        invariant
            count == considered(ev.len(), limit),
            count <= entries.len(),
            i <= count,
            ev == entries_view(entries@),
            shown <= i,
            text@ == batch_of(query@, ev.take(i as int), on).text,
            lines == capped(batch_of(query@, ev.take(i as int), on).lines),
            shown == batch_of(query@, ev.take(i as int), on).shown,
        decreases count - i,
    {
        proof {
            assert(ev.take(i + 1).drop_last() =~= ev.take(i as int));
            assert(ev.take(i + 1).last() == entries@[i as int]@);
        }
        let ghost b = batch_of(query@, ev.take(i as int), on);
        match render(query, &entries[i], on) {
            Some((t, n)) => {
                if shown > 0 {
                    text.append("\n");
                    proof {
                        lemma_capped_sum(b.lines, 1);
                    }
                    lines = lines.saturating_add(1);
                }
                text.append(t.as_str());
                let ghost m = entry_lines(entries@[i as int]@);
                proof {
                    let s: nat = if b.shown > 0 { 1nat } else { 0nat };
                    lemma_capped_sum(b.lines + s, m);
                }
                lines = lines.saturating_add(n);
                shown = shown + 1;
            },
            None => {},
        }
        i = i + 1;
    }
    Batch { text, lines, shown }
}

/// Renders the entries, decides on paging from their line count and the
/// terminal height, and colours the text where `colour` asks for it or where
/// it goes through a pager.
pub fn present(query: &str, entries: &Vec<Entry>, limit: usize, rows: Option<usize>, colour: bool) -> (r: Presentation)
    ensures
        r.paging == paging_for(limited_batch(query@, entries_view(entries@), limit, false).lines, rows),
        r.text@ == limited_batch(
            query@,
            entries_view(entries@),
            limit,
            colour || r.paging == Paging::Paged,
        ).text,
{
    let ghost es = entries_view(entries@).take(considered(entries@.len(), limit) as int);
    let first = render_all(query, entries, limit, colour);
    let paging = decide(first.lines, rows);
    proof {
        lemma_batch_lines_uncoloured(query@, es, colour);
    }
    if paging == Paging::Paged && !colour {
        let coloured = render_all(query, entries, limit, true);
        Presentation { text: coloured.text, paging }
    } else {
        Presentation { text: first.text, paging }
    }
}

} // verus!
