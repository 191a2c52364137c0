//! Formatting a whole listing: one deck-list line per card, in order.

use vstd::prelude::*;
use crate::record::{MtgRecord, RecordView};

verus! {

/// The deck-list lines of `records`: line `i` is the line of card `i`.
pub open spec fn format_lines(records: Seq<RecordView>, commander: Option<Seq<char>>) -> Seq<
    Seq<char>,
> {
    Seq::new(records.len(), |i: int| records[i].line(commander))
}

/// Formats every card of a listing, keeping the order of the cards.
pub fn format_records(records: Vec<MtgRecord>, commander_name: Option<&str>) -> (lines: Vec<
    String,
>)
    ensures
        lines.len() == records.len(),
        lines.deep_view() == format_lines(records.deep_view(), commander_name.deep_view()),
{
    let mut lines: Vec<String> = Vec::new();
    let mut i: usize = 0;
    while i < records.len()
        invariant
            i <= records.len(),
            lines.len() == i,
            forall|j: int|
                0 <= j < i ==> (#[trigger] lines[j])@ == records[j]@.line(
                    commander_name.deep_view(),
                ),
        decreases records.len() - i,
    {
        let line = records[i].archidekt_txt(commander_name);
        lines.push(line);
        i += 1;
    }
    assert(lines.deep_view() =~= format_lines(
        records.deep_view(),
        commander_name.deep_view(),
    ));
    lines
}

/// A commander name that is the name of no card leaves every line as it is
/// without a commander.
pub proof fn lemma_unmatched_commander(records: Seq<RecordView>, commander: Seq<char>)
    requires
        forall|i: int| 0 <= i < records.len() ==> (#[trigger] records[i]).name != commander,
    ensures
        format_lines(records, Some(commander)) == format_lines(records, None),
{
    assert(format_lines(records, Some(commander)) =~= format_lines(records, None));
}

} // verus!
