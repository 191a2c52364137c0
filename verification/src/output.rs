//! The text of the deck list: its lines joined by line feeds.

use vstd::prelude::*;
use crate::format::format_lines;
use crate::record::{RecordView, commander_mark, foil_mark};

verus! {

/// `lines` joined by a single line feed between consecutive lines, with none
/// after the last line.
pub open spec fn joined(lines: Seq<Seq<char>>) -> Seq<char>
    decreases lines.len(),
{
    if lines.len() == 0 {
        Seq::empty()
    } else if lines.len() == 1 {
        lines[0]
    } else {
        joined(lines.drop_last()) + seq!['\n'] + lines.last()
    }
}

/// How many line feeds `text` holds.
pub open spec fn line_feeds(text: Seq<char>) -> nat
    decreases text.len(),
{
    if text.len() == 0 {
        0
    } else {
        line_feeds(text.drop_last()) + if text.last() == '\n' {
            1nat
        } else {
            0nat
        }
    }
}

/// How many lines a text without a final line feed has: none when it is empty,
/// else one more than its line feeds.
pub open spec fn line_count(text: Seq<char>) -> nat {
    if text.len() == 0 {
        0
    } else {
        line_feeds(text) + 1
    }
}

/// Joins the lines of a deck list into the text that is written out.
pub fn join_lines(lines: &Vec<String>) -> (text: String)
    ensures
        text@ == joined(lines.deep_view()),
{
    let mut text = String::new();
    let mut i: usize = 0;
    while i < lines.len()
        invariant
            i <= lines.len(),
            text@ == joined(lines.deep_view().take(i as int)),
        decreases lines.len() - i,
    {
        proof {
            let before = lines.deep_view().take(i as int);
            let after = lines.deep_view().take(i + 1);
            assert(after.drop_last() =~= before);
            assert(after.last() == lines[i as int]@);
            reveal_strlit("\n");
            assert("\n"@ =~= seq!['\n']);
        }
        if i > 0 {
            text.append("\n");
        }
        text.append(lines[i].as_str());
        i += 1;
    }
    assert(lines.deep_view().take(lines.len() as int) =~= lines.deep_view());
    text
}

/// Line feeds add up over concatenation.
pub proof fn lemma_line_feeds_concat(a: Seq<char>, b: Seq<char>)
    ensures
        line_feeds(a + b) == line_feeds(a) + line_feeds(b),
    decreases b.len(),
{
    if b.len() == 0 {
        assert(a + b =~= a);
    } else {
        assert((a + b).drop_last() =~= a + b.drop_last());
        lemma_line_feeds_concat(a, b.drop_last());
    }
}

/// A text none of whose characters is a line feed holds no line feed.
pub proof fn lemma_no_line_feed(text: Seq<char>)
    requires
        forall|i: int| 0 <= i < text.len() ==> text[i] != '\n',
    ensures
        line_feeds(text) == 0,
    decreases text.len(),
{
    if text.len() > 0 {
        lemma_no_line_feed(text.drop_last());
    }
}

impl RecordView {
    /// None of the three fields that are printed holds a line feed.
    pub open spec fn single_line(self) -> bool {
        &&& line_feeds(self.quantity) == 0
        &&& line_feeds(self.name) == 0
        &&& line_feeds(self.edition) == 0
    }
}

/// The line of a card whose fields hold no line feed holds none either, and is
/// never empty.
pub proof fn lemma_line_is_single(record: RecordView, commander: Option<Seq<char>>)
    requires
        record.single_line(),
    ensures
        line_feeds(record.line(commander)) == 0,
        record.line(commander).len() > 0,
{
    reveal_strlit(" ");
    reveal_strlit(" (");
    reveal_strlit(")");
    reveal_strlit(" *F*");
    reveal_strlit(" [Commander{top}]");
    lemma_no_line_feed(" "@);
    lemma_no_line_feed(" ("@);
    lemma_no_line_feed(")"@);
    lemma_no_line_feed(foil_mark());
    lemma_no_line_feed(commander_mark());
    lemma_no_line_feed(Seq::<char>::empty());
    let q = record.quantity;
    let n = record.name;
    let e = record.edition;
    lemma_line_feeds_concat(q, " "@);
    lemma_line_feeds_concat(q + " "@, n);
    lemma_line_feeds_concat(q + " "@ + n, " ("@);
    lemma_line_feeds_concat(q + " "@ + n + " ("@, e);
    lemma_line_feeds_concat(q + " "@ + n + " ("@ + e, ")"@);
    let base = record.base_line();
    let foil = if record.is_foil() {
        foil_mark()
    } else {
        Seq::empty()
    };
    let mark = if record.is_commander(commander) {
        commander_mark()
    } else {
        Seq::empty()
    };
    lemma_line_feeds_concat(base, foil);
    lemma_line_feeds_concat(base + foil, mark);
}

/// Joining `n` lines that hold no line feed and are not empty gives a text of
/// exactly `n` lines.
pub proof fn lemma_joined_line_count(lines: Seq<Seq<char>>)
    requires
        forall|i: int|
            0 <= i < lines.len() ==> line_feeds(#[trigger] lines[i]) == 0 && lines[i].len() > 0,
    ensures
        line_count(joined(lines)) == lines.len(),
        lines.len() > 0 ==> joined(lines).len() > 0,
    decreases lines.len(),
{
    if lines.len() >= 2 {
        lemma_joined_line_count(lines.drop_last());
        let head = joined(lines.drop_last());
        lemma_line_feeds_concat(head, seq!['\n']);
        lemma_line_feeds_concat(head + seq!['\n'], lines.last());
        assert(line_feeds(seq!['\n']) == 1) by {
            let feed = seq!['\n'];
            assert(feed.last() == '\n');
            assert(line_feeds(feed.drop_last()) == 0);
        }
    }
}

/// A listing of `n` cards, none of whose printed fields holds a line feed,
/// becomes a text of exactly `n` lines, whoever the commander is.
pub proof fn lemma_one_line_per_record(records: Seq<RecordView>, commander: Option<Seq<char>>)
    requires
        forall|i: int| 0 <= i < records.len() ==> (#[trigger] records[i]).single_line(),
    ensures
        line_count(joined(format_lines(records, commander))) == records.len(),
{
    let lines = format_lines(records, commander);
    assert forall|i: int| 0 <= i < lines.len() implies line_feeds(#[trigger] lines[i]) == 0
        && lines[i].len() > 0 by {
        lemma_line_is_single(records[i], commander);
    }
    lemma_joined_line_count(lines);
}

} // verus!
