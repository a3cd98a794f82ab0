//! The report of a batch: one entry for each job, in the order in which the
//! jobs were taken up.

use crate::text::{join, join_texts, lemma_deep_view_push};
use vstd::prelude::*;
use vstd::string::*;

verus! {

/// How one job of a batch ended.
#[derive(Debug, Clone, PartialEq, Eq)]
pub struct SummaryEntry {
    /// The name of the job.
    pub name: String,
    /// Whether the job did all that it was asked to do.
    pub success: bool,
    /// What there is to say: the result, or the cause of the failure.
    pub message: String,
    /// What was noticed on the way and did not end the job.
    pub notes: Vec<String>,
}

/// The model of a [`SummaryEntry`].
pub struct SummaryEntryView {
    pub name: Seq<char>,
    pub success: bool,
    pub message: Seq<char>,
    pub notes: Seq<Seq<char>>,
}

impl DeepView for SummaryEntry {
    type V = SummaryEntryView;

    open spec fn deep_view(&self) -> SummaryEntryView {
        SummaryEntryView {
            name: self.name@,
            success: self.success,
            message: self.message@,
            notes: self.notes.deep_view(),
        }
    }
}

/// The mark of a job that succeeded.
pub open spec fn success_mark() -> Seq<char> {
    "✔"@
}

/// The mark of a job that failed.
pub open spec fn failure_mark() -> Seq<char> {
    "✖"@
}

/// One line of text: a mark, the job's name, a colon and what is said.
pub open spec fn marked_line(success: bool, name: Seq<char>, said: Seq<char>) -> Seq<char> {
    (if success {
        success_mark()
    } else {
        failure_mark()
    }) + " "@ + name + ": "@ + said
}

/// What the line of an entry says: its message, and behind it in round
/// brackets what was noticed on the way, where anything was.
pub open spec fn entry_text(e: SummaryEntryView) -> Seq<char> {
    if e.notes.len() == 0 {
        e.message
    } else {
        e.message + " ("@ + join(e.notes, "; "@) + ")"@
    }
}

/// The one line of an entry: the mark of its outcome, its name, and what
/// it says.
pub open spec fn entry_line(e: SummaryEntryView) -> Seq<char> {
    marked_line(e.success, e.name, entry_text(e))
}

/// The lines of a report: one for each entry, in the order of the entries.
pub open spec fn report_lines(entries: Seq<SummaryEntryView>) -> Seq<Seq<char>> {
    Seq::new(entries.len(), |i: int| entry_line(entries[i]))
}

/// The report as one text, a line end between the lines of the entries.
pub open spec fn report_text(entries: Seq<SummaryEntryView>) -> Seq<char> {
    join(report_lines(entries), "\n"@)
}

/// Every job has exactly one line in the report, in the order of the
/// jobs, marked by how the job ended and named after it; what was noticed
/// on the way adds no line.
pub proof fn lemma_one_line_for_each_entry(entries: Seq<SummaryEntryView>)
    ensures
        report_lines(entries).len() == entries.len(),
        forall|i: int|
            0 <= i < entries.len() ==> #[trigger] report_lines(entries)[i] == marked_line(
                entries[i].success,
                entries[i].name,
                entry_text(entries[i]),
            ),
{
}

impl SummaryEntry {
    /// The one line that the report holds for this entry.
    pub fn line(&self) -> (r: String)
        ensures
            r@ == entry_line(self.deep_view()),
    {
        let mut r = if self.success {
            String::from_str("✔")
        } else {
            String::from_str("✖")
        };
        r.append(" ");
        r.append(self.name.as_str());
        r.append(": ");
        r.append(self.message.as_str());
        if self.notes.len() > 0 {
            r.append(" (");
            r.append(join_texts(&self.notes, "; ").as_str());
            r.append(")");
            assert(r@ == marked_line(self.success, self.name@, entry_text(self.deep_view())));
        }
        r
    }
}

/// Writes the report of a batch.
pub fn render_summary(entries: &Vec<SummaryEntry>) -> (r: String)
    ensures
        r@ == report_text(entries.deep_view()),
{
    let ghost all = report_lines(entries.deep_view());
    let mut lines: Vec<String> = Vec::new();
    let mut i: usize = 0;
    assert(lines.deep_view() == all.take(0));
    while i < entries.len()
        invariant
            i <= entries.len(),
            all == report_lines(entries.deep_view()),
            lines.deep_view() == all.take(i as int),
        decreases entries.len() - i,
    {
        let l = entries[i].line();
        let ghost before = lines;
        lines.push(l);
        proof {
            lemma_deep_view_push(before, lines, l);
            assert(entries.deep_view()[i as int] == entries@[i as int].deep_view());
            assert(all.take(i + 1) == all.take(i as int).push(all[i as int]));
        }
        i = i + 1;
    }
    assert(all.take(entries.len() as int) == all);
    join_texts(&lines, "\n")
}

} // verus!
