use xcompress::summary::{render_summary, SummaryEntry};

fn entry(name: &str, success: bool, message: &str, notes: &[&str]) -> SummaryEntry {
    SummaryEntry {
        name: name.to_string(),
        success,
        message: message.to_string(),
        notes: notes.iter().map(|n| n.to_string()).collect(),
    }
}

#[test]
fn report_holds_one_line_for_every_entry_in_order() {
    let entries = vec![
        entry("a", true, "done", &[]),
        entry("b", false, "broken", &["first note", "second note"]),
        entry("c", true, "", &[]),
        entry("d", true, "restored", &["one note"]),
    ];
    assert_eq!(
        render_summary(&entries),
        "✔ a: done\n✖ b: broken (first note; second note)\n✔ c: \n✔ d: restored (one note)"
    );
    assert_eq!(render_summary(&entries).lines().count(), entries.len());
    assert_eq!(entries[1].line(), "✖ b: broken (first note; second note)");
    assert_eq!(entries[0].line(), "✔ a: done");
}

#[test]
fn report_of_no_entries_is_empty() {
    assert_eq!(render_summary(&vec![]), "");
}
