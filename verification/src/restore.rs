//! Planning a restore: reading the snapshot listing, ordering it, resolving
//! a selector to snapshots, and working out what to hand to the tool so that
//! only the last segment of a recorded path is restored.

use crate::json::{json_parse, read_json, JsonValue, JsonView};
use crate::text::{
    chars_of, check_ends_with, check_precedes, check_starts_with, ends_with, lemma_deep_view_insert,
    lemma_deep_view_push, lowercase, lowercase_chars, precedes, precedes_from, same_text, split,
    split_chars, starts_with, text_of, trim, trim_chars, trim_pieces, trimmed_nonempty,
    lemma_chars_deep_view,
};
use crate::utils::{array_text, extract_json_array};
use vstd::prelude::*;
use vstd::string::*;

verus! {

/// One point-in-time backup recorded in a repository.
#[derive(Debug, Clone, PartialEq, Eq)]
pub struct Snapshot {
    /// The tool's abbreviated id.
    pub short_id: String,
    /// When it was taken, as an ISO-8601 text.
    pub time: String,
    /// The paths that were backed up, as recorded.
    pub paths: Vec<String>,
    /// The bytes that the backup processed.
    pub total_size_bytes: u64,
}

/// The model of a [`Snapshot`].
pub struct SnapshotView {
    pub short_id: Seq<char>,
    pub time: Seq<char>,
    pub paths: Seq<Seq<char>>,
    pub total_size_bytes: u64,
}

impl DeepView for Snapshot {
    type V = SnapshotView;

    open spec fn deep_view(&self) -> SnapshotView {
        SnapshotView {
            short_id: self.short_id@,
            time: self.time@,
            paths: self.paths.deep_view(),
            total_size_bytes: self.total_size_bytes,
        }
    }
}

impl Snapshot {
    /// A copy of this snapshot.
    pub fn duplicate(&self) -> (r: Snapshot)
        ensures
            r.deep_view() == self.deep_view(),
    {
        Snapshot {
            short_id: self.short_id.clone(),
            time: self.time.clone(),
            paths: crate::config::copy_texts(&self.paths),
            total_size_bytes: self.total_size_bytes,
        }
    }
}

/// The texts of the items of a JSON array, an item that is no string
/// counting as the empty text.
pub open spec fn texts_of(items: Seq<JsonView>) -> Seq<Seq<char>> {
    Seq::new(items.len(), |i: int| items[i].text_or_empty())
}

/// The snapshot that one item of the listing stands for. A field that is
/// missing or of another type counts as empty, the size as zero.
pub open spec fn snapshot_of(item: JsonView) -> SnapshotView {
    SnapshotView {
        short_id: item.member_or_null("short_id"@).text_or_empty(),
        time: item.member_or_null("time"@).text_or_empty(),
        paths: texts_of(item.member_or_null("paths"@).items_or_none()),
        total_size_bytes: item.member_or_null("summary"@).member_or_null(
            "total_bytes_processed"@,
        ).unsigned_or_zero(),
    }
}

/// The snapshots that a listing holds, in its order; none where the
/// document is no array.
pub open spec fn snapshots_of(doc: JsonView) -> Seq<SnapshotView> {
    let items = doc.items_or_none();
    Seq::new(items.len(), |i: int| snapshot_of(items[i]))
}

fn text_member(item: &JsonValue, key: &str) -> (r: String)
    ensures
        r@ == item.deep_view().member_or_null(key@).text_or_empty(),
{
    match item.member(key) {
        Some(v) => match v.as_text() {
            Some(s) => s.clone(),
            None => String::new(),
        },
        None => String::new(),
    }
}

fn texts_member(item: &JsonValue, key: &str) -> (r: Vec<String>)
    ensures
        r.deep_view() == texts_of(item.deep_view().member_or_null(key@).items_or_none()),
{
    let mut out: Vec<String> = Vec::new();
    assert(out.deep_view() == Seq::<Seq<char>>::empty());
    match item.member(key) {
        Some(v) => match v.as_items() {
            Some(items) => {
                let ghost all = texts_of(items.deep_view());
                let mut i: usize = 0;
                assert(all.take(0) == Seq::<Seq<char>>::empty());
                while i < items.len()
                    invariant
                        i <= items.len(),
                        all == texts_of(items.deep_view()),
                        out.deep_view() == all.take(i as int),
                    decreases items.len() - i,
                {
                    let s = match items[i].as_text() {
                        Some(s) => s.clone(),
                        None => String::new(),
                    };
                    let ghost before = out;
                    out.push(s);
                    proof {
                        lemma_deep_view_push(before, out, s);
                        assert(items.deep_view()[i as int] == items@[i as int].deep_view());
                        assert(all.take(i + 1) == all.take(i as int).push(all[i as int]));
                    }
                    i = i + 1;
                }
                assert(all.take(items.len() as int) == all);
                out
            },
            None => {
                assert(texts_of(Seq::<JsonView>::empty()) == Seq::<Seq<char>>::empty());
                out
            },
        },
        None => {
            assert(texts_of(Seq::<JsonView>::empty()) == Seq::<Seq<char>>::empty());
            out
        },
    }
}

fn size_member(item: &JsonValue) -> (r: u64)
    ensures
        r == item.deep_view().member_or_null("summary"@).member_or_null(
            "total_bytes_processed"@,
        ).unsigned_or_zero(),
{
    match item.member("summary") {
        Some(summary) => match summary.member("total_bytes_processed") {
            Some(v) => match v.as_unsigned() {
                Some(n) => n,
                None => 0,
            },
            None => 0,
        },
        None => 0,
    }
}

impl Snapshot {
    /// Reads one item of the listing.
    pub fn from_json(item: &JsonValue) -> (r: Snapshot)
        ensures
            r.deep_view() == snapshot_of(item.deep_view()),
    {
        Snapshot {
            short_id: text_member(item, "short_id"),
            time: text_member(item, "time"),
            paths: texts_member(item, "paths"),
            total_size_bytes: size_member(item),
        }
    }
}

/// Reads the snapshots of a listing, in its order.
pub fn snapshots_from_json(doc: &JsonValue) -> (r: Vec<Snapshot>)
    ensures
        r.deep_view() == snapshots_of(doc.deep_view()),
{
    let mut out: Vec<Snapshot> = Vec::new();
    assert(out.deep_view() == Seq::<SnapshotView>::empty());
    match doc.as_items() {
        Some(items) => {
            let ghost all = snapshots_of(doc.deep_view());
            let mut i: usize = 0;
            assert(all.take(0) == Seq::<SnapshotView>::empty());
            while i < items.len()
                invariant
                    i <= items.len(),
                    doc.deep_view() == JsonView::Array(items.deep_view()),
                    all == snapshots_of(doc.deep_view()),
                    out.deep_view() == all.take(i as int),
                decreases items.len() - i,
            {
                let snap = Snapshot::from_json(&items[i]);
                let ghost before = out;
                out.push(snap);
                proof {
                    lemma_deep_view_push(before, out, snap);
                    assert(items.deep_view()[i as int] == items@[i as int].deep_view());
                    assert(all.take(i + 1) == all.take(i as int).push(all[i as int]));
                }
                i = i + 1;
            }
            assert(all.take(items.len() as int) == all);
            out
        },
        None => {
            assert(snapshots_of(doc.deep_view()) == Seq::<SnapshotView>::empty());
            out
        },
    }
}

/// The first index at or after `i` whose snapshot is older than `time`, or
/// the number of snapshots: where a snapshot of that time goes so that it
/// follows every one that is not older.
pub open spec fn insert_position(sorted: Seq<SnapshotView>, time: Seq<char>, i: int) -> int
    decreases sorted.len() - i,
{
    if 0 <= i < sorted.len() && !precedes(sorted[i].time, time) {
        insert_position(sorted, time, i + 1)
    } else if i < sorted.len() {
        i
    } else {
        sorted.len() as int
    }
}

/// The snapshots ordered by time, newest first; snapshots of one time
/// keep the order in which they were listed.
pub open spec fn newest_first(snaps: Seq<SnapshotView>) -> Seq<SnapshotView>
    decreases snaps.len(),
{
    if snaps.len() == 0 {
        Seq::empty()
    } else {
        let rest = newest_first(snaps.drop_last());
        rest.insert(insert_position(rest, snaps.last().time, 0), snaps.last())
    }
}

/// Whether no snapshot is followed by a newer one.
pub open spec fn is_newest_first(snaps: Seq<SnapshotView>) -> bool {
    forall|i: int, j: int|
        0 <= i < j < snaps.len() ==> !precedes((#[trigger] snaps[i]).time, (#[trigger] snaps[j]).time)
}

/// Where a snapshot is inserted, no snapshot before it is older and the
/// snapshot that follows it is.
pub proof fn lemma_insert_position(sorted: Seq<SnapshotView>, time: Seq<char>, i: int)
    requires
        0 <= i <= sorted.len(),
    ensures
        i <= insert_position(sorted, time, i) <= sorted.len(),
        forall|k: int|
            i <= k < insert_position(sorted, time, i) ==> !precedes(
                (#[trigger] sorted[k]).time,
                time,
            ),
        insert_position(sorted, time, i) < sorted.len() ==> precedes(
            sorted[insert_position(sorted, time, i)].time,
            time,
        ),
    decreases sorted.len() - i,
{
    if i < sorted.len() && !precedes(sorted[i].time, time) {
        lemma_insert_position(sorted, time, i + 1);
    }
}

/// The order of texts is transitive.
pub proof fn lemma_precedes_transitive(a: Seq<char>, b: Seq<char>, c: Seq<char>, i: int)
    requires
        0 <= i,
        precedes_from(a, b, i),
        precedes_from(b, c, i),
    ensures
        precedes_from(a, c, i),
    decreases a.len() - i,
{
    if i < a.len() && i < b.len() && i < c.len() && a[i] == b[i] && b[i] == c[i] {
        lemma_precedes_transitive(a, b, c, i + 1);
    }
}

/// A text that precedes another is not preceded by it.
pub proof fn lemma_precedes_asymmetric(a: Seq<char>, b: Seq<char>, i: int)
    requires
        0 <= i,
        precedes_from(a, b, i),
    ensures
        !precedes_from(b, a, i),
    decreases a.len() - i,
{
    if i < a.len() && i < b.len() && a[i] == b[i] {
        lemma_precedes_asymmetric(a, b, i + 1);
    }
}

/// If `b` is older than `x` and `c` is not newer than `b`, then `c` is not
/// newer than `x`.
proof fn lemma_older_chain(b: Seq<char>, x: Seq<char>, c: Seq<char>)
    requires
        precedes(b, x),
        !precedes(b, c),
    ensures
        !precedes(x, c),
{
    if precedes(x, c) {
        lemma_precedes_transitive(b, x, c, 0);
    }
}

/// The listing as ordered is newest first.
pub proof fn lemma_newest_first_ordered(snaps: Seq<SnapshotView>)
    ensures
        is_newest_first(newest_first(snaps)),
        newest_first(snaps).len() == snaps.len(),
    decreases snaps.len(),
{
    if snaps.len() > 0 {
        let rest = newest_first(snaps.drop_last());
        let x = snaps.last();
        lemma_newest_first_ordered(snaps.drop_last());
        lemma_insert_position(rest, x.time, 0);
        let at = insert_position(rest, x.time, 0);
        let out = rest.insert(at, x);
        assert forall|i: int, j: int| 0 <= i < j < out.len() implies !precedes(
            (#[trigger] out[i]).time,
            (#[trigger] out[j]).time,
        ) by {
            if j < at {
                assert(out[i] == rest[i] && out[j] == rest[j]);
            } else if j == at {
                assert(out[i] == rest[i]);
                assert(!precedes(rest[i].time, x.time));
            } else if i < at {
                assert(out[i] == rest[i] && out[j] == rest[j - 1]);
            } else if i == at {
                assert(out[j] == rest[j - 1]);
                assert(at <= j - 1);
                if at < j - 1 {
                    assert(!precedes(rest[at].time, rest[j - 1].time));
                } else {
                    if precedes(rest[at].time, rest[at].time) {
                        lemma_precedes_asymmetric(rest[at].time, rest[at].time, 0);
                    }
                }
                lemma_older_chain(rest[at].time, x.time, rest[j - 1].time);
            } else {
                assert(out[i] == rest[i - 1] && out[j] == rest[j - 1]);
            }
        }
    }
}

/// Ordering neither drops nor invents a snapshot.
pub proof fn lemma_newest_first_permutes(snaps: Seq<SnapshotView>)
    ensures
        newest_first(snaps).to_multiset() == snaps.to_multiset(),
    decreases snaps.len(),
{
    broadcast use vstd::seq_lib::group_to_multiset_ensures;

    if snaps.len() > 0 {
        let rest = newest_first(snaps.drop_last());
        let x = snaps.last();
        lemma_newest_first_permutes(snaps.drop_last());
        lemma_newest_first_ordered(snaps.drop_last());
        lemma_insert_position(rest, x.time, 0);
        let at = insert_position(rest, x.time, 0);
        vstd::seq_lib::to_multiset_insert(rest, at, x);
        assert(snaps == snaps.drop_last().push(x));
    } else {
        assert(newest_first(snaps) == snaps);
    }
}

/// Orders the listing by time, newest first.
pub fn sort_snapshots(snaps: &Vec<Snapshot>) -> (r: Vec<Snapshot>)
    ensures
        r.deep_view() == newest_first(snaps.deep_view()),
        is_newest_first(r.deep_view()),
        r.len() == snaps.len(),
{
    let ghost all = snaps.deep_view();
    let mut out: Vec<Snapshot> = Vec::new();
    let mut i: usize = 0;
    assert(all.take(0) == Seq::<SnapshotView>::empty());
    assert(out.deep_view() == Seq::<SnapshotView>::empty());
    while i < snaps.len()
        invariant
            i <= snaps.len(),
            all == snaps.deep_view(),
            out.deep_view() == newest_first(all.take(i as int)),
            out.len() == i,
        decreases snaps.len() - i,
    {
        let item = snaps[i].duplicate();
        let time = chars_of(item.time.as_str());
        let mut at: usize = 0;
        while at < out.len() && !check_precedes(&chars_of(out[at].time.as_str()), &time)
            invariant
                at <= out.len(),
                time@ == item.time@,
                insert_position(out.deep_view(), item.time@, at as int) == insert_position(
                    out.deep_view(),
                    item.time@,
                    0,
                ),
            decreases out.len() - at,
        {
            assert(out.deep_view()[at as int] == out@[at as int].deep_view());
            at = at + 1;
        }
        proof {
            if at < out.len() {
                assert(out.deep_view()[at as int] == out@[at as int].deep_view());
            }
            assert(all.take(i + 1).drop_last() == all.take(i as int));
            assert(all.take(i + 1).last() == item.deep_view());
        }
        let ghost before = out;
        out.insert(at, item);
        proof {
            lemma_deep_view_insert(before, out, at as int, item);
        }
        i = i + 1;
    }
    proof {
        assert(all.take(snaps.len() as int) == all);
        lemma_newest_first_ordered(all);
    }
    out
}

/// Why the tool's output gave no snapshot listing.
#[derive(Debug, Clone, PartialEq, Eq)]
pub enum SnapshotParseError {
    /// The output holds no `[` that a `]` follows.
    NoJsonArray,
    /// What lies between the brackets is not JSON; `raw` is that text and
    /// `detail` the decoder's message.
    InvalidJson { raw: String, detail: String },
}

/// The model of a [`SnapshotParseError`].
pub enum SnapshotParseErrorView {
    NoJsonArray,
    InvalidJson { raw: Seq<char>, detail: Seq<char> },
}

impl DeepView for SnapshotParseError {
    type V = SnapshotParseErrorView;

    open spec fn deep_view(&self) -> SnapshotParseErrorView {
        match self {
            SnapshotParseError::NoJsonArray => SnapshotParseErrorView::NoJsonArray,
            SnapshotParseError::InvalidJson { raw, detail } => SnapshotParseErrorView::InvalidJson {
                raw: raw@,
                detail: detail@,
            },
        }
    }
}

/// The message shown for a listing that could not be read.
pub open spec fn describe_parse_error(e: SnapshotParseErrorView) -> Seq<char> {
    match e {
        SnapshotParseErrorView::NoJsonArray => "无法从 restic 输出中解析快照 JSON 数据。"@,
        SnapshotParseErrorView::InvalidJson { detail, .. } => "解析快照 JSON 失败: "@ + detail,
    }
}

impl SnapshotParseError {
    /// The message shown for this error.
    pub fn describe(&self) -> (r: String)
        ensures
            r@ == describe_parse_error(self.deep_view()),
    {
        match self {
            SnapshotParseError::NoJsonArray => String::from_str(
                "无法从 restic 输出中解析快照 JSON 数据。",
            ),
            SnapshotParseError::InvalidJson { detail, .. } => {
                let mut r = String::from_str("解析快照 JSON 失败: ");
                r.append(detail.as_str());
                r
            },
        }
    }
}

/// The model of a listing that was read, or of why it was not.
pub open spec fn listing_view(r: Result<Vec<Snapshot>, SnapshotParseError>) -> Result<
    Seq<SnapshotView>,
    SnapshotParseErrorView,
> {
    match r {
        Ok(snaps) => Ok(snaps.deep_view()),
        Err(e) => Err(e.deep_view()),
    }
}

/// What the text `raw` between the brackets yields, given what the JSON
/// decoder made of it: the snapshots, newest first, or the decoder's
/// message together with `raw`.
pub open spec fn decoded_listing(raw: Seq<char>, parsed: Result<JsonView, Seq<char>>) -> Result<
    Seq<SnapshotView>,
    SnapshotParseErrorView,
> {
    match parsed {
        Ok(doc) => Ok(newest_first(snapshots_of(doc))),
        Err(detail) => Err(SnapshotParseErrorView::InvalidJson { raw, detail }),
    }
}

/// What the tool's output yields as a listing.
pub open spec fn listing(output: Seq<char>) -> Result<Seq<SnapshotView>, SnapshotParseErrorView> {
    match array_text(output) {
        Some(raw) => decoded_listing(raw, json_parse(raw)),
        None => Err(SnapshotParseErrorView::NoJsonArray),
    }
}

/// Turns what the JSON decoder made of `raw` into the listing, newest first.
pub fn snapshots_from_parsed(raw: String, parsed: Result<JsonValue, String>) -> (r: Result<
    Vec<Snapshot>,
    SnapshotParseError,
>)
    ensures
        listing_view(r) == decoded_listing(raw@, crate::json::parsed_view(parsed)),
        r matches Ok(snaps) ==> is_newest_first(snaps.deep_view()),
{
    match parsed {
        Ok(doc) => {
            let listed = snapshots_from_json(&doc);
            Ok(sort_snapshots(&listed))
        },
        Err(detail) => Err(SnapshotParseError::InvalidJson { raw, detail }),
    }
}

/// Reads the snapshot listing out of what the tool printed when asked for
/// its snapshots as JSON: the array is cut out, decoded and ordered newest
/// first.
pub fn get_snapshots(output: &str) -> (r: Result<Vec<Snapshot>, SnapshotParseError>)
    ensures
        listing_view(r) == listing(output@),
        r matches Ok(snaps) ==> is_newest_first(snaps.deep_view()),
{
    match extract_json_array(output) {
        Some(raw) => {
            let parsed = read_json(raw.as_str());
            snapshots_from_parsed(raw, parsed)
        },
        None => Err(SnapshotParseError::NoJsonArray),
    }
}

/// What a selector resolves to.
#[derive(Debug, Clone, PartialEq, Eq)]
pub struct Selection {
    /// The snapshots to act on, in the order in which they were asked for.
    pub snapshots: Vec<Snapshot>,
    /// The id prefixes that no snapshot matched.
    pub not_found: Vec<String>,
}

/// The model of a [`Selection`].
pub struct SelectionView {
    pub snapshots: Seq<SnapshotView>,
    pub not_found: Seq<Seq<char>>,
}

impl DeepView for Selection {
    type V = SelectionView;

    open spec fn deep_view(&self) -> SelectionView {
        SelectionView {
            snapshots: self.snapshots.deep_view(),
            not_found: self.not_found.deep_view(),
        }
    }
}

/// The index of the first snapshot at or after `i` whose id begins with
/// `prefix`, or the number of snapshots.
pub open spec fn first_match(available: Seq<SnapshotView>, prefix: Seq<char>, i: int) -> int
    decreases available.len() - i,
{
    if 0 <= i < available.len() && !starts_with(available[i].short_id, prefix) {
        first_match(available, prefix, i + 1)
    } else if i < available.len() {
        i
    } else {
        available.len() as int
    }
}

/// What a list of id prefixes selects: for each prefix in turn the first
/// snapshot whose id begins with it, or the prefix itself among those not
/// found. A prefix without a match does not end the selection.
pub open spec fn select_by_ids(prefixes: Seq<Seq<char>>, available: Seq<SnapshotView>) -> SelectionView
    decreases prefixes.len(),
{
    if prefixes.len() == 0 {
        SelectionView { snapshots: Seq::empty(), not_found: Seq::empty() }
    } else {
        let rest = select_by_ids(prefixes.drop_last(), available);
        let at = first_match(available, prefixes.last(), 0);
        if 0 <= at < available.len() {
            SelectionView { snapshots: rest.snapshots.push(available[at]), not_found: rest.not_found }
        } else {
            SelectionView {
                snapshots: rest.snapshots,
                not_found: rest.not_found.push(prefixes.last()),
            }
        }
    }
}

/// The selector as it is compared: lower case, without outer white space.
pub open spec fn selector_key(selector: Seq<char>) -> Seq<char> {
    trim(lowercase(selector))
}

/// The id prefixes that a selector lists: its pieces between commas,
/// trimmed, the empty ones left out.
pub open spec fn id_prefixes(key: Seq<char>) -> Seq<Seq<char>> {
    trimmed_nonempty(split(key, ','))
}

/// What `selector` selects among `available`, which is ordered newest
/// first: `latest` its first snapshot, `all` every snapshot in order, and
/// anything else the snapshots that its id prefixes match.
pub open spec fn select(selector: Seq<char>, available: Seq<SnapshotView>) -> SelectionView {
    let key = selector_key(selector);
    if key == "latest"@ {
        SelectionView { snapshots: available.take(if available.len() > 0 { 1int } else { 0int }), not_found: Seq::empty() }
    } else if key == "all"@ {
        SelectionView { snapshots: available, not_found: Seq::empty() }
    } else {
        select_by_ids(id_prefixes(key), available)
    }
}

/// A copy of a listing.
pub fn copy_snapshots(snaps: &Vec<Snapshot>) -> (r: Vec<Snapshot>)
    ensures
        r.deep_view() == snaps.deep_view(),
{
    let mut out: Vec<Snapshot> = Vec::new();
    let mut i: usize = 0;
    while i < snaps.len()
        invariant
            i <= snaps.len(),
            out.deep_view() == snaps.deep_view().take(i as int),
        decreases snaps.len() - i,
    {
        let item = snaps[i].duplicate();
        let ghost before = out;
        out.push(item);
        proof {
            lemma_deep_view_push(before, out, item);
            assert(snaps.deep_view().take(i + 1) == snaps.deep_view().take(i as int).push(
                snaps@[i as int].deep_view(),
            ));
        }
        i = i + 1;
    }
    assert(snaps.deep_view().take(snaps.len() as int) == snaps.deep_view());
    out
}

/// Resolves a selector to snapshots of `available`, which is ordered
/// newest first.
pub fn select_snapshots(selector: &str, available: &Vec<Snapshot>) -> (r: Selection)
    ensures
        r.deep_view() == select(selector@, available.deep_view()),
{
    let key = trim_chars(&lowercase_chars(&chars_of(selector)));
    let key_text = text_of(&key);
    let mut not_found: Vec<String> = Vec::new();
    assert(not_found.deep_view() == Seq::<Seq<char>>::empty());
    if same_text(key_text.as_str(), "latest") {
        let mut snapshots: Vec<Snapshot> = Vec::new();
        assert(snapshots.deep_view() == Seq::<SnapshotView>::empty());
        if available.len() > 0 {
            let ghost before = snapshots;
            let first = available[0].duplicate();
            snapshots.push(first);
            proof {
                lemma_deep_view_push(before, snapshots, first);
                assert(available.deep_view().take(1) == Seq::<SnapshotView>::empty().push(
                    available@[0].deep_view(),
                ));
            }
        } else {
            assert(available.deep_view().take(0) == Seq::<SnapshotView>::empty());
        }
        return Selection { snapshots, not_found };
    }
    if same_text(key_text.as_str(), "all") {
        return Selection { snapshots: copy_snapshots(available), not_found };
    }
    let prefixes = trim_pieces(&split_chars(&key, ','));
    let ghost wanted = prefixes.deep_view();
    let mut snapshots: Vec<Snapshot> = Vec::new();
    assert(snapshots.deep_view() == Seq::<SnapshotView>::empty());
    assert(wanted.take(0) == Seq::<Seq<char>>::empty());
    let mut i: usize = 0;
    while i < prefixes.len()
        invariant
            i <= prefixes.len(),
            wanted == prefixes.deep_view(),
            (Selection { snapshots, not_found }).deep_view() == select_by_ids(
                wanted.take(i as int),
                available.deep_view(),
            ),
        decreases prefixes.len() - i,
    {
        let prefix = &prefixes[i];
        proof {
            lemma_chars_deep_view(*prefix);
            assert(wanted[i as int] == prefix@);
            assert(wanted.take(i + 1).drop_last() == wanted.take(i as int));
            assert(wanted.take(i + 1).last() == prefix@);
        }
        let mut at: usize = 0;
        while at < available.len() && !check_starts_with(
            &chars_of(available[at].short_id.as_str()),
            prefix,
        )
            invariant
                at <= available.len(),
                first_match(available.deep_view(), prefix@, at as int) == first_match(
                    available.deep_view(),
                    prefix@,
                    0,
                ),
            decreases available.len() - at,
        {
            assert(available.deep_view()[at as int] == available@[at as int].deep_view());
            at = at + 1;
        }
        if at < available.len() {
            assert(available.deep_view()[at as int] == available@[at as int].deep_view());
            let ghost before = snapshots;
            let found = available[at].duplicate();
            snapshots.push(found);
            proof {
                lemma_deep_view_push(before, snapshots, found);
            }
        } else {
            let ghost before = not_found;
            let missing = text_of(prefix);
            not_found.push(missing);
            proof {
                lemma_deep_view_push(before, not_found, missing);
            }
        }
        i = i + 1;
    }
    assert(wanted.take(prefixes.len() as int) == wanted);
    Selection { snapshots, not_found }
}

/// Whatever the listing: `latest` selects its first snapshot and nothing
/// else, or nothing where the listing is empty.
pub proof fn lemma_latest_selects_first(available: Seq<SnapshotView>)
    ensures
        select("latest"@, available).not_found.len() == 0,
        available.len() == 0 ==> select("latest"@, available).snapshots.len() == 0,
        available.len() > 0 ==> select("latest"@, available).snapshots == seq![available[0]],
{
    reveal_strlit("latest");
    let s = "latest"@;
    assert(lowercase(s) == s);
    reveal_with_fuel(crate::text::skip_spaces, 2);
    reveal_with_fuel(crate::text::drop_spaces_back, 2);
    assert(trim(s) == s);
    if available.len() > 0 {
        assert(available.take(1) == seq![available[0]]);
    }
}

/// Whatever the listing: `all` selects every snapshot, in the listing's order.
pub proof fn lemma_all_selects_everything(available: Seq<SnapshotView>)
    ensures
        select("all"@, available).snapshots == available,
        select("all"@, available).not_found.len() == 0,
{
    reveal_strlit("all");
    reveal_strlit("latest");
    let s = "all"@;
    assert(lowercase(s) == s);
    reveal_with_fuel(crate::text::skip_spaces, 2);
    reveal_with_fuel(crate::text::drop_spaces_back, 2);
    assert(trim(s) == s);
}

/// Every id prefix is accounted for: it either selects a snapshot or is
/// listed as not found, whatever became of the prefixes before it.
pub proof fn lemma_every_prefix_answered(prefixes: Seq<Seq<char>>, available: Seq<SnapshotView>)
    ensures
        select_by_ids(prefixes, available).snapshots.len() + select_by_ids(
            prefixes,
            available,
        ).not_found.len() == prefixes.len(),
        forall|k: int|
            0 <= k < prefixes.len() && first_match(available, #[trigger] prefixes[k], 0)
                < available.len() ==> select_by_ids(prefixes, available).snapshots.contains(
                available[first_match(available, prefixes[k], 0)],
            ),
        forall|k: int|
            0 <= k < prefixes.len() && first_match(available, #[trigger] prefixes[k], 0)
                >= available.len() ==> select_by_ids(prefixes, available).not_found.contains(
                prefixes[k],
            ),
    decreases prefixes.len(),
{
    if prefixes.len() > 0 {
        let front = prefixes.drop_last();
        let rest = select_by_ids(front, available);
        let out = select_by_ids(prefixes, available);
        lemma_every_prefix_answered(front, available);
        lemma_first_match_bounds(available, prefixes.last(), 0);
        let at = first_match(available, prefixes.last(), 0);
        assert forall|k: int|
            0 <= k < prefixes.len() && first_match(available, #[trigger] prefixes[k], 0)
                < available.len() implies out.snapshots.contains(
            available[first_match(available, prefixes[k], 0)],
        ) by {
            let hit = available[first_match(available, prefixes[k], 0)];
            if k < front.len() {
                assert(front[k] == prefixes[k]);
                let w = choose|w: int| 0 <= w < rest.snapshots.len() && rest.snapshots[w] == hit;
                assert(out.snapshots[w] == hit);
            } else {
                assert(out.snapshots[rest.snapshots.len() as int] == hit);
            }
        }
        assert forall|k: int|
            0 <= k < prefixes.len() && first_match(available, #[trigger] prefixes[k], 0)
                >= available.len() implies out.not_found.contains(prefixes[k]) by {
            if k < front.len() {
                assert(front[k] == prefixes[k]);
                let w = choose|w: int|
                    0 <= w < rest.not_found.len() && rest.not_found[w] == prefixes[k];
                assert(out.not_found[w] == prefixes[k]);
            } else {
                assert(out.not_found[rest.not_found.len() as int] == prefixes[k]);
            }
        }
    }
}

/// The first match lies within the listing, and its id begins with the prefix.
pub proof fn lemma_first_match_bounds(available: Seq<SnapshotView>, prefix: Seq<char>, i: int)
    requires
        0 <= i <= available.len(),
    ensures
        i <= first_match(available, prefix, i) <= available.len(),
        first_match(available, prefix, i) < available.len() ==> starts_with(
            available[first_match(available, prefix, i)].short_id,
            prefix,
        ),
    decreases available.len() - i,
{
    if i < available.len() && !starts_with(available[i].short_id, prefix) {
        lemma_first_match_bounds(available, prefix, i + 1);
    }
}

/// How paths are written where the backup was taken.
#[derive(Clone, Copy, Debug, PartialEq, Eq, Structural)]
pub enum PathSyntax {
    /// Drive letters and backslashes: `D:\a\b`.
    DriveLetters,
    /// Any other system: the path is taken as it stands.
    Plain,
}

/// Whether `c` parts the segments of a path.
pub open spec fn is_separator(c: char, syntax: PathSyntax) -> bool {
    c == '/' || (syntax == PathSyntax::DriveLetters && c == '\\')
}

/// Whether `c` parts the segments of a path.
pub fn char_is_separator(c: char, syntax: PathSyntax) -> (r: bool)
    ensures
        r == is_separator(c, syntax),
{
    c == '/' || (syntax == PathSyntax::DriveLetters && c == '\\')
}

/// The least end `e` at most `j` such that `path[e..j]` holds separators only.
pub open spec fn strip_separators(path: Seq<char>, syntax: PathSyntax, j: int) -> int
    decreases j,
{
    if 0 < j <= path.len() && is_separator(path[j - 1], syntax) {
        strip_separators(path, syntax, j - 1)
    } else {
        j
    }
}

/// The greatest index below `j` that holds a separator, or `-1`.
pub open spec fn last_separator(path: Seq<char>, syntax: PathSyntax, j: int) -> int
    decreases j,
{
    if 0 < j <= path.len() && !is_separator(path[j - 1], syntax) {
        last_separator(path, syntax, j - 1)
    } else if 0 < j <= path.len() {
        j - 1
    } else {
        -1
    }
}

/// The directory that holds the last segment of `path`: separators at the
/// end are ignored, the last segment and the separators before it are cut
/// off. A path of one segment has the empty parent, or the root where it
/// begins with a separator.
pub open spec fn parent_of(path: Seq<char>, syntax: PathSyntax) -> Seq<char> {
    let end = strip_separators(path, syntax, path.len() as int);
    let cut = last_separator(path, syntax, end);
    if cut < 0 {
        Seq::empty()
    } else {
        let stop = strip_separators(path, syntax, cut);
        if stop == 0 {
            path.subrange(0, 1)
        } else {
            path.subrange(0, stop)
        }
    }
}

fn strip_separators_back(path: &Vec<char>, syntax: PathSyntax, end: usize) -> (r: usize)
    requires
        end <= path.len(),
    ensures
        r == strip_separators(path@, syntax, end as int),
        r <= end,
{
    let mut j: usize = end;
    while j > 0 && char_is_separator(path[j - 1], syntax)
        invariant
            j <= end <= path.len(),
            strip_separators(path@, syntax, j as int) == strip_separators(path@, syntax, end as int),
        decreases j,
    {
        j = j - 1;
    }
    j
}

/// The parent directory of `path`.
pub fn parent_chars(path: &Vec<char>, syntax: PathSyntax) -> (r: Vec<char>)
    ensures
        r@ == parent_of(path@, syntax),
{
    let end = strip_separators_back(path, syntax, path.len());
    let mut j: usize = end;
    while j > 0 && !char_is_separator(path[j - 1], syntax)
        invariant
            j <= end <= path.len(),
            last_separator(path@, syntax, j as int) == last_separator(path@, syntax, end as int),
        decreases j,
    {
        j = j - 1;
    }
    let mut out: Vec<char> = Vec::new();
    if j == 0 {
        assert(out@ == Seq::<char>::empty());
        return out;
    }
    let stop = strip_separators_back(path, syntax, j - 1);
    let upto: usize = if stop == 0 {
        1
    } else {
        stop
    };
    let mut i: usize = 0;
    while i < upto
        invariant
            i <= upto <= path.len(),
            out@ == path@.subrange(0, i as int),
        decreases upto - i,
    {
        out.push(path[i]);
        i = i + 1;
    }
    out
}

/// Whether `c` can name a drive.
pub open spec fn is_drive_letter(c: char) -> bool {
    ('a' <= c <= 'z') || ('A' <= c <= 'Z')
}

/// `path` with every backslash turned into a slash.
pub open spec fn slashed(path: Seq<char>) -> Seq<char> {
    Seq::new(path.len(), |i: int| if path[i] == '\\' { '/' } else { path[i] })
}

/// `path` as the tool expects a path inside a snapshot. Where paths have
/// drive letters, backslashes become slashes and a drive prefix `X:`
/// becomes `/X`; elsewhere the path is unchanged.
pub open spec fn convert_path(path: Seq<char>, syntax: PathSyntax) -> Seq<char> {
    match syntax {
        PathSyntax::Plain => path,
        PathSyntax::DriveLetters => {
            let p = slashed(path);
            if p.len() >= 2 && is_drive_letter(p[0]) && p[1] == ':' {
                seq!['/', p[0]] + p.subrange(2, p.len() as int)
            } else {
                p
            }
        },
    }
}

/// Converts a path to the tool's syntax.
pub fn convert_chars(path: &Vec<char>, syntax: PathSyntax) -> (r: Vec<char>)
    ensures
        r@ == convert_path(path@, syntax),
{
    let mut out: Vec<char> = Vec::new();
    match syntax {
        PathSyntax::Plain => {
            let mut i: usize = 0;
            while i < path.len()
                invariant
                    i <= path.len(),
                    out@ == path@.take(i as int),
                decreases path.len() - i,
            {
                out.push(path[i]);
                i = i + 1;
            }
            assert(path@.take(path.len() as int) == path@);
            out
        },
        PathSyntax::DriveLetters => {
            let ghost p = slashed(path@);
            let mut i: usize = 0;
            let first: char = if path.len() > 0 {
                path[0]
            } else {
                ' '
            };
            let drive = path.len() >= 2 && (('a' <= first && first <= 'z') || ('A' <= first
                && first <= 'Z')) && path[1] == ':';
            if drive {
                out.push('/');
                out.push(first);
                i = 2;
                assert(out@ == seq!['/', p[0]] + p.subrange(2, 2));
            } else {
                assert(out@ == p.subrange(0, 0));
            }
            let ghost head = out@;
            let ghost from = i;
            while i < path.len()
                invariant
                    from <= i <= path.len(),
                    p == slashed(path@),
                    out@ == head + p.subrange(from as int, i as int),
                decreases path.len() - i,
            {
                let c = if path[i] == '\\' {
                    '/'
                } else {
                    path[i]
                };
                out.push(c);
                assert(p.subrange(from as int, i + 1) == p.subrange(from as int, i as int).push(
                    p[i as int],
                ));
                i = i + 1;
            }
            proof {
                if !drive {
                    assert(head + p.subrange(0, p.len() as int) == p);
                }
            }
            out
        },
    }
}

/// What is handed to the tool so that only the last segment of `path`
/// is restored: the id, a colon, and the parent of `path` in the tool's syntax.
pub open spec fn restore_argument(short_id: Seq<char>, path: Seq<char>, syntax: PathSyntax) -> Seq<
    char,
> {
    short_id + seq![':'] + convert_path(parent_of(path, syntax), syntax)
}

/// The argument that restores only the last segment of `path` out of the
/// snapshot `short_id`.
pub fn restore_last_segment(short_id: &str, path: &str, syntax: PathSyntax) -> (r: String)
    ensures
        r@ == restore_argument(short_id@, path@, syntax),
{
    let parent = convert_chars(&parent_chars(&chars_of(path), syntax), syntax);
    let mut r = String::from_str(short_id);
    r.push(':');
    r.append(text_of(&parent).as_str());
    r
}

/// No recorded path of the snapshot ends with the configured subpath.
#[derive(Debug, Clone, PartialEq, Eq)]
pub struct RestorePathNotFound {
    /// The id of the snapshot.
    pub snapshot: String,
    /// The subpath that was looked for.
    pub subpath: String,
}

/// The model of a [`RestorePathNotFound`].
pub struct RestorePathNotFoundView {
    pub snapshot: Seq<char>,
    pub subpath: Seq<char>,
}

impl DeepView for RestorePathNotFound {
    type V = RestorePathNotFoundView;

    open spec fn deep_view(&self) -> RestorePathNotFoundView {
        RestorePathNotFoundView { snapshot: self.snapshot@, subpath: self.subpath@ }
    }
}

/// The index of the first path at or after `i` that ends with `suffix`, or
/// the number of paths.
pub open spec fn first_ending_with(paths: Seq<Seq<char>>, suffix: Seq<char>, i: int) -> int
    decreases paths.len() - i,
{
    if 0 <= i < paths.len() && !ends_with(paths[i], suffix) {
        first_ending_with(paths, suffix, i + 1)
    } else if i < paths.len() {
        i
    } else {
        paths.len() as int
    }
}

/// What is handed to the tool for a snapshot. Without a subpath the whole
/// snapshot is restored under its recorded paths, so the id alone. With
/// one, the first recorded path that ends with it is restored without what
/// lies above its last segment; where none does, the job cannot go on.
pub open spec fn resolve_argument(
    snapshot: SnapshotView,
    subpath: Option<Seq<char>>,
    syntax: PathSyntax,
) -> Result<Seq<char>, RestorePathNotFoundView> {
    match subpath {
        None => Ok(snapshot.short_id),
        Some(wanted) => {
            let at = first_ending_with(snapshot.paths, wanted, 0);
            if 0 <= at < snapshot.paths.len() {
                Ok(restore_argument(snapshot.short_id, snapshot.paths[at], syntax))
            } else {
                Err(RestorePathNotFoundView { snapshot: snapshot.short_id, subpath: wanted })
            }
        },
    }
}

/// The model of a resolved argument, or of why there is none.
pub open spec fn argument_view(r: Result<String, RestorePathNotFound>) -> Result<
    Seq<char>,
    RestorePathNotFoundView,
> {
    match r {
        Ok(s) => Ok(s@),
        Err(e) => Err(e.deep_view()),
    }
}

/// Works out what to hand to the tool to restore `snapshot`.
pub fn resolve_restore_argument(
    snapshot: &Snapshot,
    subpath: &Option<String>,
    syntax: PathSyntax,
) -> (r: Result<String, RestorePathNotFound>)
    ensures
        argument_view(r) == resolve_argument(snapshot.deep_view(), subpath.deep_view(), syntax),
{
    match subpath {
        None => Ok(snapshot.short_id.clone()),
        Some(wanted) => {
            let suffix = chars_of(wanted.as_str());
            let ghost paths = snapshot.paths.deep_view();
            let mut at: usize = 0;
            while at < snapshot.paths.len() && !check_ends_with(
                &chars_of(snapshot.paths[at].as_str()),
                &suffix,
            )
                invariant
                    at <= snapshot.paths.len(),
                    paths == snapshot.paths.deep_view(),
                    suffix@ == wanted@,
                    first_ending_with(paths, wanted@, at as int) == first_ending_with(
                        paths,
                        wanted@,
                        0,
                    ),
                decreases snapshot.paths.len() - at,
            {
                assert(paths[at as int] == snapshot.paths@[at as int]@);
                at = at + 1;
            }
            if at < snapshot.paths.len() {
                assert(paths[at as int] == snapshot.paths@[at as int]@);
                Ok(
                    restore_last_segment(
                        snapshot.short_id.as_str(),
                        snapshot.paths[at].as_str(),
                        syntax,
                    ),
                )
            } else {
                Err(
                    RestorePathNotFound {
                        snapshot: snapshot.short_id.clone(),
                        subpath: wanted.clone(),
                    },
                )
            }
        },
    }
}

proof fn lemma_last_separator_skips_leaf(path: Seq<char>, syntax: PathSyntax, cut: int, j: int)
    requires
        0 <= cut < j <= path.len(),
        is_separator(path[cut], syntax),
        forall|k: int| cut < k < j ==> !is_separator(#[trigger] path[k], syntax),
    ensures
        last_separator(path, syntax, j) == cut,
    decreases j,
{
    if j - 1 > cut {
        lemma_last_separator_skips_leaf(path, syntax, cut, j - 1);
    }
}

/// Restoring the last segment only: where a recorded path is a directory
/// `parent`, a slash and a last segment `leaf`, its parent is `parent`, and
/// what is handed to the tool is the id, a colon and `parent` in the
/// tool's syntax, whatever `leaf` is.
pub proof fn lemma_last_segment_is_cut(
    short_id: Seq<char>,
    parent: Seq<char>,
    leaf: Seq<char>,
    syntax: PathSyntax,
)
    requires
        parent.len() > 0,
        !is_separator(parent.last(), syntax),
        leaf.len() > 0,
        forall|k: int| 0 <= k < leaf.len() ==> !is_separator(#[trigger] leaf[k], syntax),
    ensures
        parent_of(parent + seq!['/'] + leaf, syntax) == parent,
        restore_argument(short_id, parent + seq!['/'] + leaf, syntax) == short_id + seq![':']
            + convert_path(parent, syntax),
{
    let path = parent + seq!['/'] + leaf;
    let n = path.len() as int;
    let cut = parent.len() as int;
    assert(path[n - 1] == leaf[leaf.len() - 1]);
    assert(strip_separators(path, syntax, n) == n);
    assert(path[cut] == '/');
    assert forall|k: int| cut < k < n implies !is_separator(#[trigger] path[k], syntax) by {
        assert(path[k] == leaf[k - cut - 1]);
    }
    lemma_last_separator_skips_leaf(path, syntax, cut, n);
    assert(path[cut - 1] == parent.last());
    assert(strip_separators(path, syntax, cut) == cut);
    assert(path.subrange(0, cut) == parent);
}

} // verus!
