//! The persistent log writer: the on-disk row format and the append-only
//! file discipline.
//!
//! The file itself lives on durable storage outside this crate; what is
//! verified here is everything the writer decides: the header is written
//! exactly once, exactly when the file did not previously exist; every
//! append adds one data row and touches nothing that was already written.
//! [`LogFile`] models the file's lines so those guarantees can be stated and
//! proved; the caller mirrors each step onto the real path, using
//! create-exclusive semantics for the header step.
//!
//! The header row names only the five counter columns, although every data
//! row begins with a timestamp. The mismatch is kept deliberately: log files
//! already written use exactly this header, and changing it would split the
//! format in two.

use crate::codec::MeasurementRecord;
use crate::codec::MeasurementView;
use vstd::prelude::*;

verus! {

/// The fixed header row: the five counter columns, in row order.
pub open spec fn header_text() -> Seq<char> {
    "dal,normaal,terug dal,terug normaal,gas"@
}

/// The header row as written to a newly created file.
pub fn header_line() -> (r: String)
    ensures
        r@ == header_text(),
{
    String::from_str("dal,normaal,terug dal,terug normaal,gas")
}

/// One data row: the timestamp, then the five counters in header order.
pub open spec fn row_text(ts: Seq<char>, v: MeasurementView) -> Seq<char> {
    ts + ","@ + v.import_t1 + ","@ + v.import_t2 + ","@ + v.export_t1 + ","@ + v.export_t2 + ","@
        + v.gas
}

/// Renders the data row for a record with the given timestamp.
pub fn format_row(ts: &str, rec: &MeasurementRecord) -> (r: String)
    ensures
        r@ == row_text(ts@, rec@),
{
    let mut out = String::from_str(ts);
    out.append(",");
    out.append(rec.total_power_import_t1_kwh.as_str());
    out.append(",");
    out.append(rec.total_power_import_t2_kwh.as_str());
    out.append(",");
    out.append(rec.total_power_export_t1_kwh.as_str());
    out.append(",");
    out.append(rec.total_power_export_t2_kwh.as_str());
    out.append(",");
    out.append(rec.total_gas_m3.as_str());
    proof {
        assert(out@ =~= row_text(ts@, rec@));
    }
    out
}

/// A timestamp that cannot disturb the row format: no comma, no line break.
pub open spec fn timestamp_ok(ts: Seq<char>) -> bool {
    forall|i: int| 0 <= i < ts.len() ==> ts[i] != ',' && ts[i] != '\n'
}

/// Relies on chrono's `Local::now` and the `Display` of its local date-time:
/// the rendering is built from digits, `-`, `:`, `.`, signs and spaces, so
/// it holds neither a comma nor a line break. Nothing else is assumed of
/// the clock's reading.
#[verifier::external_body]
fn local_timestamp() -> (r: String)
    ensures
        timestamp_ok(r@),
{
    chrono::Local::now().to_string()
}

/// Renders the data row for a record at the present local wall-clock time.
pub fn timestamped_row(rec: &MeasurementRecord) -> (r: String)
    ensures
        exists|ts: Seq<char>| #[trigger] timestamp_ok(ts) && r@ == row_text(ts, rec@),
{
    let ts = local_timestamp();
    let row = format_row(ts.as_str(), rec);
    proof {
        assert(timestamp_ok(ts@) && row@ == row_text(ts@, rec@));
    }
    row
}

/// What the writer knows of the file: whether the path exists, and the lines
/// written so far.
#[verifier::ext_equal]
pub struct LogView {
    pub present: bool,
    pub lines: Seq<Seq<char>>,
}

/// A path that does not exist has no lines.
pub open spec fn log_wf(l: LogView) -> bool {
    !l.present ==> l.lines.len() == 0
}

/// The create-if-absent step: a missing file comes into being with exactly
/// the header row; an existing file — empty or not — is left untouched.
pub open spec fn spec_create(l: LogView) -> LogView {
    if l.present {
        l
    } else {
        LogView { present: true, lines: l.lines.push(header_text()) }
    }
}

/// One append: create-if-absent, then one data row at the end.
pub open spec fn spec_append(l: LogView, ts: Seq<char>, v: MeasurementView) -> LogView {
    let l1 = spec_create(l);
    LogView { present: true, lines: l1.lines.push(row_text(ts, v)) }
}

/// The writer's model of the log file.
pub struct LogFile {
    present: bool,
    lines: Vec<String>,
}

impl View for LogFile {
    type V = LogView;

    closed spec fn view(&self) -> LogView {
        LogView { present: self.present, lines: self.lines.deep_view() }
    }
}

impl LogFile {
    /// The model of a path with no file behind it yet.
    pub fn at_fresh_path() -> (r: LogFile)
        ensures
            r@ == (LogView { present: false, lines: Seq::<Seq<char>>::empty() }),
            log_wf(r@),
    {
        let r = LogFile { present: false, lines: Vec::new() };
        proof {
            assert(r@.lines =~= Seq::<Seq<char>>::empty());
            assert(r@ =~= (LogView { present: false, lines: Seq::<Seq<char>>::empty() }));
        }
        r
    }

    /// The model of a path whose file already holds the given lines.
    pub fn at_existing_path(lines: Vec<String>) -> (r: LogFile)
        ensures
            r@ == (LogView { present: true, lines: lines.deep_view() }),
    {
        let r = LogFile { present: true, lines };
        proof {
            assert(r@ =~= (LogView { present: true, lines: r.lines.deep_view() }));
        }
        r
    }

    /// Whether the file exists.
    pub fn is_present(&self) -> (b: bool)
        ensures
            b == self@.present,
    {
        self.present
    }

    /// How many lines the file holds.
    pub fn line_count(&self) -> (n: usize)
        ensures
            n == self@.lines.len(),
    {
        self.lines.len()
    }

    /// The line at the given position.
    pub fn line_at(&self, i: usize) -> (r: &String)
        requires
            i < self@.lines.len(),
        ensures
            r@ == self@.lines[i as int],
    {
        &self.lines[i]
    }

    /// The create-if-absent step, as [`spec_create`] describes it.
    pub fn create_if_absent(&mut self)
        ensures
            final(self)@ == spec_create(old(self)@),
    {
        if !self.present {
            self.present = true;
            self.lines.push(header_line());
            proof {
                assert(self@.lines =~= old(self)@.lines.push(header_text()));
                assert(self@ =~= spec_create(old(self)@));
            }
        }
    }

    /// Appends one record's row with the given timestamp, creating the file
    /// with its header first if the path was missing.
    pub fn append(&mut self, ts: &str, rec: &MeasurementRecord)
        ensures
            final(self)@ == spec_append(old(self)@, ts@, rec@),
    {
        self.create_if_absent();
        let row = format_row(ts, rec);
        self.lines.push(row);
        proof {
            assert(self@.lines =~= spec_create(old(self)@).lines.push(row_text(ts@, rec@)));
            assert(self@ =~= spec_append(old(self)@, ts@, rec@));
        }
    }
}

/// The log after a run of appends: each row's timestamp and record, in
/// order.
pub open spec fn spec_append_all(l: LogView, rows: Seq<(Seq<char>, MeasurementView)>) -> LogView
    decreases rows.len(),
{
    if rows.len() == 0 {
        l
    } else {
        spec_append_all(spec_append(l, rows[0].0, rows[0].1), rows.drop_first())
    }
}

/// Creating a file that the create step already created changes nothing:
/// however often the create-if-absent step runs — within one process or
/// across restarts — the header is written at most once.
pub proof fn lemma_create_idempotent(l: LogView)
    ensures
        spec_create(spec_create(l)) == spec_create(l),
{
}

/// Appends against an existing file only add rows at the end, one per
/// record, in order; nothing already written moves or changes.
pub proof fn lemma_append_all_preserves(l: LogView, rows: Seq<(Seq<char>, MeasurementView)>)
    requires
        l.present,
    ensures
        ({
            let end = spec_append_all(l, rows);
            &&& end.present
            &&& end.lines.len() == l.lines.len() + rows.len()
            &&& forall|i: int| 0 <= i < l.lines.len() ==> end.lines[i] == l.lines[i]
            &&& forall|i: int|
                0 <= i < rows.len() ==> end.lines[l.lines.len() + i] == row_text(
                    rows[i].0,
                    rows[i].1,
                )
        }),
    decreases rows.len(),
{
    if rows.len() > 0 {
        let l1 = spec_append(l, rows[0].0, rows[0].1);
        lemma_append_all_preserves(l1, rows.drop_first());
        let end = spec_append_all(l, rows);
        assert(end == spec_append_all(l1, rows.drop_first()));
        assert(l1.lines.len() == l.lines.len() + 1);
        assert(end.lines[l.lines.len() as int] == row_text(rows[0].0, rows[0].1));
        assert forall|i: int| 1 <= i < rows.len() implies end.lines[l.lines.len() + i]
            == row_text(rows[i].0, rows[i].1) by {
            assert(rows.drop_first()[i - 1] == rows[i]);
            assert(end.lines[l1.lines.len() + (i - 1)] == row_text(
                rows.drop_first()[i - 1].0,
                rows.drop_first()[i - 1].1,
            ));
        }
    }
}

/// Header idempotence: against a fresh path, a run of appends writes the
/// header exactly once — as the first line — and exactly one data row per
/// record, in order, however the run is split across process restarts.
pub proof fn lemma_header_once(rows: Seq<(Seq<char>, MeasurementView)>)
    requires
        rows.len() > 0,
    ensures
        ({
            let end = spec_append_all(
                LogView { present: false, lines: Seq::<Seq<char>>::empty() },
                rows,
            );
            &&& end.lines.len() == rows.len() + 1
            &&& end.lines[0] == header_text()
            &&& forall|i: int|
                0 <= i < rows.len() ==> end.lines[i + 1] == row_text(rows[i].0, rows[i].1)
        }),
{
    let fresh = LogView { present: false, lines: Seq::<Seq<char>>::empty() };
    let l1 = spec_append(fresh, rows[0].0, rows[0].1);
    assert(l1.lines.len() == 2);
    assert(l1.lines[0] == header_text());
    assert(l1.lines[1] == row_text(rows[0].0, rows[0].1));
    lemma_append_all_preserves(l1, rows.drop_first());
    let end = spec_append_all(fresh, rows);
    assert(end == spec_append_all(l1, rows.drop_first()));
    assert(forall|i: int|
        1 <= i < rows.len() ==> end.lines[i + 1] == row_text(
            #[trigger] rows[i].0,
            rows[i].1,
        )) by {
        assert(forall|i: int|
            0 <= i < rows.drop_first().len() ==> end.lines[2 + i] == row_text(
                #[trigger] rows.drop_first()[i].0,
                rows.drop_first()[i].1,
            ));
        assert(forall|i: int|
            1 <= i < rows.len() ==> rows.drop_first()[i - 1] == #[trigger] rows[i]);
    }
}

} // verus!
