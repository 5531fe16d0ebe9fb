//! The measurement session: one-time power-unit calibration, the
//! start/stop state machine over baseline snapshots, and the log-sink
//! formatting that turns a finished session into one durable CSV record.
//!
//! Reading a model-specific register is privileged, OS-specific I/O that
//! the embedding program performs. Each operation here therefore takes
//! the *outcome* of the required register reads (`Some(value)` for a
//! successful read, `None` for a failed one) and states exactly what is
//! stored, returned and logged for every outcome.

use vstd::prelude::*;
use crate::csvfmt;
use crate::error::RaplError;
use crate::numfmt;
use crate::vendor;
use crate::vendor::Vendor;

verus! {

/// Did every register read of a snapshot succeed?
pub open spec fn all_read(raw: Seq<Option<u64>>) -> bool {
    forall|i: int| 0 <= i < raw.len() ==> (#[trigger] raw[i]) is Some
}

/// The values of a fully successful snapshot, in register order.
pub open spec fn read_values(raw: Seq<Option<u64>>) -> Seq<u64> {
    raw.map_values(|o: Option<u64>| o.unwrap())
}

/// The index of the first failed read in `raw`.
pub open spec fn first_failure(raw: Seq<Option<u64>>) -> int
    decreases raw.len(),
{
    if raw.len() == 0 {
        0
    } else if raw[0] is None {
        0
    } else {
        1 + first_failure(raw.drop_first())
    }
}

proof fn lemma_first_failure(raw: Seq<Option<u64>>, i: int)
    requires
        0 <= i < raw.len(),
        raw[i] is None,
        forall|j: int| 0 <= j < i ==> (#[trigger] raw[j]) is Some,
    ensures
        first_failure(raw) == i,
    decreases i,
{
    if i > 0 {
        lemma_first_failure(raw.drop_first(), i - 1);
    }
}

/// The calibration cache after one start that was handed the scale/unit
/// read outcome `raw`: the first successful outcome is cached, and a
/// cached value is never replaced.
pub open spec fn power_unit_after_start(before: Option<u64>, raw: Option<u64>) -> Option<u64> {
    if before is Some {
        before
    } else {
        raw
    }
}

/// The calibration cache after a run of starts, given the scale/unit
/// read outcome handed to each in order.
pub open spec fn power_unit_after_starts(before: Option<u64>, raws: Seq<Option<u64>>) -> Option<
    u64,
>
    decreases raws.len(),
{
    if raws.len() == 0 {
        before
    } else {
        power_unit_after_starts(power_unit_after_start(before, raws[0]), raws.drop_first())
    }
}

/// Calibration idempotence: once a first calibration has cached `u`,
/// any number of further starts — whatever scale/unit outcomes they are
/// handed, including none — leaves the cached value exactly `u`, so the
/// scale/unit register never needs to be read again.
pub proof fn lemma_calibration_idempotent(u: u64, raws: Seq<Option<u64>>)
    ensures
        power_unit_after_starts(Some(u), raws) == Some(u),
    decreases raws.len(),
{
    if raws.len() > 0 {
        lemma_calibration_idempotent(u, raws.drop_first());
    }
}

/// A start tuple and an end tuple of equal length, flattened into the
/// logged column order: start and end of the first counter, then start
/// and end of the second, and so on.
pub open spec fn pair_row(base: Seq<u64>, end: Seq<u64>) -> Seq<u64> {
    Seq::new(2 * base.len(), |i: int| if i % 2 == 0 { base[i / 2] } else { end[i / 2] })
}

/// The fields of a logged data row: each value rendered in decimal.
pub open spec fn row_fields(row: Seq<u64>) -> Seq<Seq<char>> {
    row.map_values(|x: u64| numfmt::spec_dec(x as nat))
}

/// The characters of the data rows of a log, in append order.
pub open spec fn rows_chars(rows: Seq<Seq<u64>>) -> Seq<char>
    decreases rows.len(),
{
    if rows.len() == 0 {
        Seq::empty()
    } else {
        rows_chars(rows.drop_last()) + csvfmt::csv_line(row_fields(rows.last()))
    }
}

/// The full contents of the log file of vendor `v` after the given data
/// rows were appended: nothing before the first record, afterwards the
/// header row followed by the data rows.
pub open spec fn file_chars(v: Vendor, rows: Seq<Seq<u64>>) -> Seq<char> {
    if rows.len() == 0 {
        Seq::empty()
    } else {
        csvfmt::csv_line(vendor::spec_columns(v)) + rows_chars(rows)
    }
}

/// The name of the log file: `{vendor}_{calibration value}.csv`.
pub open spec fn filename_chars(v: Vendor, unit: u64) -> Seq<char> {
    vendor::vendor_name(v) + "_"@ + numfmt::spec_dec(unit as nat) + ".csv"@
}

/// The characters handed to the sink for one record: the header line
/// first if this is the first record of the file, then the data row.
pub open spec fn chunk_chars(v: Vendor, first: bool, row: Seq<u64>) -> Seq<char> {
    if first {
        csvfmt::csv_line(vendor::spec_columns(v)) + csvfmt::csv_line(row_fields(row))
    } else {
        csvfmt::csv_line(row_fields(row))
    }
}

/// One durable append, as handed to the embedding program: the file to
/// append to and the characters to append. The append must be flushed
/// before the record is considered logged.
#[derive(Debug, PartialEq, Eq)]
pub struct LogWrite {
    pub filename: String,
    pub bytes: String,
}

/// The process-wide measurement context: the configured vendor, the
/// one-time calibration cache, the in-flight session baseline, and the
/// state of the log sink.
///
/// The context is meant to be used strictly sequentially, by one caller
/// at a time; the embedding program must guard it with mutual exclusion
/// if several threads can reach it.
pub struct Rapl {
    pub vendor: Vendor,
    /// The cached scale/unit value; `None` until the first successful
    /// calibration, then immutable for the life of the context.
    pub power_unit: Option<u64>,
    /// The baseline snapshot of the armed session, `None` while idle.
    pub baseline: Option<Vec<u64>>,
    /// Whether the header row has been emitted (it accompanies the
    /// first record).
    pub header_written: bool,
    /// Model of the data rows appended to the log so far.
    pub rows: Ghost<Seq<Seq<u64>>>,
    /// Model of every character handed to the sink so far; equals the
    /// log file's contents once the embedding program has appended each
    /// `LogWrite` in order.
    pub emitted: Ghost<Seq<char>>,
}

impl Rapl {
    /// The context's internal invariant.
    pub open spec fn wf(self) -> bool {
        &&& (self.baseline is Some ==> self.baseline.unwrap()@.len() == vendor::spec_register_count(
            self.vendor,
        ) && self.power_unit is Some)
        &&& (self.header_written <==> self.rows@.len() > 0)
        &&& (self.rows@.len() > 0 ==> self.power_unit is Some)
        &&& (forall|i: int|
            0 <= i < self.rows@.len() ==> (#[trigger] self.rows@[i]).len() == 2
                * vendor::spec_register_count(self.vendor))
        &&& self.emitted@ == file_chars(self.vendor, self.rows@)
    }

    /// A fresh, idle, uncalibrated context for `v` whose log is empty.
    pub fn new(v: Vendor) -> (r: Rapl)
        ensures
            r.wf(),
            r.vendor == v,
            r.power_unit is None,
            r.baseline is None,
            !r.header_written,
            r.rows@ == Seq::<Seq<u64>>::empty(),
            r.emitted@ == Seq::<char>::empty(),
    {
        Rapl {
            vendor: v,
            power_unit: None,
            baseline: None,
            header_written: false,
            rows: Ghost(Seq::empty()),
            emitted: Ghost(Seq::empty()),
        }
    }

    /// Whether the next start needs the outcome of a scale/unit register
    /// read: true exactly until the first successful calibration.
    pub fn needs_power_unit(&self) -> (b: bool)
        ensures
            b == (self.power_unit is None),
    {
        self.power_unit.is_none()
    }

    /// One-time calibration: the first call that is handed a successful
    /// read outcome caches its value; every later call returns the
    /// cached value and ignores what it is handed, so the underlying
    /// register need never be read again.
    pub fn get_or_init_power_unit(&mut self, raw: Option<u64>) -> (r: Result<u64, RaplError>)
        requires
            old(self).wf(),
        ensures
            final(self).wf(),
            final(self).vendor == old(self).vendor,
            final(self).baseline == old(self).baseline,
            final(self).header_written == old(self).header_written,
            final(self).rows == old(self).rows,
            final(self).emitted == old(self).emitted,
            old(self).power_unit is Some ==> *final(self) == *old(self) && r == Ok::<u64,
            RaplError>(old(self).power_unit.unwrap()),
            old(self).power_unit is None && raw is Some ==> final(self).power_unit == raw && r
                == Ok::<u64, RaplError>(raw.unwrap()),
            old(self).power_unit is None && raw is None ==> *final(self) == *old(self) && r
                == Err::<u64, RaplError>(RaplError::PowerUnitRead),
    {
        match self.power_unit {
            Some(u) => Ok(u),
            None => {
                match read_rapl_power_unit(raw) {
                    Ok(u) => {
                        self.power_unit = Some(u);
                        Ok(u)
                    },
                    Err(e) => Err(e),
                }
            },
        }
    }

    /// Begins a session: runs the one-time calibration if it is still
    /// pending, then captures the baseline snapshot, arming the session.
    /// Starting while a session is already armed discards the old
    /// baseline, as a fresh snapshot overwrites it.
    ///
    /// `power_unit_raw` is the outcome of a scale/unit register read,
    /// made only when calibration is pending (`needs_power_unit`); once
    /// calibrated, it is ignored and the cached value is kept, so the
    /// scale/unit register is read at most once per context. `raw` holds
    /// the outcome of reading each energy counter of the vendor, in
    /// `energy_msrs` order.
    pub fn start_rapl(&mut self, power_unit_raw: Option<u64>, raw: &Vec<Option<u64>>) -> (r: Result<
        (),
        RaplError,
    >)
        requires
            old(self).wf(),
            raw@.len() == vendor::spec_register_count(old(self).vendor),
        ensures
            final(self).wf(),
            final(self).vendor == old(self).vendor,
            final(self).rows == old(self).rows,
            final(self).emitted == old(self).emitted,
            final(self).header_written == old(self).header_written,
            final(self).power_unit == power_unit_after_start(old(self).power_unit, power_unit_raw),
            old(self).power_unit is None && power_unit_raw is None ==> r == Err::<(), RaplError>(
                RaplError::PowerUnitRead,
            ) && *final(self) == *old(self),
            old(self).power_unit is Some || power_unit_raw is Some ==> {
                &&& (r is Ok <==> all_read(raw@))
                &&& (r is Ok ==> final(self).baseline is Some
                    && final(self).baseline.unwrap()@ == read_values(raw@))
                &&& (!all_read(raw@) ==> r == Err::<(), RaplError>(
                    RaplError::RegisterRead(
                        vendor::spec_energy_msrs(old(self).vendor)[first_failure(raw@)],
                    ),
                ) && final(self).baseline == old(self).baseline)
            },
    {
        match self.get_or_init_power_unit(power_unit_raw) {
            Ok(_) => {},
            Err(e) => {
                return Err(e);
            },
        }
        match read_rapl_registers(self.vendor, raw) {
            Ok(vals) => {
                self.baseline = Some(vals);
                Ok(())
            },
            Err(e) => Err(e),
        }
    }

    /// The log sink: appends one record of `data` under the column
    /// labels of the vendor, deriving the filename from the vendor and
    /// the cached calibration value, and emitting the header row with
    /// the first record of the file.
    fn write_to_csv(&mut self, data: Vec<u64>, columns: Vec<String>) -> (w: LogWrite)
        requires
            old(self).wf(),
            old(self).power_unit is Some,
            columns@.map_values(|c: String| c@) == vendor::spec_columns(old(self).vendor),
            data@.len() == 2 * vendor::spec_register_count(old(self).vendor),
        ensures
            final(self).wf(),
            final(self).vendor == old(self).vendor,
            final(self).power_unit == old(self).power_unit,
            final(self).baseline == old(self).baseline,
            final(self).rows@ == old(self).rows@.push(data@),
            final(self).header_written,
            w.filename@ == filename_chars(old(self).vendor, old(self).power_unit.unwrap()),
            w.bytes@ == chunk_chars(old(self).vendor, old(self).rows@.len() == 0, data@),
            final(self).emitted@ == old(self).emitted@ + w.bytes@,
    {
        let unit = self.power_unit.unwrap();
        let filename = String::from_str(vendor::get_cpu_type(self.vendor)).concat("_").concat(
            numfmt::u64_to_dec(unit).as_str(),
        ).concat(".csv");
        let mut fields: Vec<String> = Vec::new();
        let mut i: usize = 0;
        while i < data.len()
            invariant
                i <= data@.len(),
                fields@.len() == i,
                forall|j: int| 0 <= j < i ==> (#[trigger] fields@[j])@ == numfmt::spec_dec(
                    data@[j] as nat,
                ),
            decreases data@.len() - i,
        {
            fields.push(numfmt::u64_to_dec(data[i]));
            i += 1;
        }
        proof {
            assert(fields@.map_values(|f: String| f@) =~= row_fields(data@));
            lemma_row_fields_plain(data@);
        }
        let row_line = csvfmt::csv_encode_record(&fields);
        let ghost old_state = *self;
        let bytes: String;
        if !self.header_written {
            proof {
                vendor::lemma_columns_plain(self.vendor);
                assert(columns@.map_values(|c: String| c@).len() == vendor::spec_columns(
                    self.vendor,
                ).len());
                assert(vendor::spec_columns(self.vendor).len() > 0);
            }
            let header_line = csvfmt::csv_encode_record(&columns);
            bytes = header_line.concat(row_line.as_str());
            self.header_written = true;
        } else {
            bytes = row_line;
        }
        self.rows = Ghost(self.rows@.push(data@));
        self.emitted = Ghost(self.emitted@ + bytes@);
        proof {
            lemma_file_chars_push(old_state.vendor, old_state.rows@, data@);
        }
        LogWrite { filename, bytes }
    }

    /// Ends the armed session: pairs the baseline snapshot with the
    /// final one and hands back the record to append, disarming the
    /// session so that a second stop without a new start is rejected.
    ///
    /// The vendor asymmetry of the measurement subsystem is preserved
    /// deliberately: only the AMD stop path reads, pairs and logs; the
    /// Intel stop path does nothing and logs nothing.
    ///
    /// On success the caller receives the characters to append to the
    /// log file and must flush them before treating the record as
    /// durable; on any error nothing is logged and the context is left
    /// exactly as it was.
    pub fn stop_rapl(&mut self, raw: &Vec<Option<u64>>) -> (r: Result<Option<LogWrite>, RaplError>)
        requires
            old(self).wf(),
            raw@.len() == vendor::spec_register_count(old(self).vendor),
        ensures
            final(self).wf(),
            final(self).vendor == old(self).vendor,
            final(self).power_unit == old(self).power_unit,
            old(self).vendor == Vendor::Intel ==> (r matches Ok(w) && w is None && *final(self)
                == *old(self)),
            old(self).vendor == Vendor::Amd && old(self).baseline is None ==> r == Err::<
                Option<LogWrite>,
                RaplError,
            >(RaplError::NotStarted) && *final(self) == *old(self),
            old(self).vendor == Vendor::Amd && old(self).baseline is Some && !all_read(raw@) ==> r
                == Err::<Option<LogWrite>, RaplError>(
                RaplError::RegisterRead(
                    vendor::spec_energy_msrs(old(self).vendor)[first_failure(raw@)],
                ),
            ) && *final(self) == *old(self),
            old(self).vendor == Vendor::Amd && old(self).baseline is Some && all_read(raw@) ==> {
                &&& final(self).baseline is None
                &&& final(self).header_written
                &&& final(self).rows@ == old(self).rows@.push(
                    pair_row(old(self).baseline.unwrap()@, read_values(raw@)),
                )
                &&& (r matches Ok(w) && w matches Some(lw) && lw.filename@ == filename_chars(
                    old(self).vendor,
                    old(self).power_unit.unwrap(),
                ) && lw.bytes@ == chunk_chars(
                    old(self).vendor,
                    old(self).rows@.len() == 0,
                    pair_row(old(self).baseline.unwrap()@, read_values(raw@)),
                ) && final(self).emitted@ == old(self).emitted@ + lw.bytes@)
            },
    {
        match self.vendor {
            Vendor::Intel => Ok(None),
            Vendor::Amd => {
                let base = match self.baseline.take() {
                    Some(b) => b,
                    None => {
                        return Err(RaplError::NotStarted);
                    },
                };
                let ends = match read_rapl_registers(self.vendor, raw) {
                    Ok(v) => v,
                    Err(e) => {
                        self.baseline = Some(base);
                        return Err(e);
                    },
                };
                let mut row: Vec<u64> = Vec::new();
                let mut i: usize = 0;
                while i < base.len()
                    invariant
                        base@.len() == ends@.len(),
                        base@.len() <= 4,
                        i <= base@.len(),
                        row@.len() == 2 * i,
                        forall|j: int| 0 <= j < i ==> row@[2 * j] == base@[j] && row@[2 * j + 1]
                            == ends@[j],
                    decreases base@.len() - i,
                {
                    row.push(base[i]);
                    row.push(ends[i]);
                    i += 1;
                }
                proof {
                    assert forall|k: int| 0 <= k < row@.len() implies row@[k] == pair_row(
                        base@,
                        ends@,
                    )[k] by {
                        let j = k / 2;
                        if k % 2 == 0 {
                            assert(k == 2 * j);
                            assert(row@[2 * j] == base@[j]);
                        } else {
                            assert(k == 2 * j + 1);
                            assert(row@[2 * j + 1] == ends@[j]);
                        }
                    }
                    assert(row@ =~= pair_row(base@, ends@));
                }
                let mut columns: Vec<String> = Vec::new();
                columns.push(String::from_str("PkgStart"));
                columns.push(String::from_str("PkgEnd"));
                columns.push(String::from_str("CoreStart"));
                columns.push(String::from_str("CoreEnd"));
                proof {
                    assert(columns@.map_values(|c: String| c@) =~= vendor::spec_columns(
                        Vendor::Amd,
                    ));
                }
                let w = self.write_to_csv(row, columns);
                Ok(Some(w))
            },
        }
    }
}

/// Every field of a data row is a nonempty, digits-only field that the
/// csv writer copies verbatim.
proof fn lemma_row_fields_plain(row: Seq<u64>)
    ensures
        csvfmt::all_csv_plain(row_fields(row)),
{
    assert forall|i: int| 0 <= i < row_fields(row).len() implies csvfmt::csv_plain_field(
        #[trigger] row_fields(row)[i],
    ) by {
        numfmt::lemma_dec_digits(row[i] as nat);
        assert forall|k: int|
            0 <= k < numfmt::spec_dec(row[i] as nat).len() implies csvfmt::csv_plain_char(
            #[trigger] numfmt::spec_dec(row[i] as nat)[k],
        ) by {
            lemma_digit_plain(numfmt::spec_dec(row[i] as nat)[k]);
        }
    }
}

/// A decimal digit character is never quoted or escaped by the csv
/// writer.
proof fn lemma_digit_plain(c: char)
    requires
        numfmt::is_dec_digit(c),
    ensures
        csvfmt::csv_plain_char(c),
{
    let d = choose|d: nat| d < 10 && c == numfmt::spec_digit_char(d);
    assert(csvfmt::csv_plain_char(numfmt::spec_digit_char(d)));
}

/// Appending one data row extends the file model by exactly that row's
/// line, preceded by the header line when the row is the first.
proof fn lemma_file_chars_push(v: Vendor, rows: Seq<Seq<u64>>, row: Seq<u64>)
    ensures
        file_chars(v, rows.push(row)) == file_chars(v, rows) + chunk_chars(
            v,
            rows.len() == 0,
            row,
        ),
{
    assert(rows.push(row).drop_last() =~= rows);
    assert(rows.push(row).last() == row);
    assert(rows.push(row).len() == rows.len() + 1);
    assert(rows_chars(rows.push(row)) == rows_chars(rows) + csvfmt::csv_line(row_fields(row)));
    if rows.len() == 0 {
        assert(rows_chars(rows) =~= Seq::<char>::empty());
        assert(file_chars(v, rows.push(row)) =~= file_chars(v, rows) + chunk_chars(v, true, row));
    } else {
        assert(file_chars(v, rows.push(row)) =~= file_chars(v, rows) + chunk_chars(v, false, row));
    }
}

/// Filename determinism: the log filename is a function of the vendor
/// and the calibration value alone — equal inputs always give the same
/// name — and distinct calibration values of the same vendor give
/// distinct names.
pub proof fn lemma_filename_deterministic(v: Vendor, u1: u64, u2: u64)
    ensures
        u1 == u2 ==> filename_chars(v, u1) == filename_chars(v, u2),
        u1 != u2 ==> filename_chars(v, u1) != filename_chars(v, u2),
{
    if u1 != u2 {
        numfmt::lemma_dec_injective(u1 as nat, u2 as nat);
        let p = vendor::vendor_name(v) + "_"@;
        let d1 = numfmt::spec_dec(u1 as nat);
        let d2 = numfmt::spec_dec(u2 as nat);
        if d1.len() == d2.len() {
            if filename_chars(v, u1) == filename_chars(v, u2) {
                assert forall|k: int| 0 <= k < d1.len() implies d1[k] == d2[k] by {
                    assert(filename_chars(v, u1)[p.len() + k] == d1[k]);
                    assert(filename_chars(v, u2)[p.len() + k] == d2[k]);
                }
                assert(d1 =~= d2);
            }
        } else {
            assert(filename_chars(v, u1).len() != filename_chars(v, u2).len());
        }
    }
}

/// Append-only log shape: each record ends in exactly one `\n`, so the
/// file model of a log with `rows` records consists of the header line
/// plus one line per record — and is empty before the first record.
pub proof fn lemma_log_shape(v: Vendor, rows: Seq<Seq<u64>>)
    ensures
        rows.len() == 0 ==> file_chars(v, rows).len() == 0,
        rows.len() > 0 ==> csvfmt::count_char(file_chars(v, rows), '\n') == rows.len() + 1,
{
    if rows.len() > 0 {
        vendor::lemma_columns_plain(v);
        lemma_rows_chars_count(rows);
        csvfmt::lemma_csv_line_one_newline(vendor::spec_columns(v));
        csvfmt::lemma_count_char_add(
            csvfmt::csv_line(vendor::spec_columns(v)),
            rows_chars(rows),
            '\n',
        );
    }
}

proof fn lemma_rows_chars_count(rows: Seq<Seq<u64>>)
    ensures
        csvfmt::count_char(rows_chars(rows), '\n') == rows.len(),
    decreases rows.len(),
{
    if rows.len() > 0 {
        lemma_rows_chars_count(rows.drop_last());
        lemma_row_fields_plain(rows.last());
        csvfmt::lemma_csv_line_one_newline(row_fields(rows.last()));
        csvfmt::lemma_count_char_add(
            rows_chars(rows.drop_last()),
            csvfmt::csv_line(row_fields(rows.last())),
            '\n',
        );
    }
}

/// Types the outcome of a scale/unit register read: a failed read is a
/// calibration failure.
pub fn read_rapl_power_unit(raw: Option<u64>) -> (r: Result<u64, RaplError>)
    ensures
        raw is Some ==> r == Ok::<u64, RaplError>(raw.unwrap()),
        raw is None ==> r == Err::<u64, RaplError>(RaplError::PowerUnitRead),
{
    match raw {
        Some(u) => Ok(u),
        None => Err(RaplError::PowerUnitRead),
    }
}

/// Types the outcome of a package-energy register read: a failed read
/// names the package-energy register of `v`.
pub fn read_rapl_pkg_energy_stat(v: Vendor, raw: Option<u64>) -> (r: Result<u64, RaplError>)
    ensures
        raw is Some ==> r == Ok::<u64, RaplError>(raw.unwrap()),
        raw is None ==> r == Err::<u64, RaplError>(
            RaplError::RegisterRead(vendor::spec_pkg_energy_msr(v)),
        ),
{
    match raw {
        Some(u) => Ok(u),
        None => Err(RaplError::RegisterRead(vendor::pkg_energy_msr(v))),
    }
}

/// Assembles a full snapshot of the energy counters of `v` from the
/// read outcomes, in register order; the first failed read aborts the
/// snapshot and names the register that failed.
pub fn read_rapl_registers(v: Vendor, raw: &Vec<Option<u64>>) -> (r: Result<Vec<u64>, RaplError>)
    requires
        raw@.len() == vendor::spec_register_count(v),
    ensures
        r is Ok <==> all_read(raw@),
        r is Ok ==> r.unwrap()@ == read_values(raw@),
        r is Err ==> r == Err::<Vec<u64>, RaplError>(
            RaplError::RegisterRead(vendor::spec_energy_msrs(v)[first_failure(raw@)]),
        ),
{
    let msrs = vendor::energy_msrs(v);
    let mut out: Vec<u64> = Vec::new();
    let mut i: usize = 0;
    while i < raw.len()
        invariant
            raw@.len() == vendor::spec_register_count(v),
            msrs@ == vendor::spec_energy_msrs(v),
            i <= raw@.len(),
            out@.len() == i,
            forall|j: int| 0 <= j < i ==> (#[trigger] raw@[j]) is Some,
            forall|j: int| 0 <= j < i ==> (#[trigger] out@[j]) == raw@[j].unwrap(),
        decreases raw@.len() - i,
    {
        match raw[i] {
            Some(x) => {
                out.push(x);
            },
            None => {
                proof {
                    lemma_first_failure(raw@, i as int);
                }
                return Err(RaplError::RegisterRead(msrs[i]));
            },
        }
        i += 1;
    }
    proof {
        assert(out@ =~= read_values(raw@));
    }
    Ok(out)
}

} // verus!
