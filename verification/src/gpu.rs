//! The accelerator device record and the defensive parser for the query
//! tool's comma-separated output.
//!
//! One line of output describes one device in ten fixed fields: index, name,
//! unique identifier, total/used/free memory, utilization, temperature,
//! power draw and power limit. A line with fewer than ten fields contributes
//! nothing; within a line, every numeric field falls back to zero on its own
//! when it does not parse, so one malformed value never discards a record.

use vstd::prelude::*;

use crate::text;
use crate::text::{
    all_digits, contains_char, contains_seq, digits_value, ends_with_spec, first_index_bounded,
    parses_as_u64, split_spec, trim_spec,
};

verus! {

// ---------------------------------------------------------------------------
// The device record
// ---------------------------------------------------------------------------

/// One accelerator's point-in-time state. Memory is in MiB as the tool
/// reports it, utilization in percent, temperature in degrees Celsius,
/// power in whole watts.
#[derive(Debug)]
pub struct GpuInfo {
    pub index: u32,
    pub name: String,
    pub uuid: String,
    pub memory_total_mb: u64,
    pub memory_used_mb: u64,
    pub memory_free_mb: u64,
    pub utilization_percent: u32,
    pub temperature_celsius: u32,
    pub power_draw_watts: u32,
    pub power_limit_watts: u32,
}

/// The mathematical image of a `GpuInfo`: the strings as character
/// sequences, the numbers as themselves.
pub ghost struct GpuInfoView {
    pub index: u32,
    pub name: Seq<char>,
    pub uuid: Seq<char>,
    pub memory_total_mb: u64,
    pub memory_used_mb: u64,
    pub memory_free_mb: u64,
    pub utilization_percent: u32,
    pub temperature_celsius: u32,
    pub power_draw_watts: u32,
    pub power_limit_watts: u32,
}

impl View for GpuInfo {
    type V = GpuInfoView;

    open spec fn view(&self) -> GpuInfoView {
        GpuInfoView {
            index: self.index,
            name: self.name@,
            uuid: self.uuid@,
            memory_total_mb: self.memory_total_mb,
            memory_used_mb: self.memory_used_mb,
            memory_free_mb: self.memory_free_mb,
            utilization_percent: self.utilization_percent,
            temperature_celsius: self.temperature_celsius,
            power_draw_watts: self.power_draw_watts,
            power_limit_watts: self.power_limit_watts,
        }
    }
}

impl DeepView for GpuInfo {
    type V = GpuInfoView;

    open spec fn deep_view(&self) -> GpuInfoView {
        self.view()
    }
}

impl PartialEq for GpuInfo {
    fn eq(&self, other: &GpuInfo) -> (r: bool) {
        self.index == other.index && self.name.eq(&other.name) && self.uuid.eq(&other.uuid)
            && self.memory_total_mb == other.memory_total_mb && self.memory_used_mb
            == other.memory_used_mb && self.memory_free_mb == other.memory_free_mb
            && self.utilization_percent == other.utilization_percent && self.temperature_celsius
            == other.temperature_celsius && self.power_draw_watts == other.power_draw_watts
            && self.power_limit_watts == other.power_limit_watts
    }
}

impl vstd::std_specs::cmp::PartialEqSpecImpl for GpuInfo {
    open spec fn obeys_eq_spec() -> bool {
        true
    }

    open spec fn eq_spec(&self, other: &GpuInfo) -> bool {
        self@ == other@
    }
}

impl GpuInfo {
    /// A field-for-field copy of the record.
    pub fn duplicate(&self) -> (r: GpuInfo)
        ensures
            r@ == self@,
    {
        GpuInfo {
            index: self.index,
            name: self.name.clone(),
            uuid: self.uuid.clone(),
            memory_total_mb: self.memory_total_mb,
            memory_used_mb: self.memory_used_mb,
            memory_free_mb: self.memory_free_mb,
            utilization_percent: self.utilization_percent,
            temperature_celsius: self.temperature_celsius,
            power_draw_watts: self.power_draw_watts,
            power_limit_watts: self.power_limit_watts,
        }
    }
}

/// A field-for-field copy of a list of records.
pub fn duplicate_devices(devices: &Vec<GpuInfo>) -> (r: Vec<GpuInfo>)
    ensures
        r.deep_view() == devices.deep_view(),
{
    let mut r: Vec<GpuInfo> = Vec::new();
    let mut i: usize = 0;
    while i < devices.len()
        invariant
            0 <= i <= devices.len(),
            r.deep_view() =~= devices.deep_view().subrange(0, i as int),
        decreases devices.len() - i,
    {
        r.push(devices[i].duplicate());
        i = i + 1;
    }
    proof {
        assert(devices.deep_view().subrange(0, devices.len() as int) =~= devices.deep_view());
    }
    r
}

// ---------------------------------------------------------------------------
// Field parsing rules
// ---------------------------------------------------------------------------

/// A non-numeric sentinel marker: the tool writes `N/A`, or a bracketed
/// value such as `[N/A]`, where a number is unavailable.
pub open spec fn is_sentinel(s: Seq<char>) -> bool {
    contains_seq(s, seq!['N', '/', 'A']) || contains_char(s, '[')
}

fn sentinel(s: &str) -> (b: bool)
    ensures
        b == is_sentinel(s@),
{
    proof {
        reveal_strlit("N/A");
        assert("N/A"@ =~= seq!['N', '/', 'A']);
    }
    text::contains_str(s, "N/A") || text::contains_one(s, '[')
}

/// A memory field with a known unit suffix removed: `" MiB"` or `" MB"`.
pub open spec fn mib_stripped(t: Seq<char>) -> Seq<char> {
    if ends_with_spec(t, seq![' ', 'M', 'i', 'B']) {
        t.subrange(0, t.len() - 4)
    } else if ends_with_spec(t, seq![' ', 'M', 'B']) {
        t.subrange(0, t.len() - 3)
    } else {
        t
    }
}

/// The value of a memory field: trimmed, unit suffix removed, read as a
/// decimal integer, zero when that fails.
pub open spec fn mib_value_spec(s: Seq<char>) -> u64 {
    let u = mib_stripped(trim_spec(s));
    if parses_as_u64(u, u64::MAX as nat) {
        digits_value(u) as u64
    } else {
        0
    }
}

/// Parses a memory quantity such as `16384` or `16384 MiB`; zero when the
/// field is not a number.
pub fn parse_mib_value(s: &str) -> (v: u64)
    ensures
        v == mib_value_spec(s@),
{
    let t = text::trim(s);
    proof {
        reveal_strlit(" MiB");
        reveal_strlit(" MB");
        assert(" MiB"@ =~= seq![' ', 'M', 'i', 'B']);
        assert(" MB"@ =~= seq![' ', 'M', 'B']);
    }
    let u = match text::strip_suffix(t, " MiB") {
        Some(u) => u,
        None => match text::strip_suffix(t, " MB") {
            Some(u) => u,
            None => t,
        },
    };
    match text::parse_u64(u) {
        Some(v) => v,
        None => 0,
    }
}

/// A utilization field with a trailing percent sign removed: `" %"` or `"%"`.
pub open spec fn percent_stripped(t: Seq<char>) -> Seq<char> {
    if ends_with_spec(t, seq![' ', '%']) {
        t.subrange(0, t.len() - 2)
    } else if ends_with_spec(t, seq!['%']) {
        t.subrange(0, t.len() - 1)
    } else {
        t
    }
}

/// The value of a percentage field: trimmed, percent sign removed, zero on
/// a sentinel marker or anything that is not a decimal integer in `u32`
/// range.
pub open spec fn percent_value_spec(s: Seq<char>) -> u32 {
    let u = percent_stripped(trim_spec(s));
    if is_sentinel(u) {
        0
    } else if parses_as_u64(u, u32::MAX as nat) {
        digits_value(u) as u32
    } else {
        0
    }
}

/// Parses a percentage such as `23` or `23 %`; zero on `N/A`, bracketed
/// markers, or anything non-numeric.
pub fn parse_percent_value(s: &str) -> (v: u32)
    ensures
        v == percent_value_spec(s@),
{
    let t = text::trim(s);
    proof {
        reveal_strlit(" %");
        reveal_strlit("%");
        assert(" %"@ =~= seq![' ', '%']);
        assert("%"@ =~= seq!['%']);
    }
    let u = match text::strip_suffix(t, " %") {
        Some(u) => u,
        None => match text::strip_suffix(t, "%") {
            Some(u) => u,
            None => t,
        },
    };
    if sentinel(u) {
        return 0;
    }
    match text::parse_u32(u) {
        Some(v) => v,
        None => 0,
    }
}

/// The value of a plain integer field: trimmed, zero on a sentinel marker
/// or anything that is not a decimal integer in `u32` range.
pub open spec fn int_value_spec(s: Seq<char>) -> u32 {
    let t = trim_spec(s);
    if is_sentinel(t) {
        0
    } else if parses_as_u64(t, u32::MAX as nat) {
        digits_value(t) as u32
    } else {
        0
    }
}

/// Parses a plain integer field such as a temperature; zero on `N/A`,
/// bracketed markers, or anything non-numeric.
pub fn parse_int_value(s: &str) -> (v: u32)
    ensures
        v == int_value_spec(s@),
{
    let t = text::trim(s);
    if sentinel(t) {
        return 0;
    }
    match text::parse_u32(t) {
        Some(v) => v,
        None => 0,
    }
}

/// The value of a power field: trimmed, `" W"` suffix removed, read as a
/// decimal numeral with an optional fractional part and truncated to whole
/// watts, saturating at `u32::MAX`; zero on a sentinel marker or any other
/// shape.
pub open spec fn watts_value_spec(s: Seq<char>) -> u32 {
    let t = trim_spec(s);
    let u = if ends_with_spec(t, seq![' ', 'W']) {
        t.subrange(0, t.len() - 2)
    } else {
        t
    };
    if is_sentinel(u) {
        0
    } else {
        let dot = first_index_bounded(u, '.');
        let ip = u.subrange(0, dot);
        let fp = u.subrange(if dot < u.len() { dot + 1 } else { dot }, u.len() as int);
        if ip.len() > 0 && all_digits(ip) && all_digits(fp) {
            if digits_value(ip) > u32::MAX as nat {
                u32::MAX
            } else {
                digits_value(ip) as u32
            }
        } else {
            0
        }
    }
}

/// Parses a power figure such as `70.50 W`, truncating to whole watts;
/// zero on `N/A`, bracketed markers, or anything non-numeric.
pub fn parse_watts_value(s: &str) -> (v: u32)
    ensures
        v == watts_value_spec(s@),
{
    let t = text::trim(s);
    proof {
        reveal_strlit(" W");
        assert(" W"@ =~= seq![' ', 'W']);
    }
    let u = match text::strip_suffix(t, " W") {
        Some(u) => u,
        None => t,
    };
    if sentinel(u) {
        return 0;
    }
    let n = u.unicode_len();
    let dot = text::find_char(u, '.');
    let ip = u.substring_char(0, dot);
    let fp = if dot < n {
        u.substring_char(dot + 1, n)
    } else {
        u.substring_char(dot, n)
    };
    if ip.is_empty() || !text::is_all_digits(ip) || !text::is_all_digits(fp) {
        return 0;
    }
    match text::parse_u64(ip) {
        Some(v) => {
            if v > u32::MAX as u64 {
                u32::MAX
            } else {
                v as u32
            }
        },
        None => {
            proof {
                assert(digits_value(ip@) > u32::MAX as nat);
            }
            u32::MAX
        },
    }
}

/// The value of the index field: the record's position as the tool reports
/// it, zero when it does not parse.
pub open spec fn index_value_spec(t: Seq<char>) -> u32 {
    if parses_as_u64(t, u32::MAX as nat) {
        digits_value(t) as u32
    } else {
        0
    }
}

fn parse_index_value(s: &str) -> (v: u32)
    ensures
        v == index_value_spec(s@),
{
    match text::parse_u32(s) {
        Some(v) => v,
        None => 0,
    }
}

// ---------------------------------------------------------------------------
// Line and output parsing
// ---------------------------------------------------------------------------

/// The comma-separated fields of one output line, each trimmed of
/// surrounding whitespace.
pub open spec fn line_fields(line: Seq<char>) -> Seq<Seq<char>> {
    split_spec(trim_spec(line), ',').map(|i: int, f: Seq<char>| trim_spec(f))
}

/// What one line of tool output contributes: `None` for a blank line or one
/// with fewer than ten fields, otherwise the device record read under the
/// per-field defaulting rules.
pub open spec fn parse_line_spec(line: Seq<char>) -> Option<GpuInfoView> {
    let t = trim_spec(line);
    if t.len() == 0 {
        None
    } else {
        let fs = line_fields(line);
        if fs.len() < 10 {
            None
        } else {
            Some(
                GpuInfoView {
                    index: index_value_spec(fs[0]),
                    name: fs[1],
                    uuid: fs[2],
                    memory_total_mb: mib_value_spec(fs[3]),
                    memory_used_mb: mib_value_spec(fs[4]),
                    memory_free_mb: mib_value_spec(fs[5]),
                    utilization_percent: percent_value_spec(fs[6]),
                    temperature_celsius: int_value_spec(fs[7]),
                    power_draw_watts: watts_value_spec(fs[8]),
                    power_limit_watts: watts_value_spec(fs[9]),
                },
            )
        }
    }
}

/// The records contributed by a sequence of lines, in order.
pub open spec fn records_of_lines(lines: Seq<Seq<char>>) -> Seq<GpuInfoView>
    decreases lines.len(),
{
    if lines.len() == 0 {
        Seq::empty()
    } else {
        match parse_line_spec(lines[0]) {
            Some(r) => seq![r] + records_of_lines(lines.drop_first()),
            None => records_of_lines(lines.drop_first()),
        }
    }
}

/// The device records read from raw multi-line tool output.
pub open spec fn parse_output_spec(s: Seq<char>) -> Seq<GpuInfoView> {
    records_of_lines(split_spec(s, '\n'))
}

fn parse_line(line: &str) -> (r: Option<GpuInfo>)
    ensures
        match r {
            Some(g) => parse_line_spec(line@) == Some(g@),
            None => parse_line_spec(line@) is None,
        },
{
    let t = text::trim(line);
    if t.is_empty() {
        return None;
    }
    let fields = text::split_str(t, ',');
    if fields.len() < 10 {
        proof {
            assert(line_fields(line@).len() == fields.deep_view().len());
        }
        return None;
    }
    proof {
        assert(line_fields(line@).len() == fields.deep_view().len());
        assert forall|k: int| 0 <= k < 10 implies line_fields(line@)[k] == trim_spec(
            fields.deep_view()[k],
        ) by {}
    }
    let f0 = text::trim(fields[0].as_str());
    let f1 = text::trim(fields[1].as_str());
    let f2 = text::trim(fields[2].as_str());
    let f3 = text::trim(fields[3].as_str());
    let f4 = text::trim(fields[4].as_str());
    let f5 = text::trim(fields[5].as_str());
    let f6 = text::trim(fields[6].as_str());
    let f7 = text::trim(fields[7].as_str());
    let f8 = text::trim(fields[8].as_str());
    let f9 = text::trim(fields[9].as_str());
    Some(
        GpuInfo {
            index: parse_index_value(f0),
            name: String::from_str(f1),
            uuid: String::from_str(f2),
            memory_total_mb: parse_mib_value(f3),
            memory_used_mb: parse_mib_value(f4),
            memory_free_mb: parse_mib_value(f5),
            utilization_percent: parse_percent_value(f6),
            temperature_celsius: parse_int_value(f7),
            power_draw_watts: parse_watts_value(f8),
            power_limit_watts: parse_watts_value(f9),
        },
    )
}

/// Parses raw multi-line tool output into device records: blank lines and
/// lines with fewer than ten fields are dropped, every other line yields
/// one record under the per-field defaulting rules.
pub fn parse_nvidia_smi_output(output: &str) -> (gpus: Vec<GpuInfo>)
    ensures
        gpus.deep_view() == parse_output_spec(output@),
{
    let lines = text::split_str(output, '\n');
    let mut gpus: Vec<GpuInfo> = Vec::new();
    let mut i: usize = 0;
    proof {
        assert(lines.deep_view().skip(0) =~= lines.deep_view());
        assert(gpus.deep_view() + records_of_lines(lines.deep_view()) =~= records_of_lines(
            lines.deep_view(),
        ));
    }
    while i < lines.len()
        invariant
            0 <= i <= lines.len(),
            parse_output_spec(output@) == gpus.deep_view() + records_of_lines(
                lines.deep_view().skip(i as int),
            ),
        decreases lines.len() - i,
    {
        let ghost rest = lines.deep_view().skip(i as int);
        proof {
            assert(rest.len() > 0);
            assert(rest[0] == lines.deep_view()[i as int]);
            assert(rest.drop_first() =~= lines.deep_view().skip(i as int + 1));
        }
        let ghost old_dv = gpus.deep_view();
        match parse_line(lines[i].as_str()) {
            Some(g) => {
                gpus.push(g);
                proof {
                    assert(gpus.deep_view() =~= old_dv.push(g@));
                    assert(old_dv + (seq![g@] + records_of_lines(rest.drop_first()))
                        =~= gpus.deep_view() + records_of_lines(rest.drop_first()));
                }
            },
            None => {},
        }
        i = i + 1;
    }
    proof {
        assert(lines.deep_view().skip(lines.len() as int) =~= Seq::<Seq<char>>::empty());
        assert(gpus.deep_view() + Seq::<GpuInfoView>::empty() =~= gpus.deep_view());
    }
    gpus
}

// ---------------------------------------------------------------------------
// Parser guarantees
// ---------------------------------------------------------------------------

/// A line that splits into at least ten fields always yields a record, with
/// each field read under its own defaulting rule; no input aborts the parse.
pub proof fn lemma_full_line_yields_record(line: Seq<char>)
    requires
        line_fields(line).len() >= 10,
    ensures
        parse_line_spec(line) == Some(
            GpuInfoView {
                index: index_value_spec(line_fields(line)[0]),
                name: line_fields(line)[1],
                uuid: line_fields(line)[2],
                memory_total_mb: mib_value_spec(line_fields(line)[3]),
                memory_used_mb: mib_value_spec(line_fields(line)[4]),
                memory_free_mb: mib_value_spec(line_fields(line)[5]),
                utilization_percent: percent_value_spec(line_fields(line)[6]),
                temperature_celsius: int_value_spec(line_fields(line)[7]),
                power_draw_watts: watts_value_spec(line_fields(line)[8]),
                power_limit_watts: watts_value_spec(line_fields(line)[9]),
            },
        ),
{
    let t = trim_spec(line);
    if t.len() == 0 {
        text::lemma_split_whole(t, ',');
        assert(line_fields(line).len() == 1);
    }
}

/// The records of concatenated line sequences are the concatenated records:
/// no line influences what its siblings contribute.
pub proof fn lemma_records_concat(a: Seq<Seq<char>>, b: Seq<Seq<char>>)
    ensures
        records_of_lines(a + b) == records_of_lines(a) + records_of_lines(b),
    decreases a.len(),
{
    if a.len() == 0 {
        assert(a + b =~= b);
        assert(records_of_lines(a) + records_of_lines(b) =~= records_of_lines(b));
    } else {
        assert((a + b)[0] == a[0]);
        assert((a + b).drop_first() =~= a.drop_first() + b);
        lemma_records_concat(a.drop_first(), b);
        match parse_line_spec(a[0]) {
            Some(r) => {
                assert(seq![r] + (records_of_lines(a.drop_first()) + records_of_lines(b)) =~= (
                seq![r] + records_of_lines(a.drop_first())) + records_of_lines(b));
            },
            None => {},
        }
    }
}

/// A line with fewer than ten fields contributes no record and leaves what
/// the other lines contribute unchanged.
pub proof fn lemma_short_line_contributes_nothing(lines: Seq<Seq<char>>, i: int)
    requires
        0 <= i < lines.len(),
        line_fields(lines[i]).len() < 10,
    ensures
        parse_line_spec(lines[i]) is None,
        records_of_lines(lines) == records_of_lines(lines.remove(i)),
{
    let pre = lines.subrange(0, i);
    let one = seq![lines[i]];
    let post = lines.subrange(i + 1, lines.len() as int);
    assert(lines =~= pre + (one + post));
    assert(lines.remove(i) =~= pre + post);
    lemma_records_concat(pre, one + post);
    lemma_records_concat(one, post);
    lemma_records_concat(pre, post);
    assert(parse_line_spec(lines[i]) is None);
    assert(one.drop_first() =~= Seq::<Seq<char>>::empty());
    assert(one[0] == lines[i]);
    assert(records_of_lines(one) == records_of_lines(one.drop_first()));
    assert(records_of_lines(one) =~= Seq::<GpuInfoView>::empty());
    assert(records_of_lines(pre) + (Seq::<GpuInfoView>::empty() + records_of_lines(post))
        =~= records_of_lines(pre) + records_of_lines(post));
}

// ---------------------------------------------------------------------------
// The active-workload query
// ---------------------------------------------------------------------------

/// The device identifiers named by the active-workload query: its output
/// lines, trimmed, blank ones dropped.
pub open spec fn uuid_lines_spec(lines: Seq<Seq<char>>) -> Seq<Seq<char>>
    decreases lines.len(),
{
    if lines.len() == 0 {
        Seq::empty()
    } else {
        let t = trim_spec(lines[0]);
        if t.len() > 0 {
            seq![t] + uuid_lines_spec(lines.drop_first())
        } else {
            uuid_lines_spec(lines.drop_first())
        }
    }
}

/// Parses active-workload query output into the identifiers it names, in
/// order of appearance, blank lines dropped.
pub fn parse_uuid_lines(output: &str) -> (uuids: Vec<String>)
    ensures
        uuids.deep_view() == uuid_lines_spec(split_spec(output@, '\n')),
{
    let lines = text::split_str(output, '\n');
    let mut uuids: Vec<String> = Vec::new();
    let mut i: usize = 0;
    proof {
        assert(lines.deep_view().skip(0) =~= lines.deep_view());
        assert(uuids.deep_view() + uuid_lines_spec(lines.deep_view()) =~= uuid_lines_spec(
            lines.deep_view(),
        ));
    }
    while i < lines.len()
        invariant
            0 <= i <= lines.len(),
            uuid_lines_spec(split_spec(output@, '\n')) == uuids.deep_view() + uuid_lines_spec(
                lines.deep_view().skip(i as int),
            ),
        decreases lines.len() - i,
    {
        let ghost rest = lines.deep_view().skip(i as int);
        proof {
            assert(rest[0] == lines.deep_view()[i as int]);
            assert(rest.drop_first() =~= lines.deep_view().skip(i as int + 1));
        }
        let ghost old_dv = uuids.deep_view();
        let t = text::trim(lines[i].as_str());
        if !t.is_empty() {
            uuids.push(String::from_str(t));
            proof {
                assert(uuids.deep_view() =~= old_dv.push(t@));
                assert(old_dv + (seq![t@] + uuid_lines_spec(rest.drop_first()))
                    =~= uuids.deep_view() + uuid_lines_spec(rest.drop_first()));
            }
        }
        i = i + 1;
    }
    proof {
        assert(lines.deep_view().skip(lines.len() as int) =~= Seq::<Seq<char>>::empty());
        assert(uuids.deep_view() + Seq::<Seq<char>>::empty() =~= uuids.deep_view());
    }
    uuids
}

/// How many of the given devices an identifier list names. A device counts
/// when its identifier appears in the list; identifiers in the list that
/// match no device are ignored.
pub open spec fn count_used_spec(devs: Seq<GpuInfoView>, uuids: Seq<Seq<char>>) -> nat
    decreases devs.len(),
{
    if devs.len() == 0 {
        0
    } else {
        (if uuids.contains(devs[0].uuid) {
            1 as nat
        } else {
            0 as nat
        }) + count_used_spec(devs.drop_first(), uuids)
    }
}

/// However many identifiers the workload query names, the used-device
/// count never exceeds the device count.
pub proof fn lemma_count_used_le(devs: Seq<GpuInfoView>)
    ensures
        forall|uuids: Seq<Seq<char>>| #[trigger] count_used_spec(devs, uuids) <= devs.len(),
    decreases devs.len(),
{
    if devs.len() > 0 {
        lemma_count_used_le(devs.drop_first());
        assert forall|uuids: Seq<Seq<char>>| #[trigger] count_used_spec(devs, uuids)
            <= devs.len() by {
            assert(count_used_spec(devs.drop_first(), uuids) <= devs.drop_first().len());
        }
    }
}

proof fn lemma_count_used_step(devs: Seq<GpuInfoView>, uuids: Seq<Seq<char>>, i: int)
    requires
        0 <= i < devs.len(),
    ensures
        count_used_spec(devs.subrange(0, i + 1), uuids) == count_used_spec(
            devs.subrange(0, i),
            uuids,
        ) + (if uuids.contains(devs[i].uuid) {
            1 as nat
        } else {
            0 as nat
        }),
    decreases i,
{
    let a = devs.subrange(0, i + 1);
    let b = devs.subrange(0, i);
    if i == 0 {
        assert(a.drop_first() =~= b);
    } else {
        assert(a.drop_first() =~= devs.subrange(1, devs.len() as int).subrange(0, i));
        assert(b.drop_first() =~= devs.subrange(1, devs.len() as int).subrange(0, i - 1));
        lemma_count_used_step(devs.subrange(1, devs.len() as int), uuids, i - 1);
        assert(devs.subrange(1, devs.len() as int)[i - 1] == devs[i]);
    }
}

fn uuid_listed(uuids: &Vec<String>, uuid: &String) -> (b: bool)
    ensures
        b == uuids.deep_view().contains(uuid@),
{
    let mut j: usize = 0;
    while j < uuids.len()
        invariant
            0 <= j <= uuids.len(),
            forall|k: int| 0 <= k < j ==> uuids.deep_view()[k] != uuid@,
        decreases uuids.len() - j,
    {
        if uuids[j].eq(uuid) {
            proof {
                assert(uuids.deep_view()[j as int] == uuid@);
            }
            return true;
        }
        j = j + 1;
    }
    false
}

/// Counts how many of the given devices have an active workload, by
/// intersecting the identifiers the workload query returned against the
/// devices' own. A failed query (`None`) degrades the count to zero.
pub fn get_gpu_used_count(devices: &Vec<GpuInfo>, workload_output: &Option<String>) -> (n: usize)
    ensures
        match workload_output {
            Some(out) => n == count_used_spec(
                devices.deep_view(),
                uuid_lines_spec(split_spec(out@, '\n')),
            ),
            None => n == 0,
        },
{
    let out = match workload_output {
        Some(out) => out,
        None => {
            return 0;
        },
    };
    let uuids = parse_uuid_lines(out.as_str());
    let mut n: usize = 0;
    let mut i: usize = 0;
    proof {
        assert(devices.deep_view().subrange(0, 0) =~= Seq::<GpuInfoView>::empty());
    }
    while i < devices.len()
        invariant
            0 <= i <= devices.len(),
            n == count_used_spec(devices.deep_view().subrange(0, i as int), uuids.deep_view()),
            n <= i,
        decreases devices.len() - i,
    {
        proof {
            lemma_count_used_step(devices.deep_view(), uuids.deep_view(), i as int);
        }
        if uuid_listed(&uuids, &devices[i].uuid) {
            n = n + 1;
        }
        i = i + 1;
    }
    proof {
        assert(devices.deep_view().subrange(0, devices.len() as int) =~= devices.deep_view());
    }
    n
}

// ---------------------------------------------------------------------------
// Grouping devices by name
// ---------------------------------------------------------------------------

/// Position of `name` among the keys of `acc`, or `acc.len()` if absent.
pub open spec fn find_key(acc: Seq<(Seq<char>, u32)>, name: Seq<char>) -> int
    decreases acc.len(),
{
    if acc.len() == 0 {
        0
    } else if acc[0].0 == name {
        0
    } else {
        1 + find_key(acc.drop_first(), name)
    }
}

/// A count one higher, held at `u32::MAX` once reached.
pub open spec fn sat_inc(c: u32) -> u32 {
    if c < u32::MAX {
        (c + 1) as u32
    } else {
        c
    }
}

/// One name folded into a name-to-count table: an existing key's count goes
/// up by one, a new key enters at the end with count one.
pub open spec fn bump_name(acc: Seq<(Seq<char>, u32)>, name: Seq<char>) -> Seq<(Seq<char>, u32)> {
    let i = find_key(acc, name);
    if 0 <= i < acc.len() {
        acc.update(i, (name, sat_inc(acc[i].1)))
    } else {
        acc.push((name, 1))
    }
}

/// The name-to-count table of a device list: keys in order of first
/// appearance, each counting the devices that share the name.
pub open spec fn type_counts_spec(devs: Seq<GpuInfoView>) -> Seq<(Seq<char>, u32)>
    decreases devs.len(),
{
    if devs.len() == 0 {
        Seq::empty()
    } else {
        bump_name(type_counts_spec(devs.drop_last()), devs.last().name)
    }
}

proof fn lemma_find_key_is(acc: Seq<(Seq<char>, u32)>, name: Seq<char>, i: int)
    requires
        0 <= i <= acc.len(),
        forall|k: int| 0 <= k < i ==> (#[trigger] acc[k]).0 != name,
        i < acc.len() ==> acc[i].0 == name,
    ensures
        find_key(acc, name) == i,
    decreases i,
{
    if i > 0 {
        let t = acc.drop_first();
        assert(forall|k: int| 0 <= k < i - 1 ==> (#[trigger] t[k]).0 != name);
        lemma_find_key_is(t, name, i - 1);
    }
}

fn find_name_index(r: &Vec<(String, u32)>, name: &String) -> (res: Option<usize>)
    ensures
        match res {
            Some(j) => j < r.len() && r.deep_view()[j as int].0 == name@ && (forall|k: int|
                0 <= k < j ==> (#[trigger] r.deep_view()[k]).0 != name@),
            None => forall|k: int|
                0 <= k < r.len() ==> (#[trigger] r.deep_view()[k]).0 != name@,
        },
{
    let mut j: usize = 0;
    while j < r.len()
        invariant
            0 <= j <= r.len(),
            forall|k: int| 0 <= k < j ==> (#[trigger] r.deep_view()[k]).0 != name@,
        decreases r.len() - j,
    {
        if r[j].0.eq(name) {
            proof {
                assert(r.deep_view()[j as int].0 == name@);
            }
            return Some(j);
        }
        j = j + 1;
    }
    None
}

/// Groups a device list by name: one entry per distinct name, in order of
/// first appearance, counting the devices that share it.
pub fn count_gpu_types(devices: &Vec<GpuInfo>) -> (r: Vec<(String, u32)>)
    ensures
        r.deep_view() == type_counts_spec(devices.deep_view()),
{
    let mut r: Vec<(String, u32)> = Vec::new();
    let mut i: usize = 0;
    proof {
        assert(devices.deep_view().subrange(0, 0) =~= Seq::<GpuInfoView>::empty());
        assert(r.deep_view() =~= type_counts_spec(devices.deep_view().subrange(0, 0)));
    }
    while i < devices.len()
        invariant
            0 <= i <= devices.len(),
            r.deep_view() == type_counts_spec(devices.deep_view().subrange(0, i as int)),
        decreases devices.len() - i,
    {
        let name = &devices[i].name;
        let ghost old_dv = r.deep_view();
        match find_name_index(&r, name) {
            Some(j) => {
                proof {
                    lemma_find_key_is(old_dv, name@, j as int);
                }
                let count = r[j].1;
                let key = r[j].0.clone();
                let bumped = if count < u32::MAX {
                    count + 1
                } else {
                    count
                };
                r.set(j, (key, bumped));
                proof {
                    assert(r.deep_view() =~= old_dv.update(j as int, (name@, sat_inc(count))));
                }
            },
            None => {
                proof {
                    lemma_find_key_is(old_dv, name@, old_dv.len() as int);
                }
                r.push((name.clone(), 1));
                proof {
                    assert(r.deep_view() =~= old_dv.push((name@, 1)));
                }
            },
        }
        proof {
            let pre = devices.deep_view().subrange(0, i as int);
            let cur = devices.deep_view().subrange(0, i as int + 1);
            assert(cur.drop_last() =~= pre);
            assert(cur.last() == devices.deep_view()[i as int]);
        }
        i = i + 1;
    }
    proof {
        assert(devices.deep_view().subrange(0, devices.len() as int) =~= devices.deep_view());
    }
    r
}

/// A field-for-field copy of a name-to-count table.
pub fn duplicate_type_counts(tc: &Vec<(String, u32)>) -> (r: Vec<(String, u32)>)
    ensures
        r.deep_view() == tc.deep_view(),
{
    let mut r: Vec<(String, u32)> = Vec::new();
    let mut i: usize = 0;
    while i < tc.len()
        invariant
            0 <= i <= tc.len(),
            r.deep_view() =~= tc.deep_view().subrange(0, i as int),
        decreases tc.len() - i,
    {
        r.push((tc[i].0.clone(), tc[i].1));
        i = i + 1;
    }
    proof {
        assert(tc.deep_view().subrange(0, tc.len() as int) =~= tc.deep_view());
    }
    r
}


// ---------------------------------------------------------------------------
// What the grouping means
// ---------------------------------------------------------------------------

/// How many devices in `devs` carry the name `name`.
pub open spec fn count_name(devs: Seq<GpuInfoView>, name: Seq<char>) -> nat
    decreases devs.len(),
{
    if devs.len() == 0 {
        0
    } else {
        count_name(devs.drop_last(), name) + (if devs.last().name == name {
            1 as nat
        } else {
            0 as nat
        })
    }
}

/// A count clipped into `u32` range.
pub open spec fn clip_u32(c: nat) -> nat {
    if c > u32::MAX as nat {
        u32::MAX as nat
    } else {
        c
    }
}

proof fn lemma_find_key_props(acc: Seq<(Seq<char>, u32)>, name: Seq<char>)
    ensures
        0 <= find_key(acc, name) <= acc.len(),
        find_key(acc, name) < acc.len() ==> acc[find_key(acc, name)].0 == name,
        forall|k: int| 0 <= k < find_key(acc, name) ==> (#[trigger] acc[k]).0 != name,
    decreases acc.len(),
{
    if acc.len() > 0 && acc[0].0 != name {
        let t = acc.drop_first();
        lemma_find_key_props(t, name);
        assert forall|k: int| 0 <= k < find_key(acc, name) implies (#[trigger] acc[k]).0
            != name by {
            if k > 0 {
                assert(t[k - 1] == acc[k]);
            }
        }
    }
}

/// `find_key` looks only at the keys: tables with the same key sequence
/// agree on it.
proof fn lemma_find_key_same_keys(
    a: Seq<(Seq<char>, u32)>,
    b: Seq<(Seq<char>, u32)>,
    name: Seq<char>,
)
    requires
        a.len() == b.len(),
        forall|i: int| 0 <= i < a.len() ==> (#[trigger] a[i]).0 == b[i].0,
    ensures
        find_key(a, name) == find_key(b, name),
    decreases a.len(),
{
    if a.len() > 0 {
        let ta = a.drop_first();
        let tb = b.drop_first();
        assert forall|i: int| 0 <= i < ta.len() implies (#[trigger] ta[i]).0 == tb[i].0 by {
            assert(ta[i] == a[i + 1]);
            assert(tb[i] == b[i + 1]);
        }
        lemma_find_key_same_keys(ta, tb, name);
    }
}

/// The name-to-count table means what it says: its keys are pairwise
/// distinct; each entry's count is the number of devices sharing its key,
/// clipped into `u32` range; and a name has an entry exactly when some
/// device carries it.
pub proof fn lemma_type_counts_meaning(devs: Seq<GpuInfoView>)
    ensures
        forall|i: int, j: int|
            0 <= i < j < type_counts_spec(devs).len() ==> (#[trigger] type_counts_spec(
                devs,
            )[i]).0 != (#[trigger] type_counts_spec(devs)[j]).0,
        forall|i: int|
            0 <= i < type_counts_spec(devs).len() ==> (#[trigger] type_counts_spec(devs)[i]).1
                as nat == clip_u32(count_name(devs, type_counts_spec(devs)[i].0)),
        forall|n: Seq<char>|
            count_name(devs, n) > 0 <==> #[trigger] find_key(type_counts_spec(devs), n)
                < type_counts_spec(devs).len(),
    decreases devs.len(),
{
    if devs.len() == 0 {
        assert forall|n: Seq<char>|
            count_name(devs, n) > 0 <==> #[trigger] find_key(type_counts_spec(devs), n)
                < type_counts_spec(devs).len() by {
            assert(count_name(devs, n) == 0);
        }
    } else {
        let pre = devs.drop_last();
        let d = devs.last();
        let tc0 = type_counts_spec(pre);
        let tc = type_counts_spec(devs);
        lemma_type_counts_meaning(pre);
        lemma_find_key_props(tc0, d.name);
        let fk = find_key(tc0, d.name);
        assert(forall|n: Seq<char>|
            count_name(devs, n) == count_name(pre, n) + (if d.name == n {
                1 as nat
            } else {
                0 as nat
            }));
        if fk < tc0.len() {
            // the name is already a key: its count goes up, the keys stay
            assert(tc == tc0.update(fk, (d.name, sat_inc(tc0[fk].1))));
            assert(tc0[fk].0 == d.name);
            assert forall|i: int| 0 <= i < tc.len() implies (#[trigger] tc[i]).0 == tc0[i].0 by {}
            assert forall|i: int|
                0 <= i < tc.len() implies (#[trigger] tc[i]).1 as nat == clip_u32(
                count_name(devs, tc[i].0),
            ) by {
                if i == fk {
                    assert(tc[i].1 == sat_inc(tc0[fk].1));
                    assert(count_name(devs, d.name) == count_name(pre, d.name) + 1);
                } else {
                    assert(tc[i] == tc0[i]);
                    if i < fk {
                        assert(tc0[i].0 != d.name);
                    } else {
                        assert(tc0[fk].0 != tc0[i].0);
                    }
                    assert(count_name(devs, tc0[i].0) == count_name(pre, tc0[i].0));
                }
            }
            assert forall|n: Seq<char>|
                count_name(devs, n) > 0 <==> #[trigger] find_key(tc, n) < tc.len() by {
                lemma_find_key_same_keys(tc, tc0, n);
                if n == d.name {
                    assert(count_name(devs, n) > 0);
                    assert(find_key(tc0, n) < tc0.len());
                } else {
                    assert(count_name(devs, n) == count_name(pre, n));
                }
            }
        } else {
            // a new name: it enters at the end with count one
            assert(tc == tc0.push((d.name, 1)));
            assert(forall|k: int| 0 <= k < tc0.len() ==> (#[trigger] tc0[k]).0 != d.name);
            assert(count_name(pre, d.name) == 0) by {
                if count_name(pre, d.name) > 0 {
                    assert(find_key(tc0, d.name) < tc0.len());
                }
            }
            assert forall|i: int, j: int|
                0 <= i < j < tc.len() implies (#[trigger] tc[i]).0 != (#[trigger] tc[j]).0 by {
                if j < tc0.len() {
                    assert(tc[i] == tc0[i] && tc[j] == tc0[j]);
                } else {
                    assert(tc[i] == tc0[i] && tc[j].0 == d.name);
                }
            }
            assert forall|i: int|
                0 <= i < tc.len() implies (#[trigger] tc[i]).1 as nat == clip_u32(
                count_name(devs, tc[i].0),
            ) by {
                if i < tc0.len() {
                    assert(tc[i] == tc0[i]);
                    assert(tc0[i].0 != d.name);
                    assert(count_name(devs, tc0[i].0) == count_name(pre, tc0[i].0));
                } else {
                    assert(tc[i].0 == d.name && tc[i].1 == 1);
                    assert(count_name(devs, d.name) == 1);
                }
            }
            assert forall|n: Seq<char>|
                count_name(devs, n) > 0 <==> #[trigger] find_key(tc, n) < tc.len() by {
                lemma_find_key_props(tc, n);
                if n == d.name {
                    assert(count_name(devs, n) == 1);
                    assert forall|k: int| 0 <= k < tc0.len() implies (#[trigger] tc[k]).0
                        != n by {
                        assert(tc[k] == tc0[k]);
                    }
                    lemma_find_key_is_pairs(tc, n, tc0.len() as int);
                } else {
                    assert(count_name(devs, n) == count_name(pre, n));
                    if count_name(pre, n) > 0 {
                        let fkn = find_key(tc0, n);
                        lemma_find_key_props(tc0, n);
                        assert forall|k: int| 0 <= k < fkn implies (#[trigger] tc[k]).0 != n by {
                            assert(tc[k] == tc0[k]);
                        }
                        assert(tc[fkn] == tc0[fkn]);
                        lemma_find_key_is_pairs(tc, n, fkn);
                    } else {
                        if find_key(tc, n) < tc.len() {
                            let fkn = find_key(tc, n);
                            assert(tc[fkn].0 == n);
                            if fkn < tc0.len() {
                                assert(tc0[fkn].0 == n);
                                lemma_find_key_props(tc0, n);
                                assert(find_key(tc0, n) <= fkn) by {
                                    if find_key(tc0, n) > fkn {
                                        assert(tc0[fkn].0 != n);
                                    }
                                }
                                assert(count_name(pre, n) > 0);
                            } else {
                                assert(tc[fkn].0 == d.name);
                            }
                        }
                    }
                }
            }
        }
    }
}

/// `find_key` lands exactly on the first index whose key matches.
proof fn lemma_find_key_is_pairs(acc: Seq<(Seq<char>, u32)>, name: Seq<char>, i: int)
    requires
        0 <= i <= acc.len(),
        forall|k: int| 0 <= k < i ==> (#[trigger] acc[k]).0 != name,
        i < acc.len() ==> acc[i].0 == name,
        i == acc.len() ==> forall|k: int| 0 <= k < acc.len() ==> (#[trigger] acc[k]).0 != name,
    ensures
        find_key(acc, name) == i,
    decreases i,
{
    if i > 0 {
        let t = acc.drop_first();
        assert forall|k: int| 0 <= k < i - 1 implies (#[trigger] t[k]).0 != name by {
            assert(t[k] == acc[k + 1]);
        }
        lemma_find_key_is_pairs(t, name, i - 1);
    }
}

} // verus!
