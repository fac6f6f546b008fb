//! The report of a run as text.

use crate::report::{nearest, rows_of, BenchRunReport, BenchRunReportItem, LatencyRow};
use crate::status_summary::{lines_of, StatusLine};
use crate::text::{
    decimal_of, decimal_text, rounded_hundredths_of, rounded_hundredths_text, spaces_of,
    spaces_text, thousandths_of, thousandths_text,
};
use bytesize::ByteSize;
use std::time::Duration;
use vstd::prelude::*;

verus! {

/// A number of bytes as the `bytesize` crate writes it.
pub uninterp spec fn byte_size_of(bytes: u64) -> Seq<char>;

/// A length of time as its `Debug` form writes it.
pub uninterp spec fn duration_text_of(d: Duration) -> Seq<char>;

/// `ByteSize::b(bytes)` of the `bytesize` crate as it displays itself: a
/// number with its unit, which below a thousand bytes is the number of
/// bytes and `B`.
#[verifier::external_body]
fn byte_size_text(bytes: u64) -> (text: String)
    ensures
        text@ == byte_size_of(bytes),
        bytes < 1000 ==> text@ == decimal_of(bytes as nat) + " B"@,
{
    ByteSize::b(bytes).to_string()
}

/// The `Debug` form of a `Duration`.
#[verifier::external_body]
fn duration_text(d: &Duration) -> (text: String)
    ensures
        text@ == duration_text_of(*d),
{
    format!("{:?}", d)
}

/// A rate of thousandths as text, and `NaN` for no rate.
pub open spec fn rate_text_of(rate: Option<u64>) -> Seq<char> {
    match rate {
        Some(thousandths) => thousandths_of(thousandths as nat),
        None => "NaN"@,
    }
}

/// A rate of bits a second as text in megabits a second, rounded to the
/// nearest thousandth, and `NaN` for no rate.
pub open spec fn megabits_text_of(rate: Option<u64>) -> Seq<char> {
    match rate {
        Some(bits) => thousandths_of(nearest(bits as nat, 1000)),
        None => "NaN"@,
    }
}

/// The line that names the test case.
pub open spec fn name_text_of(name: Option<String>) -> Seq<char> {
    match name {
        Some(given) => "Test: "@ + given@ + "\n"@,
        None => Seq::empty(),
    }
}

/// The counters and rates of a report, one to a line.
pub open spec fn head_text_of(item: BenchRunReportItem) -> Seq<char> {
    name_text_of(item.test_case_name) + "Duration "@ + duration_text_of(item.duration)
        + " \nRequests: "@ + decimal_of(item.total_requests as nat) + " \nRequest rate: "@
        + rate_text_of(item.rate_per_second) + " per second\nSuccess rate: "@ + rate_text_of(
        item.success_rate,
    ) + "%\nTotal bytes: "@ + byte_size_of(item.total_bytes as u64) + " \nBitrate: "@
        + megabits_text_of(item.bits_per_second) + " Mbps\n"@
}

/// The first `n` lines of the summary of status labels: each label with
/// its count.
pub open spec fn status_lines_of(lines: Seq<StatusLine>, n: int) -> Seq<char>
    decreases n,
{
    if n <= 0 || n > lines.len() {
        Seq::empty()
    } else {
        status_lines_of(lines, n - 1) + lines[n - 1].label + ": "@ + decimal_of(
            lines[n - 1].count as nat,
        ) + "\n"@
    }
}

/// The summary of status labels under its heading; nothing where there is
/// no label.
pub open spec fn status_text_of(lines: Seq<StatusLine>) -> Seq<char> {
    if lines.len() == 0 {
        Seq::empty()
    } else {
        "\nSummary:\n"@ + status_lines_of(lines, lines.len() as int)
    }
}

/// Length of the longest label among the first `n` rows.
pub open spec fn label_width(rows: Seq<LatencyRow>, n: int) -> nat
    decreases n,
{
    if n <= 0 || n > rows.len() {
        0
    } else if rows[n - 1].label.len() > label_width(rows, n - 1) {
        rows[n - 1].label.len()
    } else {
        label_width(rows, n - 1)
    }
}

/// Number of digits of the longest value among the first `n` rows.
pub open spec fn value_width(rows: Seq<LatencyRow>, n: int) -> nat
    decreases n,
{
    if n <= 0 || n > rows.len() {
        0
    } else if decimal_of(rows[n - 1].value as nat).len() > value_width(rows, n - 1) {
        decimal_of(rows[n - 1].value as nat).len()
    } else {
        value_width(rows, n - 1)
    }
}

/// The value from which the least value of the rows is sought downwards:
/// rows without a value below it count as having it.
pub const LEAST_CEILING: u64 = 1_000_000_000;

/// The least value among the first `n` rows, and `LEAST_CEILING` where
/// none is less.
pub open spec fn least_value(rows: Seq<LatencyRow>, n: int) -> u64
    decreases n,
{
    if n <= 0 || n > rows.len() {
        LEAST_CEILING
    } else if rows[n - 1].value < least_value(rows, n - 1) {
        rows[n - 1].value
    } else {
        least_value(rows, n - 1)
    }
}

/// Whether the latencies are written in milliseconds: they are where none
/// is less than one millisecond.
pub open spec fn in_millis(rows: Seq<LatencyRow>) -> bool {
    least_value(rows, rows.len() as int) >= 1000
}

/// One row of the summary of latencies: the label, a colon and the value
/// with its unit, the colons and the values of all rows in one column.
pub open spec fn row_text_of(row: LatencyRow, labels: nat, values: nat, millis: bool) -> Seq<
    char,
> {
    row.label + spaces_of((labels - row.label.len() + 1) as nat) + ":"@ + spaces_of(
        (values - decimal_of(row.value as nat).len() + 1) as nat,
    ) + if millis {
        rounded_hundredths_of(row.value as nat) + "ms\n"@
    } else {
        decimal_of(row.value as nat) + "µs\n"@
    }
}

/// The first `n` rows of the summary of latencies.
pub open spec fn rows_text_of(rows: Seq<LatencyRow>, n: int) -> Seq<char>
    decreases n,
{
    if n <= 0 || n > rows.len() {
        Seq::empty()
    } else {
        rows_text_of(rows, n - 1) + row_text_of(
            rows[n - 1],
            label_width(rows, rows.len() as int),
            value_width(rows, rows.len() as int),
            in_millis(rows),
        )
    }
}

/// The summary of latencies under its heading; an empty line where there
/// is no row.
pub open spec fn latency_text_of(rows: Seq<LatencyRow>) -> Seq<char> {
    if rows.len() == 0 {
        "\n"@
    } else {
        "\nLatency:\n"@ + rows_text_of(rows, rows.len() as int)
    }
}

/// The report of one set of counters as text.
pub open spec fn item_text_of(item: BenchRunReportItem) -> Seq<char> {
    head_text_of(item) + status_text_of(lines_of(item.response_code_summary@)) + latency_text_of(
        rows_of(item.latency_summary@),
    )
}

/// No label of the first `n` rows is longer than the longest of all.
pub proof fn lemma_label_width(rows: Seq<LatencyRow>, i: int, n: int)
    requires
        0 <= i < n <= rows.len(),
    ensures
        rows[i].label.len() <= label_width(rows, n),
    decreases n,
{
    if i < n - 1 {
        lemma_label_width(rows, i, n - 1);
    }
}

/// No value of the first `n` rows has more digits than the longest of all.
pub proof fn lemma_value_width(rows: Seq<LatencyRow>, i: int, n: int)
    requires
        0 <= i < n <= rows.len(),
    ensures
        decimal_of(rows[i].value as nat).len() <= value_width(rows, n),
    decreases n,
{
    if i < n - 1 {
        lemma_value_width(rows, i, n - 1);
    }
}

/// A rate of thousandths as text, and `NaN` for no rate.
fn rate_text(rate: Option<u64>) -> (text: String)
    ensures
        text@ == rate_text_of(rate),
{
    match rate {
        Some(thousandths) => thousandths_text(thousandths),
        None => "NaN".to_owned(),
    }
}

/// A rate of bits a second as text in megabits a second, and `NaN` for no
/// rate.
fn megabits_text(rate: Option<u64>) -> (text: String)
    ensures
        text@ == megabits_text_of(rate),
{
    match rate {
        Some(bits) => thousandths_text(
            if bits % 1000 >= 500 {
                bits / 1000 + 1
            } else {
                bits / 1000
            },
        ),
        None => "NaN".to_owned(),
    }
}

impl BenchRunReportItem {
    /// The counters and rates of the report, one to a line.
    fn head_text(&self) -> (text: String)
        ensures
            text@ == head_text_of(*self),
    {
        let mut text = String::new();
        match &self.test_case_name {
            Some(name) => {
                text.append("Test: ");
                text.append(name.as_str());
                text.append("\n");
            },
            None => {},
        }
        assert(text@ =~= name_text_of(self.test_case_name));
        text.append("Duration ");
        text.append(duration_text(&self.duration).as_str());
        text.append(" \nRequests: ");
        text.append(decimal_text(self.total_requests as u64).as_str());
        text.append(" \nRequest rate: ");
        text.append(rate_text(self.rate_per_second).as_str());
        text.append(" per second\nSuccess rate: ");
        text.append(rate_text(self.success_rate).as_str());
        text.append("%\nTotal bytes: ");
        text.append(byte_size_text(self.total_bytes as u64).as_str());
        text.append(" \nBitrate: ");
        text.append(megabits_text(self.bits_per_second).as_str());
        text.append(" Mbps\n");
        text
    }

    /// The summary of status labels under its heading.
    fn status_text(&self) -> (text: String)
        ensures
            text@ == status_text_of(lines_of(self.response_code_summary@)),
    {
        let ghost lines = lines_of(self.response_code_summary@);
        let mut text = String::new();
        let n = self.response_code_summary.len();
        if n == 0 {
            return text;
        }
        text.append("\nSummary:\n");
        let ghost heading = text@;
        let mut i: usize = 0;
        while i < n
            invariant
                0 <= i <= n,
                n == self.response_code_summary@.len(),
                lines == lines_of(self.response_code_summary@),
                heading == "\nSummary:\n"@,
                text@ == heading + status_lines_of(lines, i as int),
            decreases n - i,
        {
            let ghost before = text@;
            let pair = &self.response_code_summary[i];
            text.append(pair.0.as_str());
            text.append(": ");
            text.append(decimal_text(pair.1 as u64).as_str());
            text.append("\n");
            i = i + 1;
            assert(text@ =~= heading + status_lines_of(lines, i as int)) by {
                assert(lines[i - 1].label == pair.0@);
                assert(lines[i - 1].count == pair.1);
            }
        }
        text
    }

    /// The summary of latencies under its heading.
    fn latency_text(&self) -> (text: String)
        ensures
            text@ == latency_text_of(rows_of(self.latency_summary@)),
    {
        let ghost rows = rows_of(self.latency_summary@);
        let n = self.latency_summary.len();
        let mut text = String::new();
        if n == 0 {
            text.append("\n");
            assert(text@ =~= "\n"@);
            return text;
        }
        let mut labels: usize = 0;
        let mut values: usize = 0;
        let mut least: u64 = LEAST_CEILING;
        let mut i: usize = 0;
        while i < n
            invariant
                0 <= i <= n,
                n == self.latency_summary@.len(),
                rows == rows_of(self.latency_summary@),
                labels == label_width(rows, i as int),
                values == value_width(rows, i as int),
                least == least_value(rows, i as int),
            decreases n - i,
        {
            let pair = &self.latency_summary[i];
            assert(rows[i as int].label == pair.0@);
            assert(rows[i as int].value == pair.1);
            let label_length = pair.0.as_str().unicode_len();
            let value_length = decimal_text(pair.1).as_str().unicode_len();
            if label_length > labels {
                labels = label_length;
            }
            if value_length > values {
                values = value_length;
            }
            if pair.1 < least {
                least = pair.1;
            }
            i = i + 1;
        }
        let millis = least >= 1000;
        text.append("\nLatency:\n");
        let ghost heading = text@;
        let mut i: usize = 0;
        while i < n
            invariant
                0 <= i <= n,
                n == self.latency_summary@.len(),
                rows == rows_of(self.latency_summary@),
                n == rows.len(),
                labels == label_width(rows, n as int),
                values == value_width(rows, n as int),
                millis == in_millis(rows),
                heading == "\nLatency:\n"@,
                text@ == heading + rows_text_of(rows, i as int),
            decreases n - i,
        {
            let pair = &self.latency_summary[i];
            assert(rows[i as int].label == pair.0@);
            assert(rows[i as int].value == pair.1);
            proof {
                lemma_label_width(rows, i as int, n as int);
                lemma_value_width(rows, i as int, n as int);
                reveal_strlit(" ");
            }
            let number = decimal_text(pair.1);
            let label_length = pair.0.as_str().unicode_len();
            let value_length = number.as_str().unicode_len();
            let ghost before = text@;
            text.append(pair.0.as_str());
            text.append(spaces_text(labels - label_length).as_str());
            text.append(" ");
            text.append(":");
            text.append(spaces_text(values - value_length).as_str());
            text.append(" ");
            if millis {
                text.append(rounded_hundredths_text(pair.1).as_str());
                text.append("ms\n");
            } else {
                text.append(number.as_str());
                text.append("µs\n");
            }
            i = i + 1;
            assert(text@ =~= heading + rows_text_of(rows, i as int)) by {
                assert(spaces_of((labels - label_length) as nat) + seq![' '] =~= spaces_of(
                    (labels - label_length + 1) as nat,
                ));
                assert(spaces_of((values - value_length) as nat) + seq![' '] =~= spaces_of(
                    (values - value_length + 1) as nat,
                ));
            }
        }
        text
    }

    /// The report as text: the counters and rates, the summary of status
    /// labels, and the summary of latencies.
    pub fn to_string(&self) -> (text: String)
        ensures
            text@ == item_text_of(*self),
    {
        let mut text = self.head_text();
        text.append(self.status_text().as_str());
        text.append(self.latency_text().as_str());
        text
    }
}

impl BenchRunReport {
    /// The report as text: that of the combined counters, and a line end.
    pub fn to_string(&self) -> (text: String)
        ensures
            text@ == item_text_of(self.combined) + "\n"@,
    {
        let mut text = self.combined.to_string();
        text.append("\n");
        text
    }
}

} // verus!
