//! The text exposition format.
//!
//! ```text
//! # HELP <name>
//! # TYPE <name> <counter|gauge>
//! <name>{<key>="<value>",...} <integer>
//! ```
//!
//! Consecutive metrics of one name and kind share one HELP/TYPE pair, and a
//! metric without attributes has no braces.

use crate::metric::same_key;
use crate::metric::MetricView;
use crate::metric::RegisteredMetric;
use vstd::prelude::*;
use vstd::string::StringExecFns;

verus! {

/// The character for one decimal digit.
pub open spec fn digit_char(d: nat) -> char {
    if d == 0 {
        '0'
    } else if d == 1 {
        '1'
    } else if d == 2 {
        '2'
    } else if d == 3 {
        '3'
    } else if d == 4 {
        '4'
    } else if d == 5 {
        '5'
    } else if d == 6 {
        '6'
    } else if d == 7 {
        '7'
    } else if d == 8 {
        '8'
    } else {
        '9'
    }
}

/// A number in decimal, without sign, padding or leading zeros.
pub open spec fn decimal(n: nat) -> Seq<char>
    decreases n,
{
    if n < 10 {
        seq![digit_char(n)]
    } else {
        decimal(n / 10).push(digit_char(n % 10))
    }
}

/// One label: `key="value"`. The value is quoted as it is, nothing escaped.
pub open spec fn label_text(attribute: (Seq<char>, Seq<char>)) -> Seq<char> {
    attribute.0 + "=\""@ + attribute.1 + "\""@
}

/// The first `n` labels of `attributes`, joined by commas.
pub open spec fn labels_joined(attributes: Seq<(Seq<char>, Seq<char>)>, n: nat) -> Seq<char>
    decreases n,
{
    if n == 0 {
        Seq::empty()
    } else if n == 1 {
        label_text(attributes[0])
    } else {
        labels_joined(attributes, (n - 1) as nat) + ","@ + label_text(attributes[n - 1])
    }
}

/// The label block behind a metric's name: nothing at all for a metric
/// without attributes, else the labels in braces.
pub open spec fn label_block(attributes: Seq<(Seq<char>, Seq<char>)>) -> Seq<char> {
    if attributes.len() == 0 {
        Seq::empty()
    } else {
        "{"@ + labels_joined(attributes, attributes.len()) + "}"@
    }
}

/// The line that carries one metric's value.
pub open spec fn sample_line(m: MetricView, value: u64) -> Seq<char> {
    m.name + label_block(m.attributes) + " "@ + decimal(value as nat) + "\n"@
}

/// The HELP line, which carries no description, and the TYPE line.
pub open spec fn header(m: MetricView) -> Seq<char> {
    "# HELP "@ + m.name + "\n"@ + "# TYPE "@ + m.name + " "@ + m.kind.label() + "\n"@
}

/// Whether the metric at `i` opens a block: it is the first of the list or
/// differs in name or kind from the one before it.
pub open spec fn starts_block(s: Seq<MetricView>, i: int) -> bool {
    i == 0 || !same_key(s[i - 1], s[i])
}

/// What the metric at `i` adds to the output.
pub open spec fn entry_text(s: Seq<MetricView>, values: Seq<u64>, i: int) -> Seq<char> {
    if starts_block(s, i) {
        header(s[i]) + sample_line(s[i], values[i])
    } else {
        sample_line(s[i], values[i])
    }
}

/// The output for the first `n` metrics of `s`.
pub open spec fn exposition_upto(s: Seq<MetricView>, values: Seq<u64>, n: nat) -> Seq<char>
    decreases n,
{
    if n == 0 {
        Seq::empty()
    } else {
        exposition_upto(s, values, (n - 1) as nat) + entry_text(s, values, n - 1)
    }
}

/// The whole output for the metrics `s`, where `values[i]` is the value read
/// for `s[i]`.
pub open spec fn exposition(s: Seq<MetricView>, values: Seq<u64>) -> Seq<char> {
    exposition_upto(s, values, s.len())
}

fn digit_str(d: u64) -> (text: &'static str)
    requires
        d < 10,
    ensures
        text@ == seq![digit_char(d as nat)],
{
    proof {
        reveal_strlit("0");
        reveal_strlit("1");
        reveal_strlit("2");
        reveal_strlit("3");
        reveal_strlit("4");
        reveal_strlit("5");
        reveal_strlit("6");
        reveal_strlit("7");
        reveal_strlit("8");
        reveal_strlit("9");
    }
    let text = if d == 0 {
        "0"
    } else if d == 1 {
        "1"
    } else if d == 2 {
        "2"
    } else if d == 3 {
        "3"
    } else if d == 4 {
        "4"
    } else if d == 5 {
        "5"
    } else if d == 6 {
        "6"
    } else if d == 7 {
        "7"
    } else if d == 8 {
        "8"
    } else {
        "9"
    };
    assert(text@ =~= seq![digit_char(d as nat)]);
    text
}

/// Appends `n` in decimal.
pub fn push_decimal(out: &mut String, n: u64)
    ensures
        final(out)@ == old(out)@ + decimal(n as nat),
    decreases n,
{
    if n >= 10 {
        push_decimal(out, n / 10);
    }
    out.append(digit_str(n % 10));
    assert(out@ =~= old(out)@ + decimal(n as nat));
}

/// Appends the label block of a metric with these attributes.
pub fn push_label_block(out: &mut String, attributes: &Vec<(String, String)>)
    ensures
        final(out)@ == old(out)@ + label_block(attributes.deep_view()),
{
    let ghost labels = attributes.deep_view();
    let n = attributes.len();
    if n == 0 {
        assert(out@ =~= old(out)@ + label_block(labels));
        return ;
    }
    out.append("{");
    let mut i: usize = 0;
    while i < n
        invariant
            i <= n,
            n == attributes.len(),
            labels == attributes.deep_view(),
            out@ == old(out)@ + "{"@ + labels_joined(labels, i as nat),
        decreases n - i,
    {
        let ghost so_far = out@;
        if i > 0 {
            out.append(",");
        }
        let pair = &attributes[i];
        out.append(pair.0.as_str());
        out.append("=\"");
        out.append(pair.1.as_str());
        out.append("\"");
        proof {
            assert(labels[i as int] == (pair.0@, pair.1@));
            if i > 0 {
                assert(out@ =~= so_far + (","@ + label_text(labels[i as int])));
            } else {
                assert(labels_joined(labels, 0) =~= Seq::empty());
                assert(out@ =~= so_far + label_text(labels[i as int]));
            }
            assert(out@ =~= old(out)@ + "{"@ + labels_joined(labels, (i + 1) as nat));
        }
        i += 1;
    }
    out.append("}");
    assert(out@ =~= old(out)@ + label_block(labels));
}

/// Appends the line that carries `value` for `metric`.
pub fn push_sample_line(out: &mut String, metric: &RegisteredMetric, value: u64)
    ensures
        final(out)@ == old(out)@ + sample_line(metric@, value),
{
    out.append(metric.name());
    push_label_block(out, metric.attributes());
    out.append(" ");
    push_decimal(out, value);
    out.append("\n");
    assert(out@ =~= old(out)@ + sample_line(metric@, value));
}

/// Appends the HELP and TYPE lines for `metric`.
pub fn push_header(out: &mut String, metric: &RegisteredMetric)
    ensures
        final(out)@ == old(out)@ + header(metric@),
{
    out.append("# HELP ");
    out.append(metric.name());
    out.append("\n");
    out.append("# TYPE ");
    out.append(metric.name());
    out.append(" ");
    out.append(metric.metric_type().as_str());
    out.append("\n");
    assert(out@ =~= old(out)@ + header(metric@));
}

/// Renders `metrics` with `values[i]` as the value of `metrics[i]`.
pub fn render_metrics(metrics: &Vec<RegisteredMetric>, values: &Vec<u64>) -> (text: String)
    requires
        values.len() == metrics.len(),
    ensures
        text@ == exposition(metrics.deep_view(), values@),
{
    let ghost s = metrics.deep_view();
    let mut out = String::new();
    let n = metrics.len();
    let mut i: usize = 0;
    while i < n
        invariant
            i <= n,
            n == metrics.len(),
            n == values.len(),
            s == metrics.deep_view(),
            out@ == exposition_upto(s, values@, i as nat),
        decreases n - i,
    {
        let ghost so_far = out@;
        let metric = &metrics[i];
        let opens = i == 0 || !metric.key_equal(&metrics[i - 1]);
        assert(opens == starts_block(s, i as int));
        if opens {
            push_header(&mut out, metric);
        }
        push_sample_line(&mut out, metric, values[i]);
        assert(out@ =~= so_far + entry_text(s, values@, i as int));
        i += 1;
    }
    out
}

} // verus!
