//! One registered metric and the key by which the registry orders its list.

use crate::order::bytes_less;
use crate::order::bytes_lt;
use crate::order::lemma_bytes_lt_irreflexive;
use crate::order::lemma_bytes_lt_total;
use crate::order::lemma_bytes_lt_transitive;
use std::sync::atomic::AtomicU64;
use std::sync::atomic::Ordering;
use std::sync::Arc;
use vstd::prelude::*;
use vstd::utf8::encode_utf8;
use vstd::utf8::encode_utf8_decode_utf8;

verus! {

/// The two kinds of metric the registry knows.
#[derive(Debug, Clone, Copy, PartialEq, Eq, PartialOrd, Ord, Structural)]
pub enum MetricType {
    IntCounter,
    IntGauge,
}

impl MetricType {
    /// Position of the kind in the sort order: counters come before gauges.
    pub open spec fn rank(self) -> nat {
        match self {
            MetricType::IntCounter => 0,
            MetricType::IntGauge => 1,
        }
    }

    /// The word that names the kind on a `# TYPE` line.
    pub open spec fn label(self) -> Seq<char> {
        match self {
            MetricType::IntCounter => "counter"@,
            MetricType::IntGauge => "gauge"@,
        }
    }

    /// The word that names the kind on a `# TYPE` line.
    pub fn as_str(&self) -> (word: &'static str)
        ensures
            word@ == self.label(),
    {
        match self {
            MetricType::IntCounter => "counter",
            MetricType::IntGauge => "gauge",
        }
    }

    /// Whether `self` sorts strictly before `other`.
    pub fn precedes(&self, other: &MetricType) -> (before: bool)
        ensures
            before == (self.rank() < other.rank()),
    {
        match (self, other) {
            (MetricType::IntCounter, MetricType::IntGauge) => true,
            _ => false,
        }
    }
}

/// What a registered metric is, as the contracts see it.
pub struct MetricView {
    pub kind: MetricType,
    /// The fully qualified name, every prefix already joined in.
    pub name: Seq<char>,
    /// The atomic cell whose value is rendered.
    pub cell: Arc<AtomicU64>,
    /// The label pairs, in the order they render.
    pub attributes: Seq<(Seq<char>, Seq<char>)>,
}

/// The key of a metric: its name and its kind.
pub open spec fn key_of(m: MetricView) -> (Seq<char>, MetricType) {
    (m.name, m.kind)
}

/// Strict order on keys by name, then by kind. Names compare by the bytes of
/// their UTF-8 encoding, as `str` does.
pub open spec fn key_before(a: (Seq<char>, MetricType), b: (Seq<char>, MetricType)) -> bool {
    let x = encode_utf8(a.0);
    let y = encode_utf8(b.0);
    bytes_lt(x, y) || (x == y && a.1.rank() < b.1.rank())
}

/// Whether `a` sorts strictly before `b`.
pub open spec fn key_lt(a: MetricView, b: MetricView) -> bool {
    key_before(key_of(a), key_of(b))
}

/// Two metrics render under one HELP/TYPE block when name and kind agree.
pub open spec fn same_key(a: MetricView, b: MetricView) -> bool {
    key_of(a) == key_of(b)
}

/// A name is determined by its UTF-8 encoding.
pub proof fn lemma_encoding_injective(a: Seq<char>, b: Seq<char>)
    requires
        encode_utf8(a) == encode_utf8(b),
    ensures
        a == b,
{
    encode_utf8_decode_utf8(a);
    encode_utf8_decode_utf8(b);
}

/// No key comes before itself.
pub proof fn lemma_key_before_irreflexive(a: (Seq<char>, MetricType))
    ensures
        !key_before(a, a),
{
    lemma_bytes_lt_irreflexive(encode_utf8(a.0));
}

/// Of two different keys one comes before the other.
pub proof fn lemma_key_before_total(a: (Seq<char>, MetricType), b: (Seq<char>, MetricType))
    ensures
        key_before(a, b) || key_before(b, a) || a == b,
{
    lemma_bytes_lt_total(encode_utf8(a.0), encode_utf8(b.0));
    if encode_utf8(a.0) == encode_utf8(b.0) {
        lemma_encoding_injective(a.0, b.0);
    }
}

/// The key order is transitive.
pub proof fn lemma_key_before_transitive(
    a: (Seq<char>, MetricType),
    b: (Seq<char>, MetricType),
    c: (Seq<char>, MetricType),
)
    requires
        key_before(a, b),
        key_before(b, c),
    ensures
        key_before(a, c),
{
    let x = encode_utf8(a.0);
    let y = encode_utf8(b.0);
    let z = encode_utf8(c.0);
    if bytes_lt(x, y) && bytes_lt(y, z) {
        lemma_bytes_lt_transitive(x, y, z);
    }
}

/// "Not after" is transitive too: if `a` is not after `b` and `b` is not
/// after `c`, then `a` is not after `c`.
pub proof fn lemma_key_not_after_transitive(
    a: (Seq<char>, MetricType),
    b: (Seq<char>, MetricType),
    c: (Seq<char>, MetricType),
)
    requires
        !key_before(b, a),
        !key_before(c, b),
    ensures
        !key_before(c, a),
{
    if key_before(c, a) {
        lemma_key_before_total(a, b);
        lemma_key_before_total(b, c);
        if key_before(a, b) {
            lemma_key_before_transitive(c, a, b);
        } else if key_before(b, c) {
            lemma_key_before_transitive(b, c, a);
        }
    }
}

/// A copy of the attribute list, pair by pair.
pub fn clone_attributes(attributes: &Vec<(String, String)>) -> (copy: Vec<(String, String)>)
    ensures
        copy.deep_view() == attributes.deep_view(),
{
    let mut copy: Vec<(String, String)> = Vec::new();
    let mut i: usize = 0;
    while i < attributes.len()
        invariant
            i <= attributes.len(),
            copy.len() == i,
            forall|k: int| 0 <= k < i ==> (#[trigger] copy[k]).deep_view() == attributes[k].deep_view(),
        decreases attributes.len() - i,
    {
        let pair = &attributes[i];
        copy.push((pair.0.clone(), pair.1.clone()));
        i += 1;
    }
    assert(copy.deep_view() =~= attributes.deep_view());
    copy
}

/// An entry of the registry's list.
pub struct RegisteredMetric {
    metric_type: MetricType,
    name: String,
    value: Arc<AtomicU64>,
    attributes: Vec<(String, String)>,
}

impl View for RegisteredMetric {
    type V = MetricView;

    closed spec fn view(&self) -> MetricView {
        MetricView {
            kind: self.metric_type,
            name: self.name@,
            cell: self.value,
            attributes: self.attributes.deep_view(),
        }
    }
}

impl DeepView for RegisteredMetric {
    type V = MetricView;

    open spec fn deep_view(&self) -> MetricView {
        self@
    }
}

impl RegisteredMetric {
    /// A metric of the given kind and name on `value`, without attributes.
    pub fn new(metric_type: MetricType, name: String, value: Arc<AtomicU64>) -> (metric: Self)
        ensures
            metric@ == (MetricView {
                kind: metric_type,
                name: name@,
                cell: value,
                attributes: Seq::empty(),
            }),
    {
        let metric = RegisteredMetric { metric_type, name, value, attributes: Vec::new() };
        assert(metric.attributes.deep_view() =~= Seq::empty());
        metric
    }

    /// Replaces the attributes and leaves kind, name and cell alone.
    pub fn stamp(&mut self, attributes: Vec<(String, String)>)
        ensures
            final(self)@ == (MetricView { attributes: attributes.deep_view(), ..old(self)@ }),
    {
        self.attributes = attributes;
    }

    pub fn metric_type(&self) -> (kind: MetricType)
        ensures
            kind == self@.kind,
    {
        self.metric_type
    }

    pub fn name(&self) -> (name: &str)
        ensures
            name@ == self@.name,
    {
        self.name.as_str()
    }

    pub fn attributes(&self) -> (attributes: &Vec<(String, String)>)
        ensures
            attributes.deep_view() == self@.attributes,
    {
        &self.attributes
    }

    /// The current value of the metric's cell, read with relaxed ordering.
    pub fn load(&self) -> u64 {
        self.value.load(Ordering::Relaxed)
    }

    /// Whether `self` sorts strictly before `other`.
    pub fn key_less(&self, other: &RegisteredMetric) -> (less: bool)
        ensures
            less == key_lt(self@, other@),
    {
        let mine = self.name.as_str().as_bytes();
        let theirs = other.name.as_str().as_bytes();
        if bytes_less(mine, theirs) {
            true
        } else if bytes_less(theirs, mine) {
            proof {
                lemma_bytes_lt_irreflexive(mine@);
            }
            false
        } else {
            proof {
                lemma_bytes_lt_total(mine@, theirs@);
            }
            self.metric_type.precedes(&other.metric_type)
        }
    }

    /// Whether `self` and `other` belong under one HELP/TYPE block.
    pub fn key_equal(&self, other: &RegisteredMetric) -> (equal: bool)
        ensures
            equal == same_key(self@, other@),
    {
        self.name == other.name && self.metric_type == other.metric_type
    }
}

} // verus!
