//! Which OpenTelemetry metric data and attribute values convert to the
//! SDK's metric types, the errors for those that do not, and the check of a
//! whole set of resource metrics: which error comes first, or which metrics
//! are converted.

use vstd::prelude::*;

verus! {

/// Why a metric could not be converted.
#[derive(Debug, Clone, Copy, PartialEq, Eq, Structural)]
pub enum ConversionError {
    UnsupportedBytesValueAttributes,
    UnsupportedKvlistValueAttributes,
    UnsupportedArrayValueAttributes,
    UnsupportedSummaryData,
    MissingValue,
    UnsupportedTemporality,
}

/// The message of a conversion error.
pub open spec fn conversion_error_text(e: ConversionError) -> Seq<char> {
    match e {
        ConversionError::UnsupportedBytesValueAttributes => "Unsupported bytes value in attributes"@,
        ConversionError::UnsupportedKvlistValueAttributes => "Unsupported kvlist value in attributes"@,
        ConversionError::UnsupportedArrayValueAttributes => "Unsupported array value in attributes"@,
        ConversionError::UnsupportedSummaryData => "Unsupported summary data"@,
        ConversionError::MissingValue => "Missing value"@,
        ConversionError::UnsupportedTemporality => "Unsupported temporality"@,
    }
}

impl ConversionError {
    /// The error's message.
    pub fn to_string(self) -> (res: String)
        ensures
            res@ == conversion_error_text(self),
    {
        match self {
            ConversionError::UnsupportedBytesValueAttributes => String::from_str(
                "Unsupported bytes value in attributes",
            ),
            ConversionError::UnsupportedKvlistValueAttributes => String::from_str(
                "Unsupported kvlist value in attributes",
            ),
            ConversionError::UnsupportedArrayValueAttributes => String::from_str(
                "Unsupported array value in attributes",
            ),
            ConversionError::UnsupportedSummaryData => String::from_str("Unsupported summary data"),
            ConversionError::MissingValue => String::from_str("Missing value"),
            ConversionError::UnsupportedTemporality => String::from_str("Unsupported temporality"),
        }
    }
}

/// How a sum's points aggregate over time.
#[derive(Debug, Clone, Copy, PartialEq, Eq, Structural)]
pub enum Temporality {
    Delta,
    Cumulative,
}

/// The temporality of an aggregation-temporality code: 1 is delta, 2 is
/// cumulative; any other code is unsupported.
pub fn to_temporality(value: i32) -> (res: Result<Temporality, ConversionError>)
    ensures
        value == 1 ==> res == Ok::<Temporality, ConversionError>(Temporality::Delta),
        value == 2 ==> res == Ok::<Temporality, ConversionError>(Temporality::Cumulative),
        value != 1 && value != 2 ==> res == Err::<Temporality, ConversionError>(
            ConversionError::UnsupportedTemporality,
        ),
{
    if value == 1 {
        Ok(Temporality::Delta)
    } else if value == 2 {
        Ok(Temporality::Cumulative)
    } else {
        Err(ConversionError::UnsupportedTemporality)
    }
}

/// The kinds of data a metric can carry.
#[derive(Debug, Clone, Copy, PartialEq, Eq, Structural)]
pub enum MetricKind {
    Gauge,
    Sum,
    Histogram,
    ExponentialHistogram,
    Summary,
}

/// Whether a metric is kept, by the kind of its data: a metric without
/// data is skipped (`Ok(false)`), summary data is unsupported, every other
/// kind is converted (`Ok(true)`).
pub fn metric_kept(kind: Option<MetricKind>) -> (res: Result<bool, ConversionError>)
    ensures
        res == match kind {
            None => Ok::<bool, ConversionError>(false),
            Some(MetricKind::Summary) => Err(ConversionError::UnsupportedSummaryData),
            Some(_) => Ok(true),
        },
{
    match kind {
        None => Ok(false),
        Some(MetricKind::Summary) => Err(ConversionError::UnsupportedSummaryData),
        Some(_) => Ok(true),
    }
}

/// The kinds of value an attribute can hold.
#[derive(Debug, Clone, Copy, PartialEq, Eq, Structural)]
pub enum AttributeKind {
    String,
    Bool,
    Int,
    Double,
    Array,
    Kvlist,
    Bytes,
}

/// Whether an attribute is kept, by the kind of its value: one without a
/// value is skipped (`Ok(false)`); text, booleans, integers and doubles are
/// kept (`Ok(true)`); arrays, key-value lists and bytes are unsupported.
pub fn attribute_kept(kind: Option<AttributeKind>) -> (res: Result<bool, ConversionError>)
    ensures
        res == match kind {
            None => Ok::<bool, ConversionError>(false),
            Some(AttributeKind::Array) => Err(ConversionError::UnsupportedArrayValueAttributes),
            Some(AttributeKind::Kvlist) => Err(ConversionError::UnsupportedKvlistValueAttributes),
            Some(AttributeKind::Bytes) => Err(ConversionError::UnsupportedBytesValueAttributes),
            Some(_) => Ok(true),
        },
{
    match kind {
        None => Ok(false),
        Some(AttributeKind::Array) => Err(ConversionError::UnsupportedArrayValueAttributes),
        Some(AttributeKind::Kvlist) => Err(ConversionError::UnsupportedKvlistValueAttributes),
        Some(AttributeKind::Bytes) => Err(ConversionError::UnsupportedBytesValueAttributes),
        Some(_) => Ok(true),
    }
}

/// The error of an attribute value, if its kind does not convert.
pub open spec fn attribute_error(kind: Option<AttributeKind>) -> Option<ConversionError> {
    match kind {
        Some(AttributeKind::Array) => Some(ConversionError::UnsupportedArrayValueAttributes),
        Some(AttributeKind::Kvlist) => Some(ConversionError::UnsupportedKvlistValueAttributes),
        Some(AttributeKind::Bytes) => Some(ConversionError::UnsupportedBytesValueAttributes),
        _ => None,
    }
}

/// The first error among `s`, each item's error given by `f`, in order.
pub open spec fn first_error<T>(s: Seq<T>, f: spec_fn(T) -> Option<ConversionError>) -> Option<ConversionError>
    decreases s.len(),
{
    if s.len() == 0 {
        None
    } else {
        match first_error(s.drop_last(), f) {
            Some(e) => Some(e),
            None => f(s.last()),
        }
    }
}

proof fn lemma_first_error_prefix<T>(s: Seq<T>, f: spec_fn(T) -> Option<ConversionError>, k: int)
    requires
        0 <= k <= s.len(),
        first_error(s.take(k), f) is Some,
    ensures
        first_error(s, f) == first_error(s.take(k), f),
    decreases s.len() - k,
{
    if k == s.len() {
        assert(s.take(k) =~= s);
    } else {
        assert(s.take(k + 1).drop_last() =~= s.take(k));
        lemma_first_error_prefix(s, f, k + 1);
    }
}

/// The first error among attribute values.
pub open spec fn attributes_error(a: Seq<Option<AttributeKind>>) -> Option<ConversionError> {
    first_error(a, |k: Option<AttributeKind>| attribute_error(k))
}

/// The error of a temporality code, if it is unsupported.
pub open spec fn temporality_error(code: i32) -> Option<ConversionError> {
    if code == 1 || code == 2 {
        None
    } else {
        Some(ConversionError::UnsupportedTemporality)
    }
}

/// A number data point of a gauge or sum: whether it holds a value, and
/// the kinds of its attribute values.
#[derive(Debug, Clone, PartialEq, Eq)]
pub struct NumberPoint {
    pub has_value: bool,
    pub attributes: Vec<Option<AttributeKind>>,
}

/// The error of a number data point: a point without a value is missing
/// it; otherwise the first error among its attributes.
pub open spec fn point_error(p: NumberPoint) -> Option<ConversionError> {
    if !p.has_value {
        Some(ConversionError::MissingValue)
    } else {
        attributes_error(p.attributes@)
    }
}

/// The data a metric carries, as far as its conversion can fail.
#[derive(Debug, Clone, PartialEq, Eq)]
pub enum MetricData {
    Gauge { points: Vec<NumberPoint> },
    Sum { temporality: i32, points: Vec<NumberPoint> },
    /// The attribute kinds of each point.
    Histogram { temporality: i32, points: Vec<Vec<Option<AttributeKind>>> },
    /// The attribute kinds of each point.
    ExponentialHistogram { temporality: i32, points: Vec<Vec<Option<AttributeKind>>> },
    Summary,
}

/// The error of a metric's data: for a sum the temporality is checked
/// before its points, for the histograms after their points; summary data
/// is unsupported; a metric without data converts to nothing.
pub open spec fn data_error(d: Option<MetricData>) -> Option<ConversionError> {
    match d {
        None => None,
        Some(MetricData::Gauge { points }) => first_error(points@, |p: NumberPoint| point_error(p)),
        Some(MetricData::Sum { temporality, points }) => match temporality_error(temporality) {
            Some(e) => Some(e),
            None => first_error(points@, |p: NumberPoint| point_error(p)),
        },
        Some(MetricData::Histogram { temporality, points }) => match first_error(
            points@,
            |a: Vec<Option<AttributeKind>>| attributes_error(a@),
        ) {
            Some(e) => Some(e),
            None => temporality_error(temporality),
        },
        Some(MetricData::ExponentialHistogram { temporality, points }) => match first_error(
            points@,
            |a: Vec<Option<AttributeKind>>| attributes_error(a@),
        ) {
            Some(e) => Some(e),
            None => temporality_error(temporality),
        },
        Some(MetricData::Summary) => Some(ConversionError::UnsupportedSummaryData),
    }
}

/// A scope's metrics: the scope's attribute kinds (`None` when the scope
/// itself is absent) and the data of each metric.
#[derive(Debug, Clone, PartialEq, Eq)]
pub struct ScopeData {
    pub attributes: Option<Vec<Option<AttributeKind>>>,
    pub metrics: Vec<Option<MetricData>>,
}

/// The error of a scope: its attributes first, then its metrics in order.
pub open spec fn scope_error(s: ScopeData) -> Option<ConversionError> {
    match match s.attributes {
        Some(a) => attributes_error(a@),
        None => None,
    } {
        Some(e) => Some(e),
        None => first_error(s.metrics@, |d: Option<MetricData>| data_error(d)),
    }
}

/// The error of a set of resource metrics: the resource's attributes
/// first, then each scope in order.
pub open spec fn resource_error(resource: Option<Seq<Option<AttributeKind>>>, scopes: Seq<ScopeData>) -> Option<
    ConversionError,
> {
    match match resource {
        Some(a) => attributes_error(a),
        None => None,
    } {
        Some(e) => Some(e),
        None => first_error(scopes, |s: ScopeData| scope_error(s)),
    }
}

/// The positions of the metrics that carry data, in order.
pub open spec fn kept_positions(ms: Seq<Option<MetricData>>) -> Seq<usize>
    decreases ms.len(),
{
    if ms.len() == 0 {
        Seq::empty()
    } else if ms.last() is Some {
        kept_positions(ms.drop_last()).push((ms.len() - 1) as usize)
    } else {
        kept_positions(ms.drop_last())
    }
}

fn attributes_check(a: &Vec<Option<AttributeKind>>) -> (res: Option<ConversionError>)
    ensures
        res == attributes_error(a@),
{
    let ghost f = |k: Option<AttributeKind>| attribute_error(k);
    let mut i: usize = 0;
    while i < a.len()
        invariant
            i <= a@.len(),
            f == (|k: Option<AttributeKind>| attribute_error(k)),
            first_error(a@.take(i as int), f) is None,
        decreases a.len() - i,
    {
        assert(a@.take(i + 1).drop_last() =~= a@.take(i as int));
        match attribute_kept(a[i]) {
            Err(e) => {
                proof {
                    lemma_first_error_prefix(a@, f, i + 1);
                }
                return Some(e);
            },
            Ok(_) => {},
        }
        i += 1;
    }
    assert(a@.take(a@.len() as int) =~= a@);
    None
}

fn points_check(ps: &Vec<NumberPoint>) -> (res: Option<ConversionError>)
    ensures
        res == first_error(ps@, |p: NumberPoint| point_error(p)),
{
    let ghost f = |p: NumberPoint| point_error(p);
    let mut i: usize = 0;
    while i < ps.len()
        invariant
            i <= ps@.len(),
            f == (|p: NumberPoint| point_error(p)),
            first_error(ps@.take(i as int), f) is None,
        decreases ps.len() - i,
    {
        assert(ps@.take(i + 1).drop_last() =~= ps@.take(i as int));
        let e = if !ps[i].has_value {
            Some(ConversionError::MissingValue)
        } else {
            attributes_check(&ps[i].attributes)
        };
        if let Some(e) = e {
            proof {
                lemma_first_error_prefix(ps@, f, i + 1);
            }
            return Some(e);
        }
        i += 1;
    }
    assert(ps@.take(ps@.len() as int) =~= ps@);
    None
}

fn point_attributes_check(ps: &Vec<Vec<Option<AttributeKind>>>) -> (res: Option<ConversionError>)
    ensures
        res == first_error(ps@, |a: Vec<Option<AttributeKind>>| attributes_error(a@)),
{
    let ghost f = |a: Vec<Option<AttributeKind>>| attributes_error(a@);
    let mut i: usize = 0;
    while i < ps.len()
        invariant
            i <= ps@.len(),
            f == (|a: Vec<Option<AttributeKind>>| attributes_error(a@)),
            first_error(ps@.take(i as int), f) is None,
        decreases ps.len() - i,
    {
        assert(ps@.take(i + 1).drop_last() =~= ps@.take(i as int));
        if let Some(e) = attributes_check(&ps[i]) {
            proof {
                lemma_first_error_prefix(ps@, f, i + 1);
            }
            return Some(e);
        }
        i += 1;
    }
    assert(ps@.take(ps@.len() as int) =~= ps@);
    None
}

fn temporality_check(code: i32) -> (res: Option<ConversionError>)
    ensures
        res == temporality_error(code),
{
    match to_temporality(code) {
        Ok(_) => None,
        Err(e) => Some(e),
    }
}

fn data_check(d: &Option<MetricData>) -> (res: Option<ConversionError>)
    ensures
        res == data_error(*d),
{
    match d {
        None => None,
        Some(MetricData::Gauge { points }) => points_check(points),
        Some(MetricData::Sum { temporality, points }) => match temporality_check(*temporality) {
            Some(e) => Some(e),
            None => points_check(points),
        },
        Some(MetricData::Histogram { temporality, points }) => match point_attributes_check(points) {
            Some(e) => Some(e),
            None => temporality_check(*temporality),
        },
        Some(MetricData::ExponentialHistogram { temporality, points }) => match point_attributes_check(points) {
            Some(e) => Some(e),
            None => temporality_check(*temporality),
        },
        Some(MetricData::Summary) => match metric_kept(Some(MetricKind::Summary)) {
            Err(e) => Some(e),
            Ok(_) => None,
        },
    }
}

fn scope_check(s: &ScopeData) -> (res: Option<ConversionError>)
    ensures
        res == scope_error(*s),
{
    let first = match &s.attributes {
        Some(a) => attributes_check(a),
        None => None,
    };
    if first.is_some() {
        return first;
    }
    let ghost f = |d: Option<MetricData>| data_error(d);
    let mut i: usize = 0;
    while i < s.metrics.len()
        invariant
            i <= s.metrics@.len(),
            f == (|d: Option<MetricData>| data_error(d)),
            first_error(s.metrics@.take(i as int), f) is None,
            (match s.attributes {
                Some(a) => attributes_error(a@),
                None => None,
            }) is None,
        decreases s.metrics.len() - i,
    {
        assert(s.metrics@.take(i + 1).drop_last() =~= s.metrics@.take(i as int));
        if let Some(e) = data_check(&s.metrics[i]) {
            proof {
                lemma_first_error_prefix(s.metrics@, f, i + 1);
            }
            return Some(e);
        }
        i += 1;
    }
    assert(s.metrics@.take(s.metrics@.len() as int) =~= s.metrics@);
    None
}

fn kept_of(ms: &Vec<Option<MetricData>>) -> (res: Vec<usize>)
    ensures
        res@ == kept_positions(ms@),
{
    let mut out: Vec<usize> = Vec::new();
    let mut i: usize = 0;
    while i < ms.len()
        invariant
            i <= ms@.len(),
            out@ == kept_positions(ms@.take(i as int)),
        decreases ms.len() - i,
    {
        assert(ms@.take(i + 1).drop_last() =~= ms@.take(i as int));
        if ms[i].is_some() {
            out.push(i);
        }
        i += 1;
    }
    assert(ms@.take(ms@.len() as int) =~= ms@);
    out
}

/// Checks a set of resource metrics for conversion to the SDK's types: the
/// first error in order (the resource's attributes, then each scope's
/// attributes and metrics), or, for each scope, the positions of the
/// metrics that are converted (those that carry data), in order.
pub fn check_resource_metrics(resource: &Option<Vec<Option<AttributeKind>>>, scopes: &Vec<ScopeData>) -> (res: Result<
    Vec<Vec<usize>>,
    ConversionError,
>)
    ensures
        match resource_error(
            match resource {
                Some(a) => Some(a@),
                None => None,
            },
            scopes@,
        ) {
            Some(e) => res == Err::<Vec<Vec<usize>>, ConversionError>(e),
            None => res matches Ok(kept) && kept@.len() == scopes@.len() && forall|j: int|
                0 <= j < scopes@.len() ==> #[trigger] kept@[j]@ == kept_positions(scopes@[j].metrics@),
        },
{
    let first = match resource {
        Some(a) => attributes_check(a),
        None => None,
    };
    if let Some(e) = first {
        return Err(e);
    }
    let ghost f = |s: ScopeData| scope_error(s);
    let mut kept: Vec<Vec<usize>> = Vec::new();
    let mut i: usize = 0;
    while i < scopes.len()
        invariant
            i <= scopes@.len(),
            f == (|s: ScopeData| scope_error(s)),
            first_error(scopes@.take(i as int), f) is None,
            (match resource {
                Some(a) => attributes_error(a@),
                None => None,
            }) is None,
            kept@.len() == i,
            forall|j: int| 0 <= j < i ==> #[trigger] kept@[j]@ == kept_positions(scopes@[j].metrics@),
        decreases scopes.len() - i,
    {
        assert(scopes@.take(i + 1).drop_last() =~= scopes@.take(i as int));
        if let Some(e) = scope_check(&scopes[i]) {
            proof {
                lemma_first_error_prefix(scopes@, f, i + 1);
            }
            return Err(e);
        }
        kept.push(kept_of(&scopes[i].metrics));
        i += 1;
    }
    assert(scopes@.take(scopes@.len() as int) =~= scopes@);
    Ok(kept)
}

} // verus!
