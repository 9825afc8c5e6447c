use spiceai::metric_kinds::{
    attribute_kept, check_resource_metrics, metric_kept, to_temporality, AttributeKind,
    ConversionError, MetricData, MetricKind, NumberPoint, ScopeData, Temporality,
};

#[test]
fn temporality_codes() {
    assert_eq!(to_temporality(1), Ok(Temporality::Delta));
    assert_eq!(to_temporality(2), Ok(Temporality::Cumulative));
    assert_eq!(to_temporality(0), Err(ConversionError::UnsupportedTemporality));
    assert_eq!(to_temporality(3), Err(ConversionError::UnsupportedTemporality));
}

#[test]
fn summary_data_is_unsupported() {
    assert_eq!(metric_kept(Some(MetricKind::Summary)), Err(ConversionError::UnsupportedSummaryData));
    assert_eq!(metric_kept(Some(MetricKind::Gauge)), Ok(true));
    assert_eq!(metric_kept(Some(MetricKind::ExponentialHistogram)), Ok(true));
    assert_eq!(metric_kept(None), Ok(false));
    assert_eq!(ConversionError::UnsupportedSummaryData.to_string(), "Unsupported summary data");
}

#[test]
fn attribute_values() {
    assert_eq!(attribute_kept(Some(AttributeKind::String)), Ok(true));
    assert_eq!(attribute_kept(Some(AttributeKind::Double)), Ok(true));
    assert_eq!(attribute_kept(None), Ok(false));
    assert_eq!(attribute_kept(Some(AttributeKind::Bytes)), Err(ConversionError::UnsupportedBytesValueAttributes));
    assert_eq!(attribute_kept(Some(AttributeKind::Kvlist)), Err(ConversionError::UnsupportedKvlistValueAttributes));
    assert_eq!(attribute_kept(Some(AttributeKind::Array)), Err(ConversionError::UnsupportedArrayValueAttributes));
    assert_eq!(ConversionError::UnsupportedArrayValueAttributes.to_string(), "Unsupported array value in attributes");
}

fn point(has_value: bool, attributes: Vec<Option<AttributeKind>>) -> NumberPoint {
    NumberPoint { has_value, attributes }
}

#[test]
fn resource_metrics_keep_metrics_with_data() {
    let scopes = vec![
        ScopeData {
            attributes: Some(vec![Some(AttributeKind::String), None]),
            metrics: vec![
                Some(MetricData::Gauge { points: vec![point(true, vec![Some(AttributeKind::Int)])] }),
                None,
                Some(MetricData::Sum { temporality: 2, points: vec![] }),
            ],
        },
        ScopeData { attributes: None, metrics: vec![] },
        ScopeData {
            attributes: None,
            metrics: vec![Some(MetricData::Histogram { temporality: 1, points: vec![vec![]] })],
        },
    ];
    assert_eq!(
        check_resource_metrics(&Some(vec![Some(AttributeKind::Bool)]), &scopes),
        Ok(vec![vec![0, 2], vec![], vec![0]])
    );
}

#[test]
fn resource_metrics_report_the_first_error() {
    let bad_resource = Some(vec![Some(AttributeKind::Bytes)]);
    let summary = vec![ScopeData { attributes: None, metrics: vec![Some(MetricData::Summary)] }];
    assert_eq!(
        check_resource_metrics(&bad_resource, &summary),
        Err(ConversionError::UnsupportedBytesValueAttributes)
    );
    assert_eq!(check_resource_metrics(&None, &summary), Err(ConversionError::UnsupportedSummaryData));
    // A sum's temporality is checked before its points.
    let sum = vec![ScopeData {
        attributes: None,
        metrics: vec![Some(MetricData::Sum { temporality: 0, points: vec![point(false, vec![])] })],
    }];
    assert_eq!(check_resource_metrics(&None, &sum), Err(ConversionError::UnsupportedTemporality));
    // A histogram's points are checked before its temporality.
    let hist = vec![ScopeData {
        attributes: None,
        metrics: vec![Some(MetricData::ExponentialHistogram {
            temporality: 0,
            points: vec![vec![Some(AttributeKind::Kvlist)]],
        })],
    }];
    assert_eq!(check_resource_metrics(&None, &hist), Err(ConversionError::UnsupportedKvlistValueAttributes));
    let gauge = vec![ScopeData {
        attributes: Some(vec![Some(AttributeKind::Array)]),
        metrics: vec![Some(MetricData::Gauge { points: vec![point(false, vec![])] })],
    }];
    assert_eq!(check_resource_metrics(&None, &gauge), Err(ConversionError::UnsupportedArrayValueAttributes));
    let missing = vec![ScopeData {
        attributes: None,
        metrics: vec![Some(MetricData::Gauge {
            points: vec![point(true, vec![]), point(false, vec![Some(AttributeKind::Bytes)])],
        })],
    }];
    assert_eq!(check_resource_metrics(&None, &missing), Err(ConversionError::MissingValue));
}
