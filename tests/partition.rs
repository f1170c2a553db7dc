use hudi_partition::error::PartitionError;
use hudi_partition::filter::{Filter, PartitionField, PartitionFilter, PartitionSchema};
use hudi_partition::operator::HudiOperator;
use hudi_partition::pruner::PartitionPruner;
use hudi_partition::value::{PartitionType, PartitionValue};

fn create_test_schema() -> PartitionSchema {
    PartitionSchema::new(vec![
        PartitionField::new("date", PartitionType::Date32),
        PartitionField::new("category", PartitionType::Utf8),
        PartitionField::new("count", PartitionType::Int32),
    ])
}

fn example_pruner(is_hive_style: bool, is_url_encoded: bool) -> PartitionPruner {
    let schema = create_test_schema();
    let filter_gt_date = Filter::try_from(("date", ">", "2023-01-01")).unwrap();
    let filter_eq_a = Filter::try_from(("category", "=", "A")).unwrap();
    let filter_lte_100 = Filter::try_from(("count", "<=", "100")).unwrap();
    PartitionPruner::new(
        &[filter_gt_date, filter_eq_a, filter_lte_100],
        &schema,
        is_hive_style,
        is_url_encoded,
    )
    .unwrap()
}

#[test]
fn test_partition_pruner_new() {
    let schema = create_test_schema();

    let filter_gt_date = Filter::try_from(("date", ">", "2023-01-01")).unwrap();
    let filter_eq_a = Filter::try_from(("category", "=", "A")).unwrap();

    let pruner = PartitionPruner::new(&[filter_gt_date, filter_eq_a], &schema, true, false);
    assert!(pruner.is_ok());

    let pruner = pruner.unwrap();
    assert_eq!(pruner.and_filters.len(), 2);
    assert!(pruner.is_hive_style);
    assert!(!pruner.is_url_encoded);
}

#[test]
fn test_partition_pruner_empty() {
    let pruner = PartitionPruner::empty();
    assert!(pruner.is_empty());
    assert!(!pruner.is_hive_style);
    assert!(!pruner.is_url_encoded);
}

#[test]
fn test_partition_pruner_is_empty() {
    let schema = create_test_schema();

    let pruner_empty = PartitionPruner::new(&[], &schema, false, false).unwrap();
    assert!(pruner_empty.is_empty());

    let filter_gt_date = Filter::try_from(("date", ">", "2023-01-01")).unwrap();
    let pruner_non_empty = PartitionPruner::new(&[filter_gt_date], &schema, false, false).unwrap();
    assert!(!pruner_non_empty.is_empty());
}

#[test]
fn test_partition_pruner_should_include() {
    let pruner = example_pruner(true, false);

    assert!(pruner.should_include("date=2023-02-01/category=A/count=10"));
    assert!(pruner.should_include("date=2023-02-01/category=A/count=100"));
    assert!(!pruner.should_include("date=2022-12-31/category=A/count=10"));
    assert!(!pruner.should_include("date=2023-02-01/category=B/count=10"));
}

#[test]
fn test_partition_pruner_parse_segments() {
    let schema = create_test_schema();
    let pruner = PartitionPruner::new(&[], &schema, true, false).unwrap();

    let segments = pruner
        .parse_segments("date=2023-02-01/category=A/count=10")
        .unwrap();
    assert_eq!(segments.len(), 3);
    assert!(segments.contains_key("date"));
    assert!(segments.contains_key("category"));
    assert!(segments.contains_key("count"));
}

#[test]
fn test_partition_pruner_url_encoded() {
    let schema = create_test_schema();
    let pruner = PartitionPruner::new(&[], &schema, true, true).unwrap();

    let segments = pruner
        .parse_segments("date%3D2023-02-01%2Fcategory%3DA%2Fcount%3D10")
        .unwrap();
    assert_eq!(segments.len(), 3);
    assert!(segments.contains_key("date"));
    assert!(segments.contains_key("category"));
    assert!(segments.contains_key("count"));
}

#[test]
fn test_partition_pruner_invalid_path() {
    let schema = create_test_schema();
    let pruner = PartitionPruner::new(&[], &schema, true, false).unwrap();

    let result = pruner.parse_segments("date=2023-02-01/category=A/count=10/extra");
    assert!(matches!(result.unwrap_err(), PartitionError::InvalidPartitionPath(_)));

    let result = pruner.parse_segments("date=2023-02-01/category=A/10");
    assert!(matches!(result.unwrap_err(), PartitionError::InvalidPartitionPath(_)));

    let result = pruner.parse_segments("date=2023-02-01/category=A/non_exist_field=10");
    assert!(matches!(result.unwrap_err(), PartitionError::InvalidPartitionPath(_)));
}

#[test]
fn test_partition_filter_try_from_valid() {
    let schema = create_test_schema();
    let filter = Filter {
        field_name: "date".to_string(),
        operator: HudiOperator::Eq,
        value: "2023-01-01".to_string(),
    };

    let partition_filter = PartitionFilter::try_from((filter, &schema)).unwrap();
    assert_eq!(partition_filter.field.name(), "date");
    assert_eq!(partition_filter.operator, HudiOperator::Eq);

    // 2023-01-01 is day 19358 after 1970-01-01.
    assert!(matches!(partition_filter.value, PartitionValue::Date32(19358)));
}

#[test]
fn test_partition_filter_try_from_invalid_field() {
    let schema = create_test_schema();
    let filter = Filter {
        field_name: "invalid_field".to_string(),
        operator: HudiOperator::Eq,
        value: "2023-01-01".to_string(),
    };
    let result = PartitionFilter::try_from((filter, &schema));
    assert!(result.is_err());
    assert!(result
        .unwrap_err()
        .to_string()
        .contains("Partition path should be in schema."));
}

#[test]
fn test_partition_filter_try_from_invalid_value() {
    let schema = create_test_schema();
    let filter = Filter {
        field_name: "count".to_string(),
        operator: HudiOperator::Eq,
        value: "not_a_number".to_string(),
    };
    let result = PartitionFilter::try_from((filter, &schema));
    assert!(result.is_err());
}

#[test]
fn test_partition_filter_try_from_all_operators() {
    let schema = create_test_schema();
    for (op, _) in HudiOperator::token_op_pairs() {
        let filter = Filter {
            field_name: "count".to_string(),
            operator: HudiOperator::from_str(op).unwrap(),
            value: "5".to_string(),
        };
        let partition_filter = PartitionFilter::try_from((filter, &schema));
        let filter = partition_filter.unwrap();
        assert_eq!(filter.field.name(), "count");
        assert_eq!(filter.operator, HudiOperator::from_str(op).unwrap());
    }
}
