use hudi_partition::error::PartitionError;
use hudi_partition::operator::HudiOperator;

#[test]
fn test_operator_from_str() {
    assert_eq!(HudiOperator::from_str("=").unwrap(), HudiOperator::Eq);
    assert_eq!(HudiOperator::from_str("!=").unwrap(), HudiOperator::Ne);
    assert_eq!(HudiOperator::from_str("<").unwrap(), HudiOperator::Lt);
    assert_eq!(HudiOperator::from_str("<=").unwrap(), HudiOperator::Lte);
    assert_eq!(HudiOperator::from_str(">").unwrap(), HudiOperator::Gt);
    assert_eq!(HudiOperator::from_str(">=").unwrap(), HudiOperator::Gte);
    assert!(HudiOperator::from_str("??").is_err());
}

#[test]
fn operator_tokens_round_trip() {
    for (token, op) in HudiOperator::token_op_pairs() {
        let parsed = HudiOperator::from_str(token).unwrap();
        assert_eq!(parsed, op);
        assert_eq!(parsed.to_string(), token);
        assert_eq!(parsed.as_str(), token);
    }
}

#[test]
fn operator_unknown_token_is_unsupported() {
    let err = HudiOperator::from_str("??").unwrap_err();
    assert!(matches!(err, PartitionError::UnsupportedOperator(_)));
    assert!(err.to_string().contains("??"));
    assert!(HudiOperator::from_str("").is_err());
    assert!(HudiOperator::from_str("==").is_err());
    assert!(HudiOperator::from_str(" =").is_err());
    assert!(HudiOperator::from_str("EQ").is_err());
}
