use feathergate::FeatherGateError;

#[test]
fn test_error_display() {
    let err = FeatherGateError::ConfigError("测试错误".to_string());
    assert_eq!(err.message(), "配置错误: 测试错误");

    let err = FeatherGateError::ModelNotFound("gpt-4".to_string());
    assert_eq!(err.message(), "模型未找到: gpt-4");

    let err = FeatherGateError::upstream(404, "Not Found".to_string());
    assert_eq!(err.message(), "上游 API 错误: 404 - Not Found");
}

#[test]
fn test_convenience_constructors() {
    let err = FeatherGateError::config("配置无效".to_string());
    assert!(matches!(err, FeatherGateError::ConfigError(_)));
    assert_eq!(err.message(), "配置错误: 配置无效");

    let err = FeatherGateError::internal("内部错误".to_string());
    assert!(matches!(err, FeatherGateError::InternalError(_)));
}

#[test]
fn test_status_code_mapping() {
    assert_eq!(
        FeatherGateError::ModelNotFound("m".to_string()).status_code(),
        404
    );
    assert_eq!(
        FeatherGateError::UnsupportedProvider("p".to_string()).status_code(),
        400
    );
    assert_eq!(
        FeatherGateError::upstream(429, "too many".to_string()).status_code(),
        429
    );
    assert_eq!(
        FeatherGateError::InvalidModelString("x".to_string()).status_code(),
        500
    );
    assert_eq!(
        FeatherGateError::config("c".to_string()).status_code(),
        500
    );
    assert_eq!(
        FeatherGateError::JsonError("j".to_string()).status_code(),
        500
    );
}
