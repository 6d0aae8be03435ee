use async_snmp::error::ErrorStatus;
use async_snmp::handler::{GetNextResult, GetResult, Response, SetResult};
use async_snmp::oid::Oid;
use async_snmp::value::Value;
use async_snmp::varbind::VarBind;

#[test]
fn test_response_success() {
    let response = Response::success(vec![VarBind::new(Oid::from_slice(&[1, 3, 6, 1]), Value::Integer(1))]);
    assert_eq!(response.error_status, ErrorStatus::NoError);
    assert_eq!(response.error_index, 0);
    assert_eq!(response.varbinds.len(), 1);
}

#[test]
fn test_response_error() {
    let response = Response::error(
        ErrorStatus::NoSuchName,
        1,
        vec![VarBind::new(Oid::from_slice(&[1, 3, 6, 1]), Value::Null)],
    );
    assert_eq!(response.error_status, ErrorStatus::NoSuchName);
    assert_eq!(response.error_index, 1);
}

#[test]
fn test_get_result_from_option() {
    let result = GetResult::from_option(Some(Value::Integer(42)));
    assert!(matches!(result, GetResult::Value(Value::Integer(42))));

    let result = GetResult::from_option(None);
    assert!(matches!(result, GetResult::NoSuchObject));
}

#[test]
fn test_get_result_from_value() {
    let result: GetResult = Value::Integer(42).into();
    assert!(matches!(result, GetResult::Value(Value::Integer(42))));
}

#[test]
fn test_get_next_result_from_option() {
    let vb = VarBind::new(Oid::from_slice(&[1, 3, 6, 1]), Value::Integer(42));
    let result = GetNextResult::from_option(Some(vb.clone()));
    assert!(result.is_value());
    assert_eq!(result.into_option(), Some(vb));

    let result = GetNextResult::from_option(None);
    assert!(result.is_end_of_mib_view());
    assert_eq!(result.into_option(), None);
}

#[test]
fn test_get_next_result_from_varbind() {
    let vb = VarBind::new(Oid::from_slice(&[1, 3, 6, 1]), Value::Integer(42));
    let result: GetNextResult = vb.clone().into();
    assert!(result.is_value());
    if let GetNextResult::Value(inner) = result {
        assert_eq!(inner.oid, Oid::from_slice(&[1, 3, 6, 1]));
    }
}

#[test]
fn test_set_result_to_error_status() {
    assert_eq!(SetResult::Success.to_error_status(), ErrorStatus::NoError);
    assert_eq!(SetResult::NoAccess.to_error_status(), ErrorStatus::NoAccess);
    assert_eq!(
        SetResult::NotWritable.to_error_status(),
        ErrorStatus::NotWritable
    );
    assert_eq!(
        SetResult::WrongType.to_error_status(),
        ErrorStatus::WrongType
    );
    assert_eq!(
        SetResult::CommitFailed.to_error_status(),
        ErrorStatus::CommitFailed
    );
}

#[test]
fn test_set_result_is_ok() {
    assert!(SetResult::Success.is_ok());
    assert!(!SetResult::NoAccess.is_ok());
    assert!(!SetResult::NotWritable.is_ok());
}

