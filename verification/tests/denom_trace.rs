use crosschain_registry::DenomTrace;
use crosschain_registry::StdError;
use crosschain_registry::query_denom_trace;

#[test]
fn test_query_denom_trace_extracts_base_denom() {
    let trace = DenomTrace {
        path: "transfer/channel-0".to_string(),
        base_denom: "uatom".to_string(),
    };
    let result = query_denom_trace(Some(trace));
    assert_eq!(result.unwrap(), "uatom");
}

#[test]
fn test_query_denom_trace_fail_no_record() {
    let result = query_denom_trace(None);
    let expected_error = StdError::GenericErr {
        msg: "No denom trace found".to_string(),
    };
    assert_eq!(result.unwrap_err(), expected_error);
}
