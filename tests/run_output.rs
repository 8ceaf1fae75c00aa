use rhai_learning::sandbox::{console_text, error_value, log_path, OutputKind, OutputSink, RunResult};
use rhai_learning::value::Value;

#[test]
fn hello_scenario_has_no_output() {
    let result = RunResult::finish(OutputSink::new(), Ok(Value::Str("hello from rhai".to_string())));
    assert_eq!(result.stdout, "");
    assert_eq!(result.value.as_str().unwrap(), "hello from rhai");
    assert_eq!(result.log_file("hello"), None);
}

#[test]
fn unit_tests_scenario_output_and_log() {
    let mut sink = OutputSink::new();
    sink.emit(OutputKind::Debug, "\"starting tests\"");
    sink.emit(OutputKind::Debug, "\"math ok\"");
    sink.emit(OutputKind::Print, "x=2");
    let result = RunResult::finish(sink, Ok(Value::Bool(true)));
    assert_eq!(result.stdout, "DEBUG: \"starting tests\"\nDEBUG: \"math ok\"\nx=2\n");
    assert!(result.value.as_bool().unwrap());
    assert_eq!(result.log_file("unit-tests"), Some("logs/unit-tests.log".to_string()));
}

#[test]
fn custom_module_scenario() {
    let mut sink = OutputSink::new();
    sink.emit(OutputKind::Print, "square(4) = 16");
    let result = RunResult::finish(sink, Ok(Value::Int(16)));
    assert!(result.stdout.contains("square(4) = 16"));
    assert_eq!(result.value.as_int().unwrap(), 16);
}

#[test]
fn error_handling_scenario_map() {
    let caught = Value::Object(vec![
        ("msg".to_string(), Value::Str("division by zero".to_string())),
        ("value".to_string(), Value::Int(-1)),
    ]);
    let result = RunResult::finish(OutputSink::new(), Ok(caught));
    let msg = result.value.get("msg").unwrap().unwrap();
    assert_eq!(msg.as_str().unwrap(), "division by zero");
    let value = result.value.get("value").unwrap().unwrap();
    assert_eq!(value.as_int().unwrap(), -1);
    assert!(result.value.get("missing").unwrap().is_none());
}

#[test]
fn failed_run_value_is_error_text() {
    let mut sink = OutputSink::new();
    sink.emit(OutputKind::Print, "before");
    let result = RunResult::finish(sink, Err("Division by zero (line 2)".to_string()));
    assert_eq!(result.stdout, "before\n");
    assert_eq!(result.value.as_str().unwrap(), "Error: Division by zero (line 2)");
}

#[test]
fn error_value_prefix() {
    assert_eq!(error_value("").as_str().unwrap(), "Error: ");
}

#[test]
fn sink_text_in_emission_order() {
    let mut sink = OutputSink::new();
    assert_eq!(sink.text(), "");
    sink.emit(OutputKind::Print, "");
    sink.emit(OutputKind::Debug, "d");
    sink.emit(OutputKind::Print, "p");
    assert_eq!(sink.text(), "\nDEBUG: d\np\n");
    assert_eq!(sink.into_text(), "\nDEBUG: d\np\n");
}

#[test]
fn log_path_for_id() {
    assert_eq!(log_path("random"), "logs/random.log");
}

#[test]
fn console_text_joins_output_and_value() {
    assert_eq!(console_text("x=2\n", "true"), "x=2\n=> true");
    assert_eq!(console_text("", "16"), "=> 16");
}
