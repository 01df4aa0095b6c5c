use sync_hub::host::IntegerParameter;
use sync_hub::host::ModuleParameter;
use sync_hub::host::ParameterKind;
use sync_hub::host::StrExt;
use sync_hub::host::TextParameter;
use sync_hub::host::is_worker_proc;
use sync_hub::host::str_;

#[test]
fn host_string_carries_its_text() {
    let s = str_::new(String::from("200 OK"));
    assert_eq!(s.as_str(), "200 OK");

    let converted = String::from("X-Rust").as_opensips_str();
    assert_eq!(converted.as_str(), "X-Rust");
}

#[test]
fn integer_parameter_treats_zero_as_unset() {
    assert_eq!(IntegerParameter::new(42).get_value(), Some(42));
    assert_eq!(IntegerParameter::new(-1).get_value(), Some(-1));
    assert_eq!(IntegerParameter::new(0).get_value(), None);
}

#[test]
fn text_parameter_reports_what_the_host_set() {
    let set = TextParameter::new(Some(String::from("a key")));
    assert_eq!(set.get_value(), Some(&String::from("a key")));
    let unset = TextParameter::new(None);
    assert!(unset.get_value().is_none());
}

#[test]
fn parameter_kinds_register_correctly() {
    assert!(matches!(
        IntegerParameter::new(1).kind(),
        ParameterKind::Integer
    ));
    assert!(matches!(
        TextParameter::new(None).kind(),
        ParameterKind::Text
    ));
}

#[test]
fn worker_ranks_start_at_one() {
    assert!(is_worker_proc(1));
    assert!(is_worker_proc(7));
    assert!(!is_worker_proc(0));
    assert!(!is_worker_proc(-2));
}
