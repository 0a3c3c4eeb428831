use ctty_rs::CttyError;
use ctty_rs::ctty_dev_from_raw;
use ctty_rs::path_for_device_name;

#[test]
fn zero_raw_value_means_no_ctty() {
    assert_eq!(ctty_dev_from_raw(0), Err(CttyError::NotFound));
}

#[test]
fn nonzero_raw_value_is_the_device_id() {
    assert_eq!(ctty_dev_from_raw(34816), Ok(34816));
}

#[test]
fn null_name_is_not_found() {
    assert_eq!(path_for_device_name(None), Err(CttyError::NotFound));
}

#[test]
fn sentinel_names_are_not_found() {
    assert_eq!(path_for_device_name(Some("?")), Err(CttyError::NotFound));
    assert_eq!(path_for_device_name(Some("#ttys003")), Err(CttyError::NotFound));
}

#[test]
fn base_name_gets_device_directory_prefix() {
    assert_eq!(path_for_device_name(Some("ttys003")), Ok(String::from("/dev/ttys003")));
}

#[test]
fn empty_name_yields_bare_prefix() {
    assert_eq!(path_for_device_name(Some("")), Ok(String::from("/dev/")));
}

#[test]
fn messages_describe_each_failure_kind() {
    assert_eq!(
        CttyError::NotFound.message(),
        "Controlling TTY for this process not found"
    );
    assert_eq!(
        CttyError::SystemDataParseFailure.message(),
        "System returned invalid data when looking up CTTY"
    );
    assert_eq!(
        CttyError::SystemPermissionFailure.message(),
        "Failed to request CTTY information from system"
    );
    assert_eq!(CttyError::IOError(String::from("boom")).message(), "boom");
}
