use mandwm::api::{dbus_connect_error, dbus_release_name_error, dbus_request_name_error, primary_string_notice, setup_mandwm, AppendTo, MandwmCore, DBUS_NAME};
use mandwm::error::{MandwmError, MandwmErrorLevel};

#[test]
fn error_constructors_keep_message_and_level() {
    let c = MandwmError::critical(String::from("boom"));
    assert_eq!(c.message(), "boom");
    assert_eq!(c.level(), MandwmErrorLevel::CRITICAL);
    let w = MandwmError::warn(String::from("careful"));
    assert_eq!(w.message(), "careful");
    assert_eq!(w.level(), MandwmErrorLevel::WARN);
    let d = MandwmError::debug(String::new());
    assert_eq!(d.message(), "");
    assert_eq!(d.level(), MandwmErrorLevel::DEBUG);
}

#[test]
fn client_core_defaults() {
    let core = MandwmCore::default();
    assert!(core.dwm_bar_string.is_empty());
    assert_eq!(core.delimiter, " | ");
}

#[test]
fn client_setup_succeeds_with_default() {
    let core = setup_mandwm().unwrap();
    assert!(core.dwm_bar_string.is_empty());
    assert_eq!(core.delimiter, " | ");
}

#[test]
fn client_set_delimiter_replaces_only_delimiter() {
    let mut core = MandwmCore::default();
    core.set_primary_string(String::from("x"));
    let core = core.set_delimiter(String::from(", "));
    assert_eq!(core.delimiter, ", ");
    assert_eq!(core.dwm_bar_string, vec![String::from("x")]);
}

#[test]
fn client_primary_string_on_empty_and_full_bar() {
    let mut core = MandwmCore::default();
    core.set_primary_string(String::from("first"));
    assert_eq!(core.dwm_bar_string, vec![String::from("first")]);
    core.dwm_bar_string.push(String::from("second"));
    core.set_primary_string(String::from("again"));
    assert_eq!(core.dwm_bar_string, vec![String::from("again"), String::from("second")]);
    core.set_primary_string(String::from("last"));
    assert_eq!(core.dwm_bar_string, vec![String::from("last"), String::from("second")]);
}

#[test]
fn client_append_leaves_bar_alone() {
    let mut core = MandwmCore::default();
    core.set_primary_string(String::from("p"));
    core.append(AppendTo::FIRST, String::from("a"));
    core.append(AppendTo::NEXT, String::from("b"));
    core.append(AppendTo::LAST, String::from("c"));
    core.append(AppendTo::SHORTEST, String::from("d"));
    assert_eq!(core.dwm_bar_string, vec![String::from("p")]);
    assert_eq!(core.delimiter, " | ");
}

#[test]
fn primary_notice_names_the_bus() {
    assert_eq!(DBUS_NAME, "org.gale.mandwm");
    assert_eq!(primary_string_notice("hello"), "org.gale.mandwm: hello");
    assert_eq!(primary_string_notice(""), "org.gale.mandwm: ");
}

#[test]
fn dbus_error_messages() {
    let e = dbus_connect_error("no bus");
    assert_eq!(e.message(), "Could not connect to dbus. Error: no bus");
    assert_eq!(e.level(), MandwmErrorLevel::CRITICAL);
    let e = dbus_request_name_error("taken");
    assert_eq!(e.message(), "Could not request name \"org.gale.mandwm\" from dbus. ERROR: taken");
    assert_eq!(e.level(), MandwmErrorLevel::CRITICAL);
    let e = dbus_release_name_error("gone");
    assert_eq!(e.message(), "Could not release name of org.gale.mandwm. ERROR: gone");
    assert_eq!(e.level(), MandwmErrorLevel::WARN);
}
