use mandwm::daemon::{display_name, mandwm_handle_args, AppendTo, MandwmConfig, MandwmCore};
use mandwm::error::MandwmErrorLevel;

fn strings(items: &[&str]) -> Vec<String> {
    items.iter().map(|s| s.to_string()).collect()
}

#[test]
fn daemon_defaults() {
    let core = MandwmCore::default();
    assert!(core.bar_strings().is_empty());
    assert!(core.shell_scripts().is_empty());
    assert_eq!(core.delimiter(), " | ");
    assert!(!core.is_running());
    assert!(!core.should_close());
    assert_eq!(core.max_length(), 50);
    assert_eq!(core.get_config().display_var, "");
    assert!(!core.get_config().use_stdout);
}

#[test]
fn config_default_and_text() {
    let config = MandwmConfig::default();
    assert_eq!(config.display_var, "");
    assert!(!config.use_stdout);
    assert_eq!(config.to_string(), "DISPLAY: ");
    let config = MandwmConfig { display_var: ":1", use_stdout: true };
    assert_eq!(config.to_string(), "DISPLAY: :1");
}

#[test]
fn handle_args_without_display_is_critical() {
    let err = mandwm_handle_args("", &strings(&["mandwm", "--stdout"])).unwrap_err();
    assert_eq!(err.message(), "DISPLAY variable not set");
    assert_eq!(err.level(), MandwmErrorLevel::CRITICAL);
}

#[test]
fn handle_args_reads_stdout_flags() {
    let config = mandwm_handle_args(":0", &strings(&["mandwm"])).unwrap();
    assert_eq!(config.display_var, ":0");
    assert!(!config.use_stdout);
    let config = mandwm_handle_args(":0", &strings(&["mandwm", "--stdout"])).unwrap();
    assert!(config.use_stdout);
    let config = mandwm_handle_args(":0", &strings(&["mandwm", "-s", "other"])).unwrap();
    assert!(config.use_stdout);
    let config = mandwm_handle_args(":0", &strings(&["mandwm", "--std", "-S", "s"])).unwrap();
    assert!(!config.use_stdout);
    let config = mandwm_handle_args(":0", &Vec::new()).unwrap();
    assert!(!config.use_stdout);
}

#[test]
fn setup_makes_one_script_per_entry() {
    let core = MandwmCore::setup_mandwm("/etc/mandwm/", strings(&["/etc/mandwm/a.sh", "/etc/mandwm/b.sh"])).unwrap();
    let scripts = core.shell_scripts();
    assert_eq!(scripts.len(), 2);
    assert_eq!(scripts[0].name, "/etc/mandwm/a.sh");
    assert_eq!(scripts[1].name, "/etc/mandwm/b.sh");
    assert_eq!(scripts[0].path, "/etc/mandwm/");
    assert_eq!(scripts[1].path, "/etc/mandwm/");
    assert!(core.bar_strings().is_empty());
    assert_eq!(core.delimiter(), " | ");
    assert_eq!(core.max_length(), 50);
}

#[test]
fn setup_without_scripts() {
    let core = MandwmCore::setup_mandwm("dir", Vec::new()).unwrap();
    assert!(core.shell_scripts().is_empty());
}

#[test]
fn daemon_primary_then_append() {
    let mut core = MandwmCore::default();
    core.set_primary_string(String::from("By default, mandwm only displays time and date."));
    core.append(AppendTo::First, String::from("This is appended to the first string."));
    assert_eq!(
        core.bar_strings(),
        &strings(&["This is appended to the first string.", "By default, mandwm only displays time and date."])
    );
    core.append(AppendTo::Last, String::from("tail"));
    assert_eq!(core.bar_strings().len(), 3);
    assert_eq!(core.bar_strings()[2], "tail");
    core.set_primary_string(String::from("new"));
    assert_eq!(core.bar_strings()[0], "new");
    assert_eq!(core.bar_strings()[1], "By default, mandwm only displays time and date.");
    assert_eq!(core.bar_strings().len(), 3);
}

#[test]
fn daemon_set_delimiter() {
    let mut core = MandwmCore::default();
    core.set_delimiter(String::from(" :: "));
    assert_eq!(core.delimiter(), " :: ");
    assert!(core.bar_strings().is_empty());
}

#[test]
fn display_name_of_empty_is_none() {
    assert_eq!(display_name(""), None);
    assert_eq!(display_name(":1"), Some(String::from(":1")));
}
