//! The daemon's core: its configuration, the bar it keeps, the status
//! scripts it runs, and how its command line becomes a configuration.

use vstd::prelude::*;
use crate::command::MandwmCommand;
use crate::error::{MandwmError, MandwmErrorLevel};
use crate::segments::{appended_first, appended_last, set_primary, with_primary};

verus! {

/// Where an appended message goes in the bar.
#[derive(Debug, Clone, Copy, PartialEq, Eq, Structural)]
pub enum AppendTo {
    First,
    Next,
    Last,
    Shortest,
}

/// How the daemon was started: the X display it writes the bar to, and
/// whether it prints to standard output instead.
#[derive(Debug, Clone, Copy)]
pub struct MandwmConfig {
    pub display_var: &'static str,
    pub use_stdout: bool,
}

impl Default for MandwmConfig {
    /// No display, and the bar goes to the X root window.
    fn default() -> (config: Self)
        ensures
            config.display_var@ == ""@,
            !config.use_stdout,
    {
        MandwmConfig { use_stdout: false, display_var: "" }
    }
}

impl MandwmConfig {
    /// The configuration as text: `DISPLAY: ` followed by the display.
    pub fn to_string(&self) -> (text: String)
        ensures
            text@ == "DISPLAY: "@ + self.display_var@,
    {
        let mut text = String::from_str("DISPLAY: ");
        text.append(self.display_var);
        text
    }
}

/// The name of the X display to open: none when `display_var` is empty
/// (Xlib then falls back to the `DISPLAY` variable), else `display_var`.
pub fn display_name(display_var: &str) -> (name: Option<String>)
    ensures
        display_var@.len() == 0 ==> name is None,
        display_var@.len() != 0 ==> (name matches Some(n) && n@ == display_var@),
{
    if display_var.is_empty() {
        None
    } else {
        Some(display_var.to_owned())
    }
}

/// Whether a command-line argument asks for the bar on standard output.
pub open spec fn is_stdout_flag(arg: Seq<char>) -> bool {
    arg == "--stdout"@ || arg == "-s"@
}

/// Whether some argument in `args` asks for standard output.
pub open spec fn asks_for_stdout(args: Seq<String>) -> bool {
    exists|i: int| 0 <= i < args.len() && is_stdout_flag(#[trigger] args[i]@)
}

/// The configuration that the daemon's command line and the value of the
/// `DISPLAY` variable give: an error when no display is set; else that
/// display, with output to standard output when any argument is `--stdout`
/// or `-s`.
pub fn mandwm_handle_args(display: &'static str, args: &Vec<String>) -> (r: Result<MandwmConfig, MandwmError>)
    ensures
        r is Err <==> display@.len() == 0,
        r matches Err(e) ==> e.spec_message() == "DISPLAY variable not set"@
            && e.spec_level() == MandwmErrorLevel::CRITICAL,
        r matches Ok(config) ==> config.display_var@ == display@
            && config.use_stdout == asks_for_stdout(args@),
{
    let mut config = MandwmConfig { display_var: "", use_stdout: false };
    if display.is_empty() {
        return Err(MandwmError::critical(String::from_str("DISPLAY variable not set")));
    }
    config.display_var = display;
    let long_flag = String::from_str("--stdout");
    let short_flag = String::from_str("-s");
    let n = args.len();
    let mut i: usize = 0;
    while i < n
        invariant
            n == args@.len(),
            i <= n,
            long_flag@ == "--stdout"@,
            short_flag@ == "-s"@,
            config.display_var@ == display@,
            config.use_stdout == exists|j: int| 0 <= j < i && is_stdout_flag(#[trigger] args@[j]@),
        decreases n - i,
    {
        let arg = &args[i];
        if *arg == long_flag || *arg == short_flag {
            config.use_stdout = true;
        }
        i = i + 1;
    }
    Ok(config)
}

/// The daemon: its configuration, the bar it shows, and its status scripts.
pub struct MandwmCore {
    config: MandwmConfig,
    /// The segments of the bar, first to last.
    dwm_bar_string: Vec<String>,
    /// The status scripts, in the order they run.
    shell_scripts: Vec<MandwmCommand>,
    /// What stands between the outputs of two scripts.
    delimiter: String,
    /// Whether the main loop is running.
    is_running: bool,
    /// Whether the daemon has been asked to shut down.
    should_close: bool,
    /// The longest text, in characters, that the daemon sends to the X root
    /// window.
    max_length: usize,
}

impl Default for MandwmCore {
    /// No scripts, an empty bar, `" | "` between outputs, not running, and
    /// at most fifty characters for the root window.
    fn default() -> (core: Self)
        ensures
            core.config().display_var@ == ""@,
            !core.config().use_stdout,
            core.bar()@ == Seq::<String>::empty(),
            core.scripts()@ == Seq::<MandwmCommand>::empty(),
            core.spec_delimiter()@ == " | "@,
            !core.spec_is_running(),
            !core.spec_should_close(),
            core.spec_max_length() == 50,
    {
        MandwmCore {
            config: MandwmConfig::default(),
            dwm_bar_string: Vec::new(),
            delimiter: String::from_str(" | "),
            shell_scripts: Vec::new(),
            is_running: false,
            should_close: false,
            max_length: 50,
        }
    }
}

/// Whether `scripts` are the scripts named by `entries`, in that order, all
/// from the directory `dir`.
pub open spec fn scripts_from(scripts: Seq<MandwmCommand>, dir: Seq<char>, entries: Seq<String>) -> bool {
    &&& scripts.len() == entries.len()
    &&& forall|i: int| 0 <= i < scripts.len() ==> {
        &&& (#[trigger] scripts[i]).name == entries[i]
        &&& scripts[i].path@ == dir
    }
}

impl MandwmCore {
    pub closed spec fn config(&self) -> MandwmConfig {
        self.config
    }

    pub closed spec fn bar(&self) -> Vec<String> {
        self.dwm_bar_string
    }

    pub closed spec fn scripts(&self) -> Vec<MandwmCommand> {
        self.shell_scripts
    }

    pub closed spec fn spec_delimiter(&self) -> String {
        self.delimiter
    }

    pub closed spec fn spec_is_running(&self) -> bool {
        self.is_running
    }

    pub closed spec fn spec_should_close(&self) -> bool {
        self.should_close
    }

    pub closed spec fn spec_max_length(&self) -> usize {
        self.max_length
    }

    /// Whether two cores differ in nothing but their bar.
    pub open spec fn same_but_bar(&self, other: &Self) -> bool {
        &&& self.config() == other.config()
        &&& self.scripts() == other.scripts()
        &&& self.spec_delimiter() == other.spec_delimiter()
        &&& self.spec_is_running() == other.spec_is_running()
        &&& self.spec_should_close() == other.spec_should_close()
        &&& self.spec_max_length() == other.spec_max_length()
    }

    /// A daemon with default settings whose status scripts are the entries
    /// of the script directory `dir`, in the order given.
    pub fn setup_mandwm(dir: &str, entries: Vec<String>) -> (r: Result<MandwmCore, MandwmError>)
        ensures
            r matches Ok(core) && {
                &&& scripts_from(core.scripts()@, dir@, entries@)
                &&& core.bar()@ == Seq::<String>::empty()
                &&& core.spec_delimiter()@ == " | "@
                &&& core.config().display_var@ == ""@
                &&& !core.config().use_stdout
                &&& !core.spec_is_running()
                &&& !core.spec_should_close()
                &&& core.spec_max_length() == 50
            },
    {
        let mut mandwm = MandwmCore::default();
        mandwm.parse_shell_scripts(dir, entries);
        Ok(mandwm)
    }

    /// Replaces the status scripts by one for each entry of the script
    /// directory `dir`.
    fn parse_shell_scripts(&mut self, dir: &str, entries: Vec<String>)
        ensures
            scripts_from(final(self).scripts()@, dir@, entries@),
            final(self).config() == old(self).config(),
            final(self).bar() == old(self).bar(),
            final(self).spec_delimiter() == old(self).spec_delimiter(),
            final(self).spec_is_running() == old(self).spec_is_running(),
            final(self).spec_should_close() == old(self).spec_should_close(),
            final(self).spec_max_length() == old(self).spec_max_length(),
    {
        let mut scripts: Vec<MandwmCommand> = Vec::new();
        let n = entries.len();
        let mut i: usize = 0;
        while i < n
            invariant
                n == entries@.len(),
                i <= n,
                scripts_from(scripts@, dir@, entries@.subrange(0, i as int)),
            decreases n - i,
        {
            let command = MandwmCommand { name: entries[i].clone(), path: dir.to_owned() };
            scripts.push(command);
            i = i + 1;
        }
        assert(entries@.subrange(0, n as int) =~= entries@);
        self.shell_scripts = scripts;
    }

    /// What stands between the outputs of two scripts.
    pub fn delimiter(&self) -> (d: &String)
        ensures
            d == self.spec_delimiter(),
    {
        &self.delimiter
    }

    /// The daemon's configuration.
    pub fn get_config(&self) -> (config: MandwmConfig)
        ensures
            config == self.config(),
    {
        self.config
    }

    /// The segments of the bar, first to last.
    pub fn bar_strings(&self) -> (bar: &Vec<String>)
        ensures
            bar == self.bar(),
    {
        &self.dwm_bar_string
    }

    /// The status scripts, in the order they run.
    pub fn shell_scripts(&self) -> (scripts: &Vec<MandwmCommand>)
        ensures
            scripts == self.scripts(),
    {
        &self.shell_scripts
    }

    /// Whether the main loop is running.
    pub fn is_running(&self) -> (b: bool)
        ensures
            b == self.spec_is_running(),
    {
        self.is_running
    }

    /// Whether the daemon has been asked to shut down.
    pub fn should_close(&self) -> (b: bool)
        ensures
            b == self.spec_should_close(),
    {
        self.should_close
    }

    /// The longest text, in characters, that the daemon sends to the X root
    /// window.
    pub fn max_length(&self) -> (n: usize)
        ensures
            n == self.spec_max_length(),
    {
        self.max_length
    }

    /// Replaces what stands between the outputs of two scripts.
    pub fn set_delimiter(&mut self, delimiter: String)
        ensures
            final(self).spec_delimiter() == delimiter,
            final(self).config() == old(self).config(),
            final(self).bar() == old(self).bar(),
            final(self).scripts() == old(self).scripts(),
            final(self).spec_is_running() == old(self).spec_is_running(),
            final(self).spec_should_close() == old(self).spec_should_close(),
            final(self).spec_max_length() == old(self).spec_max_length(),
    {
        self.delimiter = delimiter;
    }

    /// Makes `message` the first segment of the bar.
    pub fn set_primary_string(&mut self, message: String)
        ensures
            final(self).bar()@ == with_primary(old(self).bar()@, message),
            final(self).same_but_bar(old(self)),
    {
        set_primary(&mut self.dwm_bar_string, message);
    }

    /// Puts `message` in front of the bar or behind it. Placing it after
    /// the primary string or on the shortest segment is not offered.
    pub fn append(&mut self, place: AppendTo, message: String)
        requires
            place == AppendTo::First || place == AppendTo::Last,
        ensures
            place == AppendTo::First ==> final(self).bar()@ == appended_first(old(self).bar()@, message),
            place == AppendTo::Last ==> final(self).bar()@ == appended_last(old(self).bar()@, message),
            final(self).same_but_bar(old(self)),
    {
        match place {
            AppendTo::First => {
                self.dwm_bar_string.insert(0, message);
            },
            _ => {
                self.dwm_bar_string.push(message);
            },
        }
    }
}

} // verus!
