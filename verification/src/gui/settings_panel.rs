//! The settings panel's printer management: which system printer the
//! emulator installs on each platform, and the commands that install,
//! remove and look it up. Running them and drawing the panel is the GUI's
//! part.

use vstd::prelude::*;

verus! {

/// The operating systems the panel knows how to install a printer on.
#[derive(Debug, Clone, Copy, PartialEq, Eq)]
pub enum Platform {
    Windows,
    Linux,
    MacOs,
    Other,
}

/// The platform that `std::env::consts::OS` names.
pub open spec fn platform_named(os: Seq<char>) -> Platform {
    if os == "windows"@ {
        Platform::Windows
    } else if os == "linux"@ {
        Platform::Linux
    } else if os == "macos"@ {
        Platform::MacOs
    } else {
        Platform::Other
    }
}

/// Whether two strings hold the same characters.
fn str_equal(a: &str, b: &str) -> (equal: bool)
    ensures
        equal == (a@ == b@),
{
    let n = a.unicode_len();
    if n != b.unicode_len() {
        return false;
    }
    let mut i: usize = 0;
    while i < n
        invariant
            n == a@.len(),
            n == b@.len(),
            i <= n,
            forall|k: int| 0 <= k < i ==> a@[k] == b@[k],
        decreases n - i,
    {
        if a.get_char(i) != b.get_char(i) {
            return false;
        }
        i = i + 1;
    }
    assert(a@ =~= b@);
    true
}

/// The platform that an operating-system name (as `std::env::consts::OS`
/// gives it) stands for.
pub fn platform_from_os(os: &str) -> (platform: Platform)
    ensures
        platform == platform_named(os@),
{
    if str_equal(os, "windows") {
        Platform::Windows
    } else if str_equal(os, "linux") {
        Platform::Linux
    } else if str_equal(os, "macos") {
        Platform::MacOs
    } else {
        Platform::Other
    }
}

/// The name of the virtual printer on each platform.
pub open spec fn printer_name_of(platform: Platform) -> Seq<char> {
    match platform {
        Platform::Windows => "ESC_POS_Virtual_Printer"@,
        Platform::Linux => "ESC_POS_Linux_Printer"@,
        Platform::MacOs => "ESC_POS_macOS_Printer"@,
        Platform::Other => "ESC_POS_Virtual_Printer"@,
    }
}

/// A program to run and its arguments.
pub struct Invocation {
    pub program: String,
    pub args: Vec<String>,
}

/// The model of an [`Invocation`].
pub struct InvocationModel {
    pub program: Seq<char>,
    pub args: Seq<Seq<char>>,
}

impl View for Invocation {
    type V = InvocationModel;

    open spec fn view(&self) -> InvocationModel {
        InvocationModel { program: self.program@, args: self.args@.map_values(|a: String| a@) }
    }
}

/// `program flag script`.
pub open spec fn run_with(program: Seq<char>, flag: Seq<char>, script: Seq<char>) -> InvocationModel {
    InvocationModel { program, args: seq![flag, script] }
}

/// PowerShell running a script.
pub open spec fn powershell(script: Seq<char>) -> InvocationModel {
    run_with("powershell"@, "-Command"@, script)
}

/// Bash running a script.
pub open spec fn bash(script: Seq<char>) -> InvocationModel {
    run_with("bash"@, "-c"@, script)
}

/// `osascript` running a shell command with administrator privileges.
pub open spec fn osascript(shell_command: Seq<char>) -> InvocationModel {
    run_with("osascript"@, "-e"@, applescript_for(shell_command))
}

/// `lpstat -p name`: the CUPS status of a printer.
pub open spec fn lpstat(name: Seq<char>) -> InvocationModel {
    run_with("lpstat"@, "-p"@, name)
}

/// How a character is written inside an AppleScript string literal.
pub open spec fn escaped_char(c: char) -> Seq<char> {
    if c == '\\' {
        seq!['\\', '\\']
    } else if c == '"' {
        seq!['\\', '"']
    } else {
        seq![c]
    }
}

/// A text with backslashes and double quotes escaped for an AppleScript
/// string literal.
pub open spec fn escaped(s: Seq<char>) -> Seq<char>
    decreases s.len(),
{
    if s.len() == 0 {
        Seq::empty()
    } else {
        escaped(s.drop_last()) + escaped_char(s.last())
    }
}

/// The AppleScript that runs a shell command through the system password
/// dialog.
pub open spec fn applescript_for(shell_command: Seq<char>) -> Seq<char> {
    "do shell script \""@ + escaped(shell_command) + "\" with administrator privileges"@
}

// The fixed parts of the printer scripts; the printer's name goes between them.

pub const WINDOWS_INSTALL_HEAD: &'static str = "Add-PrinterPort -Name '127.0.0.1:9100' -PrinterHostAddress '127.0.0.1' -PortNumber 9100; \
     $driver = (Get-PrinterDriver | Where-Object { $_.Name -like '*Microsoft*' } | Select-Object -First 1).Name; \
     Add-Printer -Name '";

pub const WINDOWS_INSTALL_TAIL: &'static str = "' -DriverName $driver -PortName '127.0.0.1:9100'; \
     Write-Host 'Printer installed successfully'";

pub const LINUX_INSTALL_HEAD: &'static str = "if command -v lpstat &> /dev/null; then \
                echo 'Installing Linux printer...'; \
                sudo lpadmin -p ";

pub const LINUX_INSTALL_MIDDLE: &'static str = " -E -v socket://127.0.0.1:9100 -m 'Generic Text-Only Printer'; \
                sudo lpadmin -d ";

pub const LINUX_INSTALL_TAIL: &'static str = "; \
                echo 'Linux printer installed successfully!'; \
            else \
                echo 'CUPS not found. Please install CUPS first.'; \
            fi";

pub const MACOS_INSTALL_HEAD: &'static str = "lpadmin -p ";

pub const MACOS_INSTALL_MIDDLE: &'static str = " -E -v socket://127.0.0.1:9100 -m drv:///sample.drv/generic.ppd && \
             cupsenable ";

pub const MACOS_INSTALL_ENABLE: &'static str = " && cupsaccept ";

pub const WINDOWS_UNINSTALL_HEAD: &'static str = "Remove-Printer -Name '";

pub const WINDOWS_UNINSTALL_TAIL: &'static str = "' -Confirm:$false; \
                     Remove-PrinterPort -Name '127.0.0.1:9100'; \
                     Write-Host 'Printer uninstalled successfully'";

pub const MACOS_UNINSTALL_HEAD: &'static str = "lpadmin -x ";

pub const LINUX_UNINSTALL_HEAD: &'static str = "if command -v lpadmin &> /dev/null; then \
                        sudo lpadmin -x ";

pub const LINUX_UNINSTALL_TAIL: &'static str = " && echo 'Printer uninstalled successfully'; \
                    else \
                        echo 'CUPS not found. lpadmin is required.'; \
                    fi";

pub const WINDOWS_STATUS_HEAD: &'static str = "Get-Printer -Name '";

pub const WINDOWS_STATUS_TAIL: &'static str = "' -ErrorAction SilentlyContinue | \
                     Select-Object Name, PortName, DriverName, PrinterStatus";

/// PowerShell: a raw TCP port to 127.0.0.1:9100 and a printer on it with
/// the first Microsoft driver.
pub open spec fn windows_install_script(name: Seq<char>) -> Seq<char> {
    WINDOWS_INSTALL_HEAD@ + name + WINDOWS_INSTALL_TAIL@
}

/// CUPS: a generic text-only printer on socket://127.0.0.1:9100, made the
/// default printer.
pub open spec fn linux_install_script(name: Seq<char>) -> Seq<char> {
    LINUX_INSTALL_HEAD@ + name + LINUX_INSTALL_MIDDLE@ + name + LINUX_INSTALL_TAIL@
}

/// CUPS on macOS: a generic printer on socket://127.0.0.1:9100, enabled and
/// accepting jobs.
pub open spec fn macos_install_command(name: Seq<char>) -> Seq<char> {
    MACOS_INSTALL_HEAD@ + name + MACOS_INSTALL_MIDDLE@ + name + MACOS_INSTALL_ENABLE@ + name
}

/// How each platform installs the virtual printer (`None`: not supported).
pub open spec fn install_invocation_of(platform: Platform) -> Option<InvocationModel> {
    let name = printer_name_of(platform);
    match platform {
        Platform::Windows => Some(powershell(windows_install_script(name))),
        Platform::Linux => Some(bash(linux_install_script(name))),
        Platform::MacOs => Some(osascript(macos_install_command(name))),
        Platform::Other => None,
    }
}

/// How each platform removes the virtual printer (`None`: not supported).
pub open spec fn uninstall_invocation_of(platform: Platform) -> Option<InvocationModel> {
    let name = printer_name_of(platform);
    match platform {
        Platform::Windows => Some(
            powershell(WINDOWS_UNINSTALL_HEAD@ + name + WINDOWS_UNINSTALL_TAIL@),
        ),
        Platform::MacOs => Some(osascript(MACOS_UNINSTALL_HEAD@ + name)),
        Platform::Linux => Some(bash(LINUX_UNINSTALL_HEAD@ + name + LINUX_UNINSTALL_TAIL@)),
        Platform::Other => None,
    }
}

/// How each platform looks the virtual printer up (`None`: not supported).
pub open spec fn status_invocation_of(platform: Platform) -> Option<InvocationModel> {
    let name = printer_name_of(platform);
    match platform {
        Platform::Windows => Some(powershell(WINDOWS_STATUS_HEAD@ + name + WINDOWS_STATUS_TAIL@)),
        Platform::Linux | Platform::MacOs => Some(lpstat(name)),
        Platform::Other => None,
    }
}

/// The Unicode `White_Space` characters, which `char::is_whitespace` (and so
/// `str::trim`) treats as blank.
pub open spec fn is_white_space(c: char) -> bool {
    ||| '\u{9}' <= c <= '\u{D}'
    ||| c == ' '
    ||| c == '\u{85}'
    ||| c == '\u{A0}'
    ||| c == '\u{1680}'
    ||| '\u{2000}' <= c <= '\u{200A}'
    ||| c == '\u{2028}'
    ||| c == '\u{2029}'
    ||| c == '\u{202F}'
    ||| c == '\u{205F}'
    ||| c == '\u{3000}'
}

/// Text with nothing but white space: what `trim` leaves empty.
pub open spec fn is_blank(s: Seq<char>) -> bool {
    forall|i: int| 0 <= i < s.len() ==> is_white_space(#[trigger] s[i])
}

fn white_space(c: char) -> (w: bool)
    ensures
        w == is_white_space(c),
{
    ('\u{9}' <= c && c <= '\u{D}') || c == ' ' || c == '\u{85}' || c == '\u{A0}' || c == '\u{1680}'
        || ('\u{2000}' <= c && c <= '\u{200A}') || c == '\u{2028}' || c == '\u{2029}' || c
        == '\u{202F}' || c == '\u{205F}' || c == '\u{3000}'
}


/// The panel keeps no settings of its own: the emulator follows the ESC/POS
/// standard without manual configuration.
pub struct SettingsPanel {}

impl Default for SettingsPanel {
    fn default() -> (panel: Self) {
        Self {}
    }
}

fn concat(a: &str, b: &str) -> (s: String)
    ensures
        s@ == a@ + b@,
{
    let mut s = String::from_str(a);
    s.append(b);
    s
}

fn invocation(program: &str, flag: &str, script: String) -> (inv: Invocation)
    ensures
        inv@ == run_with(program@, flag@, script@),
{
    let mut args: Vec<String> = Vec::new();
    args.push(String::from_str(flag));
    args.push(script);
    let inv = Invocation { program: String::from_str(program), args };
    assert(inv@.args =~= seq![flag@, script@]);
    inv
}

impl SettingsPanel {
    /// The name of the virtual printer on a platform.
    pub fn printer_name(platform: Platform) -> (name: &'static str)
        ensures
            name@ == printer_name_of(platform),
    {
        match platform {
            Platform::Windows => "ESC_POS_Virtual_Printer",
            Platform::Linux => "ESC_POS_Linux_Printer",
            Platform::MacOs => "ESC_POS_macOS_Printer",
            Platform::Other => "ESC_POS_Virtual_Printer",
        }
    }

    /// Escapes backslashes and double quotes for an AppleScript string
    /// literal, and wraps the shell command in `do shell script ... with
    /// administrator privileges`, so that macOS asks for the password with
    /// its own dialog (`sudo` would need a terminal).
    pub fn applescript(shell_command: &str) -> (script: String)
        ensures
            script@ == applescript_for(shell_command@),
    {
        let mut script = String::from_str("do shell script \"");
        let ghost start = script@;
        let n = shell_command.unicode_len();
        let mut i: usize = 0;
        while i < n
            invariant
                n == shell_command@.len(),
                i <= n,
                script@ == start + escaped(shell_command@.take(i as int)),
            decreases n - i,
        {
            let c = shell_command.get_char(i);
            if c == '\\' {
                proof {
                    reveal_strlit("\\\\");
                }
                script.append("\\\\");
            } else if c == '"' {
                proof {
                    reveal_strlit("\\\"");
                }
                script.append("\\\"");
            } else {
                script.push(c);
            }
            proof {
                let next = shell_command@.take(i + 1);
                assert(next.drop_last() =~= shell_command@.take(i as int));
                assert(next.last() == c);
                assert(script@ =~= start + escaped(next));
            }
            i = i + 1;
        }
        proof {
            assert(shell_command@.take(n as int) =~= shell_command@);
        }
        script.append("\" with administrator privileges");
        script
    }

    /// The command that installs the virtual printer on a platform, or
    /// `None` where installation is not supported.
    pub fn install_invocation(platform: Platform) -> (inv: Option<Invocation>)
        ensures
            match inv {
                Some(i) => install_invocation_of(platform) == Some(i@),
                None => install_invocation_of(platform) is None,
            },
    {
        let name = Self::printer_name(platform);
        match platform {
            Platform::Windows => {
                let mut script = concat(WINDOWS_INSTALL_HEAD, name);
                script.append(WINDOWS_INSTALL_TAIL);
                Some(invocation("powershell", "-Command", script))
            },
            Platform::Linux => {
                let mut script = concat(LINUX_INSTALL_HEAD, name);
                script.append(LINUX_INSTALL_MIDDLE);
                script.append(name);
                script.append(LINUX_INSTALL_TAIL);
                Some(invocation("bash", "-c", script))
            },
            Platform::MacOs => Some(Self::install_macos_printer(name)),
            Platform::Other => None,
        }
    }

    /// The `osascript` invocation that installs, enables and accepts jobs
    /// for the printer `name` on macOS.
    pub fn install_macos_printer(name: &str) -> (inv: Invocation)
        ensures
            inv@ == osascript(macos_install_command(name@)),
    {
        let mut shell_command = concat(MACOS_INSTALL_HEAD, name);
        shell_command.append(MACOS_INSTALL_MIDDLE);
        shell_command.append(name);
        shell_command.append(MACOS_INSTALL_ENABLE);
        shell_command.append(name);
        invocation("osascript", "-e", Self::applescript(shell_command.as_str()))
    }

    /// The command that removes the virtual printer on a platform, or
    /// `None` where that is not supported.
    pub fn uninstall_invocation(platform: Platform) -> (inv: Option<Invocation>)
        ensures
            match inv {
                Some(i) => uninstall_invocation_of(platform) == Some(i@),
                None => uninstall_invocation_of(platform) is None,
            },
    {
        let name = Self::printer_name(platform);
        match platform {
            Platform::Windows => {
                let mut script = concat(WINDOWS_UNINSTALL_HEAD, name);
                script.append(WINDOWS_UNINSTALL_TAIL);
                Some(invocation("powershell", "-Command", script))
            },
            Platform::MacOs => {
                let shell_command = concat(MACOS_UNINSTALL_HEAD, name);
                Some(invocation("osascript", "-e", Self::applescript(shell_command.as_str())))
            },
            Platform::Linux => {
                let mut script = concat(LINUX_UNINSTALL_HEAD, name);
                script.append(LINUX_UNINSTALL_TAIL);
                Some(invocation("bash", "-c", script))
            },
            Platform::Other => None,
        }
    }

    /// The command that looks the virtual printer up on a platform, or
    /// `None` where that is not supported.
    pub fn status_invocation(platform: Platform) -> (inv: Option<Invocation>)
        ensures
            match inv {
                Some(i) => status_invocation_of(platform) == Some(i@),
                None => status_invocation_of(platform) is None,
            },
    {
        let name = Self::printer_name(platform);
        match platform {
            Platform::Windows => {
                let mut script = concat(WINDOWS_STATUS_HEAD, name);
                script.append(WINDOWS_STATUS_TAIL);
                Some(invocation("powershell", "-Command", script))
            },
            Platform::Linux | Platform::MacOs => Some(
                invocation("lpstat", "-p", String::from_str(name)),
            ),
            Platform::Other => None,
        }
    }
    /// Whether a status lookup found the virtual printer: the command
    /// succeeded and printed something other than white space.
    pub fn printer_installed(success: bool, output: &str) -> (installed: bool)
        ensures
            installed == (success && !is_blank(output@)),
    {
        if !success {
            return false;
        }
        let n = output.unicode_len();
        let mut i: usize = 0;
        while i < n
            invariant
                success,
                n == output@.len(),
                i <= n,
                forall|k: int| 0 <= k < i ==> is_white_space(#[trigger] output@[k]),
            decreases n - i,
        {
            let c = output.get_char(i);
            if !white_space(c) {
                assert(!is_white_space(output@[i as int]));
                return true;
            }
            i = i + 1;
        }
        false
    }
}

} // verus!
