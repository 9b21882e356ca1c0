use escpos_emulator::gui::settings_panel::{platform_from_os, Platform, SettingsPanel};

#[test]
fn platforms_from_os_names() {
    assert_eq!(platform_from_os("windows"), Platform::Windows);
    assert_eq!(platform_from_os("linux"), Platform::Linux);
    assert_eq!(platform_from_os("macos"), Platform::MacOs);
    assert_eq!(platform_from_os("freebsd"), Platform::Other);
    assert_eq!(platform_from_os("Linux"), Platform::Other);
}

#[test]
fn printer_names() {
    assert_eq!(SettingsPanel::printer_name(Platform::Windows), "ESC_POS_Virtual_Printer");
    assert_eq!(SettingsPanel::printer_name(Platform::Linux), "ESC_POS_Linux_Printer");
    assert_eq!(SettingsPanel::printer_name(Platform::MacOs), "ESC_POS_macOS_Printer");
    assert_eq!(SettingsPanel::printer_name(Platform::Other), "ESC_POS_Virtual_Printer");
}

#[test]
fn applescript_escapes_backslashes_and_quotes() {
    assert_eq!(
        SettingsPanel::applescript(r#"echo "a\b""#),
        r#"do shell script "echo \"a\\b\"" with administrator privileges"#
    );
}

#[test]
fn install_macos_printer_command() {
    let inv = SettingsPanel::install_macos_printer("P");
    assert_eq!(inv.program, "osascript");
    assert_eq!(
        inv.args,
        vec![
            "-e".to_string(),
            "do shell script \"lpadmin -p P -E -v socket://127.0.0.1:9100 -m drv:///sample.drv/generic.ppd && cupsenable P && cupsaccept P\" with administrator privileges".to_string(),
        ]
    );
}

#[test]
fn install_commands_per_platform() {
    let windows = SettingsPanel::install_invocation(Platform::Windows).unwrap();
    assert_eq!(windows.program, "powershell");
    assert_eq!(windows.args[0], "-Command");
    assert_eq!(
        windows.args[1],
        "Add-PrinterPort -Name '127.0.0.1:9100' -PrinterHostAddress '127.0.0.1' -PortNumber 9100; $driver = (Get-PrinterDriver | Where-Object { $_.Name -like '*Microsoft*' } | Select-Object -First 1).Name; Add-Printer -Name 'ESC_POS_Virtual_Printer' -DriverName $driver -PortName '127.0.0.1:9100'; Write-Host 'Printer installed successfully'"
    );
    let linux = SettingsPanel::install_invocation(Platform::Linux).unwrap();
    assert_eq!(linux.program, "bash");
    assert_eq!(
        linux.args,
        vec![
            "-c".to_string(),
            "if command -v lpstat &> /dev/null; then echo 'Installing Linux printer...'; sudo lpadmin -p ESC_POS_Linux_Printer -E -v socket://127.0.0.1:9100 -m 'Generic Text-Only Printer'; sudo lpadmin -d ESC_POS_Linux_Printer; echo 'Linux printer installed successfully!'; else echo 'CUPS not found. Please install CUPS first.'; fi".to_string(),
        ]
    );
    let mac = SettingsPanel::install_invocation(Platform::MacOs).unwrap();
    assert_eq!(mac.args[1], SettingsPanel::install_macos_printer("ESC_POS_macOS_Printer").args[1]);
    assert!(SettingsPanel::install_invocation(Platform::Other).is_none());
}

#[test]
fn uninstall_and_status_commands_per_platform() {
    let windows = SettingsPanel::uninstall_invocation(Platform::Windows).unwrap();
    assert_eq!(
        windows.args[1],
        "Remove-Printer -Name 'ESC_POS_Virtual_Printer' -Confirm:$false; Remove-PrinterPort -Name '127.0.0.1:9100'; Write-Host 'Printer uninstalled successfully'"
    );
    let mac = SettingsPanel::uninstall_invocation(Platform::MacOs).unwrap();
    assert_eq!(mac.program, "osascript");
    assert_eq!(mac.args[1], "do shell script \"lpadmin -x ESC_POS_macOS_Printer\" with administrator privileges");
    let linux = SettingsPanel::uninstall_invocation(Platform::Linux).unwrap();
    assert_eq!(
        linux.args[1],
        "if command -v lpadmin &> /dev/null; then sudo lpadmin -x ESC_POS_Linux_Printer && echo 'Printer uninstalled successfully'; else echo 'CUPS not found. lpadmin is required.'; fi"
    );
    assert!(SettingsPanel::uninstall_invocation(Platform::Other).is_none());

    let status = SettingsPanel::status_invocation(Platform::Linux).unwrap();
    assert_eq!(status.program, "lpstat");
    assert_eq!(status.args, vec!["-p".to_string(), "ESC_POS_Linux_Printer".to_string()]);
    let status = SettingsPanel::status_invocation(Platform::Windows).unwrap();
    assert_eq!(
        status.args[1],
        "Get-Printer -Name 'ESC_POS_Virtual_Printer' -ErrorAction SilentlyContinue | Select-Object Name, PortName, DriverName, PrinterStatus"
    );
    assert!(SettingsPanel::status_invocation(Platform::Other).is_none());
}

#[test]
fn printer_installed_needs_success_and_output() {
    assert!(SettingsPanel::printer_installed(true, "printer ESC_POS_Linux_Printer is idle."));
    assert!(!SettingsPanel::printer_installed(false, "printer ESC_POS_Linux_Printer is idle."));
    assert!(!SettingsPanel::printer_installed(true, ""));
    assert!(!SettingsPanel::printer_installed(true, " \t\r\n\u{a0}\u{3000}"));
    assert!(SettingsPanel::printer_installed(true, "\n x \n"));
    // Agrees with `trim` on every white-space and a few other characters.
    for c in ['\u{9}', '\u{b}', '\u{c}', ' ', '\u{85}', '\u{1680}', '\u{2000}', '\u{200a}', '\u{2028}', '\u{2029}', '\u{202f}', '\u{205f}', 'a', '\u{200b}', '\u{feff}', '\u{0}'] {
        let s = c.to_string();
        assert_eq!(SettingsPanel::printer_installed(true, &s), !s.trim().is_empty(), "{:?}", c);
    }
}
