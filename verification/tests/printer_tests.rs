use print_agent::printer::{
    list_local_printers, lpr_command, powershell_print_command, print_pdf, print_pdf_next,
    printer_list_command, ps_quote_escape, sumatra_command, sumatra_path, CommandOutcome, Platform,
    PrintStage, PrintStep,
};

fn exited(success: bool, stdout: &[u8], stderr: &[u8]) -> CommandOutcome {
    CommandOutcome::Exited { success, stdout: stdout.to_vec(), stderr: stderr.to_vec() }
}

#[test]
fn lpr_arguments() {
    let cmd = lpr_command("/tmp/a.pdf", "Zebra", 103, 199);
    assert_eq!(cmd.program, "lpr");
    assert_eq!(
        cmd.args,
        vec![
            "-P", "Zebra", "-o", "PageSize=Custom.103x199mm", "-o", "Resolution=300dpi", "-o",
            "fit-to-page", "-o", "page-left=0", "-o", "page-right=0", "-o", "page-top=0", "-o",
            "page-bottom=0", "/tmp/a.pdf",
        ]
    );
}

#[test]
fn sumatra_arguments() {
    let cmd = sumatra_command("C:\\t\\a.pdf", "Zebra");
    assert_eq!(cmd.program, "C:\\Program Files\\SumatraPDF\\SumatraPDF.exe");
    assert_eq!(cmd.program, sumatra_path());
    assert_eq!(cmd.args, vec!["-print-to", "Zebra", "-silent", "-print-settings", "fit", "C:\\t\\a.pdf"]);
}

#[test]
fn powershell_script_quotes() {
    assert_eq!(ps_quote_escape("O'Brien's"), "O''Brien''s");
    let cmd = powershell_print_command("C:\\it's.pdf", "Lab'1");
    assert_eq!(cmd.program, "powershell");
    assert_eq!(
        cmd.args,
        vec![
            "-NoProfile".to_string(),
            "-Command".to_string(),
            "Start-Process -FilePath 'C:\\it''s.pdf' -Verb PrintTo -ArgumentList '\"Lab''1\"' -Wait"
                .to_string(),
        ]
    );
}

#[test]
fn print_pdf_picks_the_command() {
    match print_pdf(Platform::Unix, "/a.pdf", "P", 103, 199, true) {
        PrintStep::Run(PrintStage::Lpr, cmd) => assert_eq!(cmd.program, "lpr"),
        other => panic!("{:?}", other),
    }
    match print_pdf(Platform::Windows, "a.pdf", "P", 103, 199, true) {
        PrintStep::Run(PrintStage::Sumatra, cmd) => assert_eq!(cmd.program, sumatra_path()),
        other => panic!("{:?}", other),
    }
    match print_pdf(Platform::Windows, "a.pdf", "P", 103, 199, false) {
        PrintStep::Run(PrintStage::PowerShell, cmd) => assert_eq!(cmd.program, "powershell"),
        other => panic!("{:?}", other),
    }
}

#[test]
fn print_outcomes() {
    match print_pdf_next(PrintStage::Lpr, "a", "P", exited(true, b"", b"")) {
        PrintStep::Finished(Ok(())) => {},
        other => panic!("{:?}", other),
    }
    match print_pdf_next(PrintStage::Lpr, "a", "P", exited(false, b"", b"  lpr: The printer or class does not exist.\n")) {
        PrintStep::Finished(Err(e)) => assert_eq!(e, "Druckfehler: lpr: The printer or class does not exist."),
        other => panic!("{:?}", other),
    }
    match print_pdf_next(PrintStage::Lpr, "a", "P", CommandOutcome::SpawnFailed("No such file or directory (os error 2)".to_string())) {
        PrintStep::Finished(Err(e)) => assert_eq!(e, "lpr Fehler: No such file or directory (os error 2)"),
        other => panic!("{:?}", other),
    }
    match print_pdf_next(PrintStage::PowerShell, "a", "P", exited(false, b"", b"bad\xff")) {
        PrintStep::Finished(Err(e)) => assert_eq!(e, "Druckfehler: bad\u{fffd}"),
        other => panic!("{:?}", other),
    }
    match print_pdf_next(PrintStage::PowerShell, "a", "P", CommandOutcome::SpawnFailed("x".to_string())) {
        PrintStep::Finished(Err(e)) => assert_eq!(e, "PowerShell Fehler: x"),
        other => panic!("{:?}", other),
    }
}

#[test]
fn sumatra_failure_falls_back_to_powershell() {
    match print_pdf_next(PrintStage::Sumatra, "a.pdf", "P", exited(false, b"", b"oops")) {
        PrintStep::Run(PrintStage::PowerShell, cmd) => {
            assert_eq!(cmd.program, "powershell");
            assert_eq!(cmd.args[2], "Start-Process -FilePath 'a.pdf' -Verb PrintTo -ArgumentList '\"P\"' -Wait");
        },
        other => panic!("{:?}", other),
    }
    match print_pdf_next(PrintStage::Sumatra, "a.pdf", "P", CommandOutcome::SpawnFailed("denied".to_string())) {
        PrintStep::Finished(Err(e)) => assert_eq!(e, "SumatraPDF Fehler: denied"),
        other => panic!("{:?}", other),
    }
    match print_pdf_next(PrintStage::Sumatra, "a.pdf", "P", exited(true, b"", b"")) {
        PrintStep::Finished(Ok(())) => {},
        other => panic!("{:?}", other),
    }
}

#[test]
fn listing_commands() {
    let u = printer_list_command(Platform::Unix);
    assert_eq!(u.program, "lpstat");
    assert_eq!(u.args, vec!["-a"]);
    let w = printer_list_command(Platform::Windows);
    assert_eq!(w.program, "powershell");
    assert_eq!(w.args, vec!["-NoProfile", "-Command", "Get-Printer | Select-Object -ExpandProperty Name"]);
}

#[test]
fn lpstat_listing() {
    let out = b"Zebra_GK420d accepting requests since Mon 01 Jan 2024\n\n  HP_LaserJet accepting requests since Tue\r\n   \nBrother";
    let names = list_local_printers(Platform::Unix, exited(true, out, b""));
    assert_eq!(names, vec!["Zebra_GK420d", "HP_LaserJet", "Brother"]);
    let failed = list_local_printers(Platform::Unix, exited(false, b"lpstat: No destinations added.\n", b""));
    assert_eq!(failed, vec!["lpstat:"]);
}

#[test]
fn windows_listing() {
    let out = b"Microsoft Print to PDF\r\n  Zebra ZD420  \r\n\r\nFax\r\n";
    let names = list_local_printers(Platform::Windows, exited(true, out, b""));
    assert_eq!(names, vec!["Microsoft Print to PDF", "Zebra ZD420", "Fax"]);
}

#[test]
fn listing_without_the_command() {
    let names = list_local_printers(Platform::Unix, CommandOutcome::SpawnFailed("not found".to_string()));
    assert!(names.is_empty());
    assert!(list_local_printers(Platform::Windows, exited(true, b"", b"")).is_empty());
}
