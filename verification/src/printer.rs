//! Printing a PDF and listing the local printers: the commands the agent runs
//! and how their outcome is read. On macOS and Linux the agent talks to CUPS
//! (`lpr`, `lpstat`); on Windows to SumatraPDF or PowerShell.
use vstd::prelude::*;
use vstd::utf8::{decode_utf8, valid_utf8};
use crate::text::{
    chars_of, decimal, decimal_string, first_word, is_white_space, leading_word, lemma_leading_word,
    lemma_trim_ws_ends, push_char, split_lines, text_lines, trim, trim_ws,
};

verus! {

/// The operating system family the agent runs on.
#[derive(Debug, Clone, Copy, PartialEq, Eq, Structural)]
pub enum Platform {
    /// Windows: SumatraPDF or PowerShell.
    Windows,
    /// macOS, Linux and the other Unix systems: CUPS.
    Unix,
}

/// A program to run and its arguments.
#[derive(Debug)]
pub struct CommandSpec {
    pub program: String,
    pub args: Vec<String>,
}

impl CommandSpec {
    /// This command runs `program` with the arguments `args`.
    pub open spec fn runs(&self, program: Seq<char>, args: Seq<Seq<char>>) -> bool {
        &&& self.program@ == program
        &&& self.args.deep_view() == args
    }
}

/// What became of running a command: it could not be started (with the
/// error's text), or it ran to its end.
#[derive(Debug)]
pub enum CommandOutcome {
    SpawnFailed(String),
    Exited { success: bool, stdout: Vec<u8>, stderr: Vec<u8> },
}

/// The text that `String::from_utf8_lossy` makes of `bytes`.
pub uninterp spec fn utf8_lossy(bytes: Seq<u8>) -> Seq<char>;

/// `bytes` read as UTF-8, invalid sequences replaced by U+FFFD
/// (`String::from_utf8_lossy`). Claimed of it: the text named by
/// `utf8_lossy`, and for valid UTF-8 the decoded characters.
#[verifier::external_body]
fn decode_lossy(bytes: &[u8]) -> (text: String)
    ensures
        text@ == utf8_lossy(bytes@),
        valid_utf8(bytes@) ==> text@ == decode_utf8(bytes@),
{
    String::from_utf8_lossy(bytes).into_owned()
}

/// The page size option for a label of `w` by `h` millimetres.
pub open spec fn page_size_option(w: u32, h: u32) -> Seq<char> {
    "PageSize=Custom."@ + decimal(w as nat) + "x"@ + decimal(h as nat) + "mm"@
}

/// The `lpr` arguments that print `pdf` on `printer` on a `w` x `h` mm label,
/// scaled to fit, without margins, at 300 dpi.
pub open spec fn lpr_args(pdf: Seq<char>, printer: Seq<char>, w: u32, h: u32) -> Seq<Seq<char>> {
    seq![
        "-P"@,
        printer,
        "-o"@,
        page_size_option(w, h),
        "-o"@,
        "Resolution=300dpi"@,
        "-o"@,
        "fit-to-page"@,
        "-o"@,
        "page-left=0"@,
        "-o"@,
        "page-right=0"@,
        "-o"@,
        "page-top=0"@,
        "-o"@,
        "page-bottom=0"@,
        pdf,
    ]
}

fn push_arg(args: &mut Vec<String>, a: &str)
    ensures
        final(args).deep_view() == old(args).deep_view().push(a@),
{
    let ghost before = args.deep_view();
    args.push(a.to_string());
    assert(args.deep_view() =~= before.push(a@));
}

/// The CUPS command that prints `pdf_path` on `printer_name`.
pub fn lpr_command(pdf_path: &str, printer_name: &str, width_mm: u32, height_mm: u32) -> (cmd:
    CommandSpec)
    ensures
        cmd.runs("lpr"@, lpr_args(pdf_path@, printer_name@, width_mm, height_mm)),
{
    let mut page_size = "PageSize=Custom.".to_string();
    let w = decimal_string(width_mm as u64);
    let h = decimal_string(height_mm as u64);
    page_size.append(w.as_str());
    page_size.append("x");
    page_size.append(h.as_str());
    page_size.append("mm");
    let mut args: Vec<String> = Vec::new();
    push_arg(&mut args, "-P");
    push_arg(&mut args, printer_name);
    push_arg(&mut args, "-o");
    push_arg(&mut args, page_size.as_str());
    push_arg(&mut args, "-o");
    push_arg(&mut args, "Resolution=300dpi");
    push_arg(&mut args, "-o");
    push_arg(&mut args, "fit-to-page");
    push_arg(&mut args, "-o");
    push_arg(&mut args, "page-left=0");
    push_arg(&mut args, "-o");
    push_arg(&mut args, "page-right=0");
    push_arg(&mut args, "-o");
    push_arg(&mut args, "page-top=0");
    push_arg(&mut args, "-o");
    push_arg(&mut args, "page-bottom=0");
    push_arg(&mut args, pdf_path);
    proof {
        assert(args.deep_view() =~= lpr_args(pdf_path@, printer_name@, width_mm, height_mm));
    }
    CommandSpec { program: "lpr".to_string(), args }
}

/// Where SumatraPDF is installed when it is.
pub open spec fn sumatra_exe() -> Seq<char> {
    "C:\\Program Files\\SumatraPDF\\SumatraPDF.exe"@
}

/// The path of the SumatraPDF program, whose presence decides how Windows prints.
pub fn sumatra_path() -> (path: String)
    ensures
        path@ == sumatra_exe(),
{
    "C:\\Program Files\\SumatraPDF\\SumatraPDF.exe".to_string()
}

/// The SumatraPDF arguments that print `pdf` on `printer` silently, scaled to fit.
pub open spec fn sumatra_args(pdf: Seq<char>, printer: Seq<char>) -> Seq<Seq<char>> {
    seq!["-print-to"@, printer, "-silent"@, "-print-settings"@, "fit"@, pdf]
}

/// The SumatraPDF command that prints `pdf_path` on `printer_name`.
pub fn sumatra_command(pdf_path: &str, printer_name: &str) -> (cmd: CommandSpec)
    ensures
        cmd.runs(sumatra_exe(), sumatra_args(pdf_path@, printer_name@)),
{
    let mut args: Vec<String> = Vec::new();
    push_arg(&mut args, "-print-to");
    push_arg(&mut args, printer_name);
    push_arg(&mut args, "-silent");
    push_arg(&mut args, "-print-settings");
    push_arg(&mut args, "fit");
    push_arg(&mut args, pdf_path);
    proof {
        assert(args.deep_view() =~= sumatra_args(pdf_path@, printer_name@));
    }
    CommandSpec { program: sumatra_path(), args }
}

/// `s` with each single quote doubled, as a PowerShell single-quoted string needs.
pub open spec fn ps_escape(s: Seq<char>) -> Seq<char>
    decreases s.len(),
{
    if s.len() == 0 {
        Seq::<char>::empty()
    } else {
        ps_escape(s.drop_last()) + if s.last() == '\'' {
            seq!['\'', '\'']
        } else {
            seq![s.last()]
        }
    }
}

/// `s` with each single quote doubled (`s.replace('\'', "''")`).
pub fn ps_quote_escape(s: &str) -> (e: String)
    ensures
        e@ == ps_escape(s@),
        (forall|i: int| 0 <= i < s@.len() ==> #[trigger] s@[i] != '\'') ==> e@ == s@,
{
    let v = chars_of(s);
    let mut e = String::new();
    let mut i: usize = 0;
    while i < v.len()
        invariant
            i <= v@.len(),
            v@ == s@,
            e@ == ps_escape(v@.take(i as int)),
        decreases v@.len() - i,
    {
        let c = v[i];
        proof {
            assert(v@.take(i + 1).drop_last() =~= v@.take(i as int));
        }
        push_char(&mut e, c);
        if c == '\'' {
            push_char(&mut e, '\'');
        }
        proof {
            assert(e@ =~= ps_escape(v@.take(i + 1)));
        }
        i = i + 1;
    }
    proof {
        assert(v@.take(v@.len() as int) =~= v@);
    }
    proof {
        lemma_ps_escape(s@, Seq::<char>::empty());
    }
    e
}

/// The PowerShell script that prints `pdf` on `printer` through the PDF
/// viewer's "print to" verb and waits for it.
pub open spec fn print_script(pdf: Seq<char>, printer: Seq<char>) -> Seq<char> {
    "Start-Process -FilePath '"@ + ps_escape(pdf) + "' -Verb PrintTo -ArgumentList '\""@
        + ps_escape(printer) + "\"' -Wait"@
}

/// The PowerShell command that prints `pdf_path` on `printer_name`.
pub fn powershell_print_command(pdf_path: &str, printer_name: &str) -> (cmd: CommandSpec)
    ensures
        cmd.runs(
            "powershell"@,
            seq!["-NoProfile"@, "-Command"@, print_script(pdf_path@, printer_name@)],
        ),
{
    let mut script = "Start-Process -FilePath '".to_string();
    let p = ps_quote_escape(pdf_path);
    script.append(p.as_str());
    script.append("' -Verb PrintTo -ArgumentList '\"");
    let q = ps_quote_escape(printer_name);
    script.append(q.as_str());
    script.append("\"' -Wait");
    let mut args: Vec<String> = Vec::new();
    push_arg(&mut args, "-NoProfile");
    push_arg(&mut args, "-Command");
    push_arg(&mut args, script.as_str());
    proof {
        assert(args.deep_view() =~= seq![
            "-NoProfile"@,
            "-Command"@,
            print_script(pdf_path@, printer_name@),
        ]);
    }
    CommandSpec { program: "powershell".to_string(), args }
}

/// The print command being run.
#[derive(Debug, Clone, Copy, PartialEq, Eq, Structural)]
pub enum PrintStage {
    /// CUPS `lpr`.
    Lpr,
    /// SumatraPDF.
    Sumatra,
    /// PowerShell, on Windows without SumatraPDF or after it failed.
    PowerShell,
}

/// Where printing stands: a command to run next, or the final result.
#[derive(Debug)]
pub enum PrintStep {
    Run(PrintStage, CommandSpec),
    Finished(Result<(), String>),
}

/// `step` runs the command of `stage` that prints `pdf` on `printer`
/// (`w` x `h` mm labels, which only `lpr` is told about).
pub open spec fn runs_stage(
    step: PrintStep,
    stage: PrintStage,
    pdf: Seq<char>,
    printer: Seq<char>,
    w: u32,
    h: u32,
) -> bool {
    step matches PrintStep::Run(s, cmd) && s == stage && match stage {
        PrintStage::Lpr => cmd.runs("lpr"@, lpr_args(pdf, printer, w, h)),
        PrintStage::Sumatra => cmd.runs(sumatra_exe(), sumatra_args(pdf, printer)),
        PrintStage::PowerShell => cmd.runs(
            "powershell"@,
            seq!["-NoProfile"@, "-Command"@, print_script(pdf, printer)],
        ),
    }
}

/// `step` ends printing with the error message `m`.
pub open spec fn fails_with(step: PrintStep, m: Seq<char>) -> bool {
    step matches PrintStep::Finished(Err(e)) && e@ == m
}

/// Starts printing `pdf_path` on `printer_name`: with `lpr` on Unix; on
/// Windows with SumatraPDF when it is installed, else with PowerShell.
pub fn print_pdf(
    platform: Platform,
    pdf_path: &str,
    printer_name: &str,
    width_mm: u32,
    height_mm: u32,
    sumatra_installed: bool,
) -> (step: PrintStep)
    ensures
        runs_stage(
            step,
            match platform {
                Platform::Unix => PrintStage::Lpr,
                Platform::Windows => if sumatra_installed {
                    PrintStage::Sumatra
                } else {
                    PrintStage::PowerShell
                },
            },
            pdf_path@,
            printer_name@,
            width_mm,
            height_mm,
        ),
{
    match platform {
        Platform::Unix => PrintStep::Run(
            PrintStage::Lpr,
            lpr_command(pdf_path, printer_name, width_mm, height_mm),
        ),
        Platform::Windows => if sumatra_installed {
            PrintStep::Run(PrintStage::Sumatra, sumatra_command(pdf_path, printer_name))
        } else {
            PrintStep::Run(PrintStage::PowerShell, powershell_print_command(pdf_path, printer_name))
        },
    }
}

/// The message for a print command that ran and failed, from its error output.
pub open spec fn print_failure_text(stderr: Seq<u8>) -> Seq<char> {
    "Druckfehler: "@ + trim_ws(utf8_lossy(stderr))
}

/// The message for a print command of `stage` that could not be started.
pub open spec fn spawn_failure_text(stage: PrintStage, e: Seq<char>) -> Seq<char> {
    match stage {
        PrintStage::Lpr => "lpr Fehler: "@ + e,
        PrintStage::Sumatra => "SumatraPDF Fehler: "@ + e,
        PrintStage::PowerShell => "PowerShell Fehler: "@ + e,
    }
}

fn print_failure(stderr: &Vec<u8>) -> (m: String)
    ensures
        m@ == print_failure_text(stderr@),
{
    let text = decode_lossy(stderr.as_slice());
    let t = trim(text.as_str());
    let mut m = "Druckfehler: ".to_string();
    m.append(t.as_str());
    m
}

/// Goes on after the command of `stage` had `outcome`: a command that ran
/// successfully ends printing with success; one that could not start ends it
/// with its error; SumatraPDF that ran and failed hands over to PowerShell;
/// any other failed command ends printing with its trimmed error output.
pub fn print_pdf_next(stage: PrintStage, pdf_path: &str, printer_name: &str, outcome: CommandOutcome) -> (step: PrintStep)
    ensures
        match outcome {
            CommandOutcome::SpawnFailed(e) => fails_with(step, spawn_failure_text(stage, e@)),
            CommandOutcome::Exited { success, stderr, .. } => if success {
                step matches PrintStep::Finished(Ok(()))
            } else if stage is Sumatra {
                runs_stage(step, PrintStage::PowerShell, pdf_path@, printer_name@, 0, 0)
            } else {
                fails_with(step, print_failure_text(stderr@))
            },
        },
{
    match outcome {
        CommandOutcome::SpawnFailed(e) => {
            let mut m = match stage {
                PrintStage::Lpr => "lpr Fehler: ".to_string(),
                PrintStage::Sumatra => "SumatraPDF Fehler: ".to_string(),
                PrintStage::PowerShell => "PowerShell Fehler: ".to_string(),
            };
            m.append(e.as_str());
            PrintStep::Finished(Err(m))
        },
        CommandOutcome::Exited { success, stderr, .. } => {
            if success {
                PrintStep::Finished(Ok(()))
            } else if stage == PrintStage::Sumatra {
                PrintStep::Run(PrintStage::PowerShell, powershell_print_command(pdf_path, printer_name))
            } else {
                PrintStep::Finished(Err(print_failure(&stderr)))
            }
        },
    }
}

/// The command that lists the local printers.
pub fn printer_list_command(platform: Platform) -> (cmd: CommandSpec)
    ensures
        match platform {
            Platform::Unix => cmd.runs("lpstat"@, seq!["-a"@]),
            Platform::Windows => cmd.runs(
                "powershell"@,
                seq![
                    "-NoProfile"@,
                    "-Command"@,
                    "Get-Printer | Select-Object -ExpandProperty Name"@,
                ],
            ),
        },
{
    let mut args: Vec<String> = Vec::new();
    match platform {
        Platform::Unix => {
            push_arg(&mut args, "-a");
            proof {
                assert(args.deep_view() =~= seq!["-a"@]);
            }
            CommandSpec { program: "lpstat".to_string(), args }
        },
        Platform::Windows => {
            push_arg(&mut args, "-NoProfile");
            push_arg(&mut args, "-Command");
            push_arg(&mut args, "Get-Printer | Select-Object -ExpandProperty Name");
            proof {
                assert(args.deep_view() =~= seq![
                    "-NoProfile"@,
                    "-Command"@,
                    "Get-Printer | Select-Object -ExpandProperty Name"@,
                ]);
            }
            CommandSpec { program: "powershell".to_string(), args }
        },
    }
}

/// The printer names in the lines of a printer listing: on Unix (`lpstat -a`,
/// one printer per line, its name first) the first word of each non-blank
/// line; on Windows (one name per line) each non-blank line, trimmed.
pub open spec fn printer_names(platform: Platform, lines: Seq<Seq<char>>) -> Seq<Seq<char>>
    decreases lines.len(),
{
    if lines.len() == 0 {
        Seq::<Seq<char>>::empty()
    } else {
        let before = printer_names(platform, lines.drop_last());
        let t = trim_ws(lines.last());
        if t.len() == 0 {
            before
        } else {
            before.push(
                match platform {
                    Platform::Unix => leading_word(t),
                    Platform::Windows => t,
                },
            )
        }
    }
}

/// The local printers, read from what the listing command of `platform`
/// wrote: none when it could not be started, else the names on its output
/// (whatever its exit status).
pub fn list_local_printers(platform: Platform, outcome: CommandOutcome) -> (names: Vec<String>)
    ensures
        names.deep_view() == match outcome {
            CommandOutcome::SpawnFailed(_) => Seq::<Seq<char>>::empty(),
            CommandOutcome::Exited { stdout, .. } => printer_names(
                platform,
                text_lines(utf8_lossy(stdout@)),
            ),
        },
        match outcome {
            CommandOutcome::Exited { stdout, .. } => valid_utf8(stdout@) ==> names.deep_view()
                == printer_names(platform, text_lines(decode_utf8(stdout@))),
            _ => true,
        },
        match outcome {
            CommandOutcome::Exited { stdout, .. } => names@.len() == non_blank_count(
                text_lines(utf8_lossy(stdout@)),
            ),
            _ => names@.len() == 0,
        },
{
    match outcome {
        CommandOutcome::SpawnFailed(_) => {
            let names: Vec<String> = Vec::new();
            assert(names.deep_view() =~= Seq::<Seq<char>>::empty());
            names
        },
        CommandOutcome::Exited { stdout, .. } => {
            let text = decode_lossy(stdout.as_slice());
            let chars = chars_of(text.as_str());
            let lines = split_lines(&chars);
            let mut names: Vec<String> = Vec::new();
            let mut i: usize = 0;
            proof {
                assert(lines.deep_view().take(0) =~= Seq::<Seq<char>>::empty());
                assert(names.deep_view() =~= Seq::<Seq<char>>::empty());
            }
            while i < lines.len()
                invariant
                    i <= lines@.len(),
                    names.deep_view() == printer_names(platform, lines.deep_view().take(i as int)),
                decreases lines@.len() - i,
            {
                let t = trim(lines[i].as_str());
                let ghost before = names.deep_view();
                proof {
                    assert(lines.deep_view().take(i + 1).drop_last() =~= lines.deep_view().take(
                        i as int,
                    ));
                    assert(lines.deep_view().take(i + 1).last() == lines@[i as int]@);
                }
                if !t.as_str().is_empty() {
                    let name = match platform {
                        Platform::Unix => first_word(t.as_str()),
                        Platform::Windows => t,
                    };
                    names.push(name);
                    proof {
                        assert(names.deep_view() =~= before.push(name@));
                    }
                }
                i = i + 1;
            }
            proof {
                assert(lines.deep_view().take(lines@.len() as int) =~= lines.deep_view());
                lemma_printer_names_by_line(
                    platform,
                    lines.deep_view(),
                    Seq::<Seq<char>>::empty(),
                    Seq::<char>::empty(),
                );
                assert(names.deep_view().len() == names@.len());
            }
            names
        },
    }
}


/// Every printer name read from a listing is a non-empty text that starts
/// and ends with a non-white-space character; a name read from `lpstat` holds
/// no white space at all.
pub proof fn lemma_printer_names_not_blank(platform: Platform, lines: Seq<Seq<char>>)
    ensures
        forall|i: int|
            0 <= i < printer_names(platform, lines).len() ==> {
                let name = #[trigger] printer_names(platform, lines)[i];
                &&& name.len() > 0
                &&& !is_white_space(name[0])
                &&& !is_white_space(name.last())
                &&& platform is Unix ==> forall|j: int|
                    0 <= j < name.len() ==> !is_white_space(#[trigger] name[j])
            },
    decreases lines.len(),
{
    if lines.len() > 0 {
        let before = printer_names(platform, lines.drop_last());
        let names = printer_names(platform, lines);
        lemma_printer_names_not_blank(platform, lines.drop_last());
        let t = trim_ws(lines.last());
        lemma_trim_ws_ends(lines.last());
        lemma_leading_word(t);
        assert forall|i: int| 0 <= i < names.len() implies {
            let name = #[trigger] names[i];
            &&& name.len() > 0
            &&& !is_white_space(name[0])
            &&& !is_white_space(name.last())
            &&& platform is Unix ==> forall|j: int|
                0 <= j < name.len() ==> !is_white_space(#[trigger] name[j])
        } by {
            if i < before.len() {
                assert(names[i] == before[i]);
            } else {
                let w = leading_word(t);
                assert(t.len() > 0);
                if platform is Unix {
                    assert(names[i] == w);
                    assert(!is_white_space(w[w.len() - 1]));
                } else {
                    assert(names[i] == t);
                }
            }
        }
    }
}


/// How many lines of `lines` hold more than white space.
pub open spec fn non_blank_count(lines: Seq<Seq<char>>) -> nat
    decreases lines.len(),
{
    if lines.len() == 0 {
        0
    } else {
        non_blank_count(lines.drop_last()) + if trim_ws(lines.last()).len() > 0 {
            1nat
        } else {
            0nat
        }
    }
}

/// The printer name that a non-blank listing line gives: its first word on
/// Unix, the whole trimmed line on Windows.
pub open spec fn name_of_line(platform: Platform, line: Seq<char>) -> Seq<char> {
    match platform {
        Platform::Unix => leading_word(trim_ws(line)),
        Platform::Windows => trim_ws(line),
    }
}

/// Each line of a listing adds exactly one name when it is not blank and none
/// when it is, after the names of the lines before it: reading a listing in
/// two parts gives the names of the first part followed by those of the
/// second; so a listing gives as many names as it has non-blank lines, with
/// no limit, in the order of the lines.
pub proof fn lemma_printer_names_by_line(
    platform: Platform,
    lines: Seq<Seq<char>>,
    more: Seq<Seq<char>>,
    line: Seq<char>,
)
    ensures
        printer_names(platform, lines.push(line)) == if trim_ws(line).len() > 0 {
            printer_names(platform, lines).push(name_of_line(platform, line))
        } else {
            printer_names(platform, lines)
        },
        printer_names(platform, lines + more) == printer_names(platform, lines) + printer_names(
            platform,
            more,
        ),
        printer_names(platform, lines).len() == non_blank_count(lines),
    decreases more.len() + lines.len(),
{
    assert(lines.push(line).drop_last() =~= lines);
    if more.len() > 0 {
        lemma_printer_names_by_line(platform, lines, more.drop_last(), line);
        assert((lines + more).drop_last() =~= lines + more.drop_last());
        assert((lines + more).last() == more.last());
        let a = printer_names(platform, lines);
        let b = printer_names(platform, more.drop_last());
        let t = trim_ws(more.last());
        if t.len() > 0 {
            assert((a + b).push(name_of_line(platform, more.last())) =~= a + b.push(
                name_of_line(platform, more.last()),
            ));
        }
    } else {
        assert(lines + more =~= lines);
        assert(printer_names(platform, more) =~= Seq::<Seq<char>>::empty());
    }
    if lines.len() > 0 {
        lemma_printer_names_by_line(platform, lines.drop_last(), Seq::<Seq<char>>::empty(), line);
    }
}

/// The PowerShell escape doubles each single quote and keeps every other
/// character, in order: escaping a text in two parts gives the two escaped
/// parts one after the other; a text without single quotes is left as it is;
/// and the escaped text is longer than the text by its number of single quotes.
pub proof fn lemma_ps_escape(s: Seq<char>, t: Seq<char>)
    ensures
        ps_escape(s + t) == ps_escape(s) + ps_escape(t),
        (forall|i: int| 0 <= i < s.len() ==> #[trigger] s[i] != '\'') ==> ps_escape(s) == s,
        ps_escape(seq!['\'']) == seq!['\'', '\''],
        forall|c: char| c != '\'' ==> #[trigger] ps_escape(seq![c]) == seq![c],
    decreases s.len() + t.len(),
{
    assert(seq!['\''].drop_last() =~= Seq::<char>::empty());
    assert(ps_escape(Seq::<char>::empty()) == Seq::<char>::empty());
    assert forall|c: char| c != '\'' implies #[trigger] ps_escape(seq![c]) == seq![c] by {
        assert(seq![c].drop_last() =~= Seq::<char>::empty());
        assert(Seq::<char>::empty() + seq![c] =~= seq![c]);
    }
    assert(Seq::<char>::empty() + seq!['\'', '\''] =~= seq!['\'', '\'']);
    if t.len() > 0 {
        lemma_ps_escape(s, t.drop_last());
        assert((s + t).drop_last() =~= s + t.drop_last());
        assert((s + t).last() == t.last());
    } else {
        assert(s + t =~= s);
        assert(ps_escape(s) + ps_escape(t) =~= ps_escape(s));
    }
    if s.len() > 0 {
        lemma_ps_escape(s.drop_last(), Seq::<char>::empty());
        if forall|i: int| 0 <= i < s.len() ==> #[trigger] s[i] != '\'' {
            assert(s.last() != '\'');
            assert forall|i: int| 0 <= i < s.drop_last().len() implies #[trigger] s.drop_last()[i]
                != '\'' by {
                assert(s.drop_last()[i] == s[i]);
            }
            assert(s =~= s.drop_last() + seq![s.last()]);
        }
    }
}

} // verus!
