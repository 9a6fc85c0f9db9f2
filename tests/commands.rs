use pdfcore::{
    command_line, compress_command, compress_invocation, extract_invocation, finish_run, find_tool,
    merge_command, merge_invocation, override_outcome, rotate_command, rotate_invocation, shell_escape,
    split_invocation, split_pages_command, check_input, validate_input_file, contains_page_token,
    rotation_arg, first_missing, first_found, trim_text,
};
use pdfcore::{CompressPreset, PageSelection, PdfError, Tool, ToolCommand};

fn strings(v: &[&str]) -> Vec<String> {
    v.iter().map(|s| s.to_string()).collect()
}

#[test]
fn merge_with_no_inputs_is_invalid_argument() {
    let r = merge_command(&Vec::new(), &Vec::new(), "out.pdf", Some("/no/such/qpdf".to_string()));
    assert!(matches!(r, Err(PdfError::InvalidArgument(ref m)) if m == "merge requires at least one input"));
}

#[test]
fn merge_reports_first_missing_input() {
    let inputs = strings(&["a.pdf", "/no/such/b.pdf", "/no/such/c.pdf"]);
    let r = merge_command(&inputs, &vec![true, false, false], "out.pdf", Some("/no/such/qpdf".to_string()));
    assert!(matches!(r, Err(PdfError::InputNotFound(ref p)) if p == "/no/such/b.pdf"));
}

#[test]
fn merge_builds_page_tool_arguments() {
    let f = tempfile::NamedTempFile::new().unwrap();
    let a = f.path().to_str().unwrap().to_string();
    let tool = tempfile::NamedTempFile::new().unwrap();
    let prog = tool.path().to_str().unwrap().to_string();
    let cmd = merge_command(&vec![a.clone(), a.clone()], &vec![true, true], "out.pdf", Some(prog.clone())).unwrap();
    assert_eq!(cmd.tool, Tool::Qpdf);
    assert_eq!(cmd.program, prog);
    assert_eq!(cmd.args, strings(&["--empty", "--pages", &a, &a, "--", "out.pdf"]));
    assert!(!cmd.capture);
}

#[test]
fn merge_invocation_keeps_input_order() {
    let cmd = merge_invocation("qpdf".to_string(), &strings(&["b.pdf", "a.pdf"]), "m.pdf");
    assert_eq!(cmd.args, strings(&["--empty", "--pages", "b.pdf", "a.pdf", "--", "m.pdf"]));
}

#[test]
fn rotate_with_bad_degrees_is_invalid_argument() {
    for d in [1u16, 45, 89, 91, 360, 65535] {
        let r = rotate_command("/no/such/in.pdf", false, "out.pdf", d, None, None);
        assert!(matches!(r, Err(PdfError::InvalidArgument(_))), "degrees {d}");
    }
}

#[test]
fn rotate_with_good_degrees_checks_input_next() {
    for d in [0u16, 90, 180, 270] {
        let r = rotate_command("/no/such/in.pdf", false, "out.pdf", d, None, Some("/no/such/qpdf".to_string()));
        assert!(matches!(r, Err(PdfError::InputNotFound(_))), "degrees {d}");
    }
}

#[test]
fn rotate_builds_argument_with_range() {
    let sel = PageSelection::Range { start: 2, end: 4 };
    let cmd = rotate_invocation("qpdf".to_string(), "in.pdf", "out.pdf", 90, &sel);
    assert_eq!(cmd.args, strings(&["--rotate", "+90:2-4", "in.pdf", "out.pdf"]));
    assert_eq!(rotation_arg(180, &PageSelection::All), "+180");
    assert_eq!(rotation_arg(0, &PageSelection::All), "+0");
}

#[test]
fn rotate_defaults_to_all_pages() {
    let f = tempfile::NamedTempFile::new().unwrap();
    let input = f.path().to_str().unwrap().to_string();
    let tool = tempfile::NamedTempFile::new().unwrap();
    let prog = tool.path().to_str().unwrap().to_string();
    let cmd = rotate_command(&input, true, "out.pdf", 270, None, Some(prog)).unwrap();
    assert_eq!(cmd.args, strings(&["--rotate", "+270", &input, "out.pdf"]));
}

#[test]
fn split_with_pattern_lacking_token_is_invalid_argument() {
    let r = split_pages_command("/no/such/in.pdf", false, "dir", Some("page.pdf".to_string()), None);
    assert!(matches!(r, Err(PdfError::InvalidArgument(_))));
    let r2 = split_pages_command("/no/such/in.pdf", false, "dir", Some("%x-d.pdf".to_string()), None);
    assert!(matches!(r2, Err(PdfError::InvalidArgument(_))));
}

#[test]
fn split_default_pattern_goes_into_out_dir() {
    let f = tempfile::NamedTempFile::new().unwrap();
    let input = f.path().to_str().unwrap().to_string();
    let tool = tempfile::NamedTempFile::new().unwrap();
    let prog = tool.path().to_str().unwrap().to_string();
    let cmd = split_pages_command(&input, true, "pages", None, Some(prog)).unwrap();
    assert_eq!(cmd.args, strings(&["--split-pages", &input, "pages/page-%d.pdf"]));
    let custom = split_invocation("qpdf".to_string(), "in.pdf", "out-%d.pdf");
    assert_eq!(custom.args, strings(&["--split-pages", "in.pdf", "out-%d.pdf"]));
}

#[test]
fn page_token_search() {
    assert!(contains_page_token("a%d"));
    assert!(contains_page_token("%d"));
    assert!(!contains_page_token("%"));
    assert!(!contains_page_token("d%"));
    assert!(!contains_page_token(""));
}

#[test]
fn extract_text_arguments_and_capture() {
    let to_stdout = extract_invocation("pdftotext".to_string(), "in.pdf", None);
    assert_eq!(to_stdout.args, strings(&["in.pdf", "-"]));
    assert!(to_stdout.capture);
    let to_file = extract_invocation("pdftotext".to_string(), "in.pdf", Some("o.txt".to_string()));
    assert_eq!(to_file.args, strings(&["in.pdf", "o.txt"]));
    assert!(!to_file.capture);
    assert_eq!(to_file.tool, Tool::Pdftotext);
}

#[test]
fn compress_ebook_holds_settings_token() {
    let cmd = compress_invocation("gs".to_string(), "in.pdf", "out.pdf", CompressPreset::Ebook);
    assert!(cmd.args.iter().any(|a| a == "-dPDFSETTINGS=/ebook"));
    assert_eq!(
        cmd.args,
        strings(&[
            "-sDEVICE=pdfwrite",
            "-dCompatibilityLevel=1.4",
            "-dPDFSETTINGS=/ebook",
            "-dNOPAUSE",
            "-dBATCH",
            "-dSAFER",
            "-sOutputFile=out.pdf",
            "in.pdf",
        ])
    );
    assert_eq!(cmd.tool, Tool::Ghostscript);
}

#[test]
fn compress_presets_map_to_tokens() {
    assert_eq!(CompressPreset::Screen.as_gs_setting(), "/screen");
    assert_eq!(CompressPreset::Ebook.as_gs_setting(), "/ebook");
    assert_eq!(CompressPreset::Printer.as_gs_setting(), "/printer");
    assert_eq!(CompressPreset::Prepress.as_gs_setting(), "/prepress");
    assert_eq!(CompressPreset::Default.as_gs_setting(), "/default");
}

#[test]
fn compress_on_missing_input_is_input_not_found() {
    let r = compress_command("/no/such/in.pdf", false, "o.pdf", CompressPreset::Screen, Some("/no/gs".to_string()));
    assert!(matches!(r, Err(PdfError::InputNotFound(_))));
}

#[test]
fn override_to_missing_path_is_missing_tool_without_fallback() {
    let r = find_tool(Tool::Qpdf, Some("/no/such/dir/qpdf".to_string()));
    match r {
        Err(PdfError::MissingTool { tool, hint }) => {
            assert_eq!(tool, "qpdf");
            assert!(hint.starts_with(
                "PDFCLI_QPDF was set to /no/such/dir/qpdf, but that path does not exist.\n\n"
            ));
            assert!(hint.ends_with(&Tool::Qpdf.install_hint()));
        }
        other => panic!("unexpected: {other:?}"),
    }
    let decided = override_outcome(Tool::Ghostscript, "/x/gs".to_string(), false);
    assert!(matches!(decided, Err(PdfError::MissingTool { tool: "ghostscript", .. })));
}

#[test]
fn override_to_existing_path_is_used_verbatim() {
    let f = tempfile::NamedTempFile::new().unwrap();
    let p = f.path().to_str().unwrap().to_string();
    assert_eq!(find_tool(Tool::Ghostscript, Some(p.clone())).unwrap(), p);
    assert_eq!(override_outcome(Tool::Qpdf, "rel/qpdf".to_string(), true).unwrap(), "rel/qpdf");
}

#[test]
fn tool_table_entries() {
    assert_eq!(Tool::Qpdf.name(), "qpdf");
    assert_eq!(Tool::Pdftotext.name(), "pdftotext");
    assert_eq!(Tool::Ghostscript.name(), "ghostscript");
    assert_eq!(Tool::Qpdf.env_override(), "PDFCLI_QPDF");
    assert_eq!(Tool::Pdftotext.env_override(), "PDFCLI_PDFTOTEXT");
    assert_eq!(Tool::Ghostscript.env_override(), "PDFCLI_GS");
    assert_eq!(Tool::Ghostscript.default_exe_names(), vec!["gs", "gswin64c", "gswin32c"]);
    assert_eq!(Tool::Qpdf.default_exe_names(), vec!["qpdf"]);
}

#[test]
fn install_hints_name_three_platforms() {
    assert_eq!(
        Tool::Ghostscript.install_hint(),
        "Set PDFCLI_GS to a full path, or install:\n  macOS: brew install ghostscript\n  Ubuntu/Debian: sudo apt-get update && sudo apt-get install -y ghostscript\n  Windows: choco install ghostscript OR scoop install ghostscript"
    );
    assert_eq!(
        Tool::Pdftotext.install_hint(),
        "Set PDFCLI_PDFTOTEXT to a full path, or install:\n  macOS: brew install pdftotext\n  Ubuntu/Debian: sudo apt-get update && sudo apt-get install -y poppler-utils\n  Windows: choco install poppler OR scoop install poppler"
    );
}

#[test]
fn input_checks() {
    assert!(check_input("a.pdf", true).is_ok());
    assert!(matches!(check_input("a.pdf", false), Err(PdfError::InputNotFound(ref p)) if p == "a.pdf"));
    assert!(matches!(validate_input_file("/no/such/x.pdf"), Err(PdfError::InputNotFound(_))));
}

fn sample_command(capture: bool) -> ToolCommand {
    ToolCommand {
        tool: Tool::Pdftotext,
        program: "/usr/bin/pdftotext".to_string(),
        args: strings(&["my file.pdf", "-"]),
        capture,
    }
}

#[test]
fn failed_run_keeps_output_exactly() {
    let cmd = sample_command(true);
    let r = finish_run(&cmd, false, Some(3), b"out \xff line\n", b"err\n");
    match r {
        Err(PdfError::ToolFailed { tool, command, status, stdout, stderr }) => {
            assert_eq!(tool, "pdftotext");
            assert_eq!(command, "/usr/bin/pdftotext \"my file.pdf\" -");
            assert_eq!(status, 3);
            assert_eq!(stdout, "out \u{fffd} line\n");
            assert_eq!(stderr, "err\n");
        }
        other => panic!("unexpected: {other:?}"),
    }
}

#[test]
fn signalled_run_has_status_minus_one() {
    let r = finish_run(&sample_command(false), false, None, b"", b"");
    assert!(matches!(r, Err(PdfError::ToolFailed { status: -1, .. })));
}

#[test]
fn successful_run_returns_captured_text() {
    assert_eq!(finish_run(&sample_command(true), true, Some(0), b"hello", b"x").unwrap(), "hello");
    assert_eq!(finish_run(&sample_command(false), true, Some(0), b"hello", b"x").unwrap(), "");
}

#[test]
fn command_line_quotes_spaced_arguments() {
    assert_eq!(shell_escape("plain"), "plain");
    assert_eq!(shell_escape("a b"), "\"a b\"");
    assert_eq!(shell_escape("say \"hi\""), "\"say \\\"hi\\\"\"");
    assert_eq!(shell_escape("no\"space"), "no\"space");
    let cmd = ToolCommand {
        tool: Tool::Qpdf,
        program: "qpdf".to_string(),
        args: Vec::new(),
        capture: false,
    };
    assert_eq!(command_line(&cmd), "qpdf");
    assert_eq!(command_line(&sample_command(false)), "/usr/bin/pdftotext \"my file.pdf\" -");
}

#[test]
fn missing_input_comes_before_tool_lookup() {
    let no_tool = Some("/no/such/tool".to_string());
    let r = split_pages_command("in.pdf", false, "dir", None, no_tool.clone());
    assert!(matches!(r, Err(PdfError::InputNotFound(ref p)) if p == "in.pdf"));
    let r = pdfcore::extract_text_command("in.pdf", false, None, no_tool.clone());
    assert!(matches!(r, Err(PdfError::InputNotFound(_))));
    let r = split_pages_command("in.pdf", true, "dir", None, no_tool);
    assert!(matches!(r, Err(PdfError::MissingTool { tool: "qpdf", .. })));
}

#[test]
fn first_missing_reports_first_unknown_input() {
    let inputs = strings(&["a", "b", "c"]);
    assert!(first_missing(&inputs, &vec![true, true, true]).is_ok());
    let r = first_missing(&inputs, &vec![true, false, false]);
    assert!(matches!(r, Err(PdfError::InputNotFound(ref p)) if p == "b"));
    let r = first_missing(&inputs, &vec![true, true]);
    assert!(matches!(r, Err(PdfError::InputNotFound(ref p)) if p == "c"));
}

#[test]
fn first_found_takes_first_hit() {
    let found = vec![None, Some("/usr/bin/gswin64c".to_string()), Some("/x/gswin32c".to_string())];
    assert_eq!(first_found(Tool::Ghostscript, &found).unwrap(), "/usr/bin/gswin64c");
    let none: Vec<Option<String>> = vec![None, None, None];
    match first_found(Tool::Ghostscript, &none) {
        Err(PdfError::MissingTool { tool, hint }) => {
            assert_eq!(tool, "ghostscript");
            assert_eq!(hint, Tool::Ghostscript.install_hint());
        }
        other => panic!("unexpected: {other:?}"),
    }
}

#[test]
fn trimming_follows_white_space_property() {
    assert_eq!(trim_text("  a b \t\n"), "a b");
    assert_eq!(trim_text("\u{3000}x\u{a0}"), "x");
    assert_eq!(trim_text("   "), "");
    assert_eq!(trim_text("\u{200b}y"), "\u{200b}y");
    for s in ["", " x ", "\u{85}q\u{2029}", "\u{1680}\u{2000}z"] {
        assert_eq!(trim_text(s), s.trim());
    }
}
