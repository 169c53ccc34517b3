use frey::cli::{extract_opt_level, parse, Emit, ParseOutcome};
use frey::driver::default_output_path;

fn args(v: &[&str]) -> Vec<String> {
    v.iter().map(|s| s.to_string()).collect()
}

#[test]
fn opt_level_defaults_to_zero() {
    assert_eq!(extract_opt_level(args(&["a.frey"])), Ok((args(&["a.frey"]), 0)));
}

#[test]
fn opt_level_is_taken_out() {
    assert_eq!(
        extract_opt_level(args(&["-O2", "a.frey", "-v"])),
        Ok((args(&["a.frey", "-v"]), 2))
    );
    assert_eq!(extract_opt_level(args(&["-O3", "-O3"])), Ok((Vec::new(), 3)));
}

#[test]
fn conflicting_opt_levels() {
    assert_eq!(
        extract_opt_level(args(&["-O1", "x", "-O2"])),
        Err("conflicting optimization levels: -O1 and -O2".to_string())
    );
}

fn run(v: &[&str]) -> frey::cli::Args {
    match parse(args(v)) {
        ParseOutcome::Run(a) => a,
        other => panic!("expected a run, got {other:?}"),
    }
}

fn error(v: &[&str]) -> String {
    match parse(args(v)) {
        ParseOutcome::Error(m) => m,
        other => panic!("expected an error, got {other:?}"),
    }
}

#[test]
fn parses_a_plain_build() {
    let a = run(&["main.frey"]);
    assert_eq!(a.input, "main.frey");
    assert_eq!(a.output, None);
    assert_eq!(a.emit, Emit::Executable);
    assert_eq!(a.opt_level, 0);
    assert!(!a.verbose);
}

#[test]
fn parses_all_options() {
    let a = run(&["-v", "-o", "out.s", "-S", "main.frey", "-O3"]);
    assert_eq!(a.input, "main.frey");
    assert_eq!(a.output, Some("out.s".to_string()));
    assert_eq!(a.emit, Emit::Assembly);
    assert_eq!(a.opt_level, 3);
    assert!(a.verbose);
    let a = run(&["--emit-llvm-ir", "x.frey", "--verbose"]);
    assert_eq!(a.emit, Emit::LlvmIr);
    assert!(a.verbose);
}

#[test]
fn help_and_version() {
    assert!(matches!(parse(args(&["x", "--help"])), ParseOutcome::Help));
    assert!(matches!(parse(args(&["-h"])), ParseOutcome::Help));
    assert!(matches!(parse(args(&["-V"])), ParseOutcome::Version));
}

#[test]
fn command_line_errors() {
    assert_eq!(error(&["-S", "-R", "a.frey"]), "cannot combine -S and -R/--emit-llvm-ir");
    assert_eq!(error(&[]), "missing input file");
    assert_eq!(error(&["a.frey", "b\"c", "d"]), "unexpected extra arguments: [\"b\\\"c\", \"d\"]");
    assert_eq!(
        error(&["a.frey", "-o"]),
        "invalid value for -o: the '-o' option doesn't have an associated value"
    );
    assert_eq!(error(&["-O0", "-O1"]), "conflicting optimization levels: -O0 and -O1");
}

#[test]
fn extra_arguments_are_listed_as_os_strings() {
    assert_eq!(error(&["a.frey", "it's", "b\\c"]), "unexpected extra arguments: [\"it's\", \"b\\\\c\"]");
}

#[test]
fn default_output_paths() {
    assert_eq!(default_output_path("dir/prog.frey", Emit::Executable, ""), "prog");
    assert_eq!(default_output_path("dir/prog.frey", Emit::Executable, "exe"), "prog.exe");
    assert_eq!(default_output_path("prog.frey", Emit::Assembly, ""), "prog.s");
    assert_eq!(default_output_path("prog", Emit::LlvmIr, ""), "prog.ll");
    assert_eq!(default_output_path("", Emit::Assembly, ""), "out.s");
    assert_eq!(default_output_path(".hidden", Emit::Assembly, ""), ".hidden.s");
}
