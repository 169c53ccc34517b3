use frey::lexer::types::{Position, Span};
use frey::modules::{import_file_name_of, resolve_import_path, LoadAction, Loader, SourceMap};
use frey::report::diagnostic_lines;

#[test]
fn source_map_bases_follow_file_sizes() {
    let mut map = SourceMap::new();
    assert_eq!(map.add("a.frey".to_string(), "let x = 1;".to_string()), 0);
    assert_eq!(map.add("b.frey".to_string(), "é;".to_string()), 10);
    assert_eq!(map.total_len(), 13);
    assert_eq!(map.file_for_offset(0).unwrap().path, "a.frey");
    assert_eq!(map.file_for_offset(9).unwrap().path, "a.frey");
    assert_eq!(map.file_for_offset(10).unwrap().path, "b.frey");
    assert_eq!(map.file_for_offset(500).unwrap().path, "b.frey");
}

#[test]
fn empty_source_map_has_no_file() {
    let map = SourceMap::new();
    assert!(map.file_for_offset(0).is_none());
}

#[test]
fn import_paths_get_the_extension_once() {
    assert_eq!(import_file_name_of("lib/math"), "lib/math.frey");
    assert_eq!(import_file_name_of("util.frey"), "util.frey");
    assert_eq!(import_file_name_of("frey"), "frey.frey");
    assert_eq!(import_file_name_of(""), ".frey");
}

#[test]
fn import_paths_resolve_against_the_importing_directory() {
    assert_eq!(resolve_import_path("lib", "util"), "lib/util.frey");
    assert_eq!(resolve_import_path("lib", "util.frey"), "lib/util.frey");
    assert_eq!(resolve_import_path("/p", "a/b"), "/p/a/b.frey");
    assert_eq!(resolve_import_path("", "util"), "util.frey");
}

#[test]
fn loader_hands_out_imports_depth_first() {
    let mut loader = Loader::new();
    loader.begin_file("/p/main.frey".to_string(), "import \"a\";\nimport \"b\";\nlet main = 1;".to_string()).ok().unwrap();
    let next = |l: &mut Loader| match l.next_action() {
        LoadAction::Read { path, .. } => path,
        LoadAction::Done => "done".to_string(),
    };
    assert_eq!(next(&mut loader), "/p/a.frey");
    loader.begin_file("/p/a.frey".to_string(), "import \"c\";\nlet a = 1;".to_string()).ok().unwrap();
    assert_eq!(next(&mut loader), "/p/c.frey");
    loader.begin_file("/p/c.frey".to_string(), "let c = 1;".to_string()).ok().unwrap();
    // c and then a are complete and merged before b is handed out.
    assert_eq!(next(&mut loader), "/p/b.frey");
    loader.begin_file("/p/b.frey".to_string(), "import \"c\";\nlet b = 1;".to_string()).ok().unwrap();
    assert_eq!(next(&mut loader), "/p/c.frey");
    // Already loaded: skipped.
    assert!(loader.begin_file("/p/c.frey".to_string(), "let c = 1;".to_string()).ok().unwrap().is_none());
    assert_eq!(next(&mut loader), "done");
    let (_, program) = loader.into_parts();
    let names: Vec<&str> = program.declarations.iter().map(|d| d.name.as_str()).collect();
    assert_eq!(names, vec!["c", "a", "b", "main"]);
}

#[test]
fn loader_merges_imports_first() {
    let mut loader = Loader::new();
    let imports = loader
        .begin_file("/p/main.frey".to_string(), "import \"lib\";\nlet main = 1;".to_string())
        .ok()
        .unwrap()
        .unwrap();
    assert_eq!(imports.len(), 1);
    assert_eq!(imports[0].0, "lib.frey");
    let inner = loader
        .begin_file("/p/lib.frey".to_string(), "let helper = 2;".to_string())
        .ok()
        .unwrap()
        .unwrap();
    assert!(inner.is_empty());
    loader.finish_file();
    loader.finish_file();
    let (map, program) = loader.into_parts();
    let names: Vec<&str> = program.declarations.iter().map(|d| d.name.as_str()).collect();
    assert_eq!(names, vec!["helper", "main"]);
    assert_eq!(map.file_for_offset(0).unwrap().path, "/p/main.frey");
    let lib_base = "import \"lib\";\nlet main = 1;".len();
    assert_eq!(map.file_for_offset(lib_base).unwrap().path, "/p/lib.frey");
    // Node ids continue across files.
    assert!(program.declarations[0].id.value() > program.declarations[1].id.value());
}

#[test]
fn loader_skips_files_already_loaded() {
    let mut loader = Loader::new();
    assert!(loader.begin_file("/a.frey".to_string(), "let a = 1;".to_string()).ok().unwrap().is_some());
    assert!(loader.begin_file("/a.frey".to_string(), "let a = 1;".to_string()).ok().unwrap().is_none());
}

#[test]
fn loader_reports_lex_errors_with_global_span() {
    let mut loader = Loader::new();
    loader.begin_file("/a.frey".to_string(), "let a = 1;".to_string()).ok().unwrap();
    let err = match loader.begin_file("/b.frey".to_string(), "let b = @;".to_string()) {
        Err(e) => e,
        Ok(_) => panic!("expected a lex error"),
    };
    assert_eq!(err.message, "unexpected character: `@`");
    let span = err.span.unwrap();
    assert_eq!(span.start.offset, 10 + 8);
    assert_eq!(span.start.line, 1);
    assert_eq!(span.start.column, 9);
}

#[test]
fn loader_reports_parse_errors() {
    let mut loader = Loader::new();
    let err = match loader.begin_file("/a.frey".to_string(), "let = 1;".to_string()) {
        Err(e) => e,
        Ok(_) => panic!("expected a parse error"),
    };
    assert!(err.message.starts_with("expected "));
    assert!(err.span.is_some());
}

#[test]
fn diagnostics_point_at_the_span() {
    let src = "let a = 1;\r\nlet bb = oops;\n";
    let span = Span {
        start: Position { offset: 21, line: 2, column: 10 },
        end: Position { offset: 25, line: 2, column: 14 },
    };
    let lines = diagnostic_lines("\\\\?\\C:\\m.frey", src, span, "name not found: oops");
    assert_eq!(lines.len(), 5);
    assert_eq!(lines[0], "\x1b[31;1merror\x1b[0m: name not found: oops");
    assert_eq!(lines[1], "  \x1b[34;1m-->\x1b[0m C:\\m.frey:2:10");
    assert_eq!(lines[2], "  \x1b[34;1m|\x1b[0m");
    assert_eq!(lines[3], "\x1b[34;1m2 |\x1b[0m let bb = oops;");
    assert_eq!(lines[4], "  \x1b[34;1m|\x1b[0m          \x1b[31;1m^^^^\x1b[0m");
}

#[test]
fn diagnostics_mark_rest_of_line_for_multiline_spans() {
    let span = Span {
        start: Position { offset: 4, line: 1, column: 5 },
        end: Position { offset: 12, line: 2, column: 2 },
    };
    let lines = diagnostic_lines("m.frey", "let x\n= 1;", span, "m");
    assert_eq!(lines[4], "  \x1b[34;1m|\x1b[0m     \x1b[31;1m^\x1b[0m");
    let lines = diagnostic_lines("m.frey", "abc", Span {
        start: Position { offset: 0, line: 7, column: 1 },
        end: Position { offset: 0, line: 7, column: 1 },
    }, "m");
    assert_eq!(lines[3], "\x1b[34;1m7 |\x1b[0m ");
}
