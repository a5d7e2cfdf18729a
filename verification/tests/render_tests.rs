use finspect::highlight::{escape_spans, StyledSpan};
use finspect::lines::split_lines;
use finspect::App;

fn strip_escapes(s: &str) -> String {
    let mut out = String::new();
    let mut chars = s.chars();
    while let Some(c) = chars.next() {
        if c == '\u{1b}' {
            for d in chars.by_ref() {
                if d == 'm' {
                    break;
                }
            }
        } else {
            out.push(c);
        }
    }
    out
}

fn app_with_content(path: &str, content: &str) -> App {
    let args = vec!["prog".to_string(), path.to_string()];
    let mut app = App::new(&args).unwrap();
    app.set_file_content(content.to_string());
    app
}

#[test]
fn app_new_refuses_missing_path() {
    let args = vec!["prog".to_string()];
    match App::new(&args) {
        Err(e) => assert_eq!(e, "Not enough arguments"),
        Ok(_) => panic!("a missing path must be refused"),
    }
}

#[test]
fn app_new_takes_the_first_argument_as_path() {
    let args = vec!["prog".to_string(), "a.rs".to_string(), "extra".to_string()];
    let app = App::new(&args).unwrap();
    assert_eq!(app.file_path, "a.rs");
    assert_eq!(app.file_content, "");
    assert!(app.highlighted_lines.is_empty());
}

#[test]
fn split_keeps_delimiters_and_order() {
    let split = |s: &str| -> Vec<String> { split_lines(s) };
    assert_eq!(split("a\nb"), vec!["a\n".to_string(), "b".to_string()]);
    assert_eq!(split("a\n"), vec!["a\n".to_string()]);
    assert_eq!(split("\n\n"), vec!["\n".to_string(), "\n".to_string()]);
    assert_eq!(split(""), Vec::<String>::new());
    assert_eq!(
        split("one\ntwo\nthree"),
        vec!["one\n".to_string(), "two\n".to_string(), "three".to_string()]
    );
}

#[test]
fn empty_file_renders_no_lines() {
    let mut app = app_with_content("empty.txt", "");
    assert!(app.get_highlighted_lines().is_ok());
    assert!(app.highlighted_lines.is_empty());
}

#[test]
fn rendered_lines_follow_input_order() {
    let content = "fn main() {\n    let x = 1;\n}\n";
    let mut app = app_with_content("t.rs", content);
    app.get_highlighted_lines().unwrap();
    assert_eq!(app.highlighted_lines.len(), 3);
    let stripped: Vec<String> =
        app.highlighted_lines.iter().map(|l| strip_escapes(l)).collect();
    assert_eq!(stripped, vec!["fn main() {\n", "    let x = 1;\n", "}\n"]);
}

#[test]
fn file_without_trailing_newline_keeps_its_last_line() {
    let content = "let a = 1;\nlet b = 2;";
    let mut app = app_with_content("t.rs", content);
    app.get_highlighted_lines().unwrap();
    assert_eq!(app.highlighted_lines.len(), 2);
    let stripped: Vec<String> =
        app.highlighted_lines.iter().map(|l| strip_escapes(l)).collect();
    assert_eq!(stripped, vec!["let a = 1;\n", "let b = 2;"]);
}

#[test]
fn rendering_appends_to_the_buffer() {
    let mut app = app_with_content("t.rs", "first\n");
    app.get_highlighted_lines().unwrap();
    assert_eq!(app.highlighted_lines.len(), 1);
    app.set_file_content("second\nthird".to_string());
    app.get_highlighted_lines().unwrap();
    assert_eq!(app.highlighted_lines.len(), 3);
    let stripped: Vec<String> =
        app.highlighted_lines.iter().map(|l| strip_escapes(l)).collect();
    assert_eq!(stripped, vec!["first\n", "second\n", "third"]);
}

#[test]
fn rendered_lines_carry_color_escapes() {
    let mut app = app_with_content("t.rs", "fn main() {}\n");
    app.get_highlighted_lines().unwrap();
    let line = &app.highlighted_lines[0];
    assert!(line.starts_with("\u{1b}[38;2;"));
    assert!(line.ends_with("\u{1b}[0m"));
    assert_ne!(line.as_str(), "fn main() {}\n");
}

#[test]
fn unknown_extension_still_renders_every_line() {
    let content = "plain words\nmore words";
    let mut app = app_with_content("notes.zzzqq", content);
    app.get_highlighted_lines().unwrap();
    assert_eq!(app.highlighted_lines.len(), 2);
    let stripped: Vec<String> =
        app.highlighted_lines.iter().map(|l| strip_escapes(l)).collect();
    assert_eq!(stripped, vec!["plain words\n", "more words"]);
}

#[test]
fn escape_spans_serializes_opaque_colors_directly() {
    let spans = vec![StyledSpan {
        fg_r: 1,
        fg_g: 2,
        fg_b: 3,
        fg_a: 255,
        bg_r: 9,
        bg_g: 9,
        bg_b: 9,
        text: "hi".to_string(),
    }];
    assert_eq!(escape_spans(&spans), "\u{1b}[38;2;1;2;3mhi\u{1b}[0m");
}

#[test]
fn escape_spans_blends_translucent_foregrounds() {
    // alpha 0 leaves only the background channels
    let spans = vec![StyledSpan {
        fg_r: 100,
        fg_g: 100,
        fg_b: 100,
        fg_a: 0,
        bg_r: 10,
        bg_g: 20,
        bg_b: 30,
        text: "x".to_string(),
    }];
    assert_eq!(escape_spans(&spans), "\u{1b}[38;2;10;20;30mx\u{1b}[0m");
    let empty: Vec<StyledSpan> = Vec::new();
    assert_eq!(escape_spans(&empty), "\u{1b}[0m");
}
