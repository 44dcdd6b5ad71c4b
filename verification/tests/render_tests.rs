use pulldown_cmark::{Event, Options, Parser, Tag};
use quizdown::html::render_html_preview;
use quizdown::{list_themes, process_questions_str, SyntaxHighlightingOptions};

#[test]
fn test_inline_in_para() {
    let contents = "What is the output of ``f1(3)``?";
    let opts = SyntaxHighlightingOptions::default();
    let renderer = opts.create().unwrap();
    let mut html = String::new();
    renderer.render(&mut html, contents);
    println!("html={}", html);
    assert_eq!("<p>What is the output of <code style=\"background-color:#ffffff;\"><span style=\"color:#323232;\">f1(3)</span></code>\n?</p>\n", html);
}

#[test]
fn test_code_block_events() {
    let example = r#"
Hello! ``inline``.

```java
Java code here.
```

    indented code here
    and here.

Non-code here.
        "#;

    let mut md_opt = Options::empty();
    md_opt.insert(Options::ENABLE_STRIKETHROUGH);
    md_opt.insert(Options::ENABLE_TABLES);
    md_opt.insert(Options::ENABLE_TASKLISTS);
    let parser = Parser::new_ext(example, md_opt);

    let tokens = parser.collect::<Vec<Event>>();
    let mut in_code = false;
    let mut code_lines_found = Vec::new();
    for t in tokens {
        match t {
            Event::Start(Tag::CodeBlock(_)) => in_code = true,
            Event::End(Tag::CodeBlock(_)) => in_code = false,
            Event::Html(_) => panic!("No html tags!"),
            Event::Text(contents) => {
                if in_code {
                    code_lines_found.push(contents.to_string())
                }
            }
            Event::Code(inline) => assert_eq!(inline.as_ref(), "inline"),
            _ => continue,
        }
    }
    assert_eq!(
        vec!["Java code here.\n", "indented code here\n", "and here.\n"],
        code_lines_found
    );
}

#[test]
fn test_code_block_question() {
    let src = "## What does this print?\n\n```java\nSystem.out.println(1);\n```\n\n- [x] one\n- [ ] two\n";
    let qs = process_questions_str(src, None).unwrap();
    assert_eq!(1, qs.len());
    assert!(qs[0].prompt.contains("<pre style="));
    assert!(qs[0].prompt.contains("println"));
}

#[test]
fn test_html_preview_structure() {
    let src = "## Pick!\n\n- [x] right\n- [ ] wrong\n";
    let qs = process_questions_str(src, None).unwrap();
    let snippet = render_html_preview("my quiz", &qs, false).unwrap();
    assert!(snippet.starts_with("<i class='quizdown-loaded'>Loaded from \"my quiz\"</i>\n"));
    assert!(snippet.contains("<div class='quizdown-prompt'><h2>Pick!</h2></div>"));
    assert!(snippet.contains("<input id='opt0' type='checkbox' checked />"));
    assert!(snippet.contains("<input id='opt0' type='checkbox'  />"));
    assert!(snippet.contains("<ul>"));
    assert!(!snippet.contains("<html>"));
    let full = render_html_preview("my quiz", &qs, true).unwrap();
    assert!(full.starts_with("<html>"));
    assert!(full.ends_with("</body></html>"));
}

#[test]
fn test_list_themes_sorted() {
    let themes = list_themes();
    assert!(themes.iter().any(|t| t == "InspiredGitHub"));
    for pair in themes.windows(2) {
        assert!(pair[0] < pair[1]);
    }
}
