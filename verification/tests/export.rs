use stig::export::{
    classify, collect_sources, convert_arguments, image_file, push_diagram, push_markdown,
    render_arguments, RenderArgument, SourceKind, CONVERTER, HEADER_FILE, HEADER_TEXT, NOT_A_DIRECTORY,
    OUTPUT_DIRECTORY, PAGE_BREAK, PDF_FILE, RENDERER, TEXT_FILE, UNEXPECTED_EVENT,
};
use stig::export_job::{ExportAction, ExportEvent, ExportJob, Phase};
use stig::listing::{Entry, EntryKind};

fn file(name: &str) -> Entry {
    Entry { name: name.to_string(), kind: EntryKind::File }
}

fn directory(name: &str) -> Entry {
    Entry { name: name.to_string(), kind: EntryKind::Directory }
}

fn exited(success: bool, stderr: &str) -> ExportEvent {
    ExportEvent::ToolExited { success, stderr: stderr.as_bytes().to_vec() }
}

/// Runs a job up to the listing of `entries`; gives the job and the action
/// that follows the listing.
fn listed(entries: Vec<Entry>) -> (ExportJob, ExportAction) {
    let (job, first) = ExportJob::start();
    assert!(matches!(first, ExportAction::CheckDirectory));
    let (job, second) = job.step(ExportEvent::IsDirectory(true));
    assert!(matches!(second, ExportAction::ResetOutput));
    let (job, third) = job.step(ExportEvent::Succeeded);
    assert!(matches!(third, ExportAction::ListEntries));
    job.step(ExportEvent::Entries(entries))
}

fn failure(action: ExportAction) -> String {
    match action {
        ExportAction::Fail { message } => message,
        other => panic!("expected a failure, got {:?}", other),
    }
}

#[test]
fn classify_goes_by_the_extension() {
    assert_eq!(classify("a.md"), Some(SourceKind::Markdown));
    assert_eq!(classify("b.mmd"), Some(SourceKind::Diagram));
    assert_eq!(classify("notes.v2.md"), Some(SourceKind::Markdown));
    assert_eq!(classify("x.y.mmd"), Some(SourceKind::Diagram));
    assert_eq!(classify("..md"), Some(SourceKind::Markdown));
    assert_eq!(classify(".md"), None);
    assert_eq!(classify(".mmd"), None);
    assert_eq!(classify("md"), None);
    assert_eq!(classify("mmd"), None);
    assert_eq!(classify(""), None);
    assert_eq!(classify("a.MD"), None);
    assert_eq!(classify("a.md "), None);
    assert_eq!(classify("a.mdx"), None);
    assert_eq!(classify("a.txt"), None);
    assert_eq!(classify("amd"), None);
    assert_eq!(classify("a.mmmd"), None);
    assert_eq!(classify("a.md.bak"), None);
    assert_eq!(classify("é.md"), Some(SourceKind::Markdown));
}

#[test]
fn classify_agrees_with_the_extension_of_a_path() {
    for name in ["a.md", ".md", "..md", "a.mmd", "a.", "a", "a.b.md", ".a.md", "x.mmd.md"] {
        let extension = std::path::Path::new(name).extension().and_then(|e| e.to_str());
        let expected = match extension {
            Some("md") => Some(SourceKind::Markdown),
            Some("mmd") => Some(SourceKind::Diagram),
            _ => None,
        };
        assert_eq!(classify(name), expected);
    }
}

#[test]
fn collect_sources_takes_the_files_of_both_kinds_sorted() {
    let entries = vec![
        file("z.md"),
        file("b.mmd"),
        directory("dir.md"),
        file("a.md"),
        file("readme.txt"),
        Entry { name: "link.md".to_string(), kind: EntryKind::Other },
        file("a.mmd"),
    ];
    assert_eq!(collect_sources(&entries), vec!["a.md", "a.mmd", "b.mmd", "z.md"]);
}

#[test]
fn image_file_numbers_the_image() {
    assert_eq!(image_file(1), "diagram_1.png");
    assert_eq!(image_file(2), "diagram_2.png");
    assert_eq!(image_file(10), "diagram_10.png");
    assert_eq!(image_file(123), "diagram_123.png");
}

#[test]
fn push_markdown_adds_a_page_break_and_the_text() {
    let mut text = String::from("before");
    push_markdown(&mut text, "# Title\nbody");
    assert_eq!(text, "before\n\\pagebreak\n# Title\nbody\n");
    assert_eq!(PAGE_BREAK, "\\pagebreak");
}

#[test]
fn push_diagram_adds_a_reference_to_the_image() {
    let mut text = String::from("before");
    push_diagram(&mut text, "diagram_3.png");
    assert_eq!(text, "before![diagram_3.png](diagram_3.png)\n\n");
}

#[test]
fn render_arguments_are_those_of_the_renderer() {
    assert_eq!(RENDERER, "mmdc");
    let line: Vec<String> = render_arguments()
        .into_iter()
        .map(|argument| match argument {
            RenderArgument::Text(text) => text,
            RenderArgument::Source => "/p/b.mmd".to_string(),
            RenderArgument::Image => "/p/output/diagram_1.png".to_string(),
        })
        .collect();
    assert_eq!(
        line,
        vec![
            "-i",
            "/p/b.mmd",
            "-o",
            "/p/output/diagram_1.png",
            "--theme",
            "dark",
            "--backgroundColor",
            "transparent",
            "--scale",
            "3",
        ]
    );
}

#[test]
fn render_arguments_leave_the_two_paths_to_the_driver() {
    let arguments = render_arguments();
    assert_eq!(arguments.len(), 10);
    assert!(matches!(arguments[1], RenderArgument::Source));
    assert!(matches!(arguments[3], RenderArgument::Image));
    let paths = arguments.iter().filter(|a| !matches!(a, RenderArgument::Text(_))).count();
    assert_eq!(paths, 2);
}

#[test]
fn convert_arguments_are_those_of_the_converter() {
    assert_eq!(CONVERTER, "pandoc");
    assert_eq!(
        convert_arguments(),
        vec![
            "project.md",
            "-o",
            "project.pdf",
            "--include-in-header",
            "header.tex",
            "--pdf-engine",
            "xelatex",
        ]
    );
    assert_eq!(OUTPUT_DIRECTORY, "output");
    assert_eq!(TEXT_FILE, "project.md");
    assert_eq!(HEADER_FILE, "header.tex");
    assert_eq!(PDF_FILE, "project.pdf");
}

#[test]
fn header_sets_font_and_colours() {
    assert_eq!(
        HEADER_TEXT,
        "\n\\usepackage{pagecolor}\n\\usepackage{fontspec}\n\\setmainfont{Arial}\n\\definecolor{background}{RGB}{19,23,31}\n\\definecolor{text}{RGB}{255,255,255}\n\\pagecolor{background}\n\\color{text}\n"
    );
}

#[test]
fn export_of_a_markdown_file_and_a_diagram() {
    let (job, action) = listed(vec![file("b.mmd"), file("a.md")]);
    assert_eq!(job.phase(), Phase::Walking);
    match action {
        ExportAction::ReadSource { name } => assert_eq!(name, "a.md"),
        other => panic!("unexpected {:?}", other),
    }
    let (job, action) = job.step(ExportEvent::Text("X".to_string()));
    match action {
        ExportAction::RenderDiagram { source, image } => {
            assert_eq!(source, "b.mmd");
            assert_eq!(image, "diagram_1.png");
        }
        other => panic!("unexpected {:?}", other),
    }
    let (job, action) = job.step(exited(true, ""));
    assert_eq!(job.phase(), Phase::WritingText);
    match action {
        ExportAction::WriteFile { name, content } => {
            assert_eq!(name, "project.md");
            assert_eq!(content, "\n\\pagebreak\nX\n![diagram_1.png](diagram_1.png)\n\n");
            assert!(content.contains("\\pagebreak"));
            assert!(content.contains("X"));
        }
        other => panic!("unexpected {:?}", other),
    }
    let (job, action) = job.step(ExportEvent::Succeeded);
    match action {
        ExportAction::WriteFile { name, content } => {
            assert_eq!(name, "header.tex");
            assert_eq!(content, HEADER_TEXT);
        }
        other => panic!("unexpected {:?}", other),
    }
    let (job, action) = job.step(ExportEvent::Succeeded);
    assert!(matches!(action, ExportAction::Convert));
    assert_eq!(job.phase(), Phase::Converting);
    let (job, action) = job.step(exited(true, "warnings"));
    assert!(matches!(action, ExportAction::Finish));
    assert!(job.is_finished());
}

/// Runs a whole export of `entries`, each markdown file holding its own
/// name; gives every action in order, rendered with `{:?}`.
fn whole_run(entries: Vec<Entry>) -> Vec<String> {
    let mut actions = Vec::new();
    let (mut job, mut action) = ExportJob::start();
    loop {
        actions.push(format!("{:?}", action));
        let event = match &action {
            ExportAction::CheckDirectory => ExportEvent::IsDirectory(true),
            ExportAction::ResetOutput => ExportEvent::Succeeded,
            ExportAction::ListEntries => ExportEvent::Entries(entries.clone()),
            ExportAction::ReadSource { name } => ExportEvent::Text(name.clone()),
            ExportAction::RenderDiagram { .. } => exited(true, ""),
            ExportAction::WriteFile { .. } => ExportEvent::Succeeded,
            ExportAction::Convert => exited(true, ""),
            ExportAction::Finish | ExportAction::Fail { .. } => break,
        };
        let next = job.step(event);
        job = next.0;
        action = next.1;
    }
    assert!(job.is_finished());
    actions
}

#[test]
fn export_again_gives_the_same_actions() {
    let entries = vec![file("a.md"), file("b.mmd")];
    let first = whole_run(entries.clone());
    let second = whole_run(entries);
    assert_eq!(first, second);
    assert_eq!(first.len(), 9);
    assert!(first[4].contains("diagram_1.png"));
    assert!(first.last().unwrap().contains("Finish"));
}

#[test]
fn export_interleaves_the_kinds_and_counts_the_diagrams() {
    let entries =
        vec![file("3.mmd"), file("1.mmd"), file("2.md"), file("4.md"), file("5.mmd"), directory("6.md")];
    let actions = whole_run(entries);
    let expected_text = "![diagram_1.png](diagram_1.png)\n\n\n\\pagebreak\n2.md\n![diagram_2.png](diagram_2.png)\n\n\n\\pagebreak\n4.md\n![diagram_3.png](diagram_3.png)\n\n";
    let expected = vec![
        format!("{:?}", ExportAction::CheckDirectory),
        format!("{:?}", ExportAction::ResetOutput),
        format!("{:?}", ExportAction::ListEntries),
        format!(
            "{:?}",
            ExportAction::RenderDiagram {
                source: "1.mmd".to_string(),
                image: "diagram_1.png".to_string()
            }
        ),
        format!("{:?}", ExportAction::ReadSource { name: "2.md".to_string() }),
        format!(
            "{:?}",
            ExportAction::RenderDiagram {
                source: "3.mmd".to_string(),
                image: "diagram_2.png".to_string()
            }
        ),
        format!("{:?}", ExportAction::ReadSource { name: "4.md".to_string() }),
        format!(
            "{:?}",
            ExportAction::RenderDiagram {
                source: "5.mmd".to_string(),
                image: "diagram_3.png".to_string()
            }
        ),
        format!(
            "{:?}",
            ExportAction::WriteFile {
                name: "project.md".to_string(),
                content: expected_text.to_string()
            }
        ),
        format!(
            "{:?}",
            ExportAction::WriteFile {
                name: "header.tex".to_string(),
                content: HEADER_TEXT.to_string()
            }
        ),
        format!("{:?}", ExportAction::Convert),
        format!("{:?}", ExportAction::Finish),
    ];
    assert_eq!(actions, expected);
}

#[test]
fn export_without_sources_writes_an_empty_text() {
    let (job, action) = listed(vec![file("notes.txt"), directory("src")]);
    assert_eq!(job.phase(), Phase::WritingText);
    match action {
        ExportAction::WriteFile { name, content } => {
            assert_eq!(name, "project.md");
            assert_eq!(content, "");
        }
        other => panic!("unexpected {:?}", other),
    }
}

#[test]
fn export_rejects_what_is_no_directory() {
    let (job, _) = ExportJob::start();
    let (job, action) = job.step(ExportEvent::IsDirectory(false));
    assert_eq!(failure(action), "Project path is not a directory");
    assert_eq!(NOT_A_DIRECTORY, "Project path is not a directory");
    assert!(job.is_finished());
}

#[test]
fn export_fails_with_the_words_of_a_failed_action() {
    let (job, _) = ExportJob::start();
    let (job, _) = job.step(ExportEvent::IsDirectory(true));
    let (job, action) = job.step(ExportEvent::Failed("permission denied".to_string()));
    assert_eq!(failure(action), "permission denied");
    assert!(job.is_finished());

    let (job, _) = listed(vec![file("a.md")]);
    let (job, action) = job.step(ExportEvent::Failed("No such file or directory".to_string()));
    assert_eq!(failure(action), "No such file or directory");
    assert!(job.is_finished());
}

#[test]
fn export_fails_with_what_the_renderer_wrote() {
    let (job, action) = listed(vec![file("a.mmd"), file("b.md")]);
    assert!(matches!(action, ExportAction::RenderDiagram { .. }));
    let (job, action) = job.step(exited(false, "Parse error on line 2"));
    assert_eq!(failure(action), "Parse error on line 2");
    assert!(job.is_finished());
}

#[test]
fn export_fails_with_what_the_converter_wrote() {
    let (job, _) = listed(Vec::new());
    let (job, _) = job.step(ExportEvent::Succeeded);
    let (job, action) = job.step(ExportEvent::Succeeded);
    assert!(matches!(action, ExportAction::Convert));
    let event = ExportEvent::ToolExited { success: false, stderr: b"xelatex not found \xff".to_vec() };
    let (job, action) = job.step(event);
    assert_eq!(failure(action), "xelatex not found \u{FFFD}");
    assert!(job.is_finished());
}

#[test]
fn export_fails_on_an_event_that_answers_nothing() {
    let (job, _) = ExportJob::start();
    let (job, action) = job.step(ExportEvent::Succeeded);
    assert_eq!(failure(action), UNEXPECTED_EVENT);
    assert!(job.is_finished());
    let (job, action) = job.step(ExportEvent::IsDirectory(true));
    assert_eq!(failure(action), "unexpected event");
    let (_, action) = job.step(ExportEvent::Failed("late".to_string()));
    assert_eq!(failure(action), "unexpected event");

    let (job, _) = listed(vec![file("a.md")]);
    let (_, action) = job.step(exited(true, ""));
    assert_eq!(failure(action), "unexpected event");

    let (job, _) = listed(vec![file("a.mmd")]);
    let (_, action) = job.step(ExportEvent::Text("text".to_string()));
    assert_eq!(failure(action), "unexpected event");
}
