//! The export of a project to PDF, as a machine that decides and leaves the
//! work to its driver: the driver performs the action it is handed and
//! reports what came of it, until the machine finishes or fails.

use vstd::prelude::*;
use vstd::relations::sorted_by;
use vstd::string::StringExecFns;
use crate::listing::{Entry, EntryKind};
use crate::order::{name_order, names_of, sort_names, lemma_name_order_total};
use crate::text::{decimal, push_decimal, to_chars};

verus! {

/// The directory, below the project, that holds what an export produces.
pub const OUTPUT_DIRECTORY: &'static str = "output";

/// The file, in the output directory, that holds the combined text.
pub const TEXT_FILE: &'static str = "project.md";

/// The file, in the output directory, that holds the styling header.
pub const HEADER_FILE: &'static str = "header.tex";

/// The file, in the output directory, that the converter produces.
pub const PDF_FILE: &'static str = "project.pdf";

/// The program that renders a diagram to an image.
pub const RENDERER: &'static str = "mmdc";

/// The program that converts the combined text to PDF.
pub const CONVERTER: &'static str = "pandoc";

/// The marker that starts a new page before each markdown file.
pub const PAGE_BREAK: &'static str = "\\pagebreak";

/// The styling header: font, background colour and text colour.
pub const HEADER_TEXT: &'static str =
    "\n\\usepackage{pagecolor}\n\\usepackage{fontspec}\n\\setmainfont{Arial}\n\\definecolor{background}{RGB}{19,23,31}\n\\definecolor{text}{RGB}{255,255,255}\n\\pagecolor{background}\n\\color{text}\n";

/// What is reported when the project path is no directory.
pub const NOT_A_DIRECTORY: &'static str = "Project path is not a directory";

/// What is reported when the driver hands in an event that does not answer
/// the action it was given.
pub const UNEXPECTED_EVENT: &'static str = "unexpected event";

/// The two kinds of file that an export takes up.
#[derive(Clone, Copy, Debug, PartialEq, Eq, Structural)]
pub enum SourceKind {
    Markdown,
    Diagram,
}

/// `name` is a non-empty stem, a dot and `ext`.
pub open spec fn has_extension(name: Seq<char>, ext: Seq<char>) -> bool {
    &&& name.len() > ext.len() + 1
    &&& name[name.len() - ext.len() - 1] == '.'
    &&& name.skip(name.len() - ext.len()) == ext
}

/// The kind of source that a file of this name is, if any.
pub open spec fn source_kind(name: Seq<char>) -> Option<SourceKind> {
    if has_extension(name, seq!['m', 'd']) {
        Some(SourceKind::Markdown)
    } else if has_extension(name, seq!['m', 'm', 'd']) {
        Some(SourceKind::Diagram)
    } else {
        None
    }
}

/// The kind of source that a file of this name is, if any.
pub fn classify(name: &str) -> (kind: Option<SourceKind>)
    ensures
        kind == source_kind(name@),
{
    let chars = to_chars(name);
    let n = chars.len();
    if n > 3 && chars[n - 3] == '.' && chars[n - 2] == 'm' && chars[n - 1] == 'd' {
        assert(name@.skip(n - 2) =~= seq!['m', 'd']);
        Some(SourceKind::Markdown)
    } else if n > 4 && chars[n - 4] == '.' && chars[n - 3] == 'm' && chars[n - 2] == 'm' && chars[n
        - 1] == 'd' {
        assert(name@.skip(n - 3) =~= seq!['m', 'm', 'd']);
        Some(SourceKind::Diagram)
    } else {
        proof {
            if has_extension(name@, seq!['m', 'd']) {
                assert(name@.skip(n - 2)[0] == 'm');
                assert(name@.skip(n - 2)[1] == 'd');
            }
            if has_extension(name@, seq!['m', 'm', 'd']) {
                assert(name@.skip(n - 3)[0] == 'm');
                assert(name@.skip(n - 3)[1] == 'm');
                assert(name@.skip(n - 3)[2] == 'd');
            }
        }
        None
    }
}

/// The names of the files among `entries` that are sources, in the order of
/// the entries.
pub open spec fn source_names(entries: Seq<Entry>) -> Seq<Seq<char>>
    decreases entries.len(),
{
    if entries.len() == 0 {
        Seq::empty()
    } else {
        let rest = source_names(entries.drop_last());
        let last = entries.last();
        if last.kind == EntryKind::File && source_kind(last.name@) is Some {
            rest.push(last.name@)
        } else {
            rest
        }
    }
}

/// The sources of an export, in the order in which they are taken up.
pub open spec fn export_sources(entries: Seq<Entry>) -> Seq<Seq<char>> {
    source_names(entries).sort_by(name_order())
}

/// Every name in `names` is the name of a source.
pub open spec fn all_sources(names: Seq<Seq<char>>) -> bool {
    forall|i: int| 0 <= i < names.len() ==> source_kind(#[trigger] names[i]) is Some
}

/// Only names of sources are selected.
pub proof fn lemma_source_names_are_sources(entries: Seq<Entry>)
    ensures
        all_sources(source_names(entries)),
    decreases entries.len(),
{
    if entries.len() > 0 {
        lemma_source_names_are_sources(entries.drop_last());
    }
}

/// The sources of an export are in ascending order, and each is a source.
pub proof fn lemma_export_sources(entries: Seq<Entry>)
    ensures
        sorted_by(export_sources(entries), name_order()),
        all_sources(export_sources(entries)),
        export_sources(entries).to_multiset() == source_names(entries).to_multiset(),
{
    broadcast use vstd::seq_lib::group_to_multiset_ensures;

    lemma_name_order_total();
    lemma_source_names_are_sources(entries);
    let names = source_names(entries);
    names.lemma_sort_by_ensures(name_order());
    let sorted = export_sources(entries);
    assert forall|i: int| 0 <= i < sorted.len() implies source_kind(#[trigger] sorted[i])
        is Some by {
        assert(sorted.contains(sorted[i]));
        assert(sorted.to_multiset().count(sorted[i]) > 0);
        assert(names.contains(sorted[i]));
    }
}

/// The sources among `entries`, in the order in which an export takes them
/// up: ascending by name, markdown and diagrams interleaved.
pub fn collect_sources(entries: &Vec<Entry>) -> (sources: Vec<String>)
    ensures
        names_of(sources@) == export_sources(entries@),
{
    let mut names: Vec<String> = Vec::new();
    let mut i: usize = 0;
    proof {
        assert(names_of(names@) =~= source_names(entries@.take(0)));
    }
    while i < entries.len()
        invariant
            i <= entries.len(),
            names_of(names@) == source_names(entries@.take(i as int)),
        decreases entries.len() - i,
    {
        proof {
            assert(entries@.take(i + 1).drop_last() =~= entries@.take(i as int));
        }
        if entries[i].kind == EntryKind::File && classify(entries[i].name.as_str()).is_some() {
            let name = entries[i].name.clone();
            proof {
                assert(names_of(names@.push(name)) =~= names_of(names@).push(name@));
            }
            names.push(name);
        }
        i = i + 1;
    }
    proof {
        assert(entries@.take(entries.len() as int) =~= entries@);
    }
    sort_names(&names)
}

/// What a markdown file adds to the combined text: a page break, then the
/// file's text, each on a line of its own.
pub open spec fn markdown_piece(content: Seq<char>) -> Seq<char> {
    seq!['\n'] + PAGE_BREAK@ + seq!['\n'] + content + seq!['\n']
}

/// The name of the image of the `n`-th diagram.
pub open spec fn image_name(n: nat) -> Seq<char> {
    "diagram_"@ + decimal(n) + ".png"@
}

/// What a diagram adds to the combined text: a reference that embeds its
/// image, and an empty line.
pub open spec fn diagram_piece(image: Seq<char>) -> Seq<char> {
    "!["@ + image + "]("@ + image + ")\n\n"@
}

/// Appends to `text` what a markdown file of this content adds.
pub fn push_markdown(text: &mut String, content: &str)
    ensures
        final(text)@ == old(text)@ + markdown_piece(content@),
{
    proof {
        reveal_strlit("\n");
    }
    text.append("\n");
    text.append(PAGE_BREAK);
    text.append("\n");
    text.append(content);
    text.append("\n");
    assert(text@ =~= old(text)@ + markdown_piece(content@));
}

/// The name of the image of the `n`-th diagram.
pub fn image_file(n: usize) -> (image: String)
    ensures
        image@ == image_name(n as nat),
{
    let mut image = "diagram_".to_owned();
    push_decimal(&mut image, n);
    image.append(".png");
    image
}

/// Appends to `text` what a diagram with this image adds.
pub fn push_diagram(text: &mut String, image: &str)
    ensures
        final(text)@ == old(text)@ + diagram_piece(image@),
{
    text.append("![");
    text.append(image);
    text.append("](");
    text.append(image);
    text.append(")\n\n");
    assert(text@ =~= old(text)@ + diagram_piece(image@));
}

/// One argument of the renderer.
#[derive(Debug)]
pub enum RenderArgument {
    /// This text.
    Text(String),
    /// The path of the diagram to render.
    Source,
    /// The path of the image to make.
    Image,
}

/// An argument of the renderer, as contracts speak of it.
pub enum RenderArgumentView {
    Text(Seq<char>),
    Source,
    Image,
}

impl View for RenderArgument {
    type V = RenderArgumentView;

    open spec fn view(&self) -> RenderArgumentView {
        match self {
            RenderArgument::Text(text) => RenderArgumentView::Text(text@),
            RenderArgument::Source => RenderArgumentView::Source,
            RenderArgument::Image => RenderArgumentView::Image,
        }
    }
}

/// The arguments of the renderer, in order: the diagram to read, the image
/// to write, dark theme, transparent background, three times the size.
pub open spec fn render_line() -> Seq<RenderArgumentView> {
    seq![
        RenderArgumentView::Text("-i"@),
        RenderArgumentView::Source,
        RenderArgumentView::Text("-o"@),
        RenderArgumentView::Image,
        RenderArgumentView::Text("--theme"@),
        RenderArgumentView::Text("dark"@),
        RenderArgumentView::Text("--backgroundColor"@),
        RenderArgumentView::Text("transparent"@),
        RenderArgumentView::Text("--scale"@),
        RenderArgumentView::Text("3"@),
    ]
}

/// The arguments with which the renderer turns a diagram into an image.
/// The two paths are left to the driver, which holds them: it puts the
/// path of the diagram, in the project directory, for `Source`, and the
/// path of the image, in the output directory, for `Image`.
pub fn render_arguments() -> (args: Vec<RenderArgument>)
    ensures
        args@.map_values(|a: RenderArgument| a@) == render_line(),
{
    let mut args: Vec<RenderArgument> = Vec::new();
    args.push(RenderArgument::Text("-i".to_owned()));
    args.push(RenderArgument::Source);
    args.push(RenderArgument::Text("-o".to_owned()));
    args.push(RenderArgument::Image);
    args.push(RenderArgument::Text("--theme".to_owned()));
    args.push(RenderArgument::Text("dark".to_owned()));
    args.push(RenderArgument::Text("--backgroundColor".to_owned()));
    args.push(RenderArgument::Text("transparent".to_owned()));
    args.push(RenderArgument::Text("--scale".to_owned()));
    args.push(RenderArgument::Text("3".to_owned()));
    assert(args@.map_values(|a: RenderArgument| a@) =~= render_line());
    args
}

/// The arguments with which the converter, run in the output directory,
/// turns the combined text into the PDF, styled by the header.
pub fn convert_arguments() -> (args: Vec<String>)
    ensures
        names_of(args@) == seq![
            TEXT_FILE@,
            "-o"@,
            PDF_FILE@,
            "--include-in-header"@,
            HEADER_FILE@,
            "--pdf-engine"@,
            "xelatex"@,
        ],
{
    let mut args: Vec<String> = Vec::new();
    args.push(TEXT_FILE.to_owned());
    args.push("-o".to_owned());
    args.push(PDF_FILE.to_owned());
    args.push("--include-in-header".to_owned());
    args.push(HEADER_FILE.to_owned());
    args.push("--pdf-engine".to_owned());
    args.push("xelatex".to_owned());
    assert(names_of(args@) =~= seq![
        TEXT_FILE@,
        "-o"@,
        PDF_FILE@,
        "--include-in-header"@,
        HEADER_FILE@,
        "--pdf-engine"@,
        "xelatex"@,
    ]);
    args
}

} // verus!
