//! The listing of a project's source files, made by a shell that runs
//! `find`: the command to run, and what its outcome means.

use vstd::prelude::*;
use crate::order::names_of;
use crate::text::{
    decode_lossy, first_index_of, from_chars, lemma_first_index_is, to_chars, utf8_lossy,
};

verus! {

/// The shell that runs the listing.
pub const SHELL: &'static str = "bash";

/// The flag that makes the shell run its next argument as a script.
pub const SHELL_FLAG: &'static str = "-c";

/// The script that lists the source files: it enters the directory that
/// it is handed as its first argument, and lists every file below it, but
/// for the bundled library, the build output and the installed
/// dependencies. It is the same for every project.
pub const SCRIPT: &'static str =
    "cd -- \"$1\" && find . -type f ! -path './src/lib/*' ! -path './src-tauri/target/*' ! -path './node_modules/*'";

/// The arguments with which the shell lists the source files of the project
/// at `project_path`: the flag, the script, the name that the script goes
/// by, and the path. The path is an argument of its own, which the shell
/// hands to the script without parsing it: whatever it holds, it is used as
/// a path and as nothing else.
pub fn listing_arguments(project_path: &str) -> (args: Vec<String>)
    ensures
        names_of(args@) == seq![SHELL_FLAG@, SCRIPT@, SHELL@, project_path@],
{
    let mut args: Vec<String> = Vec::new();
    args.push(SHELL_FLAG.to_owned());
    args.push(SCRIPT.to_owned());
    args.push(SHELL.to_owned());
    args.push(project_path.to_owned());
    assert(names_of(args@) =~= seq![SHELL_FLAG@, SCRIPT@, SHELL@, project_path@]);
    args
}

/// A line without the carriage return that ends it, if one does.
pub open spec fn without_return(line: Seq<char>) -> Seq<char> {
    if line.len() > 0 && line.last() == '\r' {
        line.drop_last()
    } else {
        line
    }
}

/// The lines of `text`. A line ends with a line feed, or with a carriage
/// return and a line feed, neither of which belongs to it; the last line
/// need not end with either, and is then taken as it is.
pub open spec fn text_lines(text: Seq<char>) -> Seq<Seq<char>>
    decreases text.len(),
{
    let end = first_index_of(text, '\n');
    if text.len() == 0 {
        Seq::empty()
    } else if 0 <= end < text.len() {
        seq![without_return(text.take(end))] + text_lines(text.skip(end + 1))
    } else {
        seq![text]
    }
}

/// The lines of `text`.
pub fn lines(text: &str) -> (out: Vec<String>)
    ensures
        names_of(out@) == text_lines(text@),
{
    let chars = to_chars(text);
    let n = chars.len();
    let mut out: Vec<String> = Vec::new();
    let mut start: usize = 0;
    let mut i: usize = 0;
    proof {
        assert(text@.skip(0) =~= text@);
        assert(names_of(out@) + text_lines(text@.skip(0)) =~= text_lines(text@));
    }
    while i < n
        invariant
            chars@ == text@,
            n == chars.len(),
            start <= i <= n,
            forall|j: int| start <= j < i ==> chars@[j] != '\n',
            names_of(out@) + text_lines(text@.skip(start as int)) == text_lines(text@),
        decreases n - i,
    {
        if chars[i] == '\n' {
            let ghost rest = text@.skip(start as int);
            proof {
                lemma_first_index_is(rest, '\n', i - start);
                assert(rest.take(i - start) =~= text@.subrange(start as int, i as int));
                assert(rest.skip(i - start + 1) =~= text@.skip(i + 1));
            }
            let end = if i > start && chars[i - 1] == '\r' {
                i - 1
            } else {
                i
            };
            let line = from_chars(&chars, start, end);
            proof {
                let whole = text@.subrange(start as int, i as int);
                assert(line@ =~= without_return(whole));
                assert(names_of(out@.push(line)) =~= names_of(out@).push(line@));
                assert(names_of(out@).push(line@) + text_lines(text@.skip(i + 1)) =~= names_of(
                    out@,
                ) + (seq![line@] + text_lines(text@.skip(i + 1))));
            }
            out.push(line);
            start = i + 1;
        }
        i = i + 1;
    }
    if start < n {
        let ghost rest = text@.skip(start as int);
        proof {
            lemma_first_index_is(rest, '\n', n - start);
        }
        let line = from_chars(&chars, start, n);
        proof {
            assert(line@ =~= rest);
            assert(names_of(out@.push(line)) =~= names_of(out@).push(line@));
        }
        out.push(line);
    } else {
        assert(text@.skip(start as int).len() == 0);
        assert(names_of(out@) + Seq::<Seq<char>>::empty() =~= names_of(out@));
    }
    out
}

/// What the listing came to, as contracts speak of it.
pub open spec fn listing_outcome(success: bool, stdout: Seq<u8>, stderr: Seq<u8>) -> Result<
    Seq<Seq<char>>,
    Seq<char>,
> {
    if success {
        Ok(text_lines(utf8_lossy(stdout)))
    } else {
        Err(utf8_lossy(stderr))
    }
}

/// What the listing came to: where the shell exited with success, the
/// lines of its standard output, one path each; where it did not, what it
/// wrote to standard error.
pub fn source_listing(success: bool, stdout: &[u8], stderr: &[u8]) -> (r: Result<
    Vec<String>,
    String,
>)
    ensures
        match r {
            Ok(paths) => listing_outcome(success, stdout@, stderr@) == Ok::<
                Seq<Seq<char>>,
                Seq<char>,
            >(names_of(paths@)),
            Err(message) => listing_outcome(success, stdout@, stderr@) == Err::<
                Seq<Seq<char>>,
                Seq<char>,
            >(message@),
        },
{
    if success {
        let text = decode_lossy(stdout);
        Ok(lines(text.as_str()))
    } else {
        Err(decode_lossy(stderr))
    }
}

} // verus!
