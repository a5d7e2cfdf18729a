//! A small file-inspection library: it turns POSIX mode bits into symbolic
//! permission strings, byte counts into human-readable SI size labels,
//! composes a fixed-layout metadata report block, and renders file contents
//! as terminal-escape-coded lines with colors supplied by the syntect
//! highlighting engine.
//!
//! The library itself touches no file and prints nothing: callers read the
//! file and its metadata, hand the plain values in, and decide what to do
//! with the rendered strings. A failure to retrieve metadata is therefore
//! the caller's to handle; the intended policy is to skip the report block
//! and continue, while an argument, read or highlighter failure aborts the
//! run.

use vstd::prelude::*;

pub mod decimal;
pub mod perms;
pub mod size;
pub mod report;
pub mod lines;
pub mod highlight;

use crate::highlight::{line_renders, render_highlighted, RenderError};
use crate::lines::line_split;
use crate::perms::perm_string_spec;
use crate::report::{
    build_report_block, format_local_timestamp, is_local_timestamp, report_block_spec, tail_after,
    tail_after_char,
};
use crate::size::size_label;

verus! {

/// One inspection run over a single file: the path named on the command
/// line, the file's text once the caller has read it, and the rendered
/// escape-coded lines once highlighting has run.
pub struct App {
    pub file_path: String,
    pub file_content: String,
    pub highlighted_lines: Vec<String>,
}

impl App {
    /// Builds the run from the command-line arguments: the first argument
    /// after the program name is the file path; with fewer than two
    /// arguments in total the run is refused.
    pub fn new(args: &[String]) -> (r: Result<App, &'static str>)
        ensures
            args@.len() < 2 ==> (r matches Err(e) && e@ == "Not enough arguments"@),
            args@.len() >= 2 ==> (r matches Ok(app) && app.file_path@ == args@[1]@
                && app.file_content@ == Seq::<char>::empty() && app.highlighted_lines@.len() == 0),
    {
        if args.len() < 2 {
            return Err("Not enough arguments");
        }
        let file_path = args[1].clone();
        Ok(
            App {
                file_path,
                file_content: String::new(),
                highlighted_lines: Vec::new(),
            },
        )
    }

    /// Stores the file's text, read by the caller, for the rendering pass.
    pub fn set_file_content(&mut self, content: String)
        ensures
            final(self).file_content == content,
            final(self).file_path == old(self).file_path,
            final(self).highlighted_lines == old(self).highlighted_lines,
    {
        self.file_content = content;
    }

    /// Renders the stored text and appends the escape-coded lines to the
    /// buffer, strictly in file order: one rendered line per source line,
    /// each carrying exactly its source line's characters, none skipped
    /// and none reordered; lines already buffered keep their value and
    /// position. An empty file appends nothing and cannot fail. On
    /// failure the buffer is left as it was.
    pub fn get_highlighted_lines(&mut self) -> (r: Result<(), RenderError>)
        ensures
            final(self).file_path == old(self).file_path,
            final(self).file_content == old(self).file_content,
            r is Ok ==> final(self).highlighted_lines@.len() == old(self).highlighted_lines@.len()
                + line_split(old(self).file_content@).len(),
            r is Ok ==> (forall|i: int|
                0 <= i < old(self).highlighted_lines@.len()
                    ==> final(self).highlighted_lines@[i] == old(self).highlighted_lines@[i]),
            r is Ok ==> (forall|i: int|
                0 <= i < line_split(old(self).file_content@).len() ==> line_renders(
                    line_split(old(self).file_content@)[i],
                    final(self).highlighted_lines@[old(self).highlighted_lines@.len() + i]@,
                )),
            r is Err ==> final(self).highlighted_lines == old(self).highlighted_lines,
            r matches Err(e) ==> e is HighlightFailed,
            old(self).file_content@.len() == 0 ==> r is Ok,
    {
        match render_highlighted(self.file_content.as_str(), self.file_path.as_str()) {
            Ok(mut out) => {
                let ghost rendered = out@;
                self.highlighted_lines.append(&mut out);
                proof {
                    assert(self.highlighted_lines@ == old(self).highlighted_lines@ + rendered);
                }
                Ok(())
            },
            Err(e) => Err(e),
        }
    }

    /// Composes the metadata report block for this run's file from the
    /// plain metadata values the caller retrieved: size in bytes, raw
    /// permission mode and modification time in seconds since the Unix
    /// epoch. The block names the file by the basename of the stored
    /// path. Yields nothing only when chrono cannot represent the moment.
    pub fn file_details(&self, size: u64, mode: u16, epoch_secs: i64) -> (r: Option<String>)
        ensures
            r matches Some(s) ==> exists|ts: Seq<char>|
                is_local_timestamp(ts) && s@ == report_block_spec(
                    tail_after(self.file_path@, '/'),
                    size_label(size as nat),
                    perm_string_spec(mode),
                    ts,
                ),
    {
        let name = tail_after_char(self.file_path.as_str(), '/');
        match format_local_timestamp(epoch_secs) {
            None => None,
            Some(ts) => {
                let block = build_report_block(name.as_str(), size, mode, ts.as_str());
                proof {
                    let tsv = ts@;
                    assert(is_local_timestamp(tsv) && block@ == report_block_spec(
                        tail_after(self.file_path@, '/'),
                        size_label(size as nat),
                        perm_string_spec(mode),
                        tsv,
                    ));
                }
                Some(block)
            },
        }
    }
}

} // verus!
