//! Downloading a file: the decisions and the progress line, step by step.
//! Fetching the bytes and writing them are left to the caller, who hands
//! each event to `Download::step` and performs the action it gets back.

use vstd::prelude::*;

use crate::text::owned;

verus! {

/// What `std::path::Path::file_name` gives for `path`: its last component,
/// or nothing where the path ends in `..` or has no component.
pub uninterp spec fn path_file_name(path: Seq<char>) -> Option<Seq<char>>;

/// How `ubyte::ByteUnit` displays a number of bytes.
pub uninterp spec fn byte_unit_text(bytes: u64) -> Seq<char>;

/// Takes the last component of `path` with `std::path::Path::file_name`.
/// The contract claims that the result is a function of the path's text;
/// the component of a path given as text is text as well.
#[verifier::external_body]
fn file_name(path: &str) -> (r: Option<String>)
    ensures
        match r {
            Some(n) => path_file_name(path@) == Some(n@),
            None => path_file_name(path@) is None,
        },
{
    match std::path::Path::new(path).file_name() {
        Some(n) => match n.to_str() {
            Some(s) => Some(s.to_string()),
            None => None,
        },
        None => None,
    }
}

/// Displays `bytes` as `ubyte::ByteUnit::Byte(bytes)` does. The contract
/// claims that the text is a function of the number alone.
#[verifier::external_body]
fn byte_text(bytes: u64) -> (r: String)
    ensures
        r@ == byte_unit_text(bytes),
{
    format!("{}", ubyte::ByteUnit::Byte(bytes))
}

/// `{path}.partial`, where a download is written until it is complete.
pub open spec fn partial_path_spec(path: Seq<char>) -> Seq<char> {
    path + ".partial"@
}

/// Where the download to `path` is written until it is complete.
pub fn partial_path(path: &str) -> (r: String)
    ensures
        r@ == partial_path_spec(path@),
{
    let mut r = owned(path);
    r.append(".partial");
    r
}

/// The progress line: `\r\x1b[K > {name} {bytes}`.
pub open spec fn progress_spec(name: Seq<char>, downloaded: u64) -> Seq<char> {
    "\r\x1b[K > "@ + name + " "@ + byte_unit_text(downloaded)
}

/// What happened while downloading.
pub enum Event {
    /// The display is due for an update.
    Tick,
    /// A chunk of this many bytes arrived.
    Bytes(usize),
    /// No more bytes come.
    End,
}

/// What the caller is to do next.
pub enum Action {
    /// Show this line in place of the last one.
    Show(String),
    /// Write the chunk that arrived.
    Write,
    /// Flush the file, move it to its place, and show this line.
    Finish(String),
}

/// A download in progress: the name it is shown under and how many bytes
/// have arrived.
pub struct Download {
    pub name: String,
    pub downloaded: u64,
}

impl Download {
    /// A download to `path`, shown under the path's last component, or
    /// `<unknown>` where it has none.
    pub fn start(path: &str) -> (d: Download)
        ensures
            d.name@ == match path_file_name(path@) {
                Some(n) => n,
                None => "<unknown>"@,
            },
            d.downloaded == 0,
    {
        let name = match file_name(path) {
            Some(n) => n,
            None => owned("<unknown>"),
        };
        Download { name, downloaded: 0 }
    }

    /// The progress line.
    pub fn progress(&self) -> (r: String)
        ensures
            r@ == progress_spec(self.name@, self.downloaded),
    {
        let mut r = owned("\r\x1b[K > ");
        r.append(self.name.as_str());
        r.append(" ");
        let b = byte_text(self.downloaded);
        r.append(b.as_str());
        r
    }

    /// Takes an event and tells what to do: show the progress on a tick,
    /// count and write a chunk, and end with the progress line and a
    /// newline.
    pub fn step(&mut self, event: Event) -> (a: Action)
        requires
            old(self).downloaded + match event {
                Event::Bytes(n) => n as int,
                _ => 0,
            } <= u64::MAX,
        ensures
            final(self).name == old(self).name,
            match event {
                Event::Tick => {
                    &&& final(self).downloaded == old(self).downloaded
                    &&& a matches Action::Show(l) && l@ == progress_spec(
                        old(self).name@,
                        old(self).downloaded,
                    )
                },
                Event::Bytes(n) => final(self).downloaded == old(self).downloaded + n
                    && a is Write,
                Event::End => {
                    &&& final(self).downloaded == old(self).downloaded
                    &&& a matches Action::Finish(l) && l@ == progress_spec(
                        old(self).name@,
                        old(self).downloaded,
                    ) + "\n"@
                },
            },
    {
        match event {
            Event::Tick => Action::Show(self.progress()),
            Event::Bytes(n) => {
                self.downloaded = self.downloaded + n as u64;
                Action::Write
            },
            Event::End => {
                let mut l = self.progress();
                l.append("\n");
                Action::Finish(l)
            },
        }
    }
}

} // verus!
