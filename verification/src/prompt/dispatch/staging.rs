//! The step's in-flight transcript entry, staged beside its `response.json`.
//!
//! As the adapter streams, each content block is accumulated from its
//! start, deltas and stop, then written to the staging file as one JSON
//! element, comma-separated from the one before. A model call is up to
//! several attempts, and each attempt is a **segment**: a failed attempt's
//! segment is truncated away so the retry starts where it began and a
//! failed attempt leaves no trace. Serializing a block and writing the file
//! are the executor's; which block is open, what a delta adds to it, what
//! a stop finishes, and where a segment is cut back to are here.

use vstd::prelude::*;
use crate::error::Error;
use crate::prompt::dispatch::assembler::{is_json, parses_as_json};
use crate::text::append_str;

verus! {

/// The staged entry's file name within a step directory.
pub const STAGING_FILE: &'static str = "staging.json";

/// The path `Path::with_file_name` makes of `path` and `name`: `path`'s
/// last component replaced by `name`, or `name` pushed onto `path` when it
/// has none.
pub uninterp spec fn with_file_name_spec(path: Seq<char>, name: Seq<char>) -> Seq<char>;

/// `Path::new(path).with_file_name(name)`, as a string.
#[verifier::external_body]
fn with_file_name(path: &str, name: &str) -> (r: String)
    ensures
        r@ == with_file_name_spec(path@, name@),
{
    std::path::Path::new(path).with_file_name(name).to_string_lossy().into_owned()
}

/// The staging file beside `response_path`, in the same step directory.
pub fn staging_path_for(response_path: &str) -> (r: String)
    ensures
        r@ == with_file_name_spec(response_path@, STAGING_FILE@),
{
    with_file_name(response_path, STAGING_FILE)
}

/// What a stream's content-start event opens.
#[derive(Debug, PartialEq, Eq)]
pub enum BlockKind {
    Text,
    Thinking,
    ToolUse { id: String, name: String },
    /// Anything the transcript does not carry (images, server tools).
    Other,
}

/// A content delta.
#[derive(Debug, PartialEq, Eq)]
pub enum BlockDelta {
    Text(String),
    Thinking(String),
    Json(String),
    Other,
}

/// The block being accumulated.
#[derive(Debug, PartialEq, Eq)]
pub enum Block {
    Text(String),
    Thinking(String),
    ToolUse { id: String, name: String, json: String },
    Skip,
}

/// A block as it is finished: the content to serialize into the entry.
/// A tool use's input is its accumulated JSON, `{}` when none arrived.
#[derive(Debug, PartialEq, Eq)]
pub enum Finished {
    Text(String),
    Thinking(String),
    ToolUse { id: String, name: String, input_json: String },
}

/// The staging file's bookkeeping across segments.
#[derive(Debug)]
pub struct StagingWriter {
    len: u64,
    sep: bool,
    seg_len: u64,
    seg_sep: bool,
    cur: Option<Block>,
}

impl StagingWriter {
    /// The file's length.
    pub closed spec fn len_view(&self) -> u64 {
        self.len
    }

    /// Whether the next element needs a separator.
    pub closed spec fn sep_view(&self) -> bool {
        self.sep
    }

    /// Where the current segment began: the length and separator state.
    pub closed spec fn segment_view(&self) -> (u64, bool) {
        (self.seg_len, self.seg_sep)
    }

    /// The block being accumulated.
    pub closed spec fn open_view(&self) -> Option<Block> {
        self.cur
    }

    /// A fresh staging file whose opening bytes are `open_len` long.
    pub fn create(open_len: u64) -> (w: StagingWriter)
        ensures
            w.len_view() == open_len,
            !w.sep_view(),
            w.segment_view() == (open_len, false),
            w.open_view() is None,
    {
        StagingWriter { len: open_len, sep: false, seg_len: open_len, seg_sep: false, cur: None }
    }

    /// Start a segment — an attempt — where the file now ends.
    pub fn begin_segment(&mut self)
        ensures
            final(self).len_view() == old(self).len_view(),
            final(self).sep_view() == old(self).sep_view(),
            final(self).segment_view() == (old(self).len_view(), old(self).sep_view()),
            final(self).open_view() is None,
    {
        self.seg_len = self.len;
        self.seg_sep = self.sep;
        self.cur = None;
    }

    /// A content-start event: open its block.
    pub fn on_start(&mut self, kind: BlockKind)
        ensures
            final(self).len_view() == old(self).len_view(),
            final(self).sep_view() == old(self).sep_view(),
            final(self).segment_view() == old(self).segment_view(),
            match kind {
                BlockKind::Text => final(self).open_view() matches Some(Block::Text(t)) && t@.len() == 0,
                BlockKind::Thinking => final(self).open_view() matches Some(Block::Thinking(t)) && t@.len() == 0,
                BlockKind::ToolUse { id, name } => final(self).open_view() matches Some(
                    Block::ToolUse { id: i, name: n, json },
                ) && i == id && n == name && json@.len() == 0,
                BlockKind::Other => final(self).open_view() == Some(Block::Skip),
            },
    {
        self.cur = Some(match kind {
            BlockKind::Text => Block::Text(String::new()),
            BlockKind::Thinking => Block::Thinking(String::new()),
            BlockKind::ToolUse { id, name } => Block::ToolUse { id, name, json: String::new() },
            BlockKind::Other => Block::Skip,
        });
    }

    /// A delta: text to a text block, thinking to a thinking block, JSON to
    /// a tool use; any other pairing is ignored.
    pub fn on_delta(&mut self, delta: &BlockDelta)
        ensures
            final(self).len_view() == old(self).len_view(),
            final(self).sep_view() == old(self).sep_view(),
            final(self).segment_view() == old(self).segment_view(),
            match (old(self).open_view(), *delta) {
                (Some(Block::Text(s)), BlockDelta::Text(t)) => final(self).open_view() matches Some(Block::Text(u)) && u@ == s@ + t@,
                (Some(Block::Thinking(s)), BlockDelta::Thinking(t)) => final(self).open_view() matches Some(Block::Thinking(u)) && u@ == s@ + t@,
                (Some(Block::ToolUse { id, name, json }), BlockDelta::Json(t)) => final(self).open_view() matches Some(
                    Block::ToolUse { id: i, name: n, json: j },
                ) && i == id && n == name && j@ == json@ + t@,
                _ => final(self).open_view() == old(self).open_view(),
            },
    {
        let cur = self.cur.take();
        self.cur = match (cur, delta) {
            (Some(Block::Text(mut s)), BlockDelta::Text(t)) => {
                append_str(&mut s, t.as_str());
                Some(Block::Text(s))
            },
            (Some(Block::Thinking(mut s)), BlockDelta::Thinking(t)) => {
                append_str(&mut s, t.as_str());
                Some(Block::Thinking(s))
            },
            (Some(Block::ToolUse { id, name, mut json }), BlockDelta::Json(t)) => {
                append_str(&mut json, t.as_str());
                Some(Block::ToolUse { id, name, json })
            },
            (other, _) => other,
        };
    }

    /// A content-stop event: finish the open block, if one carries
    /// content. Nothing is written yet. A tool use whose accumulated input
    /// is non-empty and not JSON is refused as [`Error::AdapterJson`].
    pub fn finalize(&mut self) -> (r: Result<Option<Finished>, Error>)
        ensures
            final(self).len_view() == old(self).len_view(),
            final(self).sep_view() == old(self).sep_view(),
            final(self).segment_view() == old(self).segment_view(),
            final(self).open_view() is None,
            match old(self).open_view() {
                None | Some(Block::Skip) => r matches Ok(None),
                Some(Block::Text(t)) => r == Ok::<Option<Finished>, Error>(Some(Finished::Text(t))),
                Some(Block::Thinking(t)) => r == Ok::<Option<Finished>, Error>(Some(Finished::Thinking(t))),
                Some(Block::ToolUse { id, name, json }) => if json@.len() > 0 && !parses_as_json(json@) {
                    r matches Err(Error::AdapterJson { json: j }) && j@ == json@
                } else {
                    r matches Ok(Some(Finished::ToolUse { id: i, name: n, input_json })) && i == id && n == name
                        && input_json@ == if json@.len() == 0 {
                        "{}"@
                    } else {
                        json@
                    }
                },
            },
    {
        match self.cur.take() {
            None => Ok(None),
            Some(Block::Skip) => Ok(None),
            Some(Block::Text(t)) => Ok(Some(Finished::Text(t))),
            Some(Block::Thinking(t)) => Ok(Some(Finished::Thinking(t))),
            Some(Block::ToolUse { id, name, json }) => {
                let input_json = if json.as_str().is_empty() {
                    let mut e = String::new();
                    append_str(&mut e, "{}");
                    e
                } else if is_json(json.as_str()) {
                    json
                } else {
                    return Err(Error::AdapterJson { json });
                };
                Ok(Some(Finished::ToolUse { id, name, input_json }))
            },
        }
    }

    /// The separator the next element is written after: `,` once an
    /// element has been written, nothing before the first.
    pub fn separator(&self) -> (r: &'static str)
        ensures
            r@ == if self.sep_view() {
                ","@
            } else {
                ""@
            },
    {
        if self.sep {
            ","
        } else {
            ""
        }
    }

    /// An element of `n` bytes was written after [`Self::separator`].
    pub fn wrote(&mut self, n: u64)
        requires
            old(self).len_view() + 1 + n <= u64::MAX,
        ensures
            final(self).len_view() == old(self).len_view() + (if old(self).sep_view() {
                1int
            } else {
                0int
            }) + n,
            final(self).sep_view(),
            final(self).segment_view() == old(self).segment_view(),
            final(self).open_view() == old(self).open_view(),
    {
        let s: u64 = if self.sep {
            1
        } else {
            0
        };
        self.len = self.len + s + n;
        self.sep = true;
    }

    /// Cut a failed attempt's segment away: the length to truncate the file
    /// to, with the bookkeeping back where the segment began.
    pub fn truncate_segment(&mut self) -> (to: u64)
        ensures
            to == old(self).segment_view().0,
            final(self).len_view() == old(self).segment_view().0,
            final(self).sep_view() == old(self).segment_view().1,
            final(self).segment_view() == old(self).segment_view(),
            final(self).open_view() is None,
    {
        self.len = self.seg_len;
        self.sep = self.seg_sep;
        self.cur = None;
        self.seg_len
    }

    /// The file's length.
    pub fn len(&self) -> (n: u64)
        ensures
            n == self.len_view(),
    {
        self.len
    }
}

} // verus!
