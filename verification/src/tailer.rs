//! Following the newest combat log: which file is followed, from which
//! byte, and which lines a chunk of bytes holds.
//!
//! The caller watches the directory and reads the file. On a new file in
//! the directory it hands in the newest log; before a read it asks where
//! to read from, and after the read it reports how far the file went.

use crate::state::opt_view;
use crate::text::str_eq;
use vstd::prelude::*;
use vstd::slice::slice_subrange;

verus! {

/// Seconds between two reports of the connection status.
pub const HEARTBEAT_SECS: u64 = 5;

/// Which file is followed, and how far it has been read.
#[derive(Debug)]
pub struct TailerState {
    /// The directory that is watched.
    pub logs_dir: String,
    /// The file followed, once there is one.
    pub active_file: Option<String>,
    /// Offset of the next unread byte of the file followed.
    pub position: u64,
}

/// The mathematical value of a `TailerState`.
pub struct TailerModel {
    pub logs_dir: Seq<char>,
    pub active_file: Option<Seq<char>>,
    pub position: u64,
}

impl View for TailerState {
    type V = TailerModel;

    open spec fn view(&self) -> TailerModel {
        TailerModel {
            logs_dir: self.logs_dir@,
            active_file: opt_view(self.active_file),
            position: self.position,
        }
    }
}

impl TailerModel {
    /// The state after the newest log of the directory was found to be
    /// `newest`: a log other than the one followed is followed from its
    /// first byte; without a log in the directory nothing changes.
    pub open spec fn check_for_new_log(self, newest: Option<Seq<char>>) -> TailerModel {
        if newest is Some && self.active_file != newest {
            TailerModel { active_file: newest, position: 0, ..self }
        } else {
            self
        }
    }

    /// The offset from which a file of `file_len` bytes is read: the
    /// position, or 0 where the file has become shorter than that.
    pub open spec fn read_start(self, file_len: u64) -> u64 {
        if file_len < self.position {
            0
        } else {
            self.position
        }
    }

    /// Whether a file of `file_len` bytes holds bytes to read.
    pub open spec fn has_unread(self, file_len: u64) -> bool {
        file_len != self.read_start(file_len)
    }
}

impl TailerState {
    /// The state at the start: the newest log of the directory, if there
    /// is one, followed from its first byte.
    pub fn new(logs_dir: String, newest: Option<String>) -> (r: Self)
        ensures
            r@ == (TailerModel {
                logs_dir: logs_dir@,
                active_file: opt_view(newest),
                position: 0,
            }),
    {
        TailerState { logs_dir, active_file: newest, position: 0 }
    }

    /// Takes in the newest log of the directory after a file was created
    /// there. Where it is not the file followed, the tailer switches to it
    /// and starts at its first byte.
    pub fn check_for_new_log(&mut self, newest: Option<String>)
        ensures
            final(self)@ == old(self)@.check_for_new_log(opt_view(newest)),
    {
        match newest {
            Some(path) => {
                let same = match &self.active_file {
                    Some(active) => str_eq(active.as_str(), path.as_str()),
                    None => false,
                };
                if !same {
                    self.active_file = Some(path);
                    self.position = 0;
                }
            },
            None => {},
        }
    }

    /// Where to read the followed file from, given its length; `None`
    /// where it holds nothing new. A file shorter than the position was
    /// rewritten: it is read again from its first byte.
    pub fn plan_read(&mut self, file_len: u64) -> (r: Option<u64>)
        ensures
            final(self)@ == (TailerModel {
                position: old(self)@.read_start(file_len),
                ..old(self)@
            }),
            r == if old(self)@.has_unread(file_len) {
                Some(old(self)@.read_start(file_len))
            } else {
                None
            },
    {
        if file_len < self.position {
            self.position = 0;
        }
        if file_len == self.position {
            None
        } else {
            Some(self.position)
        }
    }

    /// Records that the followed file was read up to `file_len`, its end.
    pub fn finish_read(&mut self, file_len: u64)
        ensures
            final(self)@ == (TailerModel { position: file_len, ..old(self)@ }),
    {
        self.position = file_len;
    }
}

// ---------------------------------------------------------------------------
// Lines
// ---------------------------------------------------------------------------

/// Index of the first line feed in `s`, or `s.len()` when there is none.
pub open spec fn first_newline(s: Seq<u8>) -> int
    decreases s.len(),
{
    if s.len() == 0 {
        0
    } else if s[0] == 10 {
        0
    } else {
        1 + first_newline(s.drop_first())
    }
}

/// `first_newline` is the least position that holds a line feed.
pub proof fn lemma_first_newline_is(s: Seq<u8>, i: int)
    requires
        0 <= i <= s.len(),
        forall|j: int| 0 <= j < i ==> s[j] != 10,
        i < s.len() ==> s[i] == 10,
    ensures
        first_newline(s) == i,
    decreases s.len(),
{
    if s.len() != 0 && s[0] != 10 {
        let t = s.drop_first();
        assert forall|j: int| 0 <= j < i - 1 implies t[j] != 10 by {
            assert(t[j] == s[j + 1]);
        }
        lemma_first_newline_is(t, i - 1);
    }
}

/// What `first_newline` returns: in range, no line feed before it, and a
/// line feed at it unless it is the length.
pub proof fn lemma_first_newline_props(s: Seq<u8>)
    ensures
        0 <= first_newline(s) <= s.len(),
        forall|j: int| 0 <= j < first_newline(s) ==> s[j] != 10,
        first_newline(s) < s.len() ==> s[first_newline(s)] == 10,
    decreases s.len(),
{
    if s.len() != 0 && s[0] != 10 {
        let t = s.drop_first();
        lemma_first_newline_props(t);
        assert forall|j: int| 0 <= j < first_newline(s) implies s[j] != 10 by {
            if j > 0 {
                assert(s[j] == t[j - 1]);
            }
        }
    }
}

/// A line without the carriage return that ends it, if one does.
pub open spec fn without_cr(line: Seq<u8>) -> Seq<u8> {
    if line.len() > 0 && line.last() == 13 {
        line.drop_last()
    } else {
        line
    }
}

/// The lines that a chunk of bytes delivers: each run of bytes that a line
/// feed ends, without the line feed and a carriage return before it. Empty
/// lines are left out, and so is what follows the last line feed.
pub open spec fn complete_lines_of(chunk: Seq<u8>) -> Seq<Seq<u8>>
    decreases chunk.len(),
{
    let i = first_newline(chunk);
    if 0 <= i < chunk.len() {
        let line = without_cr(chunk.take(i));
        let rest = complete_lines_of(chunk.skip(i + 1));
        if line.len() == 0 {
            rest
        } else {
            seq![line] + rest
        }
    } else {
        Seq::empty()
    }
}

/// The bytes of each line of a sequence.
pub open spec fn line_views(lines: Seq<Vec<u8>>) -> Seq<Seq<u8>> {
    Seq::new(lines.len(), |i: int| lines[i]@)
}

/// Splits a chunk of bytes into the complete lines it holds.
pub fn complete_lines(chunk: &[u8]) -> (lines: Vec<Vec<u8>>)
    ensures
        line_views(lines@) == complete_lines_of(chunk@),
{
    let n = chunk.len();
    let mut lines: Vec<Vec<u8>> = Vec::new();
    let mut pos: usize = 0;
    assert(chunk@.skip(0) =~= chunk@);
    assert(line_views(lines@) + complete_lines_of(chunk@) =~= complete_lines_of(chunk@));
    loop
        invariant
            pos <= n,
            n == chunk.len(),
            line_views(lines@) + complete_lines_of(chunk@.skip(pos as int)) == complete_lines_of(
                chunk@,
            ),
        decreases n - pos,
    {
        let ghost rest = chunk@.skip(pos as int);
        let mut end: usize = pos;
        while end < n && chunk[end] != 10
            invariant
                pos <= end <= n,
                n == chunk.len(),
                forall|j: int| pos <= j < end ==> chunk@[j] != 10,
            decreases n - end,
        {
            end += 1;
        }
        proof {
            lemma_first_newline_is(rest, end - pos);
        }
        if end >= n {
            assert(line_views(lines@) + Seq::<Seq<u8>>::empty() =~= line_views(lines@));
            return lines;
        }
        let stop = if end > pos && chunk[end - 1] == 13 {
            end - 1
        } else {
            end
        };
        let ghost line = without_cr(rest.take(end - pos));
        assert(line =~= chunk@.subrange(pos as int, stop as int));
        assert(chunk@.skip(end + 1) =~= rest.skip(end - pos + 1));
        if stop > pos {
            let ghost done = line_views(lines@);
            let owned = vstd::slice::slice_to_vec(slice_subrange(chunk, pos, stop));
            lines.push(owned);
            assert(line_views(lines@) =~= done.push(line));
            assert(done.push(line) + complete_lines_of(chunk@.skip(end + 1)) =~= done + (seq![line]
                + complete_lines_of(chunk@.skip(end + 1))));
        }
        pos = end + 1;
    }
}

} // verus!
