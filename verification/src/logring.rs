//! The in-memory log store: a bounded ring of the most recent log lines,
//! inserted at the tail and evicted from the head, plus the size check
//! that decides whether the durable log file is rotated at start-up.

use vstd::prelude::*;
use vstd::string::StringExecFns;

verus! {

/// Most lines the ring retains.
pub const LOG_RING_MAX_LINES: usize = 200;

/// Size in bytes above which the durable log file is rotated at
/// initialization (5 MiB).
pub const LOG_ROTATE_MAX_BYTES: u64 = 5242880;

/// What one insertion leaves in the ring: the new line at the tail, and
/// the oldest line evicted when the ring was already full.
pub open spec fn ring_push(r: Seq<Seq<char>>, line: Seq<char>) -> Seq<Seq<char>> {
    let r2 = r.push(line);
    if r2.len() > LOG_RING_MAX_LINES {
        r2.skip(r2.len() - LOG_RING_MAX_LINES)
    } else {
        r2
    }
}

/// The ring contents after inserting each of `lines`, in order, into an
/// empty ring.
pub open spec fn ring_after(lines: Seq<Seq<char>>) -> Seq<Seq<char>>
    decreases lines.len(),
{
    if lines.len() == 0 {
        Seq::<Seq<char>>::empty()
    } else {
        ring_push(ring_after(lines.drop_last()), lines.last())
    }
}

/// Inserting any sequence of lines into an empty ring never retains more
/// than the bound, and retains exactly the most recent lines in their
/// original relative order.
pub proof fn lemma_ring_after_keeps_tail(lines: Seq<Seq<char>>)
    ensures
        ring_after(lines).len() <= LOG_RING_MAX_LINES,
        ring_after(lines) =~= if lines.len() <= LOG_RING_MAX_LINES {
            lines
        } else {
            lines.skip(lines.len() - LOG_RING_MAX_LINES)
        },
    decreases lines.len(),
{
    if lines.len() > 0 {
        lemma_ring_after_keeps_tail(lines.drop_last());
    }
}

/// The lines joined with a newline between each adjacent pair, oldest
/// first.
pub open spec fn join_lines(lines: Seq<Seq<char>>) -> Seq<char>
    decreases lines.len(),
{
    if lines.len() == 0 {
        Seq::<char>::empty()
    } else if lines.len() == 1 {
        lines[0]
    } else {
        join_lines(lines.drop_last()) + "\n"@ + lines.last()
    }
}

/// The bounded in-memory ring of recent log lines.
pub struct LogRing {
    entries: Vec<String>,
}

impl View for LogRing {
    type V = Seq<Seq<char>>;

    /// The retained lines, oldest first.
    closed spec fn view(&self) -> Seq<Seq<char>> {
        self.entries@.map_values(|s: String| s@)
    }
}

impl LogRing {
    /// The ring never holds more lines than the bound.
    pub open spec fn wf(&self) -> bool {
        self@.len() <= LOG_RING_MAX_LINES
    }

    /// A fresh, empty ring.
    pub fn new() -> (r: LogRing)
        ensures
            r@ =~= Seq::<Seq<char>>::empty(),
            r.wf(),
    {
        let r = LogRing { entries: Vec::new() };
        proof {
            assert(r@ =~= Seq::<Seq<char>>::empty());
        }
        r
    }

    /// How many lines the ring holds.
    pub fn len(&self) -> (n: usize)
        ensures
            n == self@.len(),
    {
        self.entries.len()
    }

    /// Inserts a line at the tail, evicting the oldest line if the ring
    /// was full.
    pub fn push(&mut self, line: String)
        requires
            old(self).wf(),
        ensures
            final(self)@ == ring_push(old(self)@, line@),
            final(self).wf(),
    {
        self.entries.push(line);
        if self.entries.len() > LOG_RING_MAX_LINES {
            self.entries.remove(0);
            proof {
                assert(self@ =~= ring_push(old(self)@, line@));
            }
        } else {
            proof {
                assert(self@ =~= ring_push(old(self)@, line@));
            }
        }
    }

    /// The retained lines joined with newlines, oldest first.
    pub fn snapshot(&self) -> (r: String)
        ensures
            r@ == join_lines(self@),
    {
        let mut s = String::new();
        let n = self.entries.len();
        let mut idx: usize = 0;
        loop
            invariant
                idx <= n,
                n == self@.len(),
                n == self.entries@.len(),
                self@ == self.entries@.map_values(|t: String| t@),
                s@ == join_lines(self@.take(idx as int)),
            ensures
                s@ == join_lines(self@),
            decreases n - idx,
        {
            if idx >= n {
                proof {
                    assert(self@.take(idx as int) =~= self@);
                }
                break ;
            }
            if idx > 0 {
                s.append("\n");
            }
            s.append(self.entries[idx].as_str());
            proof {
                assert(self@.take(idx + 1).drop_last() =~= self@.take(idx as int));
                assert(self@.take(idx + 1).last() == self@[idx as int]);
                assert(s@ =~= join_lines(self@.take(idx + 1)));
            }
            idx += 1;
        }
        s
    }
}

/// Whether the log file on disk calls for rotation before it is opened
/// for appending: only a file that exists and exceeds the size bound is
/// rotated.  `existing_len` is the file's size, if it exists.
pub fn should_rotate(existing_len: Option<u64>) -> (r: bool)
    ensures
        r == match existing_len {
            Option::Some(len) => len > LOG_ROTATE_MAX_BYTES,
            Option::None => false,
        },
{
    match existing_len {
        Option::Some(len) => len > LOG_ROTATE_MAX_BYTES,
        Option::None => false,
    }
}

} // verus!
