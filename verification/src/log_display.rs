//! Backing store of the on-device log view.
//!
//! Incoming log text is split at line breaks and chopped to the display's
//! line width; only the most recent screenful of lines is kept.

use vstd::prelude::*;

verus! {

/// Lines that fit on the display.
pub const NUM_LINES: usize = 19;

/// Characters that fit on one display line.
pub const LINE_MAX_LENGTH: usize = 53;

/// The kept lines as mathematical sequences.
pub open spec fn line_views(lines: Seq<Vec<u8>>) -> Seq<Seq<u8>> {
    lines.map_values(|l: Vec<u8>| l@)
}

/// Append a finished line, dropping the oldest once the screen is full.
pub open spec fn push_line(lines: Seq<Seq<u8>>, l: Seq<u8>) -> Seq<Seq<u8>> {
    if lines.len() >= NUM_LINES {
        lines.subrange(1, lines.len() as int).push(l)
    } else {
        lines.push(l)
    }
}

/// Feed one byte into the splitter: line breaks finish the current line
/// (empty lines are not kept), and a full line is finished before the byte
/// starts the next one.
pub open spec fn append_step(lines: Seq<Seq<u8>>, cur: Seq<u8>, c: u8) -> (Seq<Seq<u8>>, Seq<u8>) {
    if c == 10 || c == 13 {
        if cur.len() > 0 {
            (push_line(lines, cur), Seq::empty())
        } else {
            (lines, cur)
        }
    } else if cur.len() >= LINE_MAX_LENGTH {
        (push_line(lines, cur), seq![c])
    } else {
        (lines, cur.push(c))
    }
}

/// Feed a whole buffer into the splitter.
pub open spec fn append_scan(lines: Seq<Seq<u8>>, cur: Seq<u8>, buf: Seq<u8>) -> (
    Seq<Seq<u8>>,
    Seq<u8>,
)
    decreases buf.len(),
{
    if buf.len() == 0 {
        (lines, cur)
    } else {
        let scanned = append_scan(lines, cur, buf.drop_last());
        append_step(scanned.0, scanned.1, buf.last())
    }
}

/// The kept lines after appending `buf`: the buffer is scanned byte by byte
/// and a trailing unfinished line is kept too.
pub open spec fn append_model(lines: Seq<Seq<u8>>, buf: Seq<u8>) -> Seq<Seq<u8>> {
    let scanned = append_scan(lines, Seq::empty(), buf);
    if scanned.1.len() > 0 {
        push_line(scanned.0, scanned.1)
    } else {
        scanned.0
    }
}

/// The most recent log lines, ready for the display.
pub struct LogDisplay {
    pub lines: Vec<Vec<u8>>,
}

impl LogDisplay {
    /// At most a screenful of lines is kept.
    pub open spec fn wf(self) -> bool {
        self.lines@.len() <= NUM_LINES
    }

    pub fn new() -> (r: LogDisplay)
        ensures
            r.lines@.len() == 0,
            r.wf(),
    {
        LogDisplay { lines: Vec::new() }
    }

    /// Keep a finished line, dropping the oldest once the screen is full.
    fn keep_line(&mut self, l: Vec<u8>)
        requires
            old(self).wf(),
        ensures
            line_views(final(self).lines@) == push_line(line_views(old(self).lines@), l@),
            final(self).wf(),
    {
        if self.lines.len() >= NUM_LINES {
            self.lines.remove(0);
            proof {
                assert(line_views(self.lines@) =~= line_views(old(self).lines@).subrange(
                    1,
                    line_views(old(self).lines@).len() as int,
                ));
            }
        }
        self.lines.push(l);
        proof {
            assert(line_views(self.lines@) =~= push_line(line_views(old(self).lines@), l@));
        }
    }

    /// Split `buf` into display lines and keep the most recent ones.
    pub fn append(&mut self, buf: &Vec<u8>)
        requires
            old(self).wf(),
        ensures
            line_views(final(self).lines@) == append_model(line_views(old(self).lines@), buf@),
            final(self).wf(),
    {
        let mut line: Vec<u8> = Vec::new();
        let mut i: usize = 0;
        while i < buf.len()
            invariant
                i <= buf@.len(),
                self.wf(),
                line@.len() <= LINE_MAX_LENGTH + 1,
                (line_views(self.lines@), line@) == append_scan(
                    line_views(old(self).lines@),
                    Seq::<u8>::empty(),
                    buf@.take(i as int),
                ),
            decreases buf@.len() - i,
        {
            let c = buf[i];
            proof {
                assert(buf@.take(i + 1).drop_last() =~= buf@.take(i as int));
                assert(buf@.take(i + 1).last() == buf@[i as int]);
            }
            if c == 10 || c == 13 {
                if line.len() > 0 {
                    self.keep_line(line);
                    line = Vec::new();
                }
            } else {
                if line.len() >= LINE_MAX_LENGTH {
                    self.keep_line(line);
                    line = Vec::new();
                    line.push(c);
                    proof {
                        assert(line@ =~= seq![c]);
                    }
                } else {
                    line.push(c);
                }
            }
            i = i + 1;
        }
        proof {
            assert(buf@.take(buf@.len() as int) =~= buf@);
        }
        if line.len() > 0 {
            self.keep_line(line);
        }
    }
}

} // verus!
