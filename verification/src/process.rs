//! Bounded collection of a child process's output lines.
//!
//! The caller runs the process and reports what happens (a line arrived, the
//! deadline passed, the process exited); the collector decides when to stop
//! reading and keeps the output within its byte and line limits.
use vstd::prelude::*;

verus! {

/// What running a process produced: its output lines (without line
/// terminators), exit code, captured standard error, and which limit, if
/// any, cut the run short.
pub struct ProcResult {
    pub lines: Vec<Vec<u8>>,
    pub returncode: i32,
    pub stderr: String,
    pub timed_out: bool,
    pub byte_limit_hit: bool,
    pub line_limit_hit: bool,
    pub bytes_read: usize,
}

impl ProcResult {
    /// The result when the process could not be started: exit code 127 and
    /// the reason as standard error.
    pub fn spawn_failed(reason: String) -> (res: ProcResult)
        ensures
            res.lines@.len() == 0,
            res.returncode == 127,
            res.stderr@ == reason@,
            !res.timed_out && !res.byte_limit_hit && !res.line_limit_hit,
            res.bytes_read == 0,
    {
        ProcResult {
            lines: Vec::new(),
            returncode: 127,
            stderr: reason,
            timed_out: false,
            byte_limit_hit: false,
            line_limit_hit: false,
            bytes_read: 0,
        }
    }
}

/// `a + b`, or `usize::MAX` when that does not fit.
pub open spec fn sat_add(a: usize, b: nat) -> usize {
    if a + b > usize::MAX {
        usize::MAX
    } else {
        (a + b) as usize
    }
}

/// Collector of a running process's output.
pub struct LineCollector {
    pub max_bytes: usize,
    pub max_lines: usize,
    pub lines: Vec<Vec<u8>>,
    pub bytes_read: usize,
    pub timed_out: bool,
    pub byte_limit_hit: bool,
    pub line_limit_hit: bool,
    pub returncode: i32,
}

fn add_line_bytes(bytes_read: usize, line_len: usize) -> (res: usize)
    ensures
        res == sat_add(bytes_read, (line_len + 1) as nat),
{
    if line_len >= usize::MAX - bytes_read {
        usize::MAX
    } else {
        bytes_read + line_len + 1
    }
}

impl LineCollector {
    /// A collector that stops after `max_lines` lines or `max_bytes` bytes
    /// (each line counting one byte for its terminator).
    pub fn new(max_bytes: usize, max_lines: usize) -> (res: LineCollector)
        ensures
            res.max_bytes == max_bytes,
            res.max_lines == max_lines,
            res.lines@.len() == 0,
            res.bytes_read == 0,
            !res.timed_out && !res.byte_limit_hit && !res.line_limit_hit,
            res.returncode == 0,
    {
        LineCollector {
            max_bytes,
            max_lines,
            lines: Vec::new(),
            bytes_read: 0,
            timed_out: false,
            byte_limit_hit: false,
            line_limit_hit: false,
            returncode: 0,
        }
    }

    /// Whether a limit has been reached, so the process is to be stopped.
    pub open spec fn limit_reached(&self) -> bool {
        self.line_limit_hit || self.byte_limit_hit
    }

    /// A line arrived while the process runs: it is kept and counted; the
    /// line limit is reached when the kept lines number `max_lines`, else
    /// the byte limit when the bytes read reach `max_bytes`. Returns whether
    /// the process is to be stopped.
    pub fn on_line(&mut self, line: Vec<u8>) -> (stop: bool)
        requires
            !old(self).limit_reached(),
        ensures
            final(self).max_bytes == old(self).max_bytes,
            final(self).max_lines == old(self).max_lines,
            final(self).lines@ == old(self).lines@.push(line),
            final(self).bytes_read == sat_add(old(self).bytes_read, line@.len() + 1),
            final(self).line_limit_hit == (final(self).lines@.len() >= final(self).max_lines),
            final(self).byte_limit_hit == (!final(self).line_limit_hit && final(self).bytes_read
                >= final(self).max_bytes),
            final(self).timed_out == old(self).timed_out,
            final(self).returncode == old(self).returncode,
            stop == final(self).limit_reached(),
            final(self).state() == running_step(old(self).state(), line),
    {
        self.bytes_read = add_line_bytes(self.bytes_read, line.len());
        self.lines.push(line);
        if self.lines.len() >= self.max_lines {
            self.line_limit_hit = true;
        } else if self.bytes_read >= self.max_bytes {
            self.byte_limit_hit = true;
        }
        self.line_limit_hit || self.byte_limit_hit
    }

    /// The deadline passed while the process runs.
    pub fn on_deadline(&mut self)
        ensures
            final(self).timed_out,
            final(self).lines@ == old(self).lines@,
            final(self).bytes_read == old(self).bytes_read,
            final(self).byte_limit_hit == old(self).byte_limit_hit,
            final(self).line_limit_hit == old(self).line_limit_hit,
            final(self).returncode == old(self).returncode,
            final(self).max_bytes == old(self).max_bytes,
            final(self).max_lines == old(self).max_lines,
    {
        self.timed_out = true;
    }

    /// The process exited, with its exit code when it has one (`-1` stands
    /// for none).
    pub fn on_exit(&mut self, code: Option<i32>)
        ensures
            final(self).returncode == match code {
                Some(c) => c,
                None => -1i32,
            },
            final(self).lines@ == old(self).lines@,
            final(self).bytes_read == old(self).bytes_read,
            final(self).timed_out == old(self).timed_out,
            final(self).byte_limit_hit == old(self).byte_limit_hit,
            final(self).line_limit_hit == old(self).line_limit_hit,
            final(self).max_bytes == old(self).max_bytes,
            final(self).max_lines == old(self).max_lines,
    {
        self.returncode = match code {
            Some(c) => c,
            None => -1,
        };
    }

    /// Waiting on the process failed: the exit code becomes `-1`; returns
    /// whether the run ends at once (no line was read yet).
    pub fn on_wait_error(&mut self) -> (end_now: bool)
        ensures
            final(self).returncode == -1,
            end_now == (old(self).lines@.len() == 0),
            final(self).lines@ == old(self).lines@,
            final(self).bytes_read == old(self).bytes_read,
            final(self).timed_out == old(self).timed_out,
            final(self).byte_limit_hit == old(self).byte_limit_hit,
            final(self).line_limit_hit == old(self).line_limit_hit,
            final(self).max_bytes == old(self).max_bytes,
            final(self).max_lines == old(self).max_lines,
    {
        self.returncode = -1;
        self.lines.len() == 0
    }

    /// A line read after the process ended: taken only while both limits
    /// leave room; a line that would reach the byte limit is counted but not
    /// kept, and marks the byte limit as reached.
    pub fn on_trailing_line(&mut self, line: Vec<u8>)
        ensures
            final(self).max_bytes == old(self).max_bytes,
            final(self).max_lines == old(self).max_lines,
            final(self).timed_out == old(self).timed_out,
            final(self).line_limit_hit == old(self).line_limit_hit,
            final(self).returncode == old(self).returncode,
            final(self).state() == trailing_step(old(self).state(), line),
            ({
                let room = old(self).lines@.len() < old(self).max_lines && old(self).bytes_read
                    < old(self).max_bytes;
                let b = sat_add(old(self).bytes_read, line@.len() + 1);
                if !room {
                    &&& final(self).lines@ == old(self).lines@
                    &&& final(self).bytes_read == old(self).bytes_read
                    &&& final(self).byte_limit_hit == old(self).byte_limit_hit
                } else if b >= old(self).max_bytes {
                    &&& final(self).lines@ == old(self).lines@
                    &&& final(self).bytes_read == b
                    &&& final(self).byte_limit_hit
                } else {
                    &&& final(self).lines@ == old(self).lines@.push(line)
                    &&& final(self).bytes_read == b
                    &&& final(self).byte_limit_hit == old(self).byte_limit_hit
                }
            }),
    {
        if self.lines.len() < self.max_lines && self.bytes_read < self.max_bytes {
            self.bytes_read = add_line_bytes(self.bytes_read, line.len());
            if self.bytes_read >= self.max_bytes {
                self.byte_limit_hit = true;
            } else {
                self.lines.push(line);
            }
        }
    }

    /// A line found in the last sweep after reading stopped: taken under the
    /// same rule as [`Self::on_trailing_line`], except that it never marks
    /// the byte limit.
    pub fn on_last_sweep_line(&mut self, line: Vec<u8>)
        ensures
            final(self).max_bytes == old(self).max_bytes,
            final(self).max_lines == old(self).max_lines,
            final(self).timed_out == old(self).timed_out,
            final(self).line_limit_hit == old(self).line_limit_hit,
            final(self).byte_limit_hit == old(self).byte_limit_hit,
            final(self).returncode == old(self).returncode,
            ({
                let room = old(self).lines@.len() < old(self).max_lines && old(self).bytes_read
                    < old(self).max_bytes;
                let b = sat_add(old(self).bytes_read, line@.len() + 1);
                if !room {
                    &&& final(self).lines@ == old(self).lines@
                    &&& final(self).bytes_read == old(self).bytes_read
                } else if b >= old(self).max_bytes {
                    &&& final(self).lines@ == old(self).lines@
                    &&& final(self).bytes_read == b
                } else {
                    &&& final(self).lines@ == old(self).lines@.push(line)
                    &&& final(self).bytes_read == b
                }
            }),
    {
        if self.lines.len() < self.max_lines && self.bytes_read < self.max_bytes {
            self.bytes_read = add_line_bytes(self.bytes_read, line.len());
            if self.bytes_read < self.max_bytes {
                self.lines.push(line);
            }
        }
    }

    /// The collected result, with the captured standard error.
    pub fn finish(self, stderr: String) -> (res: ProcResult)
        ensures
            res.lines@ == self.lines@,
            res.returncode == self.returncode,
            res.stderr@ == stderr@,
            res.timed_out == self.timed_out,
            res.byte_limit_hit == self.byte_limit_hit,
            res.line_limit_hit == self.line_limit_hit,
            res.bytes_read == self.bytes_read,
    {
        ProcResult {
            lines: self.lines,
            returncode: self.returncode,
            stderr,
            timed_out: self.timed_out,
            byte_limit_hit: self.byte_limit_hit,
            line_limit_hit: self.line_limit_hit,
            bytes_read: self.bytes_read,
        }
    }
}

/// The state of a collector.
pub struct CollectorState {
    pub max_bytes: usize,
    pub max_lines: usize,
    pub lines: Seq<Vec<u8>>,
    pub bytes_read: usize,
    pub byte_limit_hit: bool,
    pub line_limit_hit: bool,
}

impl LineCollector {
    pub open spec fn state(&self) -> CollectorState {
        CollectorState {
            max_bytes: self.max_bytes,
            max_lines: self.max_lines,
            lines: self.lines@,
            bytes_read: self.bytes_read,
            byte_limit_hit: self.byte_limit_hit,
            line_limit_hit: self.line_limit_hit,
        }
    }
}

/// The state after a line arrives while the process runs.
pub open spec fn running_step(s: CollectorState, line: Vec<u8>) -> CollectorState {
    let lines = s.lines.push(line);
    let b = sat_add(s.bytes_read, line@.len() + 1);
    let lh = lines.len() >= s.max_lines;
    CollectorState {
        lines,
        bytes_read: b,
        line_limit_hit: lh,
        byte_limit_hit: !lh && b >= s.max_bytes,
        ..s
    }
}

/// The state after a line is read once the process ended.
pub open spec fn trailing_step(s: CollectorState, line: Vec<u8>) -> CollectorState {
    let room = s.lines.len() < s.max_lines && s.bytes_read < s.max_bytes;
    let b = sat_add(s.bytes_read, line@.len() + 1);
    if !room {
        s
    } else if b >= s.max_bytes {
        CollectorState { bytes_read: b, byte_limit_hit: true, ..s }
    } else {
        CollectorState { bytes_read: b, lines: s.lines.push(line), ..s }
    }
}

/// Law: every step keeps the kept lines within the line limit: a running
/// step from a state that has not reached a limit, and any trailing step.
pub proof fn law_steps_keep_line_limit(s: CollectorState, line: Vec<u8>)
    requires
        s.max_lines >= 1,
        s.lines.len() <= s.max_lines,
    ensures
        !(s.line_limit_hit || s.byte_limit_hit) && s.lines.len() < s.max_lines ==> running_step(
            s,
            line,
        ).lines.len() <= s.max_lines,
        trailing_step(s, line).lines.len() <= s.max_lines,
{
}

/// Law: a running step asks to stop exactly when the kept lines reach the
/// line limit or the bytes read reach the byte limit; a trailing step never
/// keeps a line that would reach the byte limit.
pub proof fn law_stop_condition(s: CollectorState, line: Vec<u8>)
    ensures
        ({
            let t = running_step(s, line);
            (t.line_limit_hit || t.byte_limit_hit) == (t.lines.len() >= s.max_lines
                || t.bytes_read >= s.max_bytes)
        }),
        trailing_step(s, line).lines.len() > s.lines.len() ==> trailing_step(s, line).bytes_read
            < s.max_bytes,
{
}

} // verus!
