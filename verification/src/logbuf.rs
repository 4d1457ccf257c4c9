//! The bounded buffer of recent log lines shown in the user interface, and
//! the format of those lines.

use vstd::prelude::*;
use std::collections::VecDeque;
use crate::text::{
    decimal, decimal_chars, decimal_padded, decimal_padded_chars, digits_value, is_digit,
    lemma_decimal_padded_layout, lemma_decimal_writes_value, pow10, push_all, push_str,
    string_from_chars,
};

verus! {

/// How many lines the buffer keeps.
pub const LOG_BUFFER_SIZE: usize = 500;

/// The last `n` elements of `s` (all of `s` if it is shorter).
pub open spec fn keep_last<A>(s: Seq<A>, n: nat) -> Seq<A> {
    if s.len() > n {
        s.subrange(s.len() - n, s.len() as int)
    } else {
        s
    }
}

/// The lines after appending `msg` to `logs`: the latest `LOG_BUFFER_SIZE`.
pub open spec fn log_append(logs: Seq<Seq<char>>, msg: Seq<char>) -> Seq<Seq<char>> {
    keep_last(logs.push(msg), LOG_BUFFER_SIZE as nat)
}

/// The lines after appending each of `msgs` in turn.
pub open spec fn log_append_all(logs: Seq<Seq<char>>, msgs: Seq<Seq<char>>) -> Seq<Seq<char>>
    decreases msgs.len(),
{
    if msgs.len() == 0 {
        logs
    } else {
        log_append(log_append_all(logs, msgs.drop_last()), msgs.last())
    }
}

/// The most recent log lines, oldest first, at most `LOG_BUFFER_SIZE` of them.
pub struct LogBuffer {
    lines: VecDeque<String>,
}

impl LogBuffer {
    #[verifier::type_invariant]
    closed spec fn bounded(&self) -> bool {
        self.lines@.len() <= LOG_BUFFER_SIZE
    }

    /// An empty buffer.
    pub fn new() -> (r: LogBuffer)
        ensures
            r@ == Seq::<Seq<char>>::empty(),
    {
        let r = LogBuffer { lines: VecDeque::new() };
        assert(r@ =~= Seq::<Seq<char>>::empty());
        r
    }

    /// The number of lines held.
    pub fn len(&self) -> (r: usize)
        ensures
            r == self@.len(),
            r <= LOG_BUFFER_SIZE,
    {
        proof {
            use_type_invariant(self);
        }
        self.lines.len()
    }
}

impl View for LogBuffer {
    type V = Seq<Seq<char>>;

    closed spec fn view(&self) -> Seq<Seq<char>> {
        Seq::new(self.lines@.len(), |i: int| self.lines@[i]@)
    }
}

/// Appends `msg` as the newest line, dropping the oldest line when the buffer
/// is full.
pub fn add_to_log_buffer(buffer: &mut LogBuffer, msg: &str)
    ensures
        final(buffer)@ == log_append(old(buffer)@, msg@),
        final(buffer)@.len() <= LOG_BUFFER_SIZE,
{
    proof {
        use_type_invariant(&*buffer);
    }
    let ghost old_v = buffer@;
    let mut lines: VecDeque<String> = VecDeque::new();
    std::mem::swap(&mut lines, &mut buffer.lines);
    assert(Seq::new(lines@.len(), |i: int| lines@[i]@) =~= old_v);
    if lines.len() >= LOG_BUFFER_SIZE {
        lines.pop_front();
    }
    lines.push_back(msg.to_owned());
    assert(Seq::new(lines@.len(), |i: int| lines@[i]@) =~= log_append(old_v, msg@));
    buffer.lines = lines;
}

/// The lines from index `since_index` on (from the first line when absent;
/// none when past the end), and the number of lines held.
pub fn get_logs(buffer: &LogBuffer, since_index: Option<usize>) -> (r: (Vec<String>, usize))
    ensures
        r.1 == buffer@.len(),
        Seq::new(r.0@.len(), |i: int| r.0@[i]@) == buffer@.subrange(
            if since_index.unwrap_or(0) < buffer@.len() {
                since_index.unwrap_or(0) as int
            } else {
                buffer@.len() as int
            },
            buffer@.len() as int,
        ),
{
    let start = match since_index {
        Some(s) => s,
        None => 0,
    };
    let n = buffer.lines.len();
    let from = if start < n {
        start
    } else {
        n
    };
    let mut out: Vec<String> = Vec::new();
    let mut i: usize = from;
    while i < n
        invariant
            from <= i <= n,
            n == buffer.lines@.len(),
            out@.len() == i - from,
            forall|j: int| 0 <= j < out@.len() ==> #[trigger] out@[j]@ == buffer.lines@[from + j]@,
        decreases n - i,
    {
        out.push(buffer.lines[i].clone());
        i = i + 1;
    }
    assert(Seq::new(out@.len(), |i: int| out@[i]@) =~= buffer@.subrange(from as int, n as int));
    (out, n)
}

/// Adding lines one by one leaves exactly the latest `LOG_BUFFER_SIZE` of all
/// lines ever added (together with those held before), oldest first.
pub proof fn lemma_buffer_keeps_latest(logs: Seq<Seq<char>>, msgs: Seq<Seq<char>>)
    requires
        logs.len() <= LOG_BUFFER_SIZE,
    ensures
        log_append_all(logs, msgs) == keep_last(logs + msgs, LOG_BUFFER_SIZE as nat),
    decreases msgs.len(),
{
    if msgs.len() == 0 {
        assert(logs + msgs =~= logs);
    } else {
        lemma_buffer_keeps_latest(logs, msgs.drop_last());
        let all = logs + msgs;
        let prev = logs + msgs.drop_last();
        assert(prev.push(msgs.last()) =~= all);
        let k = keep_last(prev, LOG_BUFFER_SIZE as nat);
        assert(keep_last(k.push(msgs.last()), LOG_BUFFER_SIZE as nat) =~= keep_last(
            all,
            LOG_BUFFER_SIZE as nat,
        ));
    }
}

/// Polling: a reader that last saw `logs.len()` lines and asks from that
/// index after `msgs` were added gets exactly `msgs`, while the buffer has
/// room for them all; once full, the line count stays `LOG_BUFFER_SIZE`.
pub proof fn lemma_polling_yields_new_lines(logs: Seq<Seq<char>>, msgs: Seq<Seq<char>>)
    requires
        logs.len() <= LOG_BUFFER_SIZE,
    ensures
        logs.len() + msgs.len() <= LOG_BUFFER_SIZE ==> log_append_all(logs, msgs).len()
            == logs.len() + msgs.len(),
        logs.len() + msgs.len() <= LOG_BUFFER_SIZE ==> log_append_all(logs, msgs).subrange(
            logs.len() as int,
            log_append_all(logs, msgs).len() as int,
        ) == msgs,
        logs.len() + msgs.len() > LOG_BUFFER_SIZE ==> log_append_all(logs, msgs).len()
            == LOG_BUFFER_SIZE,
{
    lemma_buffer_keeps_latest(logs, msgs);
    let all = logs + msgs;
    if all.len() <= LOG_BUFFER_SIZE {
        assert(all.subrange(logs.len() as int, all.len() as int) =~= msgs);
    }
}

/// Severity of a log record, most severe first.
#[derive(Clone, Copy, Debug, PartialEq, Eq)]
pub enum LogLevel {
    Error,
    Warn,
    Info,
    Debug,
    Trace,
}

/// Records at `Info` or more severe are shown.
pub open spec fn level_shown(l: LogLevel) -> bool {
    l is Error || l is Warn || l is Info
}

/// The name a line carries for its level.
pub open spec fn level_label(l: LogLevel) -> Seq<char> {
    match l {
        LogLevel::Error => "ERROR"@,
        LogLevel::Warn => "WARN"@,
        LogLevel::Info => "INFO"@,
        LogLevel::Debug => "DEBUG"@,
        LogLevel::Trace => "TRACE"@,
    }
}

/// The UI line for a record: `[HH:MM:SS.mmm] LEVEL message`, the time of
/// day taken from `now_secs` (seconds since the epoch) modulo a day.
pub open spec fn ui_log_line(now_secs: nat, millis: nat, level: LogLevel, msg: Seq<char>) -> Seq<char> {
    let secs = now_secs % 86400;
    "["@ + decimal_padded(secs / 3600, 2) + ":"@ + decimal_padded((secs % 3600) / 60, 2) + ":"@
        + decimal_padded(secs % 60, 2) + "."@ + decimal_padded(millis, 3) + "] "@ + level_label(
        level,
    ) + " "@ + msg
}

/// The line written to the log file: `[timestamp] message`.
pub open spec fn file_log_line(timestamp: nat, msg: Seq<char>) -> Seq<char> {
    "["@ + decimal(timestamp) + "] "@ + msg
}

proof fn lemma_two_digit_field(n: nat)
    requires
        n < 100,
    ensures
        decimal_padded(n, 2).len() == 2,
        digits_value(decimal_padded(n, 2)) == n,
{
    assert(pow10(2) == 100) by {
        assert(pow10(0) == 1);
        assert(pow10(1) == 10);
    }
    lemma_decimal_padded_layout(n, 2);
}

/// A UI line is laid out as `[HH:MM:SS.mmm] LEVEL message`: the hour,
/// minute and second of the day are two digits each and the milliseconds
/// three (for a millisecond count below a thousand), each field writing its
/// value, followed by the level's name and the message unchanged.
pub proof fn lemma_ui_log_line_layout(now: nat, millis: nat, level: LogLevel, msg: Seq<char>)
    requires
        millis < 1000,
    ensures
        ({
            let line = ui_log_line(now, millis, level, msg);
            let secs = now % 86400;
            let label = level_label(level);
            &&& line.len() == 16 + label.len() as int + msg.len()
            &&& line[0] == '[' && line[3] == ':' && line[6] == ':' && line[9] == '.'
            &&& line[13] == ']' && line[14] == ' '
            &&& digits_value(line.subrange(1, 3)) == secs / 3600
            &&& digits_value(line.subrange(4, 6)) == (secs % 3600) / 60
            &&& digits_value(line.subrange(7, 9)) == secs % 60
            &&& digits_value(line.subrange(10, 13)) == millis
            &&& line.subrange(15, 15 + label.len() as int) == label
            &&& line[15 + label.len() as int] == ' '
            &&& line.subrange(16 + label.len() as int, line.len() as int) == msg
        }),
{
    reveal_strlit("[");
    reveal_strlit(":");
    reveal_strlit(".");
    reveal_strlit("] ");
    reveal_strlit(" ");
    let secs = now % 86400;
    let h = decimal_padded(secs / 3600, 2);
    let m = decimal_padded((secs % 3600) / 60, 2);
    let sc = decimal_padded(secs % 60, 2);
    lemma_two_digit_field(secs / 3600);
    lemma_two_digit_field((secs % 3600) / 60);
    lemma_two_digit_field(secs % 60);
    assert(pow10(3) == 1000) by {
        assert(pow10(0) == 1);
        assert(pow10(1) == 10);
        assert(pow10(2) == 100);
    }
    lemma_decimal_padded_layout(millis, 3);
    let ms = decimal_padded(millis, 3);
    let label = level_label(level);
    let line = ui_log_line(now, millis, level, msg);
    let head = "["@ + h + ":"@ + m + ":"@ + sc + "."@ + ms + "] "@;
    assert(line == head + label + " "@ + msg);
    assert(head.len() == 15);
    assert(head.subrange(1, 3) =~= h);
    assert(head.subrange(4, 6) =~= m);
    assert(head.subrange(7, 9) =~= sc);
    assert(head.subrange(10, 13) =~= ms);
    assert(line.subrange(1, 3) =~= head.subrange(1, 3));
    assert(line.subrange(4, 6) =~= head.subrange(4, 6));
    assert(line.subrange(7, 9) =~= head.subrange(7, 9));
    assert(line.subrange(10, 13) =~= head.subrange(10, 13));
    assert(line[0] == head[0]);
    assert(line[3] == head[3]);
    assert(line[6] == head[6]);
    assert(line[9] == head[9]);
    assert(line[13] == head[13]);
    assert(line[14] == head[14]);
    assert(line.subrange(15, 15 + label.len() as int) =~= label);
    assert(line[15 + label.len() as int] == ' ');
    assert(line.subrange(16 + label.len() as int, line.len() as int) =~= msg);
}

/// A file line is laid out as `[timestamp] message`: the timestamp in
/// decimal without leading zeros, writing its value, then the message
/// unchanged.
pub proof fn lemma_file_log_line_layout(timestamp: nat, msg: Seq<char>)
    ensures
        ({
            let line = file_log_line(timestamp, msg);
            let d = decimal(timestamp);
            &&& line.len() == 3 + d.len() as int + msg.len()
            &&& line[0] == '['
            &&& line.subrange(1, 1 + d.len() as int) == d
            &&& digits_value(d) == timestamp
            &&& forall|i: int| 0 <= i < d.len() ==> is_digit(#[trigger] d[i])
            &&& d.len() >= 1 && (d[0] == '0' ==> timestamp == 0)
            &&& line[1 + d.len() as int] == ']' && line[2 + d.len() as int] == ' '
            &&& line.subrange(3 + d.len() as int, line.len() as int) == msg
        }),
{
    reveal_strlit("[");
    reveal_strlit("] ");
    lemma_decimal_writes_value(timestamp, 0);
    let d = decimal(timestamp);
    let line = file_log_line(timestamp, msg);
    assert(line.subrange(1, 1 + d.len() as int) =~= d);
    assert(line.subrange(3 + d.len() as int, line.len() as int) =~= msg);
    assert(line[1 + d.len() as int] == ']');
    assert(line[2 + d.len() as int] == ' ');
}

/// Each level has its own upper-case name, the one the logging facade
/// prints, and exactly `Error`, `Warn` and `Info` are shown.
pub proof fn lemma_level_names(l: LogLevel)
    ensures
        l is Error ==> level_label(l) == "ERROR"@,
        l is Warn ==> level_label(l) == "WARN"@,
        l is Info ==> level_label(l) == "INFO"@,
        l is Debug ==> level_label(l) == "DEBUG"@,
        l is Trace ==> level_label(l) == "TRACE"@,
        level_shown(l) <==> !(l is Debug || l is Trace),
{
}

impl LogLevel {
    /// Whether records of this level are shown (`Info` and more severe).
    pub fn enabled(&self) -> (r: bool)
        ensures
            r == level_shown(*self),
    {
        match self {
            LogLevel::Error | LogLevel::Warn | LogLevel::Info => true,
            _ => false,
        }
    }

    /// Whether records of this level go to standard error (`Warn` and more
    /// severe); the others go to standard output.
    pub fn to_stderr(&self) -> (r: bool)
        ensures
            r == (*self is Error || *self is Warn),
    {
        match self {
            LogLevel::Error | LogLevel::Warn => true,
            _ => false,
        }
    }

    /// The level's name as it appears in a line.
    pub fn label(&self) -> (r: &'static str)
        ensures
            r@ == level_label(*self),
    {
        match self {
            LogLevel::Error => "ERROR",
            LogLevel::Warn => "WARN",
            LogLevel::Info => "INFO",
            LogLevel::Debug => "DEBUG",
            LogLevel::Trace => "TRACE",
        }
    }
}

/// Formats a record for the UI buffer and the console.
pub fn format_log_line(now_secs: u64, subsec_millis: u32, level: LogLevel, msg: &str) -> (r: String)
    ensures
        r@ == ui_log_line(now_secs as nat, subsec_millis as nat, level, msg@),
{
    let secs = now_secs % 86400;
    let mut out: Vec<char> = Vec::new();
    push_str(&mut out, "[");
    push_all(&mut out, &decimal_padded_chars(secs / 3600, 2));
    push_str(&mut out, ":");
    push_all(&mut out, &decimal_padded_chars((secs % 3600) / 60, 2));
    push_str(&mut out, ":");
    push_all(&mut out, &decimal_padded_chars(secs % 60, 2));
    push_str(&mut out, ".");
    push_all(&mut out, &decimal_padded_chars(subsec_millis as u64, 3));
    push_str(&mut out, "] ");
    push_str(&mut out, level.label());
    push_str(&mut out, " ");
    push_str(&mut out, msg);
    string_from_chars(out.as_slice())
}

/// Formats a line for the log file.
pub fn format_file_line(timestamp: u64, msg: &str) -> (r: String)
    ensures
        r@ == file_log_line(timestamp as nat, msg@),
{
    let mut out: Vec<char> = Vec::new();
    push_str(&mut out, "[");
    push_all(&mut out, &decimal_chars(timestamp));
    push_str(&mut out, "] ");
    push_str(&mut out, msg);
    string_from_chars(out.as_slice())
}

} // verus!
