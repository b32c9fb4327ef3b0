//! The durable event log: frame records and session events rendered as
//! one JSON line each, appended to a file chosen by the calendar date of
//! the write. The log rotates lazily: the first write of a new day opens
//! the new day's file. The file system append itself happens outside the
//! library; each method here returns exactly what must be appended where.

use vstd::prelude::*;

use crate::calendar::Date;
use crate::clock::{local_date_today, now_utc_ms};
use crate::frame::CapturedFrame;
use crate::spec_elapsed_ms;
use crate::text::{
    spec_dec, spec_dec_padded, spec_json_string, push_char, push_dec, push_dec_padded,
    push_json_string, push_str_piece, lemma_dec_len_le, lemma_dec_padded_injective,
};

verus! {

/// Log entry for a captured, successfully uploaded frame. One such record
/// exists exactly for each upload that ended in success.
#[derive(Debug, Clone)]
pub struct FrameLogEntry {
    /// Capture timestamp, in milliseconds since the Unix epoch.
    pub timestamp_ms: u64,
    /// Unique frame identifier.
    pub frame_id: String,
    /// Storage key the frame was uploaded under.
    pub s3_key: String,
    /// Bucket name.
    pub s3_bucket: String,
    /// Frame width in pixels.
    pub width: u32,
    /// Frame height in pixels.
    pub height: u32,
    /// Monitor ID that was captured.
    pub monitor_id: u32,
    /// Encoded size in bytes.
    pub file_size_bytes: u64,
    /// Time to capture the frame, in milliseconds.
    pub capture_duration_ms: u64,
    /// Time to upload the frame, backoff included, in milliseconds.
    pub upload_duration_ms: u64,
    /// Seconds idle before this capture (zero when not idle).
    pub idle_seconds_before: u64,
}

/// Session lifecycle events.
#[derive(Debug, Clone)]
pub enum SessionEvent {
    SessionStart { timestamp_ms: u64, version: String },
    SessionEnd { timestamp_ms: u64, frames_captured: u64 },
    IdleStart { timestamp_ms: u64, idle_after_seconds: u64 },
    IdleEnd { timestamp_ms: u64, idle_duration_seconds: u64 },
}

/// A timestamp written out for a log line: date and time of day to
/// millisecond precision, as universal time.
pub open spec fn spec_timestamp_text(ms: int) -> Seq<char> {
    let t = crate::calendar::spec_civil_time_of_ms(ms);
    spec_dec_padded(t.date.year as nat, 4) + seq!['-'] + spec_dec_padded(t.date.month as nat, 2)
        + seq!['-'] + spec_dec_padded(t.date.day as nat, 2) + seq!['T'] + spec_dec_padded(
        t.hour as nat,
        2,
    ) + seq![':'] + spec_dec_padded(t.minute as nat, 2) + seq![':'] + spec_dec_padded(
        t.second as nat,
        2,
    ) + seq!['.'] + spec_dec_padded(t.millisecond as nat, 3) + seq!['Z']
}

/// The JSON line of a frame record.
pub open spec fn spec_frame_line(
    timestamp_ms: int,
    frame_id: Seq<char>,
    s3_key: Seq<char>,
    s3_bucket: Seq<char>,
    width: nat,
    height: nat,
    monitor_id: nat,
    file_size_bytes: nat,
    capture_duration_ms: nat,
    upload_duration_ms: nat,
    idle_seconds_before: nat,
) -> Seq<char> {
    "{\"timestamp\":\""@ + spec_timestamp_text(timestamp_ms) + "\",\"frame_id\":"@
        + spec_json_string(frame_id) + ",\"s3_key\":"@ + spec_json_string(s3_key)
        + ",\"s3_bucket\":"@ + spec_json_string(s3_bucket) + ",\"width\":"@ + spec_dec(width)
        + ",\"height\":"@ + spec_dec(height) + ",\"monitor_id\":"@ + spec_dec(monitor_id)
        + ",\"file_size_bytes\":"@ + spec_dec(file_size_bytes) + ",\"capture_duration_ms\":"@
        + spec_dec(capture_duration_ms) + ",\"upload_duration_ms\":"@ + spec_dec(
        upload_duration_ms,
    ) + ",\"idle_seconds_before\":"@ + spec_dec(idle_seconds_before) + "}"@
}

/// The JSON line a frame record renders to.
pub open spec fn spec_frame_line_of(e: FrameLogEntry) -> Seq<char> {
    spec_frame_line(
        e.timestamp_ms as int,
        e.frame_id@,
        e.s3_key@,
        e.s3_bucket@,
        e.width as nat,
        e.height as nat,
        e.monitor_id as nat,
        e.file_size_bytes as nat,
        e.capture_duration_ms as nat,
        e.upload_duration_ms as nat,
        e.idle_seconds_before as nat,
    )
}

/// The JSON line of a session-start event.
pub open spec fn spec_session_start_line(timestamp_ms: int, version: Seq<char>) -> Seq<char> {
    "{\"event\":\"session_start\",\"timestamp\":\""@ + spec_timestamp_text(timestamp_ms)
        + "\",\"version\":"@ + spec_json_string(version) + "}"@
}

/// The JSON line of a session-end event.
pub open spec fn spec_session_end_line(timestamp_ms: int, frames_captured: nat) -> Seq<char> {
    "{\"event\":\"session_end\",\"timestamp\":\""@ + spec_timestamp_text(timestamp_ms)
        + "\",\"frames_captured\":"@ + spec_dec(frames_captured) + "}"@
}

/// The JSON line of an idle-start event.
pub open spec fn spec_idle_start_line(timestamp_ms: int, idle_after_seconds: nat) -> Seq<char> {
    "{\"event\":\"idle_start\",\"timestamp\":\""@ + spec_timestamp_text(timestamp_ms)
        + "\",\"idle_after_seconds\":"@ + spec_dec(idle_after_seconds) + "}"@
}

/// The realized idle duration written by an idle-end event: the whole
/// seconds since the period opened, zero when none was open or the clock
/// ran backwards.
pub open spec fn spec_idle_end_duration(start: Option<u64>, now_ms: u64) -> u64 {
    match start {
        Some(s) => spec_elapsed_ms(now_ms, s) / 1000,
        None => 0,
    }
}

/// The JSON line of an idle-end event.
pub open spec fn spec_idle_end_line(timestamp_ms: int, idle_duration_seconds: nat) -> Seq<char> {
    "{\"event\":\"idle_end\",\"timestamp\":\""@ + spec_timestamp_text(timestamp_ms)
        + "\",\"idle_duration_seconds\":"@ + spec_dec(idle_duration_seconds) + "}"@
}

/// The JSON line a session event renders to.
pub open spec fn spec_event_line(e: SessionEvent) -> Seq<char> {
    match e {
        SessionEvent::SessionStart { timestamp_ms, version } => spec_session_start_line(
            timestamp_ms as int,
            version@,
        ),
        SessionEvent::SessionEnd { timestamp_ms, frames_captured } => spec_session_end_line(
            timestamp_ms as int,
            frames_captured as nat,
        ),
        SessionEvent::IdleStart { timestamp_ms, idle_after_seconds } => spec_idle_start_line(
            timestamp_ms as int,
            idle_after_seconds as nat,
        ),
        SessionEvent::IdleEnd { timestamp_ms, idle_duration_seconds } => spec_idle_end_line(
            timestamp_ms as int,
            idle_duration_seconds as nat,
        ),
    }
}

/// The file a date's records go to: `YYYY-MM-DD.jsonl` below the logs
/// directory.
pub open spec fn spec_log_path(logs_dir: Seq<char>, d: Date) -> Seq<char> {
    logs_dir + seq!['/'] + spec_dec_padded(d.year as nat, 4) + seq!['-'] + spec_dec_padded(
        d.month as nat,
        2,
    ) + seq!['-'] + spec_dec_padded(d.day as nat, 2) + ".jsonl"@
}

/// Dates of the epoch era with four-digit years go to distinct files: the
/// log is genuinely partitioned by calendar day.
pub proof fn lemma_log_path_injective(logs_dir: Seq<char>, d1: Date, d2: Date)
    requires
        d1.well_formed(),
        d2.well_formed(),
        d1.year <= 9999,
        d2.year <= 9999,
        spec_log_path(logs_dir, d1) == spec_log_path(logs_dir, d2),
    ensures
        d1 == d2,
{
    reveal_strlit(".jsonl");
    assert(crate::text::pow10(2) == 100 && crate::text::pow10(4) == 10000) by {
        reveal_with_fuel(crate::text::pow10, 5);
    }
    lemma_dec_len_le(d1.year as nat, 4);
    lemma_dec_len_le(d2.year as nat, 4);
    lemma_dec_len_le(d1.month as nat, 2);
    lemma_dec_len_le(d2.month as nat, 2);
    lemma_dec_len_le(d1.day as nat, 2);
    lemma_dec_len_le(d2.day as nat, 2);
    let p1 = spec_log_path(logs_dir, d1);
    let p2 = spec_log_path(logs_dir, d2);
    let base = logs_dir.len() as int;
    assert(p1.len() == base + 17 && p2.len() == base + 17);
    assert(spec_dec_padded(d1.year as nat, 4) =~= spec_dec_padded(d2.year as nat, 4)) by {
        assert(forall|j: int|
            0 <= j < 4 ==> #[trigger] spec_dec_padded(d1.year as nat, 4)[j] == p1[base + 1 + j]);
        assert(forall|j: int|
            0 <= j < 4 ==> #[trigger] spec_dec_padded(d2.year as nat, 4)[j] == p2[base + 1 + j]);
    }
    lemma_dec_padded_injective(d1.year as nat, d2.year as nat, 4);
    assert(spec_dec_padded(d1.month as nat, 2) =~= spec_dec_padded(d2.month as nat, 2)) by {
        assert(forall|j: int|
            0 <= j < 2 ==> #[trigger] spec_dec_padded(d1.month as nat, 2)[j] == p1[base + 6 + j]);
        assert(forall|j: int|
            0 <= j < 2 ==> #[trigger] spec_dec_padded(d2.month as nat, 2)[j] == p2[base + 6 + j]);
    }
    lemma_dec_padded_injective(d1.month as nat, d2.month as nat, 2);
    assert(spec_dec_padded(d1.day as nat, 2) =~= spec_dec_padded(d2.day as nat, 2)) by {
        assert(forall|j: int|
            0 <= j < 2 ==> #[trigger] spec_dec_padded(d1.day as nat, 2)[j] == p1[base + 9 + j]);
        assert(forall|j: int|
            0 <= j < 2 ==> #[trigger] spec_dec_padded(d2.day as nat, 2)[j] == p2[base + 9 + j]);
    }
    lemma_dec_padded_injective(d1.day as nat, d2.day as nat, 2);
}

/// Append a timestamp in the log line format.
fn push_timestamp(out: &mut String, ms: u64)
    ensures
        final(out)@ == old(out)@ + spec_timestamp_text(ms as int),
{
    let t = crate::calendar::civil_time_of_ms(ms);
    push_dec_padded(out, t.date.year, 4);
    push_char(out, '-');
    push_dec_padded(out, t.date.month, 2);
    push_char(out, '-');
    push_dec_padded(out, t.date.day, 2);
    push_char(out, 'T');
    push_dec_padded(out, t.hour, 2);
    push_char(out, ':');
    push_dec_padded(out, t.minute, 2);
    push_char(out, ':');
    push_dec_padded(out, t.second, 2);
    push_char(out, '.');
    push_dec_padded(out, t.millisecond, 3);
    push_char(out, 'Z');
    proof {
        assert(out@ =~= old(out)@ + spec_timestamp_text(ms as int));
    }
}

/// Render the JSON line of a frame record (without the newline).
pub fn render_frame_line(e: &FrameLogEntry) -> (r: String)
    ensures
        r@ == spec_frame_line_of(*e),
{
    let mut s = String::new();
    push_str_piece(&mut s, "{\"timestamp\":\"");
    push_timestamp(&mut s, e.timestamp_ms);
    push_str_piece(&mut s, "\",\"frame_id\":");
    push_json_string(&mut s, e.frame_id.as_str());
    push_str_piece(&mut s, ",\"s3_key\":");
    push_json_string(&mut s, e.s3_key.as_str());
    push_str_piece(&mut s, ",\"s3_bucket\":");
    push_json_string(&mut s, e.s3_bucket.as_str());
    push_str_piece(&mut s, ",\"width\":");
    push_dec(&mut s, e.width as u64);
    push_str_piece(&mut s, ",\"height\":");
    push_dec(&mut s, e.height as u64);
    push_str_piece(&mut s, ",\"monitor_id\":");
    push_dec(&mut s, e.monitor_id as u64);
    push_str_piece(&mut s, ",\"file_size_bytes\":");
    push_dec(&mut s, e.file_size_bytes);
    push_str_piece(&mut s, ",\"capture_duration_ms\":");
    push_dec(&mut s, e.capture_duration_ms);
    push_str_piece(&mut s, ",\"upload_duration_ms\":");
    push_dec(&mut s, e.upload_duration_ms);
    push_str_piece(&mut s, ",\"idle_seconds_before\":");
    push_dec(&mut s, e.idle_seconds_before);
    push_str_piece(&mut s, "}");
    proof {
        assert(s@ =~= spec_frame_line_of(*e));
    }
    s
}

/// Render the JSON line of a session event (without the newline).
pub fn render_event_line(e: &SessionEvent) -> (r: String)
    ensures
        r@ == spec_event_line(*e),
{
    let mut s = String::new();
    match e {
        SessionEvent::SessionStart { timestamp_ms, version } => {
            push_str_piece(&mut s, "{\"event\":\"session_start\",\"timestamp\":\"");
            push_timestamp(&mut s, *timestamp_ms);
            push_str_piece(&mut s, "\",\"version\":");
            push_json_string(&mut s, version.as_str());
            push_str_piece(&mut s, "}");
        },
        SessionEvent::SessionEnd { timestamp_ms, frames_captured } => {
            push_str_piece(&mut s, "{\"event\":\"session_end\",\"timestamp\":\"");
            push_timestamp(&mut s, *timestamp_ms);
            push_str_piece(&mut s, "\",\"frames_captured\":");
            push_dec(&mut s, *frames_captured);
            push_str_piece(&mut s, "}");
        },
        SessionEvent::IdleStart { timestamp_ms, idle_after_seconds } => {
            push_str_piece(&mut s, "{\"event\":\"idle_start\",\"timestamp\":\"");
            push_timestamp(&mut s, *timestamp_ms);
            push_str_piece(&mut s, "\",\"idle_after_seconds\":");
            push_dec(&mut s, *idle_after_seconds);
            push_str_piece(&mut s, "}");
        },
        SessionEvent::IdleEnd { timestamp_ms, idle_duration_seconds } => {
            push_str_piece(&mut s, "{\"event\":\"idle_end\",\"timestamp\":\"");
            push_timestamp(&mut s, *timestamp_ms);
            push_str_piece(&mut s, "\",\"idle_duration_seconds\":");
            push_dec(&mut s, *idle_duration_seconds);
            push_str_piece(&mut s, "}");
        },
    }
    proof {
        assert(s@ =~= spec_event_line(*e));
    }
    s
}

/// One append that the owning process must perform: this line, to this
/// file, opening it first when the day rolled over.
#[derive(Debug, Clone)]
pub struct LogWrite {
    /// The file the line goes to.
    pub path: String,
    /// Whether this write moves to a new day's file.
    pub opens_new_file: bool,
    /// The line to append (without the newline).
    pub line: String,
}

/// The event log state: where the files live, which day's file is current,
/// and when the present idle period started.
#[derive(Debug, Clone)]
pub struct JsonlLogger {
    /// Directory of the day-partitioned files.
    pub logs_dir: String,
    /// The day whose file the previous write went to.
    pub current_date: Option<Date>,
    /// When the present idle period started (milliseconds since the Unix
    /// epoch), when one is open.
    pub idle_start_time_ms: Option<u64>,
}

impl JsonlLogger {
    /// A fresh logger over the given directory: no file is current and no
    /// idle period is open.
    pub fn new(logs_dir: String) -> (r: Self)
        ensures
            r.logs_dir == logs_dir,
            r.current_date is None,
            r.idle_start_time_ms is None,
    {
        JsonlLogger { logs_dir, current_date: None, idle_start_time_ms: None }
    }

    /// The file a date's records go to.
    pub fn log_path_for(&self, d: Date) -> (r: String)
        ensures
            r@ == spec_log_path(self.logs_dir@, d),
    {
        let mut s = self.logs_dir.as_str().to_owned();
        push_char(&mut s, '/');
        push_dec_padded(&mut s, d.year, 4);
        push_char(&mut s, '-');
        push_dec_padded(&mut s, d.month, 2);
        push_char(&mut s, '-');
        push_dec_padded(&mut s, d.day, 2);
        push_str_piece(&mut s, ".jsonl");
        proof {
            assert(s@ =~= spec_log_path(self.logs_dir@, d));
        }
        s
    }

    /// Select the destination of a write on the given day, rotating to the
    /// new day's file when the date rolled over since the previous write.
    fn destination(&mut self, today: Date, line: String) -> (w: LogWrite)
        ensures
            final(self).logs_dir == old(self).logs_dir,
            final(self).current_date == Some(today),
            final(self).idle_start_time_ms == old(self).idle_start_time_ms,
            w.path@ == spec_log_path(old(self).logs_dir@, today),
            w.opens_new_file == (old(self).current_date != Some(today)),
            w.line == line,
    {
        let rotated = match &self.current_date {
            Some(d) => !(d.year == today.year && d.month == today.month && d.day == today.day),
            None => true,
        };
        self.current_date = Some(today);
        LogWrite { path: self.log_path_for(today), opens_new_file: rotated, line }
    }

    /// A ready-built frame record, destined for the given day's file.
    pub fn log_entry_on(&mut self, today: Date, entry: &FrameLogEntry) -> (w: LogWrite)
        ensures
            final(self).logs_dir == old(self).logs_dir,
            final(self).current_date == Some(today),
            final(self).idle_start_time_ms == old(self).idle_start_time_ms,
            w.path@ == spec_log_path(old(self).logs_dir@, today),
            w.opens_new_file == (old(self).current_date != Some(today)),
            w.line@ == spec_frame_line_of(*entry),
    {
        let line = render_frame_line(entry);
        self.destination(today, line)
    }

    /// The frame record of a finished upload, destined for the given day's
    /// file. One such write exists exactly for each upload that ended in
    /// success; a failed upload never produces one.
    pub fn log_frame_on(
        &mut self,
        today: Date,
        frame: &CapturedFrame,
        s3_key: &str,
        s3_bucket: &str,
        upload_duration_ms: u64,
        idle_seconds_before: u64,
    ) -> (w: LogWrite)
        ensures
            final(self).logs_dir == old(self).logs_dir,
            final(self).current_date == Some(today),
            final(self).idle_start_time_ms == old(self).idle_start_time_ms,
            w.path@ == spec_log_path(old(self).logs_dir@, today),
            w.opens_new_file == (old(self).current_date != Some(today)),
            w.line@ == spec_frame_line(
                frame.timestamp_ms as int,
                crate::frame::spec_frame_id(frame.timestamp_ms as int),
                s3_key@,
                s3_bucket@,
                frame.width as nat,
                frame.height as nat,
                frame.monitor_id as nat,
                frame.data@.len() as nat,
                frame.capture_duration_ms as nat,
                upload_duration_ms as nat,
                idle_seconds_before as nat,
            ),
    {
        let entry = FrameLogEntry {
            timestamp_ms: frame.timestamp_ms,
            frame_id: frame.frame_id(),
            s3_key: s3_key.to_owned(),
            s3_bucket: s3_bucket.to_owned(),
            width: frame.width,
            height: frame.height,
            monitor_id: frame.monitor_id,
            file_size_bytes: frame.data.len() as u64,
            capture_duration_ms: frame.capture_duration_ms,
            upload_duration_ms,
            idle_seconds_before,
        };
        self.log_entry_on(today, &entry)
    }

    /// The frame record of a finished upload, dated by the machine's local
    /// calendar. Whatever date the clock reports becomes the partition.
    pub fn log_frame(
        &mut self,
        frame: &CapturedFrame,
        s3_key: &str,
        s3_bucket: &str,
        upload_duration_ms: u64,
        idle_seconds_before: u64,
    ) -> (w: LogWrite)
        ensures
            final(self).logs_dir == old(self).logs_dir,
            final(self).current_date is Some,
            final(self).idle_start_time_ms == old(self).idle_start_time_ms,
            w.line@ == spec_frame_line(
                frame.timestamp_ms as int,
                crate::frame::spec_frame_id(frame.timestamp_ms as int),
                s3_key@,
                s3_bucket@,
                frame.width as nat,
                frame.height as nat,
                frame.monitor_id as nat,
                frame.data@.len() as nat,
                frame.capture_duration_ms as nat,
                upload_duration_ms as nat,
                idle_seconds_before as nat,
            ),
    {
        let today = local_date_today();
        self.log_frame_on(today, frame, s3_key, s3_bucket, upload_duration_ms, idle_seconds_before)
    }

    /// A session event line, destined for the given day's file.
    pub fn log_event_on(&mut self, today: Date, event: &SessionEvent) -> (w: LogWrite)
        ensures
            final(self).logs_dir == old(self).logs_dir,
            final(self).current_date == Some(today),
            final(self).idle_start_time_ms == old(self).idle_start_time_ms,
            w.path@ == spec_log_path(old(self).logs_dir@, today),
            w.opens_new_file == (old(self).current_date != Some(today)),
            w.line@ == spec_event_line(*event),
    {
        let line = render_event_line(event);
        self.destination(today, line)
    }

    /// The session-start event, stamped and dated by the clock.
    pub fn log_session_start(&mut self, version: &str) -> (w: LogWrite)
        ensures
            final(self).logs_dir == old(self).logs_dir,
            final(self).idle_start_time_ms == old(self).idle_start_time_ms,
            exists|ts: u64| w.line@ == spec_session_start_line(ts as int, version@),
    {
        let now = now_utc_ms();
        let today = local_date_today();
        let event = SessionEvent::SessionStart {
            timestamp_ms: now,
            version: version.to_owned(),
        };
        let w = self.log_event_on(today, &event);
        proof {
            assert(w.line@ == spec_session_start_line(now as int, version@));
        }
        w
    }

    /// The session-end event with the total frame count, stamped and dated
    /// by the clock.
    pub fn log_session_end(&mut self, frames_captured: u64) -> (w: LogWrite)
        ensures
            final(self).logs_dir == old(self).logs_dir,
            final(self).idle_start_time_ms == old(self).idle_start_time_ms,
            exists|ts: u64|
                w.line@ == spec_session_end_line(ts as int, frames_captured as nat),
    {
        let now = now_utc_ms();
        let today = local_date_today();
        let event = SessionEvent::SessionEnd { timestamp_ms: now, frames_captured };
        let w = self.log_event_on(today, &event);
        proof {
            assert(w.line@ == spec_session_end_line(now as int, frames_captured as nat));
        }
        w
    }

    /// The idle-start event with the configured threshold; the idle period
    /// opens at the clock's current instant.
    pub fn log_idle_start(&mut self, idle_after_seconds: u64) -> (w: LogWrite)
        ensures
            final(self).logs_dir == old(self).logs_dir,
            final(self).idle_start_time_ms is Some,
            exists|ts: u64|
                w.line@ == spec_idle_start_line(ts as int, idle_after_seconds as nat),
    {
        let now = now_utc_ms();
        let today = local_date_today();
        self.idle_start_time_ms = Some(now);
        let event = SessionEvent::IdleStart { timestamp_ms: now, idle_after_seconds };
        let w = self.log_event_on(today, &event);
        proof {
            assert(w.line@ == spec_idle_start_line(now as int, idle_after_seconds as nat));
        }
        w
    }

    /// The idle-end event on a given day at a given instant: the realized
    /// idle duration is the time since the period opened, in whole
    /// seconds, zero when none was open or the clock ran backwards. The
    /// open period closes.
    pub fn log_idle_end_at(&mut self, now_ms: u64, today: Date) -> (w: LogWrite)
        ensures
            final(self).logs_dir == old(self).logs_dir,
            final(self).current_date == Some(today),
            final(self).idle_start_time_ms is None,
            w.path@ == spec_log_path(old(self).logs_dir@, today),
            w.opens_new_file == (old(self).current_date != Some(today)),
            w.line@ == spec_idle_end_line(
                now_ms as int,
                spec_idle_end_duration(old(self).idle_start_time_ms, now_ms) as nat,
            ),
    {
        let idle_duration_seconds: u64 = match &self.idle_start_time_ms {
            Some(start) => crate::elapsed_ms(now_ms, *start) / 1000,
            None => 0,
        };
        self.idle_start_time_ms = None;
        let event = SessionEvent::IdleEnd { timestamp_ms: now_ms, idle_duration_seconds };
        self.log_event_on(today, &event)
    }

    /// The idle-end event, stamped and dated by the clock; the open idle
    /// period closes whatever instant the clock reports.
    pub fn log_idle_end(&mut self) -> (w: LogWrite)
        ensures
            final(self).logs_dir == old(self).logs_dir,
            final(self).idle_start_time_ms is None,
            exists|ts: u64|
                w.line@ == #[trigger] spec_idle_end_line(
                    ts as int,
                    spec_idle_end_duration(old(self).idle_start_time_ms, ts) as nat,
                ),
    {
        let now = now_utc_ms();
        let today = local_date_today();
        let ghost before = self.idle_start_time_ms;
        let w = self.log_idle_end_at(now, today);
        proof {
            assert(w.line@ == spec_idle_end_line(
                now as int,
                spec_idle_end_duration(before, now) as nat,
            ));
        }
        w
    }

    /// When the present idle period started, when one is open.
    pub fn idle_start_time(&self) -> (r: Option<u64>)
        ensures
            r == self.idle_start_time_ms,
    {
        self.idle_start_time_ms
    }
}

} // verus!
