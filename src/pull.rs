//! Model downloads: reading progress output, rate-limiting notifications and
//! the single active-download slot.

use vstd::prelude::*;
use vstd::string::*;
use crate::text::{
    contains_str, decimal, decimal_string, has_infix, join2, join3, lines, opt_view, push_text,
    split_lines, first_word, first_word_str, json_escape, json_escape_str, views,
};

verus! {

/// Shortest gap, in milliseconds, between two forwarded progress messages.
pub const PROGRESS_INTERVAL_MS: u64 = 1000;

/// The fields of one JSON progress record written by the model server.
pub struct ProgressFields {
    pub status: Option<String>,
    pub completed: Option<u64>,
    pub total: Option<u64>,
}

/// Whole percent done for `completed` out of `total`, rounded down and held to
/// at most 100; nothing of nothing counts as 0, something of nothing as 100.
pub open spec fn percent_of(completed: nat, total: nat) -> nat {
    if total == 0 {
        if completed == 0 {
            0
        } else {
            100
        }
    } else if completed >= total {
        100
    } else {
        completed * 100 / total
    }
}

pub open spec fn percent_text(p: nat) -> Seq<char> {
    "📦 Downloading model: "@ + decimal(p) + "% complete"@
}

/// The message forwarded for one output line of a download, given what the
/// JSON reader made of it (`None` when the line is no JSON record).
pub open spec fn progress_text(parsed: Option<ProgressFields>, line: Seq<char>) -> Option<Seq<char>> {
    match parsed {
        Some(f) => {
            if f.completed is Some && f.total is Some {
                Some(percent_text(percent_of(f.completed->0 as nat, f.total->0 as nat)))
            } else if f.status is Some {
                Some("📦 "@ + f.status->0@)
            } else {
                None
            }
        },
        None => {
            if has_infix(line, "pulling"@) {
                Some("📦 "@ + line)
            } else {
                None
            }
        },
    }
}

/// Whole percent done for `completed` out of `total`.
pub fn progress_percent(completed: u64, total: u64) -> (r: u8)
    ensures
        r as nat == percent_of(completed as nat, total as nat),
        r <= 100,
{
    if total == 0 {
        if completed == 0 {
            0
        } else {
            100
        }
    } else if completed >= total {
        100
    } else {
        let p = (completed as u128) * 100 / (total as u128);
        let ghost c = completed as int;
        let ghost t = total as int;
        assert(c * 100 / t < 100) by (nonlinear_arith)
            requires
                0 <= c < t,
        {
        }
        p as u8
    }
}

/// The message to forward for one output line of a download, or `None` when
/// the line says nothing that is understood.
pub fn progress_message(parsed: Option<ProgressFields>, line: &str) -> (r: Option<String>)
    ensures
        opt_view(r) == progress_text(parsed, line@),
        parsed is None && !has_infix(line@, "pulling"@) ==> r is None,
{
    match parsed {
        Some(f) => {
            match (f.completed, f.total) {
                (Some(c), Some(t)) => {
                    let p = progress_percent(c, t);
                    let digits = decimal_string(p as u64);
                    Some(join3("📦 Downloading model: ", digits.as_str(), "% complete"))
                },
                _ => match f.status {
                    Some(st) => Some(join2("📦 ", st.as_str())),
                    None => None,
                },
            }
        },
        None => {
            if contains_str(line, "pulling") {
                Some(join2("📦 ", line))
            } else {
                None
            }
        },
    }
}


/// Rate limiting of the progress messages of one download, and whether any
/// progress line was understood at all.
pub struct PullMonitor {
    /// When a message was last forwarded (or the download began), in milliseconds.
    pub last_emit_ms: u64,
    /// Whether at least one output line was understood as progress.
    pub progress_seen: bool,
}

impl PullMonitor {
    /// A monitor for a download that begins at `now_ms`.
    pub fn new(now_ms: u64) -> (r: Self)
        ensures
            r.last_emit_ms == now_ms,
            !r.progress_seen,
    {
        PullMonitor { last_emit_ms: now_ms, progress_seen: false }
    }

    /// Takes the message made of one output line at `now_ms`, and returns it
    /// where it is to be forwarded: only when more than the interval has passed
    /// since the last forwarded one.
    pub fn on_message(&mut self, now_ms: u64, message: Option<String>) -> (r: Option<String>)
        ensures
            final(self).progress_seen == (old(self).progress_seen || message is Some),
            r is Some <==> (message is Some && now_ms > old(self).last_emit_ms + PROGRESS_INTERVAL_MS),
            r is Some ==> r == message && final(self).last_emit_ms == now_ms,
            r is None ==> final(self).last_emit_ms == old(self).last_emit_ms,
    {
        match message {
            Some(m) => {
                self.progress_seen = true;
                if now_ms > self.last_emit_ms && now_ms - self.last_emit_ms > PROGRESS_INTERVAL_MS {
                    self.last_emit_ms = now_ms;
                    Some(m)
                } else {
                    None
                }
            },
            None => None,
        }
    }

    /// Takes one raw output line at `now_ms`, with what the JSON reader made of
    /// it, and returns the message to forward, if any.
    pub fn on_line(&mut self, now_ms: u64, parsed: Option<ProgressFields>, line: &str) -> (r: Option<String>)
        ensures
            final(self).progress_seen == (old(self).progress_seen || progress_text(parsed, line@) is Some),
            r is Some <==> (progress_text(parsed, line@) is Some && now_ms > old(self).last_emit_ms
                + PROGRESS_INTERVAL_MS),
            r is Some ==> opt_view(r) == progress_text(parsed, line@) && final(self).last_emit_ms == now_ms,
            r is None ==> final(self).last_emit_ms == old(self).last_emit_ms,
    {
        let m = progress_message(parsed, line);
        self.on_message(now_ms, m)
    }

    /// The closing message for `model`: given only when some progress was
    /// understood, so that an unknown output format is never reported as done.
    pub fn finish(&self, model: &str) -> (r: Option<String>)
        ensures
            opt_view(r) == (if self.progress_seen {
                Some("✅ Finished pulling '"@ + model@ + "'"@)
            } else {
                None
            }),
    {
        if self.progress_seen {
            Some(join3("✅ Finished pulling '", model, "'"))
        } else {
            None
        }
    }
}

/// Why a download request or a cancellation is refused or ends badly.
#[derive(Clone, Copy, Debug, PartialEq, Eq, Structural)]
pub enum PullError {
    /// A download is already under way: a second one is refused, not queued.
    AlreadyDownloading,
    /// The downloading process could not be started.
    SpawnFailed,
    /// There is no download to cancel.
    NoActiveDownload,
    /// The downloading process or connection ended abnormally.
    Interrupted,
}

/// The single download slot.
pub enum DownloadSlot<H> {
    /// No download.
    Idle,
    /// A download was accepted and its process is being started.
    Starting { ticket: u64, target: String },
    /// A download runs in the process held by `handle`.
    Active { ticket: u64, target: String, handle: H },
}

/// The ticket after `t`.
pub open spec fn next_ticket_after(t: u64) -> u64 {
    if t == u64::MAX {
        0
    } else {
        (t + 1) as u64
    }
}

/// State and result after a request to download `target`: accepted from an
/// idle slot, refused with `AlreadyDownloading` otherwise.
pub open spec fn begin_spec<H>(m: DownloadManager<H>, target: String) -> (DownloadManager<H>, Result<u64, PullError>) {
    if m.slot is Idle {
        (
            DownloadManager {
                slot: DownloadSlot::Starting { ticket: m.next_ticket, target },
                next_ticket: next_ticket_after(m.next_ticket),
            },
            Ok(m.next_ticket),
        )
    } else {
        (m, Err(PullError::AlreadyDownloading))
    }
}

/// State and result after the process of download `ticket` started: recorded
/// when that download is still starting, handed back otherwise.
pub open spec fn attach_spec<H>(m: DownloadManager<H>, ticket: u64, handle: H) -> (DownloadManager<H>, Option<H>) {
    match m.slot {
        DownloadSlot::Starting { ticket: t, target } => {
            if t == ticket {
                (
                    DownloadManager {
                        slot: DownloadSlot::Active { ticket, target, handle },
                        next_ticket: m.next_ticket,
                    },
                    None,
                )
            } else {
                (m, Some(handle))
            }
        },
        _ => (m, Some(handle)),
    }
}

/// Two download requests with no cancellation or end between them: the second
/// is refused with `AlreadyDownloading`, whether or not the first one's
/// process has started meanwhile, and the first stays in the slot.
pub proof fn lemma_second_pull_refused<H>(m: DownloadManager<H>, first: String, second: String, handle: H)
    ensures
        ({
            let (m1, r1) = begin_spec(m, first);
            let (m2, _) = attach_spec(m1, r1->Ok_0, handle);
            r1 is Ok ==> {
                &&& begin_spec(m1, second).1 == Err::<u64, PullError>(PullError::AlreadyDownloading)
                &&& begin_spec(m1, second).0 == m1
                &&& begin_spec(m2, second).1 == Err::<u64, PullError>(PullError::AlreadyDownloading)
                &&& begin_spec(m2, second).0 == m2
            }
        }),
{
}

/// Tracks at most one download at a time. A request while one is under way is
/// refused with `AlreadyDownloading`.
pub struct DownloadManager<H> {
    pub slot: DownloadSlot<H>,
    /// The ticket that the next accepted download gets.
    pub next_ticket: u64,
}

impl<H> DownloadManager<H> {
    pub fn new() -> (r: Self)
        ensures
            r.slot is Idle,
    {
        DownloadManager { slot: DownloadSlot::Idle, next_ticket: 0 }
    }

    /// Whether a download is accepted or running.
    pub fn is_busy(&self) -> (r: bool)
        ensures
            r == !(self.slot is Idle),
    {
        match &self.slot {
            DownloadSlot::Idle => false,
            _ => true,
        }
    }

    /// Accepts a download of `target` when none is under way, and returns its
    /// ticket; refuses it with `AlreadyDownloading` otherwise, changing nothing.
    pub fn begin(&mut self, target: String) -> (r: Result<u64, PullError>)
        ensures
            (*final(self), r) == begin_spec(*old(self), target),
    {
        match &self.slot {
            DownloadSlot::Idle => {
                let ticket = self.next_ticket;
                self.slot = DownloadSlot::Starting { ticket, target };
                self.next_ticket = if ticket == u64::MAX {
                    0
                } else {
                    ticket + 1
                };
                Ok(ticket)
            },
            _ => Err(PullError::AlreadyDownloading),
        }
    }

    /// Records the started process of download `ticket`. Where that download
    /// was cancelled meanwhile, the handle is given back, for the caller to end
    /// the process.
    pub fn attach(&mut self, ticket: u64, handle: H) -> (r: Option<H>)
        ensures
            (*final(self), r) == attach_spec(*old(self), ticket, handle),
    {
        let mut s = DownloadSlot::Idle;
        std::mem::swap(&mut self.slot, &mut s);
        match s {
            DownloadSlot::Starting { ticket: t, target } => {
                if t == ticket {
                    self.slot = DownloadSlot::Active { ticket, target, handle };
                    None
                } else {
                    self.slot = DownloadSlot::Starting { ticket: t, target };
                    Some(handle)
                }
            },
            other => {
                self.slot = other;
                Some(handle)
            },
        }
    }

    /// Ends download `ticket`, whose process ended or could not be started,
    /// and returns its handle if it had one. Another download is left alone.
    pub fn finish(&mut self, ticket: u64) -> (r: Option<H>)
        ensures
            (old(self).slot matches DownloadSlot::Active { ticket: t, .. } && t == ticket) ==> r
                == Some(old(self).slot->Active_handle) && final(self).slot is Idle,
            (old(self).slot matches DownloadSlot::Starting { ticket: t, .. } && t == ticket) ==> r is None
                && final(self).slot is Idle,
            !(old(self).slot matches DownloadSlot::Active { ticket: t, .. } && t == ticket)
                && !(old(self).slot matches DownloadSlot::Starting { ticket: t, .. } && t == ticket)
                ==> r is None && final(self).slot == old(self).slot,
            final(self).next_ticket == old(self).next_ticket,
    {
        let mut s = DownloadSlot::Idle;
        std::mem::swap(&mut self.slot, &mut s);
        match s {
            DownloadSlot::Active { ticket: t, target, handle } => {
                if t == ticket {
                    Some(handle)
                } else {
                    self.slot = DownloadSlot::Active { ticket: t, target, handle };
                    None
                }
            },
            DownloadSlot::Starting { ticket: t, target } => {
                if t != ticket {
                    self.slot = DownloadSlot::Starting { ticket: t, target };
                }
                None
            },
            DownloadSlot::Idle => None,
        }
    }

    /// Cancels the download under way and returns the handle of its process,
    /// for the caller to end it; `NoActiveDownload` when there is none.
    pub fn cancel(&mut self) -> (r: Result<Option<H>, PullError>)
        ensures
            old(self).slot is Idle ==> r == Err::<Option<H>, PullError>(PullError::NoActiveDownload),
            old(self).slot is Starting ==> r == Ok::<Option<H>, PullError>(None),
            old(self).slot is Active ==> r == Ok::<Option<H>, PullError>(Some(old(self).slot->Active_handle)),
            final(self).slot is Idle,
            final(self).next_ticket == old(self).next_ticket,
    {
        let mut s = DownloadSlot::Idle;
        std::mem::swap(&mut self.slot, &mut s);
        match s {
            DownloadSlot::Idle => Err(PullError::NoActiveDownload),
            DownloadSlot::Starting { .. } => Ok(None),
            DownloadSlot::Active { handle, .. } => Ok(Some(handle)),
        }
    }
}


/// The URL of the model server's pull endpoint on `port`.
pub open spec fn pull_url(port: u16) -> Seq<char> {
    "http://localhost:"@ + decimal(port as nat) + "/api/pull"@
}

/// The JSON request body that asks for `model`: one object whose `name`
/// string holds the name escaped, so any name gives well-formed JSON.
pub open spec fn pull_body(model: Seq<char>) -> Seq<char> {
    "{\"name\":\""@ + json_escape(model) + "\"}"@
}

/// The program and arguments that download `model`: a streaming HTTP request
/// to the server on `port` when it is reachable, the server binary's own
/// `pull` subcommand otherwise.
pub open spec fn pull_command_spec(server_reachable: bool, port: u16, binary: Seq<char>, model: Seq<char>) -> (Seq<char>, Seq<Seq<char>>) {
    if server_reachable {
        (
            "curl"@,
            seq![
                "-N"@,
                "-s"@,
                "-X"@,
                "POST"@,
                pull_url(port),
                "-H"@,
                "Content-Type: application/json"@,
                "-d"@,
                pull_body(model),
            ],
        )
    } else {
        (binary, seq!["pull"@, model])
    }
}

/// The program and arguments that download `model` (see `pull_command_spec`).
pub fn pull_command(server_reachable: bool, port: u16, binary: &str, model: &str) -> (r: (String, Vec<String>))
    ensures
        (r.0@, views(r.1@)) == pull_command_spec(server_reachable, port, binary@, model@),
{
    let mut args: Vec<String> = Vec::new();
    assert(views(args@) =~= seq![]);
    if server_reachable {
        let url = join3("http://localhost:", decimal_string(port as u64).as_str(), "/api/pull");
        let name = json_escape_str(model);
        let body = join3("{\"name\":\"", name.as_str(), "\"}");
        push_text(&mut args, "-N");
        push_text(&mut args, "-s");
        push_text(&mut args, "-X");
        push_text(&mut args, "POST");
        push_text(&mut args, url.as_str());
        push_text(&mut args, "-H");
        push_text(&mut args, "Content-Type: application/json");
        push_text(&mut args, "-d");
        push_text(&mut args, body.as_str());
        assert(views(args@) =~= pull_command_spec(server_reachable, port, binary@, model@).1);
        (String::from_str("curl"), args)
    } else {
        push_text(&mut args, "pull");
        push_text(&mut args, model);
        assert(views(args@) =~= pull_command_spec(server_reachable, port, binary@, model@).1);
        (String::from_str(binary), args)
    }
}

/// The outcome of a download whose process has ended: success when it exited
/// successfully, `Interrupted` otherwise.
pub fn pull_outcome(model: &str, exited_ok: bool) -> (r: Result<String, PullError>)
    ensures
        exited_ok ==> r is Ok && r->Ok_0@ == "✅ Model '"@ + model@ + "' pulled successfully."@,
        !exited_ok ==> r == Err::<String, PullError>(PullError::Interrupted),
{
    if exited_ok {
        Ok(join3("✅ Model '", model, "' pulled successfully."))
    } else {
        Err(PullError::Interrupted)
    }
}

pub open spec fn pull_error_text(e: PullError) -> Seq<char> {
    match e {
        PullError::AlreadyDownloading => "⏳ A model download is already in progress."@,
        PullError::SpawnFailed => "❌ Failed to start pull."@,
        PullError::NoActiveDownload => "ℹ No active download to cancel."@,
        PullError::Interrupted => "❌ Model pull failed. 💡 Try the Repair Model Pull option."@,
    }
}

impl PullError {
    /// A sentence for the user.
    pub fn message(&self) -> (r: String)
        ensures
            r@ == pull_error_text(*self),
    {
        match self {
            PullError::AlreadyDownloading => String::from_str("⏳ A model download is already in progress."),
            PullError::SpawnFailed => String::from_str("❌ Failed to start pull."),
            PullError::NoActiveDownload => String::from_str("ℹ No active download to cancel."),
            PullError::Interrupted => String::from_str("❌ Model pull failed. 💡 Try the Repair Model Pull option."),
        }
    }
}


/// The first words of the lines that are not blank, in order.
pub open spec fn first_words(ls: Seq<Seq<char>>) -> Seq<Seq<char>>
    decreases ls.len(),
{
    if ls.len() == 0 {
        seq![]
    } else {
        let rest = first_words(ls.drop_last());
        if first_word(ls.last()).len() > 0 {
            rest.push(first_word(ls.last()))
        } else {
            rest
        }
    }
}

/// The model identifiers in the model server's listing output: the first
/// column of each row, in order, after the header row (the first line that
/// is not blank).
pub open spec fn listed_models(output: Seq<char>) -> Seq<Seq<char>> {
    let w = first_words(lines(output));
    if w.len() == 0 {
        w
    } else {
        w.drop_first()
    }
}

/// The model identifiers in the model server's listing output (see `listed_models`).
pub fn model_list(output: &str) -> (r: Vec<String>)
    ensures
        views(r@) == listed_models(output@),
{
    let ls = split_lines(output);
    let ghost lv = views(ls@);
    let mut out: Vec<String> = Vec::new();
    let mut i: usize = 0;
    assert(views(out@) =~= seq![]);
    while i < ls.len()
        invariant
            lv == views(ls@),
            lv == lines(output@),
            i <= ls@.len(),
            views(out@) == first_words(lv.subrange(0, i as int)),
        decreases ls@.len() - i,
    {
        let w = first_word_str(ls[i].as_str());
        assert(lv.subrange(0, i + 1).drop_last() =~= lv.subrange(0, i as int));
        assert(lv.subrange(0, i + 1).last() == ls@[i as int]@);
        if w.as_str().unicode_len() > 0 {
            let ghost before = out@;
            out.push(w);
            assert(views(out@) =~= views(before).push(w@));
        }
        i += 1;
    }
    assert(lv.subrange(0, i as int) =~= lv);
    if out.len() > 0 {
        let ghost before = out@;
        out.remove(0);
        assert(views(out@) =~= views(before).drop_first());
    }
    out
}

} // verus!
