//! Event sources: their settings, and the decisions each makes on what it reads.
//! Reading files, sockets and standard input is left to the caller, which hands the
//! text over and carries out what comes back.
use vstd::prelude::*;
use crate::config::{Config, SourceConfig};
use crate::json::{JsonValue, Payload};

verus! {

/// The poll interval of a file source when none is configured, in milliseconds.
pub const DEFAULT_FILE_POLL_MS: u64 = 100;

/// The shortest poll interval of a file source, in milliseconds.
pub const MIN_FILE_POLL_MS: u64 = 10;

/// The poll interval of a directory source, in milliseconds.
pub const DIRECTORY_POLL_MS: u64 = 400;

/// The poll interval that a file source uses for a configured one.
pub open spec fn file_poll_ms(poll_ms: Option<u64>) -> u64 {
    let p = match poll_ms {
        Some(p) => p,
        None => DEFAULT_FILE_POLL_MS,
    };
    if p < MIN_FILE_POLL_MS {
        MIN_FILE_POLL_MS
    } else {
        p
    }
}

/// A source that polls one file for a JSON event.
#[derive(Debug)]
pub struct FileSource {
    path: String,
    poll_ms: u64,
    delete_on_success: bool,
}

impl FileSource {
    /// A file source for `path`, polled every `poll_ms` milliseconds (100 when none is
    /// given, never under 10), deleting the file after each event when
    /// `delete_on_success` is set (off when none is given).
    pub fn new(path: String, poll_ms: Option<u64>, delete_on_success: Option<bool>) -> (r: Self)
        ensures
            r.path_spec() == path@,
            r.poll_ms_spec() == file_poll_ms(poll_ms),
            r.delete_on_success_spec() == (delete_on_success == Some(true)),
    {
        let p = match poll_ms {
            Some(p) => p,
            None => DEFAULT_FILE_POLL_MS,
        };
        FileSource {
            path,
            poll_ms: if p < MIN_FILE_POLL_MS {
                MIN_FILE_POLL_MS
            } else {
                p
            },
            delete_on_success: match delete_on_success {
                Some(d) => d,
                None => false,
            },
        }
    }

    pub closed spec fn path_spec(&self) -> Seq<char> {
        self.path@
    }

    pub closed spec fn poll_ms_spec(&self) -> u64 {
        self.poll_ms
    }

    pub closed spec fn delete_on_success_spec(&self) -> bool {
        self.delete_on_success
    }

    /// The name of the source kind, for logs.
    pub fn name(&self) -> (r: &'static str)
        ensures
            r@ == "file"@,
    {
        "file"
    }

    /// The watched path.
    pub fn path(&self) -> (r: &str)
        ensures
            r@ == self.path_spec(),
    {
        self.path.as_str()
    }

    /// The poll interval in milliseconds.
    pub fn poll_ms(&self) -> (r: u64)
        ensures
            r == self.poll_ms_spec(),
    {
        self.poll_ms
    }

    /// Whether the file is deleted after each event.
    pub fn delete_on_success(&self) -> (r: bool)
        ensures
            r == self.delete_on_success_spec(),
    {
        self.delete_on_success
    }
}

/// What a source does with a payload it has read from a file.
#[derive(Debug)]
pub enum FileAction {
    /// Nothing: the file held only white space.
    Skip,
    /// Nothing now: the content is not JSON; the next poll tries again.
    Retry { error: String },
    /// Hands the event on, then deletes the file if `delete_file` is set.
    Dispatch { event: JsonValue, delete_file: bool },
}

/// The coarse signature of a file: its length in bytes and its modification time in
/// whole seconds.
pub type FileSignature = (u64, u64);

/// Whether a file watch reads the file when it shows signature `sig`: always when files
/// are deleted after each event, otherwise only when the signature differs from that of
/// the last dispatched content.
pub open spec fn watch_reads(delete: bool, last: Option<FileSignature>, sig: FileSignature) -> bool {
    delete || last != Some(sig)
}

/// The signature a file watch remembers after reading payload `p` at signature `sig`.
pub open spec fn watch_after(
    delete: bool,
    last: Option<FileSignature>,
    sig: FileSignature,
    p: Payload,
) -> Option<FileSignature> {
    if p is Event && !delete {
        Some(sig)
    } else {
        last
    }
}

/// The file source's memory between polls.
#[derive(Debug)]
pub struct FileWatch {
    delete_on_success: bool,
    last_sig: Option<FileSignature>,
}

impl FileWatch {
    /// A watch that has dispatched nothing yet.
    pub fn new(delete_on_success: bool) -> (r: Self)
        ensures
            r.delete_spec() == delete_on_success,
            r.last_spec() is None,
    {
        FileWatch { delete_on_success, last_sig: None }
    }

    pub closed spec fn delete_spec(&self) -> bool {
        self.delete_on_success
    }

    pub closed spec fn last_spec(&self) -> Option<FileSignature> {
        self.last_sig
    }

    /// Whether to read the file, which shows signature `sig`.
    pub fn should_read(&self, sig: FileSignature) -> (r: bool)
        ensures
            r == watch_reads(self.delete_spec(), self.last_spec(), sig),
    {
        if self.delete_on_success {
            return true;
        }
        match self.last_sig {
            Some(last) => last.0 != sig.0 || last.1 != sig.1,
            None => true,
        }
    }

    /// What to do with payload `p`, read from the file at signature `sig`; an event
    /// that is handed on is remembered by its signature unless the file is deleted.
    pub fn on_payload(&mut self, sig: FileSignature, p: Payload) -> (r: FileAction)
        ensures
            final(self).delete_spec() == old(self).delete_spec(),
            final(self).last_spec() == watch_after(old(self).delete_spec(), old(self).last_spec(), sig, p),
            match p {
                Payload::Empty => r is Skip,
                Payload::Malformed { error } => r matches FileAction::Retry { error: e } && e == error,
                Payload::Event { value } => r matches FileAction::Dispatch { event, delete_file }
                    && event == value && delete_file == old(self).delete_spec(),
            },
    {
        match p {
            Payload::Empty => FileAction::Skip,
            Payload::Malformed { error } => FileAction::Retry { error },
            Payload::Event { value } => {
                if !self.delete_on_success {
                    self.last_sig = Some(sig);
                }
                FileAction::Dispatch { event: value, delete_file: self.delete_on_success }
            },
        }
    }
}

/// How many events a file watch hands on over polls that all see signature `sig` and
/// read the payloads `ps` in turn (a poll that does not read skips its payload).
pub open spec fn dispatches_at(
    delete: bool,
    last: Option<FileSignature>,
    sig: FileSignature,
    ps: Seq<Payload>,
) -> nat
    decreases ps.len(),
{
    if ps.len() == 0 {
        0
    } else if watch_reads(delete, last, sig) {
        (if ps[0] is Event {
            1nat
        } else {
            0nat
        }) + dispatches_at(delete, watch_after(delete, last, sig, ps[0]), sig, ps.drop_first())
    } else {
        dispatches_at(delete, last, sig, ps.drop_first())
    }
}

proof fn lemma_unchanged_file_is_skipped(sig: FileSignature, ps: Seq<Payload>)
    ensures
        dispatches_at(false, Some(sig), sig, ps) == 0,
    decreases ps.len(),
{
    if ps.len() > 0 {
        lemma_unchanged_file_is_skipped(sig, ps.drop_first());
    }
}

/// Without deletion, a file whose signature stays the same is handed on at most once,
/// however many polls see it and whatever they read.
pub proof fn lemma_unchanged_file_dispatched_at_most_once(
    last: Option<FileSignature>,
    sig: FileSignature,
    ps: Seq<Payload>,
)
    ensures
        dispatches_at(false, last, sig, ps) <= 1,
    decreases ps.len(),
{
    if ps.len() > 0 {
        if watch_reads(false, last, sig) && ps[0] is Event {
            lemma_unchanged_file_is_skipped(sig, ps.drop_first());
        } else if watch_reads(false, last, sig) {
            lemma_unchanged_file_dispatched_at_most_once(
                watch_after(false, last, sig, ps[0]),
                sig,
                ps.drop_first(),
            );
        } else {
            lemma_unchanged_file_dispatched_at_most_once(last, sig, ps.drop_first());
        }
    }
}

/// A source that polls a directory for files that each hold one JSON event.
#[derive(Debug)]
pub struct DirectorySource {
    path: String,
    pattern: Option<String>,
    recursive: bool,
    poll_ms: u64,
}

impl DirectorySource {
    /// A directory source for `path`, taking the files whose names match `pattern`
    /// (all when there is none), in subdirectories too when `recursive` is set; it polls
    /// every 400 milliseconds.
    pub fn new(path: String, pattern: Option<String>, recursive: bool) -> (r: Self)
        ensures
            r.path_spec() == path@,
            r.pattern_spec() == pattern,
            r.recursive_spec() == recursive,
            r.poll_ms_spec() == DIRECTORY_POLL_MS,
    {
        DirectorySource { path, pattern, recursive, poll_ms: DIRECTORY_POLL_MS }
    }

    pub closed spec fn path_spec(&self) -> Seq<char> {
        self.path@
    }

    pub closed spec fn pattern_spec(&self) -> Option<String> {
        self.pattern
    }

    pub closed spec fn recursive_spec(&self) -> bool {
        self.recursive
    }

    pub closed spec fn poll_ms_spec(&self) -> u64 {
        self.poll_ms
    }

    /// The name of the source kind, for logs.
    pub fn name(&self) -> (r: &'static str)
        ensures
            r@ == "directory"@,
    {
        "directory"
    }

    /// The watched directory.
    pub fn path(&self) -> (r: &str)
        ensures
            r@ == self.path_spec(),
    {
        self.path.as_str()
    }

    /// The file name pattern, if any.
    pub fn pattern(&self) -> (r: &Option<String>)
        ensures
            *r == self.pattern_spec(),
    {
        &self.pattern
    }

    /// Whether subdirectories are watched too.
    pub fn recursive(&self) -> (r: bool)
        ensures
            r == self.recursive_spec(),
    {
        self.recursive
    }

    /// The poll interval in milliseconds.
    pub fn poll_ms(&self) -> (r: u64)
        ensures
            r == self.poll_ms_spec(),
    {
        self.poll_ms
    }

    /// What to do with the payload of a file taken from the queue: an event is handed
    /// on and its file deleted, which acknowledges it; a malformed file stays for a
    /// later try.
    pub fn on_payload(&self, p: Payload) -> (r: FileAction)
        ensures
            match p {
                Payload::Empty => r is Skip,
                Payload::Malformed { error } => r matches FileAction::Retry { error: e } && e == error,
                Payload::Event { value } => r matches FileAction::Dispatch { event, delete_file }
                    && event == value && delete_file,
            },
    {
        match p {
            Payload::Empty => FileAction::Skip,
            Payload::Malformed { error } => FileAction::Retry { error },
            Payload::Event { value } => FileAction::Dispatch { event: value, delete_file: true },
        }
    }
}

/// What a line source does with one line: the event to hand on, if any, and the reply
/// to write back, if any. A line never closes the connection.
#[derive(Debug)]
pub struct LineOutcome {
    pub event: Option<JsonValue>,
    pub reply: Option<String>,
}

/// The reply to a line that held an event.
pub open spec fn ok_reply() -> Seq<char> {
    seq!['O', 'K', '\n']
}

/// The reply to a malformed line.
pub open spec fn error_reply(error: Seq<char>) -> Seq<char> {
    seq!['E', 'R', 'R', 'O', 'R', ' '] + error + seq!['\n']
}

/// What a line source hands on and replies for the payloads of its lines, in order;
/// replies are written only when `ack` is set.
pub open spec fn line_session(ps: Seq<Payload>, ack: bool) -> (Seq<JsonValue>, Seq<Seq<char>>)
    decreases ps.len(),
{
    if ps.len() == 0 {
        (Seq::empty(), Seq::empty())
    } else {
        let (events, replies) = line_session(ps.drop_last(), ack);
        match ps.last() {
            Payload::Empty => (events, replies),
            Payload::Malformed { error } => (
                events,
                if ack {
                    replies.push(error_reply(error@))
                } else {
                    replies
                },
            ),
            Payload::Event { value } => (
                events.push(value),
                if ack {
                    replies.push(ok_reply())
                } else {
                    replies
                },
            ),
        }
    }
}

/// What to do with the payload of one line read from a connection or from standard
/// input: an event is handed on and, with `ack`, answered `OK`; a malformed line is
/// answered `ERROR` and its message, with `ack`; an empty line is passed over.
pub fn on_line(p: Payload, ack: bool) -> (r: LineOutcome)
    ensures
        line_session(seq![p], ack).0 == (match r.event {
            Some(e) => seq![e],
            None => Seq::<JsonValue>::empty(),
        }),
        line_session(seq![p], ack).1 == (match r.reply {
            Some(t) => seq![t@],
            None => Seq::<Seq<char>>::empty(),
        }),
{
    proof {
        let s = seq![p];
        assert(s.drop_last() =~= Seq::<Payload>::empty());
        assert(s.last() == p);
        reveal_with_fuel(line_session, 2);
        reveal_strlit("OK\n");
        reveal_strlit("ERROR ");
        reveal_strlit("\n");
    }
    match p {
        Payload::Empty => LineOutcome { event: None, reply: None },
        Payload::Malformed { error } => {
            if ack {
                let mut t = String::new();
                t.append("ERROR ");
                t.append(error.as_str());
                t.append("\n");
                proof {
                    assert(t@ =~= error_reply(error@));
                    assert(Seq::<Seq<char>>::empty().push(error_reply(error@)) =~= seq![t@]);
                }
                LineOutcome { event: None, reply: Some(t) }
            } else {
                LineOutcome { event: None, reply: None }
            }
        },
        Payload::Event { value } => {
            let reply = if ack {
                let t = String::from_str("OK\n");
                proof {
                    assert(t@ =~= ok_reply());
                    assert(Seq::<Seq<char>>::empty().push(ok_reply()) =~= seq![t@]);
                }
                Some(t)
            } else {
                None
            };
            proof {
                assert(Seq::<JsonValue>::empty().push(value) =~= seq![value]);
            }
            LineOutcome { event: Some(value), reply }
        },
    }
}

/// With acknowledgements on, a malformed line followed by a line holding an event
/// yields one `ERROR` reply, then the event is handed on and answered `OK`.
pub proof fn lemma_malformed_line_then_event(error: String, value: JsonValue)
    ensures
        line_session(
            seq![Payload::Malformed { error }, Payload::Event { value }],
            true,
        ) == (seq![value], seq![error_reply(error@), ok_reply()]),
{
    let s = seq![Payload::Malformed { error }, Payload::Event { value }];
    assert(s.drop_last() =~= seq![Payload::Malformed { error }]);
    assert(s.drop_last().drop_last() =~= Seq::<Payload>::empty());
    reveal_with_fuel(line_session, 3);
    assert(line_session(s, true).0 =~= seq![value]);
    assert(line_session(s, true).1 =~= seq![error_reply(error@), ok_reply()]);
}

/// A source that listens on a TCP address for newline-delimited JSON.
#[derive(Debug)]
pub struct TcpSource {
    bind: String,
    ack: bool,
}

impl TcpSource {
    /// A TCP source listening on `bind`, answering each line when `ack` is set.
    pub fn new(bind: String, ack: bool) -> (r: Self)
        ensures
            r.bind_spec() == bind@,
            r.ack_spec() == ack,
    {
        TcpSource { bind, ack }
    }

    pub closed spec fn bind_spec(&self) -> Seq<char> {
        self.bind@
    }

    pub closed spec fn ack_spec(&self) -> bool {
        self.ack
    }

    /// The name of the source kind, for logs.
    pub fn name(&self) -> (r: &'static str)
        ensures
            r@ == "tcp"@,
    {
        "tcp"
    }

    /// The address to listen on.
    pub fn bind(&self) -> (r: &str)
        ensures
            r@ == self.bind_spec(),
    {
        self.bind.as_str()
    }

    /// Whether lines are answered.
    pub fn ack(&self) -> (r: bool)
        ensures
            r == self.ack_spec(),
    {
        self.ack
    }
}

/// A source that reads newline-delimited JSON from standard input, without replies.
#[derive(Debug)]
pub struct StdinSource {}

impl StdinSource {
    /// The standard input source.
    pub fn new() -> (r: Self) {
        StdinSource {  }
    }

    /// The name of the source kind, for logs.
    pub fn name(&self) -> (r: &'static str)
        ensures
            r@ == "stdin"@,
    {
        "stdin"
    }
}

/// One configured source, ready to start.
#[derive(Debug)]
pub enum Source {
    File(FileSource),
    Directory(DirectorySource),
    Tcp(TcpSource),
    Stdin(StdinSource),
}

/// `s` is the source that configuration entry `sc` describes.
pub open spec fn source_agrees(sc: SourceConfig, s: Source) -> bool {
    match sc {
        SourceConfig::File { path, poll_ms, delete_on_success } => s matches Source::File(f)
            && f.path_spec() == path@ && f.poll_ms_spec() == file_poll_ms(poll_ms)
            && f.delete_on_success_spec() == (delete_on_success == Some(true)),
        SourceConfig::Directory { path, pattern, recursive } => s matches Source::Directory(d)
            && d.path_spec() == path@ && d.recursive_spec() == (recursive == Some(true))
            && d.poll_ms_spec() == DIRECTORY_POLL_MS && match (pattern, d.pattern_spec()) {
            (Some(p), Some(q)) => p@ == q@,
            (None, None) => true,
            _ => false,
        },
        SourceConfig::Tcp { bind, ack } => s matches Source::Tcp(t) && t.bind_spec() == bind@
            && t.ack_spec() == (ack != Some(false)),
        SourceConfig::Stdin => s is Stdin,
    }
}

/// The sources that the configuration lists, in its order.
pub fn build_sources_from_config(cfg: &Config) -> (r: Vec<Source>)
    ensures
        r@.len() == cfg.sources@.len(),
        forall|i: int| 0 <= i < r@.len() ==> source_agrees(cfg.sources@[i], #[trigger] r@[i]),
{
    let mut out: Vec<Source> = Vec::new();
    let mut i: usize = 0;
    while i < cfg.sources.len()
        invariant
            i <= cfg.sources@.len(),
            out@.len() == i,
            forall|k: int| 0 <= k < i ==> source_agrees(cfg.sources@[k], #[trigger] out@[k]),
        decreases cfg.sources@.len() - i,
    {
        let s = match &cfg.sources[i] {
            SourceConfig::File { path, poll_ms, delete_on_success } => Source::File(
                FileSource::new(path.clone(), *poll_ms, *delete_on_success),
            ),
            SourceConfig::Directory { path, pattern, recursive } => {
                let pattern = match pattern {
                    Some(p) => Some(p.clone()),
                    None => None,
                };
                let recursive = match recursive {
                    Some(r) => *r,
                    None => false,
                };
                Source::Directory(DirectorySource::new(path.clone(), pattern, recursive))
            },
            SourceConfig::Tcp { bind, ack } => {
                let ack = match ack {
                    Some(a) => *a,
                    None => true,
                };
                Source::Tcp(TcpSource::new(bind.clone(), ack))
            },
            SourceConfig::Stdin => Source::Stdin(StdinSource::new()),
        };
        out.push(s);
        i = i + 1;
    }
    out
}

} // verus!
