//! Output routing: every line the program emits is an [`OutputEvent`], and
//! [`OutputState::dispatch`] decides whether it is captured, written (and
//! where), or silenced by `--quiet` / `--json`.
use vstd::prelude::*;
use crate::errors::YammmError;
use crate::text::{chars_of, lines_chars, lines_spec, string_of, u64_to_decimal, decimal, views};
use crate::types::{ModSource, SourceView};

verus! {

/// Status messages on stdout, silenced by `--quiet` and `--json`.
#[derive(Clone, Copy, Debug, PartialEq, Eq, Structural)]
pub enum StatusKind {
    Heading,
    Info,
    Success,
    Bullet,
    Dim,
}

/// Diagnostics on stderr, never silenced.
#[derive(Clone, Copy, Debug, PartialEq, Eq, Structural)]
pub enum DiagnosticKind {
    Warning,
    Error,
}

/// One line (or block) the program may emit.
#[derive(Debug)]
pub enum OutputEvent {
    Status(StatusKind, String),
    Diagnostic(DiagnosticKind, String),
    BlankLine,
    /// A command result; survives `--quiet`, silenced by `--json`.
    Raw(String),
    /// A multi-line command result.
    RawBlock(String),
    /// The single JSON document of `--json` mode.
    JsonDocument(String),
}

/// Where a dispatched event went.
#[derive(Debug)]
pub enum Delivery {
    /// Appended to the capture buffer.
    Captured,
    /// Printed on stdout as a styled status line.
    Status(StatusKind, String),
    /// Printed on stderr as a styled diagnostic.
    Diagnostic(DiagnosticKind, String),
    /// Printed on stdout as is.
    Stdout(String),
    /// An empty line on stdout.
    Blank,
    /// Not printed.
    Silenced,
}

/// The mathematical content of an [`OutputEvent`].
pub enum EventView {
    Status(StatusKind, Seq<char>),
    Diagnostic(DiagnosticKind, Seq<char>),
    BlankLine,
    Raw(Seq<char>),
    RawBlock(Seq<char>),
    JsonDocument(Seq<char>),
}

impl View for OutputEvent {
    type V = EventView;

    open spec fn view(&self) -> EventView {
        match self {
            OutputEvent::Status(k, m) => EventView::Status(*k, m@),
            OutputEvent::Diagnostic(k, m) => EventView::Diagnostic(*k, m@),
            OutputEvent::BlankLine => EventView::BlankLine,
            OutputEvent::Raw(s) => EventView::Raw(s@),
            OutputEvent::RawBlock(s) => EventView::RawBlock(s@),
            OutputEvent::JsonDocument(s) => EventView::JsonDocument(s@),
        }
    }
}

/// The mathematical content of a [`Delivery`].
pub enum DeliveryView {
    Captured,
    Status(StatusKind, Seq<char>),
    Diagnostic(DiagnosticKind, Seq<char>),
    Stdout(Seq<char>),
    Blank,
    Silenced,
}

impl View for Delivery {
    type V = DeliveryView;

    open spec fn view(&self) -> DeliveryView {
        match self {
            Delivery::Captured => DeliveryView::Captured,
            Delivery::Status(k, m) => DeliveryView::Status(*k, m@),
            Delivery::Diagnostic(k, m) => DeliveryView::Diagnostic(*k, m@),
            Delivery::Stdout(s) => DeliveryView::Stdout(s@),
            Delivery::Blank => DeliveryView::Blank,
            Delivery::Silenced => DeliveryView::Silenced,
        }
    }
}

/// The plain (unstyled) rendering of a status line.
pub open spec fn status_plain(kind: StatusKind, msg: Seq<char>) -> Seq<char> {
    match kind {
        StatusKind::Success => "✓ "@ + msg,
        StatusKind::Bullet => "  • "@ + msg,
        _ => msg,
    }
}

/// The plain rendering of a diagnostic.
pub open spec fn diagnostic_plain(kind: DiagnosticKind, msg: Seq<char>) -> Seq<char> {
    match kind {
        DiagnosticKind::Error => "✗ "@ + msg,
        DiagnosticKind::Warning => "⚠ "@ + msg,
    }
}

/// The lines an event adds to the capture buffer.
pub open spec fn captured_lines(e: EventView) -> Seq<Seq<char>> {
    match e {
        EventView::Status(k, m) => seq![status_plain(k, m)],
        EventView::Diagnostic(k, m) => seq![diagnostic_plain(k, m)],
        EventView::BlankLine => seq![Seq::<char>::empty()],
        EventView::Raw(s) => seq![s],
        EventView::RawBlock(s) => lines_spec(s),
        EventView::JsonDocument(s) => lines_spec(s),
    }
}

/// Where an event goes when output is not captured.
pub open spec fn route(e: EventView, quiet: bool, json: bool) -> DeliveryView {
    match e {
        EventView::Diagnostic(k, m) => DeliveryView::Diagnostic(k, m),
        EventView::JsonDocument(s) => DeliveryView::Stdout(s),
        EventView::Raw(s) => if json {
            DeliveryView::Silenced
        } else {
            DeliveryView::Stdout(s)
        },
        EventView::RawBlock(s) => if json {
            DeliveryView::Silenced
        } else {
            DeliveryView::Stdout(s)
        },
        EventView::BlankLine => if quiet || json {
            DeliveryView::Silenced
        } else {
            DeliveryView::Blank
        },
        EventView::Status(k, m) => if quiet || json {
            DeliveryView::Silenced
        } else {
            DeliveryView::Status(k, m)
        },
    }
}

/// `new` is `old` after dispatching `e`, which went to `d`.
pub open spec fn dispatched(old: &OutputState, new: &OutputState, e: EventView, d: DeliveryView) -> bool {
    &&& new.quiet_spec() == old.quiet_spec()
    &&& new.json_spec() == old.json_spec()
    &&& new.is_capturing() == old.is_capturing()
    &&& old.is_capturing() ==> d is Captured && new.captured_spec() == old.captured_spec()
        + captured_lines(e)
    &&& !old.is_capturing() ==> d == route(e, old.quiet_spec(), old.json_spec())
        && new.captured_spec() == old.captured_spec()
}

/// The lines a sequence of events leaves in the capture buffer: each
/// event's plain rendering, in order.
pub open spec fn all_captured(es: Seq<EventView>) -> Seq<Seq<char>>
    decreases es.len(),
{
    if es.len() == 0 {
        Seq::empty()
    } else {
        all_captured(es.drop_last()) + captured_lines(es.last())
    }
}

/// Capture records every event: starting from an empty capture, dispatching
/// events one after another (whatever the quiet and JSON switches) captures
/// each of them and leaves the plain renderings of all of them, in order, in
/// the buffer that `stop_capture` hands back.
pub proof fn lemma_capture_records_every_event(states: Seq<OutputState>, es: Seq<EventView>, ds: Seq<DeliveryView>)
    requires
        states.len() == es.len() + 1,
        ds.len() == es.len(),
        states[0].is_capturing(),
        states[0].captured_spec().len() == 0,
        forall|i: int| 0 <= i < es.len() ==> dispatched(&#[trigger] states[i], &states[i + 1], es[i], ds[i]),
    ensures
        states.last().is_capturing(),
        states.last().captured_spec() == all_captured(es),
        forall|i: int| 0 <= i < ds.len() ==> #[trigger] ds[i] is Captured,
    decreases es.len(),
{
    if es.len() == 0 {
        assert(states[0].captured_spec() =~= Seq::<Seq<char>>::empty());
    } else {
        let n = es.len() - 1;
        let st = states.drop_last();
        assert forall|i: int| 0 <= i < n implies dispatched(&#[trigger] st[i], &st[i + 1], es.drop_last()[i], ds.drop_last()[i]) by {
            assert(st[i] == states[i] && st[i + 1] == states[i + 1]);
            assert(dispatched(&states[i], &states[i + 1], es[i], ds[i]));
        }
        lemma_capture_records_every_event(st, es.drop_last(), ds.drop_last());
        assert(st.last() == states[n]);
        assert(dispatched(&states[n], &states[n + 1], es[n], ds[n]));
        assert forall|i: int| 0 <= i < ds.len() implies #[trigger] ds[i] is Captured by {
            if i < n {
                assert(ds.drop_last()[i] == ds[i]);
            }
        }
    }
}

/// The output switches and the capture buffer.
pub struct OutputState {
    captured: bool,
    quiet: bool,
    json: bool,
    lines: Vec<String>,
}

impl OutputState {
    pub closed spec fn is_capturing(&self) -> bool {
        self.captured
    }

    pub closed spec fn quiet_spec(&self) -> bool {
        self.quiet
    }

    pub closed spec fn json_spec(&self) -> bool {
        self.json
    }

    /// The lines captured so far.
    pub closed spec fn captured_spec(&self) -> Seq<Seq<char>> {
        views_of_strings(self.lines@)
    }

    /// Output printed normally: no capture, not quiet, not JSON.
    pub fn new() -> (s: Self)
        ensures
            !s.is_capturing(),
            !s.quiet_spec(),
            !s.json_spec(),
            s.captured_spec().len() == 0,
    {
        OutputState { captured: false, quiet: false, json: false, lines: Vec::new() }
    }

    /// Starts capturing with an empty buffer.
    pub fn start_capture(&mut self)
        ensures
            final(self).is_capturing(),
            final(self).captured_spec().len() == 0,
            final(self).quiet_spec() == old(self).quiet_spec(),
            final(self).json_spec() == old(self).json_spec(),
    {
        self.captured = true;
        self.lines = Vec::new();
    }

    /// Stops capturing and hands back the captured lines, leaving the buffer empty.
    pub fn stop_capture(&mut self) -> (lines: Vec<String>)
        ensures
            views_of_strings(lines@) == old(self).captured_spec(),
            !final(self).is_capturing(),
            final(self).captured_spec().len() == 0,
            final(self).quiet_spec() == old(self).quiet_spec(),
            final(self).json_spec() == old(self).json_spec(),
    {
        self.captured = false;
        let mut out: Vec<String> = Vec::new();
        std::mem::swap(&mut out, &mut self.lines);
        out
    }

    pub fn set_quiet(&mut self, enabled: bool)
        ensures
            final(self).quiet_spec() == enabled,
            final(self).json_spec() == old(self).json_spec(),
            final(self).is_capturing() == old(self).is_capturing(),
            final(self).captured_spec() == old(self).captured_spec(),
    {
        self.quiet = enabled;
    }

    pub fn is_quiet(&self) -> (b: bool)
        ensures
            b == self.quiet_spec(),
    {
        self.quiet
    }

    pub fn set_json_mode(&mut self, enabled: bool)
        ensures
            final(self).json_spec() == enabled,
            final(self).quiet_spec() == old(self).quiet_spec(),
            final(self).is_capturing() == old(self).is_capturing(),
            final(self).captured_spec() == old(self).captured_spec(),
    {
        self.json = enabled;
    }

    pub fn is_json_mode(&self) -> (b: bool)
        ensures
            b == self.json_spec(),
    {
        self.json
    }

    pub fn is_captured(&self) -> (b: bool)
        ensures
            b == self.is_capturing(),
    {
        self.captured
    }

    /// Appends one line to the capture buffer.
    fn capture_line(&mut self, line: String)
        ensures
            final(self).lines@ == old(self).lines@.push(line),
            final(self).quiet == old(self).quiet,
            final(self).json == old(self).json,
            final(self).captured == old(self).captured,
    {
        self.lines.push(line);
    }

    /// Routes one event: into the capture buffer while capturing (whatever
    /// the quiet and JSON switches say), else to stdout, stderr or nowhere.
    pub fn dispatch(&mut self, event: OutputEvent) -> (d: Delivery)
        ensures
            dispatched(old(self), final(self), event@, d@),
    {
        if self.captured {
            let ghost before = self.lines@;
            let ghost expected = captured_lines(event@);
            let new_lines = capture_event(&event);
            let mut i: usize = 0;
            while i < new_lines.len()
                invariant
                    i <= new_lines.len(),
                    self.quiet == old(self).quiet,
                    self.json == old(self).json,
                    self.captured == old(self).captured,
                    views_of_strings(new_lines@) == expected,
                    views_of_strings(self.lines@) == views_of_strings(before) + expected.take(i as int),
                decreases new_lines.len() - i,
            {
                let ghost prev = self.lines@;
                self.capture_line(new_lines[i].clone());
                assert(views_of_strings(self.lines@) =~= views_of_strings(prev).push(new_lines@[i as int]@));
                assert(expected.take(i as int + 1) =~= expected.take(i as int).push(expected[i as int]));
                assert(views_of_strings(before) + expected.take(i as int + 1) =~= (views_of_strings(before)
                    + expected.take(i as int)).push(expected[i as int]));
                i += 1;
            }
            assert(expected.take(new_lines.len() as int) == expected);
            return Delivery::Captured;
        }
        match event {
            OutputEvent::Diagnostic(k, m) => Delivery::Diagnostic(k, m),
            OutputEvent::JsonDocument(s) => Delivery::Stdout(s),
            OutputEvent::Raw(s) => if self.json {
                Delivery::Silenced
            } else {
                Delivery::Stdout(s)
            },
            OutputEvent::RawBlock(s) => if self.json {
                Delivery::Silenced
            } else {
                Delivery::Stdout(s)
            },
            OutputEvent::BlankLine => if self.quiet || self.json {
                Delivery::Silenced
            } else {
                Delivery::Blank
            },
            OutputEvent::Status(k, m) => if self.quiet || self.json {
                Delivery::Silenced
            } else {
                Delivery::Status(k, m)
            },
        }
    }
}

/// The character sequences of a list of strings.
pub open spec fn views_of_strings(v: Seq<String>) -> Seq<Seq<char>> {
    v.map_values(|s: String| s@)
}

/// The strings joined with a separator.
pub fn join_strings(v: &Vec<String>, sep: &str) -> (s: String)
    ensures
        s@ == crate::text::join_with(views_of_strings(v@), sep@),
{
    let mut parts: Vec<Vec<char>> = Vec::new();
    let mut i: usize = 0;
    while i < v.len()
        invariant
            i <= v@.len(),
            crate::text::views(parts@) == views_of_strings(v@).take(i as int),
            parts@.len() == i,
        decreases v@.len() - i,
    {
        let ghost before = parts@;
        parts.push(crate::text::chars_of(v[i].as_str()));
        assert forall|k: int| 0 <= k < i + 1 implies #[trigger] crate::text::views(parts@)[k] == views_of_strings(
            v@,
        ).take(i + 1)[k] by {
            if k < i {
                assert(parts@[k] == before[k]);
                assert(crate::text::views(before)[k] == views_of_strings(v@).take(i as int)[k]);
            }
        }
        assert(crate::text::views(parts@) =~= views_of_strings(v@).take(i + 1));
        i += 1;
    }
    assert(views_of_strings(v@).take(v@.len() as int) =~= views_of_strings(v@));
    let sep_chars = crate::text::chars_of(sep);
    crate::text::string_of(crate::text::join_chars(parts.as_slice(), sep_chars.as_slice()).as_slice())
}

/// The plain rendering of a status line.
pub fn render_status_plain(kind: StatusKind, msg: &str) -> (s: String)
    ensures
        s@ == status_plain(kind, msg@),
{
    match kind {
        StatusKind::Success => {
            let mut s = String::from_str("✓ ");
            s.append(msg);
            s
        },
        StatusKind::Bullet => {
            let mut s = String::from_str("  • ");
            s.append(msg);
            s
        },
        _ => String::from_str(msg),
    }
}

/// The plain rendering of a diagnostic.
pub fn render_diagnostic_plain(kind: DiagnosticKind, msg: &str) -> (s: String)
    ensures
        s@ == diagnostic_plain(kind, msg@),
{
    match kind {
        DiagnosticKind::Error => {
            let mut s = String::from_str("✗ ");
            s.append(msg);
            s
        },
        DiagnosticKind::Warning => {
            let mut s = String::from_str("⚠ ");
            s.append(msg);
            s
        },
    }
}

/// The lines an event adds to the capture buffer.
fn capture_event(event: &OutputEvent) -> (v: Vec<String>)
    ensures
        views_of_strings(v@) == captured_lines(event@),
{
    let mut v: Vec<String> = Vec::new();
    match event {
        OutputEvent::Status(k, m) => {
            v.push(render_status_plain(*k, m.as_str()));
        },
        OutputEvent::Diagnostic(k, m) => {
            v.push(render_diagnostic_plain(*k, m.as_str()));
        },
        OutputEvent::BlankLine => {
            v.push(String::new());
        },
        OutputEvent::Raw(s) => {
            v.push(s.clone());
        },
        OutputEvent::RawBlock(s) | OutputEvent::JsonDocument(s) => {
            let c = chars_of(s.as_str());
            let ls = lines_chars(&c);
            let mut i: usize = 0;
            while i < ls.len()
                invariant
                    i <= ls.len(),
                    views_of_strings(v@) == views(ls@).take(i as int),
                decreases ls.len() - i,
            {
                let ghost prev = v@;
                v.push(string_of(&ls[i]));
                assert(views(ls@).take(i as int + 1) =~= views(ls@).take(i as int).push(ls@[i as int]@));
                assert(views_of_strings(v@) =~= views_of_strings(prev).push(ls@[i as int]@));
                i += 1;
            }
            assert(views(ls@).take(ls.len() as int) == views(ls@));
        },
    }
    proof {
        match event {
            OutputEvent::RawBlock(_) | OutputEvent::JsonDocument(_) => {},
            _ => {
                assert(views_of_strings(v@) =~= captured_lines(event@));
            },
        }
    }
    v
}

} // verus!

verus! {

/// Counts of a download batch: files fetched and failures (name, reason).
#[derive(Debug)]
pub struct DownloadSummary {
    pub downloaded: usize,
    pub failed: Vec<(String, String)>,
}

impl DownloadSummary {
    /// All files the batch attempted.
    pub fn total(&self) -> (n: usize)
        requires
            self.downloaded + self.failed@.len() <= usize::MAX,
        ensures
            n == self.downloaded + self.failed@.len(),
    {
        self.downloaded + self.failed.len()
    }
}

/// A version change as text: `old → new` (colour is the terminal's affair).
pub fn version_arrow(old: &str, new: &str) -> (s: String)
    ensures
        s@ == crate::update::arrow_text(old@, new@),
{
    let mut s = String::from_str(old);
    s.append(" \u{2192} ");
    s.append(new);
    s
}

/// The display label of a mod source.
pub open spec fn source_label_spec(s: SourceView) -> Seq<char> {
    match s {
        SourceView::Modrinth(_) => "Modrinth"@,
        SourceView::CurseForge(_) => "CurseForge"@,
        SourceView::Url(_) => "URL"@,
    }
}

/// The display label of a mod source (`Modrinth`, `CurseForge`, `URL`).
pub fn source_label(source: &ModSource) -> (s: &'static str)
    ensures
        s@ == source_label_spec(source@),
{
    match source {
        ModSource::Modrinth { .. } => "Modrinth",
        ModSource::CurseForge { .. } => "CurseForge",
        ModSource::Url { .. } => "URL",
    }
}

/// The message for a command that has no `--json` output yet.
pub open spec fn json_unsupported_message(command: Seq<char>) -> Seq<char> {
    "command '"@ + command
        + "' does not yet support --json output. Run without --json, or open an issue requesting JSON for this command."@
}

impl OutputState {
    fn status(&mut self, kind: StatusKind, msg: &str) -> (d: Delivery)
        ensures
            dispatched(old(self), final(self), EventView::Status(kind, msg@), d@),
    {
        self.dispatch(OutputEvent::Status(kind, String::from_str(msg)))
    }

    fn diagnostic(&mut self, kind: DiagnosticKind, msg: &str) -> (d: Delivery)
        ensures
            dispatched(old(self), final(self), EventView::Diagnostic(kind, msg@), d@),
    {
        self.dispatch(OutputEvent::Diagnostic(kind, String::from_str(msg)))
    }

    pub fn success(&mut self, msg: &str) -> (d: Delivery)
        ensures
            dispatched(old(self), final(self), EventView::Status(StatusKind::Success, msg@), d@),
    {
        self.status(StatusKind::Success, msg)
    }

    pub fn error(&mut self, msg: &str) -> (d: Delivery)
        ensures
            dispatched(old(self), final(self), EventView::Diagnostic(DiagnosticKind::Error, msg@), d@),
    {
        self.diagnostic(DiagnosticKind::Error, msg)
    }

    pub fn warning(&mut self, msg: &str) -> (d: Delivery)
        ensures
            dispatched(
                old(self),
                final(self),
                EventView::Diagnostic(DiagnosticKind::Warning, msg@),
                d@,
            ),
    {
        self.diagnostic(DiagnosticKind::Warning, msg)
    }

    pub fn heading(&mut self, msg: &str) -> (d: Delivery)
        ensures
            dispatched(old(self), final(self), EventView::Status(StatusKind::Heading, msg@), d@),
    {
        self.status(StatusKind::Heading, msg)
    }

    pub fn info(&mut self, msg: &str) -> (d: Delivery)
        ensures
            dispatched(old(self), final(self), EventView::Status(StatusKind::Info, msg@), d@),
    {
        self.status(StatusKind::Info, msg)
    }

    pub fn dim(&mut self, msg: &str) -> (d: Delivery)
        ensures
            dispatched(old(self), final(self), EventView::Status(StatusKind::Dim, msg@), d@),
    {
        self.status(StatusKind::Dim, msg)
    }

    pub fn bullet(&mut self, msg: &str) -> (d: Delivery)
        ensures
            dispatched(old(self), final(self), EventView::Status(StatusKind::Bullet, msg@), d@),
    {
        self.status(StatusKind::Bullet, msg)
    }

    pub fn blank_line(&mut self) -> (d: Delivery)
        ensures
            dispatched(old(self), final(self), EventView::BlankLine, d@),
    {
        self.dispatch(OutputEvent::BlankLine)
    }

    pub fn raw_line(&mut self, msg: &str) -> (d: Delivery)
        ensures
            dispatched(old(self), final(self), EventView::Raw(msg@), d@),
    {
        self.dispatch(OutputEvent::Raw(String::from_str(msg)))
    }

    pub fn raw_block(&mut self, msg: &str) -> (d: Delivery)
        ensures
            dispatched(old(self), final(self), EventView::RawBlock(msg@), d@),
    {
        self.dispatch(OutputEvent::RawBlock(String::from_str(msg)))
    }

    /// Routes an already serialised JSON document.
    pub fn emit_json_text(&mut self, doc: &str) -> (d: Delivery)
        ensures
            dispatched(old(self), final(self), EventView::JsonDocument(doc@), d@),
    {
        self.dispatch(OutputEvent::JsonDocument(String::from_str(doc)))
    }

    /// `<action> cancelled.` as a warning.
    pub fn cancelled(&mut self, action: &str) -> (d: Delivery)
        ensures
            dispatched(
                old(self),
                final(self),
                EventView::Diagnostic(DiagnosticKind::Warning, action@ + " cancelled."@),
                d@,
            ),
    {
        let mut m = String::from_str(action);
        m.append(" cancelled.");
        self.warning(m.as_str())
    }

    /// An error when `--json` is on for a command without JSON output.
    pub fn require_json_support(&self, command: &str) -> (r: Result<(), YammmError>)
        ensures
            r is Ok <==> !self.json_spec(),
            r matches Err(e) ==> e matches YammmError::InvalidArgs(m) && m@
                == json_unsupported_message(command@),
    {
        if self.json {
            let mut m = String::from_str("command '");
            m.append(command);
            m.append(
                "' does not yet support --json output. Run without --json, or open an issue requesting JSON for this command.",
            );
            Err(YammmError::InvalidArgs(m))
        } else {
            Ok(())
        }
    }

    /// A download batch summary: one error per failure, then the count of
    /// downloaded files when any were.
    pub fn present_download_summary(&mut self, summary: &DownloadSummary) -> (ds: Vec<Delivery>)
        ensures
            ds@.len() == summary.failed@.len() + (if summary.downloaded > 0 { 1int } else { 0 }),
            forall|i: int|
                0 <= i < summary.failed@.len() ==> (#[trigger] ds@[i])@ == (if old(
                    self,
                ).is_capturing() {
                    DeliveryView::Captured
                } else {
                    DeliveryView::Diagnostic(
                        DiagnosticKind::Error,
                        summary.failed@[i].0@ + " download failed: "@ + summary.failed@[i].1@,
                    )
                }),
            summary.downloaded > 0 ==> ds@.last()@ == route_or_capture(
                old(self),
                EventView::Status(
                    StatusKind::Success,
                    decimal(summary.downloaded as nat) + " file(s) downloaded"@,
                ),
            ),
            final(self).quiet_spec() == old(self).quiet_spec(),
            final(self).json_spec() == old(self).json_spec(),
            final(self).is_capturing() == old(self).is_capturing(),
            final(self).captured_spec() == old(self).captured_spec() + (if old(self).is_capturing() {
                summary_lines(summary.failed@.map_values(|f: (String, String)| (f.0@, f.1@)), summary.downloaded as nat)
            } else {
                Seq::empty()
            }),
    {
        let mut ds: Vec<Delivery> = Vec::new();
        let ghost fv = summary.failed@.map_values(|f: (String, String)| (f.0@, f.1@));
        let ghost start = self.captured_spec();
        let mut i: usize = 0;
        while i < summary.failed.len()
            invariant
                i <= summary.failed.len(),
                fv == summary.failed@.map_values(|f: (String, String)| (f.0@, f.1@)),
                ds@.len() == i,
                self.quiet_spec() == old(self).quiet_spec(),
                self.json_spec() == old(self).json_spec(),
                self.is_capturing() == old(self).is_capturing(),
                self.captured_spec() == start + (if old(self).is_capturing() {
                    failure_lines(fv.take(i as int))
                } else {
                    Seq::empty()
                }),
                forall|j: int|
                    0 <= j < i ==> (#[trigger] ds@[j])@ == (if old(self).is_capturing() {
                        DeliveryView::Captured
                    } else {
                        DeliveryView::Diagnostic(
                            DiagnosticKind::Error,
                            summary.failed@[j].0@ + " download failed: "@ + summary.failed@[j].1@,
                        )
                    }),
            decreases summary.failed.len() - i,
        {
            let (name, e) = &summary.failed[i];
            let mut m = name.clone();
            m.append(" download failed: ");
            m.append(e.as_str());
            let ghost before = self.captured_spec();
            let d = self.error(m.as_str());
            ds.push(d);
            proof {
                assert(fv.take(i as int + 1).drop_last() == fv.take(i as int));
                assert(fv[i as int] == (name@, e@));
                if old(self).is_capturing() {
                    assert(start + failure_lines(fv.take(i as int + 1)) =~= before + seq![
                        diagnostic_plain(DiagnosticKind::Error, m@),
                    ]);
                } else {
                    assert(start + Seq::<Seq<char>>::empty() =~= start);
                }
            }
            i += 1;
        }
        assert(fv.take(summary.failed.len() as int) == fv);
        if summary.downloaded > 0 {
            let mut m = u64_to_decimal(summary.downloaded as u64);
            m.append(" file(s) downloaded");
            let ghost before = self.captured_spec();
            let d = self.success(m.as_str());
            ds.push(d);
            proof {
                if old(self).is_capturing() {
                    assert(start + summary_lines(fv, summary.downloaded as nat) =~= before
                        + captured_lines(EventView::Status(StatusKind::Success, m@)));
                }
            }
        } else {
            proof {
                if old(self).is_capturing() {
                    assert(summary_lines(fv, summary.downloaded as nat) == failure_lines(fv));
                }
            }
        }
        ds
    }
}

/// Where an event goes from the given state (capture or route).
pub open spec fn route_or_capture(s: &OutputState, e: EventView) -> DeliveryView {
    if s.is_capturing() {
        DeliveryView::Captured
    } else {
        route(e, s.quiet_spec(), s.json_spec())
    }
}

/// The captured lines of a batch's failures.
pub open spec fn failure_lines(f: Seq<(Seq<char>, Seq<char>)>) -> Seq<Seq<char>>
    decreases f.len(),
{
    if f.len() == 0 {
        Seq::empty()
    } else {
        failure_lines(f.drop_last()).push(
            diagnostic_plain(DiagnosticKind::Error, f.last().0 + " download failed: "@ + f.last().1),
        )
    }
}

/// The captured lines of a whole batch summary.
pub open spec fn summary_lines(f: Seq<(Seq<char>, Seq<char>)>, downloaded: nat) -> Seq<Seq<char>> {
    if downloaded > 0 {
        failure_lines(f).push(
            status_plain(StatusKind::Success, decimal(downloaded) + " file(s) downloaded"@),
        )
    } else {
        failure_lines(f)
    }
}


/// Warnings and errors are never silenced: while capturing they are
/// captured, otherwise they go to the diagnostic stream unchanged, whatever
/// the quiet and JSON switches say.
pub proof fn lemma_diagnostics_never_silenced(
    old: &OutputState,
    new: &OutputState,
    kind: DiagnosticKind,
    msg: Seq<char>,
    d: DeliveryView,
)
    requires
        dispatched(old, new, EventView::Diagnostic(kind, msg), d),
    ensures
        d !is Silenced,
        !old.is_capturing() ==> d == DeliveryView::Diagnostic(kind, msg),
{
}

/// While capturing, every event is recorded in its plain rendering and
/// nothing is printed, even in quiet or JSON mode.
pub proof fn lemma_capture_ignores_quiet(old: &OutputState, new: &OutputState, e: EventView, d: DeliveryView)
    requires
        dispatched(old, new, e, d),
        old.is_capturing(),
    ensures
        d is Captured,
        new.captured_spec() == old.captured_spec() + captured_lines(e),
{
}

/// Quiet mode silences exactly the status lines and blank lines.
pub proof fn lemma_quiet_silences_status(old: &OutputState, new: &OutputState, e: EventView, d: DeliveryView)
    requires
        dispatched(old, new, e, d),
        !old.is_capturing(),
        old.quiet_spec(),
    ensures
        (e is Status || e is BlankLine) ==> d is Silenced,
        e is Diagnostic ==> d is Diagnostic,
{
}

} // verus!
