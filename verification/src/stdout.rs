//! The standard-stream log sink.
//!
//! [`Logger`] evaluates eligibility through the memoized predicate cache,
//! builds one row of cells per eligible event — severity label, delimiter,
//! optional timestamp, source, message — renders it borderless with an
//! overall width cap of 120 columns, and names the stream the text belongs
//! on: standard error for `Error` events, standard output otherwise.

use vstd::prelude::*;

use crate::cache::cache_key;
use crate::cache::FilterCache;
use crate::clock::format_timestamp;
use crate::clock::lemma_timestamp_text;
use crate::clock::local_now;
use crate::clock::timestamp_spec;
use crate::clock::Timestamp;
use crate::filter::FilterPredicate;
use crate::filter::LoggerFilter;
use crate::layout::lemma_single_row_width;
use crate::layout::natural_widths;
use crate::layout::row_model;
use crate::layout::sum_widths;
use crate::layout::Alignment;
use crate::layout::Cell;
use crate::layout::CellModel;
use crate::layout::GridLayout;
use crate::layout::GridModel;
use crate::severity::Event;
use crate::severity::Metadata;
use crate::severity::Severity;
use crate::text::esc_closed;
use crate::text::esc_free;
use crate::text::lemma_plain_visible;
use crate::text::lemma_visible_concat;
use crate::text::lemma_visible_le_len;
use crate::text::visible;
use crate::text::visible_width;

verus! {

/// The colors the default layout paints with.
#[derive(Clone, Copy, Debug, PartialEq, Eq, Structural)]
pub enum PaintColor {
    Red,
    Yellow,
    Blue,
    Magenta,
    White,
    BrightBlack,
}

/// Relies on `console::style` and `StyledObject`'s `Display`: the styled
/// text prints as the input wrapped in zero or more complete `\x1b[..m`
/// sequences (none at all when the terminal takes no color), so the
/// printable characters are exactly the input's, and no styling sequence is
/// left open.
#[verifier::external_body]
fn paint(s: &str, color: PaintColor) -> (r: String)
    ensures
        visible_width(r@) <= s@.len(),
        esc_free(s@) ==> (visible(r@) == s@ && esc_closed(r@)),
{
    let styled = console::style(s);
    match color {
        PaintColor::Red => styled.red(),
        PaintColor::Yellow => styled.yellow(),
        PaintColor::Blue => styled.blue(),
        PaintColor::Magenta => styled.magenta(),
        PaintColor::White => styled.white(),
        PaintColor::BrightBlack => styled.black().bright(),
    }.to_string()
}

/// The five-character severity label, right-aligned within itself.
pub open spec fn label_spec(s: Severity) -> Seq<char> {
    match s {
        Severity::Off => seq![' ', ' ', 'O', 'F', 'F'],
        Severity::Error => seq!['E', 'R', 'R', 'O', 'R'],
        Severity::Warn => seq![' ', 'W', 'A', 'R', 'N'],
        Severity::Info => seq![' ', 'I', 'N', 'F', 'O'],
        Severity::Debug => seq!['D', 'E', 'B', 'U', 'G'],
        Severity::Trace => seq!['T', 'R', 'A', 'C', 'E'],
    }
}

/// The label text is five plain characters.
pub proof fn lemma_label_plain(s: Severity)
    ensures
        label_spec(s).len() == 5,
        esc_free(label_spec(s)),
{
    assert forall|i: int| 0 <= i < label_spec(s).len() implies label_spec(s)[i] != '\u{1b}' by {
        assert(i == 0 || i == 1 || i == 2 || i == 3 || i == 4);
    }
}

/// The printed label of a severity.
fn severity_label(s: Severity) -> (r: &'static str)
    requires
        s != Severity::Off,
    ensures
        r@ == label_spec(s),
{
    proof {
        reveal_strlit("ERROR");
        reveal_strlit(" WARN");
        reveal_strlit(" INFO");
        reveal_strlit("DEBUG");
        reveal_strlit("TRACE");
    }
    let r = match s {
        Severity::Off => "ERROR",
        Severity::Error => "ERROR",
        Severity::Warn => " WARN",
        Severity::Info => " INFO",
        Severity::Debug => "DEBUG",
        Severity::Trace => "TRACE",
    };
    proof {
        assert(r@ =~= label_spec(s));
    }
    r
}

/// The fixed severity-to-color mapping of the default layout.
fn severity_color(s: Severity) -> (r: PaintColor)
    requires
        s != Severity::Off,
{
    match s {
        Severity::Off => PaintColor::Red,
        Severity::Error => PaintColor::Red,
        Severity::Warn => PaintColor::Yellow,
        Severity::Info => PaintColor::Blue,
        Severity::Debug => PaintColor::Magenta,
        Severity::Trace => PaintColor::White,
    }
}

/// A whitespace character, as the blank-message test counts them.
pub open spec fn is_space_char(c: char) -> bool {
    c == ' ' || c == '\t' || c == '\n' || c == '\r' || c == '\u{b}' || c == '\u{c}'
}

/// A message of whitespace alone (or nothing at all): not worth a line.
pub open spec fn blank(s: Seq<char>) -> bool {
    forall|i: int| 0 <= i < s.len() ==> is_space_char(#[trigger] s[i])
}

/// Whether the text trims away to nothing.
pub fn is_blank(s: &str) -> (r: bool)
    ensures
        r == blank(s@),
{
    let n = s.unicode_len();
    let mut i: usize = 0;
    while i < n
        invariant
            0 <= i <= n,
            n == s@.len(),
            forall|j: int| 0 <= j < i ==> is_space_char(#[trigger] s@[j]),
        decreases n - i,
    {
        let c = s.get_char(i);
        if !(c == ' ' || c == '\t' || c == '\n' || c == '\r' || c == '\u{b}' || c == '\u{c}') {
            return false;
        }
        i = i + 1;
    }
    true
}

/// Which standard stream a rendered line belongs on.
#[derive(Clone, Copy, Debug, PartialEq, Eq, Structural)]
pub enum EchoStream {
    StdOut,
    StdErr,
}

/// One rendered log line together with the stream it is to be written to.
pub struct Echo {
    pub text: String,
    pub stream: EchoStream,
}

/// The row the default layout builds: label, delimiter, an optional
/// timestamp between two delimiters, the space-prefixed source, the arrow,
/// and the message.
pub open spec fn default_cells(
    label: Seq<char>,
    delim: Seq<char>,
    ts: Option<Seq<char>>,
    source: Seq<char>,
    message: Seq<char>,
) -> Seq<CellModel> {
    let head = seq![
        CellModel { text: label, align: Alignment::Right },
        CellModel { text: delim, align: Alignment::Left },
    ];
    let mid = match ts {
        Option::Some(t) => seq![
            CellModel { text: t, align: Alignment::Left },
            CellModel { text: delim, align: Alignment::Left },
        ],
        Option::None => Seq::<CellModel>::empty(),
    };
    let tail = seq![
        CellModel { text: seq![' '] + source, align: Alignment::Left },
        CellModel { text: seq![' ', '-', '>', ' '], align: Alignment::Left },
        CellModel { text: message, align: Alignment::Left },
    ];
    head + mid + tail
}

/// The exact text of one default-layout line: the row above, rendered
/// borderless under the overall cap of 120 columns, newline-terminated.
pub open spec fn line_spec(
    severity: Severity,
    ts: Option<Seq<char>>,
    source: Seq<char>,
    message: Seq<char>,
) -> Seq<char> {
    (GridModel {
        rows: seq![default_cells(label_spec(severity), seq!['|'], ts, source, message)],
        max_width: Some(120),
        bordered: false,
    }).render_spec()
}

/// Whether the registered predicates let an event from `source` through:
/// everything passes with none registered; otherwise some dependency key's
/// cached verdict for this source is true.
pub open spec fn eligible_in(
    cache: Map<Seq<char>, bool>,
    deps: Seq<String>,
    n_preds: nat,
    source: Seq<char>,
) -> bool {
    n_preds == 0 || (exists|i: int|
        0 <= i < deps.len() && cache.contains_key(#[trigger] cache_key(deps[i]@, source))
            && cache[cache_key(deps[i]@, source)] == true)
}

/// The standard-stream sink: its configuration, the registered predicates,
/// and the shared decision cache.
pub struct Logger<P> {
    pub colorized: bool,
    pub timestamp: bool,
    pub level: Option<Severity>,
    pub filter: LoggerFilter<P>,
    pub cache: FilterCache,
}

impl<P> Logger<P> {
    /// The predicate list and the cache are in shape.
    pub open spec fn wf(self) -> bool {
        self.filter.wf() && self.cache.wf()
    }

    /// The threshold the sink reports: its configured level, `Off` when none
    /// was configured.
    pub open spec fn max_level(self) -> Severity {
        match self.level {
            Option::Some(l) => l,
            Option::None => Severity::Off,
        }
    }
}

impl<P> Logger<P> {
    /// An empty builder for a sink of this predicate type.
    pub fn builder() -> (r: crate::builder::Builder<P>)
        ensures
            r.wf(),
            r.colorized == false,
            r.timestamp == false,
            r.level is None,
            r.filter.callbacks@.len() == 0,
    {
        crate::builder::Builder::new()
    }

    /// The threshold the sink reports: its configured level, `Off` when
    /// none was configured.
    pub fn level(&self) -> (r: Severity)
        ensures
            r == self.max_level(),
    {
        match self.level {
            Option::Some(l) => l,
            Option::None => Severity::Off,
        }
    }
}

/// With no predicates registered, eligibility is unconditional: the enabled
/// test comes down to the severity not being `Off`.
pub proof fn lemma_no_predicates_eligible(
    cache: Map<Seq<char>, bool>,
    deps: Seq<String>,
    source: Seq<char>,
)
    ensures
        eligible_in(cache, deps, 0, source),
{
}

impl<P: FilterPredicate> Logger<P> {
    /// Whether an event with this metadata is eligible: its severity is not
    /// `Off`, and the predicates let its source through (an OR, every
    /// verdict memoized by dependency key and source).  For an `Off` event
    /// nothing is evaluated and nothing changes.
    pub fn enabled(&mut self, metadata: &Metadata) -> (r: bool)
        requires
            old(self).wf(),
        ensures
            final(self).wf(),
            final(self).colorized == old(self).colorized,
            final(self).timestamp == old(self).timestamp,
            final(self).level == old(self).level,
            final(self).filter.dependencies == old(self).filter.dependencies,
            final(self).filter.callbacks@.len() == old(self).filter.callbacks@.len(),
            metadata.severity == Severity::Off ==> *final(self) == *old(self),
            forall|k: Seq<char>|
                #[trigger] old(self).cache@.contains_key(k) ==> final(self).cache@.contains_key(k)
                    && final(self).cache@[k] == old(self).cache@[k],
            forall|k: Seq<char>|
                #[trigger] final(self).cache@.contains_key(k) && !old(self).cache@.contains_key(k)
                    ==> (exists|i: int|
                    0 <= i < old(self).filter.dependencies@.len() && k == cache_key(
                        old(self).filter.dependencies@[i]@,
                        metadata.source@,
                    )),
            forall|i: int|
                0 <= i < old(self).filter.callbacks@.len() && old(self).cache@.contains_key(
                    #[trigger] cache_key(old(self).filter.dependencies@[i]@, metadata.source@),
                ) ==> final(self).filter.callbacks@[i] == old(self).filter.callbacks@[i],
            r == (metadata.severity != Severity::Off && eligible_in(
                final(self).cache@,
                old(self).filter.dependencies@,
                old(self).filter.callbacks@.len() as nat,
                metadata.source@,
            )),
            !r && metadata.severity != Severity::Off ==> forall|i: int|
                0 <= i < old(self).filter.dependencies@.len()
                    ==> final(self).cache@.contains_key(
                    #[trigger] cache_key(old(self).filter.dependencies@[i]@, metadata.source@),
                ) && final(self).cache@[cache_key(
                    old(self).filter.dependencies@[i]@,
                    metadata.source@,
                )] == false,
    {
        if metadata.severity == Severity::Off {
            return false;
        }
        self.cache.decide(&mut self.filter, metadata)
    }
}

/// The sum of five widths, spelled out.
proof fn lemma_sum5(ws: Seq<nat>)
    requires
        ws.len() == 5,
    ensures
        sum_widths(ws) == ws[0] + ws[1] + ws[2] + ws[3] + ws[4],
{
    let w4 = ws.drop_last();
    let w3 = w4.drop_last();
    let w2 = w3.drop_last();
    let w1 = w2.drop_last();
    let w0 = w1.drop_last();
    assert(w0.len() == 0);
    assert(sum_widths(ws) == sum_widths(w4) + ws[4]);
    assert(sum_widths(w4) == sum_widths(w3) + ws[3]);
    assert(sum_widths(w3) == sum_widths(w2) + ws[2]);
    assert(sum_widths(w2) == sum_widths(w1) + ws[1]);
    assert(sum_widths(w1) == sum_widths(w0) + ws[0]);
}

/// The sum of seven widths, spelled out.
proof fn lemma_sum7(ws: Seq<nat>)
    requires
        ws.len() == 7,
    ensures
        sum_widths(ws) == ws[0] + ws[1] + ws[2] + ws[3] + ws[4] + ws[5] + ws[6],
{
    let w6 = ws.drop_last();
    let w5 = w6.drop_last();
    assert(sum_widths(ws) == sum_widths(w6) + ws[6]);
    assert(sum_widths(w6) == sum_widths(w5) + ws[5]);
    lemma_sum5(w5);
}

/// Builds and renders the default row for an eligible event, with the
/// wall-clock reading (if any) already taken.  Without colorization the
/// text is exactly [`line_spec`]; with colorization the painted pieces
/// depend on the terminal and the text is not pinned.
#[verifier::rlimit(90)]
pub fn render_line(colorized: bool, event: &Event, time: Option<Timestamp>) -> (r: String)
    requires
        event.metadata.severity != Severity::Off,
        event.metadata.source@.len() + event.message@.len() + 200 <= usize::MAX,
        time matches Some(t) ==> t.wf(),
    ensures
        !colorized ==> r@ == line_spec(
            event.metadata.severity,
            match time {
                Option::Some(t) => Some(timestamp_spec(t)),
                Option::None => None,
            },
            event.metadata.source@,
            event.message@,
        ),
{
    let sev = event.metadata.severity;
    let ghost ts_view: Option<Seq<char>> = match time {
        Option::Some(t) => Some(timestamp_spec(t)),
        Option::None => None,
    };
    proof {
        lemma_label_plain(sev);
        reveal_strlit("|");
        reveal_strlit(" ");
        reveal_strlit(" -> ");
        reveal_strlit("->");
        assert("|"@ =~= seq!['|']);
        assert(" "@ =~= seq![' ']);
        assert(" -> "@ =~= seq![' ', '-', '>', ' ']);
        assert("->"@ =~= seq!['-', '>']);
        assert(esc_free("|"@));
        assert(esc_free(" "@));
        assert(esc_free(" -> "@));
        assert(esc_free("->"@));
        lemma_plain_visible("|"@);
        lemma_plain_visible(" "@);
        lemma_plain_visible(" -> "@);
        lemma_plain_visible("->"@);
        lemma_plain_visible(label_spec(sev));
    }

    // The severity label, five characters, right-aligned.
    let label_str = severity_label(sev);
    let label_string: String = if colorized {
        paint(label_str, severity_color(sev))
    } else {
        label_str.to_owned()
    };
    proof {
        assert(visible_width(label_string@) <= 5);
    }

    // The delimiter.
    let delim_string: String = if colorized {
        paint("|", PaintColor::Red)
    } else {
        "|".to_owned()
    };
    proof {
        assert(visible_width(delim_string@) <= 1);
    }

    let mut cells: Vec<Cell> = Vec::new();
    cells.push(Cell::new(label_string.as_str()).with_alignment(Alignment::Right));
    cells.push(Cell::new(delim_string.as_str()));

    // The optional timestamp, between two delimiters.
    if let Some(t) = time {
        let ts_text = format_timestamp(&t);
        proof {
            lemma_timestamp_text(t);
            lemma_plain_visible(timestamp_spec(t));
        }
        cells.push(Cell::new(ts_text.as_str()));
        cells.push(Cell::new(delim_string.as_str()));
    }

    // The source, prefixed by one space.
    let mut source_cell = " ".to_owned();
    if colorized {
        let painted_source = paint(event.metadata.source.as_str(), PaintColor::BrightBlack);
        proof {
            lemma_visible_concat(" "@, painted_source@);
        }
        source_cell.append(painted_source.as_str());
    } else {
        proof {
            lemma_visible_concat(" "@, event.metadata.source@);
            lemma_visible_le_len(event.metadata.source@, false);
        }
        source_cell.append(event.metadata.source.as_str());
    }
    proof {
        assert(visible_width(source_cell@) <= 1 + event.metadata.source@.len());
    }
    cells.push(Cell::new(source_cell.as_str()));

    // The arrow.
    let arrow_string: String = if colorized {
        let mut a = " ".to_owned();
        let painted_arrow = paint("->", PaintColor::Red);
        proof {
            lemma_visible_concat(" "@, painted_arrow@);
        }
        a.append(painted_arrow.as_str());
        proof {
            lemma_visible_concat(a@, " "@);
        }
        a.append(" ");
        a
    } else {
        " -> ".to_owned()
    };
    proof {
        assert(visible_width(arrow_string@) <= 4);
    }
    cells.push(Cell::new(arrow_string.as_str()));

    // The message.
    cells.push(Cell::new(event.message.as_str()));
    proof {
        lemma_visible_le_len(event.message@, false);
    }

    // The one-row grid: borderless, capped at 120 columns.
    let ghost rowm = row_model(cells@);
    proof {
        assert(rowm.len() == (if ts_view is Some { 7int } else { 5int }));
        let ws = natural_widths(seq![rowm], rowm.len() as nat);
        assert forall|j: int| 0 <= j < rowm.len() implies ws[j] == visible_width(
            rowm[j].text,
        ) by {
            lemma_single_row_width(rowm, j);
        }
        if ts_view is Some {
            lemma_sum7(ws);
        } else {
            lemma_sum5(ws);
        }
        assert(sum_widths(ws) <= 38 + event.metadata.source@.len() + event.message@.len());
    }
    let mut grid = GridLayout::new().with_max_width(120).without_border();
    let _added = grid.add_row(cells);
    proof {
        assert(grid@.rows =~~= seq![rowm]);
        assert(grid@.ncols() == rowm.len());
        assert(natural_widths(grid@.rows, grid@.ncols()) =~= natural_widths(
            seq![rowm],
            rowm.len() as nat,
        ));
    }
    let text = grid.render();
    proof {
        if !colorized {
            assert(rowm =~~= default_cells(
                label_spec(sev),
                seq!['|'],
                ts_view,
                event.metadata.source@,
                event.message@,
            ));
            assert(grid@ =~~= (GridModel {
                rows: seq![
                    default_cells(
                        label_spec(sev),
                        seq!['|'],
                        ts_view,
                        event.metadata.source@,
                        event.message@,
                    ),
                ],
                max_width: Some(120),
                bordered: false,
            }));
        }
    }
    text
}

/// Which standard stream an event of this severity belongs on.
pub open spec fn stream_for(severity: Severity) -> EchoStream {
    if severity == Severity::Error {
        EchoStream::StdErr
    } else {
        EchoStream::StdOut
    }
}

/// A replacement for the default row layout: the sink hands it the event,
/// the wall-clock reading it took, and whether colors are on, and emits
/// whatever text comes back.  Substituting one never alters the filter or
/// enable behaviour, which stays with the sink.
pub trait RowFormat {
    /// The text of one log line for this event.
    fn format(&mut self, colorized: bool, event: &Event, time: Option<Timestamp>) -> (r: String)
        requires
            event.metadata.severity != Severity::Off,
            event.metadata.source@.len() + event.message@.len() + 200 <= usize::MAX,
            time matches Some(t) ==> t.wf(),
    ;
}

/// The default layout as a pluggable formatter.
pub struct DefaultFormat;

impl RowFormat for DefaultFormat {
    fn format(&mut self, colorized: bool, event: &Event, time: Option<Timestamp>) -> (r: String) {
        render_line(colorized, event, time)
    }
}

impl<P> Logger<P> {
    /// Builds and renders the default row for an eligible event, with the
    /// wall-clock reading (if any) already taken: the rendered line and the
    /// stream it belongs on.
    pub fn render_event(&self, event: &Event, time: Option<Timestamp>) -> (r: Echo)
        requires
            event.metadata.severity != Severity::Off,
            event.metadata.source@.len() + event.message@.len() + 200 <= usize::MAX,
            time matches Some(t) ==> t.wf(),
        ensures
            r.stream == stream_for(event.metadata.severity),
            !self.colorized ==> r.text@ == line_spec(
                event.metadata.severity,
                match time {
                    Option::Some(t) => Some(timestamp_spec(t)),
                    Option::None => None,
                },
                event.metadata.source@,
                event.message@,
            ),
    {
        let text = render_line(self.colorized, event, time);
        Echo {
            text,
            stream: if event.metadata.severity == Severity::Error {
                EchoStream::StdErr
            } else {
                EchoStream::StdOut
            },
        }
    }
}

impl<P: FilterPredicate> Logger<P> {
    /// Handles one event: nothing for an ineligible event or a blank
    /// message; otherwise the rendered line and the stream it belongs on —
    /// standard error for `Error`, standard output for the rest.  When a
    /// timestamp is configured the wall clock is read once, and (without
    /// colorization) the line is exactly the default layout's text for some
    /// valid clock reading.
    pub fn log(&mut self, event: &Event) -> (r: Option<Echo>)
        requires
            old(self).wf(),
            event.metadata.source@.len() + event.message@.len() + 200 <= usize::MAX,
        ensures
            final(self).wf(),
            final(self).colorized == old(self).colorized,
            final(self).timestamp == old(self).timestamp,
            final(self).level == old(self).level,
            final(self).filter.dependencies == old(self).filter.dependencies,
            final(self).filter.callbacks@.len() == old(self).filter.callbacks@.len(),
            forall|k: Seq<char>|
                #[trigger] old(self).cache@.contains_key(k) ==> final(self).cache@.contains_key(k)
                    && final(self).cache@[k] == old(self).cache@[k],
            forall|i: int|
                0 <= i < old(self).filter.callbacks@.len() && old(self).cache@.contains_key(
                    #[trigger] cache_key(old(self).filter.dependencies@[i]@, event.metadata.source@),
                ) ==> final(self).filter.callbacks@[i] == old(self).filter.callbacks@[i],
            r is Some <==> (event.metadata.severity != Severity::Off && eligible_in(
                final(self).cache@,
                old(self).filter.dependencies@,
                old(self).filter.callbacks@.len() as nat,
                event.metadata.source@,
            ) && !blank(event.message@)),
            r matches Some(echo) ==> echo.stream == (if event.metadata.severity
                == Severity::Error {
                EchoStream::StdErr
            } else {
                EchoStream::StdOut
            }),
            r is Some && !old(self).colorized && !old(self).timestamp ==> r->0.text@ == line_spec(
                event.metadata.severity,
                None,
                event.metadata.source@,
                event.message@,
            ),
            r is Some && !old(self).colorized && old(self).timestamp ==> (exists|t: Timestamp|
                t.wf() && r->0.text@ == line_spec(
                    event.metadata.severity,
                    Some(timestamp_spec(t)),
                    event.metadata.source@,
                    event.message@,
                )),
    {
        if !self.enabled(&event.metadata) {
            return None;
        }
        if is_blank(event.message.as_str()) {
            return None;
        }
        let time: Option<Timestamp> = if self.timestamp {
            Some(local_now())
        } else {
            None
        };
        Some(self.render_event(event, time))
    }
}

impl<P: FilterPredicate> Logger<P> {
    /// Like [`Logger::log`], but with the row layout replaced by a
    /// user-supplied formatter.  Eligibility, the blank-message test, the
    /// clock reading, and the stream choice are the sink's and do not
    /// change; only the line's text comes from the formatter.
    pub fn log_with<F: RowFormat>(&mut self, event: &Event, format: &mut F) -> (r: Option<Echo>)
        requires
            old(self).wf(),
            event.metadata.source@.len() + event.message@.len() + 200 <= usize::MAX,
        ensures
            final(self).wf(),
            final(self).colorized == old(self).colorized,
            final(self).timestamp == old(self).timestamp,
            final(self).level == old(self).level,
            final(self).filter.dependencies == old(self).filter.dependencies,
            final(self).filter.callbacks@.len() == old(self).filter.callbacks@.len(),
            forall|k: Seq<char>|
                #[trigger] old(self).cache@.contains_key(k) ==> final(self).cache@.contains_key(k)
                    && final(self).cache@[k] == old(self).cache@[k],
            r is Some <==> (event.metadata.severity != Severity::Off && eligible_in(
                final(self).cache@,
                old(self).filter.dependencies@,
                old(self).filter.callbacks@.len() as nat,
                event.metadata.source@,
            ) && !blank(event.message@)),
            r matches Some(echo) ==> echo.stream == stream_for(event.metadata.severity),
    {
        if !self.enabled(&event.metadata) {
            return None;
        }
        if is_blank(event.message.as_str()) {
            return None;
        }
        let time: Option<Timestamp> = if self.timestamp {
            Some(local_now())
        } else {
            None
        };
        let text = format.format(self.colorized, event, time);
        Some(
            Echo {
                text,
                stream: if event.metadata.severity == Severity::Error {
                    EchoStream::StdErr
                } else {
                    EchoStream::StdOut
                },
            },
        )
    }
}

} // verus!
