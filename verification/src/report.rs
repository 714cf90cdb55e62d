//! The report model: the accumulated outcomes of one batch run, and a
//! renderer that serializes a report into a YAML-like or an XML-like
//! markup whose field and line order is a compatibility contract.

use vstd::prelude::*;

use crate::command::{
    command_text, Command, CommandOutput, CommandOutputView, CommandStatus, CommandStatusView,
};
use crate::text::{dec_digits, push_dec_u64, split_text_lines, text_lines};

verus! {

use vstd::string::StringExecFns;

/// Information about the execution of one command.
#[derive(Debug)]
pub struct ReportEntry {
    pub command: Command,
    pub status: CommandStatus,
}

/// The outcome of one batch run: a title, the creation timestamp
/// (RFC 3339, UTC, captured once at construction), and one entry per
/// executed command, in execution order.
#[derive(Debug)]
pub struct BatchReport {
    pub date: String,
    pub title: String,
    pub entries: Vec<ReportEntry>,
}

/// The shape every captured creation timestamp has: an RFC 3339
/// date-time in UTC, at least the 25 characters of
/// `YYYY-MM-DDTHH:MM:SS+00:00` (a fraction may lengthen it, an
/// out-of-range year widens its first field), ending in the literal
/// UTC offset.
pub open spec fn utc_timestamp_shape(s: Seq<char>) -> bool {
    &&& s.len() >= 25
    &&& s.subrange(s.len() - 6, s.len() as int) == "+00:00"@
}

/// Relies on chrono's `Utc::now` and `DateTime::to_rfc3339`: the moment
/// of the call as an RFC 3339 timestamp. The moment itself depends on
/// the clock, so only the rendering's shape is promised: date, `T`,
/// time, an optional fraction, and the `+00:00` offset (`to_rfc3339`
/// never writes `Z`).
#[verifier::external_body]
fn now_utc_rfc3339() -> (r: String)
    ensures
        utc_timestamp_shape(r@),
{
    chrono::Utc::now().to_rfc3339()
}

impl BatchReport {
    /// Create a new, empty report; the creation date is captured now,
    /// once, as an RFC 3339 timestamp in UTC, and never re-read.
    pub fn new(title: &str) -> (r: BatchReport)
        ensures
            r.title@ == title@,
            r.entries@ == Seq::<ReportEntry>::empty(),
            utc_timestamp_shape(r.date@),
    {
        BatchReport { date: now_utc_rfc3339(), title: title.to_owned(), entries: Vec::new() }
    }

    /// Append an entry with information about one executed command;
    /// entries are never removed or reordered.
    pub fn push(&mut self, entry: ReportEntry)
        ensures
            final(self).entries@ == old(self).entries@.push(entry),
            final(self).title == old(self).title,
            final(self).date == old(self).date,
    {
        self.entries.push(entry);
    }

    /// The creation date of the report, an RFC 3339 timestamp.
    pub fn date(&self) -> (r: &String)
        ensures
            r == &self.date,
    {
        &self.date
    }

    /// The entries of the report, in execution order.
    pub fn entries(&self) -> (r: &[ReportEntry])
        ensures
            r@ == self.entries@,
    {
        self.entries.as_slice()
    }

    /// The title of the report.
    pub fn title(&self) -> (r: &String)
        ensures
            r == &self.title,
    {
        &self.title
    }

    /// Replace the creation date, for reports whose date must be fixed
    /// to a known timestamp.
    pub fn spoof_date(&mut self, date: &str)
        ensures
            final(self).date@ == date@,
            final(self).title == old(self).title,
            final(self).entries == old(self).entries,
    {
        self.date = date.to_owned();
    }
}

/// The word on a `status` line.
pub open spec fn status_word(st: CommandStatusView) -> Seq<char> {
    match st {
        CommandStatusView::Success(_) => "success"@,
        CommandStatusView::Failure => "failure"@,
    }
}

/// The output carried by a status, if any.
pub open spec fn status_output(st: CommandStatusView) -> Option<CommandOutputView> {
    match st {
        CommandStatusView::Success(o) => o,
        CommandStatusView::Failure => None,
    }
}

/// The body of a YAML literal block: each line indented by four spaces.
pub open spec fn yaml_block(lines: Seq<Seq<char>>) -> Seq<char>
    decreases lines.len(),
{
    if lines.len() == 0 {
        Seq::empty()
    } else {
        yaml_block(lines.drop_last()) + "    "@ + lines.last() + "\n"@
    }
}

/// The YAML text of one output: a text reproduced line by line, a count
/// as its decimal form on one line.
pub open spec fn yaml_output(o: CommandOutputView) -> Seq<char> {
    match o {
        CommandOutputView::String(t) => yaml_block(text_lines(t)),
        CommandOutputView::Uint32(u) => "    "@ + dec_digits(u as nat) + "\n"@,
    }
}

/// The YAML text of one entry: the command's canonical form
/// single-quoted, the status word, and a literal block when the status
/// carries an output.
pub open spec fn yaml_entry(e: ReportEntry) -> Seq<char> {
    let head = "- command: '"@ + command_text(e.command@) + "'\n"@ + "  status : "@ + status_word(
        e.status@,
    ) + "\n"@;
    match status_output(e.status@) {
        None => head,
        Some(o) => head + "  output : |\n"@ + yaml_output(o),
    }
}

/// The YAML text of the entries, in report order.
pub open spec fn yaml_entries(es: Seq<ReportEntry>) -> Seq<char>
    decreases es.len(),
{
    if es.len() == 0 {
        Seq::empty()
    } else {
        yaml_entries(es.drop_last()) + yaml_entry(es.last())
    }
}

/// The header of the YAML rendering: a comment, the title, the date and
/// the `commands` key.
pub open spec fn yaml_header(report: BatchReport) -> Seq<char> {
    "# Artifex batch report\n"@ + "title   : "@ + report.title@ + "\n"@ + "date    : "@
        + report.date@ + "\n"@ + "commands:\n"@
}

/// The whole YAML-like rendering of a report.
pub open spec fn yaml_text(report: BatchReport) -> Seq<char> {
    yaml_header(report) + yaml_entries(report.entries@)
}

/// The XML text of one entry: the command's canonical form as opaque
/// character data, the status word, and the output when one is carried.
pub open spec fn xml_entry(e: ReportEntry) -> Seq<char> {
    let head = "    <command>\n      <input><![CDATA["@ + command_text(e.command@)
        + "]]></input>\n"@ + "      <status>"@ + status_word(e.status@) + "</status>\n"@;
    let close = "    </command>\n"@;
    match status_output(e.status@) {
        None => head + close,
        Some(CommandOutputView::String(t)) => head + "      <output><![CDATA["@ + t
            + "]]></output>\n"@ + close,
        Some(CommandOutputView::Uint32(u)) => head + "      <output>"@ + dec_digits(u as nat)
            + "</output>\n"@ + close,
    }
}

/// The XML text of the entries, in report order.
pub open spec fn xml_entries(es: Seq<ReportEntry>) -> Seq<char>
    decreases es.len(),
{
    if es.len() == 0 {
        Seq::empty()
    } else {
        xml_entries(es.drop_last()) + xml_entry(es.last())
    }
}

/// The header of the XML rendering: declaration, root, title and date.
pub open spec fn xml_header(report: BatchReport) -> Seq<char> {
    "<?xml version=\"1.0\" encoding=\"UTF-8\"?>\n"@ + "<report>\n"@ + "  <title>"@ + report.title@
        + "</title>\n  <date>"@ + report.date@ + "</date>\n  <commands>\n"@
}

/// The whole XML-like rendering of a report.
pub open spec fn xml_text(report: BatchReport) -> Seq<char> {
    xml_header(report) + xml_entries(report.entries@) + "  </commands>\n"@ + "</report>\n"@
}

/// Kind of supported markup formats.
#[derive(Debug, Clone, Copy)]
pub enum MarkupKind {
    Xml,
    Yaml,
}

/// The rendered text of a report in a given markup: rendering is a
/// function of the markup kind and the report's content alone.
pub open spec fn rendered_text(k: MarkupKind, report: BatchReport) -> Seq<char> {
    match k {
        MarkupKind::Xml => xml_text(report),
        MarkupKind::Yaml => yaml_text(report),
    }
}

/// Idempotence law: the rendered text is a function of the markup kind
/// and the report's content, so rendering the same immutable report
/// twice with the same renderer yields byte-identical output.
pub proof fn lemma_render_deterministic(
    k: MarkupKind,
    report: BatchReport,
    a: Seq<char>,
    b: Seq<char>,
)
    requires
        a == rendered_text(k, report),
        b == rendered_text(k, report),
    ensures
        a == b,
{
}

/// Convert a report to a text representation using a markup format.
#[derive(Debug)]
pub struct MarkupReportRenderer {
    pub markup_kind: MarkupKind,
}

impl MarkupReportRenderer {
    /// Create a new report renderer.
    pub fn new(markup_kind: MarkupKind) -> (r: MarkupReportRenderer)
        ensures
            r.markup_kind == markup_kind,
    {
        MarkupReportRenderer { markup_kind }
    }

    /// Render a report: the exact text is pinned by `rendered_text`, and
    /// the report is read, never changed.
    pub fn render(&self, report: &BatchReport) -> (r: String)
        ensures
            r@ == rendered_text(self.markup_kind, *report),
    {
        match self.markup_kind {
            MarkupKind::Xml => Self::render_as_xml(report),
            MarkupKind::Yaml => Self::render_as_yaml(report),
        }
    }

    fn render_as_yaml(report: &BatchReport) -> (r: String)
        ensures
            r@ == yaml_text(*report),
    {
        let mut out = "# Artifex batch report\n".to_owned();
        out.append("title   : ");
        out.append(report.title.as_str());
        out.append("\n");
        out.append("date    : ");
        out.append(report.date.as_str());
        out.append("\n");
        out.append("commands:\n");
        assert(out@ =~= yaml_header(*report));
        let n = report.entries.len();
        let mut i: usize = 0;
        while i < n
            invariant
                i <= n,
                n == report.entries@.len(),
                out@ == yaml_header(*report) + yaml_entries(report.entries@.take(i as int)),
            decreases n - i,
        {
            Self::push_yaml_entry(&mut out, &report.entries[i]);
            proof {
                let es = report.entries@;
                assert(es.take(i + 1 as int).drop_last() =~= es.take(i as int));
                assert(es.take(i + 1 as int).last() == es[i as int]);
                assert(out@ =~= yaml_header(*report) + yaml_entries(es.take(i + 1 as int)));
            }
            i = i + 1;
        }
        proof {
            assert(report.entries@.take(n as int) =~= report.entries@);
        }
        out
    }

    fn push_yaml_entry(out: &mut String, e: &ReportEntry)
        ensures
            final(out)@ == old(out)@ + yaml_entry(*e),
    {
        out.append("- command: '");
        let cmd = e.command.to_text();
        out.append(cmd.as_str());
        out.append("'\n");
        out.append("  status : ");
        match &e.status {
            CommandStatus::Failure => {
                out.append("failure");
                out.append("\n");
                assert(out@ =~= old(out)@ + yaml_entry(*e));
            },
            CommandStatus::Success(output) => {
                out.append("success");
                out.append("\n");
                match output {
                    None => {
                        assert(out@ =~= old(out)@ + yaml_entry(*e));
                    },
                    Some(o) => {
                        out.append("  output : |\n");
                        match o {
                            CommandOutput::String(t) => {
                                Self::push_yaml_block(out, t);
                            },
                            CommandOutput::Uint32(u) => {
                                out.append("    ");
                                push_dec_u64(out, *u as u64);
                                out.append("\n");
                            },
                        }
                        assert(out@ =~= old(out)@ + yaml_entry(*e));
                    },
                }
            },
        }
    }

    fn push_yaml_block(out: &mut String, t: &String)
        ensures
            final(out)@ == old(out)@ + yaml_block(text_lines(t@)),
    {
        let lines = split_text_lines(t.as_str());
        let ghost tl = text_lines(t@);
        let n = lines.len();
        let mut i: usize = 0;
        while i < n
            invariant
                i <= n,
                tl == text_lines(t@),
                n == lines@.len() == tl.len(),
                forall|k: int| 0 <= k < n ==> #[trigger] lines@[k]@ == tl[k],
                out@ == old(out)@ + yaml_block(tl.take(i as int)),
            decreases n - i,
        {
            out.append("    ");
            out.append(lines[i]);
            out.append("\n");
            proof {
                assert(tl.take(i + 1 as int).drop_last() =~= tl.take(i as int));
                assert(tl.take(i + 1 as int).last() == tl[i as int]);
                assert(out@ =~= old(out)@ + yaml_block(tl.take(i + 1 as int)));
            }
            i = i + 1;
        }
        proof {
            assert(tl.take(n as int) =~= tl);
        }
    }

    fn render_as_xml(report: &BatchReport) -> (r: String)
        ensures
            r@ == xml_text(*report),
    {
        let mut out = "<?xml version=\"1.0\" encoding=\"UTF-8\"?>\n".to_owned();
        out.append("<report>\n");
        out.append("  <title>");
        out.append(report.title.as_str());
        out.append("</title>\n  <date>");
        out.append(report.date.as_str());
        out.append("</date>\n  <commands>\n");
        assert(out@ =~= xml_header(*report));
        let n = report.entries.len();
        let mut i: usize = 0;
        while i < n
            invariant
                i <= n,
                n == report.entries@.len(),
                out@ == xml_header(*report) + xml_entries(report.entries@.take(i as int)),
            decreases n - i,
        {
            Self::push_xml_entry(&mut out, &report.entries[i]);
            proof {
                let es = report.entries@;
                assert(es.take(i + 1 as int).drop_last() =~= es.take(i as int));
                assert(es.take(i + 1 as int).last() == es[i as int]);
                assert(out@ =~= xml_header(*report) + xml_entries(es.take(i + 1 as int)));
            }
            i = i + 1;
        }
        proof {
            assert(report.entries@.take(n as int) =~= report.entries@);
        }
        out.append("  </commands>\n");
        out.append("</report>\n");
        assert(out@ =~= xml_text(*report));
        out
    }

    fn push_xml_entry(out: &mut String, e: &ReportEntry)
        ensures
            final(out)@ == old(out)@ + xml_entry(*e),
    {
        out.append("    <command>\n      <input><![CDATA[");
        let cmd = e.command.to_text();
        out.append(cmd.as_str());
        out.append("]]></input>\n");
        out.append("      <status>");
        match &e.status {
            CommandStatus::Failure => {
                out.append("failure");
            },
            CommandStatus::Success(_) => {
                out.append("success");
            },
        }
        out.append("</status>\n");
        match &e.status {
            CommandStatus::Success(Some(o)) => {
                match o {
                    CommandOutput::String(t) => {
                        out.append("      <output><![CDATA[");
                        out.append(t.as_str());
                        out.append("]]></output>\n");
                    },
                    CommandOutput::Uint32(u) => {
                        out.append("      <output>");
                        push_dec_u64(out, *u as u64);
                        out.append("</output>\n");
                    },
                }
            },
            _ => {},
        }
        out.append("    </command>\n");
        assert(out@ =~= old(out)@ + xml_entry(*e));
    }
}

} // verus!
