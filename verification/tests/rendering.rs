use artifex::command::{Command, CommandOutput, CommandStatus};
use artifex::report::{BatchReport, MarkupKind, MarkupReportRenderer, ReportEntry};

fn setup_report() -> BatchReport {
    let mut report = BatchReport::new("Dummy Report");
    report.spoof_date("2023-05-07T09:17:58.133639582+00:00");
    report.push(ReportEntry {
        command: Command::Execute("date -u".to_string()),
        status: CommandStatus::Success(Some(CommandOutput::String(
            "Sun May  7 09:17:58 UTC 2023".to_string(),
        ))),
    });
    report.push(ReportEntry {
        command: Command::Upgrade,
        status: CommandStatus::Failure,
    });
    report
}

fn render_to_markup(markup_kind: MarkupKind, reference: &str) {
    let report = setup_report();
    let renderer = MarkupReportRenderer::new(markup_kind);
    let text = renderer.render(&report);
    assert_eq!(reference, text);
}

const REPORT_YAML: &str = r#"# Artifex batch report
title   : Dummy Report
date    : 2023-05-07T09:17:58.133639582+00:00
commands:
- command: 'EXECUTE: date -u'
  status : success
  output : |
    Sun May  7 09:17:58 UTC 2023
- command: 'UPGRADE'
  status : failure
"#;

#[test]
fn render_to_yaml() {
    render_to_markup(MarkupKind::Yaml, REPORT_YAML);
}

const REPORT_XML: &str = r#"<?xml version="1.0" encoding="UTF-8"?>
<report>
  <title>Dummy Report</title>
  <date>2023-05-07T09:17:58.133639582+00:00</date>
  <commands>
    <command>
      <input><![CDATA[EXECUTE: date -u]]></input>
      <status>success</status>
      <output><![CDATA[Sun May  7 09:17:58 UTC 2023]]></output>
    </command>
    <command>
      <input><![CDATA[UPGRADE]]></input>
      <status>failure</status>
    </command>
  </commands>
</report>
"#;

#[test]
fn render_to_xml() {
    render_to_markup(MarkupKind::Xml, REPORT_XML);
}

#[test]
fn render_multi_line_output_block() {
    let mut report = BatchReport::new("Lines");
    report.spoof_date("2024-01-01T00:00:00+00:00");
    report.push(ReportEntry {
        command: Command::Execute("ls".to_string()),
        status: CommandStatus::Success(Some(CommandOutput::String(
            "one\ntwo\nthree\n".to_string(),
        ))),
    });
    let renderer = MarkupReportRenderer::new(MarkupKind::Yaml);
    let text = renderer.render(&report);
    let expected = "# Artifex batch report\n\
                    title   : Lines\n\
                    date    : 2024-01-01T00:00:00+00:00\n\
                    commands:\n\
                    - command: 'EXECUTE: ls'\n  \
                    status : success\n  \
                    output : |\n    \
                    one\n    two\n    three\n";
    assert_eq!(expected, text);
}

#[test]
fn render_count_output() {
    let mut report = BatchReport::new("Count");
    report.spoof_date("2024-01-01T00:00:00+00:00");
    report.push(ReportEntry {
        command: Command::Inspect,
        status: CommandStatus::Success(Some(CommandOutput::Uint32(405060))),
    });
    let yaml = MarkupReportRenderer::new(MarkupKind::Yaml).render(&report);
    assert!(yaml.contains("  output : |\n    405060\n"));
    let xml = MarkupReportRenderer::new(MarkupKind::Xml).render(&report);
    assert!(xml.contains("<output>405060</output>"));
}

#[test]
fn render_success_without_output() {
    let mut report = BatchReport::new("NoOutput");
    report.spoof_date("2024-01-01T00:00:00+00:00");
    report.push(ReportEntry {
        command: Command::Upgrade,
        status: CommandStatus::Success(None),
    });
    let yaml = MarkupReportRenderer::new(MarkupKind::Yaml).render(&report);
    assert!(yaml.contains("  status : success\n"));
    assert!(!yaml.contains("output"));
    let xml = MarkupReportRenderer::new(MarkupKind::Xml).render(&report);
    assert!(!xml.contains("<output>"));
}

#[test]
fn render_twice_is_identical() {
    let report = setup_report();
    let renderer = MarkupReportRenderer::new(MarkupKind::Yaml);
    let first = renderer.render(&report);
    let second = renderer.render(&report);
    assert_eq!(first, second);
}

#[test]
fn command_output_to_text() {
    assert_eq!(CommandOutput::Uint32(0).to_text(), "0");
    assert_eq!(CommandOutput::Uint32(405060).to_text(), "405060");
    assert_eq!(
        CommandOutput::String("plain text".to_string()).to_text(),
        "plain text"
    );
}

#[test]
fn report_accessors() {
    let report = setup_report();
    assert_eq!(report.title(), "Dummy Report");
    assert_eq!(report.date(), "2023-05-07T09:17:58.133639582+00:00");
    assert_eq!(report.entries().len(), 2);
}

#[test]
fn report_new_captures_a_date() {
    let report = BatchReport::new("Fresh");
    assert!(report.date().contains('T'));
    assert!(report.date().ends_with("+00:00"));
    assert!(report.date().chars().count() >= 25);
    assert!(report.entries().is_empty());
}
