//! The plain-text diagnostics report that the tray menu copies to the
//! clipboard.
use vstd::prelude::*;
use crate::device::{candidate_models, opt_view, CandidateModel, DeviceCandidate};
use crate::snapshot::{BatterySnapshot, SnapshotModel};
use crate::text::{
    decimal, hex4, join, join_strings, push_decimal, push_hex4, push_str, string_from_chars,
    string_views,
};

verus! {

/// One line of the candidate list: `"{n}. {label} | score={score} |
/// VID={vid} PID={pid} U={page}:{usage}"` with upper-case four-digit
/// hexadecimal ids.
pub open spec fn candidate_line(position: nat, c: CandidateModel) -> Seq<char> {
    decimal(position) + ". "@ + c.label + " | score="@ + decimal(c.score as nat) + " | VID="@
        + hex4(c.vendor_id, true) + " PID="@ + hex4(c.product_id, true) + " U="@ + hex4(
        c.usage_page,
        true,
    ) + ":"@ + hex4(c.usage, true)
}

/// The numbered lines of the candidate list.
pub open spec fn candidate_lines(cs: Seq<CandidateModel>) -> Seq<Seq<char>> {
    Seq::new(cs.len(), |i: int| candidate_line((i + 1) as nat, cs[i]))
}

/// The candidate part of the report.
pub open spec fn candidates_section(cs: Seq<CandidateModel>) -> Seq<char> {
    if cs.len() == 0 {
        "Aucun candidat HID compatible detecte"@
    } else {
        join(candidate_lines(cs), "\n"@)
    }
}

/// A voltage in tenths of a volt, with one decimal: `"{volts}.{tenths}"`.
pub open spec fn volts_text(decivolts: u8) -> Seq<char> {
    decimal((decivolts / 10) as nat) + "."@ + decimal((decivolts % 10) as nat)
}

/// An optional text, or `"aucune"` when absent.
pub open spec fn or_none_text(s: Option<Seq<char>>) -> Seq<char> {
    match s {
        Some(t) => t,
        None => "aucune"@,
    }
}

/// The lines of the report.
pub open spec fn report_lines(s: SnapshotModel) -> Seq<Seq<char>> {
    seq![
        "ATK Tray Monitor diagnostic"@,
        "Horodatage: "@ + s.updated_at,
        "Source: "@ + s.source,
        "Backend: "@ + s.diagnostics.backend,
        "Connecte: "@ + (if s.connected {
            "oui"@
        } else {
            "non"@
        }),
        "Niveau: "@ + decimal(s.level as nat) + "%"@,
        "Charge: "@ + decimal(s.charge as nat),
        "Tension: "@ + volts_text(s.voltage_decivolts) + "V"@,
        "Cible retenue: "@ + or_none_text(s.diagnostics.selected_candidate),
        "Erreur: "@ + or_none_text(s.diagnostics.last_error),
        "Candidats: "@ + decimal(s.diagnostics.candidate_count as nat),
        Seq::<char>::empty(),
        candidates_section(s.diagnostics.candidates),
    ]
}

/// The report: its lines joined by line breaks.
pub open spec fn diagnostics_report(s: SnapshotModel) -> Seq<char> {
    join(report_lines(s), "\n"@)
}

fn candidate_line_of(position: usize, c: &DeviceCandidate) -> (r: String)
    ensures
        r@ == candidate_line(position as nat, c@),
{
    let mut out: Vec<char> = Vec::new();
    push_decimal(&mut out, position as u64);
    push_str(&mut out, ". ");
    push_str(&mut out, c.label.as_str());
    push_str(&mut out, " | score=");
    push_decimal(&mut out, c.score as u64);
    push_str(&mut out, " | VID=");
    push_hex4(&mut out, c.vendor_id, true);
    push_str(&mut out, " PID=");
    push_hex4(&mut out, c.product_id, true);
    push_str(&mut out, " U=");
    push_hex4(&mut out, c.usage_page, true);
    push_str(&mut out, ":");
    push_hex4(&mut out, c.usage, true);
    string_from_chars(&out)
}

fn candidates_section_of(cs: &Vec<DeviceCandidate>) -> (r: String)
    ensures
        r@ == candidates_section(candidate_models(cs@)),
{
    if cs.len() == 0 {
        return String::from_str("Aucun candidat HID compatible detecte");
    }
    let ghost models = candidate_models(cs@);
    let mut lines: Vec<String> = Vec::new();
    let n = cs.len();
    for i in 0..n
        invariant
            n == cs.len(),
            models == candidate_models(cs@),
            string_views(lines@) =~= candidate_lines(models).take(i as int),
    {
        let line = candidate_line_of(i + 1, &cs[i]);
        let ghost before = string_views(lines@);
        lines.push(line);
        assert(models[i as int] == cs@[i as int]@);
        assert(string_views(lines@) =~= before.push(line@));
        assert(candidate_lines(models).take(i + 1) =~= candidate_lines(models).take(i as int).push(
            candidate_lines(models)[i as int],
        ));
    }
    assert(candidate_lines(models).take(n as int) =~= candidate_lines(models));
    join_strings(&lines, "\n")
}

fn text_line(prefix: &str, body: &str) -> (r: String)
    ensures
        r@ == prefix@ + body@,
{
    let mut out: Vec<char> = Vec::new();
    push_str(&mut out, prefix);
    push_str(&mut out, body);
    string_from_chars(&out)
}

fn optional_text(s: &Option<String>) -> (r: &str)
    ensures
        r@ == or_none_text(opt_view(*s)),
{
    match s {
        Some(t) => t.as_str(),
        None => "aucune",
    }
}

/// The diagnostics report of a snapshot (see `diagnostics_report`).
pub fn build_diagnostics_report(snapshot: &BatterySnapshot) -> (r: String)
    ensures
        r@ == diagnostics_report(snapshot@),
{
    let ghost s = snapshot@;
    let ghost expected = report_lines(s);
    let l0 = String::from_str("ATK Tray Monitor diagnostic");
    let l1 = text_line("Horodatage: ", snapshot.updated_at.as_str());
    let l2 = text_line("Source: ", snapshot.source.as_str());
    let l3 = text_line("Backend: ", snapshot.diagnostics.backend.as_str());
    let l4 = text_line(
        "Connecte: ",
        if snapshot.connected {
            "oui"
        } else {
            "non"
        },
    );
    let mut level: Vec<char> = Vec::new();
    push_str(&mut level, "Niveau: ");
    push_decimal(&mut level, snapshot.level as u64);
    push_str(&mut level, "%");
    let l5 = string_from_chars(&level);
    let mut charge: Vec<char> = Vec::new();
    push_str(&mut charge, "Charge: ");
    push_decimal(&mut charge, snapshot.charge as u64);
    let l6 = string_from_chars(&charge);
    let mut voltage: Vec<char> = Vec::new();
    push_str(&mut voltage, "Tension: ");
    push_decimal(&mut voltage, (snapshot.voltage_decivolts / 10) as u64);
    push_str(&mut voltage, ".");
    push_decimal(&mut voltage, (snapshot.voltage_decivolts % 10) as u64);
    push_str(&mut voltage, "V");
    let l7 = string_from_chars(&voltage);
    let l8 = text_line("Cible retenue: ", optional_text(&snapshot.diagnostics.selected_candidate));
    let l9 = text_line("Erreur: ", optional_text(&snapshot.diagnostics.last_error));
    let mut count: Vec<char> = Vec::new();
    push_str(&mut count, "Candidats: ");
    push_decimal(&mut count, snapshot.diagnostics.candidate_count as u64);
    let l10 = string_from_chars(&count);
    let l11 = String::new();
    let l12 = candidates_section_of(&snapshot.diagnostics.candidates);
    let ghost views = seq![
        l0@,
        l1@,
        l2@,
        l3@,
        l4@,
        l5@,
        l6@,
        l7@,
        l8@,
        l9@,
        l10@,
        l11@,
        l12@,
    ];
    assert(views[0] == expected[0]);
    assert(views[1] == expected[1]);
    assert(views[4] == expected[4]);
    assert(views[5] == expected[5]);
    assert(views[7] == expected[7]);
    assert(views[8] == expected[8]);
    assert(views[10] == expected[10]);
    assert(views[11] == expected[11]);
    assert(views[12] == expected[12]);
    assert(views =~= expected);
    let mut lines: Vec<String> = Vec::new();
    lines.push(l0);
    lines.push(l1);
    lines.push(l2);
    lines.push(l3);
    lines.push(l4);
    lines.push(l5);
    lines.push(l6);
    lines.push(l7);
    lines.push(l8);
    lines.push(l9);
    lines.push(l10);
    lines.push(l11);
    lines.push(l12);
    assert(string_views(lines@) =~= views);
    join_strings(&lines, "\n")
}

} // verus!
