//! Recognising ATK mice among HID interfaces: scoring, labelling,
//! de-duplication and ranking of candidate interfaces.
use vstd::prelude::*;
use crate::text::{
    is_collapsed, lemma_before_char_absent, lemma_before_char_free, lemma_collapse_chars,
    lemma_collapse_idempotent, lemma_collapse_of_collapsed, occurs_at,
    ascii_lower, hex4, push_hex4, push_str, trim, trim_chars, unicode_lowercase, to_lowercase, before_char, chars_before, chars_of, collapse_chars, collapse_spaces,
    contains_str, has_substring, string_from_chars, to_ascii_lower, join, join_strings, string_views,
};

verus! {

/// Vendor id of ATK devices.
pub const ATK_VENDOR_ID: u16 = 0x373B;

/// HID usage page of the ATK vendor protocol interface.
pub const ATK_USAGE_PAGE: u16 = 0xFF00;

/// HID usage of the ATK vendor protocol interface.
pub const ATK_USAGE: u16 = 0x0001;

/// One HID interface as the system lists it.
#[derive(Clone, Debug, PartialEq, Eq)]
pub struct HidDeviceInfo {
    pub manufacturer: Option<String>,
    pub product: Option<String>,
    pub vendor_id: u16,
    pub product_id: u16,
    pub usage_page: u16,
    pub usage: u16,
}

/// A HID interface that may be an ATK mouse, with its label and score.
#[derive(Clone, Debug, PartialEq, Eq)]
pub struct DeviceCandidate {
    pub vendor_id: u16,
    pub product_id: u16,
    pub usage_page: u16,
    pub usage: u16,
    pub label: String,
    pub score: u8,
}

/// The model of a HID interface.
pub struct DeviceModel {
    pub manufacturer: Option<Seq<char>>,
    pub product: Option<Seq<char>>,
    pub vendor_id: u16,
    pub product_id: u16,
    pub usage_page: u16,
    pub usage: u16,
}

/// The model of a candidate.
pub struct CandidateModel {
    pub vendor_id: u16,
    pub product_id: u16,
    pub usage_page: u16,
    pub usage: u16,
    pub label: Seq<char>,
    pub score: u8,
}

/// The model of an optional string.
pub open spec fn opt_view(s: Option<String>) -> Option<Seq<char>> {
    match s {
        Some(t) => Some(t@),
        None => None,
    }
}

impl View for HidDeviceInfo {
    type V = DeviceModel;

    open spec fn view(&self) -> DeviceModel {
        DeviceModel {
            manufacturer: opt_view(self.manufacturer),
            product: opt_view(self.product),
            vendor_id: self.vendor_id,
            product_id: self.product_id,
            usage_page: self.usage_page,
            usage: self.usage,
        }
    }
}

impl View for DeviceCandidate {
    type V = CandidateModel;

    open spec fn view(&self) -> CandidateModel {
        CandidateModel {
            vendor_id: self.vendor_id,
            product_id: self.product_id,
            usage_page: self.usage_page,
            usage: self.usage,
            label: self.label@,
            score: self.score,
        }
    }
}

/// The models of a list of HID interfaces.
pub open spec fn device_models(v: Seq<HidDeviceInfo>) -> Seq<DeviceModel> {
    Seq::new(v.len(), |i: int| v[i]@)
}

/// The models of a list of candidates.
pub open spec fn candidate_models(v: Seq<DeviceCandidate>) -> Seq<CandidateModel> {
    Seq::new(v.len(), |i: int| v[i]@)
}

// ---------------------------------------------------------------------------
// Scoring
// ---------------------------------------------------------------------------

/// The text names one of the ATK product keywords.
pub open spec fn has_device_keyword(s: Seq<char>) -> bool {
    ||| has_substring(s, "atk"@)
    ||| has_substring(s, "vxe"@)
    ||| has_substring(s, "leviatan"@)
    ||| has_substring(s, "mad r"@)
}

/// The text names a receiver or a reduced variant, which ranks lower.
pub open spec fn names_receiver_variant(s: Seq<char>) -> bool {
    ||| has_substring(s, "dongle"@)
    ||| has_substring(s, "receiver"@)
    ||| has_substring(s, "light version"@)
}

/// The score before the receiver penalty.
pub open spec fn raw_score(
    known_id: bool,
    known_vendor: bool,
    usage_page: u16,
    usage: u16,
    combined: Seq<char>,
) -> nat {
    (if known_id { 100nat } else { 0 }) + (if known_vendor { 60nat } else { 0 }) + (if usage_page
        == ATK_USAGE_PAGE { 30nat } else { 0 }) + (if usage == ATK_USAGE { 20nat } else { 0 }) + (
    if usage_page == ATK_USAGE_PAGE && usage == ATK_USAGE { 20nat } else { 0 }) + (
    if has_device_keyword(combined) { 15nat } else { 0 }) + (if has_substring(combined, "mouse"@) {
        10nat
    } else { 0 })
}

/// How likely an interface is the ATK battery interface: the bonuses of
/// `raw_score`, less 25 (down to 0) for receivers and reduced variants.
pub open spec fn candidate_score(
    known_id: bool,
    known_vendor: bool,
    usage_page: u16,
    usage: u16,
    combined: Seq<char>,
) -> u8 {
    let raw = raw_score(known_id, known_vendor, usage_page, usage, combined);
    if names_receiver_variant(combined) {
        if raw >= 25 {
            (raw - 25) as u8
        } else {
            0
        }
    } else {
        raw as u8
    }
}

/// A known ATK id adds exactly 100 to the score of an ATK-vendor interface,
/// whatever its usage and its names (receiver names included).
pub proof fn lemma_known_id_adds_100(usage_page: u16, usage: u16, combined: Seq<char>)
    ensures
        candidate_score(true, true, usage_page, usage, combined) == candidate_score(
            false,
            true,
            usage_page,
            usage,
            combined,
        ) + 100,
{
}

/// Names of receivers, dongles and reduced variants cost 25 points: such an
/// interface scores at most 255 - 25, and the ATK vendor's interface with
/// such a name scores 25 less than the bonuses it earns.
pub proof fn lemma_receiver_penalty(
    known_id: bool,
    known_vendor: bool,
    usage_page: u16,
    usage: u16,
    combined: Seq<char>,
)
    requires
        names_receiver_variant(combined),
    ensures
        candidate_score(known_id, known_vendor, usage_page, usage, combined) <= 230,
        known_vendor ==> candidate_score(known_id, known_vendor, usage_page, usage, combined) + 25
            == raw_score(known_id, known_vendor, usage_page, usage, combined),
{
}

fn has_keyword(combined: &Vec<char>) -> (r: bool)
    ensures
        r == has_device_keyword(combined@),
{
    contains_str(combined, "atk") || contains_str(combined, "vxe") || contains_str(
        combined,
        "leviatan",
    ) || contains_str(combined, "mad r")
}

fn score_of(known_id: bool, known_vendor: bool, usage_page: u16, usage: u16, combined: &Vec<char>) -> (r: u8)
    ensures
        r == candidate_score(known_id, known_vendor, usage_page, usage, combined@),
{
    let mut score: u8 = 0;
    if known_id {
        score += 100;
    }
    if known_vendor {
        score += 60;
    }
    if usage_page == ATK_USAGE_PAGE {
        score += 30;
    }
    if usage == ATK_USAGE {
        score += 20;
    }
    if usage_page == ATK_USAGE_PAGE && usage == ATK_USAGE {
        score += 20;
    }
    if has_keyword(combined) {
        score += 15;
    }
    if contains_str(combined, "mouse") {
        score += 10;
    }
    if contains_str(combined, "dongle") || contains_str(combined, "receiver") || contains_str(
        combined,
        "light version",
    ) {
        score = score.saturating_sub(25);
    }
    score
}

/// Scores an interface from its identity flags, its usage and the
/// lower-cased `"manufacturer product"` text.
pub fn score_candidate(
    known_id: bool,
    known_vendor: bool,
    usage_page: u16,
    usage: u16,
    combined: &str,
) -> (r: u8)
    ensures
        r == candidate_score(known_id, known_vendor, usage_page, usage, combined@),
{
    let chars = chars_of(combined);
    score_of(known_id, known_vendor, usage_page, usage, &chars)
}

// ---------------------------------------------------------------------------
// Display labels
// ---------------------------------------------------------------------------

/// The label shown when no product name is available.
pub open spec fn default_device_label() -> Seq<char> {
    "ATK device"@
}

/// The label shown for receivers and raw dongle names.
pub open spec fn generic_mouse_label() -> Seq<char> {
    "ATK mouse"@
}

/// The text before the bracketed identifiers, with whitespace collapsed.
pub open spec fn cleaned_label(label: Seq<char>) -> Seq<char> {
    collapse_spaces(before_char(label, '['))
}

/// A name (in ASCII lower case) that belongs to a receiver.
pub open spec fn is_receiver_name(lower: Seq<char>) -> bool {
    ||| has_substring(lower, "dongle"@)
    ||| has_substring(lower, "receiver"@)
}

/// The user-facing name for a candidate label.
pub open spec fn sanitized_label(label: Seq<char>) -> Seq<char> {
    let cleaned = cleaned_label(label);
    if cleaned.len() == 0 {
        default_device_label()
    } else if is_receiver_name(ascii_lower(cleaned)) {
        generic_mouse_label()
    } else {
        cleaned
    }
}

/// Turns a candidate label into a readable product name: drops the
/// bracketed identifiers, collapses whitespace, and replaces receiver names
/// by the generic mouse label.
pub fn sanitize_device_label(label: &str) -> (r: String)
    ensures
        r@ == sanitized_label(label@),
{
    let chars = chars_of(label);
    let head = chars_before(&chars, '[');
    let cleaned = collapse_chars(&head);
    if cleaned.len() == 0 {
        return String::from_str("ATK device");
    }
    let normalized = to_ascii_lower(&cleaned);
    if contains_str(&normalized, "dongle") || contains_str(&normalized, "receiver") {
        return String::from_str("ATK mouse");
    }
    string_from_chars(&cleaned)
}

/// The readable product name of a candidate.
pub fn friendly_device_label(candidate: &DeviceCandidate) -> (r: String)
    ensures
        r@ == sanitized_label(candidate.label@),
{
    sanitize_device_label(candidate.label.as_str())
}

proof fn lemma_occurs_chars(h: Seq<char>, n: Seq<char>, i: int)
    requires
        occurs_at(h, n, i),
    ensures
        forall|j: int| 0 <= j < n.len() ==> h[i + j] == #[trigger] n[j],
{
    assert forall|j: int| 0 <= j < n.len() implies h[i + j] == #[trigger] n[j] by {
        assert(h.subrange(i, i + n.len())[j] == h[i + j]);
    }
}

/// The two fixed labels are readable names already.
proof fn lemma_fixed_labels()
    ensures
        sanitized_label(default_device_label()) == default_device_label(),
        sanitized_label(generic_mouse_label()) == generic_mouse_label(),
        forall|i: int|
            0 <= i < default_device_label().len() ==> #[trigger] default_device_label()[i] != '[',
        forall|i: int|
            0 <= i < generic_mouse_label().len() ==> #[trigger] generic_mouse_label()[i] != '[',
{
    reveal_strlit("ATK device");
    reveal_strlit("ATK mouse");
    reveal_strlit("dongle");
    reveal_strlit("receiver");
    let d = "ATK device"@;
    let m = "ATK mouse"@;
    assert(d =~= seq!['A', 'T', 'K', ' ', 'd', 'e', 'v', 'i', 'c', 'e']);
    assert(m =~= seq!['A', 'T', 'K', ' ', 'm', 'o', 'u', 's', 'e']);
    assert(is_collapsed(d));
    assert(is_collapsed(m));
    lemma_before_char_absent(d, '[');
    lemma_before_char_absent(m, '[');
    lemma_collapse_of_collapsed(d);
    lemma_collapse_of_collapsed(m);
    let ld = ascii_lower(d);
    let lm = ascii_lower(m);
    assert(ld =~= seq!['a', 't', 'k', ' ', 'd', 'e', 'v', 'i', 'c', 'e']);
    assert(lm =~= seq!['a', 't', 'k', ' ', 'm', 'o', 'u', 's', 'e']);
    assert forall|i: int| !#[trigger] occurs_at(ld, "dongle"@, i) by {
        if occurs_at(ld, "dongle"@, i) {
            lemma_occurs_chars(ld, "dongle"@, i);
            assert(ld[i] == "dongle"@[0]);
            assert(ld[i + 1] == "dongle"@[1]);
        }
    }
    assert forall|i: int| !#[trigger] occurs_at(ld, "receiver"@, i) by {
        if occurs_at(ld, "receiver"@, i) {
            lemma_occurs_chars(ld, "receiver"@, i);
            assert(ld[i] == "receiver"@[0]);
        }
    }
    assert forall|i: int| !#[trigger] occurs_at(lm, "dongle"@, i) by {
        if occurs_at(lm, "dongle"@, i) {
            lemma_occurs_chars(lm, "dongle"@, i);
            assert(lm[i] == "dongle"@[0]);
        }
    }
    assert forall|i: int| !#[trigger] occurs_at(lm, "receiver"@, i) by {
        if occurs_at(lm, "receiver"@, i) {
            lemma_occurs_chars(lm, "receiver"@, i);
            assert(lm[i] == "receiver"@[0]);
        }
    }
}

/// Cleaning is stable: the readable name of a readable name is itself.
pub proof fn lemma_sanitize_idempotent(label: Seq<char>)
    ensures
        sanitized_label(sanitized_label(label)) == sanitized_label(label),
{
    lemma_fixed_labels();
    let head = before_char(label, '[');
    let c = cleaned_label(label);
    if c.len() > 0 && !is_receiver_name(ascii_lower(c)) {
        lemma_before_char_free(label, '[');
        lemma_collapse_chars(head, '[');
        lemma_before_char_absent(c, '[');
        lemma_collapse_idempotent(head);
    }
}

/// Readable names never hold the bracketed identifiers: no `[` is left.
pub proof fn lemma_sanitized_label_has_no_bracket(label: Seq<char>)
    ensures
        forall|i: int|
            0 <= i < sanitized_label(label).len() ==> #[trigger] sanitized_label(label)[i] != '[',
{
    lemma_fixed_labels();
    let head = before_char(label, '[');
    lemma_before_char_free(label, '[');
    lemma_collapse_chars(head, '[');
}

// ---------------------------------------------------------------------------
// Selecting candidates among HID interfaces
// ---------------------------------------------------------------------------

/// Vendor and product id of a known ATK mouse or receiver.
pub open spec fn is_known_id(vendor_id: u16, product_id: u16) -> bool {
    vendor_id == ATK_VENDOR_ID && (product_id == 0x1031 || product_id == 0x105B)
}

/// The vendor id of ATK.
pub open spec fn is_known_vendor(vendor_id: u16) -> bool {
    vendor_id == ATK_VENDOR_ID
}

/// An optional text, empty when absent.
pub open spec fn text_or_empty(s: Option<Seq<char>>) -> Seq<char> {
    match s {
        Some(t) => t,
        None => Seq::empty(),
    }
}

/// The lower-cased `"manufacturer product"` text of an interface.
pub open spec fn combined_name(d: DeviceModel) -> Seq<char> {
    unicode_lowercase(text_or_empty(d.manufacturer)) + seq![' '] + unicode_lowercase(
        text_or_empty(d.product),
    )
}

/// An interface may belong to an ATK mouse: a known id or vendor, an ATK
/// keyword in its lower-cased names, or the shape of the ATK protocol
/// interface.
pub open spec fn candidate_match(
    known_id: bool,
    known_vendor: bool,
    usage_page: u16,
    usage: u16,
    combined: Seq<char>,
) -> bool {
    ||| known_id
    ||| known_vendor
    ||| has_device_keyword(combined)
    ||| (usage_page == ATK_USAGE_PAGE && usage == ATK_USAGE)
}

/// Whether an interface, given its identity flags, its usage and its
/// lower-cased `"manufacturer product"` text, may belong to an ATK mouse.
pub fn is_candidate(
    known_id: bool,
    known_vendor: bool,
    usage_page: u16,
    usage: u16,
    combined: &str,
) -> (r: bool)
    ensures
        r == candidate_match(known_id, known_vendor, usage_page, usage, combined@),
{
    let chars = chars_of(combined);
    matches_candidate(known_id, known_vendor, usage_page, usage, &chars)
}

fn matches_candidate(
    known_id: bool,
    known_vendor: bool,
    usage_page: u16,
    usage: u16,
    combined: &Vec<char>,
) -> (r: bool)
    ensures
        r == candidate_match(known_id, known_vendor, usage_page, usage, combined@),
{
    known_id || known_vendor || has_keyword(combined) || (usage_page == ATK_USAGE_PAGE && usage
        == ATK_USAGE)
}

/// An interface that may belong to an ATK mouse (see `candidate_match`).
pub open spec fn is_candidate_device(d: DeviceModel) -> bool {
    candidate_match(
        is_known_id(d.vendor_id, d.product_id),
        is_known_vendor(d.vendor_id),
        d.usage_page,
        d.usage,
        combined_name(d),
    )
}

/// The diagnostic label of an interface:
/// `"{manufacturer} {product} [{VID}:{PID} u{PAGE}:{USAGE}]"`, trimmed, with
/// upper-case four-digit hexadecimal ids.
pub open spec fn device_label(d: DeviceModel) -> Seq<char> {
    let known = is_known_id(d.vendor_id, d.product_id) || is_known_vendor(d.vendor_id);
    let manufacturer = match d.manufacturer {
        Some(t) => t,
        None => if known {
            "ATK"@
        } else {
            "HID"@
        },
    };
    let product = match d.product {
        Some(t) => t,
        None => "Device"@,
    };
    trim(
        manufacturer + " "@ + product + " ["@ + hex4(d.vendor_id, true) + ":"@ + hex4(
            d.product_id,
            true,
        ) + " u"@ + hex4(d.usage_page, true) + ":"@ + hex4(d.usage, true) + "]"@,
    )
}

/// The candidate made from an interface.
pub open spec fn device_candidate(d: DeviceModel) -> CandidateModel {
    CandidateModel {
        vendor_id: d.vendor_id,
        product_id: d.product_id,
        usage_page: d.usage_page,
        usage: d.usage,
        label: device_label(d),
        score: candidate_score(
            is_known_id(d.vendor_id, d.product_id),
            is_known_vendor(d.vendor_id),
            d.usage_page,
            d.usage,
            combined_name(d),
        ),
    }
}

/// Two candidates stand for the same interface (same ids and usage).
pub open spec fn same_interface(a: CandidateModel, b: CandidateModel) -> bool {
    a.vendor_id == b.vendor_id && a.product_id == b.product_id && a.usage_page == b.usage_page
        && a.usage == b.usage
}

/// The list holds a candidate for the interface of `c`.
pub open spec fn lists_interface(cs: Seq<CandidateModel>, c: CandidateModel) -> bool {
    exists|i: int| 0 <= i < cs.len() && #[trigger] same_interface(cs[i], c)
}

/// The candidates of `devs`, in listing order, keeping the first of each
/// interface (ids and usage) only.
pub open spec fn distinct_candidates(devs: Seq<DeviceModel>) -> Seq<CandidateModel>
    decreases devs.len(),
{
    if devs.len() == 0 {
        Seq::empty()
    } else {
        let prev = distinct_candidates(devs.drop_last());
        let d = devs.last();
        if is_candidate_device(d) && !lists_interface(prev, device_candidate(d)) {
            prev.push(device_candidate(d))
        } else {
            prev
        }
    }
}

/// In a ranked list the scores never rise, and among equal scores the
/// vendor ids never fall.
pub proof fn lemma_ranked_scores_descend(cs: Seq<CandidateModel>, i: int, j: int)
    requires
        is_ranked(cs),
        0 <= i < j < cs.len(),
    ensures
        cs[i].score >= cs[j].score,
        cs[i].score == cs[j].score ==> cs[i].vendor_id <= cs[j].vendor_id,
{
    assert(ranks_before(cs[i], cs[j]));
}

/// No two candidates of the list stand for the same interface.
pub open spec fn distinct_interfaces(cs: Seq<CandidateModel>) -> bool {
    forall|i: int, j: int|
        0 <= i < cs.len() && 0 <= j < cs.len() && i != j ==> !same_interface(
            #[trigger] cs[i],
            #[trigger] cs[j],
        )
}

/// `a` ranks before `b`: higher score first, then lower vendor id, product
/// id, usage page and usage.
pub open spec fn ranks_before(a: CandidateModel, b: CandidateModel) -> bool {
    ||| a.score > b.score
    ||| (a.score == b.score && a.vendor_id < b.vendor_id)
    ||| (a.score == b.score && a.vendor_id == b.vendor_id && a.product_id < b.product_id)
    ||| (a.score == b.score && a.vendor_id == b.vendor_id && a.product_id == b.product_id
        && a.usage_page < b.usage_page)
    ||| (a.score == b.score && a.vendor_id == b.vendor_id && a.product_id == b.product_id
        && a.usage_page == b.usage_page && a.usage < b.usage)
}

/// Every candidate ranks before all those after it.
pub open spec fn is_ranked(cs: Seq<CandidateModel>) -> bool {
    forall|i: int, j: int| 0 <= i < j < cs.len() ==> ranks_before(#[trigger] cs[i], #[trigger] cs[j])
}

/// The heuristic puts ATK hardware first: an interface with a known ATK id
/// ranks before any interface of another vendor, whatever their names.
pub proof fn lemma_known_ids_rank_first(known: DeviceModel, other: DeviceModel)
    requires
        is_known_id(known.vendor_id, known.product_id),
        !is_known_vendor(other.vendor_id),
    ensures
        ranks_before(device_candidate(known), device_candidate(other)),
        device_candidate(known).score >= 135,
        device_candidate(other).score <= 95,
{
}

/// The message given when no HID interface looks like an ATK device.
pub open spec fn no_candidate_message() -> Seq<char> {
    "Aucun peripherique ATK compatible detecte sur le bus HID. Branchez le dongle ou le cable, puis relancez le diagnostic pour inspecter les interfaces exposees."@
}

proof fn lemma_distinct_candidates(devs: Seq<DeviceModel>)
    ensures
        distinct_interfaces(distinct_candidates(devs)),
    decreases devs.len(),
{
    if devs.len() > 0 {
        lemma_distinct_candidates(devs.drop_last());
        let prev = distinct_candidates(devs.drop_last());
        let d = devs.last();
        if is_candidate_device(d) && !lists_interface(prev, device_candidate(d)) {
            let cs = prev.push(device_candidate(d));
            assert forall|i: int, j: int|
                0 <= i < cs.len() && 0 <= j < cs.len() && i != j implies !same_interface(
                #[trigger] cs[i],
                #[trigger] cs[j],
            ) by {
                if i == prev.len() {
                    if same_interface(cs[i], cs[j]) {
                        assert(same_interface(prev[j], device_candidate(d)));
                    }
                } else if j == prev.len() {
                    if same_interface(cs[i], cs[j]) {
                        assert(same_interface(prev[i], device_candidate(d)));
                    }
                } else {
                    assert(cs[i] == prev[i] && cs[j] == prev[j]);
                }
            }
        }
    }
}

/// Two interfaces are the same when vendor id, product id, usage page and
/// usage all agree.
pub open spec fn same_ids_and_usage(a: DeviceModel, b: DeviceModel) -> bool {
    a.vendor_id == b.vendor_id && a.product_id == b.product_id && a.usage_page == b.usage_page
        && a.usage == b.usage
}

/// Every kept candidate is the candidate of some listed interface.
proof fn lemma_kept_from_devices(devs: Seq<DeviceModel>)
    ensures
        forall|k: int|
            0 <= k < distinct_candidates(devs).len() ==> exists|j: int|
                0 <= j < devs.len() && #[trigger] distinct_candidates(devs)[k]
                    == device_candidate(devs[j]),
    decreases devs.len(),
{
    if devs.len() > 0 {
        let prev_devs = devs.drop_last();
        lemma_kept_from_devices(prev_devs);
        let kept = distinct_candidates(devs);
        let prev = distinct_candidates(prev_devs);
        assert forall|k: int| 0 <= k < kept.len() implies exists|j: int|
            0 <= j < devs.len() && #[trigger] kept[k] == device_candidate(devs[j]) by {
            if k < prev.len() {
                assert(kept[k] == prev[k]);
                let j = choose|j: int| 0 <= j < prev_devs.len() && prev[k] == device_candidate(
                    prev_devs[j],
                );
                assert(devs[j] == prev_devs[j]);
            } else {
                assert(kept[k] == device_candidate(devs[devs.len() - 1]));
            }
        }
    }
}

/// Interfaces are told apart by vendor id, product id, usage page and usage
/// together: a list of matching interfaces that differ pairwise in one of
/// these keeps every one of them.
pub proof fn lemma_distinct_interfaces_all_kept(devs: Seq<DeviceModel>)
    requires
        forall|i: int| 0 <= i < devs.len() ==> is_candidate_device(#[trigger] devs[i]),
        forall|i: int, j: int|
            0 <= i < j < devs.len() ==> !same_ids_and_usage(#[trigger] devs[i], #[trigger] devs[j]),
    ensures
        distinct_candidates(devs).len() == devs.len(),
    decreases devs.len(),
{
    if devs.len() > 0 {
        let prev_devs = devs.drop_last();
        let last = devs[devs.len() - 1];
        assert forall|i: int, j: int| 0 <= i < j < prev_devs.len() implies !same_ids_and_usage(
            #[trigger] prev_devs[i],
            #[trigger] prev_devs[j],
        ) by {
            assert(prev_devs[i] == devs[i] && prev_devs[j] == devs[j]);
        }
        lemma_distinct_interfaces_all_kept(prev_devs);
        lemma_kept_from_devices(prev_devs);
        let prev = distinct_candidates(prev_devs);
        assert(is_candidate_device(devs[devs.len() - 1]));
        if lists_interface(prev, device_candidate(last)) {
            let k = choose|k: int| 0 <= k < prev.len() && #[trigger] same_interface(
                prev[k],
                device_candidate(last),
            );
            let j = choose|j: int| 0 <= j < prev_devs.len() && prev[k] == device_candidate(
                prev_devs[j],
            );
            assert(prev_devs[j] == devs[j]);
            assert(same_ids_and_usage(devs[j], devs[devs.len() - 1]));
            assert(false);
        }
    }
}

/// Every listed interface that may be an ATK mouse has a candidate with its
/// vendor id, product id, usage page and usage.
pub proof fn lemma_every_matching_interface_kept(devs: Seq<DeviceModel>, j: int)
    requires
        0 <= j < devs.len(),
        is_candidate_device(devs[j]),
    ensures
        exists|k: int|
            0 <= k < distinct_candidates(devs).len() && {
                let c = #[trigger] distinct_candidates(devs)[k];
                &&& c.vendor_id == devs[j].vendor_id
                &&& c.product_id == devs[j].product_id
                &&& c.usage_page == devs[j].usage_page
                &&& c.usage == devs[j].usage
            },
    decreases devs.len(),
{
    let prev_devs = devs.drop_last();
    let prev = distinct_candidates(prev_devs);
    let kept = distinct_candidates(devs);
    let d = devs[j];
    if j == devs.len() - 1 {
        if lists_interface(prev, device_candidate(d)) {
            let k = choose|k: int| 0 <= k < prev.len() && #[trigger] same_interface(
                prev[k],
                device_candidate(d),
            );
            assert(kept[k] == prev[k]);
        } else {
            assert(kept[prev.len() as int] == device_candidate(d));
        }
    } else {
        assert(prev_devs[j] == d);
        lemma_every_matching_interface_kept(prev_devs, j);
        let k = choose|k: int|
            0 <= k < prev.len() && {
                let c = #[trigger] prev[k];
                &&& c.vendor_id == d.vendor_id
                &&& c.product_id == d.product_id
                &&& c.usage_page == d.usage_page
                &&& c.usage == d.usage
            };
        assert(kept[k] == prev[k]);
    }
}

fn ranks_before_exec(a: &DeviceCandidate, b: &DeviceCandidate) -> (r: bool)
    ensures
        r == ranks_before(a@, b@),
{
    if a.score != b.score {
        return a.score > b.score;
    }
    if a.vendor_id != b.vendor_id {
        return a.vendor_id < b.vendor_id;
    }
    if a.product_id != b.product_id {
        return a.product_id < b.product_id;
    }
    if a.usage_page != b.usage_page {
        return a.usage_page < b.usage_page;
    }
    a.usage < b.usage
}

/// Orders candidates by rank (see `ranks_before`).
fn rank_candidates(v: Vec<DeviceCandidate>) -> (r: Vec<DeviceCandidate>)
    requires
        distinct_interfaces(candidate_models(v@)),
    ensures
        r@.len() == v@.len(),
        forall|c: CandidateModel|
            candidate_models(r@).contains(c) <==> candidate_models(v@).contains(c),
        is_ranked(candidate_models(r@)),
{
    let ghost all = candidate_models(v@);
    let mut rest = v;
    let mut sorted: Vec<DeviceCandidate> = Vec::new();
    assert(all.skip(all.len() as int) =~= Seq::<CandidateModel>::empty());
    assert(candidate_models(rest@) =~= all.take(all.len() as int));
    while rest.len() > 0
        invariant
            all.len() == sorted.len() + rest.len(),
            candidate_models(rest@) =~= all.take(rest.len() as int),
            forall|c: CandidateModel|
                candidate_models(sorted@).contains(c) <==> all.skip(rest.len() as int).contains(c),
            is_ranked(candidate_models(sorted@)),
            distinct_interfaces(all),
        decreases rest.len(),
    {
        let ghost n = rest.len() as int;
        let ghost old_sorted = candidate_models(sorted@);
        let ghost old_rest = rest@;
        let c = rest.pop().unwrap();
        assert(candidate_models(old_rest)[n - 1] == old_rest[n - 1]@);
        assert(c@ == all[n - 1]);
        assert(candidate_models(rest@) =~= all.take(n - 1)) by {
            assert(rest@ == old_rest.drop_last());
            assert forall|i: int| 0 <= i < n - 1 implies candidate_models(rest@)[i] == all.take(
                n - 1,
            )[i] by {
                assert(candidate_models(old_rest)[i] == old_rest[i]@);
            }
        }
        let mut p: usize = 0;
        while p < sorted.len() && ranks_before_exec(&sorted[p], &c)
            invariant
                p <= sorted.len(),
                old_sorted == candidate_models(sorted@),
                forall|i: int| 0 <= i < p ==> ranks_before(#[trigger] sorted@[i]@, c@),
            decreases sorted.len() - p,
        {
            p = p + 1;
        }
        proof {
            // `c` stands for an interface that no sorted candidate stands for.
            assert forall|k: int| 0 <= k < old_sorted.len() implies !same_interface(
                #[trigger] old_sorted[k],
                c@,
            ) by {
                assert(old_sorted.contains(old_sorted[k]));
                assert(all.skip(n).contains(old_sorted[k]));
                let tail = all.skip(n);
                let j = choose|j: int| 0 <= j < tail.len() && tail[j] == old_sorted[k];
                assert(all[n + j] == old_sorted[k]);
                assert(!same_interface(all[n + j], all[n - 1]));
            }
            if p < old_sorted.len() {
                assert(!ranks_before(old_sorted[p as int], c@));
                assert(!same_interface(old_sorted[p as int], c@));
                assert(ranks_before(c@, old_sorted[p as int]));
            }
        }
        sorted.insert(p, c);
        proof {
            let new_sorted = candidate_models(sorted@);
            assert(new_sorted =~= old_sorted.insert(p as int, c@));
            assert forall|i: int, j: int| 0 <= i < j < new_sorted.len() implies ranks_before(
                #[trigger] new_sorted[i],
                #[trigger] new_sorted[j],
            ) by {
                if j < p {
                    assert(new_sorted[i] == old_sorted[i] && new_sorted[j] == old_sorted[j]);
                } else if j == p {
                    assert(new_sorted[i] == old_sorted[i]);
                } else if i == p {
                    assert(new_sorted[j] == old_sorted[j - 1]);
                    if j - 1 > p {
                        assert(ranks_before(old_sorted[p as int], old_sorted[j - 1]));
                    }
                } else if i < p {
                    assert(new_sorted[i] == old_sorted[i] && new_sorted[j] == old_sorted[j - 1]);
                } else {
                    assert(new_sorted[i] == old_sorted[i - 1] && new_sorted[j] == old_sorted[j
                        - 1]);
                }
            }
            let tail = all.skip(n);
            let tail1 = all.skip(n - 1);
            assert(tail1 =~= seq![all[n - 1]] + tail);
            assert forall|x: CandidateModel| new_sorted.contains(x) implies tail1.contains(x) by {
                let i = choose|i: int| 0 <= i < new_sorted.len() && new_sorted[i] == x;
                if i == p {
                    assert(tail1[0] == x);
                } else {
                    let k = if i < p { i } else { i - 1 };
                    assert(old_sorted[k] == x);
                    assert(old_sorted.contains(x));
                    assert(tail.contains(x));
                    let j = choose|j: int| 0 <= j < tail.len() && tail[j] == x;
                    assert(tail1[j + 1] == x);
                }
            }
            assert forall|x: CandidateModel| tail1.contains(x) implies new_sorted.contains(x) by {
                let i = choose|i: int| 0 <= i < tail1.len() && tail1[i] == x;
                if i == 0 {
                    assert(new_sorted[p as int] == x);
                } else {
                    assert(tail[i - 1] == x);
                    assert(tail.contains(x));
                    assert(old_sorted.contains(x));
                    let k = choose|k: int| 0 <= k < old_sorted.len() && old_sorted[k] == x;
                    if k < p {
                        assert(new_sorted[k] == x);
                    } else {
                        assert(new_sorted[k + 1] == x);
                    }
                }
            }
        }
    }
    assert(all.skip(0) == all);
    assert(candidate_models(v@) == all);
    sorted
}

/// Whether `cs` already holds a candidate for the interface of `d`.
fn lists_interface_exec(cs: &Vec<DeviceCandidate>, d: &HidDeviceInfo) -> (r: bool)
    ensures
        r == lists_interface(candidate_models(cs@), device_candidate(d@)),
{
    let ghost target = device_candidate(d@);
    let n = cs.len();
    for i in 0..n
        invariant
            n == cs.len(),
            target == device_candidate(d@),
            forall|k: int| 0 <= k < i ==> !#[trigger] same_interface(cs@[k]@, target),
    {
        let c = &cs[i];
        if c.vendor_id == d.vendor_id && c.product_id == d.product_id && c.usage_page
            == d.usage_page && c.usage == d.usage {
            assert(same_interface(candidate_models(cs@)[i as int], target));
            return true;
        }
    }
    assert forall|k: int| 0 <= k < candidate_models(cs@).len() implies !#[trigger] same_interface(
        candidate_models(cs@)[k],
        target,
    ) by {
        assert(candidate_models(cs@)[k] == cs@[k]@);
    }
    false
}

/// The text of an optional string, empty when absent.
fn text_of(s: &Option<String>) -> (r: &str)
    ensures
        r@ == text_or_empty(opt_view(*s)),
{
    proof {
        reveal_strlit("");
    }
    match s {
        Some(t) => t.as_str(),
        None => "",
    }
}

/// The lower-cased `"manufacturer product"` text of an interface.
fn combined_name_of(d: &HidDeviceInfo) -> (r: Vec<char>)
    ensures
        r@ == combined_name(d@),
{
    let manufacturer = to_lowercase(text_of(&d.manufacturer));
    let product = to_lowercase(text_of(&d.product));
    let mut r = chars_of(manufacturer.as_str());
    r.push(' ');
    push_str(&mut r, product.as_str());
    r
}

/// The diagnostic label of an interface.
fn device_label_of(d: &HidDeviceInfo, known: bool) -> (r: String)
    requires
        known == (is_known_id(d.vendor_id, d.product_id) || is_known_vendor(d.vendor_id)),
    ensures
        r@ == device_label(d@),
{
    let mut text: Vec<char> = Vec::new();
    match &d.manufacturer {
        Some(m) => push_str(&mut text, m.as_str()),
        None => if known {
            push_str(&mut text, "ATK")
        } else {
            push_str(&mut text, "HID")
        },
    }
    push_str(&mut text, " ");
    match &d.product {
        Some(p) => push_str(&mut text, p.as_str()),
        None => push_str(&mut text, "Device"),
    }
    push_str(&mut text, " [");
    push_hex4(&mut text, d.vendor_id, true);
    push_str(&mut text, ":");
    push_hex4(&mut text, d.product_id, true);
    push_str(&mut text, " u");
    push_hex4(&mut text, d.usage_page, true);
    push_str(&mut text, ":");
    push_hex4(&mut text, d.usage, true);
    push_str(&mut text, "]");
    let trimmed = trim_chars(&text);
    string_from_chars(&trimmed)
}

/// Selects the HID interfaces that may be an ATK mouse, one per interface
/// (the first listed), labelled and scored, best first.  Fails when there
/// is none.
pub fn locate_candidates(devices: &Vec<HidDeviceInfo>) -> (r: Result<Vec<DeviceCandidate>, String>)
    ensures
        ({
            let kept = distinct_candidates(device_models(devices@));
            match r {
                Ok(v) => {
                    &&& kept.len() > 0
                    &&& v@.len() == kept.len()
                    &&& forall|c: CandidateModel|
                        candidate_models(v@).contains(c) <==> kept.contains(c)
                    &&& is_ranked(candidate_models(v@))
                },
                Err(e) => kept.len() == 0 && e@ == no_candidate_message(),
            }
        }),
{
    let ghost models = device_models(devices@);
    let mut candidates: Vec<DeviceCandidate> = Vec::new();
    let n = devices.len();
    for i in 0..n
        invariant
            n == devices.len(),
            models == device_models(devices@),
            candidate_models(candidates@) =~= distinct_candidates(models.take(i as int)),
    {
        let d = &devices[i];
        proof {
            assert(models.take(i + 1).drop_last() == models.take(i as int));
            assert(models.take(i + 1).last() == d@);
        }
        let combined = combined_name_of(d);
        let known_id = d.vendor_id == ATK_VENDOR_ID && (d.product_id == 0x1031 || d.product_id
            == 0x105B);
        let known_vendor = d.vendor_id == ATK_VENDOR_ID;
        if matches_candidate(known_id, known_vendor, d.usage_page, d.usage, &combined) {
            if !lists_interface_exec(&candidates, d) {
                let score = score_of(known_id, known_vendor, d.usage_page, d.usage, &combined);
                let label = device_label_of(d, known_id || known_vendor);
                let candidate = DeviceCandidate {
                    vendor_id: d.vendor_id,
                    product_id: d.product_id,
                    usage_page: d.usage_page,
                    usage: d.usage,
                    label,
                    score,
                };
                let ghost before = candidate_models(candidates@);
                candidates.push(candidate);
                assert(candidate_models(candidates@) =~= before.push(device_candidate(d@)));
            }
        }
    }
    assert(models.take(n as int) == models);
    if candidates.len() == 0 {
        return Err(String::from_str("Aucun peripherique ATK compatible detecte sur le bus HID. Branchez le dongle ou le cable, puis relancez le diagnostic pour inspecter les interfaces exposees."));
    }
    proof {
        lemma_distinct_candidates(models);
    }
    Ok(rank_candidates(candidates))
}

/// What a query loop does after one candidate answered: stop with the
/// reading, or go on with the failure recorded.
pub fn query_step<T>(errors: &mut Vec<String>, result: Result<T, String>) -> (r: Option<T>)
    ensures
        match result {
            Ok(reading) => r == Some(reading) && final(errors)@ == old(errors)@,
            Err(e) => r is None && final(errors)@ == old(errors)@.push(e),
        },
{
    match result {
        Ok(reading) => Some(reading),
        Err(error) => {
            errors.push(error);
            None
        },
    }
}

/// The message given when every candidate failed: the failures joined by
/// `" | "`, or a fixed message when there was none.
pub open spec fn query_failure_text(errors: Seq<Seq<char>>) -> Seq<char> {
    if errors.len() == 0 {
        "Aucun candidat compatible n'a repondu."@
    } else {
        join(errors, " | "@)
    }
}

/// Combines the failures of querying each candidate into one message.
pub fn query_failure_message(errors: &Vec<String>) -> (r: String)
    ensures
        r@ == query_failure_text(string_views(errors@)),
{
    if errors.len() == 0 {
        String::from_str("Aucun candidat compatible n'a repondu.")
    } else {
        join_strings(errors, " | ")
    }
}

} // verus!
