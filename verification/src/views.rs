//! Presentation rules of the dashboard that do not depend on the terminal
//! library: scrolling, splitting, wrapping, and the texts shown for stages.
use vstd::prelude::*;
use crate::layout::PaneKind;
use crate::registry::CatalogTarget;
use crate::text::{chars_of, decimal, decimal_usize, string_of_range};
use crate::workflow::WorkflowStage;

verus! {

pub open spec fn first_visible(selected: nat, visible_rows: nat) -> nat {
    if visible_rows == 0 || selected < visible_rows {
        0
    } else {
        (selected - visible_rows + 1) as nat
    }
}

/// First visible row index for a 1-row-per-item list so `selected` stays on
/// screen.
pub fn scroll_offset(selected: usize, visible_rows: usize) -> (r: usize)
    ensures
        r == first_visible(selected as nat, visible_rows as nat),
{
    if visible_rows == 0 || selected < visible_rows {
        0
    } else {
        selected - visible_rows + 1
    }
}

/// The cursor stays inside the visible window whenever there is room.
pub proof fn law_scroll_keeps_selection_visible(selected: nat, visible_rows: nat)
    requires
        visible_rows > 0,
    ensures
        first_visible(selected, visible_rows) <= selected < first_visible(selected, visible_rows)
            + visible_rows,
{
}

pub open spec fn min_nat(a: nat, b: nat) -> nat {
    if a < b { a } else { b }
}

/// The visible `[start, end)` range of a scrolled text field.
pub open spec fn visible_range(char_count: nat, cursor: nat, text_width: nat) -> (nat, nat) {
    let c = min_nat(cursor, char_count);
    let offset = min_nat(first_visible(c, text_width), char_count);
    (offset, min_nat(offset + text_width, char_count))
}

/// The visible `[start, end)` char range for a scrollable text viewport, given
/// the full char count, the absolute cursor position, and the viewport width.
pub fn scrolled_visible_range(char_count: usize, cursor: usize, text_width: usize) -> (r: (usize, usize))
    requires
        visible_range(char_count as nat, cursor as nat, text_width as nat).0 + text_width
            <= usize::MAX,
    ensures
        r == (
            visible_range(char_count as nat, cursor as nat, text_width as nat).0 as usize,
            visible_range(char_count as nat, cursor as nat, text_width as nat).1 as usize,
        ),
{
    let cursor = if cursor < char_count { cursor } else { char_count };
    let o = scroll_offset(cursor, text_width);
    let offset = if o < char_count { o } else { char_count };
    let e = offset + text_width;
    let end = if e < char_count { e } else { char_count };
    (offset, end)
}

/// `s` cut into pieces of `width` characters (the last may be shorter); the
/// whole text as one piece when the width is zero.
pub open spec fn chunks(s: Seq<char>, width: nat) -> Seq<Seq<char>>
    decreases s.len(),
{
    if width == 0 {
        seq![s]
    } else if s.len() == 0 {
        Seq::empty()
    } else if s.len() <= width {
        seq![s]
    } else {
        seq![s.take(width as int)] + chunks(s.skip(width as int), width)
    }
}

/// Cuts a text into lines of at most `width` characters.
pub fn wrap_chars(s: &str, width: usize) -> (r: Vec<String>)
    ensures
        Seq::new(r@.len(), |k: int| r@[k]@) == chunks(s@, width as nat),
{
    let v = chars_of(s);
    let mut out: Vec<String> = Vec::new();
    if width == 0 {
        out.push(s.to_owned());
        assert(Seq::new(out@.len(), |k: int| out@[k]@) =~= chunks(s@, 0));
        return out;
    }
    let mut i: usize = 0;
    assert(v@.skip(0) =~= v@);
    assert(Seq::new(out@.len(), |k: int| out@[k]@) + chunks(v@, width as nat) =~= chunks(
        v@,
        width as nat,
    ));
    while i < v.len()
        invariant
            v@ == s@,
            width > 0,
            i <= v@.len(),
            Seq::new(out@.len(), |k: int| out@[k]@) + chunks(v@.skip(i as int), width as nat)
                == chunks(v@, width as nat),
        decreases v@.len() - i,
    {
        let rest = v.len() - i;
        let end = if rest <= width { v.len() } else { i + width };
        let ghost before = Seq::new(out@.len(), |k: int| out@[k]@);
        let ghost tail = v@.skip(i as int);
        let piece = string_of_range(&v, i, end);
        out.push(piece);
        proof {
            if rest <= width {
                assert(v@.subrange(i as int, end as int) =~= tail);
                assert(v@.skip(end as int) =~= Seq::<char>::empty());
            } else {
                assert(v@.subrange(i as int, end as int) =~= tail.take(width as int));
                assert(tail.skip(width as int) =~= v@.skip(end as int));
            }
            assert(Seq::new(out@.len(), |k: int| out@[k]@) =~= before.push(
                v@.subrange(i as int, end as int),
            ));
            assert(before.push(v@.subrange(i as int, end as int)) + chunks(
                v@.skip(end as int),
                width as nat,
            ) =~= before + chunks(tail, width as nat));
        }
        i = end;
    }
    assert(v@.skip(i as int) =~= Seq::<char>::empty());
    assert(Seq::new(out@.len(), |k: int| out@[k]@) + Seq::<Seq<char>>::empty() =~= Seq::new(
        out@.len(),
        |k: int| out@[k]@,
    ));
    assert(v@.skip(0) =~= v@);
    out
}

pub open spec fn catalog_tab_label(t: CatalogTarget) -> Seq<char> {
    match t {
        CatalogTarget::Extension => "Extensions"@,
        CatalogTarget::Preset => "Presets"@,
        CatalogTarget::Integration => "Integrations"@,
        CatalogTarget::Workflow => "Workflows"@,
    }
}

/// Title of a catalog kind's tab.
pub fn tab_label(target: CatalogTarget) -> (r: &'static str)
    ensures
        r@ == catalog_tab_label(target),
{
    match target {
        CatalogTarget::Extension => "Extensions",
        CatalogTarget::Preset => "Presets",
        CatalogTarget::Integration => "Integrations",
        CatalogTarget::Workflow => "Workflows",
    }
}

pub open spec fn pane_min_width(kind: PaneKind) -> u16 {
    match kind {
        PaneKind::FeatureList => 24,
        PaneKind::SpecBrowser | PaneKind::Constitution => 28,
        PaneKind::ExtensionsPresets => 26,
        _ => 20,
    }
}

/// Fewest columns a pane needs.
pub fn min_width(kind: PaneKind) -> (r: u16)
    ensures
        r == pane_min_width(kind),
{
    match kind {
        PaneKind::FeatureList => 24,
        PaneKind::SpecBrowser | PaneKind::Constitution => 28,
        PaneKind::ExtensionsPresets => 26,
        _ => 20,
    }
}

/// A stored size of zero means "not dragged yet": use the default.
pub fn stored_or_default(stored: u16, default: u16) -> (r: u16)
    ensures
        r == (if stored == 0 { default } else { stored }),
{
    if stored == 0 {
        default
    } else {
        stored
    }
}

/// The share, in hundredths of a percent, that `default_length` cells take of
/// `total` (at most the whole).
pub open spec fn length_share(default_length: nat, total: nat) -> nat {
    let t = if total == 0 { 1 } else { total };
    let q = default_length * 10_000 / t;
    if q < 10_000 { q } else { 10_000 }
}

/// A divider position in hundredths of a percent: the stored one once dragged,
/// else the legacy default length converted to a share of the total.
pub fn stored_or_length(stored: u16, default_length: u16, total: u16) -> (r: u16)
    ensures
        r == (if stored == 0 || total == 0 {
            length_share(default_length as nat, total as nat) as u16
        } else {
            stored
        }),
{
    if stored == 0 || total == 0 {
        let t: u32 = if total == 0 { 1 } else { total as u32 };
        assert(default_length as u32 * 10_000 <= 65535 * 10_000) by (nonlinear_arith)
            requires default_length <= 65535;
        let q: u32 = (default_length as u32) * 10_000 / t;
        let share = if q < 10_000 { q } else { 10_000 };
        share as u16
    } else {
        stored
    }
}

/// Length of the first part when `total` cells are split at `percent`
/// hundredths of a percent, keeping `min_before` cells before and `min_after`
/// after whenever they fit (the latter winning).
pub open spec fn split_at(total: nat, percent: nat, min_before: nat, min_after: nat) -> nat {
    let upper: nat = if total >= min_after { (total - min_after) as nat } else { 0 };
    let lower = min_nat(min_before, upper);
    let p = min_nat(percent, 10_000);
    let raw = total * p / 10_000;
    if raw < lower { lower } else if raw > upper { upper } else { raw }
}

pub fn split_length(total: u16, percent: u16, min_before: u16, min_after: u16) -> (r: u16)
    ensures
        r as nat == split_at(total as nat, percent as nat, min_before as nat, min_after as nat),
{
    let upper: u16 = if total >= min_after { total - min_after } else { 0 };
    let lower: u16 = if min_before < upper { min_before } else { upper };
    let p: u32 = if percent < 10_000 { percent as u32 } else { 10_000 };
    assert(total as u32 * p <= 65535 * 10_000) by (nonlinear_arith)
        requires total <= 65535, p <= 10_000;
    let raw32: u32 = (total as u32) * p / 10_000;
    assert(raw32 <= total) by (nonlinear_arith)
        requires raw32 == (total as u32) * p / 10_000, p <= 10_000;
    let raw: u16 = raw32 as u16;
    if raw < lower {
        lower
    } else if raw > upper {
        upper
    } else {
        raw
    }
}

/// The split keeps both minimums whenever the total leaves room for them.
pub proof fn law_split_honors_minimums(total: nat, percent: nat, min_before: nat, min_after: nat)
    requires
        min_before + min_after <= total,
    ensures
        min_before <= split_at(total, percent, min_before, min_after),
        split_at(total, percent, min_before, min_after) + min_after <= total,
{
}

pub open spec fn stage_note_text(stage: WorkflowStage) -> Seq<char> {
    match stage {
        WorkflowStage::NotStarted => "constitution pending"@,
        WorkflowStage::Specified => "spec written, needs clarification"@,
        WorkflowStage::Clarified => "clarified, ready to plan"@,
        WorkflowStage::Planned => "plan ready, generate tasks"@,
        WorkflowStage::TasksGenerated => "tasks generated, run analysis"@,
        WorkflowStage::Analyzed => "analyzed, ready to implement"@,
        WorkflowStage::Implementing => "implementation in progress"@,
        WorkflowStage::Implemented => "implemented"@,
        WorkflowStage::Unknown => "unrecognized artifact format"@,
    }
}

/// One-line explanation of a stage in the features popup.
pub fn stage_note(stage: WorkflowStage) -> (r: &'static str)
    ensures
        r@ == stage_note_text(stage),
{
    match stage {
        WorkflowStage::NotStarted => "constitution pending",
        WorkflowStage::Specified => "spec written, needs clarification",
        WorkflowStage::Clarified => "clarified, ready to plan",
        WorkflowStage::Planned => "plan ready, generate tasks",
        WorkflowStage::TasksGenerated => "tasks generated, run analysis",
        WorkflowStage::Analyzed => "analyzed, ready to implement",
        WorkflowStage::Implementing => "implementation in progress",
        WorkflowStage::Implemented => "implemented",
        WorkflowStage::Unknown => "unrecognized artifact format",
    }
}

pub open spec fn stage_verb_text(stage: WorkflowStage) -> Seq<char> {
    match stage {
        WorkflowStage::NotStarted => "constitution"@,
        WorkflowStage::Specified => "specify"@,
        WorkflowStage::Clarified => "clarify"@,
        WorkflowStage::Planned => "plan"@,
        WorkflowStage::TasksGenerated => "tasks"@,
        WorkflowStage::Analyzed => "analyze"@,
        WorkflowStage::Implementing => "implement"@,
        WorkflowStage::Implemented => "implement"@,
        WorkflowStage::Unknown => "unknown"@,
    }
}

/// The Spec-Kit command a stage corresponds to.
pub fn stage_verb(stage: WorkflowStage) -> (r: &'static str)
    ensures
        r@ == stage_verb_text(stage),
{
    match stage {
        WorkflowStage::NotStarted => "constitution",
        WorkflowStage::Specified => "specify",
        WorkflowStage::Clarified => "clarify",
        WorkflowStage::Planned => "plan",
        WorkflowStage::TasksGenerated => "tasks",
        WorkflowStage::Analyzed => "analyze",
        WorkflowStage::Implementing => "implement",
        WorkflowStage::Implemented => "implement",
        WorkflowStage::Unknown => "unknown",
    }
}

pub open spec fn stage_summary(stage: WorkflowStage) -> Seq<char> {
    match stage {
        WorkflowStage::NotStarted => "not started"@,
        WorkflowStage::Specified => "spec drafted · needs /clarify"@,
        WorkflowStage::Clarified => "clarified"@,
        WorkflowStage::Planned => "plan.md ready · awaiting /tasks"@,
        WorkflowStage::TasksGenerated => "tasks generated"@,
        WorkflowStage::Analyzed => "analysis report clean"@,
        WorkflowStage::Implementing => "in progress"@,
        WorkflowStage::Implemented => "complete"@,
        WorkflowStage::Unknown => "unrecognized artifact format"@,
    }
}

/// The note under a feature in the list: its task counts when its tasks file
/// has checklist items, else a summary of its stage.
pub open spec fn feature_note_text(progress: Option<(usize, usize)>, stage: WorkflowStage) -> Seq<char> {
    match progress {
        Some((done, total)) => "tasks "@ + decimal(done as nat) + "/"@ + decimal(total as nat)
            + " complete"@,
        None => stage_summary(stage),
    }
}

pub fn feature_note(progress: Option<(usize, usize)>, stage: WorkflowStage) -> (r: String)
    ensures
        r@ == feature_note_text(progress, stage),
{
    match progress {
        Some((done, total)) => {
            let mut s = "tasks ".to_owned();
            let d = decimal_usize(done);
            s.append(d.as_str());
            s.append("/");
            let t = decimal_usize(total);
            s.append(t.as_str());
            s.append(" complete");
            s
        },
        None => {
            let t = match stage {
                WorkflowStage::NotStarted => "not started",
                WorkflowStage::Specified => "spec drafted · needs /clarify",
                WorkflowStage::Clarified => "clarified",
                WorkflowStage::Planned => "plan.md ready · awaiting /tasks",
                WorkflowStage::TasksGenerated => "tasks generated",
                WorkflowStage::Analyzed => "analysis report clean",
                WorkflowStage::Implementing => "in progress",
                WorkflowStage::Implemented => "complete",
                WorkflowStage::Unknown => "unrecognized artifact format",
            };
            t.to_owned()
        },
    }
}

/// Bytes a character takes in UTF-8.
pub open spec fn utf8_width(c: char) -> nat {
    let n = c as u32;
    if n < 0x80 {
        1
    } else if n < 0x800 {
        2
    } else if n < 0x10000 {
        3
    } else {
        4
    }
}

pub open spec fn utf8_len(s: Seq<char>) -> nat
    decreases s.len(),
{
    if s.len() == 0 {
        0
    } else {
        utf8_len(s.drop_last()) + utf8_width(s.last())
    }
}

/// A task line's leading `T<digits>` id (at most five bytes, ended by a space
/// or tab) and the rest of the line starting at that blank; no id and the
/// whole (left-trimmed) text otherwise.
pub open spec fn task_id_split(s: Seq<char>) -> (Seq<char>, Seq<char>) {
    let t = crate::text::trim_start(s);
    let blank = blank_index(t);
    if blank is Some && starts_with_t(t.take(blank->0)) && utf8_len(t.take(blank->0)) <= 5 {
        (t.take(blank->0), t.skip(blank->0))
    } else {
        (Seq::empty(), t)
    }
}

pub open spec fn starts_with_t(s: Seq<char>) -> bool {
    s.len() > 0 && s[0] == 'T'
}

/// Index of the first space or tab.
pub open spec fn blank_index(s: Seq<char>) -> Option<int>
    decreases s.len(),
{
    if s.len() == 0 {
        None
    } else {
        match blank_index(s.drop_last()) {
            Some(i) => Some(i),
            None => if s.last() == ' ' || s.last() == '\t' { Some(s.len() - 1) } else { None },
        }
    }
}

proof fn lemma_blank_index_prefix(s: Seq<char>, n: int)
    requires
        0 <= n <= s.len(),
        blank_index(s.take(n)) is Some,
    ensures
        blank_index(s) == blank_index(s.take(n)),
    decreases s.len() - n,
{
    if n < s.len() {
        assert(s.take(n + 1).drop_last() =~= s.take(n));
        lemma_blank_index_prefix(s, n + 1);
    } else {
        assert(s.take(n) =~= s);
    }
}

fn utf8_len_of(v: &Vec<char>, lo: usize, hi: usize) -> (r: usize)
    requires
        lo <= hi <= v@.len(),
    ensures
        r as nat == utf8_len(v@.subrange(lo as int, hi as int)) || (r == 6 && utf8_len(
            v@.subrange(lo as int, hi as int),
        ) > 5),
{
    // Counts up to six bytes: enough to tell whether the id fits in five.
    let mut n: usize = 0;
    let mut i = lo;
    while i < hi
        invariant
            lo <= i <= hi <= v@.len(),
            n as nat == utf8_len(v@.subrange(lo as int, i as int)),
            n <= 5,
        decreases hi - i,
    {
        let c = v[i] as u32;
        let w: usize = if c < 0x80 {
            1
        } else if c < 0x800 {
            2
        } else if c < 0x10000 {
            3
        } else {
            4
        };
        assert(v@.subrange(lo as int, i + 1).drop_last() =~= v@.subrange(lo as int, i as int));
        if n + w > 5 {
            proof {
                lemma_utf8_len_mono(v@, lo as int, i + 1, hi as int);
            }
            return 6;
        }
        n = n + w;
        i = i + 1;
    }
    n
}

proof fn lemma_utf8_len_mono(v: Seq<char>, lo: int, m: int, hi: int)
    requires
        0 <= lo <= m <= hi <= v.len(),
    ensures
        utf8_len(v.subrange(lo, m)) <= utf8_len(v.subrange(lo, hi)),
    decreases hi - m,
{
    if m < hi {
        lemma_utf8_len_mono(v, lo, m, hi - 1);
        assert(v.subrange(lo, hi).drop_last() =~= v.subrange(lo, hi - 1));
    }
}

/// Splits a checklist item's text into its task id and description.
pub fn split_task_id(s: &str) -> (r: (String, String))
    ensures
        (r.0@, r.1@) == task_id_split(s@),
{
    let v = chars_of(s);
    let (a, _b) = crate::text::trim_range(&v, 0, v.len());
    assert(v@.subrange(0, v@.len() as int) =~= v@);
    let ghost t = v@.subrange(a as int, v@.len() as int);
    assert(t == crate::text::trim_start(s@));
    let mut i = a;
    while i < v.len()
        invariant
            a <= i <= v@.len(),
            t == v@.subrange(a as int, v@.len() as int),
            t == crate::text::trim_start(s@),
            blank_index(t.take(i - a)) is None,
        decreases v@.len() - i,
    {
        assert(t.take(i - a + 1).drop_last() =~= t.take(i - a));
        assert(t.take(i - a + 1).last() == v@[i as int]);
        if v[i] == ' ' || v[i] == '\t' {
            proof {
                assert(blank_index(t.take(i - a + 1)) == Some(i - a));
                lemma_blank_index_prefix(t, i - a + 1);
                assert(t.take(i - a) =~= v@.subrange(a as int, i as int));
                assert(t.skip(i - a) =~= v@.subrange(i as int, v@.len() as int));
                assert(t == crate::text::trim_start(s@));
            }
            let is_t = i > a && v[a] == 'T';
            proof {
                if i > a {
                    assert(t.take(i - a)[0] == v@[a as int]);
                }
            }
            let len = utf8_len_of(&v, a, i);
            proof {
                let ghost id = t.take(i - a);
                assert(blank_index(t) == Some(i - a));
                assert(starts_with_t(id) == is_t);
                assert((len <= 5) == (utf8_len(id) <= 5));
            }
            if is_t && len <= 5 {
                return (string_of_range(&v, a, i), string_of_range(&v, i, v.len()));
            }
            return (String::new(), string_of_range(&v, a, v.len()));
        }
        i = i + 1;
    }
    assert(t.take(i - a) =~= t);
    (String::new(), string_of_range(&v, a, v.len()))
}

/// A screen rectangle in cells.
#[derive(Debug, Clone, Copy, PartialEq, Eq, Structural)]
pub struct Region {
    pub x: u16,
    pub y: u16,
    pub width: u16,
    pub height: u16,
}

pub open spec fn covers(r: Region, col: u16, row: u16) -> bool {
    r.x <= col < r.x + r.width && r.y <= row < r.y + r.height
}

} // verus!
