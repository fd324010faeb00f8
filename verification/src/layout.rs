//! Pane layout of the custom dashboard: which panes show, in what order, and
//! how tall each one is.
use vstd::prelude::*;

verus! {

#[derive(Debug, Clone, Copy, PartialEq, Eq, Structural)]
pub enum PaneKind {
    FeatureList,
    SpecBrowser,
    Constitution,
    ExtensionsPresets,
    WorkflowTimeline,
    AgentOutput,
    CliOutputLog,
}

pub open spec fn pane_label(k: PaneKind) -> Seq<char> {
    match k {
        PaneKind::FeatureList => "Features"@,
        PaneKind::SpecBrowser => "Spec Browser"@,
        PaneKind::Constitution => "Constitution"@,
        PaneKind::ExtensionsPresets => "Extensions"@,
        PaneKind::WorkflowTimeline => "Workflow"@,
        PaneKind::AgentOutput => "Agent Output"@,
        PaneKind::CliOutputLog => "CLI Output"@,
    }
}

pub open spec fn pane_min_height(k: PaneKind) -> u16 {
    match k {
        PaneKind::WorkflowTimeline => 11,
        PaneKind::AgentOutput => 8,
        _ => 7,
    }
}

impl PaneKind {
    /// Title shown on the pane's border.
    pub fn label(&self) -> (r: &'static str)
        ensures
            r@ == pane_label(*self),
    {
        match self {
            PaneKind::FeatureList => "Features",
            PaneKind::SpecBrowser => "Spec Browser",
            PaneKind::Constitution => "Constitution",
            PaneKind::ExtensionsPresets => "Extensions",
            PaneKind::WorkflowTimeline => "Workflow",
            PaneKind::AgentOutput => "Agent Output",
            PaneKind::CliOutputLog => "CLI Output",
        }
    }

    /// Fewest rows the pane needs to render its content.
    pub fn min_height(&self) -> (r: u16)
        ensures
            r == pane_min_height(*self),
    {
        match self {
            PaneKind::WorkflowTimeline => 11,
            PaneKind::AgentOutput => 8,
            _ => 7,
        }
    }
}

#[derive(Debug, Clone, Copy, PartialEq, Eq, Structural)]
pub struct PaneConfig {
    pub kind: PaneKind,
    pub visible: bool,
    pub order: u8,
    pub size: u8,
}

impl PaneConfig {
    /// A visible pane of the default size 2 at position `order`.
    pub fn new(kind: PaneKind, order: u8) -> (r: Self)
        ensures
            r == (PaneConfig { kind, visible: true, order, size: 2 }),
    {
        PaneConfig { kind, visible: true, order, size: 2 }
    }
}

#[derive(Debug)]
pub struct CustomLayout {
    pub panes: Vec<PaneConfig>,
}

impl Clone for CustomLayout {
    fn clone(&self) -> (r: Self)
        ensures
            r.panes@ == self.panes@,
    {
        let panes = self.panes.clone();
        assert(panes@ =~= self.panes@);
        CustomLayout { panes }
    }
}

/// The editor's initial layout: five visible panes, then the extensions and
/// CLI-output panes hidden.
pub open spec fn default_panes() -> Seq<PaneConfig> {
    seq![
        PaneConfig { kind: PaneKind::FeatureList, visible: true, order: 0, size: 2 },
        PaneConfig { kind: PaneKind::WorkflowTimeline, visible: true, order: 1, size: 2 },
        PaneConfig { kind: PaneKind::AgentOutput, visible: true, order: 2, size: 2 },
        PaneConfig { kind: PaneKind::SpecBrowser, visible: true, order: 3, size: 2 },
        PaneConfig { kind: PaneKind::Constitution, visible: true, order: 4, size: 2 },
        PaneConfig { kind: PaneKind::ExtensionsPresets, visible: false, order: 5, size: 2 },
        PaneConfig { kind: PaneKind::CliOutputLog, visible: false, order: 6, size: 1 },
    ]
}

impl Default for CustomLayout {
    fn default() -> (r: Self)
        ensures
            r.panes@ == default_panes(),
    {
        let mut panes: Vec<PaneConfig> = Vec::new();
        panes.push(PaneConfig::new(PaneKind::FeatureList, 0));
        panes.push(PaneConfig::new(PaneKind::WorkflowTimeline, 1));
        panes.push(PaneConfig::new(PaneKind::AgentOutput, 2));
        panes.push(PaneConfig::new(PaneKind::SpecBrowser, 3));
        panes.push(PaneConfig::new(PaneKind::Constitution, 4));
        panes.push(PaneConfig { kind: PaneKind::ExtensionsPresets, visible: false, order: 5, size: 2 });
        panes.push(PaneConfig { kind: PaneKind::CliOutputLog, visible: false, order: 6, size: 1 });
        assert(panes@ =~= default_panes());
        CustomLayout { panes }
    }
}

/// Visible panes whose order is `o`, in array order.
pub open spec fn visible_with_order(s: Seq<PaneConfig>, o: int) -> Seq<PaneConfig> {
    s.filter(|p: PaneConfig| p.visible && p.order == o)
}

/// The visible panes sorted by `order`, ties kept in array order: the
/// buckets for orders `from, from + 1, ..., 255` one after another.
pub open spec fn sorted_visible_from(s: Seq<PaneConfig>, from: int) -> Seq<PaneConfig>
    decreases 256 - from,
{
    if from >= 256 || from < 0 {
        Seq::empty()
    } else {
        visible_with_order(s, from) + sorted_visible_from(s, from + 1)
    }
}

/// `CustomLayout::visible_panes`: the visible panes stably sorted by order.
pub open spec fn sorted_visible(s: Seq<PaneConfig>) -> Seq<PaneConfig> {
    sorted_visible_from(s, 0)
}

/// Index of the first pane of kind `k`.
pub open spec fn find_kind(s: Seq<PaneConfig>, k: PaneKind) -> Option<int>
    decreases s.len(),
{
    if s.len() == 0 {
        None
    } else {
        match find_kind(s.drop_last(), k) {
            Some(i) => Some(i),
            None => if s.last().kind == k { Some(s.len() - 1) } else { None },
        }
    }
}

/// Indices of the visible panes, in array order.
pub open spec fn visible_indices(s: Seq<PaneConfig>) -> Seq<int>
    decreases s.len(),
{
    if s.len() == 0 {
        Seq::empty()
    } else if s.last().visible {
        visible_indices(s.drop_last()).push(s.len() - 1)
    } else {
        visible_indices(s.drop_last())
    }
}

/// `toggle_visibility`: flips the first pane of kind `k`, if any.
pub open spec fn toggled(s: Seq<PaneConfig>, k: PaneKind) -> Seq<PaneConfig> {
    match find_kind(s, k) {
        Some(i) => s.update(i, PaneConfig { visible: !s[i].visible, ..s[i] }),
        None => s,
    }
}

pub open spec fn clamp_int(x: int, lo: int, hi: int) -> int {
    if x < lo { lo } else if x > hi { hi } else { x }
}

/// `swap_order`: pane `idx`, if visible, trades its order with the visible
/// pane `direction` places away among the visible panes (clamped to the ends).
pub open spec fn swapped(s: Seq<PaneConfig>, idx: int, direction: int) -> Seq<PaneConfig> {
    if 0 <= idx < s.len() && s[idx].visible {
        let vis = visible_indices(s);
        let pos = visible_indices(s.take(idx)).len() as int;
        let np = clamp_int(pos + direction, 0, vis.len() - 1);
        if np != pos {
            let b = vis[np];
            s.update(idx, PaneConfig { order: s[b].order, ..s[idx] }).update(
                b,
                PaneConfig { order: s[idx].order, ..s[b] },
            )
        } else {
            s
        }
    } else {
        s
    }
}

/// A `u8` reinterpreted as an `i8` (what `as i8` gives).
pub open spec fn as_i8(x: u8) -> int {
    if x < 128 { x as int } else { x as int - 256 }
}

/// `resize_pane` does not overflow the `i8` sum it computes.
pub open spec fn resize_in_range(s: Seq<PaneConfig>, k: PaneKind, delta: i8) -> bool {
    match find_kind(s, k) {
        Some(i) => -128 <= as_i8(s[i].size) + delta <= 127,
        None => true,
    }
}

/// `resize_pane`: the first pane of kind `k` gets size `size + delta` clamped
/// to `[1, 4]`.
pub open spec fn resized(s: Seq<PaneConfig>, k: PaneKind, delta: i8) -> Seq<PaneConfig> {
    match find_kind(s, k) {
        Some(i) => s.update(
            i,
            PaneConfig { size: clamp_int(as_i8(s[i].size) + delta, 1, 4) as u8, ..s[i] },
        ),
        None => s,
    }
}

pub proof fn lemma_find_kind(s: Seq<PaneConfig>, k: PaneKind)
    ensures
        find_kind(s, k) is None <==> (forall|j: int| 0 <= j < s.len() ==> s[j].kind != k),
        find_kind(s, k) matches Some(i) ==> 0 <= i < s.len() && s[i].kind == k && (forall|j: int|
            0 <= j < i ==> s[j].kind != k),
    decreases s.len(),
{
    if s.len() > 0 {
        let t = s.drop_last();
        lemma_find_kind(t, k);
        assert forall|j: int| 0 <= j < t.len() implies t[j] == s[j] by {}
    }
}

pub proof fn lemma_visible_indices(s: Seq<PaneConfig>)
    ensures
        forall|j: int|
            0 <= j < visible_indices(s).len() ==> 0 <= #[trigger] visible_indices(s)[j] < s.len()
                && s[visible_indices(s)[j]].visible,
        forall|a: int, b: int|
            0 <= a < b < visible_indices(s).len() ==> #[trigger] visible_indices(s)[a]
                < #[trigger] visible_indices(s)[b],
    decreases s.len(),
{
    if s.len() > 0 {
        lemma_visible_indices(s.drop_last());
    }
}

/// Index of the first pane of kind `k`.
fn find_kind_index(panes: &Vec<PaneConfig>, k: PaneKind) -> (r: Option<usize>)
    ensures
        r matches Some(i) ==> find_kind(panes@, k) == Some(i as int),
        r is None ==> find_kind(panes@, k) is None,
        r matches Some(i) ==> i < panes@.len() && panes@[i as int].kind == k,
{
    proof {
        lemma_find_kind(panes@, k);
    }
    let mut i: usize = 0;
    while i < panes.len()
        invariant
            i <= panes@.len(),
            find_kind(panes@.take(i as int), k) is None,
        decreases panes@.len() - i,
    {
        assert(panes@.take(i + 1).drop_last() =~= panes@.take(i as int));
        if panes[i].kind == k {
            proof {
                lemma_find_kind_prefix(panes@, i + 1, k);
            }
            return Some(i);
        }
        i = i + 1;
    }
    assert(panes@.take(i as int) =~= panes@);
    None
}

/// Whether `resize_pane(k, delta)` keeps its `i8` sum in range.
pub fn resize_fits(panes: &Vec<PaneConfig>, k: PaneKind, delta: i8) -> (r: bool)
    ensures
        r == resize_in_range(panes@, k, delta),
{
    match find_kind_index(panes, k) {
        Some(i) => {
            let z = panes[i].size;
            let cur: i16 = if z < 128 { z as i16 } else { z as i16 - 256 };
            let sum: i16 = cur + delta as i16;
            -128 <= sum && sum <= 127
        },
        None => true,
    }
}

pub proof fn lemma_find_kind_prefix(s: Seq<PaneConfig>, n: int, k: PaneKind)
    requires
        0 <= n <= s.len(),
        find_kind(s.take(n), k) is Some,
    ensures
        find_kind(s, k) == find_kind(s.take(n), k),
    decreases s.len() - n,
{
    if n < s.len() {
        assert(s.take(n + 1).drop_last() =~= s.take(n));
        lemma_find_kind_prefix(s, n + 1, k);
    } else {
        assert(s.take(n) =~= s);
    }
}

impl CustomLayout {
    /// The visible panes in display order: sorted by `order`, ties in array
    /// order.
    pub fn visible_panes(&self) -> (r: Vec<PaneConfig>)
        ensures
            r@ == sorted_visible(self.panes@),
    {
        let mut out: Vec<PaneConfig> = Vec::new();
        let mut o: u32 = 0;
        while o < 256
            invariant
                o <= 256,
                out@ + sorted_visible_from(self.panes@, o as int) == sorted_visible(self.panes@),
            decreases 256 - o,
        {
            let mut b = self.bucket(o as u8);
            let ghost prev = out@;
            let ghost bv = b@;
            out.append(&mut b);
            assert(prev + sorted_visible_from(self.panes@, o as int) == prev + (bv
                + sorted_visible_from(self.panes@, o + 1)));
            assert(prev + (bv + sorted_visible_from(self.panes@, o + 1)) =~= (prev + bv)
                + sorted_visible_from(self.panes@, o + 1));
            o = o + 1;
        }
        assert(sorted_visible_from(self.panes@, 256) =~= Seq::<PaneConfig>::empty());
        assert(out@ + Seq::<PaneConfig>::empty() =~= out@);
        out
    }

    /// Visible panes with order `o`, in array order.
    fn bucket(&self, o: u8) -> (r: Vec<PaneConfig>)
        ensures
            r@ == visible_with_order(self.panes@, o as int),
    {
        let mut r: Vec<PaneConfig> = Vec::new();
        let ghost pred = |p: PaneConfig| p.visible && p.order == o;
        let mut i: usize = 0;
        while i < self.panes.len()
            invariant
                i <= self.panes@.len(),
                r@ == self.panes@.take(i as int).filter(pred),
                pred == (|p: PaneConfig| p.visible && p.order == o),
            decreases self.panes@.len() - i,
        {
            let p = self.panes[i];
            assert(self.panes@.take(i + 1).drop_last() =~= self.panes@.take(i as int));
            reveal_with_fuel(Seq::filter, 1);
            if p.visible && p.order == o {
                r.push(p);
            }
            i = i + 1;
        }
        assert(self.panes@.take(i as int) =~= self.panes@);
        r
    }

    /// Shows a hidden pane or hides a shown one (the first of that kind).
    pub fn toggle_visibility(&mut self, kind: PaneKind)
        ensures
            final(self).panes@ == toggled(old(self).panes@, kind),
    {
        match find_kind_index(&self.panes, kind) {
            Some(i) => {
                let p = self.panes[i];
                self.panes.set(i, PaneConfig { visible: !p.visible, ..p });
            },
            None => {},
        }
    }

    /// Moves the visible pane at array index `idx` `direction` places among the
    /// visible panes by exchanging its order with the pane it lands on.
    pub fn swap_order(&mut self, idx: usize, direction: i8)
        ensures
            final(self).panes@ == swapped(old(self).panes@, idx as int, direction as int),
    {
        let ghost s = self.panes@;
        let mut visible: Vec<usize> = Vec::new();
        let mut pos: Option<usize> = None;
        let mut i: usize = 0;
        while i < self.panes.len()
            invariant
                i <= self.panes@.len(),
                self.panes@ == s,
                visible@.len() == visible_indices(s.take(i as int)).len(),
                forall|j: int|
                    0 <= j < visible@.len() ==> visible@[j] as int == #[trigger] visible_indices(
                        s.take(i as int),
                    )[j],
                pos is Some <==> (idx < i && s[idx as int].visible),
                pos matches Some(p) ==> p == visible_indices(s.take(idx as int)).len(),
            decreases s.len() - i,
        {
            assert(s.take(i + 1).drop_last() =~= s.take(i as int));
            if self.panes[i].visible {
                if i == idx {
                    pos = Some(visible.len());
                }
                visible.push(i);
            }
            i = i + 1;
        }
        assert(s.take(i as int) =~= s);
        match pos {
            Some(p) => {
                let n = visible.len();
                proof {
                    lemma_visible_indices(s);
                    lemma_visible_indices_prefix(s, idx as int);
                }
                let np: usize = if direction < 0 {
                    let d: usize = (0 - (direction as i16)) as usize;
                    if d > p { 0 } else { p - d }
                } else {
                    let d: usize = direction as usize;
                    if d >= n - 1 - p { n - 1 } else { p + d }
                };
                assert(np as int == clamp_int(p + direction, 0, n - 1));
                assert(visible@[p as int] as int == visible_indices(s)[p as int]);
                assert(visible@[np as int] as int == visible_indices(s)[np as int]);
                if np != p {
                    let a = visible[p];
                    let b = visible[np];
                    let ord_a = self.panes[a].order;
                    let ord_b = self.panes[b].order;
                    let pa = self.panes[a];
                    self.panes.set(a, PaneConfig { order: ord_b, ..pa });
                    let pb = self.panes[b];
                    self.panes.set(b, PaneConfig { order: ord_a, ..pb });
                }
            },
            None => {},
        }
    }

    /// Grows or shrinks the first pane of kind `kind` by `delta`, keeping its
    /// size within `[1, 4]`.
    pub fn resize_pane(&mut self, kind: PaneKind, delta: i8)
        requires
            resize_in_range(old(self).panes@, kind, delta),
        ensures
            final(self).panes@ == resized(old(self).panes@, kind, delta),
    {
        match find_kind_index(&self.panes, kind) {
            Some(i) => {
                let p = self.panes[i];
                let cur: i16 = if p.size < 128 { p.size as i16 } else { p.size as i16 - 256 };
                let sum: i16 = cur + delta as i16;
                let size: u8 = if sum < 1 { 1 } else if sum > 4 { 4 } else { sum as u8 };
                self.panes.set(i, PaneConfig { size, ..p });
            },
            None => {},
        }
    }
}

pub proof fn lemma_visible_indices_prefix(s: Seq<PaneConfig>, idx: int)
    requires
        0 <= idx < s.len(),
        s[idx].visible,
    ensures
        visible_indices(s.take(idx)).len() < visible_indices(s).len(),
        visible_indices(s)[visible_indices(s.take(idx)).len() as int] == idx,
    decreases s.len(),
{
    let t = s.drop_last();
    if idx == s.len() - 1 {
        assert(s.take(idx) =~= t);
    } else {
        assert(t.take(idx) =~= s.take(idx));
        lemma_visible_indices_prefix(t, idx);
    }
}

/// Toggling the same pane twice gives back the layout it started from.
pub proof fn law_toggle_twice(s: Seq<PaneConfig>, k: PaneKind)
    ensures
        toggled(toggled(s, k), k) == s,
{
    lemma_find_kind(s, k);
    let t = toggled(s, k);
    lemma_find_kind(t, k);
    match find_kind(s, k) {
        Some(i) => {
            assert forall|j: int| 0 <= j < t.len() implies #[trigger] t[j].kind == s[j].kind by {}
            assert(find_kind(t, k) == Some(i)) by {
                if find_kind(t, k) != Some(i) {
                    assert(t[i].kind == k);
                }
            }
            assert(toggled(t, k) =~= s);
        },
        None => {
            assert(t == s);
        },
    }
}

/// A resize never leaves a pane outside sizes 1 to 4, and touches nothing but
/// that pane's size.
pub proof fn law_resize_bounds(s: Seq<PaneConfig>, k: PaneKind, delta: i8)
    ensures
        resized(s, k, delta).len() == s.len(),
        find_kind(s, k) matches Some(i) ==> 1 <= resized(s, k, delta)[i].size <= 4,
        forall|j: int|
            0 <= j < s.len() && find_kind(s, k) != Some(j) ==> resized(s, k, delta)[j] == s[j],
{
    lemma_find_kind(s, k);
}

/// Swapping exchanges the orders of at most two visible panes and changes
/// nothing else, so the orders in use stay the same.
pub proof fn law_swap_exchanges(s: Seq<PaneConfig>, idx: int, direction: int)
    ensures
        swapped(s, idx, direction).len() == s.len(),
        swapped(s, idx, direction).to_multiset() == s.to_multiset() || exists|a: int, b: int|
            {
                &&& 0 <= a < s.len()
                &&& 0 <= b < s.len()
                &&& a != b
                &&& s[a].visible
                &&& s[b].visible
                &&& swapped(s, idx, direction) == s.update(
                    a,
                    PaneConfig { order: s[b].order, ..s[a] },
                ).update(b, PaneConfig { order: s[a].order, ..s[b] })
            },
        forall|j: int|
            0 <= j < s.len() ==> (#[trigger] swapped(s, idx, direction)[j]).kind == s[j].kind
                && swapped(s, idx, direction)[j].visible == s[j].visible && swapped(
                s,
                idx,
                direction,
            )[j].size == s[j].size,
{
    if 0 <= idx < s.len() && s[idx].visible {
        lemma_visible_indices(s);
        lemma_visible_indices_prefix(s, idx);
        let vis = visible_indices(s);
        let pos = visible_indices(s.take(idx)).len() as int;
        let np = clamp_int(pos + direction, 0, vis.len() - 1);
        if np != pos {
            let b = vis[np];
            if b == idx {
                assert(vis[pos] == idx);
                if np < pos {
                    assert(vis[np] < vis[pos]);
                } else {
                    assert(vis[pos] < vis[np]);
                }
            }
            assert(s[b].visible);
        }
    }
}

/// Heights the user gave the custom-layout panes by dragging, kept apart
/// from the layout editor's own sizes.
#[derive(Debug, Clone, Copy, PartialEq, Eq, Structural)]
pub struct CustomPaneHeight {
    pub kind: PaneKind,
    pub size: u16,
}

/// Continuous sizes for the fixed dashboard layouts. Zero keeps that layout's
/// historical default until the user drags its divider for the first time.
#[derive(Debug)]
pub struct DashboardSizes {
    pub overview_sidebar: u16,
    pub overview_workflow: u16,
    pub coding_split: u16,
    pub audit_split: u16,
    pub custom_sidebar: u16,
    pub custom_pane_heights: Vec<CustomPaneHeight>,
}

impl Clone for DashboardSizes {
    fn clone(&self) -> (r: Self)
        ensures
            r.custom_pane_heights@ == self.custom_pane_heights@,
            r.overview_sidebar == self.overview_sidebar,
            r.overview_workflow == self.overview_workflow,
            r.coding_split == self.coding_split,
            r.audit_split == self.audit_split,
            r.custom_sidebar == self.custom_sidebar,
    {
        let custom_pane_heights = self.custom_pane_heights.clone();
        assert(custom_pane_heights@ =~= self.custom_pane_heights@);
        DashboardSizes {
            overview_sidebar: self.overview_sidebar,
            overview_workflow: self.overview_workflow,
            coding_split: self.coding_split,
            audit_split: self.audit_split,
            custom_sidebar: self.custom_sidebar,
            custom_pane_heights,
        }
    }
}

impl Default for DashboardSizes {
    fn default() -> (r: Self)
        ensures
            r.overview_sidebar == 0,
            r.overview_workflow == 0,
            r.coding_split == 0,
            r.audit_split == 0,
            r.custom_sidebar == 0,
            r.custom_pane_heights@.len() == 0,
    {
        DashboardSizes {
            overview_sidebar: 0,
            overview_workflow: 0,
            coding_split: 0,
            audit_split: 0,
            custom_sidebar: 0,
            custom_pane_heights: Vec::new(),
        }
    }
}

/// Index of the first dragged height recorded for `k`.
pub open spec fn find_height(s: Seq<CustomPaneHeight>, k: PaneKind) -> Option<int>
    decreases s.len(),
{
    if s.len() == 0 {
        None
    } else {
        match find_height(s.drop_last(), k) {
            Some(i) => Some(i),
            None => if s.last().kind == k { Some(s.len() - 1) } else { None },
        }
    }
}

/// `custom_pane_height`: the dragged height, else the editor's size times 100.
pub open spec fn pane_height(s: Seq<CustomPaneHeight>, k: PaneKind, editor_default: u8) -> u16 {
    match find_height(s, k) {
        Some(i) => s[i].size,
        None => (editor_default * 100) as u16,
    }
}

/// `set_custom_pane_height`: overwrite the entry for `k`, or append one.
pub open spec fn with_height(s: Seq<CustomPaneHeight>, k: PaneKind, size: u16) -> Seq<
    CustomPaneHeight,
> {
    match find_height(s, k) {
        Some(i) => s.update(i, CustomPaneHeight { kind: k, size }),
        None => s.push(CustomPaneHeight { kind: k, size }),
    }
}

pub proof fn lemma_find_height(s: Seq<CustomPaneHeight>, k: PaneKind)
    ensures
        find_height(s, k) is None <==> (forall|j: int| 0 <= j < s.len() ==> s[j].kind != k),
        find_height(s, k) matches Some(i) ==> 0 <= i < s.len() && s[i].kind == k && (forall|
            j: int,
        | 0 <= j < i ==> s[j].kind != k),
    decreases s.len(),
{
    if s.len() > 0 {
        let t = s.drop_last();
        lemma_find_height(t, k);
        assert forall|j: int| 0 <= j < t.len() implies t[j] == s[j] by {}
    }
}

pub proof fn lemma_find_height_prefix(s: Seq<CustomPaneHeight>, n: int, k: PaneKind)
    requires
        0 <= n <= s.len(),
        find_height(s.take(n), k) is Some,
    ensures
        find_height(s, k) == find_height(s.take(n), k),
    decreases s.len() - n,
{
    if n < s.len() {
        assert(s.take(n + 1).drop_last() =~= s.take(n));
        lemma_find_height_prefix(s, n + 1, k);
    } else {
        assert(s.take(n) =~= s);
    }
}

/// The first index with a height for `k`, if any; `find_height(s, k)` is its spec.
pub proof fn lemma_find_height_unique(s: Seq<CustomPaneHeight>, k: PaneKind, i: int)
    requires
        0 <= i < s.len(),
        s[i].kind == k,
        forall|j: int| 0 <= j < i ==> s[j].kind != k,
    ensures
        find_height(s, k) == Some(i),
{
    lemma_find_height(s, k);
    match find_height(s, k) {
        Some(m) => {
            if m < i {
            } else if m > i {
            }
        },
        None => {},
    }
}

fn find_height_index(s: &Vec<CustomPaneHeight>, k: PaneKind) -> (r: Option<usize>)
    ensures
        r matches Some(i) ==> find_height(s@, k) == Some(i as int),
        r is None ==> find_height(s@, k) is None,
        r matches Some(i) ==> i < s@.len() && s@[i as int].kind == k,
{
    proof {
        lemma_find_height(s@, k);
    }
    let mut i: usize = 0;
    while i < s.len()
        invariant
            i <= s@.len(),
            find_height(s@.take(i as int), k) is None,
        decreases s@.len() - i,
    {
        assert(s@.take(i + 1).drop_last() =~= s@.take(i as int));
        if s[i].kind == k {
            proof {
                lemma_find_height_prefix(s@, i + 1, k);
            }
            return Some(i);
        }
        i = i + 1;
    }
    assert(s@.take(i as int) =~= s@);
    None
}

impl DashboardSizes {
    /// Runtime drag sizes deliberately live outside `CustomLayout`: the layout
    /// editor continues to own order, visibility, and its four default sizes.
    pub fn custom_pane_height(&self, kind: PaneKind, editor_default: u8) -> (r: u16)
        ensures
            r == pane_height(self.custom_pane_heights@, kind, editor_default),
    {
        match find_height_index(&self.custom_pane_heights, kind) {
            Some(i) => self.custom_pane_heights[i].size,
            None => editor_default as u16 * 100,
        }
    }

    /// Records a dragged height for `kind`, replacing any earlier one.
    pub fn set_custom_pane_height(&mut self, kind: PaneKind, size: u16)
        ensures
            final(self).custom_pane_heights@ == with_height(
                old(self).custom_pane_heights@,
                kind,
                size,
            ),
            final(self).overview_sidebar == old(self).overview_sidebar,
            final(self).overview_workflow == old(self).overview_workflow,
            final(self).coding_split == old(self).coding_split,
            final(self).audit_split == old(self).audit_split,
            final(self).custom_sidebar == old(self).custom_sidebar,
    {
        match find_height_index(&self.custom_pane_heights, kind) {
            Some(i) => {
                self.custom_pane_heights.set(i, CustomPaneHeight { kind, size });
            },
            None => {
                self.custom_pane_heights.push(CustomPaneHeight { kind, size });
            },
        }
    }
}

/// Reading a pane's height right after setting it gives the value set, and
/// setting one pane's height leaves every other pane's height as it was.
pub proof fn law_height_read_after_write(
    s: Seq<CustomPaneHeight>,
    k: PaneKind,
    size: u16,
    other: PaneKind,
    editor_default: u8,
)
    ensures
        pane_height(with_height(s, k, size), k, editor_default) == size,
        other != k ==> pane_height(with_height(s, k, size), other, editor_default) == pane_height(
            s,
            other,
            editor_default,
        ),
{
    lemma_find_height(s, k);
    lemma_find_height(s, other);
    let t = with_height(s, k, size);
    lemma_find_height(t, k);
    lemma_find_height(t, other);
    match find_height(s, k) {
        Some(i) => {
            lemma_find_height_unique(t, k, i);
            if other != k {
                match find_height(s, other) {
                    Some(m) => {
                        lemma_find_height_unique(t, other, m);
                    },
                    None => {},
                }
            }
        },
        None => {
            lemma_find_height_unique(t, k, s.len() as int);
            if other != k {
                match find_height(s, other) {
                    Some(m) => {
                        lemma_find_height_unique(t, other, m);
                    },
                    None => {
                        assert forall|j: int| 0 <= j < t.len() implies t[j].kind != other by {}
                    },
                }
            }
        },
    }
}

proof fn lemma_visible_gap(s: Seq<PaneConfig>, lo: int, hi: int)
    requires
        0 <= lo <= hi <= s.len(),
        forall|j: int| lo <= j < hi ==> !(#[trigger] s[j]).visible,
    ensures
        visible_indices(s.take(hi)).len() == visible_indices(s.take(lo)).len(),
    decreases hi - lo,
{
    if hi > lo {
        lemma_visible_gap(s, lo, hi - 1);
        assert(s.take(hi).drop_last() =~= s.take(hi - 1));
    }
}

proof fn lemma_visible_step(s: Seq<PaneConfig>, b: int)
    requires
        0 <= b < s.len(),
        s[b].visible,
    ensures
        visible_indices(s.take(b + 1)).len() == visible_indices(s.take(b)).len() + 1,
{
    assert(s.take(b + 1).drop_last() =~= s.take(b));
}

/// Moving a visible pane up (`direction` -1) trades orders with the nearest
/// visible pane before it, and moving it down (+1) with the nearest visible
/// pane after it; nothing else changes.
pub proof fn law_swap_with_neighbour(s: Seq<PaneConfig>, idx: int, b: int)
    requires
        0 <= idx < s.len(),
        0 <= b < s.len(),
        b != idx,
        s[idx].visible,
        s[b].visible,
        forall|j: int| (b < j < idx || idx < j < b) ==> !(#[trigger] s[j]).visible,
    ensures
        swapped(s, idx, if b < idx { -1 } else { 1 }) == s.update(
            idx,
            PaneConfig { order: s[b].order, ..s[idx] },
        ).update(b, PaneConfig { order: s[idx].order, ..s[b] }),
{
    lemma_visible_indices(s);
    lemma_visible_indices_prefix(s, idx);
    lemma_visible_indices_prefix(s, b);
    let pos = visible_indices(s.take(idx)).len() as int;
    if b < idx {
        lemma_visible_step(s, b);
        lemma_visible_gap(s, b + 1, idx);
        assert(pos - 1 == visible_indices(s.take(b)).len());
    } else {
        lemma_visible_step(s, idx);
        lemma_visible_gap(s, idx + 1, b);
        assert(pos + 1 == visible_indices(s.take(b)).len());
    }
}

/// The first visible pane cannot move up, and the last visible one cannot
/// move down: the layout stays as it was.
pub proof fn law_swap_at_ends(s: Seq<PaneConfig>, idx: int)
    requires
        0 <= idx < s.len(),
        s[idx].visible,
    ensures
        (forall|j: int| 0 <= j < idx ==> !(#[trigger] s[j]).visible) ==> swapped(s, idx, -1) == s,
        (forall|j: int| idx < j < s.len() ==> !(#[trigger] s[j]).visible) ==> swapped(s, idx, 1) == s,
{
    lemma_visible_indices(s);
    lemma_visible_indices_prefix(s, idx);
    if forall|j: int| 0 <= j < idx ==> !(#[trigger] s[j]).visible {
        lemma_visible_gap(s, 0, idx);
        assert(s.take(0) =~= Seq::<PaneConfig>::empty());
    }
    if forall|j: int| idx < j < s.len() ==> !(#[trigger] s[j]).visible {
        lemma_visible_step(s, idx);
        lemma_visible_gap(s, idx + 1, s.len() as int);
        assert(s.take(s.len() as int) =~= s);
    }
}

} // verus!
