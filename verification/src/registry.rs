//! Installed and catalog extensions, presets, integrations and workflows, and
//! the parsers for what the `specify` CLI prints about them.
use vstd::prelude::*;
use crate::text::{
    chars_of, contains, contains_range, ends_with, find_char_range, first_index, is_white,
    last_index, last_match, lemma_last_index, line_ranges, lines, rfind_char_range, rfind_str_range,
    parse_u8, parse_u8_range, starts_with, starts_with_range, str_eq, str_lt, string_of_range, trim,
    text_lt, lemma_text_lt_total, lemma_text_lt_trans,
    trim_range, trim_start,
};

verus! {

#[derive(Debug, Clone, Copy, PartialEq, Eq, Structural)]
pub enum InstallStatus {
    Enabled,
    Disabled,
    Available,
}

/// Where an extension came from. `Dev` holds the development path as text.
#[derive(Debug)]
pub enum ExtensionSource {
    Catalog(String),
    Dev(String),
    Url(String),
    Local,
}

impl Clone for ExtensionSource {
    fn clone(&self) -> (r: Self)
        ensures
            r == *self,
    {
        match self {
            ExtensionSource::Catalog(s) => ExtensionSource::Catalog(s.clone()),
            ExtensionSource::Dev(s) => ExtensionSource::Dev(s.clone()),
            ExtensionSource::Url(s) => ExtensionSource::Url(s.clone()),
            ExtensionSource::Local => ExtensionSource::Local,
        }
    }
}

#[derive(Debug)]
pub struct ExtensionInfo {
    pub id: String,
    pub name: String,
    pub version: String,
    pub status: InstallStatus,
    pub priority: Option<u8>,
    pub command_count: u32,
    pub source: ExtensionSource,
    pub author: Option<String>,
    pub description: String,
}

impl Clone for ExtensionInfo {
    fn clone(&self) -> (r: Self)
        ensures
            r == *self,
    {
        ExtensionInfo {
            id: self.id.clone(),
            name: self.name.clone(),
            version: self.version.clone(),
            status: self.status,
            priority: self.priority,
            command_count: self.command_count,
            source: self.source.clone(),
            author: self.author.clone(),
            description: self.description.clone(),
        }
    }
}

#[derive(Debug)]
pub struct PresetInfo {
    pub id: String,
    pub name: String,
    pub version: String,
    pub status: InstallStatus,
    pub priority: Option<u8>,
    pub template_count: u32,
    pub author: Option<String>,
    pub source_label: Option<String>,
    pub description: String,
}

impl Clone for PresetInfo {
    fn clone(&self) -> (r: Self)
        ensures
            r == *self,
    {
        PresetInfo {
            id: self.id.clone(),
            name: self.name.clone(),
            version: self.version.clone(),
            status: self.status,
            priority: self.priority,
            template_count: self.template_count,
            author: self.author.clone(),
            source_label: self.source_label.clone(),
            description: self.description.clone(),
        }
    }
}

#[derive(Debug)]
pub struct IntegrationInfo {
    pub key: String,
    pub name: String,
    pub installed: bool,
    pub is_default: bool,
    pub cli_required: bool,
    pub version: Option<String>,
    pub description: String,
}

impl Clone for IntegrationInfo {
    fn clone(&self) -> (r: Self)
        ensures
            r == *self,
    {
        IntegrationInfo {
            key: self.key.clone(),
            name: self.name.clone(),
            installed: self.installed,
            is_default: self.is_default,
            cli_required: self.cli_required,
            version: self.version.clone(),
            description: self.description.clone(),
        }
    }
}

#[derive(Debug)]
pub struct WorkflowInfo {
    pub id: String,
    pub name: Option<String>,
    pub version: Option<String>,
    pub source: Option<String>,
    pub installed: bool,
    pub description: String,
    pub last_run: Option<String>,
}

impl Clone for WorkflowInfo {
    fn clone(&self) -> (r: Self)
        ensures
            r == *self,
    {
        WorkflowInfo {
            id: self.id.clone(),
            name: self.name.clone(),
            version: self.version.clone(),
            source: self.source.clone(),
            installed: self.installed,
            description: self.description.clone(),
            last_run: self.last_run.clone(),
        }
    }
}

/// Which catalog family to query via `specify <kind> catalog ...`.
#[derive(Debug, Clone, Copy, PartialEq, Eq, Structural)]
pub enum CatalogTarget {
    Extension,
    Preset,
    Integration,
    Workflow,
}

pub open spec fn catalog_noun(t: CatalogTarget) -> Seq<char> {
    match t {
        CatalogTarget::Extension => "extension"@,
        CatalogTarget::Preset => "preset"@,
        CatalogTarget::Integration => "integration"@,
        CatalogTarget::Workflow => "workflow"@,
    }
}

impl CatalogTarget {
    /// The CLI noun for this catalog family.
    pub fn cli(self) -> (r: &'static str)
        ensures
            r@ == catalog_noun(self),
    {
        match self {
            CatalogTarget::Extension => "extension",
            CatalogTarget::Preset => "preset",
            CatalogTarget::Integration => "integration",
            CatalogTarget::Workflow => "workflow",
        }
    }
}

/// One catalog source as `specify <kind> catalog list` reports it.
#[derive(Debug)]
pub struct CatalogSource {
    pub name: String,
    pub url: String,
    pub priority: Option<u8>,
    /// `false` for "discovery only" (community) catalogs.
    pub install_allowed: bool,
}

impl Clone for CatalogSource {
    fn clone(&self) -> (r: Self)
        ensures
            r == *self,
    {
        CatalogSource {
            name: self.name.clone(),
            url: self.url.clone(),
            priority: self.priority,
            install_allowed: self.install_allowed,
        }
    }
}

pub struct SourceView {
    pub name: Seq<char>,
    pub url: Seq<char>,
    pub priority: Option<u8>,
    pub install_allowed: bool,
}

impl View for CatalogSource {
    type V = SourceView;

    open spec fn view(&self) -> SourceView {
        SourceView {
            name: self.name@,
            url: self.url@,
            priority: self.priority,
            install_allowed: self.install_allowed,
        }
    }
}

/// Label shown for a catalog source: the built-in `default` catalog is
/// presented as `official`.
pub open spec fn label_of_catalog(name: Seq<char>) -> Seq<char> {
    if name == "default"@ {
        "official"@
    } else {
        name
    }
}

pub fn catalog_label(name: &str) -> (r: String)
    ensures
        r@ == label_of_catalog(name@),
{
    if str_eq(name, "default") {
        "official".to_owned()
    } else {
        name.to_owned()
    }
}

// ---- `specify <kind> catalog list` ------------------------------------------

/// Parser state while reading the catalog listing line by line.
pub struct UrlScan {
    pub out: Seq<SourceView>,
    pub name: Option<Seq<char>>,
    pub priority: Option<u8>,
    pub ok: bool,
}

/// A policy text allows installing unless it says "discovery only".
pub open spec fn allowed(s: Seq<char>) -> bool {
    !contains(s, "discovery only"@)
}

/// Dialect B header body: after a leading `-`, or after the `]` of a leading
/// `[N]` (nothing when there is no `]`), trimmed.
pub open spec fn dialect_b_body(line: Seq<char>) -> Option<Seq<char>> {
    if starts_with(line, "-"@) {
        Some(trim(line.drop_first()))
    } else if starts_with(line, "["@) {
        match first_index(line, ']') {
            Some(i) => Some(trim(line.skip(i + 1))),
            None => Some(Seq::empty()),
        }
    } else {
        None
    }
}

/// The number in a dialect A `(priority N)`: the text after `priority` up to
/// the closing parenthesis.
pub open spec fn priority_number(tail: Seq<char>) -> Option<u8> {
    let rest = trim_start(tail).skip(8);
    let num = match first_index(rest, ')') {
        Some(j) => rest.take(j),
        None => rest,
    };
    parse_u8(trim(num))
}

/// One step of the catalog-listing parser on a raw line.
pub open spec fn url_step(st: UrlScan, raw: Seq<char>) -> UrlScan {
    let line = trim(raw);
    if line.len() == 0 {
        st
    } else if dialect_b_body(line) is Some && first_index(dialect_b_body(line)->0, '—') is Some {
        // Dialect B header: "- <name> — <policy>" or "[N] <name> — <policy>"
        let r = dialect_b_body(line)->0;
        let i = first_index(r, '—')->0;
        UrlScan { name: Some(trim(r.take(i))), priority: None, ok: allowed(r.skip(i + 1)), ..st }
    } else if first_index(line, '(') is Some && starts_with(
        trim_start(line.skip(first_index(line, '(')->0 + 1)),
        "priority"@,
    ) {
        // Dialect A header: "<name> (priority N)"
        let i = first_index(line, '(')->0;
        UrlScan {
            name: Some(trim(line.take(i))),
            priority: priority_number(line.skip(i + 1)),
            ok: true,
            ..st
        }
    } else if starts_with(line, "Install:"@) {
        // Dialect A policy line, which trails its URL line
        if st.out.len() > 0 {
            UrlScan {
                out: st.out.update(
                    st.out.len() - 1,
                    SourceView { install_allowed: allowed(line.skip(8)), ..st.out.last() },
                ),
                ..st
            }
        } else {
            st
        }
    } else {
        // URL line: dialect A "URL: <url>" or dialect B bare "<url>"
        let url = if starts_with(line, "URL:"@) {
            Some(trim(line.skip(4)))
        } else if starts_with(line, "http"@) {
            Some(line)
        } else {
            None
        };
        if url is Some && url->0.len() > 0 && st.name is Some {
            UrlScan {
                out: st.out.push(
                    SourceView {
                        name: st.name->0,
                        url: url->0,
                        priority: st.priority,
                        install_allowed: st.ok,
                    },
                ),
                ..st
            }
        } else {
            st
        }
    }
}

pub open spec fn url_scan(ls: Seq<Seq<char>>) -> UrlScan
    decreases ls.len(),
{
    if ls.len() == 0 {
        UrlScan { out: Seq::empty(), name: None, priority: None, ok: true }
    } else {
        url_step(url_scan(ls.drop_last()), ls.last())
    }
}

/// The catalog sources listed in the output of `specify <kind> catalog list`.
pub open spec fn catalog_sources_in(output: Seq<char>) -> Seq<SourceView> {
    url_scan(lines(output)).out
}

pub open spec fn views_of(v: Seq<CatalogSource>) -> Seq<SourceView> {
    Seq::new(v.len(), |k: int| v[k]@)
}

proof fn lemma_sub_shift(v: Seq<char>, a: int, b: int, i: int)
    requires
        0 <= a <= a + i <= b <= v.len(),
    ensures
        v.subrange(a, b).skip(i) == v.subrange(a + i, b),
        v.subrange(a, b).take(i) == v.subrange(a, a + i),
{
    assert(v.subrange(a, b).skip(i) =~= v.subrange(a + i, b));
    assert(v.subrange(a, b).take(i) =~= v.subrange(a, a + i));
}

/// Literal patterns the catalog-listing parser looks for.
struct UrlPatterns {
    dash: Vec<char>,
    bracket: Vec<char>,
    prio: Vec<char>,
    install: Vec<char>,
    url_tag: Vec<char>,
    http: Vec<char>,
    disc: Vec<char>,
}

impl UrlPatterns {
    spec fn wf(&self) -> bool {
        &&& self.dash@ == "-"@
        &&& self.bracket@ == "["@
        &&& self.prio@ == "priority"@
        &&& self.install@ == "Install:"@
        &&& self.url_tag@ == "URL:"@
        &&& self.http@ == "http"@
        &&& self.disc@ == "discovery only"@
    }

    fn new() -> (r: Self)
        ensures
            r.wf(),
    {
        UrlPatterns {
            dash: chars_of("-"),
            bracket: chars_of("["),
            prio: chars_of("priority"),
            install: chars_of("Install:"),
            url_tag: chars_of("URL:"),
            http: chars_of("http"),
            disc: chars_of("discovery only"),
        }
    }
}

/// The parser state held by `parse_catalog_urls`.
struct UrlState {
    out: Vec<CatalogSource>,
    name: Option<String>,
    priority: Option<u8>,
    ok: bool,
}

impl UrlState {
    spec fn scan(&self) -> UrlScan {
        UrlScan {
            out: views_of(self.out@),
            name: match self.name {
                Some(n) => Some(n@),
                None => None,
            },
            priority: self.priority,
            ok: self.ok,
        }
    }
}

/// Bounds of the dialect B header body of the line `v[a..b]`.
fn dialect_b_range(v: &Vec<char>, a: usize, b: usize, pats: &UrlPatterns) -> (r: Option<(usize, usize)>)
    requires
        a <= b <= v@.len(),
        pats.wf(),
    ensures
        r matches Some(bd) ==> bd.0 <= bd.1 <= v@.len() && dialect_b_body(v@.subrange(a as int, b as int))
            == Some(v@.subrange(bd.0 as int, bd.1 as int)),
        r is None ==> dialect_b_body(v@.subrange(a as int, b as int)) is None,
{
    let ghost line = v@.subrange(a as int, b as int);
    if starts_with_range(v, a, b, &pats.dash) {
        proof {
            reveal_strlit("-");
            lemma_sub_shift(v@, a as int, b as int, 1);
            assert(line.drop_first() =~= line.skip(1));
        }
        let (c, d) = trim_range(v, a + 1, b);
        Some((c, d))
    } else if starts_with_range(v, a, b, &pats.bracket) {
        match find_char_range(v, a, b, ']') {
            Some(j) => {
                proof {
                    lemma_sub_shift(v@, a as int, b as int, j + 1 - a);
                }
                let (c, d) = trim_range(v, j + 1, b);
                Some((c, d))
            },
            None => {
                assert(v@.subrange(b as int, b as int) =~= Seq::<char>::empty());
                Some((b, b))
            },
        }
    } else {
        None
    }
}

/// One line of the catalog listing.
fn url_line(v: &Vec<char>, lo: usize, hi: usize, pats: &UrlPatterns, st: &mut UrlState)
    requires
        lo <= hi <= v@.len(),
        pats.wf(),
    ensures
        final(st).scan() == url_step(old(st).scan(), v@.subrange(lo as int, hi as int)),
{
    let ghost s0 = st.scan();
    let ghost raw = v@.subrange(lo as int, hi as int);
    let (a, b) = trim_range(v, lo, hi);
    let ghost line = v@.subrange(a as int, b as int);
    if a == b {
        return;
    }
    // Dialect B header
    match dialect_b_range(v, a, b, pats) {
        Some((c, d)) => {
            match find_char_range(v, c, d, '—') {
                Some(i) => {
                    proof {
                        lemma_sub_shift(v@, c as int, d as int, i - c);
                        lemma_sub_shift(v@, c as int, d as int, i + 1 - c);
                    }
                    let (n0, n1) = trim_range(v, c, i);
                    st.name = Some(string_of_range(v, n0, n1));
                    st.priority = None;
                    st.ok = !contains_range(v, i + 1, d, &pats.disc);
                    return;
                },
                None => {},
            }
        },
        None => {},
    }
    // Dialect A header
    match find_char_range(v, a, b, '(') {
        Some(i) => {
            proof {
                lemma_sub_shift(v@, a as int, b as int, i - a);
                lemma_sub_shift(v@, a as int, b as int, i + 1 - a);
            }
            let (t0, t1) = trim_range(v, i + 1, b);
            if starts_with_range(v, t0, b, &pats.prio) {
                let (n0, n1) = trim_range(v, a, i);
                st.name = Some(string_of_range(v, n0, n1));
                st.ok = true;
                st.priority = parse_priority(v, t0, b);
                assert(trim_start(line.skip(i + 1 - a)) == v@.subrange(t0 as int, b as int));
                assert(st.priority == priority_number(line.skip(i + 1 - a)));
                return;
            }
        },
        None => {},
    }
    // Dialect A policy line
    if starts_with_range(v, a, b, &pats.install) {
        proof {
            reveal_strlit("Install:");
            lemma_sub_shift(v@, a as int, b as int, 8);
        }
        let n = st.out.len();
        if n > 0 {
            let allowed_now = !contains_range(v, a + 8, b, &pats.disc);
            let last = st.out.pop().unwrap();
            st.out.push(CatalogSource { install_allowed: allowed_now, ..last });
            assert(views_of(st.out@) =~= url_step(s0, raw).out);
        }
        return;
    }
    // URL line
    let mut url: Option<(usize, usize)> = None;
    if starts_with_range(v, a, b, &pats.url_tag) {
        proof {
            reveal_strlit("URL:");
            lemma_sub_shift(v@, a as int, b as int, 4);
        }
        let (u0, u1) = trim_range(v, a + 4, b);
        url = Some((u0, u1));
    } else if starts_with_range(v, a, b, &pats.http) {
        url = Some((a, b));
    }
    match (url, &st.name) {
        (Some((u0, u1)), Some(n)) => {
            if u0 < u1 {
                let src = CatalogSource {
                    name: n.clone(),
                    url: string_of_range(v, u0, u1),
                    priority: st.priority,
                    install_allowed: st.ok,
                };
                st.out.push(src);
                assert(views_of(st.out@) =~= url_step(s0, raw).out);
            }
        },
        _ => {},
    }
}

/// Discover the active catalog sources from the output of
/// `specify <kind> catalog list`. Two layouts exist: dialect A, where a
/// `<name> (priority N)` header is followed by `URL: <url>` and
/// `Install: <policy>` lines, and dialect B, where a `- <name> — <policy>` or
/// `[N] <name> — <policy>` header is followed by the bare URL.
pub fn parse_catalog_urls(output: &str) -> (r: Vec<CatalogSource>)
    ensures
        views_of(r@) == catalog_sources_in(output@),
{
    let v = chars_of(output);
    let ls = line_ranges(&v);
    let pats = UrlPatterns::new();
    let mut st = UrlState { out: Vec::new(), name: None, priority: None, ok: true };
    let ghost all = lines(v@);
    assert(views_of(st.out@) =~= Seq::<SourceView>::empty());
    let mut k: usize = 0;
    while k < ls.len()
        invariant
            v@ == output@,
            all == lines(v@),
            ls@.len() == all.len(),
            forall|j: int|
                0 <= j < ls@.len() ==> {
                    &&& (#[trigger] ls@[j]).0 <= ls@[j].1 <= v@.len()
                    &&& v@.subrange(ls@[j].0 as int, ls@[j].1 as int) == all[j]
                },
            k <= ls@.len(),
            pats.wf(),
            st.scan() == url_scan(all.take(k as int)),
        decreases ls@.len() - k,
    {
        assert(all.take(k + 1).drop_last() =~= all.take(k as int));
        assert(all.take(k + 1).last() == all[k as int]);
        let (lo, hi) = ls[k];
        url_line(&v, lo, hi, &pats, &mut st);
        k = k + 1;
    }
    assert(all.take(k as int) =~= all);
    st.out
}

/// The `N` of `priority N)` starting at `v[lo..hi]` (which starts with
/// `priority`).
fn parse_priority(v: &Vec<char>, lo: usize, hi: usize) -> (r: Option<u8>)
    requires
        lo <= hi <= v@.len(),
        starts_with(v@.subrange(lo as int, hi as int), "priority"@),
    ensures
        r == priority_number(v@.subrange(lo as int, hi as int)),
        trim_start(v@.subrange(lo as int, hi as int)) == v@.subrange(lo as int, hi as int),
{
    proof {
        reveal_strlit("priority");
    }
    let ghost s = v@.subrange(lo as int, hi as int);
    let start = lo + 8;
    proof {
        assert(s.subrange(0, 8)[0] == s[0]);
        assert("priority"@[0] == 'p');
        assert(s[0] == 'p');
        assert(!is_white(s[0]));
        assert(trim_start(s) == s);
        lemma_sub_shift(v@, lo as int, hi as int, 8);
    }
    let end = match find_char_range(v, start, hi, ')') {
        Some(j) => {
            proof {
                lemma_sub_shift(v@, start as int, hi as int, j - start);
            }
            j
        },
        None => {
            assert(v@.subrange(start as int, hi as int).take((hi - start) as int) =~= v@.subrange(
                start as int,
                hi as int,
            ));
            hi
        },
    };
    let (a, b) = trim_range(v, start, end);
    parse_u8_range(v, a, b)
}


// ---- `specify workflow list` ---------------------------------------------------

pub open spec fn opt_view(o: Option<String>) -> Option<Seq<char>> {
    match o {
        Some(s) => Some(s@),
        None => None,
    }
}

pub struct WorkflowView {
    pub id: Seq<char>,
    pub name: Option<Seq<char>>,
    pub version: Option<Seq<char>>,
    pub source: Option<Seq<char>>,
    pub installed: bool,
    pub description: Seq<char>,
    pub last_run: Option<Seq<char>>,
}

impl View for WorkflowInfo {
    type V = WorkflowView;

    open spec fn view(&self) -> WorkflowView {
        WorkflowView {
            id: self.id@,
            name: opt_view(self.name),
            version: opt_view(self.version),
            source: opt_view(self.source),
            installed: self.installed,
            description: self.description@,
            last_run: opt_view(self.last_run),
        }
    }
}

pub open spec fn workflow_views(v: Seq<WorkflowInfo>) -> Seq<WorkflowView> {
    Seq::new(v.len(), |k: int| v[k]@)
}

pub open spec fn is_ascii_digit(c: char) -> bool {
    '0' <= c && c <= '9'
}

/// A workflow header line `<name> (<id>) v<ver>`: the id is the last
/// parenthesised token before the last ` v`, and the version starts with a
/// digit.
pub open spec fn workflow_header(line: Seq<char>) -> Option<WorkflowView> {
    match last_match(line, " v"@) {
        Some(p) => {
            let before = line.take(p);
            let ver = line.skip(p + 2);
            if ends_with(before, ")"@) && ver.len() > 0 && is_ascii_digit(ver[0]) && last_index(
                before,
                '(',
            ) is Some {
                let o = last_index(before, '(')->0;
                Some(
                    WorkflowView {
                        id: trim(before.subrange(o + 1, before.len() - 1)),
                        name: Some(trim(before.take(o))),
                        version: Some(ver),
                        source: Some("bundled"@),
                        installed: true,
                        description: Seq::empty(),
                        last_run: None,
                    },
                )
            } else {
                None
            }
        },
        None => None,
    }
}

/// One line of `specify workflow list`: a header starts a workflow, and the
/// first other line after it becomes its description.
pub open spec fn workflow_step(out: Seq<WorkflowView>, raw: Seq<char>) -> Seq<WorkflowView> {
    let line = trim(raw);
    if line.len() == 0 {
        out
    } else if workflow_header(line) is Some {
        out.push(workflow_header(line)->0)
    } else if out.len() > 0 && out.last().description.len() == 0 {
        out.update(out.len() - 1, WorkflowView { description: line, ..out.last() })
    } else {
        out
    }
}

pub open spec fn workflow_scan(ls: Seq<Seq<char>>) -> Seq<WorkflowView>
    decreases ls.len(),
{
    if ls.len() == 0 {
        Seq::empty()
    } else {
        workflow_step(workflow_scan(ls.drop_last()), ls.last())
    }
}

/// The workflows listed in the output of `specify workflow list`.
pub open spec fn installed_workflows_in(output: Seq<char>) -> Seq<WorkflowView> {
    workflow_scan(lines(output))
}

/// Parses the header line `v[a..b]`.
fn workflow_header_of(v: &Vec<char>, a: usize, b: usize, sv: &Vec<char>) -> (r: Option<WorkflowInfo>)
    requires
        a <= b <= v@.len(),
        sv@ == " v"@,
    ensures
        match workflow_header(v@.subrange(a as int, b as int)) {
            Some(w) => r matches Some(x) && x@ == w,
            None => r is None,
        },
{
    proof {
        reveal_strlit(" v");
        reveal_strlit(")");
    }
    let ghost line = v@.subrange(a as int, b as int);
    let p = match rfind_str_range(v, a, b, sv) {
        Some(p) => p,
        None => {
            return None;
        },
    };
    proof {
        lemma_sub_shift(v@, a as int, b as int, p - a);
        lemma_sub_shift(v@, a as int, b as int, p + 2 - a);
    }
    let ghost before = line.take(p - a);
    let ghost ver = line.skip(p + 2 - a);
    assert(before == v@.subrange(a as int, p as int));
    assert(ver == v@.subrange(p + 2, b as int));
    if !(p > a && v[p - 1] == ')') {
        proof {
            if ends_with(before, ")"@) {
                assert(before.subrange(before.len() - 1, before.len() as int)[0] == v@[p - 1]);
            }
        }
        return None;
    }
    assert(before.subrange(before.len() - 1, before.len() as int) =~= ")"@);
    if !(p + 2 < b && '0' <= v[p + 2] && v[p + 2] <= '9') {
        assert(!(ver.len() > 0 && is_ascii_digit(ver[0])));
        return None;
    }
    assert(ver[0] == v@[p + 2]);
    let o = match rfind_char_range(v, a, p, '(') {
        Some(o) => o,
        None => {
            return None;
        },
    };
    proof {
        lemma_last_index(before, '(');
        assert(before[o - a] == v@[o as int]);
        assert(o + 1 <= p - 1);
        assert(before.subrange(o - a + 1, before.len() - 1) =~= v@.subrange(o + 1, p - 1));
        assert(before.take(o - a) =~= v@.subrange(a as int, o as int));
    }
    let (i0, i1) = trim_range(v, o + 1, p - 1);
    let (n0, n1) = trim_range(v, a, o);
    Some(
        WorkflowInfo {
            id: string_of_range(v, i0, i1),
            name: Some(string_of_range(v, n0, n1)),
            version: Some(string_of_range(v, p + 2, b)),
            source: Some("bundled".to_owned()),
            installed: true,
            description: String::new(),
            last_run: None,
        },
    )
}

/// Parse `specify workflow list`: blocks of `  <name> (<id>) v<ver>` followed
/// by an indented description line.
pub fn parse_installed_workflows(output: &str) -> (r: Vec<WorkflowInfo>)
    ensures
        workflow_views(r@) == installed_workflows_in(output@),
{
    let v = chars_of(output);
    let ls = line_ranges(&v);
    let sv = chars_of(" v");
    let mut out: Vec<WorkflowInfo> = Vec::new();
    let ghost all = lines(v@);
    assert(workflow_views(out@) =~= Seq::<WorkflowView>::empty());
    let mut k: usize = 0;
    while k < ls.len()
        invariant
            v@ == output@,
            all == lines(v@),
            ls@.len() == all.len(),
            forall|j: int|
                0 <= j < ls@.len() ==> {
                    &&& (#[trigger] ls@[j]).0 <= ls@[j].1 <= v@.len()
                    &&& v@.subrange(ls@[j].0 as int, ls@[j].1 as int) == all[j]
                },
            k <= ls@.len(),
            sv@ == " v"@,
            workflow_views(out@) == workflow_scan(all.take(k as int)),
        decreases ls@.len() - k,
    {
        let ghost prev = workflow_views(out@);
        assert(all.take(k + 1).drop_last() =~= all.take(k as int));
        assert(all.take(k + 1).last() == all[k as int]);
        let (lo, hi) = ls[k];
        let (a, b) = trim_range(&v, lo, hi);
        k = k + 1;
        if a == b {
            continue;
        }
        match workflow_header_of(&v, a, b, &sv) {
            Some(w) => {
                out.push(w);
                assert(workflow_views(out@) =~= prev.push(w@));
            },
            None => {
                let n = out.len();
                if n > 0 && out[n - 1].description.as_str().is_empty() {
                    let last = out.pop().unwrap();
                    out.push(WorkflowInfo { description: string_of_range(&v, a, b), ..last });
                    assert(workflow_views(out@) =~= workflow_step(prev, all[k - 1]));
                } else {
                    proof {
                        if n > 0 {
                            assert(prev.last().description.len() == out@[n - 1].description@.len());
                        }
                    }
                }
            },
        }
    }
    assert(all.take(k as int) =~= all);
    out
}


// ---- Views of the info records ---------------------------------------------------

pub enum SourceKind {
    Catalog(Seq<char>),
    Dev(Seq<char>),
    Url(Seq<char>),
    Local,
}

impl View for ExtensionSource {
    type V = SourceKind;

    open spec fn view(&self) -> SourceKind {
        match self {
            ExtensionSource::Catalog(s) => SourceKind::Catalog(s@),
            ExtensionSource::Dev(s) => SourceKind::Dev(s@),
            ExtensionSource::Url(s) => SourceKind::Url(s@),
            ExtensionSource::Local => SourceKind::Local,
        }
    }
}

pub struct ExtensionView {
    pub id: Seq<char>,
    pub name: Seq<char>,
    pub version: Seq<char>,
    pub status: InstallStatus,
    pub priority: Option<u8>,
    pub command_count: u32,
    pub source: SourceKind,
    pub author: Option<Seq<char>>,
    pub description: Seq<char>,
}

impl View for ExtensionInfo {
    type V = ExtensionView;

    open spec fn view(&self) -> ExtensionView {
        ExtensionView {
            id: self.id@,
            name: self.name@,
            version: self.version@,
            status: self.status,
            priority: self.priority,
            command_count: self.command_count,
            source: self.source@,
            author: opt_view(self.author),
            description: self.description@,
        }
    }
}

pub struct PresetView {
    pub id: Seq<char>,
    pub name: Seq<char>,
    pub version: Seq<char>,
    pub status: InstallStatus,
    pub priority: Option<u8>,
    pub template_count: u32,
    pub author: Option<Seq<char>>,
    pub source_label: Option<Seq<char>>,
    pub description: Seq<char>,
}

impl View for PresetInfo {
    type V = PresetView;

    open spec fn view(&self) -> PresetView {
        PresetView {
            id: self.id@,
            name: self.name@,
            version: self.version@,
            status: self.status,
            priority: self.priority,
            template_count: self.template_count,
            author: opt_view(self.author),
            source_label: opt_view(self.source_label),
            description: self.description@,
        }
    }
}

pub struct IntegrationView {
    pub key: Seq<char>,
    pub name: Seq<char>,
    pub installed: bool,
    pub is_default: bool,
    pub cli_required: bool,
    pub version: Option<Seq<char>>,
    pub description: Seq<char>,
}

impl View for IntegrationInfo {
    type V = IntegrationView;

    open spec fn view(&self) -> IntegrationView {
        IntegrationView {
            key: self.key@,
            name: self.name@,
            installed: self.installed,
            is_default: self.is_default,
            cli_required: self.cli_required,
            version: opt_view(self.version),
            description: self.description@,
        }
    }
}

pub open spec fn extension_views(v: Seq<ExtensionInfo>) -> Seq<ExtensionView> {
    Seq::new(v.len(), |k: int| v[k]@)
}

pub open spec fn preset_views(v: Seq<PresetInfo>) -> Seq<PresetView> {
    Seq::new(v.len(), |k: int| v[k]@)
}

pub open spec fn integration_views(v: Seq<IntegrationInfo>) -> Seq<IntegrationView> {
    Seq::new(v.len(), |k: int| v[k]@)
}

// ---- Installed registries ------------------------------------------------------

/// One entry of `.specify/extensions/.registry`, as plain values.
pub struct ExtensionRecord {
    pub version: String,
    pub source: Option<String>,
    pub enabled: bool,
    pub priority: Option<u8>,
    /// Length of each registered command list, if the entry lists any.
    pub command_lists: Option<Vec<u32>>,
}

/// One entry of `.specify/presets/.registry`, as plain values.
pub struct PresetRecord {
    pub version: String,
    pub enabled: bool,
    pub priority: Option<u8>,
    pub template_count: Option<u32>,
}

/// What `integration.json` says of one integration's settings.
pub struct IntegrationSettings {
    pub version: Option<String>,
    pub description: Option<String>,
    pub cli_required: Option<bool>,
}

pub open spec fn sum_u32(s: Seq<u32>) -> nat
    decreases s.len(),
{
    if s.len() == 0 {
        0
    } else {
        sum_u32(s.drop_last()) + s.last() as nat
    }
}

pub open spec fn command_total(lists: Option<Vec<u32>>) -> nat {
    match lists {
        Some(v) => sum_u32(v@),
        None => 0,
    }
}

/// The registry's `source` field: `local` or none is a local extension, text
/// starting with `http` a URL, anything else a catalog name.
pub open spec fn source_of(src: Option<Seq<char>>) -> SourceKind {
    match src {
        None => SourceKind::Local,
        Some(s) => if s == "local"@ {
            SourceKind::Local
        } else if starts_with(s, "http"@) {
            SourceKind::Url(s)
        } else {
            SourceKind::Catalog(s)
        },
    }
}

pub open spec fn status_of(enabled: bool) -> InstallStatus {
    if enabled {
        InstallStatus::Enabled
    } else {
        InstallStatus::Disabled
    }
}

/// The installed extension a registry entry describes.
pub open spec fn installed_extension(id: Seq<char>, e: ExtensionRecord) -> ExtensionView {
    ExtensionView {
        id: id,
        name: id,
        version: e.version@,
        status: status_of(e.enabled),
        priority: e.priority,
        command_count: command_total(e.command_lists) as u32,
        source: source_of(opt_view(e.source)),
        author: None,
        description: Seq::empty(),
    }
}

/// The installed preset a registry entry describes.
pub open spec fn installed_preset(id: Seq<char>, e: PresetRecord) -> PresetView {
    PresetView {
        id: id,
        name: id,
        version: e.version@,
        status: status_of(e.enabled),
        priority: e.priority,
        template_count: match e.template_count {
            Some(t) => t,
            None => 0,
        },
        author: None,
        source_label: None,
        description: Seq::empty(),
    }
}

/// The command lists of one entry do not add up past `u32::MAX`.
pub open spec fn counts_fit(e: ExtensionRecord) -> bool {
    command_total(e.command_lists) <= u32::MAX
}

fn sum_lists(lists: &Option<Vec<u32>>) -> (r: u32)
    requires
        command_total(*lists) <= u32::MAX,
    ensures
        r as nat == command_total(*lists),
{
    match lists {
        Some(v) => {
            let mut total: u32 = 0;
            let mut i: usize = 0;
            while i < v.len()
                invariant
                    i <= v@.len(),
                    total as nat == sum_u32(v@.take(i as int)),
                    sum_u32(v@) <= u32::MAX,
                decreases v@.len() - i,
            {
                assert(v@.take(i + 1).drop_last() =~= v@.take(i as int));
                proof {
                    lemma_sum_prefix(v@, i + 1);
                }
                total = total + v[i];
                i = i + 1;
            }
            assert(v@.take(i as int) =~= v@);
            total
        },
        None => 0,
    }
}

proof fn lemma_sum_prefix(s: Seq<u32>, n: int)
    requires
        0 <= n <= s.len(),
    ensures
        sum_u32(s.take(n)) <= sum_u32(s),
    decreases s.len() - n,
{
    if n < s.len() {
        lemma_sum_prefix(s, n + 1);
        assert(s.take(n + 1).drop_last() =~= s.take(n));
    } else {
        assert(s.take(n) =~= s);
    }
}

fn source_from(src: Option<String>) -> (r: ExtensionSource)
    ensures
        r@ == source_of(opt_view(src)),
{
    match src {
        None => ExtensionSource::Local,
        Some(s) => {
            if str_eq(s.as_str(), "local") {
                ExtensionSource::Local
            } else {
                let v = chars_of(s.as_str());
                let http = chars_of("http");
                if starts_with_range(&v, 0, v.len(), &http) {
                    assert(v@.subrange(0, v@.len() as int) =~= v@);
                    ExtensionSource::Url(s)
                } else {
                    assert(v@.subrange(0, v@.len() as int) =~= v@);
                    ExtensionSource::Catalog(s)
                }
            }
        },
    }
}

/// The installed extension a registry entry describes.
pub fn extension_from_record(id: String, e: ExtensionRecord) -> (r: ExtensionInfo)
    requires
        counts_fit(e),
    ensures
        r@ == installed_extension(id@, e),
{
    let command_count = sum_lists(&e.command_lists);
    let status = if e.enabled {
        InstallStatus::Enabled
    } else {
        InstallStatus::Disabled
    };
    ExtensionInfo {
        name: id.clone(),
        id,
        version: e.version,
        status,
        priority: e.priority,
        command_count,
        source: source_from(e.source),
        author: None,
        description: String::new(),
    }
}

/// The installed preset a registry entry describes.
pub fn preset_from_record(id: String, e: PresetRecord) -> (r: PresetInfo)
    ensures
        r@ == installed_preset(id@, e),
{
    let status = if e.enabled {
        InstallStatus::Enabled
    } else {
        InstallStatus::Disabled
    };
    PresetInfo {
        name: id.clone(),
        id,
        version: e.version,
        status,
        priority: e.priority,
        template_count: match e.template_count {
            Some(t) => t,
            None => 0,
        },
        author: None,
        source_label: None,
        description: String::new(),
    }
}

/// Texts in ascending order.
pub open spec fn sorted_ids(ids: Seq<Seq<char>>) -> bool {
    forall|a: int, b: int| 0 <= a < b < ids.len() ==> !text_lt(#[trigger] ids[b], #[trigger] ids[a])
}

pub open spec fn extension_ids(v: Seq<ExtensionView>) -> Seq<Seq<char>> {
    Seq::new(v.len(), |k: int| v[k].id)
}

pub open spec fn preset_ids(v: Seq<PresetView>) -> Seq<Seq<char>> {
    Seq::new(v.len(), |k: int| v[k].id)
}

/// The installed extensions of a registry, sorted by id.
pub fn extensions_from_registry(entries: Vec<(String, ExtensionRecord)>) -> (r: Vec<ExtensionInfo>)
    requires
        forall|k: int| 0 <= k < entries@.len() ==> counts_fit(#[trigger] entries@[k].1),
    ensures
        sorted_ids(extension_ids(extension_views(r@))),
        extension_views(r@).to_multiset() == Seq::new(
            entries@.len(),
            |k: int| installed_extension(entries@[k].0@, entries@[k].1),
        ).to_multiset(),
{
    let ghost orig = entries@;
    let ghost mapped = Seq::new(
        orig.len(),
        |k: int| installed_extension(orig[k].0@, orig[k].1),
    );
    let mut out: Vec<ExtensionInfo> = Vec::new();
    assert(extension_views(out@) =~= mapped.take(0));
    for entry in it: entries
        invariant
            it.seq() == orig,
            mapped == Seq::new(orig.len(), |k: int| installed_extension(orig[k].0@, orig[k].1)),
            forall|k: int| 0 <= k < orig.len() ==> counts_fit(#[trigger] orig[k].1),
            sorted_ids(extension_ids(extension_views(out@))),
            extension_views(out@).to_multiset() == mapped.take(it.index() as int).to_multiset(),
    {
        let ghost i = it.index();
        let (id, e) = entry;
        let info = extension_from_record(id, e);
        insert_extension_sorted(&mut out, info);
        proof {
            assert(mapped.take(i + 1) =~= mapped.take(i as int).push(mapped[i as int]));
            vstd::seq_lib::to_multiset_build(mapped.take(i as int), mapped[i as int]);
        }
    }
    assert(mapped.take(orig.len() as int) =~= mapped);
    out
}

/// Inserts `x` before the first element with a larger id.
fn insert_extension_sorted(v: &mut Vec<ExtensionInfo>, x: ExtensionInfo)
    requires
        sorted_ids(extension_ids(extension_views(old(v)@))),
    ensures
        sorted_ids(extension_ids(extension_views(final(v)@))),
        extension_views(final(v)@).to_multiset() == extension_views(old(v)@).to_multiset().insert(
            x@,
        ),
{
    let ghost old_views = extension_views(v@);
    let mut i: usize = 0;
    while i < v.len() && !str_lt(x.id.as_str(), v[i].id.as_str())
        invariant
            i <= v@.len(),
            forall|j: int| 0 <= j < i ==> !text_lt(x.id@, #[trigger] v@[j].id@),
        decreases v@.len() - i,
    {
        i = i + 1;
    }
    let ghost ids = extension_ids(old_views);
    proof {
        assert forall|j: int| i <= j < v@.len() implies !text_lt(#[trigger] v@[j].id@, x.id@) by {
            assert(ids[i as int] == v@[i as int].id@);
            assert(ids[j] == v@[j].id@);
            if j > i {
                lemma_text_lt_total(ids[i as int], ids[j]);
                if text_lt(ids[i as int], ids[j]) {
                    lemma_text_lt_trans(x.id@, ids[i as int], ids[j]);
                }
            }
            lemma_text_lt_total(x.id@, ids[j]);
        }
    }
    let ghost xv = x@;
    v.insert(i, x);
    proof {
        let nv = extension_views(v@);
        assert(nv =~= old_views.insert(i as int, xv));
        vstd::seq_lib::to_multiset_insert(old_views, i as int, xv);
        let nids = extension_ids(nv);
        assert forall|a: int, b: int| 0 <= a < b < nids.len() implies !text_lt(
            #[trigger] nids[b],
            #[trigger] nids[a],
        ) by {
            if b < i {
                assert(nids[a] == ids[a] && nids[b] == ids[b]);
            } else if b == i {
                assert(nids[b] == xv.id);
                assert(nids[a] == ids[a]);
            } else if a == i {
                assert(nids[a] == xv.id);
                assert(nids[b] == ids[b - 1]);
            } else if a < i {
                assert(nids[a] == ids[a] && nids[b] == ids[b - 1]);
            } else {
                assert(nids[a] == ids[a - 1] && nids[b] == ids[b - 1]);
            }
        }
    }
}

/// The installed presets of a registry, sorted by id.
pub fn presets_from_registry(entries: Vec<(String, PresetRecord)>) -> (r: Vec<PresetInfo>)
    ensures
        sorted_ids(preset_ids(preset_views(r@))),
        preset_views(r@).to_multiset() == Seq::new(
            entries@.len(),
            |k: int| installed_preset(entries@[k].0@, entries@[k].1),
        ).to_multiset(),
{
    let ghost orig = entries@;
    let ghost mapped = Seq::new(orig.len(), |k: int| installed_preset(orig[k].0@, orig[k].1));
    let mut out: Vec<PresetInfo> = Vec::new();
    assert(preset_views(out@) =~= mapped.take(0));
    for entry in it: entries
        invariant
            it.seq() == orig,
            mapped == Seq::new(orig.len(), |k: int| installed_preset(orig[k].0@, orig[k].1)),
            sorted_ids(preset_ids(preset_views(out@))),
            preset_views(out@).to_multiset() == mapped.take(it.index() as int).to_multiset(),
    {
        let ghost i = it.index();
        let (id, e) = entry;
        let info = preset_from_record(id, e);
        insert_preset_sorted(&mut out, info);
        proof {
            assert(mapped.take(i + 1) =~= mapped.take(i as int).push(mapped[i as int]));
            vstd::seq_lib::to_multiset_build(mapped.take(i as int), mapped[i as int]);
        }
    }
    assert(mapped.take(orig.len() as int) =~= mapped);
    out
}

/// Inserts `x` before the first element with a larger id.
fn insert_preset_sorted(v: &mut Vec<PresetInfo>, x: PresetInfo)
    requires
        sorted_ids(preset_ids(preset_views(old(v)@))),
    ensures
        sorted_ids(preset_ids(preset_views(final(v)@))),
        preset_views(final(v)@).to_multiset() == preset_views(old(v)@).to_multiset().insert(x@),
{
    let ghost old_views = preset_views(v@);
    let mut i: usize = 0;
    while i < v.len() && !str_lt(x.id.as_str(), v[i].id.as_str())
        invariant
            i <= v@.len(),
            forall|j: int| 0 <= j < i ==> !text_lt(x.id@, #[trigger] v@[j].id@),
        decreases v@.len() - i,
    {
        i = i + 1;
    }
    let ghost ids = preset_ids(old_views);
    proof {
        assert forall|j: int| i <= j < v@.len() implies !text_lt(#[trigger] v@[j].id@, x.id@) by {
            assert(ids[i as int] == v@[i as int].id@);
            assert(ids[j] == v@[j].id@);
            if j > i {
                lemma_text_lt_total(ids[i as int], ids[j]);
                if text_lt(ids[i as int], ids[j]) {
                    lemma_text_lt_trans(x.id@, ids[i as int], ids[j]);
                }
            }
            lemma_text_lt_total(x.id@, ids[j]);
        }
    }
    let ghost xv = x@;
    v.insert(i, x);
    proof {
        let nv = preset_views(v@);
        assert(nv =~= old_views.insert(i as int, xv));
        vstd::seq_lib::to_multiset_insert(old_views, i as int, xv);
        let nids = preset_ids(nv);
        assert forall|a: int, b: int| 0 <= a < b < nids.len() implies !text_lt(
            #[trigger] nids[b],
            #[trigger] nids[a],
        ) by {
            if b < i {
                assert(nids[a] == ids[a] && nids[b] == ids[b]);
            } else if b == i {
                assert(nids[b] == xv.id);
                assert(nids[a] == ids[a]);
            } else if a == i {
                assert(nids[a] == xv.id);
                assert(nids[b] == ids[b - 1]);
            } else if a < i {
                assert(nids[a] == ids[a] && nids[b] == ids[b - 1]);
            } else {
                assert(nids[a] == ids[a - 1] && nids[b] == ids[b - 1]);
            }
        }
    }
}


/// Index of the settings recorded for integration `name`.
pub open spec fn find_settings(s: Seq<(String, IntegrationSettings)>, name: Seq<char>) -> Option<int>
    decreases s.len(),
{
    if s.len() == 0 {
        None
    } else {
        match find_settings(s.drop_last(), name) {
            Some(i) => Some(i),
            None => if s.last().0@ == name { Some(s.len() - 1) } else { None },
        }
    }
}

pub open spec fn settings_for(
    settings: Option<Vec<(String, IntegrationSettings)>>,
    name: Seq<char>,
) -> Option<IntegrationSettings> {
    match settings {
        Some(v) => match find_settings(v@, name) {
            Some(i) => Some(v@[i].1),
            None => None,
        },
        None => None,
    }
}

/// An installed integration as `integration.json` describes it: `cli_required`
/// defaults to true, and the default integration is the one named by
/// `default_integration` (the empty name when there is none).
pub open spec fn installed_integration(
    default_name: Seq<char>,
    name: Seq<char>,
    st: Option<IntegrationSettings>,
) -> IntegrationView {
    IntegrationView {
        key: name,
        name: name,
        installed: true,
        is_default: name == default_name,
        cli_required: match st {
            Some(x) => match x.cli_required {
                Some(b) => b,
                None => true,
            },
            None => true,
        },
        version: match st {
            Some(x) => opt_view(x.version),
            None => None,
        },
        description: match st {
            Some(x) => match x.description {
                Some(d) => d@,
                None => Seq::empty(),
            },
            None => Seq::empty(),
        },
    }
}

fn find_settings_index(s: &Vec<(String, IntegrationSettings)>, name: &String) -> (r: Option<usize>)
    ensures
        r matches Some(i) ==> find_settings(s@, name@) == Some(i as int) && i < s@.len(),
        r is None ==> find_settings(s@, name@) is None,
{
    let mut i: usize = 0;
    while i < s.len()
        invariant
            i <= s@.len(),
            find_settings(s@.take(i as int), name@) is None,
        decreases s@.len() - i,
    {
        assert(s@.take(i + 1).drop_last() =~= s@.take(i as int));
        if s[i].0 == *name {
            proof {
                lemma_find_settings_prefix(s@, i + 1, name@);
            }
            return Some(i);
        }
        i = i + 1;
    }
    assert(s@.take(i as int) =~= s@);
    None
}

proof fn lemma_find_settings_prefix(s: Seq<(String, IntegrationSettings)>, n: int, name: Seq<char>)
    requires
        0 <= n <= s.len(),
        find_settings(s.take(n), name) is Some,
    ensures
        find_settings(s, name) == find_settings(s.take(n), name),
    decreases s.len() - n,
{
    if n < s.len() {
        assert(s.take(n + 1).drop_last() =~= s.take(n));
        lemma_find_settings_prefix(s, n + 1, name);
    } else {
        assert(s.take(n) =~= s);
    }
}

/// The installed integrations `integration.json` lists, in its order.
pub fn integrations_from_state(
    default_integration: Option<String>,
    installed: Vec<String>,
    settings: Option<Vec<(String, IntegrationSettings)>>,
) -> (r: Vec<IntegrationInfo>)
    ensures
        integration_views(r@) == Seq::new(
            installed@.len(),
            |k: int|
                installed_integration(
                    match default_integration {
                        Some(d) => d@,
                        None => Seq::empty(),
                    },
                    installed@[k]@,
                    settings_for(settings, installed@[k]@),
                ),
        ),
{
    let default_name: String = match default_integration {
        Some(d) => d,
        None => String::new(),
    };
    let mut out: Vec<IntegrationInfo> = Vec::new();
    let mut i: usize = 0;
    while i < installed.len()
        invariant
            i <= installed@.len(),
            default_name@ == (match default_integration {
                Some(d) => d@,
                None => Seq::<char>::empty(),
            }),
            out@.len() == i,
            forall|k: int|
                0 <= k < i ==> (#[trigger] out@[k])@ == installed_integration(
                    default_name@,
                    installed@[k]@,
                    settings_for(settings, installed@[k]@),
                ),
        decreases installed@.len() - i,
    {
        let name = installed[i].clone();
        let mut version: Option<String> = None;
        let mut description: String = String::new();
        let mut cli_required = true;
        match &settings {
            Some(v) => match find_settings_index(v, &name) {
                Some(j) => {
                    let st = &v[j].1;
                    version = st.version.clone();
                    description = match &st.description {
                        Some(d) => d.clone(),
                        None => String::new(),
                    };
                    cli_required = match st.cli_required {
                        Some(b) => b,
                        None => true,
                    };
                },
                None => {},
            },
            None => {},
        }
        let is_default = name == default_name;
        out.push(
            IntegrationInfo {
                key: name.clone(),
                name,
                installed: true,
                is_default,
                cli_required,
                version,
                description,
            },
        );
        i = i + 1;
    }
    let ghost want = Seq::new(
        installed@.len(),
        |k: int|
            installed_integration(
                default_name@,
                installed@[k]@,
                settings_for(settings, installed@[k]@),
            ),
    );
    assert(integration_views(out@) =~= want);
    out
}

// ---- Catalog entries ---------------------------------------------------------------

/// One entry of a catalog JSON file, as plain values. `templates` is the
/// `provides.templates` count when the entry has a `provides` object.
pub struct CatalogEntry {
    pub name: Option<String>,
    pub version: Option<String>,
    pub description: Option<String>,
    pub author: Option<String>,
    pub tags: Vec<String>,
    pub templates: Option<u32>,
}

pub open spec fn or_empty(o: Option<String>) -> Seq<char> {
    match o {
        Some(s) => s@,
        None => Seq::empty(),
    }
}

pub open spec fn or_id(o: Option<String>, id: Seq<char>) -> Seq<char> {
    match o {
        Some(s) => s@,
        None => id,
    }
}

/// IDE-based integrations don't require a CLI tool; everything else does.
pub open spec fn needs_cli(tags: Seq<String>) -> bool {
    !(exists|k: int| 0 <= k < tags.len() && tags[k]@ == "ide"@)
}

/// An integration offered by a catalog.
pub open spec fn catalog_integration(id: Seq<char>, e: CatalogEntry) -> IntegrationView {
    IntegrationView {
        key: id,
        name: or_id(e.name, id),
        installed: false,
        is_default: false,
        cli_required: needs_cli(e.tags@),
        version: opt_view(e.version),
        description: or_empty(e.description),
    }
}

/// An extension offered by the catalog named `source_name`.
pub open spec fn catalog_extension(id: Seq<char>, e: CatalogEntry, source_name: Seq<char>) -> ExtensionView {
    ExtensionView {
        id: id,
        name: or_id(e.name, id),
        version: or_empty(e.version),
        status: InstallStatus::Available,
        priority: None,
        command_count: 0,
        source: SourceKind::Catalog(label_of_catalog(source_name)),
        author: opt_view(e.author),
        description: or_empty(e.description),
    }
}

/// A preset offered by the catalog named `source_name`.
pub open spec fn catalog_preset(id: Seq<char>, e: CatalogEntry, source_name: Seq<char>) -> PresetView {
    PresetView {
        id: id,
        name: or_id(e.name, id),
        version: or_empty(e.version),
        status: InstallStatus::Available,
        priority: None,
        template_count: match e.templates {
            Some(t) => t,
            None => 0,
        },
        author: opt_view(e.author),
        source_label: Some("catalog · "@ + label_of_catalog(source_name)),
        description: or_empty(e.description),
    }
}

fn name_or_id(name: Option<String>, id: &String) -> (r: String)
    ensures
        r@ == or_id(name, id@),
{
    match name {
        Some(n) => n,
        None => id.clone(),
    }
}

fn string_or_empty(o: Option<String>) -> (r: String)
    ensures
        r@ == or_empty(o),
{
    match o {
        Some(s) => s,
        None => String::new(),
    }
}

fn tags_need_cli(tags: &Vec<String>) -> (r: bool)
    ensures
        r == needs_cli(tags@),
{
    let mut i: usize = 0;
    while i < tags.len()
        invariant
            i <= tags@.len(),
            forall|k: int| 0 <= k < i ==> tags@[k]@ != "ide"@,
        decreases tags@.len() - i,
    {
        if str_eq(tags[i].as_str(), "ide") {
            return false;
        }
        i = i + 1;
    }
    true
}

/// An integration offered by a catalog.
pub fn integration_from_catalog(id: String, e: CatalogEntry) -> (r: IntegrationInfo)
    ensures
        r@ == catalog_integration(id@, e),
{
    let cli_required = tags_need_cli(&e.tags);
    IntegrationInfo {
        name: name_or_id(e.name, &id),
        key: id,
        installed: false,
        is_default: false,
        cli_required,
        version: e.version,
        description: string_or_empty(e.description),
    }
}

/// An extension offered by the catalog named `source_name`.
pub fn extension_from_catalog(id: String, e: CatalogEntry, source_name: &str) -> (r: ExtensionInfo)
    ensures
        r@ == catalog_extension(id@, e, source_name@),
{
    ExtensionInfo {
        name: name_or_id(e.name, &id),
        id,
        version: string_or_empty(e.version),
        status: InstallStatus::Available,
        priority: None,
        command_count: 0,
        source: ExtensionSource::Catalog(catalog_label(source_name)),
        author: e.author,
        description: string_or_empty(e.description),
    }
}

/// A preset offered by the catalog named `source_name`.
pub fn preset_from_catalog(id: String, e: CatalogEntry, source_name: &str) -> (r: PresetInfo)
    ensures
        r@ == catalog_preset(id@, e, source_name@),
{
    let mut label = "catalog · ".to_owned();
    let l = catalog_label(source_name);
    label.append(l.as_str());
    PresetInfo {
        name: name_or_id(e.name, &id),
        id,
        version: string_or_empty(e.version),
        status: InstallStatus::Available,
        priority: None,
        template_count: match e.templates {
            Some(t) => t,
            None => 0,
        },
        author: e.author,
        source_label: Some(label),
        description: string_or_empty(e.description),
    }
}

/// Index of the workflow with id `id`.
pub open spec fn find_workflow(s: Seq<WorkflowView>, id: Seq<char>) -> Option<int>
    decreases s.len(),
{
    if s.len() == 0 {
        None
    } else {
        match find_workflow(s.drop_last(), id) {
            Some(i) => Some(i),
            None => if s.last().id == id { Some(s.len() - 1) } else { None },
        }
    }
}

/// Folding one catalog workflow into the list: an installed entry with the
/// same id only gains a missing name or description; otherwise the catalog
/// workflow is appended, sourced from the catalog.
pub open spec fn with_catalog_workflow(
    s: Seq<WorkflowView>,
    id: Seq<char>,
    e: CatalogEntry,
    source_name: Seq<char>,
) -> Seq<WorkflowView> {
    match find_workflow(s, id) {
        Some(i) => s.update(
            i,
            WorkflowView {
                name: if s[i].name is None { opt_view(e.name) } else { s[i].name },
                description: if s[i].description.len() == 0 {
                    or_empty(e.description)
                } else {
                    s[i].description
                },
                ..s[i]
            },
        ),
        None => s.push(
            WorkflowView {
                id: id,
                name: opt_view(e.name),
                version: opt_view(e.version),
                source: Some("catalog · "@ + label_of_catalog(source_name)),
                installed: false,
                description: or_empty(e.description),
                last_run: None,
            },
        ),
    }
}

proof fn lemma_find_workflow_prefix(s: Seq<WorkflowView>, n: int, id: Seq<char>)
    requires
        0 <= n <= s.len(),
        find_workflow(s.take(n), id) is Some,
    ensures
        find_workflow(s, id) == find_workflow(s.take(n), id),
    decreases s.len() - n,
{
    if n < s.len() {
        assert(s.take(n + 1).drop_last() =~= s.take(n));
        lemma_find_workflow_prefix(s, n + 1, id);
    } else {
        assert(s.take(n) =~= s);
    }
}

/// Folds one catalog workflow into the installed-first workflow list.
pub fn merge_catalog_workflow(
    workflows: &mut Vec<WorkflowInfo>,
    id: String,
    e: CatalogEntry,
    source_name: &str,
)
    ensures
        workflow_views(final(workflows)@) == with_catalog_workflow(
            workflow_views(old(workflows)@),
            id@,
            e,
            source_name@,
        ),
{
    let ghost s = workflow_views(workflows@);
    let mut i: usize = 0;
    while i < workflows.len()
        invariant
            i <= workflows@.len(),
            s == workflow_views(workflows@),
            s == workflow_views(old(workflows)@),
            find_workflow(s.take(i as int), id@) is None,
        decreases workflows@.len() - i,
    {
        assert(s.take(i + 1).drop_last() =~= s.take(i as int));
        assert(s.take(i + 1).last() == workflows@[i as int]@);
        if workflows[i].id == id {
            proof {
                lemma_find_workflow_prefix(s, i + 1, id@);
            }
            let mut w = workflows.remove(i);
            if w.name.is_none() {
                w.name = e.name;
            }
            if w.description.as_str().is_empty() {
                w.description = string_or_empty(e.description);
            }
            workflows.insert(i, w);
            assert(workflow_views(workflows@) =~= with_catalog_workflow(s, id@, e, source_name@));
            return;
        }
        i = i + 1;
    }
    assert(s.take(i as int) =~= s);
    let mut label = "catalog · ".to_owned();
    let l = catalog_label(source_name);
    label.append(l.as_str());
    workflows.push(
        WorkflowInfo {
            id,
            name: e.name,
            version: e.version,
            source: Some(label),
            installed: false,
            description: string_or_empty(e.description),
            last_run: None,
        },
    );
    assert(workflow_views(workflows@) =~= with_catalog_workflow(s, id@, e, source_name@));
}

/// An installed extension or preset is Enabled exactly when its registry
/// entry says `enabled: true`, and Disabled otherwise.
pub proof fn law_registry_status(id: Seq<char>, e: ExtensionRecord, p: PresetRecord)
    ensures
        (installed_extension(id, e).status == InstallStatus::Enabled) == e.enabled,
        !e.enabled ==> installed_extension(id, e).status == InstallStatus::Disabled,
        (installed_preset(id, p).status == InstallStatus::Enabled) == p.enabled,
        !p.enabled ==> installed_preset(id, p).status == InstallStatus::Disabled,
{
}

} // verus!
