//! Properties of the dashboard state that span several operations.
use vstd::prelude::*;
use crate::app::{
    cache_applied, inserted, removed, CatalogResults, backfill_extension, backfill_integration, backfill_preset, ext_index_of, key_index, merge_extension,
    merge_integration, merge_preset, merged_extensions, merged_integrations, merged_presets,
    preset_index_of,
};
use crate::registry::{
    extension_views, integration_views, preset_views, ExtensionInfo, IntegrationInfo, PresetInfo,
};
use crate::speckit::Project;
use crate::app::{catalog_add_parts, prefill_of};
use crate::registry::CatalogSource;
use crate::text::{all_digits, decimal, digit_char, digits_value, is_white, parse_u8, words};

verus! {

// ---------------------------------------------------------------------------
// Integrations
// ---------------------------------------------------------------------------

proof fn lemma_key_index_some(l: Seq<IntegrationInfo>, k: Seq<char>)
    ensures
        key_index(l, k) matches Some(i) ==> 0 <= i < l.len() && l[i].key@ == k,
        key_index(l, k) is None ==> forall|j: int| 0 <= j < l.len() ==> (#[trigger] l[j]).key@ != k,
    decreases l.len(),
{
    if l.len() > 0 {
        lemma_key_index_some(l.drop_last(), k);
        assert forall|j: int| 0 <= j < l.len() - 1 implies l.drop_last()[j] == #[trigger] l[j] by {}
    }
}

/// The first index of a key is determined by the keys alone.
proof fn lemma_key_index_same_keys(l: Seq<IntegrationInfo>, m: Seq<IntegrationInfo>, k: Seq<char>)
    requires
        l.len() == m.len(),
        forall|j: int| 0 <= j < l.len() ==> (#[trigger] l[j]).key@ == m[j].key@,
    ensures
        key_index(l, k) == key_index(m, k),
    decreases l.len(),
{
    if l.len() > 0 {
        assert forall|j: int| 0 <= j < l.len() - 1 implies (#[trigger] l.drop_last()[j]).key@
            == m.drop_last()[j].key@ by {
            assert(l.drop_last()[j] == l[j]);
            assert(m.drop_last()[j] == m[j]);
        }
        lemma_key_index_same_keys(l.drop_last(), m.drop_last(), k);
    }
}

proof fn lemma_int_views(l: Seq<IntegrationInfo>, m: Seq<IntegrationInfo>)
    ensures
        integration_views(l) == integration_views(m) <==> (l.len() == m.len() && forall|j: int|
            0 <= j < l.len() ==> (#[trigger] l[j])@ == m[j]@),
{
    let vl = integration_views(l);
    let vm = integration_views(m);
    assert(vl.len() == l.len() && vm.len() == m.len());
    assert(forall|j: int| 0 <= j < l.len() ==> #[trigger] vl[j] == l[j]@);
    assert(forall|j: int| 0 <= j < m.len() ==> #[trigger] vm[j] == m[j]@);
    if l.len() == m.len() && forall|j: int| 0 <= j < l.len() ==> (#[trigger] l[j])@ == m[j]@ {
        assert(vl =~= vm);
    }
    if vl == vm {
        assert forall|j: int| 0 <= j < l.len() implies (#[trigger] l[j])@ == m[j]@ by {
            assert(vl[j] == vm[j]);
        }
    }
}

proof fn lemma_merge_integration_congruent(
    l: Seq<IntegrationInfo>,
    m: Seq<IntegrationInfo>,
    a: IntegrationInfo,
    b: IntegrationInfo,
)
    requires
        integration_views(l) == integration_views(m),
        a@ == b@,
    ensures
        integration_views(merge_integration(l, a)) == integration_views(merge_integration(m, b)),
{
    lemma_int_views(l, m);
    lemma_key_index_same_keys(l, m, a.key@);
    lemma_key_index_some(l, a.key@);
    let x = merge_integration(l, a);
    let y = merge_integration(m, b);
    match key_index(l, a.key@) {
        Some(i) => {
            assert forall|j: int| 0 <= j < x.len() implies (#[trigger] x[j])@ == y[j]@ by {}
        },
        None => {
            assert forall|j: int| 0 <= j < x.len() implies (#[trigger] x[j])@ == y[j]@ by {}
        },
    }
    lemma_int_views(x, y);
}

proof fn lemma_merge_integration_fixed(l: Seq<IntegrationInfo>, a: IntegrationInfo, b: IntegrationInfo)
    requires
        integration_views(merge_integration(l, a)) == integration_views(l),
    ensures
        integration_views(merge_integration(merge_integration(l, b), a)) == integration_views(
            merge_integration(l, b),
        ),
{
    lemma_int_views(merge_integration(l, a), l);
    lemma_key_index_some(l, a.key@);
    lemma_key_index_some(l, b.key@);
    if key_index(l, a.key@) is None {
        assert(merge_integration(l, a).len() == l.len() + 1);
        assert(false);
    }
    let ia = key_index(l, a.key@)->0;
    assert(backfill_integration(l[ia], a)@ == l[ia]@) by {
        assert(merge_integration(l, a)[ia] == backfill_integration(l[ia], a));
    }
    let lb = merge_integration(l, b);
    match key_index(l, b.key@) {
        Some(ib) => {
            assert forall|j: int| 0 <= j < l.len() implies (#[trigger] l[j]).key@ == lb[j].key@ by {}
            lemma_key_index_same_keys(l, lb, a.key@);
        },
        None => {
            assert(lb.drop_last() =~= l);
        },
    }
    assert(key_index(lb, a.key@) == Some(ia));
    let r = merge_integration(lb, a);
    assert forall|j: int| 0 <= j < r.len() implies (#[trigger] r[j])@ == lb[j]@ by {}
    lemma_int_views(r, lb);
}

proof fn lemma_merge_integration_twice(l: Seq<IntegrationInfo>, b: IntegrationInfo)
    ensures
        integration_views(merge_integration(merge_integration(l, b), b)) == integration_views(
            merge_integration(l, b),
        ),
{
    lemma_key_index_some(l, b.key@);
    let lb = merge_integration(l, b);
    match key_index(l, b.key@) {
        Some(ib) => {
            assert forall|j: int| 0 <= j < l.len() implies (#[trigger] l[j]).key@ == lb[j].key@ by {}
            lemma_key_index_same_keys(l, lb, b.key@);
        },
        None => {
            assert(lb.drop_last() =~= l);
            assert(key_index(lb, b.key@) == Some(l.len() as int));
        },
    }
    let r = merge_integration(lb, b);
    assert forall|j: int| 0 <= j < r.len() implies (#[trigger] r[j])@ == lb[j]@ by {}
    lemma_int_views(r, lb);
}

proof fn lemma_merged_integrations_fixed(l: Seq<IntegrationInfo>, avail: Seq<IntegrationInfo>)
    ensures
        forall|j: int| 0 <= j < avail.len() ==> integration_views(merge_integration(
            merged_integrations(l, avail),
            #[trigger] avail[j],
        )) == integration_views(merged_integrations(l, avail)),
    decreases avail.len(),
{
    if avail.len() > 0 {
        let prev = avail.drop_last();
        let b = avail.last();
        lemma_merged_integrations_fixed(l, prev);
        let lp = merged_integrations(l, prev);
        assert forall|j: int| 0 <= j < avail.len() implies integration_views(merge_integration(
            merged_integrations(l, avail),
            #[trigger] avail[j],
        )) == integration_views(merged_integrations(l, avail)) by {
            if j == avail.len() - 1 {
                lemma_merge_integration_twice(lp, b);
            } else {
                assert(avail[j] == prev[j]);
                lemma_merge_integration_fixed(lp, prev[j], b);
            }
        }
    }
}

proof fn lemma_merge_integrations_of_fixed(l: Seq<IntegrationInfo>, avail: Seq<IntegrationInfo>)
    requires
        forall|j: int| 0 <= j < avail.len() ==> integration_views(merge_integration(l, #[trigger] avail[j]))
            == integration_views(l),
    ensures
        integration_views(merged_integrations(l, avail)) == integration_views(l),
    decreases avail.len(),
{
    if avail.len() > 0 {
        let prev = avail.drop_last();
        let b = avail.last();
        assert forall|j: int| 0 <= j < prev.len() implies integration_views(merge_integration(
            l,
            #[trigger] prev[j],
        )) == integration_views(l) by {
            assert(prev[j] == avail[j]);
        }
        lemma_merge_integrations_of_fixed(l, prev);
        lemma_merge_integration_congruent(merged_integrations(l, prev), l, b, b);
        assert(integration_views(merge_integration(l, avail[avail.len() - 1])) == integration_views(l));
    }
}

/// Merging the same catalog integrations a second time changes nothing that
/// can be seen: the cached results can be applied after every re-discovery.
pub proof fn law_integration_merge_idempotent(l: Seq<IntegrationInfo>, avail: Seq<IntegrationInfo>)
    ensures
        integration_views(merged_integrations(merged_integrations(l, avail), avail)) == integration_views(
            merged_integrations(l, avail),
        ),
{
    lemma_merged_integrations_fixed(l, avail);
    lemma_merge_integrations_of_fixed(merged_integrations(l, avail), avail);
}

// ---------------------------------------------------------------------------
// Extensions
// ---------------------------------------------------------------------------

proof fn lemma_ext_index_some(l: Seq<ExtensionInfo>, k: Seq<char>)
    ensures
        ext_index_of(l, k) matches Some(i) ==> 0 <= i < l.len() && l[i].id@ == k,
        ext_index_of(l, k) is None ==> forall|j: int| 0 <= j < l.len() ==> (#[trigger] l[j]).id@ != k,
    decreases l.len(),
{
    if l.len() > 0 {
        lemma_ext_index_some(l.drop_last(), k);
        assert forall|j: int| 0 <= j < l.len() - 1 implies l.drop_last()[j] == #[trigger] l[j] by {}
    }
}

/// The first index of a key is determined by the keys alone.
proof fn lemma_ext_index_same_keys(l: Seq<ExtensionInfo>, m: Seq<ExtensionInfo>, k: Seq<char>)
    requires
        l.len() == m.len(),
        forall|j: int| 0 <= j < l.len() ==> (#[trigger] l[j]).id@ == m[j].id@,
    ensures
        ext_index_of(l, k) == ext_index_of(m, k),
    decreases l.len(),
{
    if l.len() > 0 {
        assert forall|j: int| 0 <= j < l.len() - 1 implies (#[trigger] l.drop_last()[j]).id@
            == m.drop_last()[j].id@ by {
            assert(l.drop_last()[j] == l[j]);
            assert(m.drop_last()[j] == m[j]);
        }
        lemma_ext_index_same_keys(l.drop_last(), m.drop_last(), k);
    }
}

proof fn lemma_ext_views(l: Seq<ExtensionInfo>, m: Seq<ExtensionInfo>)
    ensures
        extension_views(l) == extension_views(m) <==> (l.len() == m.len() && forall|j: int|
            0 <= j < l.len() ==> (#[trigger] l[j])@ == m[j]@),
{
    let vl = extension_views(l);
    let vm = extension_views(m);
    assert(vl.len() == l.len() && vm.len() == m.len());
    assert(forall|j: int| 0 <= j < l.len() ==> #[trigger] vl[j] == l[j]@);
    assert(forall|j: int| 0 <= j < m.len() ==> #[trigger] vm[j] == m[j]@);
    if l.len() == m.len() && forall|j: int| 0 <= j < l.len() ==> (#[trigger] l[j])@ == m[j]@ {
        assert(vl =~= vm);
    }
    if vl == vm {
        assert forall|j: int| 0 <= j < l.len() implies (#[trigger] l[j])@ == m[j]@ by {
            assert(vl[j] == vm[j]);
        }
    }
}

proof fn lemma_merge_extension_congruent(
    l: Seq<ExtensionInfo>,
    m: Seq<ExtensionInfo>,
    a: ExtensionInfo,
    b: ExtensionInfo,
)
    requires
        extension_views(l) == extension_views(m),
        a@ == b@,
    ensures
        extension_views(merge_extension(l, a)) == extension_views(merge_extension(m, b)),
{
    lemma_ext_views(l, m);
    lemma_ext_index_same_keys(l, m, a.id@);
    lemma_ext_index_some(l, a.id@);
    let x = merge_extension(l, a);
    let y = merge_extension(m, b);
    match ext_index_of(l, a.id@) {
        Some(i) => {
            assert forall|j: int| 0 <= j < x.len() implies (#[trigger] x[j])@ == y[j]@ by {}
        },
        None => {
            assert forall|j: int| 0 <= j < x.len() implies (#[trigger] x[j])@ == y[j]@ by {}
        },
    }
    lemma_ext_views(x, y);
}

proof fn lemma_merge_extension_fixed(l: Seq<ExtensionInfo>, a: ExtensionInfo, b: ExtensionInfo)
    requires
        extension_views(merge_extension(l, a)) == extension_views(l),
    ensures
        extension_views(merge_extension(merge_extension(l, b), a)) == extension_views(
            merge_extension(l, b),
        ),
{
    lemma_ext_views(merge_extension(l, a), l);
    lemma_ext_index_some(l, a.id@);
    lemma_ext_index_some(l, b.id@);
    if ext_index_of(l, a.id@) is None {
        assert(merge_extension(l, a).len() == l.len() + 1);
        assert(false);
    }
    let ia = ext_index_of(l, a.id@)->0;
    assert(backfill_extension(l[ia], a)@ == l[ia]@) by {
        assert(merge_extension(l, a)[ia] == backfill_extension(l[ia], a));
    }
    let lb = merge_extension(l, b);
    match ext_index_of(l, b.id@) {
        Some(ib) => {
            assert forall|j: int| 0 <= j < l.len() implies (#[trigger] l[j]).id@ == lb[j].id@ by {}
            lemma_ext_index_same_keys(l, lb, a.id@);
        },
        None => {
            assert(lb.drop_last() =~= l);
        },
    }
    assert(ext_index_of(lb, a.id@) == Some(ia));
    let r = merge_extension(lb, a);
    assert forall|j: int| 0 <= j < r.len() implies (#[trigger] r[j])@ == lb[j]@ by {
        if j == ia {
            lemma_extension_absorbs(l[ia], a, b);
        }
    }
    lemma_ext_views(r, lb);
}

proof fn lemma_extension_absorbs(e: ExtensionInfo, a: ExtensionInfo, b: ExtensionInfo)
    requires
        backfill_extension(e, a)@ == e@,
    ensures
        backfill_extension(backfill_extension(e, b), a)@ == backfill_extension(e, b)@,
{
    let e1 = backfill_extension(e, a);
    let e2 = backfill_extension(e, b);
    let e3 = backfill_extension(e2, a);
    assert(e1@.name == e@.name);
    assert(e1@.author == e@.author);
    assert(e1@.description == e@.description);
    assert(e1@.source == e@.source);
    assert(e3@.name == e2@.name);
    assert(e3@.author == e2@.author);
    assert(e3@.description == e2@.description);
    assert(e3@.source == e2@.source);
    assert(e3@.id == e2@.id);
    assert(e3@.version == e2@.version);
}

proof fn lemma_merge_extension_twice(l: Seq<ExtensionInfo>, b: ExtensionInfo)
    ensures
        extension_views(merge_extension(merge_extension(l, b), b)) == extension_views(
            merge_extension(l, b),
        ),
{
    lemma_ext_index_some(l, b.id@);
    let lb = merge_extension(l, b);
    match ext_index_of(l, b.id@) {
        Some(ib) => {
            assert forall|j: int| 0 <= j < l.len() implies (#[trigger] l[j]).id@ == lb[j].id@ by {}
            lemma_ext_index_same_keys(l, lb, b.id@);
        },
        None => {
            assert(lb.drop_last() =~= l);
            assert(ext_index_of(lb, b.id@) == Some(l.len() as int));
        },
    }
    let r = merge_extension(lb, b);
    assert forall|j: int| 0 <= j < r.len() implies (#[trigger] r[j])@ == lb[j]@ by {}
    lemma_ext_views(r, lb);
}

proof fn lemma_merged_extensions_fixed(l: Seq<ExtensionInfo>, avail: Seq<ExtensionInfo>)
    ensures
        forall|j: int| 0 <= j < avail.len() ==> extension_views(merge_extension(
            merged_extensions(l, avail),
            #[trigger] avail[j],
        )) == extension_views(merged_extensions(l, avail)),
    decreases avail.len(),
{
    if avail.len() > 0 {
        let prev = avail.drop_last();
        let b = avail.last();
        lemma_merged_extensions_fixed(l, prev);
        let lp = merged_extensions(l, prev);
        assert forall|j: int| 0 <= j < avail.len() implies extension_views(merge_extension(
            merged_extensions(l, avail),
            #[trigger] avail[j],
        )) == extension_views(merged_extensions(l, avail)) by {
            if j == avail.len() - 1 {
                lemma_merge_extension_twice(lp, b);
            } else {
                assert(avail[j] == prev[j]);
                lemma_merge_extension_fixed(lp, prev[j], b);
            }
        }
    }
}

proof fn lemma_merge_extensions_of_fixed(l: Seq<ExtensionInfo>, avail: Seq<ExtensionInfo>)
    requires
        forall|j: int| 0 <= j < avail.len() ==> extension_views(merge_extension(l, #[trigger] avail[j]))
            == extension_views(l),
    ensures
        extension_views(merged_extensions(l, avail)) == extension_views(l),
    decreases avail.len(),
{
    if avail.len() > 0 {
        let prev = avail.drop_last();
        let b = avail.last();
        assert forall|j: int| 0 <= j < prev.len() implies extension_views(merge_extension(
            l,
            #[trigger] prev[j],
        )) == extension_views(l) by {
            assert(prev[j] == avail[j]);
        }
        lemma_merge_extensions_of_fixed(l, prev);
        lemma_merge_extension_congruent(merged_extensions(l, prev), l, b, b);
        assert(extension_views(merge_extension(l, avail[avail.len() - 1])) == extension_views(l));
    }
}

/// Merging the same catalog extensions a second time changes nothing that
/// can be seen: the cached results can be applied after every re-discovery.
pub proof fn law_extension_merge_idempotent(l: Seq<ExtensionInfo>, avail: Seq<ExtensionInfo>)
    ensures
        extension_views(merged_extensions(merged_extensions(l, avail), avail)) == extension_views(
            merged_extensions(l, avail),
        ),
{
    lemma_merged_extensions_fixed(l, avail);
    lemma_merge_extensions_of_fixed(merged_extensions(l, avail), avail);
}

// ---------------------------------------------------------------------------
// Presets
// ---------------------------------------------------------------------------

proof fn lemma_preset_index_some(l: Seq<PresetInfo>, k: Seq<char>)
    ensures
        preset_index_of(l, k) matches Some(i) ==> 0 <= i < l.len() && l[i].id@ == k,
        preset_index_of(l, k) is None ==> forall|j: int| 0 <= j < l.len() ==> (#[trigger] l[j]).id@ != k,
    decreases l.len(),
{
    if l.len() > 0 {
        lemma_preset_index_some(l.drop_last(), k);
        assert forall|j: int| 0 <= j < l.len() - 1 implies l.drop_last()[j] == #[trigger] l[j] by {}
    }
}

/// The first index of a key is determined by the keys alone.
proof fn lemma_preset_index_same_keys(l: Seq<PresetInfo>, m: Seq<PresetInfo>, k: Seq<char>)
    requires
        l.len() == m.len(),
        forall|j: int| 0 <= j < l.len() ==> (#[trigger] l[j]).id@ == m[j].id@,
    ensures
        preset_index_of(l, k) == preset_index_of(m, k),
    decreases l.len(),
{
    if l.len() > 0 {
        assert forall|j: int| 0 <= j < l.len() - 1 implies (#[trigger] l.drop_last()[j]).id@
            == m.drop_last()[j].id@ by {
            assert(l.drop_last()[j] == l[j]);
            assert(m.drop_last()[j] == m[j]);
        }
        lemma_preset_index_same_keys(l.drop_last(), m.drop_last(), k);
    }
}

proof fn lemma_preset_views(l: Seq<PresetInfo>, m: Seq<PresetInfo>)
    ensures
        preset_views(l) == preset_views(m) <==> (l.len() == m.len() && forall|j: int|
            0 <= j < l.len() ==> (#[trigger] l[j])@ == m[j]@),
{
    let vl = preset_views(l);
    let vm = preset_views(m);
    assert(vl.len() == l.len() && vm.len() == m.len());
    assert(forall|j: int| 0 <= j < l.len() ==> #[trigger] vl[j] == l[j]@);
    assert(forall|j: int| 0 <= j < m.len() ==> #[trigger] vm[j] == m[j]@);
    if l.len() == m.len() && forall|j: int| 0 <= j < l.len() ==> (#[trigger] l[j])@ == m[j]@ {
        assert(vl =~= vm);
    }
    if vl == vm {
        assert forall|j: int| 0 <= j < l.len() implies (#[trigger] l[j])@ == m[j]@ by {
            assert(vl[j] == vm[j]);
        }
    }
}

proof fn lemma_merge_preset_congruent(
    l: Seq<PresetInfo>,
    m: Seq<PresetInfo>,
    a: PresetInfo,
    b: PresetInfo,
)
    requires
        preset_views(l) == preset_views(m),
        a@ == b@,
    ensures
        preset_views(merge_preset(l, a)) == preset_views(merge_preset(m, b)),
{
    lemma_preset_views(l, m);
    lemma_preset_index_same_keys(l, m, a.id@);
    lemma_preset_index_some(l, a.id@);
    let x = merge_preset(l, a);
    let y = merge_preset(m, b);
    match preset_index_of(l, a.id@) {
        Some(i) => {
            assert forall|j: int| 0 <= j < x.len() implies (#[trigger] x[j])@ == y[j]@ by {}
        },
        None => {
            assert forall|j: int| 0 <= j < x.len() implies (#[trigger] x[j])@ == y[j]@ by {}
        },
    }
    lemma_preset_views(x, y);
}

proof fn lemma_merge_preset_fixed(l: Seq<PresetInfo>, a: PresetInfo, b: PresetInfo)
    requires
        preset_views(merge_preset(l, a)) == preset_views(l),
    ensures
        preset_views(merge_preset(merge_preset(l, b), a)) == preset_views(
            merge_preset(l, b),
        ),
{
    lemma_preset_views(merge_preset(l, a), l);
    lemma_preset_index_some(l, a.id@);
    lemma_preset_index_some(l, b.id@);
    if preset_index_of(l, a.id@) is None {
        assert(merge_preset(l, a).len() == l.len() + 1);
        assert(false);
    }
    let ia = preset_index_of(l, a.id@)->0;
    assert(backfill_preset(l[ia], a)@ == l[ia]@) by {
        assert(merge_preset(l, a)[ia] == backfill_preset(l[ia], a));
    }
    let lb = merge_preset(l, b);
    match preset_index_of(l, b.id@) {
        Some(ib) => {
            assert forall|j: int| 0 <= j < l.len() implies (#[trigger] l[j]).id@ == lb[j].id@ by {}
            lemma_preset_index_same_keys(l, lb, a.id@);
        },
        None => {
            assert(lb.drop_last() =~= l);
        },
    }
    assert(preset_index_of(lb, a.id@) == Some(ia));
    let r = merge_preset(lb, a);
    assert forall|j: int| 0 <= j < r.len() implies (#[trigger] r[j])@ == lb[j]@ by {
        if j == ia {
            lemma_preset_absorbs(l[ia], a, b);
        }
    }
    lemma_preset_views(r, lb);
}

proof fn lemma_preset_absorbs(e: PresetInfo, a: PresetInfo, b: PresetInfo)
    requires
        backfill_preset(e, a)@ == e@,
    ensures
        backfill_preset(backfill_preset(e, b), a)@ == backfill_preset(e, b)@,
{
    let e1 = backfill_preset(e, a);
    let e2 = backfill_preset(e, b);
    let e3 = backfill_preset(e2, a);
    assert(e1@.name == e@.name);
    assert(e1@.author == e@.author);
    assert(e1@.description == e@.description);
    assert(e1@.source_label == e@.source_label);
    assert(e1@.template_count == e@.template_count);
    assert(e3@.name == e2@.name);
    assert(e3@.author == e2@.author);
    assert(e3@.description == e2@.description);
    assert(e3@.source_label == e2@.source_label);
    assert(e3@.template_count == e2@.template_count);
    assert(e3@.id == e2@.id);
    assert(e3@.version == e2@.version);
}

proof fn lemma_merge_preset_twice(l: Seq<PresetInfo>, b: PresetInfo)
    ensures
        preset_views(merge_preset(merge_preset(l, b), b)) == preset_views(
            merge_preset(l, b),
        ),
{
    lemma_preset_index_some(l, b.id@);
    let lb = merge_preset(l, b);
    match preset_index_of(l, b.id@) {
        Some(ib) => {
            assert forall|j: int| 0 <= j < l.len() implies (#[trigger] l[j]).id@ == lb[j].id@ by {}
            lemma_preset_index_same_keys(l, lb, b.id@);
        },
        None => {
            assert(lb.drop_last() =~= l);
            assert(preset_index_of(lb, b.id@) == Some(l.len() as int));
        },
    }
    let r = merge_preset(lb, b);
    assert forall|j: int| 0 <= j < r.len() implies (#[trigger] r[j])@ == lb[j]@ by {}
    lemma_preset_views(r, lb);
}

proof fn lemma_merged_presets_fixed(l: Seq<PresetInfo>, avail: Seq<PresetInfo>)
    ensures
        forall|j: int| 0 <= j < avail.len() ==> preset_views(merge_preset(
            merged_presets(l, avail),
            #[trigger] avail[j],
        )) == preset_views(merged_presets(l, avail)),
    decreases avail.len(),
{
    if avail.len() > 0 {
        let prev = avail.drop_last();
        let b = avail.last();
        lemma_merged_presets_fixed(l, prev);
        let lp = merged_presets(l, prev);
        assert forall|j: int| 0 <= j < avail.len() implies preset_views(merge_preset(
            merged_presets(l, avail),
            #[trigger] avail[j],
        )) == preset_views(merged_presets(l, avail)) by {
            if j == avail.len() - 1 {
                lemma_merge_preset_twice(lp, b);
            } else {
                assert(avail[j] == prev[j]);
                lemma_merge_preset_fixed(lp, prev[j], b);
            }
        }
    }
}

proof fn lemma_merge_presets_of_fixed(l: Seq<PresetInfo>, avail: Seq<PresetInfo>)
    requires
        forall|j: int| 0 <= j < avail.len() ==> preset_views(merge_preset(l, #[trigger] avail[j]))
            == preset_views(l),
    ensures
        preset_views(merged_presets(l, avail)) == preset_views(l),
    decreases avail.len(),
{
    if avail.len() > 0 {
        let prev = avail.drop_last();
        let b = avail.last();
        assert forall|j: int| 0 <= j < prev.len() implies preset_views(merge_preset(
            l,
            #[trigger] prev[j],
        )) == preset_views(l) by {
            assert(prev[j] == avail[j]);
        }
        lemma_merge_presets_of_fixed(l, prev);
        lemma_merge_preset_congruent(merged_presets(l, prev), l, b, b);
        assert(preset_views(merge_preset(l, avail[avail.len() - 1])) == preset_views(l));
    }
}

/// Merging the same catalog presets a second time changes nothing that
/// can be seen: the cached results can be applied after every re-discovery.
pub proof fn law_preset_merge_idempotent(l: Seq<PresetInfo>, avail: Seq<PresetInfo>)
    ensures
        preset_views(merged_presets(merged_presets(l, avail), avail)) == preset_views(
            merged_presets(l, avail),
        ),
{
    lemma_merged_presets_fixed(l, avail);
    lemma_merge_presets_of_fixed(merged_presets(l, avail), avail);
}

// ---------------------------------------------------------------------------
// The whole cache, and the add-source form
// ---------------------------------------------------------------------------

/// Applying the cached catalog results to a project that already has them
/// applied leaves every list as it was: the merge is idempotent.
pub proof fn law_catalog_cache_idempotent(p: Project, q: Project, r: Project, c: CatalogResults)
    requires
        cache_applied(p, q, c),
        cache_applied(q, r, c),
    ensures
        integration_views(r.integrations@) == integration_views(q.integrations@),
        extension_views(r.extensions@) == extension_views(q.extensions@),
        preset_views(r.presets@) == preset_views(q.presets@),
        r.workflows@ == q.workflows@,
{
    law_integration_merge_idempotent(p.integrations@, c.integrations@);
    law_extension_merge_idempotent(p.extensions@, c.extensions@);
    law_preset_merge_idempotent(p.presets@, c.presets@);
}

/// Some integration in `s` has key `k`.
pub open spec fn has_integration(s: Seq<IntegrationInfo>, k: Seq<char>) -> bool {
    exists|j: int| 0 <= j < s.len() && s[j].key@ == k
}

/// Some extension in `s` has id `k`.
pub open spec fn has_extension(s: Seq<ExtensionInfo>, k: Seq<char>) -> bool {
    exists|j: int| 0 <= j < s.len() && s[j].id@ == k
}

/// Some preset in `s` has id `k`.
pub open spec fn has_preset(s: Seq<PresetInfo>, k: Seq<char>) -> bool {
    exists|j: int| 0 <= j < s.len() && s[j].id@ == k
}

proof fn lemma_merged_integration_keys(l: Seq<IntegrationInfo>, avail: Seq<IntegrationInfo>)
    ensures
        forall|i: int| 0 <= i < l.len() ==> has_integration(merged_integrations(l, avail), (#[trigger] l[i]).key@),
        forall|i: int| 0 <= i < avail.len() ==> has_integration(merged_integrations(l, avail), (#[trigger] avail[i]).key@),
    decreases avail.len(),
{
    let r = merged_integrations(l, avail);
    if avail.len() == 0 {
        assert(r == l);
        assert forall|i: int| 0 <= i < l.len() implies has_integration(r, (#[trigger] l[i]).key@) by {
            assert(r[i].key@ == l[i].key@);
        }
    } else {
        let m = merged_integrations(l, avail.drop_last());
        let a = avail.last();
        lemma_merged_integration_keys(l, avail.drop_last());
        lemma_key_index_some(m, a.key@);
        assert(r == merge_integration(m, a));
        assert(r.len() >= m.len());
        assert forall|j: int| 0 <= j < m.len() implies #[trigger] r[j].key@ == m[j].key@ by {}
        assert forall|k: Seq<char>| has_integration(m, k) implies #[trigger] has_integration(r, k) by {
            let j = choose|j: int| 0 <= j < m.len() && m[j].key@ == k;
            assert(r[j].key@ == k);
        }
        assert(has_integration(r, a.key@)) by {
            match key_index(m, a.key@) {
                Some(x) => assert(r[x].key@ == a.key@),
                None => assert(r[m.len() as int].key@ == a.key@),
            }
        }
        assert forall|i: int| 0 <= i < l.len() implies has_integration(r, (#[trigger] l[i]).key@) by {
            assert(has_integration(m, l[i].key@));
        }
        assert forall|i: int| 0 <= i < avail.len() implies has_integration(r, (#[trigger] avail[i]).key@) by {
            if i < avail.len() - 1 {
                assert(avail.drop_last()[i] == avail[i]);
                assert(has_integration(m, avail[i].key@));
            }
        }
    }
}

proof fn lemma_merged_extension_ids(l: Seq<ExtensionInfo>, avail: Seq<ExtensionInfo>)
    ensures
        forall|i: int| 0 <= i < l.len() ==> has_extension(merged_extensions(l, avail), (#[trigger] l[i]).id@),
        forall|i: int| 0 <= i < avail.len() ==> has_extension(merged_extensions(l, avail), (#[trigger] avail[i]).id@),
    decreases avail.len(),
{
    let r = merged_extensions(l, avail);
    if avail.len() == 0 {
        assert(r == l);
        assert forall|i: int| 0 <= i < l.len() implies has_extension(r, (#[trigger] l[i]).id@) by {
            assert(r[i].id@ == l[i].id@);
        }
    } else {
        let m = merged_extensions(l, avail.drop_last());
        let a = avail.last();
        lemma_merged_extension_ids(l, avail.drop_last());
        lemma_ext_index_some(m, a.id@);
        assert(r == merge_extension(m, a));
        assert(r.len() >= m.len());
        assert forall|j: int| 0 <= j < m.len() implies #[trigger] r[j].id@ == m[j].id@ by {}
        assert forall|k: Seq<char>| has_extension(m, k) implies #[trigger] has_extension(r, k) by {
            let j = choose|j: int| 0 <= j < m.len() && m[j].id@ == k;
            assert(r[j].id@ == k);
        }
        assert(has_extension(r, a.id@)) by {
            match ext_index_of(m, a.id@) {
                Some(x) => assert(r[x].id@ == a.id@),
                None => assert(r[m.len() as int].id@ == a.id@),
            }
        }
        assert forall|i: int| 0 <= i < l.len() implies has_extension(r, (#[trigger] l[i]).id@) by {
            assert(has_extension(m, l[i].id@));
        }
        assert forall|i: int| 0 <= i < avail.len() implies has_extension(r, (#[trigger] avail[i]).id@) by {
            if i < avail.len() - 1 {
                assert(avail.drop_last()[i] == avail[i]);
                assert(has_extension(m, avail[i].id@));
            }
        }
    }
}

proof fn lemma_merged_preset_ids(l: Seq<PresetInfo>, avail: Seq<PresetInfo>)
    ensures
        forall|i: int| 0 <= i < l.len() ==> has_preset(merged_presets(l, avail), (#[trigger] l[i]).id@),
        forall|i: int| 0 <= i < avail.len() ==> has_preset(merged_presets(l, avail), (#[trigger] avail[i]).id@),
    decreases avail.len(),
{
    let r = merged_presets(l, avail);
    if avail.len() == 0 {
        assert(r == l);
        assert forall|i: int| 0 <= i < l.len() implies has_preset(r, (#[trigger] l[i]).id@) by {
            assert(r[i].id@ == l[i].id@);
        }
    } else {
        let m = merged_presets(l, avail.drop_last());
        let a = avail.last();
        lemma_merged_preset_ids(l, avail.drop_last());
        lemma_preset_index_some(m, a.id@);
        assert(r == merge_preset(m, a));
        assert(r.len() >= m.len());
        assert forall|j: int| 0 <= j < m.len() implies #[trigger] r[j].id@ == m[j].id@ by {}
        assert forall|k: Seq<char>| has_preset(m, k) implies #[trigger] has_preset(r, k) by {
            let j = choose|j: int| 0 <= j < m.len() && m[j].id@ == k;
            assert(r[j].id@ == k);
        }
        assert(has_preset(r, a.id@)) by {
            match preset_index_of(m, a.id@) {
                Some(x) => assert(r[x].id@ == a.id@),
                None => assert(r[m.len() as int].id@ == a.id@),
            }
        }
        assert forall|i: int| 0 <= i < l.len() implies has_preset(r, (#[trigger] l[i]).id@) by {
            assert(has_preset(m, l[i].id@));
        }
        assert forall|i: int| 0 <= i < avail.len() implies has_preset(r, (#[trigger] avail[i]).id@) by {
            if i < avail.len() - 1 {
                assert(avail.drop_last()[i] == avail[i]);
                assert(has_preset(m, avail[i].id@));
            }
        }
    }
}

/// After the cached catalog results are applied, the project's workflows are
/// the catalog's, every catalog integration, extension and preset has an entry
/// with its key in the matching project list, and every entry discovered
/// before still has one.
pub proof fn law_catalog_cache_complete(p: Project, q: Project, c: CatalogResults)
    requires
        cache_applied(p, q, c),
    ensures
        q.workflows@ == c.workflows@,
        forall|i: int| 0 <= i < c.integrations@.len()
            ==> has_integration(q.integrations@, (#[trigger] c.integrations@[i]).key@),
        forall|i: int| 0 <= i < c.extensions@.len()
            ==> has_extension(q.extensions@, (#[trigger] c.extensions@[i]).id@),
        forall|i: int| 0 <= i < c.presets@.len() ==> has_preset(q.presets@, (#[trigger] c.presets@[i]).id@),
        forall|i: int| 0 <= i < p.integrations@.len()
            ==> has_integration(q.integrations@, (#[trigger] p.integrations@[i]).key@),
        forall|i: int| 0 <= i < p.extensions@.len()
            ==> has_extension(q.extensions@, (#[trigger] p.extensions@[i]).id@),
        forall|i: int| 0 <= i < p.presets@.len() ==> has_preset(q.presets@, (#[trigger] p.presets@[i]).id@),
{
    lemma_merged_integration_keys(p.integrations@, c.integrations@);
    lemma_merged_extension_ids(p.extensions@, c.extensions@);
    lemma_merged_preset_ids(p.presets@, c.presets@);
}

/// No character of `w` is white space.
pub open spec fn no_white(w: Seq<char>) -> bool {
    forall|i: int| 0 <= i < w.len() ==> !is_white(#[trigger] w[i])
}

proof fn lemma_words_single(w: Seq<char>)
    requires
        w.len() > 0,
        no_white(w),
    ensures
        words(w) == seq![w],
    decreases w.len(),
{
    if w.len() == 1 {
        assert(w.drop_last() =~= Seq::<char>::empty());
        assert(words(w.drop_last()) == Seq::<Seq<char>>::empty());
        assert(!is_white(w.last()));
        assert(words(w) == Seq::<Seq<char>>::empty().push(seq![w.last()]));
        assert(seq![w.last()] =~= w);
        assert(Seq::<Seq<char>>::empty().push(w) =~= seq![w]);
    } else {
        lemma_words_single(w.drop_last());
        assert(!is_white(w[w.len() - 2]));
        assert(!is_white(w.last()));
        assert(w.drop_last().push(w.last()) =~= w);
        assert(seq![w.drop_last()].update(0, w.drop_last().push(w.last())) =~= seq![w]);
    }
}

proof fn lemma_words_after_space(s: Seq<char>, w: Seq<char>)
    requires
        w.len() > 0,
        no_white(w),
    ensures
        words(s + seq![' '] + w) == words(s).push(w),
    decreases w.len(),
{
    let t = s + seq![' '] + w;
    let sp = s + seq![' '];
    assert(is_white(' '));
    assert(sp.drop_last() =~= s);
    assert(sp.last() == ' ');
    assert(words(sp) == words(s));
    assert(!is_white(w.last()));
    assert(t.last() == w.last());
    if w.len() == 1 {
        assert(t.drop_last() =~= sp);
        assert(t[t.len() - 2] == ' ');
        assert(seq![w.last()] =~= w);
    } else {
        lemma_words_after_space(s, w.drop_last());
        assert(t.drop_last() =~= s + seq![' '] + w.drop_last());
        assert(t[t.len() - 2] == w[w.len() - 2]);
        assert(!is_white(w[w.len() - 2]));
        assert(w.drop_last().push(w.last()) =~= w);
        assert(words(s).push(w.drop_last()).update(words(s).len() as int, w.drop_last().push(w.last()))
            =~= words(s).push(w));
    }
}

proof fn lemma_digit_char(d: nat)
    requires
        d < 10,
    ensures
        digit_char(d) as u32 == '0' as u32 + d,
        !is_white(digit_char(d)),
        digit_char(d) != '+',
        '0' <= digit_char(d) <= '9',
{
}

proof fn lemma_decimal(n: nat)
    ensures
        decimal(n).len() > 0,
        all_digits(decimal(n)),
        no_white(decimal(n)),
        decimal(n)[0] != '+',
        digits_value(decimal(n)) == n,
    decreases n,
{
    lemma_digit_char(n % 10);
    if n < 10 {
        let d = decimal(n);
        assert(d == seq![digit_char(n)]);
        assert(d.drop_last() =~= Seq::<char>::empty());
        assert(digits_value(d.drop_last()) == 0);
        assert(d.last() == digit_char(n));
        assert(digits_value(d) == digits_value(d.drop_last()) * 10 + ((d.last() as u32) - ('0' as u32)) as nat);
    } else {
        lemma_decimal(n / 10);
        let d = decimal(n);
        assert(d == decimal(n / 10).push(digit_char(n % 10)));
        assert(d.drop_last() =~= decimal(n / 10));
        assert(d[0] == decimal(n / 10)[0]);
        assert(d.last() == digit_char(n % 10));
        assert(digits_value(d) == digits_value(d.drop_last()) * 10 + ((d.last() as u32) - ('0' as u32)) as nat);
        assert(digits_value(d) == (n / 10) * 10 + n % 10);
    }
}

/// The add-source form's prefill for a source whose URL and name are single
/// words (`url name`, or `url name priority`) parses back to that source's
/// URL, name and priority.
pub proof fn law_prefill_parses_back(src: CatalogSource)
    requires
        src.url@.len() > 0,
        src.name@.len() > 0,
        no_white(src.url@),
        no_white(src.name@),
    ensures
        catalog_add_parts(prefill_of(src)) == Some((src.url@, src.name@, src.priority)),
{
    let u = src.url@;
    let n = src.name@;
    lemma_words_single(u);
    lemma_words_after_space(u, n);
    assert(seq![u].push(n) =~= seq![u, n]);
    match src.priority {
        None => {},
        Some(p) => {
            let d = decimal(p as nat);
            lemma_decimal(p as nat);
            lemma_words_after_space(u + seq![' '] + n, d);
            assert(seq![u, n].push(d) =~= seq![u, n, d]);
            assert(parse_u8(d) == Some(p));
        },
    }
}

/// Typing a character at the cursor and then deleting the character before
/// the moved cursor gives back the text one started with.
pub proof fn law_insert_then_backspace(t: Seq<char>, p: int, c: char)
    requires
        0 <= p <= t.len(),
    ensures
        removed(inserted(t, p, seq![c]), p, p + 1) == t,
{
    let u = inserted(t, p, seq![c]);
    assert(u.len() == t.len() + 1);
    assert(removed(u, p, p + 1) =~= t);
}

} // verus!
