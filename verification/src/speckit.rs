//! A Spec-Kit project as discovered on disk: its features and what is
//! installed in it. Paths are kept as text.
use vstd::prelude::*;
use crate::registry::{ExtensionInfo, IntegrationInfo, PresetInfo, WorkflowInfo};
use crate::text::text_lt;
use crate::tmux::texts_of;
use crate::workflow::{infer_stage, stage_of, StageInputs, WorkflowStage};

verus! {

/// Paths of the artifacts a feature directory holds, when they exist.
#[derive(Debug)]
pub struct FeatureArtifacts {
    pub spec: Option<String>,
    pub plan: Option<String>,
    pub tasks: Option<String>,
    pub research: Option<String>,
    pub data_model: Option<String>,
    pub quickstart: Option<String>,
    pub contracts_dir: Option<String>,
}

impl Default for FeatureArtifacts {
    fn default() -> (r: Self)
        ensures
            r.spec is None && r.plan is None && r.tasks is None && r.research is None
                && r.data_model is None && r.quickstart is None && r.contracts_dir is None,
    {
        FeatureArtifacts {
            spec: None,
            plan: None,
            tasks: None,
            research: None,
            data_model: None,
            quickstart: None,
            contracts_dir: None,
        }
    }
}

impl Clone for FeatureArtifacts {
    fn clone(&self) -> (r: Self)
        ensures
            r == *self,
    {
        FeatureArtifacts {
            spec: self.spec.clone(),
            plan: self.plan.clone(),
            tasks: self.tasks.clone(),
            research: self.research.clone(),
            data_model: self.data_model.clone(),
            quickstart: self.quickstart.clone(),
            contracts_dir: self.contracts_dir.clone(),
        }
    }
}

/// One directory under `specs/`.
#[derive(Debug)]
pub struct Feature {
    pub id: String,
    pub branch: Option<String>,
    pub dir: String,
    pub artifacts: FeatureArtifacts,
    pub stage: WorkflowStage,
}

impl Clone for Feature {
    fn clone(&self) -> (r: Self)
        ensures
            r == *self,
    {
        Feature {
            id: self.id.clone(),
            branch: self.branch.clone(),
            dir: self.dir.clone(),
            artifacts: self.artifacts.clone(),
            stage: self.stage,
        }
    }
}

#[derive(Debug)]
pub struct Project {
    pub root: String,
    pub constitution: Option<String>,
    pub features: Vec<Feature>,
    pub extensions: Vec<ExtensionInfo>,
    pub presets: Vec<PresetInfo>,
    pub integrations: Vec<IntegrationInfo>,
    pub workflows: Vec<WorkflowInfo>,
}

/// Directory names under `specs/` that are features: all but hidden ones.
pub open spec fn feature_names(s: Seq<Seq<char>>) -> Seq<Seq<char>>
    decreases s.len(),
{
    if s.len() == 0 {
        Seq::empty()
    } else {
        let r = feature_names(s.drop_last());
        if s.last().len() > 0 && s.last()[0] == '.' { r } else { r.push(s.last()) }
    }
}

pub open spec fn sorted_texts(s: Seq<Seq<char>>) -> bool {
    forall|i: int, j: int| 0 <= i < j < s.len() ==> !text_lt(#[trigger] s[j], #[trigger] s[i])
}

/// `slice::sort` on texts: the same texts, in ascending order of `String`'s
/// `Ord`, which compares the UTF-8 bytes and so orders by code point.
#[verifier::external_body]
fn sort_texts(v: &mut Vec<String>)
    ensures
        texts_of(final(v)@).to_multiset() == texts_of(old(v)@).to_multiset(),
        sorted_texts(texts_of(final(v)@)),
{
    v.sort();
}

/// The feature directories among `names`, in name order.
pub fn feature_dir_names(names: Vec<String>) -> (r: Vec<String>)
    ensures
        texts_of(r@).to_multiset() == feature_names(texts_of(names@)).to_multiset(),
        sorted_texts(texts_of(r@)),
{
    let mut kept: Vec<String> = Vec::new();
    let mut i: usize = 0;
    let ghost all = texts_of(names@);
    while i < names.len()
        invariant
            i <= names@.len(),
            all == texts_of(names@),
            texts_of(kept@) == feature_names(all.take(i as int)),
        decreases names@.len() - i,
    {
        assert(all.take(i + 1).drop_last() =~= all.take(i as int));
        assert(all.take(i + 1).last() == names@[i as int]@);
        let hidden = starts_with_dot(names[i].as_str());
        if !hidden {
            let ghost before = texts_of(kept@);
            kept.push(names[i].clone());
            assert(texts_of(kept@) =~= before.push(names@[i as int]@));
        }
        i = i + 1;
    }
    assert(all.take(i as int) =~= all);
    sort_texts(&mut kept);
    kept
}

fn starts_with_dot(s: &str) -> (r: bool)
    ensures
        r == (s@.len() > 0 && s@[0] == '.'),
{
    let v = crate::text::chars_of(s);
    v.len() > 0 && v[0] == '.'
}

/// A feature directory's entry: its id is its name, its branch the same name,
/// and its stage what its artifacts show.
pub fn feature_from_dir(id: String, dir: String, artifacts: FeatureArtifacts, inputs: &StageInputs) -> (r: Feature)
    ensures
        r.id == id,
        r.branch == Some(id),
        r.dir == dir,
        r.artifacts == artifacts,
        r.stage == stage_of(*inputs),
{
    let stage = infer_stage(inputs);
    Feature { branch: Some(id.clone()), id, dir, artifacts, stage }
}


/// One directory under `specs/` as read from disk: its name, its path, the
/// artifacts in it and what stage inference reads of them.
#[derive(Debug)]
pub struct FeatureDir {
    pub name: String,
    pub dir: String,
    pub artifacts: FeatureArtifacts,
    pub inputs: StageInputs,
}

/// Whether a directory name is hidden.
pub open spec fn hidden_name(name: Seq<char>) -> bool {
    name.len() > 0 && name[0] == '.'
}

/// The feature a directory stands for.
pub open spec fn dir_feature(d: FeatureDir) -> Feature {
    Feature {
        id: d.name,
        branch: Some(d.name),
        dir: d.dir,
        artifacts: d.artifacts,
        stage: stage_of(d.inputs),
    }
}

/// The features among `dirs`, in the order given: every directory but the
/// hidden ones.
pub open spec fn features_of(dirs: Seq<FeatureDir>) -> Seq<Feature>
    decreases dirs.len(),
{
    if dirs.len() == 0 {
        Seq::empty()
    } else {
        let r = features_of(dirs.drop_last());
        if hidden_name(dirs.last().name@) {
            r
        } else {
            r.push(dir_feature(dirs.last()))
        }
    }
}

pub open spec fn feature_ids(s: Seq<Feature>) -> Seq<Seq<char>> {
    s.map_values(|f: Feature| f.id@)
}

/// `slice::sort_by_key` with each feature's id as the key: the same features,
/// in ascending order of their ids (`String`'s `Ord`, by code point).
#[verifier::external_body]
fn sort_features_by_id(v: &mut Vec<Feature>)
    ensures
        final(v)@.to_multiset() == old(v)@.to_multiset(),
        sorted_texts(feature_ids(final(v)@)),
{
    v.sort_by_key(|f| f.id.clone());
}

impl Project {
    /// The project under `root` from what was read on disk: the constitution's
    /// path where that file exists, the directories under `specs/` and what
    /// the registries list. Hidden directories are no features; the others
    /// come in order of their names. Workflows come from the catalogs later.
    pub fn discover(
        root: String,
        constitution: Option<String>,
        dirs: Vec<FeatureDir>,
        extensions: Vec<ExtensionInfo>,
        presets: Vec<PresetInfo>,
        integrations: Vec<IntegrationInfo>,
    ) -> (r: Project)
        ensures
            r.root == root,
            r.constitution == constitution,
            r.features@.to_multiset() == features_of(dirs@).to_multiset(),
            sorted_texts(feature_ids(r.features@)),
            r.extensions == extensions,
            r.presets == presets,
            r.integrations == integrations,
            r.workflows@.len() == 0,
    {
        let mut features: Vec<Feature> = Vec::new();
        let mut i: usize = 0;
        while i < dirs.len()
            invariant
                i <= dirs@.len(),
                features@ == features_of(dirs@.take(i as int)),
            decreases dirs@.len() - i,
        {
            assert(dirs@.take(i + 1).drop_last() =~= dirs@.take(i as int));
            assert(dirs@.take(i + 1).last() == dirs@[i as int]);
            let d = &dirs[i];
            if !starts_with_dot(d.name.as_str()) {
                let f = feature_from_dir(d.name.clone(), d.dir.clone(), d.artifacts.clone(), &d.inputs);
                assert(f == dir_feature(dirs@[i as int]));
                features.push(f);
            }
            i = i + 1;
        }
        assert(dirs@.take(dirs@.len() as int) =~= dirs@);
        sort_features_by_id(&mut features);
        Project { root, constitution, features, extensions, presets, integrations, workflows: Vec::new() }
    }
}

} // verus!
