//! The orchestration engine: manifest discovery, pipeline dispatch, the
//! fan-out result collection, and the tag/category metadata merge.
//!
//! A manifest declares an ordered list of [`Pipeline`]s. Each declaration is
//! dispatched on its [`PipelineConfig`] to a processing strategy; the
//! strategy's per-file transforms run concurrently in the host, and their
//! outcomes (one `Result` per matched file) are handed back here, where the
//! successes are flattened, the failures isolated, and the declaration's
//! tags and categories merged into every produced [`OutAsset`].

use vstd::prelude::*;

use crate::paths::{ends_with, extension_of, file_name_of, relative_to, with_extension_of};
use crate::paths::{file_name, relative_path, str_ends_with, str_eq, with_extension};

verus! {

/// A closed tagged union naming a processing strategy.
///
/// One kind is implemented (the script-bundle passthrough); the others are
/// declared extension points whose dispatch is a guaranteed fatal condition.
/// The union is exhaustive by construction: adding a kind without wiring a
/// dispatch arm is a compile-time error, never a silent no-op.
#[derive(Debug, Clone, Copy, PartialEq, Eq, Structural)]
pub enum PipelineConfig {
    ScriptBundles,
    Models,
    Materials,
    Audio,
}

/// One entry from a manifest: a strategy kind plus source filters, tags and
/// category labels. Immutable once parsed; owned by the orchestrator for the
/// duration of one dispatch.
#[derive(Debug, Clone)]
pub struct Pipeline {
    pub pipeline: PipelineConfig,
    /// Source patterns; empty means "use the strategy's own matching".
    pub sources: Vec<String>,
    /// Appended to every produced artifact's tags (order and duplicates kept).
    pub tags: Vec<String>,
    /// Unioned slot-by-slot into every produced artifact's categories.
    pub categories: Vec<Vec<String>>,
}

/// Mathematical model of a [`Pipeline`].
#[verifier::ext_equal]
pub ghost struct PipelineView {
    pub pipeline: PipelineConfig,
    pub sources: Seq<Seq<char>>,
    pub tags: Seq<Seq<char>>,
    pub categories: Seq<Seq<Seq<char>>>,
}

impl View for Pipeline {
    type V = PipelineView;

    open spec fn view(&self) -> PipelineView {
        PipelineView {
            pipeline: self.pipeline,
            sources: self.sources.deep_view(),
            tags: self.tags.deep_view(),
            categories: self.categories.deep_view(),
        }
    }
}

impl DeepView for Pipeline {
    type V = PipelineView;

    open spec fn deep_view(&self) -> PipelineView {
        self.view()
    }
}

/// The semantic type of a produced asset.
#[derive(Debug, Clone, Copy, PartialEq, Eq, Structural)]
pub enum AssetType {
    ScriptBundle,
}

/// A preview attached to a produced asset.
#[derive(Debug, Clone, Copy, PartialEq, Eq, Structural)]
pub enum OutAssetPreview {
    NoPreview,
}

/// Where a produced asset's bytes live: the stable location the content
/// sink returned for them.
#[derive(Debug, Clone, PartialEq, Eq)]
pub enum OutAssetContent {
    Content(String),
}

/// Mathematical model of [`OutAssetContent`].
#[verifier::ext_equal]
pub ghost enum OutAssetContentView {
    Content(Seq<char>),
}

impl View for OutAssetContent {
    type V = OutAssetContentView;

    open spec fn view(&self) -> OutAssetContentView {
        match self {
            OutAssetContent::Content(loc) => OutAssetContentView::Content(loc@),
        }
    }
}

/// One unit of work product. Produced by a processing strategy, then mutated
/// exactly once by the dispatcher to merge in the owning declaration's tags
/// and categories; immutable afterwards.
#[derive(Debug, Clone, PartialEq, Eq)]
pub struct OutAsset {
    pub type_: AssetType,
    pub hidden: bool,
    pub name: String,
    pub tags: Vec<String>,
    pub categories: Vec<Vec<String>>,
    pub preview: OutAssetPreview,
    pub content: OutAssetContent,
    pub source: Option<String>,
}

/// Mathematical model of an [`OutAsset`].
#[verifier::ext_equal]
pub ghost struct OutAssetView {
    pub type_: AssetType,
    pub hidden: bool,
    pub name: Seq<char>,
    pub tags: Seq<Seq<char>>,
    pub categories: Seq<Seq<Seq<char>>>,
    pub preview: OutAssetPreview,
    pub content: OutAssetContentView,
    pub source: Option<Seq<char>>,
}

impl View for OutAsset {
    type V = OutAssetView;

    open spec fn view(&self) -> OutAssetView {
        OutAssetView {
            type_: self.type_,
            hidden: self.hidden,
            name: self.name@,
            tags: self.tags.deep_view(),
            categories: self.categories.deep_view(),
            preview: self.preview,
            content: self.content@,
            source: self.source.deep_view(),
        }
    }
}

impl DeepView for OutAsset {
    type V = OutAssetView;

    open spec fn deep_view(&self) -> OutAssetView {
        self.view()
    }
}

/// No label occurs twice: the slot is a set.
pub open spec fn labels_distinct(labels: Seq<Seq<char>>) -> bool {
    forall|i: int, j: int| 0 <= i < j < labels.len() ==> labels[i] != labels[j]
}

impl OutAssetView {
    /// Every category slot is a set of labels.
    pub open spec fn wf(self) -> bool {
        forall|i: int|
            0 <= i < self.categories.len() ==> labels_distinct(#[trigger] self.categories[i])
    }
}

// ---------------------------------------------------------------------------
// Metadata merge
// ---------------------------------------------------------------------------

/// The labels of `add` folded into `orig` left to right, keeping each label
/// that `orig` (or an earlier fold step) does not already hold. The result is
/// the set union of the two slots; the order in which new labels land is an
/// implementation choice no caller may rely on.
pub open spec fn merge_labels(orig: Seq<Seq<char>>, add: Seq<Seq<char>>) -> Seq<Seq<char>>
    decreases add.len(),
{
    if add.len() == 0 {
        orig
    } else {
        let rest = merge_labels(orig, add.drop_last());
        if rest.contains(add.last()) {
            rest
        } else {
            rest.push(add.last())
        }
    }
}

/// Slot-by-slot merge, bounded by the artifact's own slot count: a slot the
/// declaration names but the artifact lacks is never fabricated.
pub open spec fn merge_categories(
    orig: Seq<Seq<Seq<char>>>,
    decl: Seq<Seq<Seq<char>>>,
) -> Seq<Seq<Seq<char>>> {
    Seq::new(
        orig.len(),
        |i: int|
            if i < decl.len() {
                merge_labels(orig[i], decl[i])
            } else {
                orig[i]
            },
    )
}

/// The artifact after the dispatcher's metadata merge: the declaration's
/// tags appended to the artifact's own, categories unioned slot by slot,
/// every other field untouched.
pub open spec fn merged_with(a: OutAssetView, p: PipelineView) -> OutAssetView {
    OutAssetView { tags: a.tags + p.tags, categories: merge_categories(a.categories, p.categories), ..a }
}

/// Whether `v` holds a string with the characters of `x`.
fn vec_contains_string(v: &Vec<String>, x: &String) -> (r: bool)
    ensures
        r == v.deep_view().contains(x@),
{
    let mut i: usize = 0;
    while i < v.len()
        invariant
            i <= v.len(),
            forall|k: int| 0 <= k < i ==> v.deep_view()[k] != x@,
        decreases v.len() - i,
    {
        if v[i].eq(x) {
            assert(v.deep_view()[i as int] == x@);
            return true;
        }
        i = i + 1;
    }
    assert(!v.deep_view().contains(x@));
    false
}

/// `base` with every string of `extra` appended, in order, duplicates kept.
fn append_strings(base: Vec<String>, extra: &Vec<String>) -> (r: Vec<String>)
    ensures
        r.deep_view() == base.deep_view() + extra.deep_view(),
{
    let ghost b0 = base.deep_view();
    let mut out = base;
    let mut j: usize = 0;
    while j < extra.len()
        invariant
            j <= extra.len(),
            out.deep_view() =~= b0 + extra.deep_view().take(j as int),
        decreases extra.len() - j,
    {
        let ghost dv_old = out.deep_view();
        out.push(extra[j].clone());
        assert(out.deep_view() =~= dv_old.push(extra.deep_view()[j as int]));
        assert(out.deep_view() =~= b0 + extra.deep_view().take(j as int + 1));
        j = j + 1;
    }
    assert(out.deep_view() =~= b0 + extra.deep_view());
    out
}

/// One category slot with the declaration's labels unioned in.
fn merge_labels_exec(orig: Vec<String>, add: &Vec<String>) -> (r: Vec<String>)
    ensures
        r.deep_view() == merge_labels(orig.deep_view(), add.deep_view()),
{
    let ghost o0 = orig.deep_view();
    let mut out = orig;
    let mut j: usize = 0;
    while j < add.len()
        invariant
            j <= add.len(),
            out.deep_view() =~= merge_labels(o0, add.deep_view().take(j as int)),
        decreases add.len() - j,
    {
        let ghost prefix = add.deep_view().take(j as int);
        let ghost next = add.deep_view().take(j as int + 1);
        proof {
            assert(next.drop_last() =~= prefix);
            assert(next.last() == add.deep_view()[j as int]);
        }
        if !vec_contains_string(&out, &add[j]) {
            let ghost dv_old = out.deep_view();
            out.push(add[j].clone());
            assert(out.deep_view() =~= dv_old.push(add.deep_view()[j as int]));
        }
        assert(out.deep_view() =~= merge_labels(o0, next));
        j = j + 1;
    }
    assert(add.deep_view().take(add.len() as int) =~= add.deep_view());
    out
}

/// Every category slot of the artifact with the declaration's matching slot
/// unioned in; slots beyond the declaration's count unchanged.
fn merge_categories_exec(orig: Vec<Vec<String>>, decl: &Vec<Vec<String>>) -> (r: Vec<Vec<String>>)
    ensures
        r.deep_view() == merge_categories(orig.deep_view(), decl.deep_view()),
{
    let ghost o0 = orig.deep_view();
    let mut rem = orig;
    let mut out: Vec<Vec<String>> = Vec::new();
    while rem.len() > 0
        invariant
            out.len() + rem.len() == o0.len(),
            rem.deep_view() =~= o0.skip(out.len() as int),
            out.deep_view() =~= merge_categories(o0, decl.deep_view()).take(out.len() as int),
        decreases rem.len(),
    {
        let ghost i = out.len() as int;
        let ghost rem_dv = rem.deep_view();
        let ghost out_dv = out.deep_view();
        let idx = out.len();
        let cat = rem.remove(0);
        proof {
            assert(cat.deep_view() == rem_dv[0]);
            assert(rem.deep_view() =~= rem_dv.drop_first());
            assert(cat.deep_view() == o0[i]);
            assert(rem.deep_view() =~= o0.skip(i + 1));
        }
        if idx < decl.len() {
            let slot = merge_labels_exec(cat, &decl[idx]);
            out.push(slot);
            assert(out.deep_view() =~= out_dv.push(merge_labels(o0[i], decl.deep_view()[i])));
        } else {
            out.push(cat);
            assert(out.deep_view() =~= out_dv.push(o0[i]));
        }
        assert(out.deep_view() =~= merge_categories(o0, decl.deep_view()).take(i + 1));
    }
    assert(out.deep_view() =~= merge_categories(o0, decl.deep_view()));
    out
}

/// The dispatcher's metadata merge: append the declaration's tags to the
/// artifact's, union the declaration's categories into the artifact's
/// existing slots, and leave everything else as the strategy produced it.
pub fn merged(asset: OutAsset, decl: &Pipeline) -> (r: OutAsset)
    ensures
        r@ == merged_with(asset@, decl@),
{
    let ghost a0 = asset@;
    let OutAsset { type_, hidden, name, tags, categories, preview, content, source } = asset;
    let tags = append_strings(tags, &decl.tags);
    let categories = merge_categories_exec(categories, &decl.categories);
    let r = OutAsset { type_, hidden, name, tags, categories, preview, content, source };
    assert(r@ =~= merged_with(a0, decl@));
    r
}

// ---------------------------------------------------------------------------
// Strategy dispatch
// ---------------------------------------------------------------------------

/// An implemented processing strategy.
#[derive(Debug, Clone, Copy, PartialEq, Eq, Structural)]
pub enum Strategy {
    ScriptBundles,
}

/// A fatal, batch-aborting condition.
#[derive(Debug, Clone, Copy, PartialEq, Eq, Structural)]
pub enum PipelineError {
    /// A declared-but-unimplemented kind was dispatched. Silently skipping
    /// it would mean an asset that should exist does not, so this is loud.
    UnsupportedPipelineKind(PipelineConfig),
}

/// Maps a pipeline kind to its processing strategy. Every kind has an arm:
/// the implemented kind yields its strategy, every other kind a fatal
/// error — never an empty or silent result.
pub fn strategy_for(kind: PipelineConfig) -> (r: Result<Strategy, PipelineError>)
    ensures
        kind is ScriptBundles ==> r == Ok::<Strategy, PipelineError>(Strategy::ScriptBundles),
        !(kind is ScriptBundles) ==> r == Err::<Strategy, PipelineError>(
            PipelineError::UnsupportedPipelineKind(kind),
        ),
{
    match kind {
        PipelineConfig::ScriptBundles => Ok(Strategy::ScriptBundles),
        PipelineConfig::Models => Err(PipelineError::UnsupportedPipelineKind(kind)),
        PipelineConfig::Materials => Err(PipelineError::UnsupportedPipelineKind(kind)),
        PipelineConfig::Audio => Err(PipelineError::UnsupportedPipelineKind(kind)),
    }
}

// ---------------------------------------------------------------------------
// The script-bundle strategy's pure parts
// ---------------------------------------------------------------------------

/// The extension the script-bundle strategy claims.
pub open spec fn script_bundle_ext() -> Seq<char> {
    "script_bundle"@
}

/// Whether the script-bundle strategy owns this input file.
pub open spec fn is_script_bundle_path(path: Seq<char>) -> bool {
    extension_of(path) == Some(script_bundle_ext())
}

/// The script-bundle match predicate: the file's extension equals the
/// literal `script_bundle` token.
pub fn script_bundle_match(path: &str) -> (r: bool)
    ensures
        r == is_script_bundle_path(path@),
{
    match crate::paths::extension(path) {
        Option::Some(e) => str_eq(e.as_str(), "script_bundle"),
        Option::None => false,
    }
}

/// The script-bundle match predicate as a value, for use with `Seq::filter`.
pub open spec fn script_bundle_pred() -> spec_fn(Seq<char>) -> bool {
    |p: Seq<char>| is_script_bundle_path(p)
}

/// The fan-out filter step for the script-bundle strategy: the input files
/// the strategy claims, in input order.
pub fn script_bundle_files(files: &Vec<String>) -> (r: Vec<String>)
    ensures
        r.deep_view() == files.deep_view().filter(script_bundle_pred()),
{
    let mut out: Vec<String> = Vec::new();
    let mut i: usize = 0;
    while i < files.len()
        invariant
            i <= files.len(),
            out.deep_view() =~= files.deep_view().take(i as int).filter(script_bundle_pred()),
        decreases files.len() - i,
    {
        let ghost prefix = files.deep_view().take(i as int);
        let ghost next = files.deep_view().take(i as int + 1);
        proof {
            assert(next.drop_last() =~= prefix);
            assert(next =~= prefix.push(files.deep_view()[i as int]));
            prefix.lemma_filter_push(files.deep_view()[i as int], script_bundle_pred());
        }
        if script_bundle_match(files[i].as_str()) {
            let ghost out_dv = out.deep_view();
            out.push(files[i].clone());
            assert(out.deep_view() =~= out_dv.push(files.deep_view()[i as int]));
        }
        assert(out.deep_view() =~= next.filter(script_bundle_pred()));
        i = i + 1;
    }
    assert(files.deep_view().take(files.len() as int) =~= files.deep_view());
    out
}

/// The sink path for a matched file: its location relative to the manifest,
/// with the `script_bundle` extension.
pub fn script_bundle_output_path(root: &str, file: &str) -> (r: String)
    ensures
        r@ == with_extension_of(relative_to(root@, file@), script_bundle_ext()),
{
    let rel = relative_path(root, file);
    with_extension(rel.as_str(), "script_bundle")
}

/// The artifact the script-bundle transform produces for one matched file
/// whose bytes the sink stored at `content`.
pub open spec fn script_bundle_asset(file: Seq<char>, content: Seq<char>) -> OutAssetView {
    OutAssetView {
        type_: AssetType::ScriptBundle,
        hidden: false,
        name: file_name_of(file),
        tags: Seq::empty(),
        categories: Seq::empty(),
        preview: OutAssetPreview::NoPreview,
        content: OutAssetContentView::Content(content),
        source: Some(file),
    }
}

/// Builds the one artifact a matched script-bundle file yields: not hidden,
/// no tags or categories of its own, content at the sink's returned
/// location, origin set to the matched file.
pub fn make_script_bundle_asset(file: &str, content: String) -> (r: OutAsset)
    ensures
        r@ == script_bundle_asset(file@, content@),
        r@.wf(),
{
    let name = file_name(file);
    let r = OutAsset {
        type_: AssetType::ScriptBundle,
        hidden: false,
        name,
        tags: Vec::new(),
        categories: Vec::new(),
        preview: OutAssetPreview::NoPreview,
        content: OutAssetContent::Content(content),
        source: Some(file.to_owned()),
    };
    assert(r@ =~= script_bundle_asset(file@, content@));
    r
}

// ---------------------------------------------------------------------------
// Manifest discovery
// ---------------------------------------------------------------------------

/// The two on-disk manifest encodings.
#[derive(Debug, Clone, Copy, PartialEq, Eq, Structural)]
pub enum ManifestFormat {
    Toml,
    Json,
}

/// A file is a manifest candidate solely by suffix.
pub open spec fn spec_manifest_format(path: Seq<char>) -> Option<ManifestFormat> {
    if ends_with(path, "pipeline.toml"@) {
        Some(ManifestFormat::Toml)
    } else if ends_with(path, "pipeline.json"@) {
        Some(ManifestFormat::Json)
    } else {
        None
    }
}

/// Classifies an input file: a manifest in one of the two recognized
/// formats, or not a manifest at all.
pub fn manifest_format(path: &str) -> (r: Option<ManifestFormat>)
    ensures
        r == spec_manifest_format(path@),
{
    if str_ends_with(path, "pipeline.toml") {
        Some(ManifestFormat::Toml)
    } else if str_ends_with(path, "pipeline.json") {
        Some(ManifestFormat::Json)
    } else {
        None
    }
}

/// Why one manifest's bytes could not be decoded. Reported and skipped;
/// the rest of the batch continues.
#[derive(Debug, Clone, PartialEq, Eq)]
pub struct ManifestDecodeError {
    pub manifest: String,
    pub message: String,
}

/// One discovered manifest candidate together with the host's decode
/// outcome for its bytes.
pub struct ManifestOutcome {
    pub source: String,
    pub decoded: Result<Vec<Pipeline>, ManifestDecodeError>,
}

/// A pipeline declaration paired with the location of the manifest that
/// declared it.
pub struct DiscoveredPipeline {
    pub root: String,
    pub pipeline: Pipeline,
}

/// Mathematical model of a [`DiscoveredPipeline`].
#[verifier::ext_equal]
pub ghost struct DiscoveredPipelineView {
    pub root: Seq<char>,
    pub pipeline: PipelineView,
}

impl View for DiscoveredPipeline {
    type V = DiscoveredPipelineView;

    open spec fn view(&self) -> DiscoveredPipelineView {
        DiscoveredPipelineView { root: self.root@, pipeline: self.pipeline@ }
    }
}

impl DeepView for DiscoveredPipeline {
    type V = DiscoveredPipelineView;

    open spec fn deep_view(&self) -> DiscoveredPipelineView {
        self.view()
    }
}

/// Every declaration of one manifest, paired with that manifest's location.
pub open spec fn with_root(root: Seq<char>, ps: Seq<PipelineView>) -> Seq<DiscoveredPipelineView> {
    Seq::new(ps.len(), |i: int| DiscoveredPipelineView { root: root, pipeline: ps[i] })
}

/// The declarations of every successfully decoded manifest, in manifest
/// order, each paired with its manifest's location.
pub open spec fn declarations_of(ms: Seq<ManifestOutcome>) -> Seq<DiscoveredPipelineView>
    decreases ms.len(),
{
    if ms.len() == 0 {
        Seq::empty()
    } else {
        (match ms[0].decoded {
            Result::Ok(ps) => with_root(ms[0].source@, ps.deep_view()),
            Result::Err(_) => Seq::empty(),
        }) + declarations_of(ms.drop_first())
    }
}

/// The decode failures, in manifest order.
pub open spec fn decode_failures_of(ms: Seq<ManifestOutcome>) -> Seq<ManifestDecodeError>
    decreases ms.len(),
{
    if ms.len() == 0 {
        Seq::empty()
    } else {
        (match ms[0].decoded {
            Result::Ok(_) => Seq::empty(),
            Result::Err(e) => seq![e],
        }) + decode_failures_of(ms.drop_first())
    }
}

/// Flattens discovery: every decoded manifest contributes its declarations
/// in order, a manifest that failed to decode contributes exactly one
/// reported failure and nothing else, and no failure aborts the batch.
pub fn collect_declarations(manifests: Vec<ManifestOutcome>) -> (r: (
    Vec<DiscoveredPipeline>,
    Vec<ManifestDecodeError>,
))
    ensures
        r.0.deep_view() == declarations_of(manifests@),
        r.1@ == decode_failures_of(manifests@),
{
    let ghost ms0 = manifests@;
    let mut rem = manifests;
    let mut decls: Vec<DiscoveredPipeline> = Vec::new();
    let mut fails: Vec<ManifestDecodeError> = Vec::new();
    while rem.len() > 0
        invariant
            decls.deep_view() + declarations_of(rem@) =~= declarations_of(ms0),
            fails@ + decode_failures_of(rem@) =~= decode_failures_of(ms0),
        decreases rem.len(),
    {
        let ghost rem_old = rem@;
        let ghost decls_dv = decls.deep_view();
        let m = rem.remove(0);
        proof {
            assert(rem@ =~= rem_old.drop_first());
        }
        let ManifestOutcome { source, decoded } = m;
        match decoded {
            Result::Ok(ps) => {
                let ghost ps_dv = ps.deep_view();
                let ghost src = source@;
                let mut psrem = ps;
                while psrem.len() > 0
                    invariant
                        psrem.len() <= ps_dv.len(),
                        source@ == src,
                        psrem.deep_view() =~= ps_dv.skip(ps_dv.len() - psrem.len()),
                        decls.deep_view() =~= decls_dv + with_root(
                            src,
                            ps_dv.take(ps_dv.len() - psrem.len()),
                        ),
                    decreases psrem.len(),
                {
                    let ghost k = ps_dv.len() - psrem.len() as int;
                    let ghost psrem_dv = psrem.deep_view();
                    let ghost d_old = decls.deep_view();
                    let p = psrem.remove(0);
                    proof {
                        assert(p.deep_view() == psrem_dv[0]);
                        assert(psrem.deep_view() =~= psrem_dv.drop_first());
                        assert(p.deep_view() == ps_dv[k]);
                        assert(psrem.deep_view() =~= ps_dv.skip(k + 1));
                    }
                    let d = DiscoveredPipeline { root: source.clone(), pipeline: p };
                    decls.push(d);
                    proof {
                        assert(d@ == DiscoveredPipelineView { root: src, pipeline: ps_dv[k] });
                        assert(decls.deep_view() =~= d_old.push(d@));
                        assert(decls.deep_view() =~= decls_dv + with_root(src, ps_dv.take(k + 1)));
                    }
                }
                proof {
                    assert(ps_dv.take(ps_dv.len() as int) =~= ps_dv);
                    assert(decls.deep_view() =~= decls_dv + with_root(src, ps_dv));
                    assert(decls.deep_view() + declarations_of(rem@) =~= declarations_of(ms0));
                    assert(fails@ + decode_failures_of(rem@) =~= decode_failures_of(ms0));
                }
            },
            Result::Err(e) => {
                let ghost fails_v = fails@;
                fails.push(e);
                proof {
                    assert(fails@ =~= fails_v.push(e));
                    assert(decls.deep_view() + declarations_of(rem@) =~= declarations_of(ms0));
                    assert(fails@ + decode_failures_of(rem@) =~= decode_failures_of(ms0));
                }
            },
        }
    }
    (decls, fails)
}

// ---------------------------------------------------------------------------
// Fan-out collection
// ---------------------------------------------------------------------------

/// A per-file transform failure, isolated from its siblings.
#[derive(Debug, Clone, PartialEq, Eq)]
pub struct FileTransformError {
    pub file: String,
    pub message: String,
}

/// The artifacts of the successful per-file transforms, flattened in
/// outcome order.
pub open spec fn fanout_artifacts(
    rs: Seq<Result<Vec<OutAsset>, FileTransformError>>,
) -> Seq<OutAssetView>
    decreases rs.len(),
{
    if rs.len() == 0 {
        Seq::empty()
    } else {
        (match rs[0] {
            Result::Ok(v) => v.deep_view(),
            Result::Err(_) => Seq::empty(),
        }) + fanout_artifacts(rs.drop_first())
    }
}

/// The failed per-file transforms' errors, in outcome order.
pub open spec fn fanout_errors(
    rs: Seq<Result<Vec<OutAsset>, FileTransformError>>,
) -> Seq<FileTransformError>
    decreases rs.len(),
{
    if rs.len() == 0 {
        Seq::empty()
    } else {
        (match rs[0] {
            Result::Ok(_) => Seq::empty(),
            Result::Err(e) => seq![e],
        }) + fanout_errors(rs.drop_first())
    }
}

/// Collects a fan-out's per-file outcomes: the successes flattened into one
/// artifact list, the failures isolated into a report list. A failed file
/// contributes its error and zero artifacts, and never aborts its siblings.
pub fn collect_outcomes(outcomes: Vec<Result<Vec<OutAsset>, FileTransformError>>) -> (r: (
    Vec<OutAsset>,
    Vec<FileTransformError>,
))
    ensures
        r.0.deep_view() == fanout_artifacts(outcomes@),
        r.1@ == fanout_errors(outcomes@),
{
    let ghost rs0 = outcomes@;
    let mut rem = outcomes;
    let mut arts: Vec<OutAsset> = Vec::new();
    let mut errs: Vec<FileTransformError> = Vec::new();
    while rem.len() > 0
        invariant
            arts.deep_view() + fanout_artifacts(rem@) =~= fanout_artifacts(rs0),
            errs@ + fanout_errors(rem@) =~= fanout_errors(rs0),
        decreases rem.len(),
    {
        let ghost rem_old = rem@;
        let ghost arts_dv = arts.deep_view();
        let ghost errs_v = errs@;
        let r0 = rem.remove(0);
        proof {
            assert(rem@ =~= rem_old.drop_first());
        }
        match r0 {
            Result::Ok(mut v) => {
                let ghost v_dv = v.deep_view();
                arts.append(&mut v);
                proof {
                    assert(arts.deep_view() =~= arts_dv + v_dv);
                    assert(arts.deep_view() + fanout_artifacts(rem@) =~= fanout_artifacts(rs0));
                    assert(errs@ + fanout_errors(rem@) =~= fanout_errors(rs0));
                }
            },
            Result::Err(e) => {
                errs.push(e);
                proof {
                    assert(errs@ =~= errs_v.push(e));
                    assert(arts.deep_view() + fanout_artifacts(rem@) =~= fanout_artifacts(rs0));
                    assert(errs@ + fanout_errors(rem@) =~= fanout_errors(rs0));
                }
            },
        }
    }
    proof {
        assert(arts.deep_view() + fanout_artifacts(rem@) =~= arts.deep_view());
        assert(errs@ + fanout_errors(rem@) =~= errs@);
    }
    (arts, errs)
}

// ---------------------------------------------------------------------------
// Pipeline dispatch
// ---------------------------------------------------------------------------

/// Every artifact merged with the owning declaration's metadata.
pub open spec fn merged_all(arts: Seq<OutAssetView>, p: PipelineView) -> Seq<OutAssetView> {
    arts.map_values(|a: OutAssetView| merged_with(a, p))
}

/// Applies the dispatcher's metadata merge to every collected artifact.
pub fn merge_all(assets: Vec<OutAsset>, decl: &Pipeline) -> (r: Vec<OutAsset>)
    ensures
        r.deep_view() == merged_all(assets.deep_view(), decl@),
{
    let ghost a0 = assets.deep_view();
    let mut rem = assets;
    let mut out: Vec<OutAsset> = Vec::new();
    while rem.len() > 0
        invariant
            out.len() + rem.len() == a0.len(),
            rem.deep_view() =~= a0.skip(out.len() as int),
            out.deep_view() =~= merged_all(a0, decl@).take(out.len() as int),
        decreases rem.len(),
    {
        let ghost i = out.len() as int;
        let ghost rem_dv = rem.deep_view();
        let ghost out_dv = out.deep_view();
        let a = rem.remove(0);
        proof {
            assert(a.deep_view() == rem_dv[0]);
            assert(rem.deep_view() =~= rem_dv.drop_first());
            assert(a.deep_view() == a0[i]);
            assert(rem.deep_view() =~= a0.skip(i + 1));
        }
        let m = merged(a, decl);
        out.push(m);
        proof {
            assert(out.deep_view() =~= out_dv.push(merged_with(a0[i], decl@)));
            assert(out.deep_view() =~= merged_all(a0, decl@).take(i + 1));
        }
    }
    assert(out.deep_view() =~= merged_all(a0, decl@));
    out
}

impl Pipeline {
    /// Dispatches this declaration on its kind and post-processes the
    /// strategy's fan-out outcomes: the successes flattened, the failures
    /// isolated, and this declaration's tags and categories merged into
    /// every artifact. Dispatching an unimplemented kind is a fatal error,
    /// never a silent empty result.
    pub fn process(&self, outcomes: Vec<Result<Vec<OutAsset>, FileTransformError>>) -> (r: Result<
        (Vec<OutAsset>, Vec<FileTransformError>),
        PipelineError,
    >)
        ensures
            (self.pipeline is ScriptBundles) == (r is Ok),
            r is Ok ==> r->Ok_0.0.deep_view() == merged_all(fanout_artifacts(outcomes@), self@),
            r is Ok ==> r->Ok_0.1@ == fanout_errors(outcomes@),
            !(self.pipeline is ScriptBundles) ==> r == Err::<
                (Vec<OutAsset>, Vec<FileTransformError>),
                PipelineError,
            >(PipelineError::UnsupportedPipelineKind(self.pipeline)),
    {
        match strategy_for(self.pipeline) {
            Result::Err(e) => Err(e),
            Result::Ok(Strategy::ScriptBundles) => {
                let (arts, errs) = collect_outcomes(outcomes);
                let merged_arts = merge_all(arts, self);
                Ok((merged_arts, errs))
            },
        }
    }
}

// ---------------------------------------------------------------------------
// The orchestrator's sequential composition
// ---------------------------------------------------------------------------

/// Everything one pipeline dispatch needs once the host has resolved its
/// I/O: the manifest's location, the declaration, and the outcome of the
/// strategy's per-file transform for each matched file.
pub struct PipelineRun {
    pub root: String,
    pub pipeline: Pipeline,
    pub outcomes: Vec<Result<Vec<OutAsset>, FileTransformError>>,
}

/// One run's merged artifacts.
pub open spec fn run_artifacts(r: PipelineRun) -> Seq<OutAssetView> {
    merged_all(fanout_artifacts(r.outcomes@), r.pipeline@)
}

/// One run's isolated per-file failures.
pub open spec fn run_errors(r: PipelineRun) -> Seq<FileTransformError> {
    fanout_errors(r.outcomes@)
}

/// The outcome of dispatching `runs` strictly one at a time, each to full
/// completion before the next begins: every run's artifacts and isolated
/// errors concatenated in dispatch order, or the first fatal condition.
pub open spec fn batch_result(runs: Seq<PipelineRun>) -> Result<
    (Seq<OutAssetView>, Seq<FileTransformError>),
    PipelineError,
>
    decreases runs.len(),
{
    if runs.len() == 0 {
        Result::Ok((Seq::empty(), Seq::empty()))
    } else if !(runs[0].pipeline.pipeline is ScriptBundles) {
        Result::Err(PipelineError::UnsupportedPipelineKind(runs[0].pipeline.pipeline))
    } else {
        match batch_result(runs.drop_first()) {
            Result::Ok(rest) => Result::Ok(
                (run_artifacts(runs[0]) + rest.0, run_errors(runs[0]) + rest.1),
            ),
            Result::Err(e) => Result::Err(e),
        }
    }
}

/// Dispatches every discovered run sequentially and concatenates the
/// results: the batch yields every pipeline's artifacts exactly once, in
/// dispatch order, or aborts at the first fatal condition.
pub fn process_pipelines(runs: Vec<PipelineRun>) -> (r: Result<
    (Vec<OutAsset>, Vec<FileTransformError>),
    PipelineError,
>)
    ensures
        (r is Ok) == (batch_result(runs@) is Ok),
        r is Ok ==> r->Ok_0.0.deep_view() == batch_result(runs@)->Ok_0.0,
        r is Ok ==> r->Ok_0.1@ == batch_result(runs@)->Ok_0.1,
        r is Err ==> r->Err_0 == batch_result(runs@)->Err_0,
{
    let ghost rs0 = runs@;
    let mut rem = runs;
    let mut arts: Vec<OutAsset> = Vec::new();
    let mut errs: Vec<FileTransformError> = Vec::new();
    while rem.len() > 0
        invariant
            rs0 == runs@,
            batch_result(rem@) is Ok ==> batch_result(rs0) is Ok && batch_result(rs0)->Ok_0.0
                =~= arts.deep_view() + batch_result(rem@)->Ok_0.0 && batch_result(rs0)->Ok_0.1
                =~= errs@ + batch_result(rem@)->Ok_0.1,
            batch_result(rem@) is Err ==> batch_result(rs0) is Err && batch_result(rs0)->Err_0
                == batch_result(rem@)->Err_0,
        decreases rem.len(),
    {
        let ghost rem_old = rem@;
        let ghost arts_dv = arts.deep_view();
        let ghost errs_v = errs@;
        let run = rem.remove(0);
        proof {
            assert(rem@ =~= rem_old.drop_first());
        }
        let PipelineRun { root: _, pipeline, outcomes } = run;
        let ghost head = rem_old[0];
        match pipeline.process(outcomes) {
            Result::Ok((mut a, mut e)) => {
                let ghost a_dv = a.deep_view();
                let ghost e_v = e@;
                arts.append(&mut a);
                errs.append(&mut e);
                proof {
                    assert(head.pipeline.pipeline is ScriptBundles);
                    assert(a_dv == run_artifacts(head));
                    assert(e_v == run_errors(head));
                    assert(arts.deep_view() =~= arts_dv + a_dv);
                    assert(errs@ =~= errs_v + e_v);
                    if batch_result(rem@) is Ok {
                        assert(batch_result(rem_old) is Ok);
                        assert(batch_result(rem_old)->Ok_0.0 =~= run_artifacts(head)
                            + batch_result(rem@)->Ok_0.0);
                        assert(batch_result(rem_old)->Ok_0.1 =~= run_errors(head)
                            + batch_result(rem@)->Ok_0.1);
                        assert(batch_result(rs0)->Ok_0.0 =~= arts.deep_view()
                            + batch_result(rem@)->Ok_0.0);
                        assert(batch_result(rs0)->Ok_0.1 =~= errs@ + batch_result(rem@)->Ok_0.1);
                    } else {
                        assert(batch_result(rem_old) is Err);
                        assert(batch_result(rem_old)->Err_0 == batch_result(rem@)->Err_0);
                    }
                }
            },
            Result::Err(e) => {
                proof {
                    assert(!(head.pipeline.pipeline is ScriptBundles));
                    assert(batch_result(rem_old) is Err);
                    assert(batch_result(rem_old)->Err_0 == PipelineError::UnsupportedPipelineKind(
                        head.pipeline.pipeline,
                    ));
                    assert(batch_result(rs0) is Err);
                    assert(batch_result(rs0)->Err_0 == e);
                }
                return Err(e);
            },
        }
    }
    proof {
        assert(batch_result(rem@) is Ok);
        assert(arts.deep_view() + batch_result(rem@)->Ok_0.0 =~= arts.deep_view());
        assert(errs@ + batch_result(rem@)->Ok_0.1 =~= errs@);
    }
    Ok((arts, errs))
}

// ---------------------------------------------------------------------------
// Laws
// ---------------------------------------------------------------------------

/// Merging never rewrites or reorders tags: the merged artifact's tags are
/// exactly the strategy-produced tags followed by the declaration's tags,
/// order and duplicates preserved.
pub proof fn lemma_merged_tags_concat(a: OutAssetView, p: PipelineView)
    ensures
        merged_with(a, p).tags == a.tags + p.tags,
{
}

proof fn lemma_seq_contains_drop_last(s: Seq<Seq<char>>, x: Seq<char>)
    requires
        s.len() > 0,
    ensures
        s.contains(x) <==> (s.drop_last().contains(x) || s.last() == x),
{
    if s.contains(x) {
        let i = choose|i: int| 0 <= i < s.len() && s[i] == x;
        if i < s.len() - 1 {
            assert(s.drop_last()[i] == x);
        }
    }
    if s.drop_last().contains(x) {
        let i = choose|i: int| 0 <= i < s.drop_last().len() && s.drop_last()[i] == x;
        assert(s[i] == x);
    }
    if s.last() == x {
        assert(s[s.len() - 1] == x);
    }
}

proof fn lemma_seq_contains_push(s: Seq<Seq<char>>, y: Seq<char>, x: Seq<char>)
    ensures
        s.push(y).contains(x) <==> (s.contains(x) || y == x),
{
    if s.push(y).contains(x) {
        let i = choose|i: int| 0 <= i < s.push(y).len() && s.push(y)[i] == x;
        if i < s.len() {
            assert(s[i] == x);
        }
    }
    if s.contains(x) {
        let i = choose|i: int| 0 <= i < s.len() && s[i] == x;
        assert(s.push(y)[i] == x);
    }
    if y == x {
        assert(s.push(y)[s.len() as int] == x);
    }
}

proof fn lemma_merge_labels_contains(orig: Seq<Seq<char>>, add: Seq<Seq<char>>, x: Seq<char>)
    ensures
        merge_labels(orig, add).contains(x) <==> (orig.contains(x) || add.contains(x)),
    decreases add.len(),
{
    if add.len() > 0 {
        lemma_merge_labels_contains(orig, add.drop_last(), x);
        lemma_seq_contains_drop_last(add, x);
        let rest = merge_labels(orig, add.drop_last());
        if !rest.contains(add.last()) {
            lemma_seq_contains_push(rest, add.last(), x);
        } else {
            lemma_merge_labels_contains(orig, add.drop_last(), add.last());
        }
    }
}

proof fn lemma_merge_labels_distinct(orig: Seq<Seq<char>>, add: Seq<Seq<char>>)
    requires
        labels_distinct(orig),
    ensures
        labels_distinct(merge_labels(orig, add)),
    decreases add.len(),
{
    if add.len() > 0 {
        lemma_merge_labels_distinct(orig, add.drop_last());
        let rest = merge_labels(orig, add.drop_last());
        if !rest.contains(add.last()) {
            let merged = rest.push(add.last());
            assert forall|i: int, j: int| 0 <= i < j < merged.len() implies merged[i]
                != merged[j] by {
                if j == merged.len() - 1 {
                    assert(merged[j] == add.last());
                    assert(merged[i] == rest[i]);
                    if rest[i] == add.last() {
                        assert(rest.contains(add.last()));
                    }
                } else {
                    assert(merged[i] == rest[i] && merged[j] == rest[j]);
                }
            }
        }
    }
}

/// For every category slot the artifact already has and the declaration
/// also names, the merged slot is the set union of the two label sets:
/// order-independent, and free of duplicates whenever the artifact's own
/// slot was.
pub proof fn lemma_merged_category_union(a: OutAssetView, p: PipelineView, i: int)
    requires
        0 <= i < a.categories.len(),
        i < p.categories.len(),
        labels_distinct(a.categories[i]),
    ensures
        merged_with(a, p).categories[i].to_set() =~= a.categories[i].to_set().union(
            p.categories[i].to_set(),
        ),
        labels_distinct(merged_with(a, p).categories[i]),
{
    assert(merged_with(a, p).categories[i] == merge_labels(a.categories[i], p.categories[i]));
    lemma_merge_labels_distinct(a.categories[i], p.categories[i]);
    assert forall|x: Seq<char>| #![auto]
        merged_with(a, p).categories[i].to_set().contains(x) == a.categories[i].to_set().union(
            p.categories[i].to_set(),
        ).contains(x) by {
        lemma_merge_labels_contains(a.categories[i], p.categories[i], x);
    }
}

/// Declaration-only category indices beyond the artifact's own slot count
/// are ignored: the merge never fabricates a slot the artifact lacked, and
/// slots the declaration does not name come through untouched.
pub proof fn lemma_merge_no_new_slots(a: OutAssetView, p: PipelineView)
    ensures
        merged_with(a, p).categories.len() == a.categories.len(),
        forall|i: int|
            p.categories.len() <= i < a.categories.len() ==> merged_with(a, p).categories[i]
                == a.categories[i],
{
}

/// After the merge, every category slot of a well-formed artifact is still
/// a set: the merge introduces no duplicate labels.
pub proof fn lemma_merged_wf(a: OutAssetView, p: PipelineView)
    requires
        a.wf(),
    ensures
        merged_with(a, p).wf(),
{
    assert forall|i: int| 0 <= i < merged_with(a, p).categories.len() implies labels_distinct(
        #[trigger] merged_with(a, p).categories[i],
    ) by {
        if i < p.categories.len() {
            lemma_merge_labels_distinct(a.categories[i], p.categories[i]);
        }
    }
}

/// The artifact-list invariant after dispatch: when every strategy-produced
/// artifact is well-formed, so is every artifact the merge hands back.
pub proof fn lemma_merged_all_wf(arts: Seq<OutAssetView>, p: PipelineView)
    requires
        forall|i: int| 0 <= i < arts.len() ==> (#[trigger] arts[i]).wf(),
    ensures
        forall|i: int|
            0 <= i < merged_all(arts, p).len() ==> (#[trigger] merged_all(arts, p)[i]).wf(),
{
    assert forall|i: int| 0 <= i < merged_all(arts, p).len() implies (#[trigger] merged_all(
        arts,
        p,
    )[i]).wf() by {
        lemma_merged_wf(arts[i], p);
    }
}

/// A batch holding any declaration of an unimplemented kind is fatal as a
/// whole: dispatch never turns such a declaration into an empty or silent
/// result.
pub proof fn lemma_unsupported_kind_is_fatal(runs: Seq<PipelineRun>, k: int)
    requires
        0 <= k < runs.len(),
        !(runs[k].pipeline.pipeline is ScriptBundles),
    ensures
        batch_result(runs) is Err,
    decreases runs.len(),
{
    if k > 0 && runs[0].pipeline.pipeline is ScriptBundles {
        lemma_unsupported_kind_is_fatal(runs.drop_first(), k - 1);
    }
}

proof fn lemma_fanout_all_ok(rs: Seq<Result<Vec<OutAsset>, FileTransformError>>)
    requires
        forall|i: int| 0 <= i < rs.len() ==> rs[i] is Ok,
    ensures
        fanout_errors(rs) =~= Seq::<FileTransformError>::empty(),
    decreases rs.len(),
{
    if rs.len() > 0 {
        lemma_fanout_all_ok(rs.drop_first());
    }
}

/// Isolation: when exactly one of a fan-out's per-file transforms fails,
/// the collected batch still holds every sibling file's artifacts — the
/// same artifacts the fan-out without the failing file would yield — and
/// exactly one reported error, the failing file's own.
pub proof fn lemma_fanout_isolation(rs: Seq<Result<Vec<OutAsset>, FileTransformError>>, k: int)
    requires
        0 <= k < rs.len(),
        rs[k] is Err,
        forall|i: int| 0 <= i < rs.len() && i != k ==> rs[i] is Ok,
    ensures
        fanout_errors(rs) =~= seq![rs[k]->Err_0],
        fanout_artifacts(rs) =~= fanout_artifacts(rs.remove(k)),
    decreases rs.len(),
{
    if k == 0 {
        lemma_fanout_all_ok(rs.drop_first());
        assert(rs.remove(0) =~= rs.drop_first());
    } else {
        lemma_fanout_isolation(rs.drop_first(), k - 1);
        assert(rs.remove(k).drop_first() =~= rs.drop_first().remove(k - 1));
        assert(rs.remove(k)[0] == rs[0]);
        assert(rs.drop_first()[k - 1] == rs[k]);
    }
}

/// Dispatch order between two pipelines' runs is unobservable in the final
/// artifact set: either order succeeds, yields each run's artifacts exactly
/// once — the concatenation in dispatch order — and the two orders produce
/// the same multiset of artifacts.
pub proof fn lemma_batch_order_union(r1: PipelineRun, r2: PipelineRun)
    requires
        r1.pipeline.pipeline is ScriptBundles,
        r2.pipeline.pipeline is ScriptBundles,
    ensures
        batch_result(seq![r1, r2]) is Ok,
        batch_result(seq![r2, r1]) is Ok,
        batch_result(seq![r1, r2])->Ok_0.0 =~= run_artifacts(r1) + run_artifacts(r2),
        batch_result(seq![r2, r1])->Ok_0.0 =~= run_artifacts(r2) + run_artifacts(r1),
        batch_result(seq![r1, r2])->Ok_0.0.to_multiset() == batch_result(
            seq![r2, r1],
        )->Ok_0.0.to_multiset(),
        batch_result(seq![r1, r2])->Ok_0.0.to_multiset() == run_artifacts(r1).to_multiset().add(
            run_artifacts(r2).to_multiset(),
        ),
{
    lemma_batch_pair(r1, r2);
    lemma_batch_pair(r2, r1);
    vstd::seq_lib::lemma_multiset_commutative(run_artifacts(r1), run_artifacts(r2));
    vstd::seq_lib::lemma_seq_union_to_multiset_commutative(run_artifacts(r1), run_artifacts(r2));
}

proof fn lemma_batch_pair(r1: PipelineRun, r2: PipelineRun)
    requires
        r1.pipeline.pipeline is ScriptBundles,
        r2.pipeline.pipeline is ScriptBundles,
    ensures
        batch_result(seq![r1, r2]) is Ok,
        batch_result(seq![r1, r2])->Ok_0.0 =~= run_artifacts(r1) + run_artifacts(r2),
{
    let s = seq![r1, r2];
    assert(s.drop_first() =~= seq![r2]);
    assert(seq![r2].drop_first() =~= Seq::<PipelineRun>::empty());
    assert(batch_result(Seq::<PipelineRun>::empty()) is Ok);
    assert(batch_result(seq![r2]) is Ok);
    assert(batch_result(seq![r2])->Ok_0.0 =~= run_artifacts(r2));
    assert(batch_result(s)->Ok_0.0 =~= run_artifacts(r1) + run_artifacts(r2));
}

} // verus!
