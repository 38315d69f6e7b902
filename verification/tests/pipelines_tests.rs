use elements_build::pipelines::{
    collect_declarations, collect_outcomes, make_script_bundle_asset, manifest_format, merged,
    process_pipelines, script_bundle_files, script_bundle_match, script_bundle_output_path,
    strategy_for, AssetType, FileTransformError, ManifestDecodeError, ManifestFormat,
    ManifestOutcome, OutAsset, OutAssetContent, OutAssetPreview, Pipeline, PipelineConfig,
    PipelineError, PipelineRun, Strategy,
};

fn decl(kind: PipelineConfig, tags: &[&str], categories: &[&[&str]]) -> Pipeline {
    Pipeline {
        pipeline: kind,
        sources: Vec::new(),
        tags: tags.iter().map(|t| t.to_string()).collect(),
        categories: categories
            .iter()
            .map(|c| c.iter().map(|s| s.to_string()).collect())
            .collect(),
    }
}

fn sample_asset(name: &str, tags: &[&str], categories: &[&[&str]]) -> OutAsset {
    OutAsset {
        type_: AssetType::ScriptBundle,
        hidden: false,
        name: name.to_string(),
        tags: tags.iter().map(|t| t.to_string()).collect(),
        categories: categories
            .iter()
            .map(|c| c.iter().map(|s| s.to_string()).collect())
            .collect(),
        preview: OutAssetPreview::NoPreview,
        content: OutAssetContent::Content("loc".to_string()),
        source: None,
    }
}

#[test]
fn manifest_candidates_by_suffix() {
    assert_eq!(manifest_format("assets/pipeline.toml"), Some(ManifestFormat::Toml));
    assert_eq!(manifest_format("assets/pipeline.json"), Some(ManifestFormat::Json));
    assert_eq!(manifest_format("pipeline.toml"), Some(ManifestFormat::Toml));
    assert_eq!(manifest_format("assets/pipeline.yaml"), None);
    assert_eq!(manifest_format("assets/notes.txt"), None);
    assert_eq!(manifest_format("toml"), None);
}

#[test]
fn script_bundle_predicate_matches_extension_only() {
    assert!(script_bundle_match("a/b.script_bundle"));
    assert!(script_bundle_match("b.script_bundle"));
    assert!(!script_bundle_match("a/b.script_bundles"));
    assert!(!script_bundle_match("a/script_bundle"));
    assert!(!script_bundle_match("a/b.txt"));
}

#[test]
fn merge_appends_tags_preserving_order_and_duplicates() {
    let p = decl(PipelineConfig::ScriptBundles, &["b", "c", "b"], &[]);
    let a = sample_asset("a", &["a", "b"], &[]);
    let m = merged(a, &p);
    let want: Vec<String> = ["a", "b", "b", "c", "b"].iter().map(|s| s.to_string()).collect();
    assert_eq!(m.tags, want);
}

#[test]
fn merge_unions_category_slots() {
    let p = decl(PipelineConfig::ScriptBundles, &[], &[&["x", "y"]]);
    let a = sample_asset("a", &[], &[&["y", "z"]]);
    let m = merged(a, &p);
    assert_eq!(m.categories.len(), 1);
    let mut got = m.categories[0].clone();
    got.sort();
    let want: Vec<String> = ["x", "y", "z"].iter().map(|s| s.to_string()).collect();
    assert_eq!(got, want);
}

#[test]
fn merge_ignores_declaration_only_slots() {
    let p = decl(PipelineConfig::ScriptBundles, &[], &[&["a"], &["b"]]);
    let a = sample_asset("a", &[], &[&["c"]]);
    let m = merged(a, &p);
    assert_eq!(m.categories.len(), 1);
    let mut got = m.categories[0].clone();
    got.sort();
    let want: Vec<String> = ["a", "c"].iter().map(|s| s.to_string()).collect();
    assert_eq!(got, want);

    let p2 = decl(PipelineConfig::ScriptBundles, &[], &[&["a"]]);
    let a2 = sample_asset("a", &[], &[]);
    let m2 = merged(a2, &p2);
    assert_eq!(m2.categories.len(), 0);
}

#[test]
fn merge_leaves_other_fields_untouched() {
    let p = decl(PipelineConfig::ScriptBundles, &["t"], &[]);
    let a = sample_asset("keep", &[], &[]);
    let m = merged(a, &p);
    assert_eq!(m.name, "keep");
    assert!(!m.hidden);
    assert_eq!(m.content, OutAssetContent::Content("loc".to_string()));
    assert_eq!(m.source, None);
}

#[test]
fn unsupported_kind_is_fatal_never_silent() {
    assert_eq!(strategy_for(PipelineConfig::ScriptBundles), Ok(Strategy::ScriptBundles));
    for kind in [PipelineConfig::Models, PipelineConfig::Materials, PipelineConfig::Audio] {
        assert_eq!(strategy_for(kind), Err(PipelineError::UnsupportedPipelineKind(kind)));
        let p = decl(kind, &[], &[]);
        assert_eq!(p.process(Vec::new()), Err(PipelineError::UnsupportedPipelineKind(kind)));
    }
}

#[test]
fn one_failing_file_is_isolated() {
    let p = decl(PipelineConfig::ScriptBundles, &[], &[]);
    let failure = FileTransformError {
        file: "assets/b.script_bundle".to_string(),
        message: "download failed".to_string(),
    };
    let outcomes = vec![
        Ok(vec![sample_asset("a1", &[], &[])]),
        Err(failure.clone()),
        Ok(vec![sample_asset("a3", &[], &[])]),
    ];
    let (arts, errors) = p.process(outcomes).unwrap();
    assert_eq!(arts.len(), 2);
    assert_eq!(arts[0].name, "a1");
    assert_eq!(arts[1].name, "a3");
    assert_eq!(errors, vec![failure]);
}

#[test]
fn collect_outcomes_flattens_in_order() {
    let outcomes = vec![
        Ok(vec![sample_asset("a1", &[], &[]), sample_asset("a2", &[], &[])]),
        Ok(Vec::new()),
        Ok(vec![sample_asset("a3", &[], &[])]),
    ];
    let (arts, errors) = collect_outcomes(outcomes);
    let names: Vec<String> = arts.iter().map(|a| a.name.clone()).collect();
    let want: Vec<String> = ["a1", "a2", "a3"].iter().map(|s| s.to_string()).collect();
    assert_eq!(names, want);
    assert!(errors.is_empty());
}

#[test]
fn decode_failure_skips_only_that_manifest() {
    let ok = ManifestOutcome {
        source: "a/pipeline.toml".to_string(),
        decoded: Ok(vec![decl(PipelineConfig::ScriptBundles, &["t"], &[])]),
    };
    let bad = ManifestOutcome {
        source: "b/pipeline.json".to_string(),
        decoded: Err(ManifestDecodeError {
            manifest: "b/pipeline.json".to_string(),
            message: "unexpected end of input".to_string(),
        }),
    };
    let (decls, fails) = collect_declarations(vec![ok, bad]);
    assert_eq!(decls.len(), 1);
    assert_eq!(decls[0].root, "a/pipeline.toml");
    assert_eq!(fails.len(), 1);
    assert_eq!(fails[0].manifest, "b/pipeline.json");
}

#[test]
fn scenario_one_manifest_two_bundles_one_ignored() {
    let files: Vec<String> = vec![
        "assets/a.script_bundle".to_string(),
        "assets/b.script_bundle".to_string(),
        "assets/notes.txt".to_string(),
    ];
    let p = decl(PipelineConfig::ScriptBundles, &["env"], &[]);

    let matched = script_bundle_files(&files);
    let want: Vec<String> =
        vec!["assets/a.script_bundle".to_string(), "assets/b.script_bundle".to_string()];
    assert_eq!(matched, want);

    let mut outcomes = Vec::new();
    for f in &matched {
        let out_path = script_bundle_output_path("assets/pipeline.toml", f);
        outcomes.push(Ok(vec![make_script_bundle_asset(f, out_path)]));
    }
    let (artifacts, errors) = p.process(outcomes).unwrap();
    assert!(errors.is_empty());
    assert_eq!(artifacts.len(), 2);
    for (art, f) in artifacts.iter().zip(matched.iter()) {
        assert_eq!(art.tags, vec!["env".to_string()]);
        assert!(!art.hidden);
        assert_eq!(art.type_, AssetType::ScriptBundle);
        assert_eq!(art.source, Some(f.clone()));
    }
    assert_eq!(artifacts[0].name, "a.script_bundle");
    assert_eq!(artifacts[0].content, OutAssetContent::Content("a.script_bundle".to_string()));
    assert_eq!(artifacts[1].content, OutAssetContent::Content("b.script_bundle".to_string()));
}

fn run_for(manifest: &str, file: &str, tag: &str) -> PipelineRun {
    let out_path = script_bundle_output_path(manifest, file);
    let asset = make_script_bundle_asset(file, out_path);
    PipelineRun {
        root: manifest.to_string(),
        pipeline: decl(PipelineConfig::ScriptBundles, &[tag], &[]),
        outcomes: vec![Ok(vec![asset])],
    }
}

#[test]
fn scenario_two_manifests_union_exactly_once() {
    let r12 = vec![
        run_for("a/pipeline.toml", "a/one.script_bundle", "a"),
        run_for("b/pipeline.json", "b/two.script_bundle", "b"),
    ];
    let r21 = vec![
        run_for("b/pipeline.json", "b/two.script_bundle", "b"),
        run_for("a/pipeline.toml", "a/one.script_bundle", "a"),
    ];
    let (arts12, errs12) = process_pipelines(r12).unwrap();
    let (arts21, errs21) = process_pipelines(r21).unwrap();
    assert!(errs12.is_empty() && errs21.is_empty());
    assert_eq!(arts12.len(), 2);
    assert_eq!(arts21.len(), 2);
    let mut s12 = arts12.clone();
    s12.sort_by(|x, y| x.name.cmp(&y.name));
    let mut s21 = arts21.clone();
    s21.sort_by(|x, y| x.name.cmp(&y.name));
    assert_eq!(s12, s21);
    assert_eq!(s12[0].name, "one.script_bundle");
    assert_eq!(s12[1].name, "two.script_bundle");
}

#[test]
fn batch_aborts_at_first_unsupported_kind() {
    let good = run_for("a/pipeline.toml", "a/one.script_bundle", "a");
    let bad = PipelineRun {
        root: "b/pipeline.json".to_string(),
        pipeline: decl(PipelineConfig::Audio, &[], &[]),
        outcomes: Vec::new(),
    };
    assert_eq!(
        process_pipelines(vec![good, bad]),
        Err(PipelineError::UnsupportedPipelineKind(PipelineConfig::Audio))
    );
}
