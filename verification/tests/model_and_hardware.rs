use knightingale_core::env::EnvVars;
use knightingale_core::focus::build_prompt;
use knightingale_core::hardware::{amd_vram_probe, parse_nvidia_smi, recommend, GpuInfo, Hardware, VramProbe};
use knightingale_core::metrics::levenshtein;
use knightingale_core::model::{find, local_path, model_to_pull, models_dir, verify_download, Model};
use knightingale_core::config::ProjectPaths;

fn model(alias: &str, size: u32, vram: u32, lang: &str) -> Model {
    Model {
        alias: alias.to_string(),
        filename: format!("ggml-{alias}.bin"),
        url: String::new(),
        sha256: String::new(),
        size_mb: size,
        vram_mb: vram,
        language: lang.to_string(),
        recommended_for: String::new(),
    }
}

fn catalog() -> Vec<Model> {
    vec![
        model("tiny.en", 32, 100, "en"),
        model("small", 190, 500, "multi"),
        model("distil-small.en", 190, 600, "en"),
        model("large-v3", 1100, 4000, "multi"),
    ]
}

#[test]
fn recommend_prefers_largest_fit() {
    let hw = Hardware { cpu_brand: "x".into(), cpu_cores: 8, ram_total_mb: 800, gpu: None };
    let cat = catalog();
    // small and distil-small.en tie at 190 MB: the later one wins.
    assert_eq!(recommend(&hw, &cat, false).unwrap().alias, "distil-small.en");
    assert_eq!(recommend(&hw, &cat, true).unwrap().alias, "distil-small.en");
    let gpu = Hardware {
        gpu: Some(GpuInfo { vendor: "NVIDIA".into(), name: "RTX".into(), vram_mb: 8000 }),
        ..hw.clone()
    };
    assert_eq!(recommend(&gpu, &cat, false).unwrap().alias, "large-v3");
    assert_eq!(recommend(&gpu, &cat, true).unwrap().alias, "distil-small.en");
    let tiny = Hardware { ram_total_mb: 100, ..hw };
    assert!(recommend(&tiny, &cat, false).is_none());
}

#[test]
fn nvidia_output() {
    let g = parse_nvidia_smi("NVIDIA GeForce RTX 3060, 12288\nsecond, 1\n").unwrap();
    assert_eq!(g.vendor, "NVIDIA");
    assert_eq!(g.name, "NVIDIA GeForce RTX 3060");
    assert_eq!(g.vram_mb, 12288);
    assert!(parse_nvidia_smi("").is_none());
    assert!(parse_nvidia_smi("only a name\n").is_none());
    assert!(parse_nvidia_smi("gpu, lots\n").is_none());
}

#[test]
fn amd_probe() {
    match amd_vram_probe("8589934592\n") {
        VramProbe::Found(g) => {
            assert_eq!(g.vram_mb, 8192);
            assert_eq!(g.name, "AMD GPU");
        }
        other => panic!("{other:?}"),
    }
    assert!(matches!(amd_vram_probe("1000"), VramProbe::Skip));
    assert!(matches!(amd_vram_probe("n/a"), VramProbe::Abort));
}

#[test]
fn catalog_lookup() {
    let cat = catalog();
    assert_eq!(find(&cat, "small").unwrap().alias, "small");
    assert!(find(&cat, "medium").is_none());
    assert!(model_to_pull(&cat, "medium").is_err());
    assert_eq!(local_path("/m", &cat[0]), "/m/ggml-tiny.en.bin");
    let mut env = EnvVars::new();
    let p = ProjectPaths {
        config_dir: "/c".into(),
        cache_dir: "/k".into(),
        state_dir: None,
        data_local_dir: "/d".into(),
    };
    assert_eq!(models_dir(&env, Some(&p)).unwrap(), "/k/models");
    env.set("KNIGHTINGALE_MODEL_DIR".into(), "/models".into());
    assert_eq!(models_dir(&env, None).unwrap(), "/models");
}

#[test]
fn checksum() {
    let mut m = model("t", 1, 1, "en");
    // sha256("abc")
    m.sha256 = "ba7816bf8f01cfea414140de5dae2223b00361a396177a9cb410ff61f20015ad".into();
    assert!(verify_download(&m, b"abc").is_ok());
    let err = verify_download(&m, b"abd").unwrap_err();
    assert!(err.message().starts_with("sha256 mismatch for t: expected ba7816bf"));
    m.sha256 = "0000".into();
    assert!(verify_download(&m, b"abd").is_ok());
    m.sha256 = String::new();
    assert!(verify_download(&m, b"abd").is_ok());
}

#[test]
fn prompt_hints() {
    let global = vec!["Knightingale".to_string()];
    let per_app = vec![
        ("Code".to_string(), vec!["Rust".to_string(), "Verus".to_string()]),
        ("firefox".to_string(), vec!["tab".to_string()]),
    ];
    assert_eq!(
        build_prompt(&global, &per_app, Some("Visual Studio CODE")).unwrap(),
        "Knightingale, Rust, Verus"
    );
    assert_eq!(build_prompt(&global, &per_app, None).unwrap(), "Knightingale");
    assert!(build_prompt(&[], &per_app, Some("terminal")).is_none());
}

#[test]
fn edit_distance() {
    assert_eq!(levenshtein(b"kitten", b"sitting"), 3);
    assert_eq!(levenshtein::<u8>(b"", b"abc"), 3);
    assert_eq!(levenshtein(&["hello", "world"], &["hello", "earth"]), 1);
    assert_eq!(levenshtein(&['c', 'a', 't'], &['b', 'a', 't']), 1);
}
