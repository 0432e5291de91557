use audiotools::nodes::{
    plan_node, FeaturesNode, split_audio_input, NodePlan, NodeSettings, AudioInputNode, AudioOutputNode, convert_target_channels, node_kind, pca_components, ConvertNode, NodeKind, PcaNode, PcaSource, WaveformNode,
};
use audiotools::pipeline::{Asset, AssetStore, NodeContext, PipelineError};
use audiotools::string_map::StringMap;

fn keys(pairs: &[(&str, &str)]) -> StringMap<String> {
    let mut m = StringMap::new();
    for (k, v) in pairs {
        m.insert(k.to_string(), v.to_string());
    }
    m
}

fn audio(samples: &[f32], rate: u32) -> Asset<f32> {
    Asset::Audio(samples.to_vec(), rate)
}

#[test]
fn store_get_after_insert_and_take() {
    let mut store: AssetStore<f32> = AssetStore::new();
    store.insert("a", audio(&[0.5, -0.5], 8000));
    store.insert("b", Asset::Path("x.png".to_string()));
    match store.get("a").unwrap() {
        Asset::Audio(s, r) => {
            assert_eq!(s, &vec![0.5, -0.5]);
            assert_eq!(*r, 8000);
        }
        _ => panic!("wrong asset"),
    }
    store.insert("a", Asset::String("replaced".to_string()));
    assert!(matches!(store.get("a").unwrap(), Asset::String(t) if t == "replaced"));
    assert!(matches!(store.take("b").unwrap(), Asset::Path(p) if p == "x.png"));
    let err = store.take("b").unwrap_err();
    assert_eq!(err, PipelineError::AssetNotFound { key: "b".to_string() });
    assert_eq!(err.message(), "Asset with key 'b' not found in store");
}

#[test]
fn context_reports_unmapped_and_missing_keys() {
    let inputs = keys(&[("audio", "raw")]);
    let outputs = keys(&[]);
    let mut ctx = NodeContext { store: AssetStore::<f32>::new(), inputs: &inputs, outputs: &outputs };
    let e = ctx.get_input("other").unwrap_err();
    assert_eq!(e.message(), "Input key 'other' not mapped in node configuration");
    let e = ctx.get_input("audio").unwrap_err();
    assert_eq!(e.message(), "Asset with key 'raw' not found in store");
    let e = ctx.set_output("audio", audio(&[1.0], 1)).unwrap_err();
    assert_eq!(e.message(), "Output key 'audio' not mapped in node configuration");
    assert!(ctx.store.get("raw").is_err());
}

#[test]
fn output_of_one_node_is_input_of_the_next() {
    let writer_out = keys(&[("audio", "shared")]);
    let none = keys(&[]);
    let mut w = NodeContext { store: AssetStore::<f32>::new(), inputs: &none, outputs: &writer_out };
    w.set_output("audio", audio(&[0.25, 0.75], 22050)).unwrap();
    let store = w.store;
    let reader_in = keys(&[("audio", "shared")]);
    let r = NodeContext { store, inputs: &reader_in, outputs: &none };
    let (samples, rate) = r.get_audio_input("AnyNode").unwrap();
    assert_eq!(samples, &vec![0.25, 0.75]);
    assert_eq!(rate, 22050);
}

#[test]
fn convert_node_copies_audio() {
    let inputs = keys(&[("audio", "in")]);
    let outputs = keys(&[("audio", "out")]);
    let mut store = AssetStore::new();
    store.insert("in", audio(&[0.1, 0.2, 0.3], 44100));
    let mut ctx = NodeContext { store, inputs: &inputs, outputs: &outputs };
    ConvertNode { target_channels: Some(2) }.process(&mut ctx).unwrap();
    match ctx.store.get("out").unwrap() {
        Asset::Audio(s, r) => {
            assert_eq!(s, &vec![0.1, 0.2, 0.3]);
            assert_eq!(*r, 44100);
        }
        _ => panic!("wrong asset"),
    }
    assert!(ctx.store.get("in").is_ok());
}

#[test]
fn convert_node_rejects_non_audio() {
    let inputs = keys(&[("audio", "in")]);
    let outputs = keys(&[("audio", "out")]);
    let mut store: AssetStore<f32> = AssetStore::new();
    store.insert("in", Asset::Path("a.csv".to_string()));
    let mut ctx = NodeContext { store, inputs: &inputs, outputs: &outputs };
    let e = ConvertNode { target_channels: None }.process(&mut ctx).unwrap_err();
    assert_eq!(e.message(), "Expected Audio asset for ConvertNode");
    assert!(ctx.store.get("out").is_err());
}

#[test]
fn pca_node_accepts_features_or_csv_path() {
    let inputs = keys(&[("features", "f")]);
    let outputs = keys(&[("image", "img")]);
    let mut features: StringMap<Vec<f32>> = StringMap::new();
    features.insert("rms".to_string(), vec![0.5]);
    features.insert("zcr".to_string(), vec![0.1]);
    let mut store = AssetStore::new();
    store.insert("f", Asset::Features(features));
    let mut ctx = NodeContext { store, inputs: &inputs, outputs: &outputs };
    let src = PcaNode { components: 2 }.process(&mut ctx).unwrap();
    assert_eq!(src, PcaSource::Features { count: 2 });
    assert!(matches!(ctx.store.get("img").unwrap(), Asset::Path(p) if p == "pca_plot.png"));

    ctx.store.insert("f", Asset::Path("features.csv".to_string()));
    let src = PcaNode { components: 2 }.process(&mut ctx).unwrap();
    assert_eq!(src, PcaSource::Csv { path: "features.csv".to_string() });

    ctx.store.insert("f", Asset::String("nope".to_string()));
    let e = PcaNode { components: 2 }.process(&mut ctx).unwrap_err();
    assert_eq!(e.message(), "Expected Features or Path asset for PcaNode");
}

#[test]
fn waveform_node_reports_audio_and_announces_image() {
    let inputs = keys(&[("audio", "a")]);
    let outputs = keys(&[("image", "img")]);
    let mut store = AssetStore::new();
    store.insert("a", audio(&[0.0; 5], 16000));
    let mut ctx = NodeContext { store, inputs: &inputs, outputs: &outputs };
    assert_eq!(WaveformNode.process(&mut ctx).unwrap(), (5, 16000));
    assert!(matches!(ctx.store.get("img").unwrap(), Asset::Path(p) if p == "waveform_output.png"));
}

#[test]
fn node_types_are_recognised_by_name() {
    assert_eq!(node_kind("AudioInputNode").unwrap(), NodeKind::AudioInput);
    assert_eq!(node_kind("LoudnessNode").unwrap(), NodeKind::Loudness);
    assert_eq!(node_kind("PcaNode").unwrap(), NodeKind::Pca);
    let e = node_kind("MysteryNode").unwrap_err();
    assert_eq!(e.message(), "Unknown node type: MysteryNode");
    let e = PipelineError::MissingConfig { node: "AudioInputNode".to_string(), key: "path".to_string() };
    assert_eq!(e.message(), "AudioInputNode requires 'path' config");
}

#[test]
fn node_settings_defaults_and_truncation() {
    assert_eq!(pca_components(None), 2);
    assert_eq!(pca_components(Some(3)), 3);
    assert_eq!(pca_components(Some((1u64 << 32) + 5)), 5);
    assert_eq!(convert_target_channels(None), None);
    assert_eq!(convert_target_channels(Some(2)), Some(2));
    assert_eq!(convert_target_channels(Some(65537)), Some(1));
}

#[test]
fn string_map_insert_get_remove() {
    let mut m: StringMap<u32> = StringMap::new();
    assert_eq!(m.len(), 0);
    m.insert("one".to_string(), 1);
    m.insert("two".to_string(), 2);
    m.insert("one".to_string(), 11);
    assert_eq!(m.len(), 2);
    assert_eq!(m.get("one"), Some(&11));
    assert!(m.contains_key("two"));
    assert_eq!(m.remove("two"), Some(2));
    assert_eq!(m.remove("two"), None);
    assert!(!m.contains_key("two"));
    assert_eq!(m.len(), 1);
}

#[test]
fn input_and_output_nodes_move_audio_through_the_store() {
    let none = keys(&[]);
    let out = keys(&[("audio", "raw")]);
    let mut ctx = NodeContext { store: AssetStore::<f32>::new(), inputs: &none, outputs: &out };
    let input = AudioInputNode { filepath: "in.wav".to_string() };
    input.process(&mut ctx, vec![0.5, 0.25], 16000).unwrap();
    let store = ctx.store;
    let inp = keys(&[("audio", "raw")]);
    let ctx = NodeContext { store, inputs: &inp, outputs: &none };
    let output = AudioOutputNode { filepath: "out.wav".to_string() };
    let (samples, rate) = output.process(&ctx).unwrap();
    assert_eq!(samples, &vec![0.5, 0.25]);
    assert_eq!(rate, 16000);
}

#[test]
fn audio_output_node_rejects_other_assets() {
    let inp = keys(&[("audio", "raw")]);
    let none = keys(&[]);
    let mut store: AssetStore<f32> = AssetStore::new();
    store.insert("raw", Asset::String("text".to_string()));
    let ctx = NodeContext { store, inputs: &inp, outputs: &none };
    let e = AudioOutputNode { filepath: "o.wav".to_string() }.process(&ctx).unwrap_err();
    assert_eq!(e.message(), "Expected Audio asset for AudioOutputNode");
}

#[test]
fn segment_split_binds_an_audio_list() {
    let inp = keys(&[("audio", "raw")]);
    let out = keys(&[("audio_list", "parts")]);
    let mut store: AssetStore<i16> = AssetStore::new();
    store.insert("raw", Asset::Audio(vec![1, 2, 3, 4, 5], 8000));
    let mut ctx = NodeContext { store, inputs: &inp, outputs: &out };
    split_audio_input(&mut ctx, 2).unwrap();
    match ctx.store.get("parts").unwrap() {
        Asset::AudioList(list) => {
            assert_eq!(list, &vec![(vec![1, 2], 8000), (vec![3, 4], 8000), (vec![5], 8000)]);
        }
        _ => panic!("wrong asset"),
    }
}

#[test]
fn node_plans_from_definitions() {
    let none = NodeSettings::default();
    let with_path = NodeSettings { path: Some("a.wav".to_string()), ..NodeSettings::default() };
    assert_eq!(plan_node("AudioInputNode", &with_path), Ok(NodePlan::AudioInput { path: "a.wav".to_string() }));
    assert_eq!(plan_node("AudioOutputNode", &with_path), Ok(NodePlan::AudioOutput { path: "a.wav".to_string() }));
    let e = plan_node("AudioInputNode", &none).unwrap_err();
    assert_eq!(e.message(), "AudioInputNode requires 'path' config");
    let e = plan_node("AudioOutputNode", &none).unwrap_err();
    assert_eq!(e.message(), "AudioOutputNode requires 'path' config");
    let settings = NodeSettings { channels: Some(65538), components: Some(3), ..NodeSettings::default() };
    assert_eq!(plan_node("ConvertNode", &settings), Ok(NodePlan::Convert { target_channels: Some(2) }));
    assert_eq!(plan_node("PcaNode", &settings), Ok(NodePlan::Pca { components: 3 }));
    assert_eq!(plan_node("PcaNode", &none), Ok(NodePlan::Pca { components: 2 }));
    assert_eq!(plan_node("FeaturesNode", &none), Ok(NodePlan::Features { extract_rms: true, extract_zcr: true }));
    assert_eq!(plan_node("SegmentNode", &none), Ok(NodePlan::Segment));
    let e = plan_node("Mystery", &none).unwrap_err();
    assert_eq!(e.message(), "Unknown node type: Mystery");
}

#[test]
fn features_node_publishes_the_extracted_features() {
    let inp = keys(&[("audio", "raw")]);
    let out = keys(&[("features", "feats")]);
    let mut ctx = NodeContext { store: AssetStore::<f32>::new(), inputs: &inp, outputs: &out };
    FeaturesNode { extract_rms: true, extract_zcr: false }.process(&mut ctx, 0.5, 0.25).unwrap();
    match ctx.store.get("feats").unwrap() {
        Asset::Features(m) => {
            assert_eq!(m.len(), 1);
            assert_eq!(m.get("rms"), Some(&vec![0.5]));
            assert_eq!(m.get("zcr"), None);
        }
        _ => panic!("wrong asset"),
    }
    FeaturesNode { extract_rms: true, extract_zcr: true }.process(&mut ctx, 0.5, 0.25).unwrap();
    match ctx.store.get("feats").unwrap() {
        Asset::Features(m) => {
            assert_eq!(m.len(), 2);
            assert_eq!(m.get("zcr"), Some(&vec![0.25]));
        }
        _ => panic!("wrong asset"),
    }
}
