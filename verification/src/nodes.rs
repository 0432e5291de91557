//! Pipeline nodes whose work is moving assets between store keys, and the
//! node types whose sample processing is done by the tools around the library.

use crate::pipeline::{Asset, AssetView, NodeContext, PipelineError, is_unexpected_asset};
use crate::segment::{chunk_segments, chunks_of};
use crate::string_map::StringMap;
use vstd::prelude::*;

verus! {

/// A copy of `v`.
pub fn copy_samples<S: Copy>(v: &Vec<S>) -> (r: Vec<S>)
    ensures
        r@ == v@,
{
    let mut out: Vec<S> = Vec::with_capacity(v.len());
    let n = v.len();
    for i in 0..n
        invariant
            n == v@.len(),
            out@ == v@.subrange(0, i as int),
    {
        out.push(v[i]);
        assert(out@ =~= v@.subrange(0, i + 1));
    }
    assert(out@ =~= v@);
    out
}

/// Passes audio through unchanged: channel and bit-depth conversion happen
/// when the audio is written out.
pub struct ConvertNode {
    pub target_channels: Option<u16>,
}

impl ConvertNode {
    /// Copies the audio bound to the local input `audio` to the local output `audio`.
    pub fn process<S: Copy>(&self, context: &mut NodeContext<S>) -> (r: Result<(), PipelineError>)
        ensures
            final(context).inputs == old(context).inputs,
            final(context).outputs == old(context).outputs,
            match old(context).input_asset("audio"@) {
                Some(AssetView::Audio(samples, rate)) => {
                    &&& final(context).store@ == old(context).store_after_output("audio"@, AssetView::Audio(samples, rate))
                    &&& (r is Ok <==> old(context).outputs@.contains_key("audio"@))
                },
                _ => final(context).store@ == old(context).store@ && r is Err,
            },
            r matches Err(e) ==> match old(context).input_asset("audio"@) {
                None => old(context).input_error("audio"@, e),
                Some(AssetView::Audio(_, _)) => e matches PipelineError::OutputNotMapped { key } && key@ == "audio"@,
                Some(_) => is_unexpected_asset(e, "ConvertNode"@, "Audio"@),
            },
    {
        let (samples, sample_rate) = context.get_audio_input("ConvertNode")?;
        let copy = copy_samples(samples);
        context.set_output("audio", Asset::Audio(copy, sample_rate))
    }
}

/// Reads audio from a file into the pipeline.
pub struct AudioInputNode {
    pub filepath: String,
}

impl AudioInputNode {
    /// Binds the samples and sample rate loaded from the file to the local
    /// output `audio`.
    pub fn process<S>(&self, context: &mut NodeContext<S>, samples: Vec<S>, sample_rate: u32) -> (r: Result<(), PipelineError>)
        ensures
            final(context).inputs == old(context).inputs,
            final(context).outputs == old(context).outputs,
            final(context).store@ == old(context).store_after_output("audio"@, AssetView::Audio(samples@, sample_rate)),
            r is Ok <==> old(context).outputs@.contains_key("audio"@),
            r matches Err(e) ==> (e matches PipelineError::OutputNotMapped { key } && key@ == "audio"@),
    {
        context.set_output("audio", Asset::Audio(samples, sample_rate))
    }
}

/// Writes the audio of the pipeline to a WAV file.
pub struct AudioOutputNode {
    pub filepath: String,
}

impl AudioOutputNode {
    /// The samples and sample rate bound to the local input `audio`, which are
    /// to be written to the file; the store is not changed.
    pub fn process<'b, S>(&self, context: &'b NodeContext<S>) -> (r: Result<(&'b Vec<S>, u32), PipelineError>)
        ensures
            r matches Ok((v, rate)) ==> context.input_asset("audio"@) == Some(AssetView::Audio(v@, rate)),
            r is Err <==> !(context.input_asset("audio"@) matches Some(AssetView::Audio(_, _))),
            r matches Err(e) ==> (match context.input_asset("audio"@) {
                None => context.input_error("audio"@, e),
                Some(_) => is_unexpected_asset(e, "AudioOutputNode"@, "Audio"@),
            }),
    {
        context.get_audio_input("AudioOutputNode")
    }
}

/// Splits the audio bound to the local input `audio` into consecutive segments
/// of `samples_per_segment` samples (the last one may be shorter), each with the
/// audio's sample rate, and binds the list to the local output `audio_list`.
pub fn split_audio_input<S: Copy>(context: &mut NodeContext<S>, samples_per_segment: usize) -> (r: Result<(), PipelineError>)
    requires
        samples_per_segment > 0,
    ensures
        final(context).inputs == old(context).inputs,
        final(context).outputs == old(context).outputs,
        match old(context).input_asset("audio"@) {
            Some(AssetView::Audio(samples, rate)) => {
                &&& final(context).store@ == old(context).store_after_output(
                    "audio_list"@,
                    AssetView::AudioList(
                        chunks_of(samples, samples_per_segment as int).map_values(|c: Seq<S>| (c, rate)),
                    ),
                )
                &&& (r is Ok <==> old(context).outputs@.contains_key("audio_list"@))
            },
            _ => final(context).store@ == old(context).store@ && r is Err,
        },
        r matches Err(e) ==> match old(context).input_asset("audio"@) {
            None => old(context).input_error("audio"@, e),
            Some(AssetView::Audio(_, _)) => e matches PipelineError::OutputNotMapped { key } && key@ == "audio_list"@,
            Some(_) => is_unexpected_asset(e, "SegmentNode"@, "Audio"@),
        },
{
    let (samples, sample_rate) = context.get_audio_input("SegmentNode")?;
    let segments = chunk_segments(samples, samples_per_segment, sample_rate);
    let ghost expected = chunks_of(samples@, samples_per_segment as int).map_values(|c: Seq<S>| (c, sample_rate));
    let asset = Asset::AudioList(segments);
    assert(asset@ == AssetView::<S>::AudioList(expected)) by {
        assert(segments@.map_values(|e: (Vec<S>, u32)| (e.0@, e.1)) =~= expected);
    }
    context.set_output("audio_list", asset)
}

/// The path of the image that the PCA node announces.
pub open spec fn pca_plot_path() -> Seq<char> {
    "pca_plot.png"@
}

/// The path of the image that the waveform node announces.
pub open spec fn waveform_plot_path() -> Seq<char> {
    "waveform_output.png"@
}

/// Where the PCA node found its features.
#[derive(Debug, Clone, PartialEq, Eq)]
pub enum PcaSource {
    /// An in-memory feature map with `count` named features.
    Features { count: usize },
    /// A CSV file of features at `path`.
    Csv { path: String },
}

/// Announces a PCA plot of the features bound to its input.
pub struct PcaNode {
    pub components: u32,
}

impl PcaNode {
    /// Reads the local input `features`, which must be a feature map or a CSV
    /// path, and binds the plot path `pca_plot.png` to the local output `image`.
    /// Reports where the features came from.
    pub fn process<S>(&self, context: &mut NodeContext<S>) -> (r: Result<PcaSource, PipelineError>)
        ensures
            final(context).inputs == old(context).inputs,
            final(context).outputs == old(context).outputs,
            match old(context).input_asset("features"@) {
                Some(AssetView::Features(m)) => {
                    &&& final(context).store@ == old(context).store_after_output("image"@, AssetView::Path(pca_plot_path()))
                    &&& (r is Ok <==> old(context).outputs@.contains_key("image"@))
                    &&& (r matches Ok(src) ==> src == PcaSource::Features { count: m.dom().len() as usize })
                },
                Some(AssetView::Path(p)) => {
                    &&& final(context).store@ == old(context).store_after_output("image"@, AssetView::Path(pca_plot_path()))
                    &&& (r is Ok <==> old(context).outputs@.contains_key("image"@))
                    &&& (r matches Ok(src) ==> (src matches PcaSource::Csv { path } && path@ == p))
                },
                _ => final(context).store@ == old(context).store@ && r is Err,
            },
            r matches Err(e) ==> match old(context).input_asset("features"@) {
                None => old(context).input_error("features"@, e),
                Some(AssetView::Features(_)) => e matches PipelineError::OutputNotMapped { key } && key@ == "image"@,
                Some(AssetView::Path(_)) => e matches PipelineError::OutputNotMapped { key } && key@ == "image"@,
                Some(_) => is_unexpected_asset(e, "PcaNode"@, "Features or Path"@),
            },
    {
        let asset = context.get_input("features")?;
        let source = match asset {
            Asset::Features(features_map) => {
                assert(features_map@.map_values(|v: Vec<S>| v@).dom() =~= features_map@.dom());
                PcaSource::Features { count: features_map.len() }
            },
            Asset::Path(csv_path) => PcaSource::Csv { path: csv_path.clone() },
            _ => {
                return Err(
                    PipelineError::UnexpectedAsset {
                        node: String::from_str("PcaNode"),
                        expected: String::from_str("Features or Path"),
                    },
                );
            },
        };
        context.set_output("image", Asset::Path(String::from_str("pca_plot.png")))?;
        Ok(source)
    }
}

/// Announces a waveform image of the audio bound to its input.
pub struct WaveformNode;

impl WaveformNode {
    /// Reads the audio bound to the local input `audio` and binds the image path
    /// `waveform_output.png` to the local output `image`. Reports the number of
    /// samples and the sample rate of the audio.
    pub fn process<S>(&self, context: &mut NodeContext<S>) -> (r: Result<(usize, u32), PipelineError>)
        ensures
            final(context).inputs == old(context).inputs,
            final(context).outputs == old(context).outputs,
            match old(context).input_asset("audio"@) {
                Some(AssetView::Audio(samples, rate)) => {
                    &&& final(context).store@ == old(context).store_after_output("image"@, AssetView::Path(waveform_plot_path()))
                    &&& (r is Ok <==> old(context).outputs@.contains_key("image"@))
                    &&& (r matches Ok(report) ==> report == (samples.len() as usize, rate))
                },
                _ => final(context).store@ == old(context).store@ && r is Err,
            },
            r matches Err(e) ==> match old(context).input_asset("audio"@) {
                None => old(context).input_error("audio"@, e),
                Some(AssetView::Audio(_, _)) => e matches PipelineError::OutputNotMapped { key } && key@ == "image"@,
                Some(_) => is_unexpected_asset(e, "WaveformNode"@, "Audio"@),
            },
    {
        let (samples, sample_rate) = context.get_audio_input("WaveformNode")?;
        let report = (samples.len(), sample_rate);
        context.set_output("image", Asset::Path(String::from_str("waveform_output.png")))?;
        Ok(report)
    }
}

/// The node types a pipeline definition can name.
#[derive(Debug, Clone, Copy, PartialEq, Eq, Structural)]
pub enum NodeKind {
    AudioInput,
    AudioOutput,
    Normalize,
    Convert,
    Spectrum,
    Waveform,
    Segment,
    Features,
    Pca,
    Info,
    Loudness,
}

/// The node kind named `name` in a pipeline definition, if there is one.
pub open spec fn kind_named(name: Seq<char>) -> Option<NodeKind> {
    if name == "AudioInputNode"@ {
        Some(NodeKind::AudioInput)
    } else if name == "AudioOutputNode"@ {
        Some(NodeKind::AudioOutput)
    } else if name == "NormalizeNode"@ {
        Some(NodeKind::Normalize)
    } else if name == "ConvertNode"@ {
        Some(NodeKind::Convert)
    } else if name == "SpectrumNode"@ {
        Some(NodeKind::Spectrum)
    } else if name == "WaveformNode"@ {
        Some(NodeKind::Waveform)
    } else if name == "SegmentNode"@ {
        Some(NodeKind::Segment)
    } else if name == "FeaturesNode"@ {
        Some(NodeKind::Features)
    } else if name == "PcaNode"@ {
        Some(NodeKind::Pca)
    } else if name == "InfoNode"@ {
        Some(NodeKind::Info)
    } else if name == "LoudnessNode"@ {
        Some(NodeKind::Loudness)
    } else {
        None
    }
}

/// The type name by which a pipeline definition asks for a node kind.
pub open spec fn node_type_name(kind: NodeKind) -> Seq<char> {
    match kind {
        NodeKind::AudioInput => "AudioInputNode"@,
        NodeKind::AudioOutput => "AudioOutputNode"@,
        NodeKind::Normalize => "NormalizeNode"@,
        NodeKind::Convert => "ConvertNode"@,
        NodeKind::Spectrum => "SpectrumNode"@,
        NodeKind::Waveform => "WaveformNode"@,
        NodeKind::Segment => "SegmentNode"@,
        NodeKind::Features => "FeaturesNode"@,
        NodeKind::Pca => "PcaNode"@,
        NodeKind::Info => "InfoNode"@,
        NodeKind::Loudness => "LoudnessNode"@,
    }
}

/// Every node kind is accepted under its own type name, and a name is accepted
/// only as the type name of the kind it selects: any other name is unknown.
pub proof fn law_node_type_names(kind: NodeKind, name: Seq<char>)
    ensures
        kind_named(node_type_name(kind)) == Some(kind),
        kind_named(name) matches Some(k) ==> name == node_type_name(k),
        (forall|k: NodeKind| name != #[trigger] node_type_name(k)) ==> kind_named(name) is None,
{
    reveal_strlit("AudioInputNode");
    reveal_strlit("AudioOutputNode");
    reveal_strlit("NormalizeNode");
    reveal_strlit("ConvertNode");
    reveal_strlit("SpectrumNode");
    reveal_strlit("WaveformNode");
    reveal_strlit("SegmentNode");
    reveal_strlit("FeaturesNode");
    reveal_strlit("PcaNode");
    reveal_strlit("InfoNode");
    reveal_strlit("LoudnessNode");
    assert("AudioInputNode"@.len() == 14 && "AudioInputNode"@[0] == 'A');
    assert("AudioOutputNode"@.len() == 15 && "AudioOutputNode"@[0] == 'A');
    assert("NormalizeNode"@.len() == 13 && "NormalizeNode"@[0] == 'N');
    assert("ConvertNode"@.len() == 11 && "ConvertNode"@[0] == 'C');
    assert("SpectrumNode"@.len() == 12 && "SpectrumNode"@[0] == 'S');
    assert("WaveformNode"@.len() == 12 && "WaveformNode"@[0] == 'W');
    assert("SegmentNode"@.len() == 11 && "SegmentNode"@[0] == 'S');
    assert("FeaturesNode"@.len() == 12 && "FeaturesNode"@[0] == 'F');
    assert("PcaNode"@.len() == 7 && "PcaNode"@[0] == 'P');
    assert("InfoNode"@.len() == 8 && "InfoNode"@[0] == 'I');
    assert("LoudnessNode"@.len() == 12 && "LoudnessNode"@[0] == 'L');
    if let Some(k) = kind_named(name) {
        assert(name == node_type_name(k));
    }
}

/// Whether `a` holds the text `b`.
fn text_is(a: &str, b: &str) -> (r: bool)
    ensures
        r == (a@ == b@),
{
    String::from_str(a) == String::from_str(b)
}

/// The node kind that a pipeline definition's `type` field names; an unknown
/// name is refused.
pub fn node_kind(node_type: &str) -> (r: Result<NodeKind, PipelineError>)
    ensures
        match kind_named(node_type@) {
            Some(k) => r == Ok::<NodeKind, PipelineError>(k),
            None => r matches Err(PipelineError::UnknownNodeType { node_type: t }) && t@ == node_type@,
        },
{
    if text_is(node_type, "AudioInputNode") {
        Ok(NodeKind::AudioInput)
    } else if text_is(node_type, "AudioOutputNode") {
        Ok(NodeKind::AudioOutput)
    } else if text_is(node_type, "NormalizeNode") {
        Ok(NodeKind::Normalize)
    } else if text_is(node_type, "ConvertNode") {
        Ok(NodeKind::Convert)
    } else if text_is(node_type, "SpectrumNode") {
        Ok(NodeKind::Spectrum)
    } else if text_is(node_type, "WaveformNode") {
        Ok(NodeKind::Waveform)
    } else if text_is(node_type, "SegmentNode") {
        Ok(NodeKind::Segment)
    } else if text_is(node_type, "FeaturesNode") {
        Ok(NodeKind::Features)
    } else if text_is(node_type, "PcaNode") {
        Ok(NodeKind::Pca)
    } else if text_is(node_type, "InfoNode") {
        Ok(NodeKind::Info)
    } else if text_is(node_type, "LoudnessNode") {
        Ok(NodeKind::Loudness)
    } else {
        Err(PipelineError::UnknownNodeType { node_type: node_type.to_owned() })
    }
}

/// The component count of a PCA node: the configured value (kept modulo
/// 2^32), 2 by default.
pub fn pca_components(configured: Option<u64>) -> (r: u32)
    ensures
        r == match configured {
            Some(v) => (v % 0x1_0000_0000) as u32,
            None => 2u32,
        },
{
    match configured {
        Some(v) => (v % 0x1_0000_0000) as u32,
        None => 2,
    }
}

/// The target channel count of a convert node: the configured value (kept
/// modulo 2^16), if any.
pub fn convert_target_channels(configured: Option<u64>) -> (r: Option<u16>)
    ensures
        r == match configured {
            Some(v) => Some((v % 0x1_0000) as u16),
            None => None::<u16>,
        },
{
    match configured {
        Some(v) => Some((v % 0x1_0000) as u16),
        None => None,
    }
}

/// The settings of a node definition that the library reads; settings with a
/// fraction (a normalization level, a segment length) are read by the tools.
#[derive(Debug, Clone, Default)]
pub struct NodeSettings {
    /// The `path` setting, when it is a text.
    pub path: Option<String>,
    /// The `channels` setting, when it is an unsigned integer.
    pub channels: Option<u64>,
    /// The `components` setting, when it is an unsigned integer.
    pub components: Option<u64>,
}

/// The node that a pipeline definition asks for, with the settings read so far.
#[derive(Debug, Clone, PartialEq, Eq)]
pub enum NodePlan {
    AudioInput { path: String },
    AudioOutput { path: String },
    /// Its level is read by the tool (-1 dBFS by default).
    Normalize,
    Convert { target_channels: Option<u16> },
    Spectrum,
    Waveform,
    /// Its segment length is read by the tool (1 second by default).
    Segment,
    Features { extract_rms: bool, extract_zcr: bool },
    Pca { components: u32 },
    Info,
    Loudness,
}

/// The node that a definition of type `node_type` with `settings` asks for:
/// input and output nodes need a `path`; an unknown type is refused.
pub fn plan_node(node_type: &str, settings: &NodeSettings) -> (r: Result<NodePlan, PipelineError>)
    ensures
        match kind_named(node_type@) {
            None => r matches Err(PipelineError::UnknownNodeType { node_type: t }) && t@ == node_type@,
            Some(NodeKind::AudioInput) => match settings.path {
                Some(p) => r matches Ok(NodePlan::AudioInput { path }) && path@ == p@,
                None => r matches Err(PipelineError::MissingConfig { node, key }) && node@ == "AudioInputNode"@
                    && key@ == "path"@,
            },
            Some(NodeKind::AudioOutput) => match settings.path {
                Some(p) => r matches Ok(NodePlan::AudioOutput { path }) && path@ == p@,
                None => r matches Err(PipelineError::MissingConfig { node, key }) && node@ == "AudioOutputNode"@
                    && key@ == "path"@,
            },
            Some(NodeKind::Normalize) => r == Ok::<NodePlan, PipelineError>(NodePlan::Normalize),
            Some(NodeKind::Convert) => r == Ok::<NodePlan, PipelineError>(
                NodePlan::Convert {
                    target_channels: match settings.channels {
                        Some(v) => Some((v % 0x1_0000) as u16),
                        None => None,
                    },
                },
            ),
            Some(NodeKind::Spectrum) => r == Ok::<NodePlan, PipelineError>(NodePlan::Spectrum),
            Some(NodeKind::Waveform) => r == Ok::<NodePlan, PipelineError>(NodePlan::Waveform),
            Some(NodeKind::Segment) => r == Ok::<NodePlan, PipelineError>(NodePlan::Segment),
            Some(NodeKind::Features) => r == Ok::<NodePlan, PipelineError>(
                NodePlan::Features { extract_rms: true, extract_zcr: true },
            ),
            Some(NodeKind::Pca) => r == Ok::<NodePlan, PipelineError>(
                NodePlan::Pca {
                    components: match settings.components {
                        Some(v) => (v % 0x1_0000_0000) as u32,
                        None => 2u32,
                    },
                },
            ),
            Some(NodeKind::Info) => r == Ok::<NodePlan, PipelineError>(NodePlan::Info),
            Some(NodeKind::Loudness) => r == Ok::<NodePlan, PipelineError>(NodePlan::Loudness),
        },
{
    let kind = node_kind(node_type)?;
    match kind {
        NodeKind::AudioInput => match &settings.path {
            Some(p) => Ok(NodePlan::AudioInput { path: p.clone() }),
            None => Err(
                PipelineError::MissingConfig {
                    node: String::from_str("AudioInputNode"),
                    key: String::from_str("path"),
                },
            ),
        },
        NodeKind::AudioOutput => match &settings.path {
            Some(p) => Ok(NodePlan::AudioOutput { path: p.clone() }),
            None => Err(
                PipelineError::MissingConfig {
                    node: String::from_str("AudioOutputNode"),
                    key: String::from_str("path"),
                },
            ),
        },
        NodeKind::Normalize => Ok(NodePlan::Normalize),
        NodeKind::Convert => Ok(NodePlan::Convert { target_channels: convert_target_channels(settings.channels) }),
        NodeKind::Spectrum => Ok(NodePlan::Spectrum),
        NodeKind::Waveform => Ok(NodePlan::Waveform),
        NodeKind::Segment => Ok(NodePlan::Segment),
        NodeKind::Features => Ok(NodePlan::Features { extract_rms: true, extract_zcr: true }),
        NodeKind::Pca => Ok(NodePlan::Pca { components: pca_components(settings.components) }),
        NodeKind::Info => Ok(NodePlan::Info),
        NodeKind::Loudness => Ok(NodePlan::Loudness),
    }
}

/// Extracts the RMS level and the zero-crossing rate of the audio bound to its input.
pub struct FeaturesNode {
    pub extract_rms: bool,
    pub extract_zcr: bool,
}

/// The feature map that a features node publishes: `rms` and `zcr`, each with
/// its one value, as far as they are extracted.
pub open spec fn published_features<S>(extract_rms: bool, extract_zcr: bool, rms: S, zcr: S) -> Map<Seq<char>, Seq<S>> {
    let m = if extract_rms {
        Map::<Seq<char>, Seq<S>>::empty().insert("rms"@, seq![rms])
    } else {
        Map::<Seq<char>, Seq<S>>::empty()
    };
    if extract_zcr {
        m.insert("zcr"@, seq![zcr])
    } else {
        m
    }
}

impl FeaturesNode {
    /// Binds the map of the extracted features to the local output `features`,
    /// given the RMS level and zero-crossing rate of the input audio.
    pub fn process<S>(&self, context: &mut NodeContext<S>, rms: S, zcr: S) -> (r: Result<(), PipelineError>)
        ensures
            final(context).inputs == old(context).inputs,
            final(context).outputs == old(context).outputs,
            final(context).store@ == old(context).store_after_output(
                "features"@,
                AssetView::Features(published_features(self.extract_rms, self.extract_zcr, rms, zcr)),
            ),
            r is Ok <==> old(context).outputs@.contains_key("features"@),
            r matches Err(e) ==> (e matches PipelineError::OutputNotMapped { key } && key@ == "features"@),
    {
        let ghost expected = published_features(self.extract_rms, self.extract_zcr, rms, zcr);
        let mut features: StringMap<Vec<S>> = StringMap::new();
        if self.extract_rms {
            let value = vec![rms];
            assert(value@ == seq![rms]);
            features.insert(String::from_str("rms"), value);
        }
        let ghost after_rms = features@.map_values(|v: Vec<S>| v@);
        assert(after_rms =~= (if self.extract_rms {
            Map::<Seq<char>, Seq<S>>::empty().insert("rms"@, seq![rms])
        } else {
            Map::<Seq<char>, Seq<S>>::empty()
        }));
        if self.extract_zcr {
            let value = vec![zcr];
            assert(value@ == seq![zcr]);
            features.insert(String::from_str("zcr"), value);
            assert(features@.map_values(|v: Vec<S>| v@) =~= after_rms.insert("zcr"@, seq![zcr]));
        }
        assert(features@.map_values(|v: Vec<S>| v@) =~= expected);
        context.set_output("features", Asset::Features(features))
    }
}

/// Reports the length, rate and duration of the audio bound to its input.
pub struct InfoNode;

/// Reports the integrated loudness of the audio bound to its input.
pub struct LoudnessNode;

/// Renders a spectrogram of the audio bound to its input.
pub struct SpectrumNode {
    pub options: crate::spectrum::SpectrumOptions,
}

/// Loads mono audio from WAV files.
pub struct DefaultAudioLoader;

} // verus!
