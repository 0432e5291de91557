//! The node pipeline: assets flowing between nodes, the store that holds them
//! under global keys, and the context through which a node reads its inputs
//! and writes its outputs by local names.
//!
//! Sample values are a type parameter: the store and the nodes defined here
//! move samples around without computing on them.

use crate::string_map::StringMap;
use vstd::prelude::*;

verus! {

/// Data flowing through the pipeline.
#[derive(Debug)]
pub enum Asset<S> {
    /// Mono audio data with its sample rate.
    Audio(Vec<S>, u32),
    /// A list of audio segments, each with its sample rate.
    AudioList(Vec<(Vec<S>, u32)>),
    /// Named feature vectors extracted from audio.
    Features(StringMap<Vec<S>>),
    /// A file path, e.g. of an image or a saved audio file.
    Path(String),
    /// A text value.
    String(String),
}

/// The mathematical content of an [`Asset`]: vectors and strings by their contents.
pub enum AssetView<S> {
    Audio(Seq<S>, u32),
    AudioList(Seq<(Seq<S>, u32)>),
    Features(Map<Seq<char>, Seq<S>>),
    Path(Seq<char>),
    String(Seq<char>),
}

impl<S> View for Asset<S> {
    type V = AssetView<S>;

    open spec fn view(&self) -> AssetView<S> {
        match self {
            Asset::Audio(v, rate) => AssetView::Audio(v@, *rate),
            Asset::AudioList(l) => AssetView::AudioList(l@.map_values(|e: (Vec<S>, u32)| (e.0@, e.1))),
            Asset::Features(m) => AssetView::Features(m@.map_values(|v: Vec<S>| v@)),
            Asset::Path(p) => AssetView::Path(p@),
            Asset::String(t) => AssetView::String(t@),
        }
    }
}

/// Why a pipeline step failed.
#[derive(Debug, Clone, PartialEq, Eq)]
pub enum PipelineError {
    /// The store holds no asset under this global key.
    AssetNotFound { key: String },
    /// The node configuration maps no global key to this local input key.
    InputNotMapped { key: String },
    /// The node configuration maps no global key to this local output key.
    OutputNotMapped { key: String },
    /// A node received an asset of the wrong kind.
    UnexpectedAsset { node: String, expected: String },
    /// A pipeline definition names a node type that does not exist.
    UnknownNodeType { node_type: String },
    /// A node definition lacks a setting that the node needs.
    MissingConfig { node: String, key: String },
}

/// The text that describes `e`.
pub open spec fn pipeline_error_text(e: PipelineError) -> Seq<char> {
    match e {
        PipelineError::AssetNotFound { key } => "Asset with key '"@ + key@ + "' not found in store"@,
        PipelineError::InputNotMapped { key } => "Input key '"@ + key@ + "' not mapped in node configuration"@,
        PipelineError::OutputNotMapped { key } => "Output key '"@ + key@ + "' not mapped in node configuration"@,
        PipelineError::UnexpectedAsset { node, expected } => "Expected "@ + expected@ + " asset for "@ + node@,
        PipelineError::UnknownNodeType { node_type } => "Unknown node type: "@ + node_type@,
        PipelineError::MissingConfig { node, key } => node@ + " requires '"@ + key@ + "' config"@,
    }
}

impl PipelineError {
    /// The human-readable description of the error.
    pub fn message(&self) -> (r: String)
        ensures
            r@ == pipeline_error_text(*self),
    {
        match self {
            PipelineError::AssetNotFound { key } => {
                let mut s = String::from_str("Asset with key '");
                s.append(key.as_str());
                s.append("' not found in store");
                s
            },
            PipelineError::InputNotMapped { key } => {
                let mut s = String::from_str("Input key '");
                s.append(key.as_str());
                s.append("' not mapped in node configuration");
                s
            },
            PipelineError::OutputNotMapped { key } => {
                let mut s = String::from_str("Output key '");
                s.append(key.as_str());
                s.append("' not mapped in node configuration");
                s
            },
            PipelineError::UnexpectedAsset { node, expected } => {
                let mut s = String::from_str("Expected ");
                s.append(expected.as_str());
                s.append(" asset for ");
                s.append(node.as_str());
                s
            },
            PipelineError::UnknownNodeType { node_type } => {
                let mut s = String::from_str("Unknown node type: ");
                s.append(node_type.as_str());
                s
            },
            PipelineError::MissingConfig { node, key } => {
                let mut s = node.clone();
                s.append(" requires '");
                s.append(key.as_str());
                s.append("' config");
                s
            },
        }
    }
}

/// `e` reports that no asset is stored under `key`.
pub open spec fn is_asset_not_found(e: PipelineError, key: Seq<char>) -> bool {
    e matches PipelineError::AssetNotFound { key: k } && k@ == key
}

/// `e` reports that the local input key `key` is not mapped.
pub open spec fn is_input_not_mapped(e: PipelineError, key: Seq<char>) -> bool {
    e matches PipelineError::InputNotMapped { key: k } && k@ == key
}

/// `e` reports that the local output key `key` is not mapped.
pub open spec fn is_output_not_mapped(e: PipelineError, key: Seq<char>) -> bool {
    e matches PipelineError::OutputNotMapped { key: k } && k@ == key
}

/// `e` reports that node `node` expected an asset of kind `expected`.
pub open spec fn is_unexpected_asset(e: PipelineError, node: Seq<char>, expected: Seq<char>) -> bool {
    e matches PipelineError::UnexpectedAsset { node: n, expected: x } && n@ == node && x@ == expected
}

/// A store for assets during pipeline execution, keyed by global names.
#[derive(Debug)]
pub struct AssetStore<S> {
    assets: StringMap<Asset<S>>,
}

impl<S> View for AssetStore<S> {
    type V = Map<Seq<char>, AssetView<S>>;

    closed spec fn view(&self) -> Map<Seq<char>, AssetView<S>> {
        self.assets@.map_values(|a: Asset<S>| a@)
    }
}

impl<S> AssetStore<S> {
    /// Creates an empty store.
    pub fn new() -> (r: Self)
        ensures
            r@ == Map::<Seq<char>, AssetView<S>>::empty(),
    {
        let r = AssetStore { assets: StringMap::new() };
        assert(r@ =~= Map::<Seq<char>, AssetView<S>>::empty());
        r
    }

    /// Stores `asset` under `key`, replacing what was stored there.
    pub fn insert(&mut self, key: &str, asset: Asset<S>)
        ensures
            final(self)@ == old(self)@.insert(key@, asset@),
    {
        let ghost a = asset;
        self.assets.insert(key.to_owned(), asset);
        assert(self@ =~= old(self)@.insert(key@, a@));
    }

    /// The asset stored under `key`.
    pub fn get(&self, key: &str) -> (r: Result<&Asset<S>, PipelineError>)
        ensures
            match r {
                Ok(a) => self@.contains_key(key@) && a@ == self@[key@],
                Err(e) => !self@.contains_key(key@) && is_asset_not_found(e, key@),
            },
    {
        match self.assets.get(key) {
            Some(a) => Ok(a),
            None => Err(PipelineError::AssetNotFound { key: key.to_owned() }),
        }
    }

    /// Removes the asset stored under `key` and hands it over.
    pub fn take(&mut self, key: &str) -> (r: Result<Asset<S>, PipelineError>)
        ensures
            final(self)@ == old(self)@.remove(key@),
            match r {
                Ok(a) => old(self)@.contains_key(key@) && a@ == old(self)@[key@],
                Err(e) => !old(self)@.contains_key(key@) && is_asset_not_found(e, key@),
            },
    {
        let r = self.assets.remove(key);
        assert(self@ =~= old(self)@.remove(key@));
        match r {
            Some(a) => Ok(a),
            None => Err(PipelineError::AssetNotFound { key: key.to_owned() }),
        }
    }
}

/// What a node sees while it runs: the store, and the maps from its local
/// input and output names to global store keys.
///
/// The context holds the store itself while the node runs; the runner moves
/// the store in before a node and takes it back afterwards.
pub struct NodeContext<'a, S> {
    pub store: AssetStore<S>,
    pub inputs: &'a StringMap<String>,
    pub outputs: &'a StringMap<String>,
}

impl<'a, S> NodeContext<'a, S> {
    /// The asset that the local input name `local` resolves to, if any.
    pub open spec fn input_asset(&self, local: Seq<char>) -> Option<AssetView<S>> {
        if self.inputs@.contains_key(local) && self.store@.contains_key(self.inputs@[local]@) {
            Some(self.store@[self.inputs@[local]@])
        } else {
            None
        }
    }

    /// `e` is the error that reading the local input `local` reports when it
    /// resolves to no asset.
    pub open spec fn input_error(&self, local: Seq<char>, e: PipelineError) -> bool {
        if self.inputs@.contains_key(local) {
            is_asset_not_found(e, self.inputs@[local]@)
        } else {
            is_input_not_mapped(e, local)
        }
    }

    /// The store contents after writing `asset` to the local output `local`
    /// (unchanged when `local` is not mapped).
    pub open spec fn store_after_output(&self, local: Seq<char>, asset: AssetView<S>) -> Map<Seq<char>, AssetView<S>> {
        if self.outputs@.contains_key(local) {
            self.store@.insert(self.outputs@[local]@, asset)
        } else {
            self.store@
        }
    }

    /// The asset bound to the local input name `local_key`.
    pub fn get_input(&self, local_key: &str) -> (r: Result<&Asset<S>, PipelineError>)
        ensures
            r is Ok <==> self.input_asset(local_key@) is Some,
            r matches Ok(a) ==> self.input_asset(local_key@) == Some(a@),
            r matches Err(e) ==> self.input_error(local_key@, e),
    {
        match self.inputs.get(local_key) {
            Some(global_key) => self.store.get(global_key.as_str()),
            None => Err(PipelineError::InputNotMapped { key: local_key.to_owned() }),
        }
    }

    /// Stores `asset` under the global key bound to the local output name `local_key`.
    pub fn set_output(&mut self, local_key: &str, asset: Asset<S>) -> (r: Result<(), PipelineError>)
        ensures
            final(self).inputs == old(self).inputs,
            final(self).outputs == old(self).outputs,
            final(self).store@ == old(self).store_after_output(local_key@, asset@),
            r is Ok <==> old(self).outputs@.contains_key(local_key@),
            r matches Err(e) ==> is_output_not_mapped(e, local_key@),
    {
        match self.outputs.get(local_key) {
            Some(global_key) => {
                self.store.insert(global_key.as_str(), asset);
                Ok(())
            },
            None => Err(PipelineError::OutputNotMapped { key: local_key.to_owned() }),
        }
    }

    /// The samples and sample rate bound to the local input `audio`, read on
    /// behalf of node `node`, which accepts audio assets only.
    pub fn get_audio_input(&self, node: &str) -> (r: Result<(&Vec<S>, u32), PipelineError>)
        ensures
            r matches Ok((v, rate)) ==> self.input_asset("audio"@) == Some(AssetView::Audio(v@, rate)),
            r is Err <==> !(self.input_asset("audio"@) matches Some(AssetView::Audio(_, _))),
            r matches Err(e) ==> (match self.input_asset("audio"@) {
                None => self.input_error("audio"@, e),
                Some(_) => is_unexpected_asset(e, node@, "Audio"@),
            }),
    {
        let asset = self.get_input("audio")?;
        expect_audio(asset, node)
    }
}

/// The samples and rate of an audio asset; for any other asset, the error that
/// node `node` reports.
pub fn expect_audio<'b, S>(asset: &'b Asset<S>, node: &str) -> (r: Result<(&'b Vec<S>, u32), PipelineError>)
    ensures
        r is Ok <==> *asset is Audio,
        r matches Ok((v, rate)) ==> asset@ == AssetView::Audio(v@, rate),
        r matches Err(e) ==> is_unexpected_asset(e, node@, "Audio"@),
{
    match asset {
        Asset::Audio(samples, rate) => Ok((samples, *rate)),
        _ => Err(PipelineError::UnexpectedAsset { node: node.to_owned(), expected: String::from_str("Audio") }),
    }
}

/// Reading a key of the store right after storing an asset under it gives
/// that asset, and every other key keeps what it held.
pub proof fn law_store_read_after_write<S>(
    m: Map<Seq<char>, AssetView<S>>,
    key: Seq<char>,
    asset: AssetView<S>,
    other: Seq<char>,
)
    ensures
        m.insert(key, asset).contains_key(key),
        m.insert(key, asset)[key] == asset,
        other != key ==> (m.insert(key, asset).contains_key(other) <==> m.contains_key(other)),
        other != key && m.contains_key(other) ==> m.insert(key, asset)[other] == m[other],
{
}

/// Taking a key hands over what was last stored under it and leaves the key
/// empty, so that a second take of it fails; other keys are untouched.
pub proof fn law_take_after_write<S>(
    m: Map<Seq<char>, AssetView<S>>,
    key: Seq<char>,
    asset: AssetView<S>,
    other: Seq<char>,
)
    ensures
        m.insert(key, asset).contains_key(key) && m.insert(key, asset)[key] == asset,
        !m.insert(key, asset).remove(key).contains_key(key),
        m.insert(key, asset).remove(key) == m.remove(key),
        other != key ==> (m.insert(key, asset).remove(key).contains_key(other) <==> m.contains_key(other)),
{
    assert(m.insert(key, asset).remove(key) =~= m.remove(key));
}

/// What one node writes to an output is what a later node reads from an input,
/// when both names are bound to the same global key.
pub proof fn law_output_feeds_input<'a, S>(
    writer: NodeContext<'a, S>,
    reader: NodeContext<'a, S>,
    out_key: Seq<char>,
    in_key: Seq<char>,
    asset: AssetView<S>,
)
    requires
        writer.outputs@.contains_key(out_key),
        reader.inputs@.contains_key(in_key),
        reader.inputs@[in_key]@ == writer.outputs@[out_key]@,
        reader.store@ == writer.store_after_output(out_key, asset),
    ensures
        reader.input_asset(in_key) == Some(asset),
{
}

/// Writing to an output name that the node configuration does not bind
/// leaves the store as it was.
pub proof fn law_unbound_output_keeps_store<'a, S>(context: NodeContext<'a, S>, out_key: Seq<char>, asset: AssetView<S>)
    requires
        !context.outputs@.contains_key(out_key),
    ensures
        context.store_after_output(out_key, asset) == context.store@,
{
}

} // verus!
