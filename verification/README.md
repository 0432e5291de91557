# audiotools

Command-line audio tools (conversion, normalization, feature extraction,
segmentation, loudness, file reports, spectrograms, waveforms, PCA plots) and a
pipeline runner that chains their nodes over a shared asset store.

The decisions of the tools are a library verified with Verus (`src/`):

- `pipeline`, `nodes`, `string_map`: the asset store, node contexts that bind
  local input and output names to store keys, the nodes that move assets, and
  the choice of node for a pipeline definition.
- `segment`, `framing`, `detection`, `features`, `channels`: segment selection,
  silence trimming, onset picking, analysis frame layouts, start detection,
  zero-crossing counts, feature-table columns and channel regrouping.
- `config`, `arguments`, `text`, `info`, `wav_header`, `spectrum`: option and
  configuration resolution, argument parsing, decimal numbers, template
  filling, WAV header decoding, and the error and test-double types of the
  spectrum tool.

`app/` holds the command-line program: file and device I/O, signal processing
with floating point, plotting, and the external codecs.
