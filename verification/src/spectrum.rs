//! Spectrum-analysis vocabulary: configuration enums, the unified error type
//! with context chaining, and the test doubles of the analysis pipeline.

use vstd::prelude::*;

verus! {

/// The taper applied to each analysis frame.
#[derive(Debug, Clone, Copy, PartialEq, Eq, Structural)]
pub enum WindowType {
    Hanning,
    Hamming,
    Blackman,
}

/// The frame overlap chosen for a spectrogram.
#[derive(Debug, Clone, Copy, PartialEq, Eq, Structural)]
pub enum QualityLevel {
    /// 50% overlap.
    Fast,
    /// 75% overlap.
    Standard,
    /// 87.5% overlap.
    High,
}

/// A named frequency range.
#[derive(Debug, Clone, Copy, PartialEq, Eq, Structural)]
pub enum FrequencyPreset {
    /// 20 Hz to Nyquist.
    Full,
    /// 20 Hz to 20 kHz.
    AudioRange,
    /// 80 Hz to 8 kHz.
    SpeechRange,
    /// 80 Hz to 12 kHz.
    MusicRange,
    /// 60 Hz to 250 Hz.
    Bass,
}

/// The frequency presets that the spectrum tool's `--freq-preset` option names.
#[derive(Debug, Clone, Copy, PartialEq, Eq, Structural)]
pub enum FrequencyPresetArg {
    Full,
    AudioRange,
    SpeechRange,
    MusicRange,
    Bass,
}

/// The preset that an option value selects: the preset of the same name.
pub open spec fn preset_for_arg(arg: FrequencyPresetArg) -> FrequencyPreset {
    match arg {
        FrequencyPresetArg::Full => FrequencyPreset::Full,
        FrequencyPresetArg::AudioRange => FrequencyPreset::AudioRange,
        FrequencyPresetArg::SpeechRange => FrequencyPreset::SpeechRange,
        FrequencyPresetArg::MusicRange => FrequencyPreset::MusicRange,
        FrequencyPresetArg::Bass => FrequencyPreset::Bass,
    }
}

impl From<FrequencyPresetArg> for FrequencyPreset {
    fn from(arg: FrequencyPresetArg) -> (r: Self) {
        match arg {
            FrequencyPresetArg::Full => FrequencyPreset::Full,
            FrequencyPresetArg::AudioRange => FrequencyPreset::AudioRange,
            FrequencyPresetArg::SpeechRange => FrequencyPreset::SpeechRange,
            FrequencyPresetArg::MusicRange => FrequencyPreset::MusicRange,
            FrequencyPresetArg::Bass => FrequencyPreset::Bass,
        }
    }
}

impl vstd::std_specs::convert::FromSpecImpl<FrequencyPresetArg> for FrequencyPreset {
    open spec fn obeys_from_spec() -> bool {
        true
    }

    open spec fn from_spec(arg: FrequencyPresetArg) -> Self {
        preset_for_arg(arg)
    }
}

/// A class of analysis durations.
#[derive(Debug, Clone, Copy, PartialEq, Eq, Structural)]
pub enum DurationPreset {
    /// Under 100 ms.
    VeryShort,
    /// 100 ms to 500 ms.
    Short,
    /// 500 ms to 2 s.
    Medium,
    /// Over 2 s.
    Long,
}

/// Options of a spectrum request (none so far).
#[derive(Debug, Clone, Copy, Default)]
pub struct SpectrumOptions;

/// `std::io::Error`, carried through the library unexamined.
#[verifier::external_type_specification]
#[verifier::external_body]
pub struct ExIoError(std::io::Error);

/// `hound::Error`, carried through the library unexamined.
#[verifier::external_type_specification]
#[verifier::external_body]
pub struct ExHoundError(hound::Error);

/// The error type of spectrum analysis.
#[derive(Debug)]
pub enum SpectrumError {
    /// An error with a description of what was being done when it happened.
    WithContext { context: String, source: Box<SpectrumError> },
    /// A plain message.
    Message(String),
    /// An I/O error.
    Io(std::io::Error),
    /// An error of the WAV reader or writer.
    Hound(hound::Error),
}

/// The text of an error built from messages and contexts only: each context,
/// then `": "`, then the text of its source; `None` when the chain ends in an
/// I/O or WAV error.
pub open spec fn chain_text(e: SpectrumError) -> Option<Seq<char>>
    decreases e,
{
    match e {
        SpectrumError::Message(m) => Some(m@),
        SpectrumError::WithContext { context, source } => match chain_text(*source) {
            Some(t) => Some(context@ + ": "@ + t),
            None => None,
        },
        _ => None,
    }
}

/// `std::io::Error`'s `to_string` (its `Display` text); nothing is stated of the text.
#[verifier::external_body]
fn io_error_text(e: &std::io::Error) -> String {
    e.to_string()
}

/// `hound::Error`'s `to_string` (its `Display` text); nothing is stated of the
/// text, which for an I/O failure is that of the underlying `std::io::Error`.
#[verifier::external_body]
fn hound_error_text(e: &hound::Error) -> String {
    e.to_string()
}

impl SpectrumError {
    /// An error carrying `msg`.
    pub fn new(msg: &str) -> (r: Self)
        ensures
            r matches SpectrumError::Message(m) && m@ == msg@,
    {
        SpectrumError::Message(msg.to_owned())
    }

    /// This error wrapped with the context `ctx`.
    pub fn context(self, ctx: &str) -> (r: Self)
        ensures
            r matches SpectrumError::WithContext { context, source } && context@ == ctx@ && *source == self,
    {
        SpectrumError::WithContext { context: ctx.to_owned(), source: Box::new(self) }
    }

    /// The human-readable text of the error: a context is followed by `": "`
    /// and the text of its source.
    pub fn message(&self) -> (r: String)
        ensures
            chain_text(*self) matches Some(t) ==> r@ == t,
            self matches SpectrumError::WithContext { context, .. } ==> r@.subrange(0, context@.len() as int) == context@,
        decreases self,
    {
        match self {
            SpectrumError::WithContext { context, source } => {
                let inner = source.message();
                let mut s = context.clone();
                s.append(": ");
                s.append(inner.as_str());
                assert(s@.subrange(0, context@.len() as int) =~= context@);
                s
            },
            SpectrumError::Message(m) => m.clone(),
            SpectrumError::Io(e) => io_error_text(e),
            SpectrumError::Hound(e) => hound_error_text(e),
        }
    }
}

impl From<std::io::Error> for SpectrumError {
    fn from(e: std::io::Error) -> (r: Self) {
        SpectrumError::Io(e)
    }
}

impl vstd::std_specs::convert::FromSpecImpl<std::io::Error> for SpectrumError {
    open spec fn obeys_from_spec() -> bool {
        true
    }

    open spec fn from_spec(e: std::io::Error) -> Self {
        SpectrumError::Io(e)
    }
}

impl From<hound::Error> for SpectrumError {
    fn from(e: hound::Error) -> (r: Self) {
        SpectrumError::Hound(e)
    }
}

impl vstd::std_specs::convert::FromSpecImpl<hound::Error> for SpectrumError {
    open spec fn obeys_from_spec() -> bool {
        true
    }

    open spec fn from_spec(e: hound::Error) -> Self {
        SpectrumError::Hound(e)
    }
}

/// Adds a context to the error of a `Result`.
pub trait ResultExt<T>: Sized {
    /// `self` with its error converted to a [`SpectrumError`] and wrapped with `ctx`.
    fn context(self, ctx: &str) -> Result<T, SpectrumError>;
}

impl<T, E: Into<SpectrumError>> ResultExt<T> for Result<T, E> {
    fn context(self, ctx: &str) -> (r: Result<T, SpectrumError>)
        ensures
            r is Ok <==> self is Ok,
            self matches Ok(v) ==> r == Ok::<T, SpectrumError>(v),
            r matches Err(e) ==> (e matches SpectrumError::WithContext { context, source } && context@ == ctx@
                && (self matches Err(x) && call_ensures(<E as Into<SpectrumError>>::into, (x,), *source))),
    {
        match self {
            Ok(v) => Ok(v),
            Err(e) => Err(e.into().context(ctx)),
        }
    }
}

/// An audio loader stand-in that always fails with a fixed message.
pub struct FailingAudioLoader {
    error_message: String,
}

impl View for FailingAudioLoader {
    type V = Seq<char>;

    /// The message every load fails with.
    closed spec fn view(&self) -> Seq<char> {
        self.error_message@
    }
}

impl FailingAudioLoader {
    /// A loader whose loads fail with `error_message`.
    pub fn new(error_message: &str) -> (r: Self)
        ensures
            r@ == error_message@,
    {
        FailingAudioLoader { error_message: error_message.to_owned() }
    }

    /// The error that every load reports.
    pub fn load_error(&self) -> (r: SpectrumError)
        ensures
            r matches SpectrumError::Message(m) && m@ == self@,
    {
        SpectrumError::new(self.error_message.as_str())
    }
}

/// A spectral analyzer stand-in that produces a fixed-size spectrogram.
pub struct MockSpectralAnalyzer {
    time_bins: usize,
    freq_bins: usize,
    generate_data: bool,
}

impl View for MockSpectralAnalyzer {
    type V = (usize, usize, bool);

    /// The number of time bins, the number of frequency bins, and whether the
    /// spectrogram holds a gradient pattern (rather than zeros).
    closed spec fn view(&self) -> (usize, usize, bool) {
        (self.time_bins, self.freq_bins, self.generate_data)
    }
}

impl MockSpectralAnalyzer {
    /// 100 time bins by 512 frequency bins of gradient data.
    pub fn new() -> (r: Self)
        ensures
            r@ == (100usize, 512usize, true),
    {
        MockSpectralAnalyzer { time_bins: 100, freq_bins: 512, generate_data: true }
    }

    /// The same analyzer with the given dimensions.
    pub fn with_dimensions(self, time_bins: usize, freq_bins: usize) -> (r: Self)
        ensures
            r@ == (time_bins, freq_bins, self@.2),
    {
        MockSpectralAnalyzer { time_bins, freq_bins, generate_data: self.generate_data }
    }

    /// The same analyzer producing all-zero data.
    pub fn with_empty_data(self) -> (r: Self)
        ensures
            r@ == (self@.0, self@.1, false),
    {
        MockSpectralAnalyzer { time_bins: self.time_bins, freq_bins: self.freq_bins, generate_data: false }
    }

    /// The number of time bins produced.
    pub fn time_bins(&self) -> (r: usize)
        ensures
            r == self@.0,
    {
        self.time_bins
    }

    /// The number of frequency bins produced.
    pub fn freq_bins(&self) -> (r: usize)
        ensures
            r == self@.1,
    {
        self.freq_bins
    }

    /// Whether the produced data is a gradient (rather than zeros).
    pub fn generates_data(&self) -> (r: bool)
        ensures
            r == self@.2,
    {
        self.generate_data
    }
}

/// A renderer stand-in that counts renders, or always fails.
pub struct MockSpectrogramRenderer {
    should_fail: bool,
    error_message: String,
    rendered_count: usize,
}

impl View for MockSpectrogramRenderer {
    type V = (bool, Seq<char>, usize);

    /// Whether renders fail, the failure message, and the number of successful renders.
    closed spec fn view(&self) -> (bool, Seq<char>, usize) {
        (self.should_fail, self.error_message@, self.rendered_count)
    }
}

impl MockSpectrogramRenderer {
    /// A renderer that succeeds and has rendered nothing yet.
    pub fn new() -> (r: Self)
        ensures
            r@ == (false, Seq::<char>::empty(), 0usize),
    {
        MockSpectrogramRenderer { should_fail: false, error_message: String::new(), rendered_count: 0 }
    }

    /// The same renderer, made to fail with `error_message`.
    pub fn with_failure(self, error_message: &str) -> (r: Self)
        ensures
            r@ == (true, error_message@, self@.2),
    {
        MockSpectrogramRenderer {
            should_fail: true,
            error_message: error_message.to_owned(),
            rendered_count: self.rendered_count,
        }
    }

    /// The number of successful renders so far.
    pub fn render_count(&self) -> (r: usize)
        ensures
            r == self@.2,
    {
        self.rendered_count
    }

    /// One render: fails with the configured message, or counts the render.
    pub fn record_render(&mut self) -> (r: Result<(), SpectrumError>)
        requires
            !old(self)@.0 ==> old(self)@.2 < usize::MAX,
        ensures
            old(self)@.0 ==> (final(self)@ == old(self)@ && (r matches Err(SpectrumError::Message(m)) && m@ == old(self)@.1)),
            !old(self)@.0 ==> (final(self)@ == (old(self)@.0, old(self)@.1, (old(self)@.2 + 1) as usize) && r is Ok),
    {
        if self.should_fail {
            Err(SpectrumError::new(self.error_message.as_str()))
        } else {
            self.rendered_count = self.rendered_count + 1;
            Ok(())
        }
    }
}

/// A synthetic spectrogram layout.
#[derive(Debug, Clone, Copy, PartialEq, Eq, Structural)]
pub enum TestPattern {
    Diagonal,
    Horizontal,
    Vertical,
    Checkerboard,
}

/// Whether the cell at time bin `t` and frequency bin `f` is lit in a
/// `time_bins` by `freq_bins` spectrogram of `pattern`.
pub open spec fn pattern_cell(pattern: TestPattern, time_bins: int, freq_bins: int, t: int, f: int) -> bool {
    match pattern {
        TestPattern::Diagonal => t * freq_bins / time_bins == f,
        TestPattern::Horizontal => f == freq_bins / 2,
        TestPattern::Vertical => t == time_bins / 2,
        TestPattern::Checkerboard => (t + f) % 2 == 0,
    }
}

/// The lit cells of a `time_bins` by `freq_bins` spectrogram of `pattern`:
/// one row per time bin, one flag per frequency bin.
pub fn pattern_mask(time_bins: usize, freq_bins: usize, pattern: TestPattern) -> (r: Vec<Vec<bool>>)
    requires
        time_bins * freq_bins <= usize::MAX,
    ensures
        r@.len() == time_bins,
        forall|t: int| 0 <= t < time_bins ==> (#[trigger] r@[t])@.len() == freq_bins,
        forall|t: int, f: int| 0 <= t < time_bins && 0 <= f < freq_bins ==>
            (#[trigger] r@[t]@[f]) == pattern_cell(pattern, time_bins as int, freq_bins as int, t, f),
{
    let mut rows: Vec<Vec<bool>> = Vec::with_capacity(time_bins);
    let mut t: usize = 0;
    while t < time_bins
        invariant
            t <= time_bins,
            time_bins * freq_bins <= usize::MAX,
            rows@.len() == t,
            forall|a: int| 0 <= a < t ==> (#[trigger] rows@[a])@.len() == freq_bins,
            forall|a: int, f: int| 0 <= a < t && 0 <= f < freq_bins ==>
                (#[trigger] rows@[a]@[f]) == pattern_cell(pattern, time_bins as int, freq_bins as int, a, f),
        decreases time_bins - t,
    {
        let mut row: Vec<bool> = Vec::with_capacity(freq_bins);
        let mut f: usize = 0;
        while f < freq_bins
            invariant
                t < time_bins,
                f <= freq_bins,
                time_bins * freq_bins <= usize::MAX,
                row@.len() == f,
                forall|b: int| 0 <= b < f ==> #[trigger] row@[b] == pattern_cell(pattern, time_bins as int, freq_bins as int, t as int, b),
            decreases freq_bins - f,
        {
            assert(t * freq_bins < time_bins * freq_bins && t + f < usize::MAX) by (nonlinear_arith)
                requires
                    t < time_bins,
                    f < freq_bins,
                    time_bins * freq_bins <= usize::MAX,
            ;
            let lit = match pattern {
                TestPattern::Diagonal => t * freq_bins / time_bins == f,
                TestPattern::Horizontal => f == freq_bins / 2,
                TestPattern::Vertical => t == time_bins / 2,
                TestPattern::Checkerboard => (t + f) % 2 == 0,
            };
            row.push(lit);
            f = f + 1;
        }
        rows.push(row);
        t = t + 1;
    }
    rows
}

/// In a square diagonal pattern exactly the cells on the main diagonal are lit.
pub proof fn law_square_diagonal(n: int, t: int, f: int)
    requires
        0 <= t < n,
        0 <= f < n,
    ensures
        pattern_cell(TestPattern::Diagonal, n, n, t, f) <==> t == f,
{
    assert(t * n / n == t) by (nonlinear_arith)
        requires
            0 <= t,
            n > 0,
    {
        vstd::arithmetic::div_mod::lemma_div_multiples_vanish(t, n);
        assert(t * n == n * t);
    }
}

} // verus!
