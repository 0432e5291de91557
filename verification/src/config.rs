//! Settings shared by the command-line tools, and the rules by which command
//! line options, configuration-file values and defaults combine; file
//! extension filters and output file naming.

use crate::text::{split_on, split_text};
use vstd::prelude::*;

verus! {

/// Settings that apply to every tool.
#[derive(Debug, Clone, Default)]
pub struct GlobalConfig {
    pub overwrite: Option<bool>,
    pub recursive: Option<bool>,
}

/// Settings of feature extraction.
#[derive(Debug, Clone, Default)]
pub struct FeaturesConfig {
    pub save_individual: Option<bool>,
}

/// Settings of format conversion.
#[derive(Debug, Clone, Default)]
pub struct ConvertConfig {
    pub format: Option<String>,
    pub subtype: Option<String>,
}

/// Settings of waveform images.
#[derive(Debug, Clone, Default)]
pub struct WaveformConfig {
    pub width: Option<u32>,
    pub height: Option<u32>,
}

/// The name the standard library gives to the lowercase form of a text
/// (`str::to_lowercase`, by the Unicode `Lowercase` property).
pub uninterp spec fn lowercase_text(s: Seq<char>) -> Seq<char>;

/// Whether `c` has the Unicode `White_Space` property.
pub open spec fn is_white_space(c: char) -> bool {
    let v = c as int;
    (0x09 <= v <= 0x0D) || v == 0x20 || v == 0x85 || v == 0xA0 || v == 0x1680 || (0x2000 <= v <= 0x200A)
        || v == 0x2028 || v == 0x2029 || v == 0x202F || v == 0x205F || v == 0x3000
}

/// `s` without its leading whitespace.
pub open spec fn trimmed_start(s: Seq<char>) -> Seq<char>
    decreases s.len(),
{
    if s.len() > 0 && is_white_space(s[0]) {
        trimmed_start(s.drop_first())
    } else {
        s
    }
}

/// `s` without its trailing whitespace.
pub open spec fn trimmed_end(s: Seq<char>) -> Seq<char>
    decreases s.len(),
{
    if s.len() > 0 && is_white_space(s.last()) {
        trimmed_end(s.drop_last())
    } else {
        s
    }
}

/// `s` without leading and trailing whitespace.
pub open spec fn trimmed_text(s: Seq<char>) -> Seq<char> {
    trimmed_end(trimmed_start(s))
}

/// `str::to_lowercase`: the lowercase form of `s`; its result is named, not described.
#[verifier::external_body]
fn to_lowercase(s: &str) -> (r: String)
    ensures
        r@ == lowercase_text(s@),
{
    s.to_lowercase()
}

/// Whether `c` has the Unicode `White_Space` property.
fn white_space_char(c: char) -> (r: bool)
    ensures
        r == is_white_space(c),
{
    let v = c as u32;
    (0x09 <= v && v <= 0x0D) || v == 0x20 || v == 0x85 || v == 0xA0 || v == 0x1680 || (0x2000 <= v && v <= 0x200A)
        || v == 0x2028 || v == 0x2029 || v == 0x202F || v == 0x205F || v == 0x3000
}

/// `s` without its leading whitespace.
fn trim_start_text(s: &str) -> (r: &str)
    ensures
        r@ == trimmed_start(s@),
{
    let n = s.unicode_len();
    let mut k: usize = 0;
    assert(s@.subrange(0, n as int) =~= s@);
    while k < n && white_space_char(s.get_char(k))
        invariant
            n == s@.len(),
            k <= n,
            trimmed_start(s@.subrange(k as int, n as int)) == trimmed_start(s@),
        decreases n - k,
    {
        assert(s@.subrange(k as int, n as int).drop_first() =~= s@.subrange(k + 1, n as int));
        k = k + 1;
    }
    proof {
        if k < n {
            assert(s@.subrange(k as int, n as int)[0] == s@[k as int]);
        }
    }
    s.substring_char(k, n)
}

/// `s` without its trailing whitespace.
fn trim_end_text(s: &str) -> (r: &str)
    ensures
        r@ == trimmed_end(s@),
{
    let n = s.unicode_len();
    let mut k: usize = n;
    assert(s@.subrange(0, n as int) =~= s@);
    while k > 0 && white_space_char(s.get_char(k - 1))
        invariant
            n == s@.len(),
            k <= n,
            trimmed_end(s@.subrange(0, k as int)) == trimmed_end(s@),
        decreases k,
    {
        assert(s@.subrange(0, k as int).drop_last() =~= s@.subrange(0, k - 1));
        k = k - 1;
    }
    proof {
        if k > 0 {
            assert(s@.subrange(0, k as int).last() == s@[k - 1]);
        }
    }
    s.substring_char(0, k)
}

/// `s` without leading and trailing whitespace, as `str::trim` gives it.
pub fn trim(s: &str) -> (r: &str)
    ensures
        r@ == trimmed_text(s@),
{
    trim_end_text(trim_start_text(s))
}

/// Whether `a` holds the text `b`.
fn text_is(a: &str, b: &str) -> (r: bool)
    ensures
        r == (a@ == b@),
{
    String::from_str(a) == String::from_str(b)
}

/// A flag is on when the command line sets it or the configuration turns it on.
pub open spec fn flag_value(cli: bool, config: Option<bool>) -> bool {
    cli || config == Some(true)
}

/// Whether directories are walked recursively: the command-line flag, or else
/// the global configuration's `recursive` setting (off when absent).
pub fn resolve_recursive(cli: bool, global: &Option<GlobalConfig>) -> (r: bool)
    ensures
        r == flag_value(cli, match global { Some(g) => g.recursive, None => None }),
{
    cli || match global {
        Some(g) => match g.recursive {
            Some(v) => v,
            None => false,
        },
        None => false,
    }
}

/// Whether existing outputs are overwritten: the command-line flag, or else the
/// global configuration's `overwrite` setting (off when absent).
pub fn resolve_overwrite(cli: bool, global: &Option<GlobalConfig>) -> (r: bool)
    ensures
        r == flag_value(cli, match global { Some(g) => g.overwrite, None => None }),
{
    cli || match global {
        Some(g) => match g.overwrite {
            Some(v) => v,
            None => false,
        },
        None => false,
    }
}

/// The output format of conversion: the command-line value, else the
/// configured format, else `wav`.
pub fn resolve_output_format(cli: Option<String>, convert: &Option<ConvertConfig>) -> (r: String)
    ensures
        r@ == match cli {
            Some(f) => f@,
            None => match convert {
                Some(c) => match c.format {
                    Some(f) => f@,
                    None => "wav"@,
                },
                None => "wav"@,
            },
        },
{
    match cli {
        Some(f) => f,
        None => match convert {
            Some(c) => match &c.format {
                Some(f) => f.clone(),
                None => String::from_str("wav"),
            },
            None => String::from_str("wav"),
        },
    }
}

/// The output bit depth of conversion: a command-line depth other than the
/// default 16 wins; otherwise the configured subtype `PCM_24` selects 24 and
/// anything else (including `PCM_16` and no subtype) selects 16.
pub fn resolve_bit_depth(cli_bit_depth: u8, convert: &Option<ConvertConfig>) -> (r: u8)
    ensures
        cli_bit_depth != 16 ==> r == cli_bit_depth,
        cli_bit_depth == 16 ==> r == (if (convert matches Some(c) && (c.subtype matches Some(s) && s@ == "PCM_24"@)) {
            24u8
        } else {
            16u8
        }),
{
    if cli_bit_depth != 16 {
        return cli_bit_depth;
    }
    match convert {
        Some(c) => match &c.subtype {
            Some(s) => {
                if text_is(s.as_str(), "PCM_24") {
                    24
                } else {
                    16
                }
            },
            None => 16,
        },
        None => 16,
    }
}

/// The image size of waveforms: the configured width and height, 1200 by 600 by default.
pub fn waveform_dimensions(config: &Option<WaveformConfig>) -> (r: (u32, u32))
    ensures
        r.0 == (match config { Some(c) => match c.width { Some(w) => w, None => 1200u32 }, None => 1200u32 }),
        r.1 == (match config { Some(c) => match c.height { Some(h) => h, None => 600u32 }, None => 600u32 }),
{
    match config {
        Some(c) => (
            match c.width {
                Some(w) => w,
                None => 1200,
            },
            match c.height {
                Some(h) => h,
                None => 600,
            },
        ),
        None => (1200, 600),
    }
}

/// Why an output format cannot be written.
#[derive(Debug, Clone, PartialEq, Eq)]
pub enum ConvertError {
    /// The format (lowercased) is not one that can be written.
    UnsupportedFormat { format: String },
    /// WAV output supports 16 and 24 bits per sample only.
    UnsupportedBitDepth { bit_depth: u8 },
}

/// Whether converted files can be written in an output format and bit depth:
/// the lowercase format must be `wav` and the depth 16 or 24 bits.
pub open spec fn output_supported_spec(lower_format: Seq<char>, bit_depth: u8) -> bool {
    lower_format == "wav"@ && (bit_depth == 16 || bit_depth == 24)
}

/// Why an output format given in lowercase and a bit depth cannot be written,
/// or `None` when they can: a format other than `wav` is refused first, then a
/// depth other than 16 or 24 bits.
pub fn wav_output_refusal(lower_format: &str, bit_depth: u8) -> (r: Option<ConvertError>)
    ensures
        r is None <==> output_supported_spec(lower_format@, bit_depth),
        lower_format@ == "wav"@ && !(bit_depth == 16 || bit_depth == 24) ==> r == Some(ConvertError::UnsupportedBitDepth { bit_depth }),
        lower_format@ != "wav"@ ==> (r matches Some(ConvertError::UnsupportedFormat { format }) && format@ == lower_format@),
{
    if text_is(lower_format, "wav") {
        if bit_depth == 16 || bit_depth == 24 {
            None
        } else {
            Some(ConvertError::UnsupportedBitDepth { bit_depth })
        }
    } else {
        Some(ConvertError::UnsupportedFormat { format: lower_format.to_owned() })
    }
}

/// Why an output format (in any letter case) and a bit depth cannot be
/// written, or `None` when they can; the format is read in lowercase, then as
/// [`wav_output_refusal`] decides.
pub fn output_refusal(output_format: &str, bit_depth: u8) -> (r: Option<ConvertError>)
    ensures
        r is None <==> output_supported_spec(lowercase_text(output_format@), bit_depth),
        lowercase_text(output_format@) == "wav"@ && !(bit_depth == 16 || bit_depth == 24) ==> r == Some(ConvertError::UnsupportedBitDepth { bit_depth }),
        lowercase_text(output_format@) != "wav"@ ==> (r matches Some(ConvertError::UnsupportedFormat { format }) && format@ == lowercase_text(output_format@)),
{
    let lower = to_lowercase(output_format);
    wav_output_refusal(lower.as_str(), bit_depth)
}

/// Whether converted files can be written in an output format (in any letter
/// case) and bit depth.
pub fn output_supported(output_format: &str, bit_depth: u8) -> (r: bool)
    ensures
        r == output_supported_spec(lowercase_text(output_format@), bit_depth),
{
    output_refusal(output_format, bit_depth).is_none()
}

/// The extension of converted files for a supported output format and bit
/// depth: `wav`. Conversion refuses any other format or depth before it
/// starts, so they are left out.
pub fn output_extension(output_format: &str, bit_depth: u8) -> (r: String)
    requires
        output_supported_spec(lowercase_text(output_format@), bit_depth),
    ensures
        r@ == "wav"@,
{
    String::from_str("wav")
}

/// The extension of converted files, or why the output format and bit depth
/// are refused: the refusal is tested first, and the extension asked for only
/// where there is none.
pub fn checked_output_extension(output_format: &str, bit_depth: u8) -> (r: Result<String, ConvertError>)
    ensures
        r is Ok <==> output_supported_spec(lowercase_text(output_format@), bit_depth),
        r matches Ok(e) ==> e@ == "wav"@,
        lowercase_text(output_format@) == "wav"@ && !(bit_depth == 16 || bit_depth == 24) ==> r == Err::<String, ConvertError>(ConvertError::UnsupportedBitDepth { bit_depth }),
        lowercase_text(output_format@) != "wav"@ ==> (r matches Err(ConvertError::UnsupportedFormat { format }) && format@ == lowercase_text(output_format@)),
{
    match output_refusal(output_format, bit_depth) {
        None => Ok(output_extension(output_format, bit_depth)),
        Some(e) => Err(e),
    }
}

/// The file name of a converted file: prefix, stem, postfix, a dot and the extension.
pub fn output_file_name(prefix: Option<&str>, stem: &str, postfix: Option<&str>, ext: &str) -> (r: String)
    ensures
        r@ == (match prefix { Some(p) => p@, None => Seq::<char>::empty() }) + stem@
            + (match postfix { Some(p) => p@, None => Seq::<char>::empty() }) + "."@ + ext@,
{
    let mut name = String::new();
    match prefix {
        Some(p) => name.append(p),
        None => {},
    }
    name.append(stem);
    match postfix {
        Some(p) => name.append(p),
        None => {},
    }
    name.append(".");
    name.append(ext);
    name
}

/// The extensions (in lowercase) that the info and loudness tools treat as audio.
pub open spec fn is_audio_extension(e: Seq<char>) -> bool {
    e == "wav"@ || e == "flac"@ || e == "mp3"@ || e == "aac"@ || e == "m4a"@ || e == "ogg"@ || e == "wma"@
        || e == "aiff"@ || e == "alac"@ || e == "opus"@
}

/// The extensions (in lowercase) that the feature and segment tools accept by default.
pub open spec fn is_default_audio_extension(e: Seq<char>) -> bool {
    e == "wav"@ || e == "mp3"@ || e == "flac"@ || e == "ogg"@ || e == "aiff"@ || e == "m4a"@
}

/// Whether a lowercase file extension names an audio format.
pub fn is_audio_extension_text(e: &str) -> (r: bool)
    ensures
        r == is_audio_extension(e@),
{
    text_is(e, "wav") || text_is(e, "flac") || text_is(e, "mp3") || text_is(e, "aac") || text_is(e, "m4a")
        || text_is(e, "ogg") || text_is(e, "wma") || text_is(e, "aiff") || text_is(e, "alac") || text_is(e, "opus")
}

/// Whether a file extension, in any letter case, names an audio format.
pub fn is_audio_file(ext: &str) -> (r: bool)
    ensures
        r == is_audio_extension(lowercase_text(ext@)),
{
    let e = to_lowercase(ext);
    is_audio_extension_text(e.as_str())
}

/// With no extension list, exactly six extensions are processed: wav, mp3,
/// flac, ogg, aiff and m4a. They are the audio extensions other than aac,
/// wma, alac and opus.
pub proof fn law_default_extensions(e: Seq<char>)
    ensures
        is_default_audio_extension(e) <==> (e == "wav"@ || e == "mp3"@ || e == "flac"@ || e == "ogg"@
            || e == "aiff"@ || e == "m4a"@),
        is_default_audio_extension(e) <==> (is_audio_extension(e) && e != "aac"@ && e != "wma"@
            && e != "alac"@ && e != "opus"@),
{
    reveal_strlit("wav");
    reveal_strlit("mp3");
    reveal_strlit("flac");
    reveal_strlit("ogg");
    reveal_strlit("aiff");
    reveal_strlit("m4a");
    reveal_strlit("aac");
    reveal_strlit("wma");
    reveal_strlit("alac");
    reveal_strlit("opus");
    if is_default_audio_extension(e) {
        assert(e[0] != 'a' || e[1] != 'a');
        assert(e.len() != 4 || e[0] != 'o');
        assert(e.len() != 4 || e[0] != 'a' || e[1] != 'l');
        assert(e[0] != 'w' || e[1] != 'm');
    }
}

/// Whether a lowercase extension is processed: it must be in `extensions` when
/// a list is given, and among the default audio extensions otherwise.
pub fn is_supported_extension_text(lower: &str, extensions: &Option<Vec<String>>) -> (r: bool)
    ensures
        r == match extensions {
            Some(list) => exists|i: int| 0 <= i < list@.len() && #[trigger] list@[i]@ == lower@,
            None => is_default_audio_extension(lower@),
        },
{
    match extensions {
        Some(list) => contains_text(list, lower),
        None => text_is(lower, "wav") || text_is(lower, "mp3") || text_is(lower, "flac") || text_is(lower, "ogg")
            || text_is(lower, "aiff") || text_is(lower, "m4a"),
    }
}

/// Whether a file with extension `ext` (`None` when it has none) is processed:
/// its lowercase extension must be in `extensions` when a list is given, and
/// among the default audio extensions otherwise.
pub fn is_supported_audio(ext: Option<&str>, extensions: &Option<Vec<String>>) -> (r: bool)
    ensures
        r == match ext {
            None => false,
            Some(e) => match extensions {
                Some(list) => exists|i: int| 0 <= i < list@.len() && #[trigger] list@[i]@ == lowercase_text(e@),
                None => is_default_audio_extension(lowercase_text(e@)),
            },
        },
{
    match ext {
        None => false,
        Some(x) => {
            let lower = to_lowercase(x);
            is_supported_extension_text(lower.as_str(), extensions)
        },
    }
}

/// Whether a file with extension `ext` is among the input formats of a
/// conversion, both compared in lowercase.
pub fn is_input_format(ext: &str, input_format: &Vec<String>) -> (r: bool)
    ensures
        r == exists|i: int| 0 <= i < input_format@.len() && lowercase_text(#[trigger] input_format@[i]@) == lowercase_text(ext@),
{
    let lower_ext = to_lowercase(ext);
    let n = input_format.len();
    let mut lowered: Vec<String> = Vec::with_capacity(n);
    let mut i: usize = 0;
    while i < n
        invariant
            n == input_format@.len(),
            i <= n,
            lowered@.len() == i,
            forall|j: int| 0 <= j < i ==> (#[trigger] lowered@[j])@ == lowercase_text(input_format@[j]@),
        decreases n - i,
    {
        lowered.push(to_lowercase(input_format[i].as_str()));
        i = i + 1;
    }
    let r = contains_text(&lowered, lower_ext.as_str());
    proof {
        if r {
            let j = choose|j: int| 0 <= j < lowered@.len() && #[trigger] lowered@[j]@ == lower_ext@;
            assert(lowercase_text(input_format@[j]@) == lowercase_text(ext@));
        } else {
            assert forall|j: int| 0 <= j < input_format@.len() implies lowercase_text(#[trigger] input_format@[j]@) != lowercase_text(ext@) by {
                assert(lowered@[j]@ == lowercase_text(input_format@[j]@));
            }
        }
    }
    r
}

/// Whether some string of `list` holds the text of `s`.
pub fn contains_text(list: &Vec<String>, s: &str) -> (r: bool)
    ensures
        r == exists|i: int| 0 <= i < list@.len() && #[trigger] list@[i]@ == s@,
{
    let n = list.len();
    let mut i: usize = 0;
    while i < n
        invariant
            n == list@.len(),
            i <= n,
            forall|j: int| 0 <= j < i ==> #[trigger] list@[j]@ != s@,
        decreases n - i,
    {
        if text_is(list[i].as_str(), s) {
            return true;
        }
        i = i + 1;
    }
    false
}

/// `s` without its leading occurrences of `c`.
pub open spec fn strip_leading(s: Seq<char>, c: char) -> Seq<char>
    decreases s.len(),
{
    if s.len() > 0 && s[0] == c {
        strip_leading(s.drop_first(), c)
    } else {
        s
    }
}

/// An extension as written in a comma-separated list, normalized: trimmed of
/// whitespace, stripped of leading dots, and lowercased.
pub open spec fn normalized_extension(piece: Seq<char>) -> Seq<char> {
    lowercase_text(strip_leading(trimmed_text(piece), '.'))
}

/// `s` without its leading dots.
fn strip_leading_dots(s: &str) -> (r: &str)
    ensures
        r@ == strip_leading(s@, '.'),
{
    let n = s.unicode_len();
    let mut k: usize = 0;
    assert(s@.subrange(0, n as int) =~= s@);
    while k < n && s.get_char(k) == '.'
        invariant
            n == s@.len(),
            k <= n,
            forall|j: int| 0 <= j < k ==> s@[j] == '.',
            strip_leading(s@.subrange(k as int, n as int), '.') == strip_leading(s@, '.'),
        decreases n - k,
    {
        assert(s@.subrange(k as int, n as int).drop_first() =~= s@.subrange(k + 1, n as int));
        k = k + 1;
    }
    proof {
        if k < n {
            assert(s@.subrange(k as int, n as int)[0] == s@[k as int]);
        }
        assert(s@.subrange(0, n as int) =~= s@);
    }
    s.substring_char(k, n)
}

/// The extensions listed in `s`, separated by commas, each trimmed of
/// whitespace, stripped of leading dots and lowercased.
pub fn parse_extension_list(s: &str) -> (r: Vec<String>)
    ensures
        r@.len() == split_on(s@, ',').len(),
        forall|i: int| 0 <= i < r@.len() ==> (#[trigger] r@[i])@ == normalized_extension(split_on(s@, ',')[i]),
{
    let pieces = split_text(s, ',');
    let ghost views = Seq::new(pieces@.len(), |k: int| pieces@[k]@);
    assert(views =~= split_on(s@, ','));
    let mut out: Vec<String> = Vec::new();
    let m = pieces.len();
    let mut j: usize = 0;
    while j < m
        invariant
            m == pieces@.len(),
            j <= m,
            views == split_on(s@, ','),
            views == Seq::new(pieces@.len(), |k: int| pieces@[k]@),
            out@.len() == j,
            forall|k: int| 0 <= k < j ==> (#[trigger] out@[k])@ == normalized_extension(views[k]),
        decreases m - j,
    {
        let trimmed = trim(pieces[j]);
        let stripped = strip_leading_dots(trimmed);
        let lower = to_lowercase(stripped);
        assert(views[j as int] == pieces@[j as int]@);
        out.push(lower);
        j = j + 1;
    }
    out
}

} // verus!
