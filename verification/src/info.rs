//! The one-line report of an audio file's properties, written by filling a
//! template whose `{name}` placeholders stand for the properties.

use crate::text::{decimal_digits, decimal_text, replace_text, replaced};
use vstd::prelude::*;

verus! {

/// The properties of an audio file that a report line can show. Values with a
/// fraction are held as the text they are shown as.
#[derive(Debug, Clone)]
pub struct AudioFileInfo {
    pub file: String,
    pub format: String,
    pub file_size: String,
    pub file_size_kb: String,
    pub sample_rate: Option<u32>,
    pub bits_per_sample: Option<u32>,
    pub channels: Option<u16>,
    pub duration: Option<String>,
    pub total_samples: Option<u64>,
    pub time_precision: Option<String>,
    pub sample_accurate_duration: Option<String>,
}

/// The text shown for an optional number: its decimal digits, or `N/A`.
pub open spec fn shown_number(v: Option<u64>) -> Seq<char> {
    match v {
        Some(x) => decimal_digits(x as nat),
        None => "N/A"@,
    }
}

/// The text shown for an optional text: the text, or `N/A`.
pub open spec fn shown_text(v: Option<String>) -> Seq<char> {
    match v {
        Some(t) => t@,
        None => "N/A"@,
    }
}

/// The placeholders of a report template, in the order they are filled, each
/// with the text that replaces it.
pub open spec fn info_substitutions(info: AudioFileInfo) -> Seq<(Seq<char>, Seq<char>)> {
    seq![
        ("{file}"@, info.file@),
        ("{format}"@, info.format@),
        ("{file_size}"@, info.file_size@),
        ("{file_size_kb}"@, info.file_size_kb@),
        ("{sample_rate}"@, shown_number(match info.sample_rate { Some(v) => Some(v as u64), None => None })),
        ("{bits_per_sample}"@, shown_number(match info.bits_per_sample { Some(v) => Some(v as u64), None => None })),
        ("{channels}"@, shown_number(match info.channels { Some(v) => Some(v as u64), None => None })),
        ("{duration}"@, shown_text(info.duration)),
        ("{total_samples}"@, shown_number(info.total_samples)),
        ("{time_precision}"@, shown_text(info.time_precision)),
        ("{sample_accurate_duration}"@, shown_text(info.sample_accurate_duration)),
    ]
}

/// `s` with each pattern of `subs`, in order, replaced by its text.
pub open spec fn filled(s: Seq<char>, subs: Seq<(Seq<char>, Seq<char>)>) -> Seq<char>
    decreases subs.len(),
{
    if subs.len() == 0 {
        s
    } else {
        filled(replaced(s, subs[0].0, subs[0].1), subs.drop_first())
    }
}

/// The shown text of an optional number.
fn show_number(v: Option<u64>) -> (r: String)
    ensures
        r@ == shown_number(v),
{
    match v {
        Some(x) => decimal_text(x),
        None => String::from_str("N/A"),
    }
}

/// The shown text of an optional text.
fn show_text(v: &Option<String>) -> (r: String)
    ensures
        r@ == shown_text(*v),
{
    match v {
        Some(t) => t.clone(),
        None => String::from_str("N/A"),
    }
}

proof fn lemma_filled_step(s: Seq<char>, subs: Seq<(Seq<char>, Seq<char>)>, k: int)
    requires
        0 <= k < subs.len(),
    ensures
        filled(s, subs.subrange(k, subs.len() as int)) == filled(
            replaced(s, subs[k].0, subs[k].1),
            subs.subrange(k + 1, subs.len() as int),
        ),
{
    let rest = subs.subrange(k, subs.len() as int);
    assert(rest[0] == subs[k]);
    assert(rest.drop_first() =~= subs.subrange(k + 1, subs.len() as int));
}

impl AudioFileInfo {
    /// The template with each placeholder replaced by the property it names:
    /// `{file}`, `{format}`, `{file_size}`, `{file_size_kb}`, `{sample_rate}`,
    /// `{bits_per_sample}`, `{channels}`, `{duration}`, `{total_samples}`,
    /// `{time_precision}` and `{sample_accurate_duration}`, filled in this
    /// order; an absent property is shown as `N/A`.
    pub fn format_output(&self, format_string: &str) -> (r: String)
        ensures
            r@ == filled(format_string@, info_substitutions(*self)),
    {
        let subs: Vec<(&str, String)> = vec![
            ("{file}", self.file.clone()),
            ("{format}", self.format.clone()),
            ("{file_size}", self.file_size.clone()),
            ("{file_size_kb}", self.file_size_kb.clone()),
            ("{sample_rate}", show_number(match self.sample_rate { Some(v) => Some(v as u64), None => None })),
            ("{bits_per_sample}", show_number(match self.bits_per_sample { Some(v) => Some(v as u64), None => None })),
            ("{channels}", show_number(match self.channels { Some(v) => Some(v as u64), None => None })),
            ("{duration}", show_text(&self.duration)),
            ("{total_samples}", show_number(self.total_samples)),
            ("{time_precision}", show_text(&self.time_precision)),
            ("{sample_accurate_duration}", show_text(&self.sample_accurate_duration)),
        ];
        let ghost target = info_substitutions(*self);
        assert(subs@.len() == target.len());
        assert forall|k: int| 0 <= k < subs@.len() implies (#[trigger] subs@[k]).0@ == target[k].0 && subs@[k].1@
            == target[k].1 by {}
        let mut out = String::from_str(format_string);
        let n = subs.len();
        let mut k: usize = 0;
        assert(target.subrange(0, target.len() as int) =~= target);
        while k < n
            invariant
                n == subs@.len(),
                n == target.len(),
                k <= n,
                forall|j: int| 0 <= j < subs@.len() ==> (#[trigger] subs@[j]).0@ == target[j].0 && subs@[j].1@
                    == target[j].1,
                filled(out@, target.subrange(k as int, n as int)) == filled(format_string@, target),
            decreases n - k,
        {
            proof {
                lemma_filled_step(out@, target, k as int);
            }
            let (pat, rep) = &subs[k];
            out = replace_text(out.as_str(), pat, rep.as_str());
            k = k + 1;
        }
        assert(target.subrange(n as int, n as int) =~= Seq::<(Seq<char>, Seq<char>)>::empty());
        out
    }
}

} // verus!
