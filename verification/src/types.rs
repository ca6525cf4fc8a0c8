//! The records behind each method's parameters and results, and the
//! validators that read them out of a parsed request. A record is accepted
//! exactly when every required field is present with the right type —
//! mirrored field for field by the `spec_…` functions — so a request with a
//! bad payload is rejected before any task exists for it.
use vstd::prelude::*;

use crate::json::{
    jview_seq, lemma_jview_seq_index, lemma_jview_seq_len, obj_get, spec_obj_lookup, JsonV,
    JsonValue,
};

verus! {

/// One timed word of a caption.
#[derive(Debug, Clone)]
pub struct WordSpan {
    pub start_ms: u64,
    pub end_ms: u64,
    pub text: String,
}

pub struct WordSpanV {
    pub start_ms: u64,
    pub end_ms: u64,
    pub text: Seq<char>,
}

impl View for WordSpan {
    type V = WordSpanV;

    open spec fn view(&self) -> WordSpanV {
        WordSpanV { start_ms: self.start_ms, end_ms: self.end_ms, text: self.text@ }
    }
}

pub open spec fn words_view(v: Seq<WordSpan>) -> Seq<WordSpanV> {
    Seq::new(v.len(), |i: int| v[i]@)
}

/// One caption cue, with optional word-level timing.
#[derive(Debug, Clone)]
pub struct CaptionSegment {
    pub start_ms: u64,
    pub end_ms: u64,
    pub text: String,
    pub words: Vec<WordSpan>,
}

pub struct CaptionSegmentV {
    pub start_ms: u64,
    pub end_ms: u64,
    pub text: Seq<char>,
    pub words: Seq<WordSpanV>,
}

impl View for CaptionSegment {
    type V = CaptionSegmentV;

    open spec fn view(&self) -> CaptionSegmentV {
        CaptionSegmentV {
            start_ms: self.start_ms,
            end_ms: self.end_ms,
            text: self.text@,
            words: words_view(self.words@),
        }
    }
}

pub open spec fn segs_view(v: Seq<CaptionSegment>) -> Seq<CaptionSegmentV> {
    Seq::new(v.len(), |i: int| v[i]@)
}

pub open spec fn strs_view(v: Seq<String>) -> Seq<Seq<char>> {
    Seq::new(v.len(), |i: int| v[i]@)
}

pub open spec fn opt_str_view(o: Option<String>) -> Option<Seq<char>> {
    match o {
        Some(s) => Some(s@),
        None => None,
    }
}

/// Parameters of the transcription call itself.
#[derive(Debug)]
pub struct TranscribeSegmentsParams {
    pub audio: String,
    pub model: Option<String>,
    pub language: Option<String>,
    pub split_by_words: bool,
    pub api_key: Option<String>,
    pub prompt: Option<String>,
    pub video_file: Option<String>,
}

/// Result of burning captions into a video.
#[derive(Debug)]
pub struct BurnResult {
    pub video: String,
}

#[derive(Debug)]
pub struct ExtractAudioParams {
    pub input: String,
    pub codec: Option<String>,
    pub out: Option<String>,
}

#[derive(Debug)]
pub struct ExtractAudioResult {
    pub audio: String,
}

/// Parameters of the full caption-generation pipeline.
#[derive(Debug)]
pub struct GenerateCaptionsParams {
    pub input_video: String,
    pub export_formats: Vec<String>,
    pub karaoke: bool,
    pub multiline: bool,
    pub font_name: Option<String>,
    pub font_size: Option<u32>,
    pub split_by_words: bool,
    pub model: Option<String>,
    pub language: Option<String>,
    pub prompt: Option<String>,
    pub text_color: Option<String>,
    pub highlight_word_color: Option<String>,
    pub outline_color: Option<String>,
    pub glow_effect: bool,
    pub position: Option<String>,
    pub api_key: Option<String>,
    pub output_size: Option<String>,
    pub crop_strategy: Option<String>,
}

/// Parameters of burning already-edited segments.
#[derive(Debug)]
pub struct BurnCaptionsParams {
    pub input_video: String,
    pub segments: Vec<CaptionSegment>,
    pub export_formats: Vec<String>,
    pub karaoke: bool,
    pub multiline: bool,
    pub font_name: Option<String>,
    pub font_size: Option<u32>,
    pub text_color: Option<String>,
    pub highlight_word_color: Option<String>,
    pub outline_color: Option<String>,
    pub glow_effect: bool,
    pub position: Option<String>,
    pub output_size: Option<String>,
    pub crop_strategy: Option<String>,
}

#[derive(Debug)]
pub struct CaptionedVideoResult {
    pub format: String,
    pub raw_video: String,
    pub captioned_video: String,
    pub width: u32,
    pub height: u32,
}

#[derive(Debug)]
pub struct DownloadModelParams {
    pub model: String,
}

#[derive(Debug)]
pub struct DownloadModelResult {
    pub model: String,
    pub path: String,
    pub size: u64,
}

#[derive(Debug)]
pub struct ExtractFirstFrameParams {
    pub video_path: String,
}

#[derive(Debug)]
pub struct ExtractFirstFrameResult {
    pub image_data: String,
}

/// Parameters of the caption-layout preview.
#[derive(Debug)]
pub struct PreviewLayoutParams {
    pub segments: Vec<CaptionSegment>,
    pub width: u32,
    pub height: u32,
    pub font_name: Option<String>,
    pub font_size: Option<u32>,
    pub text_color: Option<String>,
    pub highlight_word_color: Option<String>,
    pub outline_color: Option<String>,
    pub position: Option<String>,
    pub karaoke: bool,
    pub multiline: bool,
    pub glow_effect: bool,
}

#[derive(Debug)]
pub struct PreviewLine {
    pub words: Vec<PreviewWord>,
}

#[derive(Debug)]
pub struct PreviewWord {
    pub text: String,
    pub is_highlighted: bool,
}

#[derive(Debug)]
pub struct SaveCaptionsParams {
    pub video_path: String,
    pub segments: Vec<CaptionSegment>,
}

#[derive(Debug)]
pub struct LoadCaptionsParams {
    pub video_path: String,
}

#[derive(Debug)]
pub struct LoadCaptionsResult {
    pub segments: Option<Vec<CaptionSegment>>,
}

#[derive(Debug)]
pub struct PreviewFrameParams {
    pub input_video: String,
    pub segments: Vec<CaptionSegment>,
    pub timestamp_ms: u64,
    pub export_format: String,
    pub fit_mode: Option<String>,
    pub karaoke: bool,
    pub multiline: bool,
    pub font_name: Option<String>,
    pub font_size: Option<u32>,
    pub text_color: Option<String>,
    pub highlight_word_color: Option<String>,
    pub outline_color: Option<String>,
    pub glow_effect: bool,
    pub position: Option<String>,
    pub output_size: Option<String>,
    pub crop_strategy: Option<String>,
}

#[derive(Debug)]
pub struct PreviewFrameResult {
    pub image_data: String,
}

/// A required string field.
pub open spec fn spec_req_str(fs: Seq<(Seq<char>, JsonV)>, key: Seq<char>) -> Option<Seq<char>> {
    match spec_obj_lookup(fs, key) {
        Some(JsonV::Str(s)) => Some(s),
        _ => None,
    }
}

/// An optional string field: absent or null reads as `None`.
pub open spec fn spec_opt_str(fs: Seq<(Seq<char>, JsonV)>, key: Seq<char>) -> Option<
    Option<Seq<char>>,
> {
    match spec_obj_lookup(fs, key) {
        None => Some(None),
        Some(JsonV::Null) => Some(None),
        Some(JsonV::Str(s)) => Some(Some(s)),
        _ => None,
    }
}

/// A required boolean field.
pub open spec fn spec_req_bool(fs: Seq<(Seq<char>, JsonV)>, key: Seq<char>) -> Option<bool> {
    match spec_obj_lookup(fs, key) {
        Some(JsonV::Bool(b)) => Some(b),
        _ => None,
    }
}

/// A boolean field that defaults to false when absent.
pub open spec fn spec_default_bool(fs: Seq<(Seq<char>, JsonV)>, key: Seq<char>) -> Option<bool> {
    match spec_obj_lookup(fs, key) {
        None => Some(false),
        Some(JsonV::Bool(b)) => Some(b),
        _ => None,
    }
}

/// A required unsigned-integer field.
pub open spec fn spec_req_u64(fs: Seq<(Seq<char>, JsonV)>, key: Seq<char>) -> Option<u64> {
    match spec_obj_lookup(fs, key) {
        Some(v) => crate::json::spec_as_u64(v),
        None => None,
    }
}

/// A required unsigned-integer field that must fit a `u32`.
pub open spec fn spec_req_u32(fs: Seq<(Seq<char>, JsonV)>, key: Seq<char>) -> Option<u32> {
    match spec_req_u64(fs, key) {
        Some(n) => if n <= u32::MAX {
            Some(n as u32)
        } else {
            None
        },
        None => None,
    }
}

/// An optional `u32` field: absent or null reads as `None`.
pub open spec fn spec_opt_u32(fs: Seq<(Seq<char>, JsonV)>, key: Seq<char>) -> Option<Option<u32>> {
    match spec_obj_lookup(fs, key) {
        None => Some(None),
        Some(JsonV::Null) => Some(None),
        Some(v) => match crate::json::spec_as_u64(v) {
            Some(n) => if n <= u32::MAX {
                Some(Some(n as u32))
            } else {
                None
            },
            None => None,
        },
    }
}

/// An array of strings, all of them.
pub open spec fn spec_str_seq(a: Seq<JsonV>) -> Option<Seq<Seq<char>>>
    decreases a.len(),
{
    if a.len() == 0 {
        Some(Seq::empty())
    } else {
        match (spec_str_seq(a.drop_last()), a.last()) {
            (Some(ss), JsonV::Str(s)) => Some(ss.push(s)),
            _ => None,
        }
    }
}

/// A required array-of-strings field.
pub open spec fn spec_req_str_arr(fs: Seq<(Seq<char>, JsonV)>, key: Seq<char>) -> Option<
    Seq<Seq<char>>,
> {
    match spec_obj_lookup(fs, key) {
        Some(JsonV::Arr(a)) => spec_str_seq(a),
        _ => None,
    }
}

pub(crate) fn get_req_str(o: &Vec<(String, JsonValue)>, key: &str) -> (r: Option<String>)
    ensures
        match r {
            Some(s) => spec_req_str(crate::json::jview_fields(o@), key@) == Some(s@),
            None => spec_req_str(crate::json::jview_fields(o@), key@) is None,
        },
{
    match obj_get(o, key) {
        Some(f) => match f.as_str() {
            Some(s) => Some(s.clone()),
            None => None,
        },
        None => None,
    }
}

pub(crate) fn get_opt_str(o: &Vec<(String, JsonValue)>, key: &str) -> (r: Option<Option<String>>)
    ensures
        match r {
            Some(s) => spec_opt_str(crate::json::jview_fields(o@), key@) == Some(opt_str_view(s)),
            None => spec_opt_str(crate::json::jview_fields(o@), key@) is None,
        },
{
    match obj_get(o, key) {
        Some(f) => match f {
            JsonValue::Null => Some(None),
            JsonValue::Str(s) => Some(Some(s.clone())),
            _ => None,
        },
        None => Some(None),
    }
}

pub(crate) fn get_req_bool(o: &Vec<(String, JsonValue)>, key: &str) -> (r: Option<bool>)
    ensures
        r == spec_req_bool(crate::json::jview_fields(o@), key@),
{
    match obj_get(o, key) {
        Some(f) => f.as_bool(),
        None => None,
    }
}

pub(crate) fn get_default_bool(o: &Vec<(String, JsonValue)>, key: &str) -> (r: Option<bool>)
    ensures
        r == spec_default_bool(crate::json::jview_fields(o@), key@),
{
    match obj_get(o, key) {
        Some(f) => f.as_bool(),
        None => Some(false),
    }
}

pub(crate) fn get_req_u64(o: &Vec<(String, JsonValue)>, key: &str) -> (r: Option<u64>)
    ensures
        r == spec_req_u64(crate::json::jview_fields(o@), key@),
{
    match obj_get(o, key) {
        Some(f) => f.as_u64(),
        None => None,
    }
}

pub(crate) fn get_req_u32(o: &Vec<(String, JsonValue)>, key: &str) -> (r: Option<u32>)
    ensures
        r == spec_req_u32(crate::json::jview_fields(o@), key@),
{
    match get_req_u64(o, key) {
        Some(n) => if n <= u32::MAX as u64 {
            Some(n as u32)
        } else {
            None
        },
        None => None,
    }
}

pub(crate) fn get_opt_u32(o: &Vec<(String, JsonValue)>, key: &str) -> (r: Option<Option<u32>>)
    ensures
        r == spec_opt_u32(crate::json::jview_fields(o@), key@),
{
    match obj_get(o, key) {
        Some(f) => match f {
            JsonValue::Null => Some(None),
            _ => match f.as_u64() {
                Some(n) => if n <= u32::MAX as u64 {
                    Some(Some(n as u32))
                } else {
                    None
                },
                None => None,
            },
        },
        None => Some(None),
    }
}

proof fn lemma_str_seq_step(a: Seq<JsonV>, j: int)
    requires
        0 <= j < a.len(),
    ensures
        spec_str_seq(a.take(j + 1)) == match (spec_str_seq(a.take(j)), a[j]) {
            (Some(ss), JsonV::Str(s)) => Some(ss.push(s)),
            _ => None::<Seq<Seq<char>>>,
        },
{
    assert(a.take(j + 1).drop_last() =~= a.take(j));
    assert(a.take(j + 1).last() == a[j]);
}

proof fn lemma_str_seq_prefix_none(a: Seq<JsonV>, k: int)
    requires
        0 <= k <= a.len(),
        spec_str_seq(a.take(k)) is None,
    ensures
        spec_str_seq(a) is None,
    decreases a.len() - k,
{
    if k == a.len() {
        assert(a.take(k) =~= a);
    } else {
        lemma_str_seq_step(a, k);
        lemma_str_seq_prefix_none(a, k + 1);
    }
}

pub(crate) fn get_str_arr(o: &Vec<(String, JsonValue)>, key: &str) -> (r: Option<Vec<String>>)
    ensures
        match r {
            Some(ss) => spec_req_str_arr(crate::json::jview_fields(o@), key@) == Some(
                strs_view(ss@),
            ),
            None => spec_req_str_arr(crate::json::jview_fields(o@), key@) is None,
        },
{
    broadcast use crate::json::lemma_jview_seq_index, crate::json::lemma_jview_seq_len;

    let a = match obj_get(o, key) {
        Some(f) => match f.as_arr() {
            Some(a) => a,
            None => { return None; },
        },
        None => { return None; },
    };
    let ghost va = jview_seq(a@);
    let mut out: Vec<String> = Vec::new();
    let mut j: usize = 0;
    proof {
        assert(va.take(0) =~= Seq::<JsonV>::empty());
        assert(strs_view(out@) =~= Seq::<Seq<char>>::empty());
    }
    while j < a.len()
        invariant
            j <= a@.len(),
            va == jview_seq(a@),
            va.len() == a@.len(),
            spec_req_str_arr(crate::json::jview_fields(o@), key@) == spec_str_seq(va),
            spec_str_seq(va.take(j as int)) == Some(strs_view(out@)),
        decreases a@.len() - j,
    {
        let s = match a[j].as_str() {
            Some(s) => s.clone(),
            None => {
                proof {
                    lemma_jview_seq_index(a@, j as int);
                    lemma_str_seq_step(va, j as int);
                    lemma_str_seq_prefix_none(va, j + 1 as int);
                }
                return None;
            },
        };
        let ghost prev = out@;
        out.push(s);
        proof {
            lemma_jview_seq_index(a@, j as int);
            lemma_str_seq_step(va, j as int);
            assert(strs_view(out@) =~= strs_view(prev).push(out@.last()@));
        }
        j += 1;
    }
    proof {
        assert(va.take(va.len() as int) =~= va);
    }
    Some(out)
}

/// What a parsed document must hold to be a timed word.
pub open spec fn spec_word_of(v: JsonV) -> Option<WordSpanV> {
    match v {
        JsonV::Obj(fs) => match (
            spec_req_u64(fs, "startMs"@),
            spec_req_u64(fs, "endMs"@),
            spec_req_str(fs, "text"@),
        ) {
            (Some(s), Some(e), Some(t)) => Some(WordSpanV { start_ms: s, end_ms: e, text: t }),
            _ => None,
        },
        _ => None,
    }
}

pub open spec fn spec_words_seq(a: Seq<JsonV>) -> Option<Seq<WordSpanV>>
    decreases a.len(),
{
    if a.len() == 0 {
        Some(Seq::empty())
    } else {
        match (spec_words_seq(a.drop_last()), spec_word_of(a.last())) {
            (Some(ws), Some(w)) => Some(ws.push(w)),
            _ => None,
        }
    }
}

/// What a parsed document must hold to be a caption segment; `words`
/// defaults to the empty list when absent.
pub open spec fn spec_seg_of(v: JsonV) -> Option<CaptionSegmentV> {
    match v {
        JsonV::Obj(fs) => match (
            spec_req_u64(fs, "startMs"@),
            spec_req_u64(fs, "endMs"@),
            spec_req_str(fs, "text"@),
        ) {
            (Some(s), Some(e), Some(t)) => {
                match spec_obj_lookup(fs, "words"@) {
                    None => Some(
                        CaptionSegmentV { start_ms: s, end_ms: e, text: t, words: Seq::empty() },
                    ),
                    Some(JsonV::Arr(a)) => match spec_words_seq(a) {
                        Some(ws) => Some(
                            CaptionSegmentV { start_ms: s, end_ms: e, text: t, words: ws },
                        ),
                        None => None,
                    },
                    _ => None,
                }
            },
            _ => None,
        },
        _ => None,
    }
}

pub open spec fn spec_segs_seq(a: Seq<JsonV>) -> Option<Seq<CaptionSegmentV>>
    decreases a.len(),
{
    if a.len() == 0 {
        Some(Seq::empty())
    } else {
        match (spec_segs_seq(a.drop_last()), spec_seg_of(a.last())) {
            (Some(ss), Some(s)) => Some(ss.push(s)),
            _ => None,
        }
    }
}

/// A required array-of-segments field.
pub open spec fn spec_req_segs(fs: Seq<(Seq<char>, JsonV)>, key: Seq<char>) -> Option<
    Seq<CaptionSegmentV>,
> {
    match spec_obj_lookup(fs, key) {
        Some(JsonV::Arr(a)) => spec_segs_seq(a),
        _ => None,
    }
}

/// Reads a timed word, exactly `spec_word_of`.
pub fn word_from_json(v: &JsonValue) -> (r: Option<WordSpan>)
    ensures
        match r {
            Some(w) => spec_word_of(v@) == Some(w@),
            None => spec_word_of(v@) is None,
        },
{
    let fs = match v.as_obj() {
        Some(o) => o,
        None => { return None; },
    };
    let start_ms = match get_req_u64(fs, "startMs") {
        Some(n) => n,
        None => { return None; },
    };
    let end_ms = match get_req_u64(fs, "endMs") {
        Some(n) => n,
        None => { return None; },
    };
    let text = match get_req_str(fs, "text") {
        Some(t) => t,
        None => { return None; },
    };
    Some(WordSpan { start_ms, end_ms, text })
}

proof fn lemma_words_seq_step(a: Seq<JsonV>, j: int)
    requires
        0 <= j < a.len(),
    ensures
        spec_words_seq(a.take(j + 1)) == match (spec_words_seq(a.take(j)), spec_word_of(a[j])) {
            (Some(ws), Some(w)) => Some(ws.push(w)),
            _ => None::<Seq<WordSpanV>>,
        },
{
    assert(a.take(j + 1).drop_last() =~= a.take(j));
    assert(a.take(j + 1).last() == a[j]);
}

proof fn lemma_words_seq_prefix_none(a: Seq<JsonV>, k: int)
    requires
        0 <= k <= a.len(),
        spec_words_seq(a.take(k)) is None,
    ensures
        spec_words_seq(a) is None,
    decreases a.len() - k,
{
    if k == a.len() {
        assert(a.take(k) =~= a);
    } else {
        lemma_words_seq_step(a, k);
        lemma_words_seq_prefix_none(a, k + 1);
    }
}

fn words_from_json(a: &Vec<JsonValue>) -> (r: Option<Vec<WordSpan>>)
    ensures
        match r {
            Some(ws) => spec_words_seq(jview_seq(a@)) == Some(words_view(ws@)),
            None => spec_words_seq(jview_seq(a@)) is None,
        },
{
    broadcast use lemma_jview_seq_index, lemma_jview_seq_len;

    let ghost va = jview_seq(a@);
    let mut out: Vec<WordSpan> = Vec::new();
    let mut j: usize = 0;
    proof {
        assert(va.take(0) =~= Seq::<JsonV>::empty());
        assert(words_view(out@) =~= Seq::<WordSpanV>::empty());
    }
    while j < a.len()
        invariant
            j <= a@.len(),
            va == jview_seq(a@),
            va.len() == a@.len(),
            spec_words_seq(va.take(j as int)) == Some(words_view(out@)),
        decreases a@.len() - j,
    {
        let w = match word_from_json(&a[j]) {
            Some(w) => w,
            None => {
                proof {
                    lemma_jview_seq_index(a@, j as int);
                    lemma_words_seq_step(va, j as int);
                    lemma_words_seq_prefix_none(va, j + 1 as int);
                }
                return None;
            },
        };
        let ghost prev = out@;
        out.push(w);
        proof {
            lemma_jview_seq_index(a@, j as int);
            lemma_words_seq_step(va, j as int);
            assert(words_view(out@) =~= words_view(prev).push(out@.last()@));
        }
        j += 1;
    }
    proof {
        assert(va.take(va.len() as int) =~= va);
    }
    Some(out)
}

/// Reads a caption segment, exactly `spec_seg_of`.
pub fn segment_from_json(v: &JsonValue) -> (r: Option<CaptionSegment>)
    ensures
        match r {
            Some(s) => spec_seg_of(v@) == Some(s@),
            None => spec_seg_of(v@) is None,
        },
{
    let fs = match v.as_obj() {
        Some(o) => o,
        None => { return None; },
    };
    let start_ms = match get_req_u64(fs, "startMs") {
        Some(n) => n,
        None => { return None; },
    };
    let end_ms = match get_req_u64(fs, "endMs") {
        Some(n) => n,
        None => { return None; },
    };
    let text = match get_req_str(fs, "text") {
        Some(t) => t,
        None => { return None; },
    };
    let words = match obj_get(fs, "words") {
        None => Vec::new(),
        Some(f) => match f.as_arr() {
            Some(a) => match words_from_json(a) {
                Some(ws) => ws,
                None => { return None; },
            },
            None => { return None; },
        },
    };
    proof {
        assert(words_view(Seq::<WordSpan>::empty()) =~= Seq::<WordSpanV>::empty());
    }
    Some(CaptionSegment { start_ms, end_ms, text, words })
}

proof fn lemma_segs_seq_step(a: Seq<JsonV>, j: int)
    requires
        0 <= j < a.len(),
    ensures
        spec_segs_seq(a.take(j + 1)) == match (spec_segs_seq(a.take(j)), spec_seg_of(a[j])) {
            (Some(ss), Some(s)) => Some(ss.push(s)),
            _ => None::<Seq<CaptionSegmentV>>,
        },
{
    assert(a.take(j + 1).drop_last() =~= a.take(j));
    assert(a.take(j + 1).last() == a[j]);
}

proof fn lemma_segs_seq_prefix_none(a: Seq<JsonV>, k: int)
    requires
        0 <= k <= a.len(),
        spec_segs_seq(a.take(k)) is None,
    ensures
        spec_segs_seq(a) is None,
    decreases a.len() - k,
{
    if k == a.len() {
        assert(a.take(k) =~= a);
    } else {
        lemma_segs_seq_step(a, k);
        lemma_segs_seq_prefix_none(a, k + 1);
    }
}

fn get_segments(o: &Vec<(String, JsonValue)>, key: &str) -> (r: Option<Vec<CaptionSegment>>)
    ensures
        match r {
            Some(ss) => spec_req_segs(crate::json::jview_fields(o@), key@) == Some(segs_view(ss@)),
            None => spec_req_segs(crate::json::jview_fields(o@), key@) is None,
        },
{
    broadcast use lemma_jview_seq_index, lemma_jview_seq_len;

    let a = match obj_get(o, key) {
        Some(f) => match f.as_arr() {
            Some(a) => a,
            None => { return None; },
        },
        None => { return None; },
    };
    let ghost va = jview_seq(a@);
    let mut out: Vec<CaptionSegment> = Vec::new();
    let mut j: usize = 0;
    proof {
        assert(va.take(0) =~= Seq::<JsonV>::empty());
        assert(segs_view(out@) =~= Seq::<CaptionSegmentV>::empty());
    }
    while j < a.len()
        invariant
            j <= a@.len(),
            va == jview_seq(a@),
            va.len() == a@.len(),
            spec_req_segs(crate::json::jview_fields(o@), key@) == spec_segs_seq(va),
            spec_segs_seq(va.take(j as int)) == Some(segs_view(out@)),
        decreases a@.len() - j,
    {
        let s = match segment_from_json(&a[j]) {
            Some(s) => s,
            None => {
                proof {
                    lemma_jview_seq_index(a@, j as int);
                    lemma_segs_seq_step(va, j as int);
                    lemma_segs_seq_prefix_none(va, j + 1 as int);
                }
                return None;
            },
        };
        let ghost prev = out@;
        out.push(s);
        proof {
            lemma_jview_seq_index(a@, j as int);
            lemma_segs_seq_step(va, j as int);
            assert(segs_view(out@) =~= segs_view(prev).push(out@.last()@));
        }
        j += 1;
    }
    proof {
        assert(va.take(va.len() as int) =~= va);
    }
    Some(out)
}

impl DownloadModelParams {
    /// A download request carries exactly a model name.
    pub open spec fn spec_valid(v: JsonV) -> bool {
        v is Obj && spec_req_str(v->Obj_0, "model"@) is Some
    }

    /// The record read from `v`, field for field.
    pub open spec fn spec_matches(self, v: JsonV) -> bool {
        Some(self.model@) == spec_req_str(v->Obj_0, "model"@)
    }

    /// Reads the parameters; accepted exactly when `spec_valid`.
    pub fn from_json(v: &JsonValue) -> (r: Option<Self>)
        ensures
            (r is Some) == Self::spec_valid(v@),
            r matches Some(p) ==> p.spec_matches(v@),
    {
        let fs = match v.as_obj() {
            Some(o) => o,
            None => { return None; },
        };
        let model = match get_req_str(fs, "model") {
            Some(m) => m,
            None => { return None; },
        };
        Some(DownloadModelParams { model })
    }
}

impl ExtractFirstFrameParams {
    /// A frame-extraction request carries exactly a video path.
    pub open spec fn spec_valid(v: JsonV) -> bool {
        v is Obj && spec_req_str(v->Obj_0, "videoPath"@) is Some
    }

    /// The record read from `v`, field for field.
    pub open spec fn spec_matches(self, v: JsonV) -> bool {
        Some(self.video_path@) == spec_req_str(v->Obj_0, "videoPath"@)
    }

    /// Reads the parameters; accepted exactly when `spec_valid`.
    pub fn from_json(v: &JsonValue) -> (r: Option<Self>)
        ensures
            (r is Some) == Self::spec_valid(v@),
            r matches Some(p) ==> p.spec_matches(v@),
    {
        let fs = match v.as_obj() {
            Some(o) => o,
            None => { return None; },
        };
        let video_path = match get_req_str(fs, "videoPath") {
            Some(m) => m,
            None => { return None; },
        };
        Some(ExtractFirstFrameParams { video_path })
    }
}

impl GenerateCaptionsParams {
    /// Every required field present with the right type; optional fields may
    /// be absent or null; `multiline` and `glowEffect` default to false.
    pub open spec fn spec_valid(v: JsonV) -> bool {
        &&& v is Obj
        &&& spec_req_str(v->Obj_0, "inputVideo"@) is Some
        &&& spec_req_str_arr(v->Obj_0, "exportFormats"@) is Some
        &&& spec_req_bool(v->Obj_0, "karaoke"@) is Some
        &&& spec_default_bool(v->Obj_0, "multiline"@) is Some
        &&& spec_opt_str(v->Obj_0, "fontName"@) is Some
        &&& spec_opt_u32(v->Obj_0, "fontSize"@) is Some
        &&& spec_req_bool(v->Obj_0, "splitByWords"@) is Some
        &&& spec_opt_str(v->Obj_0, "model"@) is Some
        &&& spec_opt_str(v->Obj_0, "language"@) is Some
        &&& spec_opt_str(v->Obj_0, "prompt"@) is Some
        &&& spec_opt_str(v->Obj_0, "textColor"@) is Some
        &&& spec_opt_str(v->Obj_0, "highlightWordColor"@) is Some
        &&& spec_opt_str(v->Obj_0, "outlineColor"@) is Some
        &&& spec_default_bool(v->Obj_0, "glowEffect"@) is Some
        &&& spec_opt_str(v->Obj_0, "position"@) is Some
        &&& spec_opt_str(v->Obj_0, "apiKey"@) is Some
        &&& spec_opt_str(v->Obj_0, "outputSize"@) is Some
        &&& spec_opt_str(v->Obj_0, "cropStrategy"@) is Some
    }

    /// The record read from `v`, field for field.
    pub open spec fn spec_matches(self, v: JsonV) -> bool {
        &&& Some(self.input_video@) == spec_req_str(v->Obj_0, "inputVideo"@)
        &&& Some(strs_view(self.export_formats@)) == spec_req_str_arr(v->Obj_0, "exportFormats"@)
        &&& Some(self.karaoke) == spec_req_bool(v->Obj_0, "karaoke"@)
        &&& Some(self.multiline) == spec_default_bool(v->Obj_0, "multiline"@)
        &&& Some(opt_str_view(self.font_name)) == spec_opt_str(v->Obj_0, "fontName"@)
        &&& Some(self.font_size) == spec_opt_u32(v->Obj_0, "fontSize"@)
        &&& Some(self.split_by_words) == spec_req_bool(v->Obj_0, "splitByWords"@)
        &&& Some(opt_str_view(self.model)) == spec_opt_str(v->Obj_0, "model"@)
        &&& Some(opt_str_view(self.language)) == spec_opt_str(v->Obj_0, "language"@)
        &&& Some(opt_str_view(self.prompt)) == spec_opt_str(v->Obj_0, "prompt"@)
        &&& Some(opt_str_view(self.text_color)) == spec_opt_str(v->Obj_0, "textColor"@)
        &&& Some(opt_str_view(self.highlight_word_color)) == spec_opt_str(
            v->Obj_0,
            "highlightWordColor"@,
        )
        &&& Some(opt_str_view(self.outline_color)) == spec_opt_str(v->Obj_0, "outlineColor"@)
        &&& Some(self.glow_effect) == spec_default_bool(v->Obj_0, "glowEffect"@)
        &&& Some(opt_str_view(self.position)) == spec_opt_str(v->Obj_0, "position"@)
        &&& Some(opt_str_view(self.api_key)) == spec_opt_str(v->Obj_0, "apiKey"@)
        &&& Some(opt_str_view(self.output_size)) == spec_opt_str(v->Obj_0, "outputSize"@)
        &&& Some(opt_str_view(self.crop_strategy)) == spec_opt_str(v->Obj_0, "cropStrategy"@)
    }

    /// Reads the parameters; accepted exactly when `spec_valid`, each field
    /// exactly the corresponding lookup.
    pub fn from_json(v: &JsonValue) -> (r: Option<Self>)
        ensures
            (r is Some) == Self::spec_valid(v@),
            r matches Some(p) ==> p.spec_matches(v@),
    {
        let fs = match v.as_obj() {
            Some(o) => o,
            None => { return None; },
        };
        let input_video = match get_req_str(fs, "inputVideo") {
            Some(x) => x,
            None => { return None; },
        };
        let export_formats = match get_str_arr(fs, "exportFormats") {
            Some(x) => x,
            None => { return None; },
        };
        let karaoke = match get_req_bool(fs, "karaoke") {
            Some(x) => x,
            None => { return None; },
        };
        let multiline = match get_default_bool(fs, "multiline") {
            Some(x) => x,
            None => { return None; },
        };
        let font_name = match get_opt_str(fs, "fontName") {
            Some(x) => x,
            None => { return None; },
        };
        let font_size = match get_opt_u32(fs, "fontSize") {
            Some(x) => x,
            None => { return None; },
        };
        let split_by_words = match get_req_bool(fs, "splitByWords") {
            Some(x) => x,
            None => { return None; },
        };
        let model = match get_opt_str(fs, "model") {
            Some(x) => x,
            None => { return None; },
        };
        let language = match get_opt_str(fs, "language") {
            Some(x) => x,
            None => { return None; },
        };
        let prompt = match get_opt_str(fs, "prompt") {
            Some(x) => x,
            None => { return None; },
        };
        let text_color = match get_opt_str(fs, "textColor") {
            Some(x) => x,
            None => { return None; },
        };
        let highlight_word_color = match get_opt_str(fs, "highlightWordColor") {
            Some(x) => x,
            None => { return None; },
        };
        let outline_color = match get_opt_str(fs, "outlineColor") {
            Some(x) => x,
            None => { return None; },
        };
        let glow_effect = match get_default_bool(fs, "glowEffect") {
            Some(x) => x,
            None => { return None; },
        };
        let position = match get_opt_str(fs, "position") {
            Some(x) => x,
            None => { return None; },
        };
        let api_key = match get_opt_str(fs, "apiKey") {
            Some(x) => x,
            None => { return None; },
        };
        let output_size = match get_opt_str(fs, "outputSize") {
            Some(x) => x,
            None => { return None; },
        };
        let crop_strategy = match get_opt_str(fs, "cropStrategy") {
            Some(x) => x,
            None => { return None; },
        };
        Some(
            GenerateCaptionsParams {
                input_video,
                export_formats,
                karaoke,
                multiline,
                font_name,
                font_size,
                split_by_words,
                model,
                language,
                prompt,
                text_color,
                highlight_word_color,
                outline_color,
                glow_effect,
                position,
                api_key,
                output_size,
                crop_strategy,
            },
        )
    }
}

impl BurnCaptionsParams {
    /// Every required field present with the right type, the segments well
    /// formed; `multiline` and `glowEffect` default to false.
    pub open spec fn spec_valid(v: JsonV) -> bool {
        &&& v is Obj
        &&& spec_req_str(v->Obj_0, "inputVideo"@) is Some
        &&& spec_req_segs(v->Obj_0, "segments"@) is Some
        &&& spec_req_str_arr(v->Obj_0, "exportFormats"@) is Some
        &&& spec_req_bool(v->Obj_0, "karaoke"@) is Some
        &&& spec_default_bool(v->Obj_0, "multiline"@) is Some
        &&& spec_opt_str(v->Obj_0, "fontName"@) is Some
        &&& spec_opt_u32(v->Obj_0, "fontSize"@) is Some
        &&& spec_opt_str(v->Obj_0, "textColor"@) is Some
        &&& spec_opt_str(v->Obj_0, "highlightWordColor"@) is Some
        &&& spec_opt_str(v->Obj_0, "outlineColor"@) is Some
        &&& spec_default_bool(v->Obj_0, "glowEffect"@) is Some
        &&& spec_opt_str(v->Obj_0, "position"@) is Some
        &&& spec_opt_str(v->Obj_0, "outputSize"@) is Some
        &&& spec_opt_str(v->Obj_0, "cropStrategy"@) is Some
    }

    /// The record read from `v`, field for field.
    pub open spec fn spec_matches(self, v: JsonV) -> bool {
        &&& Some(self.input_video@) == spec_req_str(v->Obj_0, "inputVideo"@)
        &&& Some(segs_view(self.segments@)) == spec_req_segs(v->Obj_0, "segments"@)
        &&& Some(strs_view(self.export_formats@)) == spec_req_str_arr(v->Obj_0, "exportFormats"@)
        &&& Some(self.karaoke) == spec_req_bool(v->Obj_0, "karaoke"@)
        &&& Some(self.multiline) == spec_default_bool(v->Obj_0, "multiline"@)
        &&& Some(opt_str_view(self.font_name)) == spec_opt_str(v->Obj_0, "fontName"@)
        &&& Some(self.font_size) == spec_opt_u32(v->Obj_0, "fontSize"@)
        &&& Some(opt_str_view(self.text_color)) == spec_opt_str(v->Obj_0, "textColor"@)
        &&& Some(opt_str_view(self.highlight_word_color)) == spec_opt_str(
            v->Obj_0,
            "highlightWordColor"@,
        )
        &&& Some(opt_str_view(self.outline_color)) == spec_opt_str(v->Obj_0, "outlineColor"@)
        &&& Some(self.glow_effect) == spec_default_bool(v->Obj_0, "glowEffect"@)
        &&& Some(opt_str_view(self.position)) == spec_opt_str(v->Obj_0, "position"@)
        &&& Some(opt_str_view(self.output_size)) == spec_opt_str(v->Obj_0, "outputSize"@)
        &&& Some(opt_str_view(self.crop_strategy)) == spec_opt_str(v->Obj_0, "cropStrategy"@)
    }

    /// Reads the parameters; accepted exactly when `spec_valid`, each field
    /// exactly the corresponding lookup.
    pub fn from_json(v: &JsonValue) -> (r: Option<Self>)
        ensures
            (r is Some) == Self::spec_valid(v@),
            r matches Some(p) ==> p.spec_matches(v@),
    {
        let fs = match v.as_obj() {
            Some(o) => o,
            None => { return None; },
        };
        let input_video = match get_req_str(fs, "inputVideo") {
            Some(x) => x,
            None => { return None; },
        };
        let segments = match get_segments(fs, "segments") {
            Some(x) => x,
            None => { return None; },
        };
        let export_formats = match get_str_arr(fs, "exportFormats") {
            Some(x) => x,
            None => { return None; },
        };
        let karaoke = match get_req_bool(fs, "karaoke") {
            Some(x) => x,
            None => { return None; },
        };
        let multiline = match get_default_bool(fs, "multiline") {
            Some(x) => x,
            None => { return None; },
        };
        let font_name = match get_opt_str(fs, "fontName") {
            Some(x) => x,
            None => { return None; },
        };
        let font_size = match get_opt_u32(fs, "fontSize") {
            Some(x) => x,
            None => { return None; },
        };
        let text_color = match get_opt_str(fs, "textColor") {
            Some(x) => x,
            None => { return None; },
        };
        let highlight_word_color = match get_opt_str(fs, "highlightWordColor") {
            Some(x) => x,
            None => { return None; },
        };
        let outline_color = match get_opt_str(fs, "outlineColor") {
            Some(x) => x,
            None => { return None; },
        };
        let glow_effect = match get_default_bool(fs, "glowEffect") {
            Some(x) => x,
            None => { return None; },
        };
        let position = match get_opt_str(fs, "position") {
            Some(x) => x,
            None => { return None; },
        };
        let output_size = match get_opt_str(fs, "outputSize") {
            Some(x) => x,
            None => { return None; },
        };
        let crop_strategy = match get_opt_str(fs, "cropStrategy") {
            Some(x) => x,
            None => { return None; },
        };
        Some(
            BurnCaptionsParams {
                input_video,
                segments,
                export_formats,
                karaoke,
                multiline,
                font_name,
                font_size,
                text_color,
                highlight_word_color,
                outline_color,
                glow_effect,
                position,
                output_size,
                crop_strategy,
            },
        )
    }
}

impl PreviewLayoutParams {
    /// Every required field present with the right type, the segments well
    /// formed; `multiline` defaults to false.
    pub open spec fn spec_valid(v: JsonV) -> bool {
        &&& v is Obj
        &&& spec_req_segs(v->Obj_0, "segments"@) is Some
        &&& spec_req_u32(v->Obj_0, "width"@) is Some
        &&& spec_req_u32(v->Obj_0, "height"@) is Some
        &&& spec_opt_str(v->Obj_0, "fontName"@) is Some
        &&& spec_opt_u32(v->Obj_0, "fontSize"@) is Some
        &&& spec_opt_str(v->Obj_0, "textColor"@) is Some
        &&& spec_opt_str(v->Obj_0, "highlightWordColor"@) is Some
        &&& spec_opt_str(v->Obj_0, "outlineColor"@) is Some
        &&& spec_opt_str(v->Obj_0, "position"@) is Some
        &&& spec_req_bool(v->Obj_0, "karaoke"@) is Some
        &&& spec_default_bool(v->Obj_0, "multiline"@) is Some
        &&& spec_req_bool(v->Obj_0, "glowEffect"@) is Some
    }

    /// The record read from `v`, field for field.
    pub open spec fn spec_matches(self, v: JsonV) -> bool {
        &&& Some(segs_view(self.segments@)) == spec_req_segs(v->Obj_0, "segments"@)
        &&& Some(self.width) == spec_req_u32(v->Obj_0, "width"@)
        &&& Some(self.height) == spec_req_u32(v->Obj_0, "height"@)
        &&& Some(opt_str_view(self.font_name)) == spec_opt_str(v->Obj_0, "fontName"@)
        &&& Some(self.font_size) == spec_opt_u32(v->Obj_0, "fontSize"@)
        &&& Some(opt_str_view(self.text_color)) == spec_opt_str(v->Obj_0, "textColor"@)
        &&& Some(opt_str_view(self.highlight_word_color)) == spec_opt_str(
            v->Obj_0,
            "highlightWordColor"@,
        )
        &&& Some(opt_str_view(self.outline_color)) == spec_opt_str(v->Obj_0, "outlineColor"@)
        &&& Some(opt_str_view(self.position)) == spec_opt_str(v->Obj_0, "position"@)
        &&& Some(self.karaoke) == spec_req_bool(v->Obj_0, "karaoke"@)
        &&& Some(self.multiline) == spec_default_bool(v->Obj_0, "multiline"@)
        &&& Some(self.glow_effect) == spec_req_bool(v->Obj_0, "glowEffect"@)
    }

    /// Reads the parameters; accepted exactly when `spec_valid`, each field
    /// exactly the corresponding lookup.
    pub fn from_json(v: &JsonValue) -> (r: Option<Self>)
        ensures
            (r is Some) == Self::spec_valid(v@),
            r matches Some(p) ==> p.spec_matches(v@),
    {
        let fs = match v.as_obj() {
            Some(o) => o,
            None => { return None; },
        };
        let segments = match get_segments(fs, "segments") {
            Some(x) => x,
            None => { return None; },
        };
        let width = match get_req_u32(fs, "width") {
            Some(x) => x,
            None => { return None; },
        };
        let height = match get_req_u32(fs, "height") {
            Some(x) => x,
            None => { return None; },
        };
        let font_name = match get_opt_str(fs, "fontName") {
            Some(x) => x,
            None => { return None; },
        };
        let font_size = match get_opt_u32(fs, "fontSize") {
            Some(x) => x,
            None => { return None; },
        };
        let text_color = match get_opt_str(fs, "textColor") {
            Some(x) => x,
            None => { return None; },
        };
        let highlight_word_color = match get_opt_str(fs, "highlightWordColor") {
            Some(x) => x,
            None => { return None; },
        };
        let outline_color = match get_opt_str(fs, "outlineColor") {
            Some(x) => x,
            None => { return None; },
        };
        let position = match get_opt_str(fs, "position") {
            Some(x) => x,
            None => { return None; },
        };
        let karaoke = match get_req_bool(fs, "karaoke") {
            Some(x) => x,
            None => { return None; },
        };
        let multiline = match get_default_bool(fs, "multiline") {
            Some(x) => x,
            None => { return None; },
        };
        let glow_effect = match get_req_bool(fs, "glowEffect") {
            Some(x) => x,
            None => { return None; },
        };
        Some(
            PreviewLayoutParams {
                segments,
                width,
                height,
                font_name,
                font_size,
                text_color,
                highlight_word_color,
                outline_color,
                position,
                karaoke,
                multiline,
                glow_effect,
            },
        )
    }
}

} // verus!
