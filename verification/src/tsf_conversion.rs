//! Reconversion through the text services framework: the first copy of a
//! text converts its changed tail from romaji to kanji; copying the result
//! again cycles through the input method's candidates for that tail.
//!
//! The input method is outside the library. The conversion is a small state
//! machine: `convert` and `resume` return the next request for the input
//! method, and the caller answers each request with `resume` until the
//! request is `Finished`.
use vstd::prelude::*;
use crate::converter::result_view;
use crate::text::{chars_equal, chars_of, string_of};

verus! {

/// The contents of each string.
pub open spec fn strings_view(v: Seq<String>) -> Seq<Seq<char>> {
    v.map_values(|s: String| s@)
}

/// The last entry of a history, or the empty text.
pub open spec fn last_or_empty(h: Seq<Seq<char>>) -> Seq<char> {
    if h.len() > 0 {
        h.last()
    } else {
        Seq::empty()
    }
}

/// The entry before the last one of a history; its only entry if it has
/// one; the empty text if it has none.
pub open spec fn second_last_or_first(h: Seq<Seq<char>>) -> Seq<char> {
    if h.len() > 1 {
        h[h.len() - 2]
    } else if h.len() == 1 {
        h[0]
    } else {
        Seq::empty()
    }
}

/// The length of the common prefix of `a` and `b`, counting from `k`.
pub open spec fn common_prefix_from(a: Seq<char>, b: Seq<char>, k: int) -> int
    decreases a.len() - k,
{
    if k < 0 || k >= a.len() || k >= b.len() || a[k] != b[k] {
        k
    } else {
        common_prefix_from(a, b, k + 1)
    }
}

/// The length of the longest common prefix of `a` and `b`.
pub open spec fn common_prefix_len(a: Seq<char>, b: Seq<char>) -> int {
    common_prefix_from(a, b, 0)
}

/// The part of `new` that `old` does not share with it: all of `new` when
/// the two are equal, else what follows their common prefix.
pub open spec fn changed_tail(old: Seq<char>, new: Seq<char>) -> Seq<char> {
    if old == new {
        new
    } else {
        new.skip(common_prefix_len(old, new))
    }
}

/// The common prefix of `old` and `new`.
pub open spec fn common_part(old: Seq<char>, new: Seq<char>) -> Seq<char> {
    new.take(common_prefix_len(old, new))
}

/// A history cut down to its last three entries.
pub open spec fn keep_last_three(h: Seq<Seq<char>>) -> Seq<Seq<char>> {
    if h.len() > 3 {
        h.skip(h.len() - 3)
    } else {
        h
    }
}

/// The candidate shown after the one at `index` (`-1`: none shown yet),
/// wrapping round to the first.
pub open spec fn next_index(index: int, len: int) -> int {
    if index + 1 < len {
        index + 1
    } else {
        0
    }
}

/// How many candidates are asked of the input method.
pub open spec fn max_candidates() -> nat {
    10
}

/// What a conversion waits for.
pub enum TsfPending {
    Idle,
    /// The roman to kanji conversion of the changed tail of `text`.
    Roman { prefix: String, text: String },
    /// The hiragana reading of the tail `diff` that is to be reconverted.
    Hiragana { diff: String, prefix: String, text: String },
    /// The input method's candidates for `hiragana`.
    Lookup { diff: String, prefix: String, hiragana: String, text: String },
    /// The roman to kanji conversion of `hiragana`, used when the input
    /// method offered no candidates.
    Fallback { diff: String, prefix: String, hiragana: String, text: String },
}

pub enum PendingView {
    Idle,
    Roman { prefix: Seq<char>, text: Seq<char> },
    Hiragana { diff: Seq<char>, prefix: Seq<char>, text: Seq<char> },
    Lookup { diff: Seq<char>, prefix: Seq<char>, hiragana: Seq<char>, text: Seq<char> },
    Fallback { diff: Seq<char>, prefix: Seq<char>, hiragana: Seq<char>, text: Seq<char> },
}

impl TsfPending {
    pub open spec fn view(&self) -> PendingView {
        match self {
            TsfPending::Idle => PendingView::Idle,
            TsfPending::Roman { prefix, text } => PendingView::Roman { prefix: prefix@, text: text@ },
            TsfPending::Hiragana { diff, prefix, text } => PendingView::Hiragana {
                diff: diff@,
                prefix: prefix@,
                text: text@,
            },
            TsfPending::Lookup { diff, prefix, hiragana, text } => PendingView::Lookup {
                diff: diff@,
                prefix: prefix@,
                hiragana: hiragana@,
                text: text@,
            },
            TsfPending::Fallback { diff, prefix, hiragana, text } => PendingView::Fallback {
                diff: diff@,
                prefix: prefix@,
                hiragana: hiragana@,
                text: text@,
            },
        }
    }
}

/// What the conversion asks of the input method next.
pub enum TsfRequest {
    /// Convert this text from romaji to kanji and answer with `TsfAnswer::Text`.
    RomanToKanji(String),
    /// Convert this text to hiragana and answer with `TsfAnswer::Text`.
    Hiragana(String),
    /// Look up at most this many candidates for this text and answer with
    /// `TsfAnswer::Candidates`.
    SearchCandidates(String, usize),
    /// The conversion is over, with this result.
    Finished(Result<String, String>),
}

pub enum RequestView {
    RomanToKanji(Seq<char>),
    Hiragana(Seq<char>),
    SearchCandidates(Seq<char>, nat),
    Finished(Result<Seq<char>, Seq<char>>),
}

impl TsfRequest {
    pub open spec fn view(&self) -> RequestView {
        match self {
            TsfRequest::RomanToKanji(s) => RequestView::RomanToKanji(s@),
            TsfRequest::Hiragana(s) => RequestView::Hiragana(s@),
            TsfRequest::SearchCandidates(s, n) => RequestView::SearchCandidates(s@, *n as nat),
            TsfRequest::Finished(r) => RequestView::Finished(result_view(*r)),
        }
    }
}

/// The input method's answer to a request.
pub enum TsfAnswer {
    Text(Result<String, String>),
    Candidates(Result<Vec<String>, String>),
}

pub enum AnswerView {
    Text(Result<Seq<char>, Seq<char>>),
    Candidates(Result<Seq<Seq<char>>, Seq<char>>),
}

impl TsfAnswer {
    pub open spec fn view(&self) -> AnswerView {
        match self {
            TsfAnswer::Text(r) => AnswerView::Text(result_view(*r)),
            TsfAnswer::Candidates(Ok(v)) => AnswerView::Candidates(Ok(strings_view(v@))),
            TsfAnswer::Candidates(Err(e)) => AnswerView::Candidates(Err(e@)),
        }
    }
}

/// The state of a reconversion, as plain values.
#[verifier::ext_equal]
pub struct TsfModel {
    pub conversion_history: Seq<Seq<char>>,
    pub clipboard_history: Seq<Seq<char>>,
    pub now_reconvertion: bool,
    pub target_text: Seq<char>,
    pub candidates: Option<Seq<Seq<char>>>,
    pub index: Option<int>,
    pub prefix: Option<Seq<char>>,
    pub pending: PendingView,
}

/// The candidate list, its prefix and the position in it are there together
/// or not at all; a list is never empty and the position lies within it.
pub open spec fn model_inv(m: TsfModel) -> bool {
    &&& (m.prefix is Some) == (m.candidates is Some)
    &&& (m.candidates is Some) == (m.index is Some)
    &&& m.candidates matches Some(l) ==> 1 <= l.len() <= 0x7fff_ffff
    &&& m.index matches Some(i) ==> 0 <= i < m.candidates->0.len()
    &&& (m.pending is Hiragana || m.pending is Lookup || m.pending is Fallback) ==> {
        &&& m.prefix is None
        &&& m.now_reconvertion
    }
    &&& m.prefix is Some ==> m.now_reconvertion
}

/// Forgets the reconversion in progress.
pub open spec fn reset_model(m: TsfModel) -> TsfModel {
    TsfModel { now_reconvertion: false, prefix: None, index: None, candidates: None, ..m }
}

/// Shows the next candidate: records `prefix + candidate` and `text` in the
/// histories, which keep their last three entries.
pub open spec fn spec_finish(m: TsfModel, text: Seq<char>) -> (TsfModel, RequestView) {
    let l = m.candidates->0;
    let p = m.prefix->0;
    let idx = match m.index {
        Some(i) => i,
        None => -1,
    };
    let next = next_index(idx, l.len() as int);
    let chosen = p + l[next];
    (
        TsfModel {
            index: Some(next),
            conversion_history: keep_last_three(m.conversion_history.push(chosen)),
            clipboard_history: keep_last_three(m.clipboard_history.push(text)),
            pending: PendingView::Idle,
            ..m
        },
        RequestView::Finished(Ok(chosen)),
    )
}

/// The first step of converting a copied `text`. A text equal to the last
/// conversion is reconverted; any other text ends a reconversion in progress
/// and has its changed tail converted from romaji to kanji.
pub open spec fn spec_convert(m: TsfModel, text: Seq<char>) -> (TsfModel, RequestView) {
    let last = last_or_empty(m.conversion_history);
    let same = text == last;
    let m1 = TsfModel { target_text: text, ..m };
    let m2 = if !same && m1.now_reconvertion {
        reset_model(m1)
    } else {
        m1
    };
    if !same {
        (
            TsfModel {
                pending: PendingView::Roman { prefix: common_part(last, text), text },
                ..m2
            },
            RequestView::RomanToKanji(changed_tail(last, text)),
        )
    } else {
        let m3 = TsfModel { now_reconvertion: true, ..m2 };
        if m3.prefix is None {
            let o2 = second_last_or_first(m3.conversion_history);
            let i1 = last_or_empty(m3.clipboard_history);
            (
                TsfModel {
                    pending: PendingView::Hiragana {
                        diff: changed_tail(o2, i1),
                        prefix: common_part(o2, i1),
                        text,
                    },
                    ..m3
                },
                RequestView::Hiragana(changed_tail(o2, i1)),
            )
        } else {
            spec_finish(m3, text)
        }
    }
}

/// Whether `answer` is one that the pending request can receive. The
/// fallback conversion must succeed, and a candidate list must leave room
/// for the tail in front of it.
pub open spec fn answer_fits(pending: PendingView, answer: AnswerView) -> bool {
    match pending {
        PendingView::Idle => false,
        PendingView::Roman { .. } => answer is Text,
        PendingView::Hiragana { .. } => answer is Text,
        PendingView::Lookup { .. } => match answer {
            AnswerView::Candidates(Ok(l)) => l.len() < 0x7fff_ffff,
            AnswerView::Candidates(Err(_)) => true,
            _ => false,
        },
        PendingView::Fallback { .. } => answer matches AnswerView::Text(Ok(_)),
    }
}

/// The step taken on the input method's answer.
pub open spec fn spec_resume(m: TsfModel, answer: AnswerView) -> (TsfModel, RequestView) {
    let idle = TsfModel { pending: PendingView::Idle, ..m };
    match m.pending {
        PendingView::Roman { prefix, text } => match answer {
            AnswerView::Text(Ok(c)) => (
                TsfModel {
                    conversion_history: m.conversion_history.push(prefix + c),
                    clipboard_history: m.clipboard_history.push(text),
                    ..idle
                },
                RequestView::Finished(Ok(prefix + c)),
            ),
            AnswerView::Text(Err(e)) => (idle, RequestView::Finished(Err(e))),
            _ => (idle, RequestView::Finished(Err(Seq::empty()))),
        },
        PendingView::Hiragana { diff, prefix, text } => match answer {
            AnswerView::Text(Ok(h)) => (
                TsfModel { pending: PendingView::Lookup { diff, prefix, hiragana: h, text }, ..m },
                RequestView::SearchCandidates(h, max_candidates()),
            ),
            AnswerView::Text(Err(e)) => (idle, RequestView::Finished(Err(e))),
            _ => (idle, RequestView::Finished(Err(Seq::empty()))),
        },
        PendingView::Lookup { diff, prefix, hiragana, text } => {
            let found = match answer {
                AnswerView::Candidates(Ok(l)) => l,
                _ => Seq::empty(),
            };
            if found.len() == 0 {
                (
                    TsfModel {
                        pending: PendingView::Fallback { diff, prefix, hiragana, text },
                        ..m
                    },
                    RequestView::RomanToKanji(hiragana),
                )
            } else {
                spec_finish(
                    TsfModel {
                        prefix: Some(prefix),
                        candidates: Some(seq![diff] + found),
                        ..idle
                    },
                    text,
                )
            }
        },
        PendingView::Fallback { diff, prefix, hiragana, text } => {
            let kanji = match answer {
                AnswerView::Text(Ok(k)) => k,
                _ => Seq::empty(),
            };
            spec_finish(
                TsfModel {
                    prefix: Some(prefix),
                    candidates: Some(seq![diff, hiragana, kanji]),
                    ..idle
                },
                text,
            )
        },
        PendingView::Idle => (m, RequestView::Finished(Err(Seq::empty()))),
    }
}

/// Reconversion state: the last conversions and copied texts, and the
/// candidates being cycled through.
pub struct TsfConversion {
    pub conversion_history: Vec<String>,
    pub clipboard_history: Vec<String>,
    pub now_reconvertion: bool,
    pub target_text: String,
    pub reconversion_candidates: Option<Vec<String>>,
    pub reconversion_index: Option<i32>,
    pub reconversion_prefix: Option<String>,
    pub pending: TsfPending,
}

impl TsfConversion {
    pub open spec fn model(&self) -> TsfModel {
        TsfModel {
            conversion_history: strings_view(self.conversion_history@),
            clipboard_history: strings_view(self.clipboard_history@),
            now_reconvertion: self.now_reconvertion,
            target_text: self.target_text@,
            candidates: match self.reconversion_candidates {
                Some(v) => Some(strings_view(v@)),
                None => None,
            },
            index: match self.reconversion_index {
                Some(i) => Some(i as int),
                None => None,
            },
            prefix: match self.reconversion_prefix {
                Some(p) => Some(p@),
                None => None,
            },
            pending: self.pending.view(),
        }
    }

    /// The state of a fresh conversion: empty histories, nothing in progress.
    pub open spec fn new_model() -> TsfModel {
        TsfModel {
            conversion_history: Seq::empty(),
            clipboard_history: Seq::empty(),
            now_reconvertion: false,
            target_text: Seq::empty(),
            candidates: None,
            index: None,
            prefix: None,
            pending: PendingView::Idle,
        }
    }

    pub open spec fn inv(&self) -> bool {
        model_inv(self.model())
    }

    /// A fresh state: empty histories, no reconversion in progress.
    pub fn new() -> (r: Self)
        ensures
            r.inv(),
            r.model() == Self::new_model(),
    {
        let r = TsfConversion {
            conversion_history: Vec::new(),
            clipboard_history: Vec::new(),
            now_reconvertion: false,
            target_text: String::new(),
            reconversion_candidates: None,
            reconversion_index: None,
            reconversion_prefix: None,
            pending: TsfPending::Idle,
        };
        assert(r.model().conversion_history =~= Seq::empty());
        assert(r.model().clipboard_history =~= Seq::empty());
        r
    }

    fn reset_conversion_state(&mut self)
        ensures
            final(self).model() == reset_model(old(self).model()),
    {
        self.now_reconvertion = false;
        self.reconversion_prefix = None;
        self.reconversion_index = None;
        self.reconversion_candidates = None;
    }

    /// Shows the next candidate of the list in place.
    fn finish(&mut self, text: String) -> (r: TsfRequest)
        requires
            old(self).model().prefix is Some,
            old(self).model().candidates matches Some(l) && 1 <= l.len() <= 0x7fff_ffff,
            old(self).model().index matches Some(i) ==> 0 <= i < old(self).model().candidates->0.len(),
            old(self).model().now_reconvertion,
        ensures
            (final(self).model(), r.view()) == spec_finish(old(self).model(), text@),
            model_inv(final(self).model()),
    {
        let ghost m = self.model();
        let n = match &self.reconversion_candidates {
            Some(v) => v.len(),
            None => 0,
        };
        let idx: i32 = match self.reconversion_index {
            Some(i) => i,
            None => -1,
        };
        let next: i32 = if idx + 1 < n as i32 {
            idx + 1
        } else {
            0
        };
        self.reconversion_index = Some(next);
        let mut chosen = match &self.reconversion_prefix {
            Some(p) => p.clone(),
            None => String::new(),
        };
        match &self.reconversion_candidates {
            Some(v) => {
                chosen.append(v[next as usize].as_str());
            },
            None => {},
        }
        assert(chosen@ == m.prefix->0 + m.candidates->0[next as int]);
        let ghost ch = strings_view(self.conversion_history@);
        let ghost cl = strings_view(self.clipboard_history@);
        self.conversion_history.push(chosen.clone());
        self.clipboard_history.push(text);
        assert(strings_view(self.conversion_history@) =~= ch.push(chosen@));
        assert(strings_view(self.clipboard_history@) =~= cl.push(text@));
        keep_last_three_exec(&mut self.conversion_history);
        keep_last_three_exec(&mut self.clipboard_history);
        self.pending = TsfPending::Idle;
        let r = TsfRequest::Finished(Ok(chosen));
        assert(self.model() =~= spec_finish(m, text@).0);
        r
    }

    /// Starts the conversion of the copied `text` (see `spec_convert`).
    pub fn convert(&mut self, text: &str) -> (r: TsfRequest)
        requires
            old(self).inv(),
            old(self).pending is Idle,
        ensures
            (final(self).model(), r.view()) == spec_convert(old(self).model(), text@),
            final(self).inv(),
    {
        let ghost m = self.model();
        let last = last_or_empty_exec(&self.conversion_history);
        let text_chars = chars_of(text);
        let last_chars = chars_of(last.as_str());
        let same = chars_equal(&text_chars, &last_chars);
        self.target_text = text.to_owned();
        let ghost m1 = self.model();
        assert(m1 =~= TsfModel { target_text: text@, ..m });
        if !same && self.now_reconvertion {
            self.reset_conversion_state();
        }
        if !same {
            let (prefix, diff) = split_change(&last_chars, &text_chars);
            self.pending = TsfPending::Roman { prefix, text: text.to_owned() };
            let r = TsfRequest::RomanToKanji(diff);
            assert(self.model() =~= spec_convert(m, text@).0);
            return r;
        }
        self.now_reconvertion = true;
        if self.reconversion_prefix.is_none() {
            let o2 = second_last_or_first_exec(&self.conversion_history);
            let i1 = last_or_empty_exec(&self.clipboard_history);
            let (prefix, diff) = split_change(&chars_of(o2.as_str()), &chars_of(i1.as_str()));
            let request_diff = diff.clone();
            self.pending = TsfPending::Hiragana { diff, prefix, text: text.to_owned() };
            let r = TsfRequest::Hiragana(request_diff);
            assert(self.model() =~= spec_convert(m, text@).0);
            return r;
        }
        let ghost m3 = self.model();
        assert(m3 =~= TsfModel { now_reconvertion: true, ..m1 });
        self.finish(text.to_owned())
    }

    /// Takes the input method's answer to the pending request (see `spec_resume`).
    pub fn resume(&mut self, answer: TsfAnswer) -> (r: TsfRequest)
        requires
            old(self).inv(),
            answer_fits(old(self).pending.view(), answer.view()),
        ensures
            (final(self).model(), r.view()) == spec_resume(old(self).model(), answer.view()),
            final(self).inv(),
    {
        let ghost m = self.model();
        let ghost av = answer.view();
        let mut pending = TsfPending::Idle;
        core::mem::swap(&mut pending, &mut self.pending);
        let ghost idle = self.model();
        assert(idle =~= TsfModel { pending: PendingView::Idle, ..m });
        match pending {
            TsfPending::Roman { prefix, text } => match answer {
                TsfAnswer::Text(Ok(c)) => {
                    let mut converted = prefix;
                    converted.append(c.as_str());
                    let ghost ch = strings_view(self.conversion_history@);
                    let ghost cl = strings_view(self.clipboard_history@);
                    self.conversion_history.push(converted.clone());
                    self.clipboard_history.push(text);
                    assert(strings_view(self.conversion_history@) =~= ch.push(converted@));
                    assert(strings_view(self.clipboard_history@) =~= cl.push(text@));
                    let r = TsfRequest::Finished(Ok(converted));
                    assert(self.model() =~= spec_resume(m, av).0);
                    r
                },
                TsfAnswer::Text(Err(e)) => TsfRequest::Finished(Err(e)),
                TsfAnswer::Candidates(_) => TsfRequest::Finished(Err(String::new())),
            },
            TsfPending::Hiragana { diff, prefix, text } => match answer {
                TsfAnswer::Text(Ok(h)) => {
                    let request_text = h.clone();
                    self.pending = TsfPending::Lookup { diff, prefix, hiragana: h, text };
                    let r = TsfRequest::SearchCandidates(request_text, 10);
                    assert(self.model() =~= spec_resume(m, av).0);
                    r
                },
                TsfAnswer::Text(Err(e)) => TsfRequest::Finished(Err(e)),
                TsfAnswer::Candidates(_) => TsfRequest::Finished(Err(String::new())),
            },
            TsfPending::Lookup { diff, prefix, hiragana, text } => {
                let mut found = match answer {
                    TsfAnswer::Candidates(Ok(l)) => l,
                    _ => Vec::new(),
                };
                if found.len() == 0 {
                    let request_text = hiragana.clone();
                    self.pending = TsfPending::Fallback { diff, prefix, hiragana, text };
                    let r = TsfRequest::RomanToKanji(request_text);
                    assert(self.model() =~= spec_resume(m, av).0);
                    r
                } else {
                    let ghost fv = strings_view(found@);
                    let mut list: Vec<String> = Vec::new();
                    list.push(diff);
                    list.append(&mut found);
                    assert(strings_view(list@) =~= seq![diff@] + fv);
                    self.reconversion_prefix = Some(prefix);
                    self.reconversion_candidates = Some(list);
                    self.finish(text)
                }
            },
            TsfPending::Fallback { diff, prefix, hiragana, text } => {
                let kanji = match answer {
                    TsfAnswer::Text(Ok(k)) => k,
                    _ => String::new(),
                };
                let mut list: Vec<String> = Vec::new();
                list.push(diff);
                list.push(hiragana);
                list.push(kanji);
                assert(strings_view(list@) =~= seq![diff@, hiragana@, kanji@]);
                self.reconversion_prefix = Some(prefix);
                self.reconversion_candidates = Some(list);
                self.finish(text)
            },
            TsfPending::Idle => TsfRequest::Finished(Err(String::new())),
        }
    }
}

/// Cuts a history down to its last three entries.
fn keep_last_three_exec(h: &mut Vec<String>)
    ensures
        strings_view(final(h)@) == keep_last_three(strings_view(old(h)@)),
{
    let ghost orig = strings_view(h@);
    while h.len() > 3
        invariant
            h.len() <= orig.len(),
            orig.len() > 3 ==> h.len() >= 3,
            orig.len() <= 3 ==> h.len() == orig.len(),
            strings_view(h@) == orig.skip(orig.len() - h.len()),
        decreases h.len(),
    {
        let ghost before = strings_view(h@);
        h.remove(0);
        assert(strings_view(h@) =~= before.drop_first());
        assert(orig.skip(orig.len() - h.len()) =~= before.drop_first());
    }
    assert(orig.skip(0) =~= orig);
}

/// The last entry of a history, or the empty text.
fn last_or_empty_exec(h: &Vec<String>) -> (r: String)
    ensures
        r@ == last_or_empty(strings_view(h@)),
{
    if h.len() > 0 {
        h[h.len() - 1].clone()
    } else {
        String::new()
    }
}

fn second_last_or_first_exec(h: &Vec<String>) -> (r: String)
    ensures
        r@ == second_last_or_first(strings_view(h@)),
{
    if h.len() > 1 {
        h[h.len() - 2].clone()
    } else if h.len() == 1 {
        h[0].clone()
    } else {
        String::new()
    }
}


/// The common prefix of `old` and `new` and the changed tail of `new`.
fn split_change(old: &Vec<char>, new: &Vec<char>) -> (r: (String, String))
    ensures
        r.0@ == common_part(old@, new@),
        r.1@ == changed_tail(old@, new@),
{
    let mut k: usize = 0;
    while k < old.len() && k < new.len() && old[k] == new[k]
        invariant
            k <= old.len(),
            k <= new.len(),
            common_prefix_len(old@, new@) == common_prefix_from(old@, new@, k as int),
        decreases old.len() - k,
    {
        k = k + 1;
    }
    let prefix = string_of(new, 0, k);
    assert(new@.subrange(0, k as int) =~= new@.take(k as int));
    let same = chars_equal(old, new);
    let tail = if same {
        string_of(new, 0, new.len())
    } else {
        string_of(new, k, new.len())
    };
    assert(new@.subrange(0, new@.len() as int) =~= new@);
    assert(new@.subrange(k as int, new@.len() as int) =~= new@.skip(k as int));
    (prefix, tail)
}

} // verus!

verus! {

proof fn lemma_common_prefix_from_bounds(a: Seq<char>, b: Seq<char>, k: int)
    requires
        0 <= k <= a.len(),
        k <= b.len(),
    ensures
        k <= common_prefix_from(a, b, k) <= a.len(),
        common_prefix_from(a, b, k) <= b.len(),
    decreases a.len() - k,
{
    if k < a.len() && k < b.len() && a[k] == b[k] {
        lemma_common_prefix_from_bounds(a, b, k + 1);
    }
}

/// A changed text is its common prefix with the previous one followed by
/// the tail that is handed to the converter.
pub proof fn law_prefix_and_tail_make_the_text(old: Seq<char>, new: Seq<char>)
    requires
        old != new,
    ensures
        common_part(old, new) + changed_tail(old, new) == new,
{
    lemma_common_prefix_from_bounds(old, new, 0);
    let c = common_prefix_len(old, new);
    assert(new.take(c) + new.skip(c) =~= new);
}

proof fn lemma_keep_last_three_last(h: Seq<Seq<char>>)
    requires
        h.len() > 0,
    ensures
        keep_last_three(h).len() > 0,
        keep_last_three(h).len() <= 3,
        keep_last_three(h).last() == h.last(),
{
}

/// Every successful conversion step leaves its result as the last entry of
/// the conversion history, so that copying the result again is recognised
/// as a request for the next candidate.
pub proof fn law_result_is_last_conversion(m: TsfModel, text: Seq<char>, answer: AnswerView)
    requires
        model_inv(m),
    ensures
        m.pending is Idle ==> (spec_convert(m, text).1 matches RequestView::Finished(Ok(r)) ==> r
            == last_or_empty(spec_convert(m, text).0.conversion_history)),
        spec_resume(m, answer).1 matches RequestView::Finished(Ok(r)) ==> r == last_or_empty(
            spec_resume(m, answer).0.conversion_history,
        ),
{
    if m.candidates is Some {
        let l = m.candidates->0;
        let idx = match m.index {
            Some(i) => i,
            None => -1,
        };
        let chosen = m.prefix->0 + l[next_index(idx, l.len() as int)];
        lemma_keep_last_three_last(m.conversion_history.push(chosen));
    }
    match m.pending {
        PendingView::Lookup { diff, prefix, hiragana, text: t } => {
            let found = match answer {
                AnswerView::Candidates(Ok(l)) => l,
                _ => Seq::empty(),
            };
            let l = seq![diff] + found;
            lemma_keep_last_three_last(m.conversion_history.push(prefix + l[0]));
        },
        PendingView::Fallback { diff, prefix, hiragana, text: t } => {
            lemma_keep_last_three_last(m.conversion_history.push(prefix + diff));
        },
        _ => {},
    }
}

/// Copying the last conversion again, while a candidate list is in place,
/// shows the next candidate (after the last one, the first again) behind
/// the same prefix, without asking the input method anything.
pub proof fn law_copying_again_cycles_candidates(m: TsfModel)
    requires
        model_inv(m),
        m.pending is Idle,
        m.candidates is Some,
    ensures
        ({
            let l = m.candidates->0;
            let next = next_index(m.index->0, l.len() as int);
            let (m2, r) = spec_convert(m, last_or_empty(m.conversion_history));
            &&& r == RequestView::Finished(Ok(m.prefix->0 + l[next]))
            &&& m2.index == Some(next)
            &&& m2.candidates == m.candidates
            &&& m2.prefix == m.prefix
            &&& m2.now_reconvertion
        }),
{
}

/// A copied text that differs from the last conversion ends any
/// reconversion in progress, and its changed tail is sent to be converted
/// from romaji to kanji.
pub proof fn law_new_text_restarts(m: TsfModel, text: Seq<char>)
    requires
        model_inv(m),
        m.pending is Idle,
        text != last_or_empty(m.conversion_history),
    ensures
        ({
            let (m2, r) = spec_convert(m, text);
            &&& r == RequestView::RomanToKanji(changed_tail(last_or_empty(m.conversion_history), text))
            &&& !m2.now_reconvertion
            &&& m2.candidates is None
            &&& m2.index is None
            &&& m2.prefix is None
        }),
{
}

/// A reconversion step records the result and the copied text and keeps
/// the last three entries of each history.
pub proof fn law_reconversion_keeps_three(m: TsfModel, text: Seq<char>)
    requires
        m.candidates is Some,
    ensures
        spec_finish(m, text).1 matches RequestView::Finished(Ok(s)) && spec_finish(
            m,
            text,
        ).0.conversion_history == keep_last_three(m.conversion_history.push(s)),
        spec_finish(m, text).0.clipboard_history == keep_last_three(m.clipboard_history.push(text)),
        spec_finish(m, text).0.conversion_history.len() <= 3,
        spec_finish(m, text).0.clipboard_history.len() <= 3,
        spec_finish(m, text).0.conversion_history.len() <= m.conversion_history.len() + 1,
{
}

} // verus!

verus! {

/// Feeds the answers in order to the pending requests, until the conversion
/// is finished or the answers run out.
pub open spec fn resume_all(m: TsfModel, r: RequestView, answers: Seq<AnswerView>) -> (TsfModel, RequestView)
    decreases answers.len(),
{
    if answers.len() == 0 || r is Finished {
        (m, r)
    } else {
        let (m2, r2) = spec_resume(m, answers[0]);
        resume_all(m2, r2, answers.drop_first())
    }
}

/// Whether each answer fits the request it is given to.
pub open spec fn answers_fit(m: TsfModel, r: RequestView, answers: Seq<AnswerView>) -> bool
    decreases answers.len(),
{
    if answers.len() == 0 || r is Finished {
        true
    } else {
        let (m2, r2) = spec_resume(m, answers[0]);
        answer_fits(m.pending, answers[0]) && answers_fit(m2, r2, answers.drop_first())
    }
}

/// The conversion of `text` started from `m`, with the given answers.
pub open spec fn spec_run(m: TsfModel, text: Seq<char>, answers: Seq<AnswerView>) -> (TsfModel, RequestView) {
    let (m1, r1) = spec_convert(m, text);
    resume_all(m1, r1, answers)
}

/// The text that a pending request is converting.
pub open spec fn pending_text(p: PendingView) -> Seq<char> {
    match p {
        PendingView::Idle => Seq::empty(),
        PendingView::Roman { text, .. } => text,
        PendingView::Hiragana { text, .. } => text,
        PendingView::Lookup { text, .. } => text,
        PendingView::Fallback { text, .. } => text,
    }
}

/// What holds between the steps of converting `text`: the invariant; while a
/// request is pending, it is about `text`, and a roman to kanji conversion
/// happens outside any reconversion; once finished with a result, the result
/// and `text` are the last entries of the histories and reconversion is on
/// exactly when a candidate list is in place.
pub open spec fn step_ok(m: TsfModel, r: RequestView, text: Seq<char>) -> bool {
    &&& model_inv(m)
    &&& match r {
        RequestView::Finished(Ok(s)) => {
            &&& m.pending is Idle
            &&& s == last_or_empty(m.conversion_history)
            &&& text == last_or_empty(m.clipboard_history)
            &&& m.now_reconvertion == (m.prefix is Some)
        },
        RequestView::Finished(Err(_)) => m.pending is Idle,
        _ => {
            &&& !(m.pending is Idle)
            &&& pending_text(m.pending) == text
            &&& m.pending is Roman ==> !m.now_reconvertion && m.prefix is None
        },
    }
}

proof fn lemma_keep_last_three_keeps_last(h: Seq<Seq<char>>, x: Seq<char>)
    ensures
        last_or_empty(keep_last_three(h.push(x))) == x,
{
    lemma_keep_last_three_last(h.push(x));
}

proof fn lemma_finish_step_ok(m: TsfModel, text: Seq<char>)
    requires
        m.prefix is Some,
        m.candidates matches Some(l) && 1 <= l.len() <= 0x7fff_ffff,
        m.index matches Some(i) ==> 0 <= i < m.candidates->0.len(),
        m.now_reconvertion,
    ensures
        step_ok(spec_finish(m, text).0, spec_finish(m, text).1, text),
{
    let l = m.candidates->0;
    let idx = match m.index {
        Some(i) => i,
        None => -1,
    };
    let chosen = m.prefix->0 + l[next_index(idx, l.len() as int)];
    lemma_keep_last_three_keeps_last(m.conversion_history, chosen);
    lemma_keep_last_three_keeps_last(m.clipboard_history, text);
}

proof fn lemma_convert_step_ok(m: TsfModel, text: Seq<char>)
    requires
        model_inv(m),
        m.pending is Idle,
    ensures
        step_ok(spec_convert(m, text).0, spec_convert(m, text).1, text),
{
    let last = last_or_empty(m.conversion_history);
    if text == last && m.prefix is Some {
        lemma_finish_step_ok(TsfModel { target_text: text, now_reconvertion: true, ..m }, text);
    }
}

proof fn lemma_resume_step_ok(m: TsfModel, r: RequestView, text: Seq<char>, a: AnswerView)
    requires
        step_ok(m, r, text),
        !(r is Finished),
        answer_fits(m.pending, a),
    ensures
        step_ok(spec_resume(m, a).0, spec_resume(m, a).1, text),
{
    let idle = TsfModel { pending: PendingView::Idle, ..m };
    match m.pending {
        PendingView::Roman { prefix, text: t } => {
            if let AnswerView::Text(Ok(c)) = a {
                lemma_keep_last_three_last(m.conversion_history.push(prefix + c));
                assert(m.conversion_history.push(prefix + c).last() == prefix + c);
                assert(m.clipboard_history.push(t).last() == t);
            }
        },
        PendingView::Lookup { diff, prefix, hiragana, text: t } => {
            let found = match a {
                AnswerView::Candidates(Ok(l)) => l,
                _ => Seq::empty(),
            };
            if found.len() > 0 {
                lemma_finish_step_ok(
                    TsfModel { prefix: Some(prefix), candidates: Some(seq![diff] + found), ..idle },
                    t,
                );
            }
        },
        PendingView::Fallback { diff, prefix, hiragana, text: t } => {
            let kanji = match a {
                AnswerView::Text(Ok(k)) => k,
                _ => Seq::empty(),
            };
            lemma_finish_step_ok(
                TsfModel { prefix: Some(prefix), candidates: Some(seq![diff, hiragana, kanji]), ..idle },
                t,
            );
        },
        _ => {},
    }
}

proof fn lemma_resume_all_step_ok(m: TsfModel, r: RequestView, text: Seq<char>, answers: Seq<AnswerView>)
    requires
        step_ok(m, r, text),
        answers_fit(m, r, answers),
    ensures
        step_ok(resume_all(m, r, answers).0, resume_all(m, r, answers).1, text),
    decreases answers.len(),
{
    if answers.len() > 0 && !(r is Finished) {
        lemma_resume_step_ok(m, r, text, answers[0]);
        let (m2, r2) = spec_resume(m, answers[0]);
        lemma_resume_all_step_ok(m2, r2, text, answers.drop_first());
    }
}

/// A conversion of `text`, started on a valid idle state and answered until
/// it finishes with a result, leaves the result as the last conversion and
/// `text` as the last copied text, keeps the invariant, and has reconversion
/// on exactly when a candidate list, its prefix and a position are in place.
pub proof fn law_finished_conversion_state(m: TsfModel, text: Seq<char>, answers: Seq<AnswerView>)
    requires
        model_inv(m),
        m.pending is Idle,
        answers_fit(spec_convert(m, text).0, spec_convert(m, text).1, answers),
    ensures
        ({
            let (m2, r2) = spec_run(m, text, answers);
            r2 matches RequestView::Finished(Ok(s)) ==> {
                &&& model_inv(m2)
                &&& m2.pending is Idle
                &&& s == last_or_empty(m2.conversion_history)
                &&& text == last_or_empty(m2.clipboard_history)
                &&& m2.now_reconvertion == (m2.prefix is Some)
                &&& m2.now_reconvertion == (m2.candidates is Some)
                &&& m2.now_reconvertion == (m2.index is Some)
            }
        }),
{
    lemma_convert_step_ok(m, text);
    let (m1, r1) = spec_convert(m, text);
    lemma_resume_all_step_ok(m1, r1, text, answers);
}

} // verus!

verus! {

proof fn lemma_common_prefix_from_agrees(a: Seq<char>, b: Seq<char>, k: int)
    requires
        0 <= k <= a.len(),
        k <= b.len(),
        forall|j: int| 0 <= j < k ==> a[j] == b[j],
    ensures
        forall|j: int| 0 <= j < common_prefix_from(a, b, k) ==> a[j] == b[j],
        k <= common_prefix_from(a, b, k) <= a.len(),
        common_prefix_from(a, b, k) <= b.len(),
    decreases a.len() - k,
{
    if k < a.len() && k < b.len() && a[k] == b[k] {
        lemma_common_prefix_from_agrees(a, b, k + 1);
    }
}

/// The common part of two texts is a prefix of both.
pub proof fn law_common_part_is_prefix_of_both(old: Seq<char>, new: Seq<char>)
    ensures
        common_part(old, new).len() <= old.len(),
        common_part(old, new) == old.take(common_part(old, new).len() as int),
        common_part(old, new) == new.take(common_part(old, new).len() as int),
{
    lemma_common_prefix_from_agrees(old, new, 0);
    let c = common_prefix_len(old, new);
    assert(new.take(c) =~= old.take(c));
}

/// Copying the last conversion again, with no candidate list in place,
/// asks for the hiragana of the changed tail of the last copied text: that
/// tail, behind the prefix it shares with the conversion before last, makes
/// up the last copied text.
pub proof fn law_reconversion_reads_last_copied_text(m: TsfModel)
    requires
        model_inv(m),
        m.pending is Idle,
        m.prefix is None,
        m.clipboard_history.len() > 0,
    ensures
        ({
            let (m2, r) = spec_convert(m, last_or_empty(m.conversion_history));
            let copied = m.clipboard_history.last();
            &&& r matches RequestView::Hiragana(d)
            &&& m2.pending matches PendingView::Hiragana { diff, prefix, text }
            &&& diff == r->Hiragana_0
            &&& (second_last_or_first(m.conversion_history) != copied ==> prefix + diff == copied)
            &&& (second_last_or_first(m.conversion_history) == copied ==> diff == copied)
            &&& prefix == copied.take(prefix.len() as int)
            &&& prefix == second_last_or_first(m.conversion_history).take(prefix.len() as int)
        }),
{
    let o2 = second_last_or_first(m.conversion_history);
    let i1 = m.clipboard_history.last();
    law_common_part_is_prefix_of_both(o2, i1);
    if o2 != i1 {
        law_prefix_and_tail_make_the_text(o2, i1);
    }
}

/// Each further copy shows the next candidate: the position advances by one
/// through the whole list and goes back to the first entry only after the
/// last one.
pub proof fn law_candidates_advance_one_by_one(m: TsfModel)
    requires
        model_inv(m),
        m.pending is Idle,
        m.candidates is Some,
    ensures
        ({
            let l = m.candidates->0;
            let i = m.index->0;
            let p = m.prefix->0;
            let (m2, r) = spec_convert(m, last_or_empty(m.conversion_history));
            &&& i + 1 < l.len() ==> (r == RequestView::Finished(Ok(p + l[i + 1])) && m2.index == Some(i + 1))
            &&& i + 1 == l.len() ==> (r == RequestView::Finished(Ok(p + l[0])) && m2.index == Some(0int))
        }),
{
}

} // verus!
