use vrclipboard_ime::tsf_conversion::{TsfAnswer, TsfConversion, TsfRequest};

fn finished(r: TsfRequest) -> Result<String, String> {
    match r {
        TsfRequest::Finished(r) => r,
        _ => panic!("expected the conversion to be finished"),
    }
}

fn roman_request(r: TsfRequest) -> String {
    match r {
        TsfRequest::RomanToKanji(s) => s,
        _ => panic!("expected a roman to kanji request"),
    }
}

#[test]
fn first_copy_converts_whole_text() {
    let mut tsf = TsfConversion::new();
    let diff = roman_request(tsf.convert("kanji"));
    assert_eq!(diff, "kanji");
    let r = finished(tsf.resume(TsfAnswer::Text(Ok("漢字".to_string()))));
    assert_eq!(r, Ok("漢字".to_string()));
    assert_eq!(tsf.conversion_history, vec!["漢字".to_string()]);
    assert_eq!(tsf.clipboard_history, vec!["kanji".to_string()]);
}

#[test]
fn only_the_changed_tail_is_converted() {
    let mut tsf = TsfConversion::new();
    roman_request(tsf.convert("kanji"));
    finished(tsf.resume(TsfAnswer::Text(Ok("漢字".to_string()))));
    let diff = roman_request(tsf.convert("漢字desu"));
    assert_eq!(diff, "desu");
    let r = finished(tsf.resume(TsfAnswer::Text(Ok("です".to_string()))));
    assert_eq!(r, Ok("漢字です".to_string()));
}

#[test]
fn conversion_error_leaves_histories() {
    let mut tsf = TsfConversion::new();
    roman_request(tsf.convert("abc"));
    let r = finished(tsf.resume(TsfAnswer::Text(Err("no ime".to_string()))));
    assert_eq!(r, Err("no ime".to_string()));
    assert!(tsf.conversion_history.is_empty());
    assert!(tsf.clipboard_history.is_empty());
}

#[test]
fn copying_again_cycles_candidates() {
    let mut tsf = TsfConversion::new();
    roman_request(tsf.convert("kanji"));
    finished(tsf.resume(TsfAnswer::Text(Ok("漢字".to_string()))));
    // the same text again: reconversion of the tail "kanji"
    match tsf.convert("漢字") {
        TsfRequest::Hiragana(s) => assert_eq!(s, "kanji"),
        _ => panic!("expected a hiragana request"),
    }
    match tsf.resume(TsfAnswer::Text(Ok("かんじ".to_string()))) {
        TsfRequest::SearchCandidates(s, n) => {
            assert_eq!(s, "かんじ");
            assert_eq!(n, 10);
        }
        _ => panic!("expected a candidate lookup"),
    }
    let list = vec!["感じ".to_string(), "漢字".to_string()];
    let r = finished(tsf.resume(TsfAnswer::Candidates(Ok(list))));
    // the first candidate is the tail as it was copied
    assert_eq!(r, Ok("kanji".to_string()));
    assert_eq!(tsf.reconversion_index, Some(0));
    assert_eq!(finished(tsf.convert("kanji")), Ok("感じ".to_string()));
    assert_eq!(finished(tsf.convert("感じ")), Ok("漢字".to_string()));
    assert_eq!(finished(tsf.convert("漢字")), Ok("kanji".to_string()));
    assert!(tsf.conversion_history.len() <= 3);
    assert!(tsf.clipboard_history.len() <= 3);
}

#[test]
fn no_candidates_falls_back_to_kanji() {
    let mut tsf = TsfConversion::new();
    roman_request(tsf.convert("a"));
    finished(tsf.resume(TsfAnswer::Text(Ok("あ".to_string()))));
    match tsf.convert("あ") {
        TsfRequest::Hiragana(s) => assert_eq!(s, "a"),
        _ => panic!("expected a hiragana request"),
    }
    match tsf.resume(TsfAnswer::Text(Ok("あ".to_string()))) {
        TsfRequest::SearchCandidates(_, _) => {}
        _ => panic!("expected a candidate lookup"),
    }
    let req = tsf.resume(TsfAnswer::Candidates(Err("none".to_string())));
    assert_eq!(roman_request(req), "あ");
    let r = finished(tsf.resume(TsfAnswer::Text(Ok("亜".to_string()))));
    assert_eq!(r, Ok("a".to_string()));
    assert_eq!(tsf.reconversion_candidates, Some(vec!["a".to_string(), "あ".to_string(), "亜".to_string()]));
}

#[test]
fn new_text_ends_reconversion() {
    let mut tsf = TsfConversion::new();
    roman_request(tsf.convert("a"));
    finished(tsf.resume(TsfAnswer::Text(Ok("あ".to_string()))));
    tsf.convert("あ");
    tsf.resume(TsfAnswer::Text(Ok("あ".to_string())));
    finished(tsf.resume(TsfAnswer::Candidates(Ok(vec!["亜".to_string()]))));
    assert!(tsf.now_reconvertion);
    let diff = roman_request(tsf.convert("ab"));
    assert!(!tsf.now_reconvertion);
    assert_eq!(tsf.reconversion_candidates, None);
    assert_eq!(tsf.reconversion_prefix, None);
    assert_eq!(tsf.reconversion_index, None);
    // the last conversion was "a" (the first candidate); "ab" extends it
    assert_eq!(diff, "b");
}
