use vrclipboard_ime::config::{Config, OnCopyMode};
use vrclipboard_ime::conversion::{answer_needed, Conversion, ConversionBlock};
use vrclipboard_ime::converter::{
    get_custom_converter, CalculatorConverter, Converter, HiraganaConverter, KatakanaConverter,
    NoneConverter, RomanToKanjiConverter,
};

fn blocks_of(conversion: &Conversion, text: &str) -> Vec<(String, String)> {
    conversion
        .split_text(text)
        .unwrap()
        .iter()
        .map(|b: &ConversionBlock| (b.converter.name(), b.text.clone()))
        .collect()
}

fn pair(name: &str, text: &str) -> (String, String) {
    (name.to_string(), text.to_string())
}

#[test]
fn default_config_values() {
    let c = Config::default();
    assert_eq!(c.prefix, ";");
    assert_eq!(c.split, "/");
    assert_eq!(c.command, ";");
    assert!(c.ignore_prefix);
    assert_eq!(c.on_copy_mode, OnCopyMode::ReturnToChatbox);
    assert!(c.skip_url);
    assert_eq!(OnCopyMode::default(), OnCopyMode::ReturnToChatbox);
}

#[test]
fn custom_converter_codes() {
    assert_eq!(get_custom_converter('r'), Some(Converter::RomanToKanji(RomanToKanjiConverter)));
    assert_eq!(get_custom_converter('h'), Some(Converter::Hiragana(HiraganaConverter)));
    assert_eq!(get_custom_converter('c'), Some(Converter::Calculator(CalculatorConverter)));
    assert_eq!(get_custom_converter('n'), Some(Converter::Unchanged(NoneConverter)));
    assert_eq!(get_custom_converter('k'), Some(Converter::Katakana(KatakanaConverter)));
    assert_eq!(get_custom_converter('x'), None);
    assert_eq!(get_custom_converter('R'), None);
}

#[test]
fn converter_names() {
    assert_eq!(Converter::RomanToKanji(RomanToKanjiConverter).name(), "roman_to_kanji");
    assert_eq!(Converter::Calculator(CalculatorConverter).name(), "calculator");
    assert_eq!(Converter::Unchanged(NoneConverter).name(), "none");
    assert_eq!(Converter::Katakana(KatakanaConverter).name(), "katakana");
    assert_eq!(Converter::Hiragana(HiraganaConverter).name(), "hiragana");
}

#[test]
fn plain_text_is_one_roman_block_per_split() {
    let conversion = Conversion::new(Config::default());
    assert_eq!(blocks_of(&conversion, "konnichiha"), vec![pair("roman_to_kanji", "konnichiha")]);
    assert_eq!(
        blocks_of(&conversion, "watashi/ha"),
        vec![pair("roman_to_kanji", "watashi"), pair("roman_to_kanji", "ha")]
    );
    assert_eq!(blocks_of(&conversion, ""), vec![pair("roman_to_kanji", "")]);
}

#[test]
fn leading_command_selects_converter() {
    let conversion = Conversion::new(Config::default());
    assert_eq!(blocks_of(&conversion, ";nhello"), vec![pair("none", "hello")]);
    assert_eq!(blocks_of(&conversion, ";c1+2"), vec![pair("calculator", "1+2")]);
    assert_eq!(blocks_of(&conversion, ";"), vec![pair("roman_to_kanji", "")]);
    assert_eq!(blocks_of(&conversion, ";k"), vec![pair("katakana", "")]);
}

#[test]
fn later_commands_switch_converter() {
    let conversion = Conversion::new(Config::default());
    assert_eq!(
        blocks_of(&conversion, "abc;ndef/gh;kij"),
        vec![
            pair("roman_to_kanji", "abc"),
            pair("none", "def"),
            pair("none", "gh"),
            pair("katakana", "ij"),
        ]
    );
    // an empty piece keeps the converter in force
    assert_eq!(
        blocks_of(&conversion, ";nab;;cd"),
        vec![pair("none", "ab"), pair("none", ""), pair("calculator", "d")]
    );
    // an unknown code falls back to no conversion
    assert_eq!(blocks_of(&conversion, "a;zb"), vec![pair("roman_to_kanji", "a"), pair("none", "b")]);
}

#[test]
fn multi_character_markers() {
    let mut config = Config::default();
    config.command = "<>".to_string();
    config.split = "--".to_string();
    let conversion = Conversion::new(config);
    // only the first character of a leading marker is removed: ">" becomes the code
    assert_eq!(blocks_of(&conversion, "<>nabc"), vec![pair("none", "nabc")]);
    assert_eq!(
        blocks_of(&conversion, "x--y<>nz--w"),
        vec![
            pair("roman_to_kanji", "x"),
            pair("roman_to_kanji", "y"),
            pair("none", "z"),
            pair("none", "w"),
        ]
    );
}

#[test]
fn empty_split_marker_separates_every_character() {
    let mut config = Config::default();
    config.split = String::new();
    let conversion = Conversion::new(config);
    assert_eq!(
        blocks_of(&conversion, "ab"),
        vec![
            pair("roman_to_kanji", ""),
            pair("roman_to_kanji", "a"),
            pair("roman_to_kanji", "b"),
            pair("roman_to_kanji", ""),
        ]
    );
}

#[test]
fn japanese_text_after_ascii_markers() {
    let conversion = Conversion::new(Config::default());
    assert_eq!(
        blocks_of(&conversion, ";nこんにちは/世界"),
        vec![pair("none", "こんにちは"), pair("none", "世界")]
    );
}

#[test]
fn get_config_returns_settings() {
    let mut config = Config::default();
    config.split = "|".to_string();
    let conversion = Conversion::new(config);
    let c = conversion.get_config();
    assert_eq!(c.split, "|");
    assert_eq!(c.command, ";");
}

#[test]
fn none_and_calculator_converters() {
    assert_eq!(NoneConverter.convert("abc"), Ok("abc".to_string()));
    assert_eq!(CalculatorConverter.convert("1+2", Ok("3".to_string())), Ok("1+2 = 3".to_string()));
    assert_eq!(
        CalculatorConverter.convert("1+", Err("Parsing".to_string())),
        Ok("Parsing".to_string())
    );
}

#[test]
fn convert_blocks_joins_results() {
    let conversion = Conversion::new(Config::default());
    let blocks = conversion.split_text(";nab/cd;c1+1;rxyz/").unwrap();
    let answers = vec![
        Ok(String::new()),
        Ok(String::new()),
        Ok("2".to_string()),
        Ok("漢字".to_string()),
        Ok("never used".to_string()),
    ];
    assert_eq!(blocks.len(), answers.len());
    assert_eq!(conversion.convert_blocks(&blocks, &answers), Ok("abcd1+1 = 2漢字".to_string()));
}

#[test]
fn convert_blocks_stops_at_first_error() {
    let conversion = Conversion::new(Config::default());
    let blocks = conversion.split_text("a/b/c").unwrap();
    let answers = vec![Ok("A".to_string()), Err("first".to_string()), Err("second".to_string())];
    assert_eq!(conversion.convert_blocks(&blocks, &answers), Err("first".to_string()));
}

#[test]
fn convert_block_empty_and_outside() {
    let conversion = Conversion::new(Config::default());
    let empty = ConversionBlock { text: String::new(), converter: Converter::Katakana(KatakanaConverter) };
    assert_eq!(conversion.convert_block(&empty, Err("x".to_string())), Ok(String::new()));
    let kata = ConversionBlock { text: "abc".to_string(), converter: Converter::Katakana(KatakanaConverter) };
    assert_eq!(conversion.convert_block(&kata, Ok("アブク".to_string())), Ok("アブク".to_string()));
    assert_eq!(conversion.convert_block(&kata, Err("e".to_string())), Err("e".to_string()));
}

#[test]
fn convert_text_with_none_converter() {
    let conversion = Conversion::new(Config::default());
    let answers = vec![Ok(String::new()), Ok(String::new()), Ok(String::new())];
    assert_eq!(conversion.convert_text(";na/b/c", &answers), Ok("abc".to_string()));
}

#[test]
fn blocks_never_hold_split_marker_and_join_back() {
    let conversion = Conversion::new(Config::default());
    let text = "a//b/c/";
    let blocks = conversion.split_text(text).unwrap();
    let texts: Vec<String> = blocks.iter().map(|b| b.text.clone()).collect();
    assert_eq!(texts, vec!["a", "", "b", "c", ""]);
    assert!(texts.iter().all(|t| !t.contains('/')));
    assert_eq!(texts.join("/"), text);
}

#[test]
fn can_split_rejects_non_ascii_codes() {
    let conversion = Conversion::new(Config::default());
    assert!(conversion.can_split(";nabc"));
    assert!(conversion.can_split("abc;"));
    assert!(!conversion.can_split(";あabc"));
    assert!(!conversion.can_split("abc;あ"));
    let mut config = Config::default();
    config.command = String::new();
    let empty_marker = Conversion::new(config);
    assert!(!empty_marker.can_split(""));
    assert!(empty_marker.can_split("ab"));
}

#[test]
fn blocks_needing_outside_converter() {
    let conversion = Conversion::new(Config::default());
    let blocks = conversion.split_text(";nab/;rc/").unwrap();
    let needs: Vec<bool> = blocks.iter().map(|b| b.needs_outside_converter()).collect();
    assert_eq!(needs, vec![false, false, true, false]);
}

#[test]
fn answers_stop_after_first_failing_block() {
    let conversion = Conversion::new(Config::default());
    let blocks = conversion.split_text(";c1+/a;nb;rc/d").unwrap();
    // blocks: calc "1+", calc "a", none "b", roman "c", roman "d"
    let mut answers: Vec<Result<String, String>> = Vec::new();
    assert!(answer_needed(&blocks, &answers, 0));
    answers.push(Err("Parsing".to_string()));
    // a failing evaluation does not stop the conversion
    assert!(answer_needed(&blocks, &answers, 1));
    answers.push(Ok("1".to_string()));
    assert!(!answer_needed(&blocks, &answers, 2));
    answers.push(Ok(String::new()));
    assert!(answer_needed(&blocks, &answers, 3));
    answers.push(Err("ime".to_string()));
    assert!(!answer_needed(&blocks, &answers, 4));
    answers.push(Ok(String::new()));
    assert_eq!(conversion.convert_blocks(&blocks, &answers), Err("ime".to_string()));
}
