//! The converters that a block of text can be handed to, and the choice of
//! converter by its one-letter code.
use vstd::prelude::*;

verus! {

/// Kana to kanji conversion of romaji input (Microsoft IME `GetJMorphResult`).
#[derive(Debug, Clone, Copy, PartialEq, Eq, Structural)]
pub struct RomanToKanjiConverter;

/// Romaji to hiragana conversion.
#[derive(Debug, Clone, Copy, PartialEq, Eq, Structural)]
pub struct HiraganaConverter;

/// Evaluation of arithmetic expressions.
#[derive(Debug, Clone, Copy, PartialEq, Eq, Structural)]
pub struct CalculatorConverter;

/// Leaves the text as it is.
#[derive(Debug, Clone, Copy, PartialEq, Eq, Structural)]
pub struct NoneConverter;

/// Reverse conversion to katakana.
#[derive(Debug, Clone, Copy, PartialEq, Eq, Structural)]
pub struct KatakanaConverter;

/// One of the converters. Those that need the platform's input method
/// (`RomanToKanji`, `Hiragana`, `Katakana`) and the calculator's evaluation
/// are carried out by the caller; the library decides which one applies,
/// what it is given, and what becomes of its answer.
#[derive(Debug, Clone, Copy, PartialEq, Eq, Structural)]
pub enum Converter {
    RomanToKanji(RomanToKanjiConverter),
    Hiragana(HiraganaConverter),
    Calculator(CalculatorConverter),
    Unchanged(NoneConverter),
    Katakana(KatakanaConverter),
}

/// The converter named by a one-letter code, if the code names one.
pub open spec fn spec_custom_converter(prefix: char) -> Option<Converter> {
    if prefix == 'r' {
        Some(Converter::RomanToKanji(RomanToKanjiConverter))
    } else if prefix == 'h' {
        Some(Converter::Hiragana(HiraganaConverter))
    } else if prefix == 'c' {
        Some(Converter::Calculator(CalculatorConverter))
    } else if prefix == 'n' {
        Some(Converter::Unchanged(NoneConverter))
    } else if prefix == 'k' {
        Some(Converter::Katakana(KatakanaConverter))
    } else {
        None
    }
}

/// The converter used for a code: the one it names, else `NoneConverter`.
pub open spec fn converter_for(prefix: char) -> Converter {
    match spec_custom_converter(prefix) {
        Some(c) => c,
        None => Converter::Unchanged(NoneConverter),
    }
}

/// The converter named by `prefix`: `r` roman to kanji, `h` hiragana,
/// `c` calculator, `n` none, `k` katakana.
pub fn get_custom_converter(prefix: char) -> (r: Option<Converter>)
    ensures
        r == spec_custom_converter(prefix),
{
    match prefix {
        'r' => Some(Converter::RomanToKanji(RomanToKanjiConverter)),
        'h' => Some(Converter::Hiragana(HiraganaConverter)),
        'c' => Some(Converter::Calculator(CalculatorConverter)),
        'n' => Some(Converter::Unchanged(NoneConverter)),
        'k' => Some(Converter::Katakana(KatakanaConverter)),
        _ => None,
    }
}

/// The converter for `prefix`, falling back to `NoneConverter` for an
/// unknown code.
pub fn converter_or_none(prefix: char) -> (r: Converter)
    ensures
        r == converter_for(prefix),
        spec_custom_converter(prefix) matches Some(k) ==> r == k,
        spec_custom_converter(prefix) is None ==> r == Converter::Unchanged(NoneConverter),
{
    match get_custom_converter(prefix) {
        Some(c) => c,
        None => Converter::Unchanged(NoneConverter),
    }
}

/// What the calculator shows for `text`: `text = value` when the
/// expression evaluates, else the evaluation's error message.
pub open spec fn calculator_output(text: Seq<char>, evaluation: Result<Seq<char>, Seq<char>>) -> Seq<char> {
    match evaluation {
        Ok(value) => text + seq![' ', '=', ' '] + value,
        Err(message) => message,
    }
}

/// The view of a textual result.
pub open spec fn result_view(r: Result<String, String>) -> Result<Seq<char>, Seq<char>> {
    match r {
        Ok(s) => Ok(s@),
        Err(e) => Err(e@),
    }
}

impl Converter {
    pub open spec fn spec_name(self) -> Seq<char> {
        match self {
            Converter::RomanToKanji(_) => seq!['r', 'o', 'm', 'a', 'n', '_', 't', 'o', '_', 'k', 'a', 'n', 'j', 'i'],
            Converter::Hiragana(_) => seq!['h', 'i', 'r', 'a', 'g', 'a', 'n', 'a'],
            Converter::Calculator(_) => seq!['c', 'a', 'l', 'c', 'u', 'l', 'a', 't', 'o', 'r'],
            Converter::Unchanged(_) => seq!['n', 'o', 'n', 'e'],
            Converter::Katakana(_) => seq!['k', 'a', 't', 'a', 'k', 'a', 'n', 'a'],
        }
    }

    /// Whether the converter's work is done outside the library (by the
    /// input method or the calculator's evaluation).
    pub open spec fn is_external(self) -> bool {
        !(self is Unchanged)
    }

    /// The converter's name.
    pub fn name(&self) -> (r: String)
        ensures
            r@ == self.spec_name(),
    {
        match self {
            Converter::RomanToKanji(c) => c.name(),
            Converter::Hiragana(c) => c.name(),
            Converter::Calculator(c) => c.name(),
            Converter::Unchanged(c) => c.name(),
            Converter::Katakana(c) => c.name(),
        }
    }

    /// Whether the converter's work is done outside the library.
    pub fn is_external_exec(&self) -> (r: bool)
        ensures
            r == self.is_external(),
    {
        match self {
            Converter::Unchanged(_) => false,
            _ => true,
        }
    }
}

impl RomanToKanjiConverter {
    pub fn name(&self) -> (r: String)
        ensures
            r@ == Converter::RomanToKanji(*self).spec_name(),
    {
        let r = String::from_str("roman_to_kanji");
        proof {
            reveal_strlit("roman_to_kanji");
        }
        r
    }
}

impl HiraganaConverter {
    pub fn name(&self) -> (r: String)
        ensures
            r@ == Converter::Hiragana(*self).spec_name(),
    {
        let r = String::from_str("hiragana");
        proof {
            reveal_strlit("hiragana");
        }
        r
    }
}

impl KatakanaConverter {
    pub fn name(&self) -> (r: String)
        ensures
            r@ == Converter::Katakana(*self).spec_name(),
    {
        let r = String::from_str("katakana");
        proof {
            reveal_strlit("katakana");
        }
        r
    }
}

impl NoneConverter {
    /// Returns the text unchanged.
    pub fn convert(&self, text: &str) -> (r: Result<String, String>)
        ensures
            result_view(r) == Ok::<Seq<char>, Seq<char>>(text@),
    {
        Ok(text.to_owned())
    }

    pub fn name(&self) -> (r: String)
        ensures
            r@ == Converter::Unchanged(*self).spec_name(),
    {
        let r = String::from_str("none");
        proof {
            reveal_strlit("none");
        }
        r
    }
}

impl CalculatorConverter {
    /// The calculator's answer for `text`, given the evaluation of the
    /// expression (its value printed, or the evaluation's error message).
    /// Never fails: an evaluation error becomes the answer.
    pub fn convert(&self, text: &str, evaluation: Result<String, String>) -> (r: Result<String, String>)
        ensures
            result_view(r) == Ok::<Seq<char>, Seq<char>>(calculator_output(text@, result_view(evaluation))),
    {
        match evaluation {
            Ok(value) => {
                let mut out = text.to_owned();
                let sep = " = ";
                proof {
                    reveal_strlit(" = ");
                }
                out.append(sep);
                out.append(value.as_str());
                assert(sep@ =~= seq![' ', '=', ' ']);
                assert(out@ =~= text@ + seq![' ', '=', ' '] + value@);
                Ok(out)
            },
            Err(message) => Ok(message),
        }
    }

    pub fn name(&self) -> (r: String)
        ensures
            r@ == Converter::Calculator(*self).spec_name(),
    {
        let r = String::from_str("calculator");
        proof {
            reveal_strlit("calculator");
        }
        r
    }
}

} // verus!

verus! {

/// The converter used for a code is the one that the code names, and
/// `NoneConverter` for a code that names none.
pub proof fn law_code_selects_named_converter(code: char)
    ensures
        spec_custom_converter(code) matches Some(k) ==> converter_for(code) == k,
        spec_custom_converter(code) is None ==> converter_for(code) == Converter::Unchanged(
            NoneConverter,
        ),
{
}

/// Every converter is named by the first letter of its name, and a code
/// names only the converter whose name starts with it.
pub proof fn law_code_is_first_letter_of_name(k: Converter, code: char)
    ensures
        k.spec_name().len() > 0,
        spec_custom_converter(k.spec_name()[0]) == Some(k),
        converter_for(k.spec_name()[0]) == k,
        spec_custom_converter(code) matches Some(j) ==> j.spec_name()[0] == code,
{
}

} // verus!
