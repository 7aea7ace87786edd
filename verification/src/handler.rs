//! What happens when the clipboard changes: which copied texts are
//! converted, which are reconverted, which are left alone, and how a result
//! is delivered (back to the clipboard, or as an OSC message to the chatbox).
use vstd::prelude::*;
use crate::config::{Config, OnCopyMode};
use crate::conversion::Conversion;
use crate::converter::result_view;
use crate::text::{char_is_ascii, chars_equal, chars_of, is_ascii_char, is_prefix, is_prefix_exec, string_of};
use crate::tsf_conversion::TsfConversion;
use vstd::utf8::encode_utf8;

verus! {

broadcast use vstd::string::group_string_axioms;

/// Whether the `regex` crate accepts `pattern` (`Regex::new` succeeds).
pub uninterp spec fn regex_valid(pattern: Seq<char>) -> bool;

/// Whether the compiled `pattern` matches somewhere in `text` (`Regex::is_match`).
pub uninterp spec fn regex_is_match(pattern: Seq<char>, text: Seq<char>) -> bool;

/// Compiles `pattern` with `regex::Regex::new` and, if it compiles, tells
/// with `Regex::is_match` whether it matches somewhere in `text`. The
/// contract claims that the outcome depends on the two strings alone: `None`
/// exactly when the pattern does not compile, else the match result. Which
/// patterns compile and what they match is not stated.
#[verifier::external_body]
fn regex_search(pattern: &str, text: &str) -> (r: Option<bool>)
    ensures
        (r is Some) == regex_valid(pattern@),
        r matches Some(b) ==> b == regex_is_match(pattern@, text@),
{
    match regex::Regex::new(pattern) {
        Ok(re) => Some(re.is_match(text)),
        Err(_) => None,
    }
}

/// The pattern of a web address: `http://` or `https://` followed by at
/// least one character that may stand in an address.
pub const URL_PATTERN: &'static str = r"(http://|https://){1}[\w\.\-/:\#\?=\&;%\~\+]+";

/// Whether `text` holds a web address.
pub open spec fn url_found(text: Seq<char>) -> bool {
    regex_is_match(URL_PATTERN@, text)
}

/// Whether the web address pattern compiles.
pub fn url_pattern_compiles() -> (r: bool)
    ensures
        r == regex_valid(URL_PATTERN@),
{
    let probe = String::new();
    match regex_search(URL_PATTERN, probe.as_str()) {
        Some(_) => true,
        None => false,
    }
}

/// Whether `text` holds a web address.
pub fn contains_url(text: &str) -> (r: bool)
    requires
        regex_valid(URL_PATTERN@),
    ensures
        r == url_found(text@),
{
    match regex_search(URL_PATTERN, text) {
        Some(found) => found,
        None => false,
    }
}

/// The bytes of `s` padded as an OSC string: at least one and at most four
/// zero bytes, up to a multiple of four.
pub open spec fn osc_string(bytes: Seq<u8>) -> Seq<u8> {
    bytes + Seq::new((4 - bytes.len() % 4) as nat, |i: int| 0u8)
}

/// The OSC type tag of a boolean argument.
pub open spec fn osc_bool_tag(b: bool) -> u8 {
    if b {
        0x54u8
    } else {
        0x46u8
    }
}

/// The OSC message to `addr` with a string argument and two boolean
/// arguments: the padded address, the padded type tags `,s` and `T`/`F`
/// twice, then the padded UTF-8 string (booleans carry no data).
pub open spec fn osc_message_bytes(addr: Seq<char>, text: Seq<char>, first: bool, second: bool) -> Seq<u8> {
    osc_string(encode_utf8(addr)) + osc_string(
        seq![0x2cu8, 0x73u8, osc_bool_tag(first), osc_bool_tag(second)],
    ) + osc_string(encode_utf8(text))
}

#[verifier::external_type_specification]
#[verifier::external_body]
pub struct ExOscError(rosc::OscError);

/// `rosc::encoder::encode` of the message to `addr` with the arguments
/// `String(text)`, `Bool(first)`, `Bool(second)`. Claimed, as the crate's
/// encoder writes it: always `Ok`, with the bytes of `osc_message_bytes`.
#[verifier::external_body]
fn encode_osc_message(addr: String, text: String, first: bool, second: bool) -> (r: Result<Vec<u8>, rosc::OscError>)
    ensures
        r is Ok,
        r is Ok ==> r->Ok_0@ == osc_message_bytes(addr@, text@, first, second),
{
    rosc::encoder::encode(
        &rosc::OscPacket::Message(
            rosc::OscMessage {
                addr,
                args: vec![
                    rosc::OscType::String(text),
                    rosc::OscType::Bool(first),
                    rosc::OscType::Bool(second),
                ],
            },
        ),
    )
}

/// The chatbox input address of the OSC interface.
pub open spec fn chatbox_address() -> Seq<char> {
    seq!['/', 'c', 'h', 'a', 't', 'b', 'o', 'x', '/', 'i', 'n', 'p', 'u', 't']
}

/// The OSC message that puts `text` into the chatbox: sent at once when
/// `send_directly`, else left in the input field; with the notification sound.
pub fn chatbox_packet(text: &str, send_directly: bool) -> (r: Vec<u8>)
    ensures
        r@ == osc_message_bytes(chatbox_address(), text@, send_directly, true),
{
    let addr = String::from_str("/chatbox/input");
    proof {
        reveal_strlit("/chatbox/input");
        assert(addr@ =~= chatbox_address());
    }
    match encode_osc_message(addr, text.to_owned(), send_directly, true) {
        Ok(bytes) => bytes,
        Err(_) => Vec::new(),
    }
}

/// How a finished conversion is delivered.
pub enum Delivery {
    /// Put this text on the clipboard.
    Clipboard(String),
    /// Send these bytes to the OSC port of the chat client.
    Chatbox(Vec<u8>),
}

/// Whether setting the clipboard is tried again after it failed for the
/// `failed_attempts`-th time: at most six attempts are made.
pub fn should_retry_clipboard(failed_attempts: u32) -> (r: bool)
    ensures
        r == (failed_attempts <= 5),
{
    failed_attempts <= 5
}

/// What to do about a changed clipboard.
pub enum ClipboardAction {
    /// Nothing.
    Ignore,
    /// Convert this text block by block, then call `finish_conversion`.
    Convert(String),
    /// Reconvert this text with `tsf_conversion`, then call `finish_reconversion`.
    Reconvert(String),
}

pub enum ActionView {
    Ignore,
    Convert(Seq<char>),
    Reconvert(Seq<char>),
}

impl ClipboardAction {
    pub open spec fn view(&self) -> ActionView {
        match self {
            ClipboardAction::Ignore => ActionView::Ignore,
            ClipboardAction::Convert(s) => ActionView::Convert(s@),
            ClipboardAction::Reconvert(s) => ActionView::Reconvert(s@),
        }
    }
}

/// The longest text, in characters, that is reconverted.
pub open spec fn max_reconversion_len() -> nat {
    140
}

/// The decision on a changed clipboard and the remembered text afterwards.
/// A copy made outside the game is skipped when so configured. With
/// reconversion on, every text of at most 140 characters that is not a web
/// address (when those are skipped) is reconverted. Otherwise a text equal
/// to the remembered one is left alone; a text that carries the prefix (or
/// any text, when the prefix is ignored) is converted, without its first
/// character when the prefix is not ignored, unless it is a web address
/// that is to be skipped; any other text is only remembered.
pub open spec fn spec_clipboard_action(config: Config, last_text: Seq<char>, has_owner: bool, contents: Option<Seq<char>>) -> (ActionView, Seq<char>) {
    if config.skip_on_out_of_vrc && has_owner {
        (ActionView::Ignore, last_text)
    } else {
        match contents {
            None => (ActionView::Ignore, last_text),
            Some(c) => if config.use_tsf_reconvert {
                if c.len() > max_reconversion_len() {
                    (ActionView::Ignore, last_text)
                } else if config.skip_url && url_found(c) {
                    (ActionView::Ignore, last_text)
                } else {
                    (ActionView::Reconvert(c), last_text)
                }
            } else if c != last_text {
                if is_prefix(config.prefix@, c) || config.ignore_prefix {
                    if config.skip_url && url_found(c) {
                        (ActionView::Ignore, last_text)
                    } else if config.ignore_prefix {
                        (ActionView::Convert(c), last_text)
                    } else {
                        (ActionView::Convert(c.drop_first()), last_text)
                    }
                } else {
                    (ActionView::Ignore, c)
                }
            } else {
                (ActionView::Ignore, last_text)
            },
        }
    }
}

/// The inputs on which the decision is defined: the web address pattern
/// compiles wherever it is used, and a prefix that is removed (as a single
/// byte) is an ASCII character.
pub open spec fn clipboard_change_defined(config: Config, last_text: Seq<char>, has_owner: bool, contents: Option<Seq<char>>) -> bool {
    match contents {
        None => true,
        Some(c) => !(config.skip_on_out_of_vrc && has_owner) ==> {
            &&& config.use_tsf_reconvert ==> (c.len() <= max_reconversion_len() && config.skip_url
                ==> regex_valid(URL_PATTERN@))
            &&& (!config.use_tsf_reconvert && c != last_text && (is_prefix(config.prefix@, c)
                || config.ignore_prefix)) ==> {
                &&& config.skip_url ==> regex_valid(URL_PATTERN@)
                &&& (!(config.skip_url && url_found(c)) && !config.ignore_prefix) ==> (c.len() > 0
                    && is_ascii_char(c[0]))
            }
        },
    }
}

/// What a failed conversion shows in place of the converted text.
pub open spec fn error_text(message: Seq<char>) -> Seq<char> {
    seq!['E', 'r', 'r', 'o', 'r', ':', ' '] + message
}

/// The clipboard side of the input helper: the block conversion, the
/// reconversion state (made when first needed) and the last text seen.
pub struct ConversionHandler {
    pub conversion: Conversion,
    pub tsf_conversion: Option<TsfConversion>,
    pub last_text: String,
}

impl ConversionHandler {
    pub fn new(config: Config) -> (r: Self)
        ensures
            r.conversion.config == config,
            r.tsf_conversion is None,
            r.last_text@ == Seq::<char>::empty(),
    {
        ConversionHandler {
            conversion: Conversion::new(config),
            tsf_conversion: None,
            last_text: String::new(),
        }
    }

    /// The settings in use.
    pub fn get_config(&self) -> (r: Config)
        ensures
            r == self.conversion.config,
    {
        self.conversion.get_config()
    }

    /// Replaces the settings.
    pub fn set_config(&mut self, config: Config)
        ensures
            final(self).conversion.config == config,
            final(self).tsf_conversion == old(self).tsf_conversion,
            final(self).last_text == old(self).last_text,
    {
        self.conversion.config = config;
    }

    /// Decides what to do about a changed clipboard (see
    /// `spec_clipboard_action`). `has_owner` tells whether the clipboard has
    /// an owner window, which a copy made inside the game has not;
    /// `contents` is the clipboard's text, if it could be read. A text to be
    /// reconverted finds the reconversion state made if it was not there.
    pub fn on_clipboard_change(&mut self, has_owner: bool, contents: Option<String>) -> (r: ClipboardAction)
        requires
            clipboard_change_defined(
                old(self).conversion.config,
                old(self).last_text@,
                has_owner,
                match contents {
                    Some(c) => Some(c@),
                    None => None,
                },
            ),
            old(self).tsf_conversion matches Some(t) ==> t.inv(),
        ensures
            (r.view(), final(self).last_text@) == spec_clipboard_action(
                old(self).conversion.config,
                old(self).last_text@,
                has_owner,
                match contents {
                    Some(c) => Some(c@),
                    None => None,
                },
            ),
            final(self).conversion.config == old(self).conversion.config,
            r is Reconvert ==> final(self).tsf_conversion is Some,
            (old(self).tsf_conversion is Some || !(r is Reconvert)) ==> final(self).tsf_conversion
                == old(self).tsf_conversion,
            (old(self).tsf_conversion is None && r is Reconvert) ==> final(self).tsf_conversion->0.model()
                == TsfConversion::new_model(),
            final(self).tsf_conversion matches Some(t) ==> t.inv(),
    {
        let config = &self.conversion.config;
        if config.skip_on_out_of_vrc && has_owner {
            return ClipboardAction::Ignore;
        }
        let contents = match contents {
            Some(c) => c,
            None => {
                return ClipboardAction::Ignore;
            },
        };
        if config.use_tsf_reconvert {
            let chars = chars_of(contents.as_str());
            if chars.len() > 140 {
                return ClipboardAction::Ignore;
            }
            if config.skip_url && contains_url(contents.as_str()) {
                return ClipboardAction::Ignore;
            }
            if self.tsf_conversion.is_none() {
                self.tsf_conversion = Some(TsfConversion::new());
            }
            return ClipboardAction::Reconvert(contents);
        }
        let chars = chars_of(contents.as_str());
        let last = chars_of(self.last_text.as_str());
        if chars_equal(&chars, &last) {
            return ClipboardAction::Ignore;
        }
        let prefix = chars_of(config.prefix.as_str());
        if is_prefix_exec(&prefix, &chars) || config.ignore_prefix {
            if config.skip_url && contains_url(contents.as_str()) {
                return ClipboardAction::Ignore;
            }
            if config.ignore_prefix {
                ClipboardAction::Convert(contents)
            } else {
                let parsed = string_of(&chars, 1, chars.len());
                assert(chars@.subrange(1, chars@.len() as int) =~= chars@.drop_first());
                ClipboardAction::Convert(parsed)
            }
        } else {
            self.last_text = contents;
            ClipboardAction::Ignore
        }
    }

    /// Like `on_clipboard_change`, on any input: `None` where the decision is
    /// not defined (the address pattern does not compile, or the prefix to
    /// remove is not an ASCII character), and then nothing changes.
    pub fn try_on_clipboard_change(&mut self, has_owner: bool, contents: Option<String>) -> (r: Option<ClipboardAction>)
        requires
            old(self).tsf_conversion matches Some(t) ==> t.inv(),
        ensures
            ({
                let cv = match contents {
                    Some(c) => Some(c@),
                    None => None,
                };
                if clipboard_change_defined(old(self).conversion.config, old(self).last_text@, has_owner, cv) {
                    r matches Some(a) && (a.view(), final(self).last_text@) == spec_clipboard_action(
                        old(self).conversion.config,
                        old(self).last_text@,
                        has_owner,
                        cv,
                    )
                } else {
                    &&& r is None
                    &&& final(self).last_text == old(self).last_text
                    &&& final(self).tsf_conversion == old(self).tsf_conversion
                }
            }),
            final(self).conversion.config == old(self).conversion.config,
            final(self).tsf_conversion matches Some(t) ==> t.inv(),
    {
        let defined = match &contents {
            None => true,
            Some(c) => {
                let config = &self.conversion.config;
                if config.skip_on_out_of_vrc && has_owner {
                    true
                } else {
                    let chars = chars_of(c.as_str());
                    let url_ok = !config.skip_url || url_pattern_compiles();
                    if config.use_tsf_reconvert {
                        chars.len() > 140 || url_ok
                    } else {
                        let last = chars_of(self.last_text.as_str());
                        let prefix = chars_of(config.prefix.as_str());
                        if !chars_equal(&chars, &last) && (is_prefix_exec(&prefix, &chars)
                            || config.ignore_prefix) {
                            if !url_ok {
                                false
                            } else if (config.skip_url && contains_url(c.as_str()))
                                || config.ignore_prefix {
                                true
                            } else {
                                chars.len() > 0 && char_is_ascii(chars[0])
                            }
                        } else {
                            true
                        }
                    }
                }
            },
        };
        if defined {
            Some(self.on_clipboard_change(has_owner, contents))
        } else {
            None
        }
    }

    /// Takes the result of converting the text of a `Convert` action: the
    /// converted text, or `Error: ` and the error message. The text shown is
    /// remembered, so that the copy it causes is not converted again.
    pub fn finish_conversion(&mut self, result: Result<String, String>) -> (r: String)
        ensures
            r@ == match result_view(result) {
                Ok(s) => s,
                Err(e) => error_text(e),
            },
            final(self).last_text@ == r@,
            final(self).conversion == old(self).conversion,
            final(self).tsf_conversion == old(self).tsf_conversion,
    {
        let converted = match result {
            Ok(s) => s,
            Err(e) => {
                let mut t = String::from_str("Error: ");
                proof {
                    reveal_strlit("Error: ");
                }
                t.append(e.as_str());
                assert(t@ =~= error_text(e@));
                t
            },
        };
        self.last_text = converted.clone();
        converted
    }

    /// Takes the result of reconverting `contents`: on success the copied
    /// text is remembered and the result is to be delivered.
    pub fn finish_reconversion(&mut self, contents: &str, result: Result<String, String>) -> (r: Result<String, String>)
        ensures
            r == result,
            result is Ok ==> final(self).last_text@ == contents@,
            result is Err ==> final(self).last_text == old(self).last_text,
            final(self).conversion == old(self).conversion,
            final(self).tsf_conversion == old(self).tsf_conversion,
    {
        if result.is_ok() {
            self.last_text = contents.to_owned();
        }
        result
    }

    /// How `converted` is delivered under the configured mode: put back on
    /// the clipboard, or sent to the chatbox (at once for `SendDirectly`).
    pub fn delivery(&self, converted: &str) -> (r: Delivery)
        ensures
            match self.conversion.config.on_copy_mode {
                OnCopyMode::ReturnToClipboard => r matches Delivery::Clipboard(s) && s@ == converted@,
                OnCopyMode::ReturnToChatbox => r matches Delivery::Chatbox(b) && b@ == osc_message_bytes(
                    chatbox_address(),
                    converted@,
                    false,
                    true,
                ),
                OnCopyMode::SendDirectly => r matches Delivery::Chatbox(b) && b@ == osc_message_bytes(
                    chatbox_address(),
                    converted@,
                    true,
                    true,
                ),
            },
    {
        match self.conversion.config.on_copy_mode {
            OnCopyMode::ReturnToClipboard => Delivery::Clipboard(converted.to_owned()),
            OnCopyMode::ReturnToChatbox => Delivery::Chatbox(chatbox_packet(converted, false)),
            OnCopyMode::SendDirectly => Delivery::Chatbox(chatbox_packet(converted, true)),
        }
    }
}


} // verus!

verus! {

/// The converted text that the helper puts on the clipboard is remembered,
/// so when the clipboard reports it, it is not converted again.
pub proof fn law_own_output_not_converted_again(config: Config, converted: Seq<char>, has_owner: bool)
    requires
        !config.use_tsf_reconvert,
    ensures
        spec_clipboard_action(config, converted, has_owner, Some(converted)) == (
            ActionView::Ignore,
            converted,
        ),
{
}

proof fn lemma_osc_string_aligned(bytes: Seq<u8>)
    ensures
        osc_string(bytes).len() % 4 == 0,
        osc_string(bytes).len() > bytes.len(),
{
    let n = bytes.len() as int;
    assert((n + (4 - n % 4)) % 4 == 0) by (nonlinear_arith);
}

/// Every OSC message that the helper sends is a whole number of four-byte words.
pub proof fn law_osc_message_aligned(addr: Seq<char>, text: Seq<char>, first: bool, second: bool)
    ensures
        osc_message_bytes(addr, text, first, second).len() % 4 == 0,
{
    let a = osc_string(encode_utf8(addr));
    let b = osc_string(seq![0x2cu8, 0x73u8, osc_bool_tag(first), osc_bool_tag(second)]);
    let c = osc_string(encode_utf8(text));
    lemma_osc_string_aligned(encode_utf8(addr));
    lemma_osc_string_aligned(seq![0x2cu8, 0x73u8, osc_bool_tag(first), osc_bool_tag(second)]);
    lemma_osc_string_aligned(encode_utf8(text));
    let (x, y, z) = (a.len() as int, b.len() as int, c.len() as int);
    assert(x % 4 == 0 && y % 4 == 0 && z % 4 == 0 ==> (x + y + z) % 4 == 0) by (nonlinear_arith);
}

} // verus!

verus! {

/// With the prefix ignored, a copied text that is converted is handed over
/// whole, whether or not it starts with the prefix; with the prefix
/// required, the text must start with it and is handed over without its
/// first character, which is the prefix's first character.
pub proof fn law_converted_text_handed_over(config: Config, last_text: Seq<char>, has_owner: bool, c: Seq<char>)
    requires
        !config.use_tsf_reconvert,
        !(config.skip_on_out_of_vrc && has_owner),
        c != last_text,
        !(config.skip_url && url_found(c)),
    ensures
        config.ignore_prefix ==> spec_clipboard_action(config, last_text, has_owner, Some(c)).0
            == ActionView::Convert(c),
        (!config.ignore_prefix && is_prefix(config.prefix@, c) && config.prefix@.len() > 0) ==> ({
            let a = spec_clipboard_action(config, last_text, has_owner, Some(c)).0;
            &&& a matches ActionView::Convert(h)
            &&& seq![config.prefix@[0]] + a->Convert_0 == c
        }),
        (!config.ignore_prefix && !is_prefix(config.prefix@, c)) ==> spec_clipboard_action(
            config,
            last_text,
            has_owner,
            Some(c),
        ) == (ActionView::Ignore, c),
{
    if !config.ignore_prefix && is_prefix(config.prefix@, c) && config.prefix@.len() > 0 {
        assert(c[0] == c.subrange(0, config.prefix@.len() as int)[0]);
        assert(seq![c[0]] + c.drop_first() =~= c);
    }
}

} // verus!
