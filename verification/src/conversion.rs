//! Splitting of a typed text into blocks, each with its converter, and the
//! assembly of the converted blocks into the final text.
use vstd::prelude::*;
use crate::config::Config;
use crate::converter::{
    law_code_selects_named_converter, spec_custom_converter, calculator_output, converter_for, converter_or_none, result_view, CalculatorConverter,
    Converter, NoneConverter,
};
use crate::text::{
    char_is_ascii, char_vecs_view, chars_of, chars_range, is_ascii_char, is_prefix, is_prefix_exec,
    contains, join, law_join_undoes_split, law_pieces_hold_no_separator, law_split_without_separator, occurs_at, split_chars, split_on,
    string_of,
};

verus! {

/// A piece of text and the converter it is handed to.
pub struct ConversionBlock {
    pub text: String,
    pub converter: Converter,
}

impl ConversionBlock {
    /// Whether the block is handed to a converter outside the library.
    pub fn needs_outside_converter(&self) -> (r: bool)
        ensures
            r == needs_outside_converter(self@),
    {
        !self.text.as_str().is_empty() && self.converter.is_external_exec()
    }
}

impl View for ConversionBlock {
    type V = (Converter, Seq<char>);

    open spec fn view(&self) -> (Converter, Seq<char>) {
        (self.converter, self.text@)
    }
}

/// The contents of a sequence of blocks.
pub open spec fn blocks_view(blocks: Seq<ConversionBlock>) -> Seq<(Converter, Seq<char>)> {
    blocks.map_values(|b: ConversionBlock| b@)
}

/// Whether `text` starts with the command marker.
pub open spec fn starts_with_command(text: Seq<char>, command: Seq<char>) -> bool {
    is_prefix(command, text)
}

/// The code of the converter that the text starts with: the character
/// right after a leading command marker, else `r` (roman to kanji).
pub open spec fn initial_code(text: Seq<char>, command: Seq<char>) -> char {
    if starts_with_command(text, command) && text.len() > 1 {
        text[1]
    } else {
        'r'
    }
}

/// The text once a leading command marker and the code after it are removed.
/// Only the first character of the marker is removed, as a single byte.
pub open spec fn text_after_head(text: Seq<char>, command: Seq<char>) -> Seq<char> {
    if starts_with_command(text, command) {
        if text.len() > 1 {
            text.skip(2)
        } else {
            Seq::empty()
        }
    } else {
        text
    }
}

/// The pieces of the text between command markers.
pub open spec fn command_pieces(text: Seq<char>, command: Seq<char>) -> Seq<Seq<char>> {
    split_on(text_after_head(text, command), command)
}

/// Each piece with the code of the converter in force for it. The first
/// piece keeps `current`; every later non-empty piece starts with a new
/// code, which is taken off; an empty piece keeps the code in force.
pub open spec fn tag_pieces(pieces: Seq<Seq<char>>, current: char, first: bool) -> Seq<(char, Seq<char>)>
    decreases pieces.len(),
{
    if pieces.len() == 0 {
        Seq::empty()
    } else {
        let p = pieces[0];
        let code = if !first && p.len() > 0 { p[0] } else { current };
        let body = if !first && p.len() > 0 { p.drop_first() } else { p };
        seq![(code, body)] + tag_pieces(pieces.drop_first(), code, false)
    }
}

/// The blocks of one tagged piece: the piece split at the split marker,
/// each part with the converter of the piece's code.
pub open spec fn piece_blocks(tagged: (char, Seq<char>), split: Seq<char>) -> Seq<(Converter, Seq<char>)> {
    split_on(tagged.1, split).map_values(|t: Seq<char>| (converter_for(tagged.0), t))
}

pub open spec fn blocks_of_pieces(tagged: Seq<(char, Seq<char>)>, split: Seq<char>) -> Seq<(Converter, Seq<char>)>
    decreases tagged.len(),
{
    if tagged.len() == 0 {
        Seq::empty()
    } else {
        piece_blocks(tagged[0], split) + blocks_of_pieces(tagged.drop_first(), split)
    }
}

/// The blocks that `text` is split into, with the given command and split markers.
pub open spec fn spec_split_text(text: Seq<char>, command: Seq<char>, split: Seq<char>) -> Seq<(Converter, Seq<char>)> {
    blocks_of_pieces(
        tag_pieces(command_pieces(text, command), initial_code(text, command), true),
        split,
    )
}

/// The texts on which splitting is defined: every character that is removed
/// as a single byte (the marker's first character, and each converter code)
/// is ASCII, and a text that starts with an empty marker is not empty.
pub open spec fn split_text_accepts(text: Seq<char>, command: Seq<char>) -> bool {
    &&& starts_with_command(text, command) ==> {
        &&& text.len() > 0
        &&& is_ascii_char(text[0])
        &&& text.len() > 1 ==> is_ascii_char(text[1])
    }
    &&& forall|k: int|
        1 <= k < command_pieces(text, command).len() && #[trigger] command_pieces(
            text,
            command,
        )[k].len() > 0 ==> is_ascii_char(command_pieces(text, command)[k][0])
}

/// What a block becomes, given the answer of its outside converter (used
/// only where the converter is outside the library): an empty block stays
/// empty, `NoneConverter` keeps the text, the calculator shows
/// `text = value` or the error message, the others give their answer.
pub open spec fn spec_convert_block(block: (Converter, Seq<char>), answer: Result<Seq<char>, Seq<char>>) -> Result<Seq<char>, Seq<char>> {
    if block.1.len() == 0 {
        Ok(Seq::empty())
    } else {
        match block.0 {
            Converter::Unchanged(_) => Ok(block.1),
            Converter::Calculator(_) => Ok(calculator_output(block.1, answer)),
            _ => answer,
        }
    }
}

/// Whether a block is handed to a converter outside the library.
pub open spec fn needs_outside_converter(block: (Converter, Seq<char>)) -> bool {
    block.1.len() > 0 && block.0.is_external()
}

/// The blocks converted in order and joined; the first failing block's error otherwise.
pub open spec fn spec_convert_blocks(blocks: Seq<(Converter, Seq<char>)>, answers: Seq<Result<Seq<char>, Seq<char>>>) -> Result<Seq<char>, Seq<char>>
    decreases blocks.len(),
{
    if blocks.len() == 0 {
        Ok(Seq::empty())
    } else {
        match spec_convert_block(blocks[0], answers[0]) {
            Err(e) => Err(e),
            Ok(s) => match spec_convert_blocks(blocks.drop_first(), answers.drop_first()) {
                Ok(t) => Ok(s + t),
                Err(e) => Err(e),
            },
        }
    }
}

pub open spec fn results_view(rs: Seq<Result<String, String>>) -> Seq<Result<Seq<char>, Seq<char>>> {
    rs.map_values(|r: Result<String, String>| result_view(r))
}

/// Converts typed text block by block, with the settings it was made with.
pub struct Conversion {
    pub config: Config,
}

impl Conversion {
    pub fn new(config: Config) -> (r: Self)
        ensures
            r.config == config,
    {
        Conversion { config }
    }

    /// The settings in use.
    pub fn get_config(&self) -> (r: Config)
        ensures
            r == self.config,
    {
        self.config.duplicate()
    }

    /// Splits `text` into blocks. A leading command marker followed by a
    /// code selects the first converter (roman to kanji otherwise); each
    /// later command marker is followed by the code of the converter for the
    /// text after it; the split marker separates blocks that keep the
    /// converter in force. An unknown code selects `NoneConverter`.
    pub fn split_text(&self, text: &str) -> (r: Result<Vec<ConversionBlock>, String>)
        requires
            split_text_accepts(text@, self.config.command@),
        ensures
            r is Ok,
            r matches Ok(blocks) ==> blocks_view(blocks@) == spec_split_text(
                text@,
                self.config.command@,
                self.config.split@,
            ),
    {
        let chars = chars_of(text);
        let command = chars_of(self.config.command.as_str());
        let split = chars_of(self.config.split.as_str());
        let ghost total = spec_split_text(text@, command@, split@);
        let mut current: char = 'r';
        let mut start: usize = 0;
        if is_prefix_exec(&command, &chars) {
            if chars.len() > 1 {
                current = chars[1];
                start = 2;
            } else {
                start = 1;
            }
        }
        let body = chars_range(&chars, start, chars.len());
        assert(body@ =~= text_after_head(text@, command@));
        let pieces = split_chars(&body, &command);
        let ghost pv = char_vecs_view(pieces@);
        assert(pv.skip(0) =~= pv);
        let mut blocks: Vec<ConversionBlock> = Vec::new();
        let mut i: usize = 0;
        while i < pieces.len()
            invariant
                i <= pieces.len(),
                pv == char_vecs_view(pieces@),
                pv == command_pieces(text@, command@),
                split_text_accepts(text@, command@),
                total == spec_split_text(text@, command@, split@),
                i == 0 ==> current == initial_code(text@, command@),
                blocks_view(blocks@) + blocks_of_pieces(
                    tag_pieces(pv.skip(i as int), current, i == 0),
                    split@,
                ) == total,
            decreases pieces.len() - i,
        {
            let piece = &pieces[i];
            let ghost rest = pv.skip(i as int);
            let ghost first = i == 0;
            let ghost tagged = tag_pieces(rest, current, first);
            assert(rest[0] == piece@);
            let mut from: usize = 0;
            if i != 0 && piece.len() > 0 {
                assert(is_ascii_char(pv[i as int][0]));
                current = piece[0];
                from = 1;
            }
            let part = chars_range(piece, from, piece.len());
            assert(part@ =~= tagged[0].1) by {
                if !first && piece@.len() > 0 {
                    assert(piece@.drop_first() =~= piece@.subrange(1, piece@.len() as int));
                } else {
                    assert(piece@ =~= piece@.subrange(0, piece@.len() as int));
                }
            }
            assert(tagged[0].0 == current);
            let subs = split_chars(&part, &split);
            let conv = converter_or_none(current);
            let ghost before = blocks_view(blocks@);
            let ghost sv = char_vecs_view(subs@);
            let mut j: usize = 0;
            while j < subs.len()
                invariant
                    j <= subs.len(),
                    sv == char_vecs_view(subs@),
                    sv == split_on(part@, split@),
                    conv == converter_for(current),
                    blocks_view(blocks@) == before + sv.take(j as int).map_values(
                        |t: Seq<char>| (conv, t),
                    ),
                decreases subs.len() - j,
            {
                let s = string_of(&subs[j], 0, subs[j].len());
                assert(subs@[j as int]@.subrange(0, subs@[j as int]@.len() as int) =~= sv[j as int]);
                let ghost bv = blocks_view(blocks@);
                blocks.push(ConversionBlock { text: s, converter: conv });
                assert(blocks_view(blocks@) =~= bv.push((conv, sv[j as int])));
                assert(sv.take(j + 1) =~= sv.take(j as int).push(sv[j as int]));
                assert(sv.take(j + 1).map_values(|t: Seq<char>| (conv, t)) =~= sv.take(
                    j as int,
                ).map_values(|t: Seq<char>| (conv, t)).push((conv, sv[j as int])));
                assert(blocks_view(blocks@) =~= before + sv.take(j + 1).map_values(
                    |t: Seq<char>| (conv, t),
                ));
                j = j + 1;
            }
            assert(sv.take(j as int) =~= sv);
            assert(blocks_view(blocks@) == before + piece_blocks(tagged[0], split@));
            assert(rest.drop_first() =~= pv.skip(i + 1));
            assert(tagged.drop_first() == tag_pieces(pv.skip(i + 1), current, false)) by {
                assert((seq![tagged[0]] + tag_pieces(rest.drop_first(), current, false)).drop_first()
                    =~= tag_pieces(rest.drop_first(), current, false));
            }
            i = i + 1;
        }
        assert(pv.skip(i as int) =~= Seq::<Seq<char>>::empty());
        assert(blocks_view(blocks@) =~= total);
        Ok(blocks)
    }

    /// Whether `split_text` is defined on `text` (see `split_text_accepts`).
    pub fn can_split(&self, text: &str) -> (r: bool)
        ensures
            r == split_text_accepts(text@, self.config.command@),
    {
        let chars = chars_of(text);
        let command = chars_of(self.config.command.as_str());
        let mut start: usize = 0;
        if is_prefix_exec(&command, &chars) {
            if chars.len() == 0 || !char_is_ascii(chars[0]) {
                return false;
            }
            if chars.len() > 1 {
                if !char_is_ascii(chars[1]) {
                    return false;
                }
                start = 2;
            } else {
                start = 1;
            }
        }
        let body = chars_range(&chars, start, chars.len());
        assert(body@ =~= text_after_head(text@, command@));
        let pieces = split_chars(&body, &command);
        let ghost pv = char_vecs_view(pieces@);
        let mut k: usize = 1;
        while k < pieces.len()
            invariant
                1 <= k,
                command@ == self.config.command@,
                pv == char_vecs_view(pieces@),
                pv == command_pieces(text@, command@),
                forall|j: int| 1 <= j < k && j < pv.len() && pv[j].len() > 0 ==> is_ascii_char(pv[j][0]),
            decreases pieces.len() - k,
        {
            if pieces[k].len() > 0 && !char_is_ascii(pieces[k][0]) {
                assert(command_pieces(text@, command@)[k as int].len() > 0);
                assert(!is_ascii_char(command_pieces(text@, command@)[k as int][0]));
                return false;
            }
            k = k + 1;
        }
        true
    }

    /// Converts one block, given the answer of its outside converter (only
    /// looked at for a non-empty block whose converter is outside the
    /// library; for the calculator it is the evaluation of the expression).
    pub fn convert_block(&self, block: &ConversionBlock, answer: Result<String, String>) -> (r: Result<String, String>)
        ensures
            result_view(r) == spec_convert_block(block@, result_view(answer)),
    {
        if block.text.as_str().is_empty() {
            return Ok(String::default());
        }
        match block.converter {
            Converter::Unchanged(c) => c.convert(block.text.as_str()),
            Converter::Calculator(c) => c.convert(block.text.as_str(), answer),
            _ => answer,
        }
    }

    /// Converts the blocks in order and joins the results; stops at the
    /// first block whose conversion fails and returns its error.
    /// `answers[i]` is the answer of the outside converter for `blocks[i]`.
    pub fn convert_blocks(&self, blocks: &Vec<ConversionBlock>, answers: &Vec<Result<String, String>>) -> (r: Result<String, String>)
        requires
            answers.len() == blocks.len(),
        ensures
            result_view(r) == spec_convert_blocks(blocks_view(blocks@), results_view(answers@)),
    {
        let ghost bv = blocks_view(blocks@);
        let ghost av = results_view(answers@);
        let mut result = String::new();
        let mut i: usize = 0;
        assert(bv.skip(0) =~= bv);
        assert(av.skip(0) =~= av);
        while i < blocks.len()
            invariant
                i <= blocks.len() == answers.len(),
                bv == blocks_view(blocks@),
                av == results_view(answers@),
                spec_convert_blocks(bv, av) == match spec_convert_blocks(
                    bv.skip(i as int),
                    av.skip(i as int),
                ) {
                    Ok(t) => Ok(result@ + t),
                    Err(e) => Err(e),
                },
            decreases blocks.len() - i,
        {
            let answer = copy_result(&answers[i]);
            let converted = self.convert_block(&blocks[i], answer);
            assert(bv.skip(i as int).drop_first() =~= bv.skip(i + 1));
            assert(av.skip(i as int).drop_first() =~= av.skip(i + 1));
            assert(bv.skip(i as int)[0] == blocks@[i as int]@);
            assert(av.skip(i as int)[0] == result_view(answers@[i as int]));
            match converted {
                Err(e) => {
                    return Err(e);
                },
                Ok(s) => {
                    let ghost prev = result@;
                    result.append(s.as_str());
                    assert(forall|t: Seq<char>| prev + s@ + t =~= prev + (s@ + t));
                },
            }
            i = i + 1;
        }
        assert(bv.skip(i as int) =~= Seq::<(Converter, Seq<char>)>::empty());
        assert(result@ + Seq::<char>::empty() =~= result@);
        Ok(result)
    }

    /// Splits `text` into blocks and converts them; `answers[i]` is the
    /// answer of the outside converter for the `i`-th block.
    pub fn convert_text(&self, text: &str, answers: &Vec<Result<String, String>>) -> (r: Result<String, String>)
        requires
            split_text_accepts(text@, self.config.command@),
            answers.len() == spec_split_text(text@, self.config.command@, self.config.split@).len(),
        ensures
            result_view(r) == spec_convert_blocks(
                spec_split_text(text@, self.config.command@, self.config.split@),
                results_view(answers@),
            ),
    {
        match self.split_text(text) {
            Ok(blocks) => self.convert_blocks(&blocks, answers),
            Err(e) => Err(e),
        }
    }
}

/// Whether the conversion of the block fails with the given answer.
pub open spec fn block_fails(block: (Converter, Seq<char>), answer: Result<Seq<char>, Seq<char>>) -> bool {
    spec_convert_block(block, answer) is Err
}

/// Whether block `i` still needs an answer from its outside converter: it
/// needs one, and no earlier block's conversion fails (conversion stops at
/// the first failing block, so later answers are never looked at).
pub open spec fn spec_answer_needed(blocks: Seq<(Converter, Seq<char>)>, answers: Seq<Result<Seq<char>, Seq<char>>>, i: int) -> bool {
    &&& needs_outside_converter(blocks[i])
    &&& forall|j: int| 0 <= j < i ==> !block_fails(#[trigger] blocks[j], answers[j])
}

/// Whether block `i` still needs an answer, given the answers to the blocks
/// before it.
pub fn answer_needed(blocks: &Vec<ConversionBlock>, answers: &Vec<Result<String, String>>, i: usize) -> (r: bool)
    requires
        i < blocks.len(),
        i <= answers.len(),
    ensures
        r == spec_answer_needed(blocks_view(blocks@), results_view(answers@), i as int),
{
    let ghost bv = blocks_view(blocks@);
    let ghost av = results_view(answers@);
    if !blocks[i].needs_outside_converter() {
        return false;
    }
    let mut j: usize = 0;
    while j < i
        invariant
            j <= i < blocks.len(),
            i <= answers.len(),
            bv == blocks_view(blocks@),
            av == results_view(answers@),
            forall|k: int| 0 <= k < j ==> !block_fails(#[trigger] bv[k], av[k]),
        decreases i - j,
    {
        assert(bv[j as int] == blocks@[j as int]@);
        assert(av[j as int] == result_view(answers@[j as int]));
        let is_calculator = match blocks[j].converter {
            Converter::Calculator(_) => true,
            _ => false,
        };
        if blocks[j].needs_outside_converter() && !is_calculator && answers[j].is_err() {
            assert(block_fails(bv[j as int], av[j as int]));
            return false;
        }
        j = j + 1;
    }
    true
}

/// A copy of a textual result.
pub fn copy_result(r: &Result<String, String>) -> (c: Result<String, String>)
    ensures
        c == *r,
{
    match r {
        Ok(s) => Ok(s.clone()),
        Err(e) => Err(e.clone()),
    }
}

} // verus!

verus! {

/// The texts of the blocks, one after the other.
pub open spec fn concat_texts(blocks: Seq<(Converter, Seq<char>)>) -> Seq<char>
    decreases blocks.len(),
{
    if blocks.len() == 0 {
        Seq::empty()
    } else {
        blocks[0].1 + concat_texts(blocks.drop_first())
    }
}

/// When no command marker follows the head of the text, all blocks use the
/// converter of the initial code (roman to kanji unless the text starts with
/// the marker and a code), and joining their texts with the split marker
/// gives the text after the head back.
pub proof fn law_single_converter_without_commands(text: Seq<char>, command: Seq<char>, split: Seq<char>)
    requires
        command.len() > 0,
        forall|k: int| !occurs_at(text_after_head(text, command), command, k),
    ensures
        spec_split_text(text, command, split) == split_on(text_after_head(text, command), split).map_values(
            |t: Seq<char>| (converter_for(initial_code(text, command)), t),
        ),
        join(split_on(text_after_head(text, command), split), split) == text_after_head(text, command),
{
    let body = text_after_head(text, command);
    law_split_without_separator(body, command);
    let code = initial_code(text, command);
    let tagged = tag_pieces(seq![body], code, true);
    assert(seq![body].drop_first() =~= Seq::<Seq<char>>::empty());
    assert(seq![body][0] == body);
    assert(tag_pieces(Seq::<Seq<char>>::empty(), code, false) == Seq::<(char, Seq<char>)>::empty());
    assert(tagged =~= seq![(code, body)]);
    assert(tagged.drop_first() =~= Seq::<(char, Seq<char>)>::empty());
    assert(blocks_of_pieces(Seq::<(char, Seq<char>)>::empty(), split) == Seq::<(Converter, Seq<char>)>::empty());
    assert(blocks_of_pieces(tagged, split) =~= piece_blocks((code, body), split));
    law_join_undoes_split(body, split);
}

/// Blocks that all keep their text convert to their texts one after the
/// other, whatever the answers say.
pub proof fn law_unchanged_blocks_concatenate(blocks: Seq<(Converter, Seq<char>)>, answers: Seq<Result<Seq<char>, Seq<char>>>)
    requires
        forall|i: int| 0 <= i < blocks.len() ==> #[trigger] blocks[i].0 is Unchanged,
    ensures
        spec_convert_blocks(blocks, answers) == Ok::<Seq<char>, Seq<char>>(concat_texts(blocks)),
    decreases blocks.len(),
{
    if blocks.len() > 0 {
        let rest = blocks.drop_first();
        assert forall|i: int| 0 <= i < rest.len() implies #[trigger] rest[i].0 is Unchanged by {
            assert(rest[i] == blocks[i + 1]);
        }
        law_unchanged_blocks_concatenate(rest, answers.drop_first());
        assert(blocks[0].0 is Unchanged);
        if blocks[0].1.len() == 0 {
            assert(Seq::<char>::empty() + concat_texts(rest) =~= concat_texts(rest));
            assert(blocks[0].1 =~= Seq::<char>::empty());
        }
    }
}

/// The answer for a block is looked at only when the block needs a converter
/// outside the library.
pub proof fn law_answer_used_only_when_needed(block: (Converter, Seq<char>), a1: Result<Seq<char>, Seq<char>>, a2: Result<Seq<char>, Seq<char>>)
    requires
        !needs_outside_converter(block),
    ensures
        spec_convert_block(block, a1) == spec_convert_block(block, a2),
{
}

/// The conversion fails exactly when some block fails, and then with the
/// error of the first block that fails.
pub proof fn law_first_failure_wins(blocks: Seq<(Converter, Seq<char>)>, answers: Seq<Result<Seq<char>, Seq<char>>>, k: int)
    requires
        answers.len() == blocks.len(),
        0 <= k < blocks.len(),
        spec_convert_block(blocks[k], answers[k]) is Err,
        forall|j: int| 0 <= j < k ==> #[trigger] spec_convert_block(blocks[j], answers[j]) is Ok,
    ensures
        spec_convert_blocks(blocks, answers) == spec_convert_block(blocks[k], answers[k]),
    decreases k,
{
    if k > 0 {
        let rb = blocks.drop_first();
        let ra = answers.drop_first();
        assert forall|j: int| 0 <= j < k - 1 implies #[trigger] spec_convert_block(rb[j], ra[j]) is Ok by {
            assert(rb[j] == blocks[j + 1]);
            assert(ra[j] == answers[j + 1]);
        }
        assert(spec_convert_block(blocks[0], answers[0]) is Ok);
        law_first_failure_wins(rb, ra, k - 1);
    }
}

} // verus!

verus! {

proof fn lemma_piece_blocks_clean(tagged: Seq<(char, Seq<char>)>, split: Seq<char>)
    requires
        split.len() > 0,
    ensures
        forall|j: int| 0 <= j < blocks_of_pieces(tagged, split).len() ==> !contains(
            #[trigger] blocks_of_pieces(tagged, split)[j].1,
            split,
        ),
    decreases tagged.len(),
{
    if tagged.len() > 0 {
        let first = piece_blocks(tagged[0], split);
        let rest = blocks_of_pieces(tagged.drop_first(), split);
        lemma_piece_blocks_clean(tagged.drop_first(), split);
        law_pieces_hold_no_separator(tagged[0].1, split);
        let all = blocks_of_pieces(tagged, split);
        assert(all == first + rest);
        assert forall|j: int| 0 <= j < all.len() implies !contains(#[trigger] all[j].1, split) by {
            if j < first.len() {
                assert(all[j] == first[j]);
                assert(first[j].1 == split_on(tagged[0].1, split)[j]);
            } else {
                assert(all[j] == rest[j - first.len()]);
            }
        }
    }
}

/// No block's text holds the (non-empty) split marker.
pub proof fn law_blocks_hold_no_split_marker(text: Seq<char>, command: Seq<char>, split: Seq<char>)
    requires
        split.len() > 0,
    ensures
        forall|j: int| 0 <= j < spec_split_text(text, command, split).len() ==> !contains(
            #[trigger] spec_split_text(text, command, split)[j].1,
            split,
        ),
{
    lemma_piece_blocks_clean(
        tag_pieces(command_pieces(text, command), initial_code(text, command), true),
        split,
    );
}

} // verus!

verus! {

/// Splitting depends on the command and split markers alone: two settings
/// with the same markers split every text alike.
pub proof fn law_split_depends_on_markers_only(text: Seq<char>, c1: Config, c2: Config)
    requires
        c1.command@ == c2.command@,
        c1.split@ == c2.split@,
    ensures
        split_text_accepts(text, c1.command@) == split_text_accepts(text, c2.command@),
        spec_split_text(text, c1.command@, c1.split@) == spec_split_text(text, c2.command@, c2.split@),
{
}

} // verus!

verus! {

/// A non-empty block for the input method (roman to kanji, hiragana or
/// katakana) becomes exactly the input method's answer, and differing
/// answers give differing results.
pub proof fn law_input_method_answer_is_result(block: (Converter, Seq<char>), answer: Result<Seq<char>, Seq<char>>, other: Result<Seq<char>, Seq<char>>)
    requires
        block.1.len() > 0,
        block.0 is RomanToKanji || block.0 is Hiragana || block.0 is Katakana,
    ensures
        spec_convert_block(block, answer) == answer,
        answer != other ==> spec_convert_block(block, answer) != spec_convert_block(block, other),
{
}

/// A text that starts with the command marker and a code, and holds no
/// further marker, is converted block by block with the converter that
/// `get_custom_converter` names for that code (`NoneConverter` if none).
pub proof fn law_leading_code_selects_converter(text: Seq<char>, command: Seq<char>, split: Seq<char>, j: int)
    requires
        command.len() > 0,
        is_prefix(command, text),
        text.len() > 1,
        forall|k: int| !occurs_at(text_after_head(text, command), command, k),
        0 <= j < spec_split_text(text, command, split).len(),
    ensures
        spec_custom_converter(text[1]) matches Some(c) ==> spec_split_text(text, command, split)[j].0 == c,
        spec_custom_converter(text[1]) is None ==> spec_split_text(text, command, split)[j].0
            == Converter::Unchanged(NoneConverter),
{
    law_single_converter_without_commands(text, command, split);
    law_code_selects_named_converter(text[1]);
}

} // verus!
