use vstd::prelude::*;

use crate::config::{Config, Grammar};
use crate::error::{SetupErrorKind, SudachiError, SudachiResult};
use crate::input_text::Utf8InputText;
use crate::node::{Node, WordInfo};
use crate::oov::OovProviderPlugin;
use crate::settings::{
    i64_setting, is_conn_id, is_cost, pos_id_of, read_i64, read_string_list, resolve_pos,
    string_list_setting,
};

verus! {

/// Fallback plugin: where nothing else matched, the single character at the
/// offset becomes an unknown word of a configured part of speech.
#[derive(Debug, Clone, Copy, PartialEq, Eq, Structural)]
pub struct SimpleOovPlugin {
    pub left_id: u16,
    pub right_id: u16,
    pub cost: i16,
    pub oov_pos_id: u16,
}

impl Default for SimpleOovPlugin {
    fn default() -> (r: Self)
        ensures
            r == (SimpleOovPlugin { left_id: 0, right_id: 0, cost: 0, oov_pos_id: 0 }),
    {
        SimpleOovPlugin { left_id: 0, right_id: 0, cost: 0, oov_pos_id: 0 }
    }
}

impl SimpleOovPlugin {
    /// The one node produced at `offset`: the character there, with this
    /// plugin's ids, cost and part of speech.
    pub open spec fn char_node(self, input_text: Utf8InputText, offset: usize) -> Node {
        Node {
            begin: 0,
            end: 0,
            left_id: self.left_id,
            right_id: self.right_id,
            cost: self.cost,
            word_info: Some(
                WordInfo {
                    head_word_length: input_text.char_len_at(offset as int) as u16,
                    pos_id: self.oov_pos_id,
                },
            ),
        }
    }

    /// A plugin from settings values: the part of speech is looked up in the
    /// grammar, ids must fit `u16` and the cost `i16`.
    pub fn configure(oov_pos: &Vec<String>, left_id: i64, right_id: i64, cost: i64, grammar: &Grammar)
        -> (r: SudachiResult<SimpleOovPlugin>)
        ensures
            r == simple_config(oov_pos.deep_view(), left_id, right_id, cost, *grammar),
    {
        if !(0 <= left_id && left_id <= 0xffff && 0 <= right_id && right_id <= 0xffff && -0x8000
            <= cost && cost <= 0x7fff) {
            return Err(SudachiError::Setup(SetupErrorKind::InvalidField));
        }
        let oov_pos_id = match resolve_pos(grammar, oov_pos) {
            Ok(id) => id,
            Err(e) => return Err(e),
        };
        Ok(
            SimpleOovPlugin {
                left_id: left_id as u16,
                right_id: right_id as u16,
                cost: cost as i16,
                oov_pos_id,
            },
        )
    }
}

/// The plugin made from settings values: ids must fit `u16`, the cost `i16`,
/// and the part of speech must be in the grammar.
pub open spec fn simple_config(
    oov_pos: Seq<Seq<char>>,
    left_id: i64,
    right_id: i64,
    cost: i64,
    grammar: Grammar,
) -> SudachiResult<SimpleOovPlugin> {
    if !(is_conn_id(left_id) && is_conn_id(right_id) && is_cost(cost)) {
        Err(SudachiError::Setup(SetupErrorKind::InvalidField))
    } else {
        match pos_id_of(grammar, oov_pos) {
            None => Err(SudachiError::Setup(SetupErrorKind::UnknownPartOfSpeech)),
            Some(id) => Ok(
                SimpleOovPlugin {
                    left_id: left_id as u16,
                    right_id: right_id as u16,
                    cost: cost as i16,
                    oov_pos_id: id,
                },
            ),
        }
    }
}

/// The plugin that the settings `oovPOS`, `leftId`, `rightId` and `cost`
/// describe; the first setting that cannot be read decides the error.
pub open spec fn simple_settings(settings: serde_json::Value, grammar: Grammar) -> SudachiResult<
    SimpleOovPlugin,
> {
    match string_list_setting(settings, "oovPOS"@) {
        Err(e) => Err(e),
        Ok(pos) => match i64_setting(settings, "leftId"@) {
            Err(e) => Err(e),
            Ok(left_id) => match i64_setting(settings, "rightId"@) {
                Err(e) => Err(e),
                Ok(right_id) => match i64_setting(settings, "cost"@) {
                    Err(e) => Err(e),
                    Ok(cost) => simple_config(pos, left_id, right_id, cost, grammar),
                },
            },
        },
    }
}

impl OovProviderPlugin for SimpleOovPlugin {
    open spec fn provided(&self, input_text: Utf8InputText, offset: usize, has_other_words: bool)
        -> SudachiResult<Seq<Node>> {
        if offset >= input_text.spec_len() {
            Err(SudachiError::OffsetOutOfBounds)
        } else if has_other_words {
            Ok(Seq::empty())
        } else {
            Ok(seq![self.char_node(input_text, offset)])
        }
    }

    open spec fn set_up_spec(
        &self,
        settings: serde_json::Value,
        config: Config,
        grammar: Grammar,
        after: Self,
        r: SudachiResult<()>,
    ) -> bool {
        match simple_settings(settings, grammar) {
            Ok(p) => after == p && r == Ok::<(), SudachiError>(()),
            Err(e) => after == *self && r == Err::<(), SudachiError>(e),
        }
    }

    fn set_up(&mut self, settings: &serde_json::Value, _config: &Config, grammar: &Grammar) -> (r:
        SudachiResult<()>) {
        let oov_pos = match read_string_list(settings, "oovPOS") {
            Ok(v) => v,
            Err(e) => return Err(e),
        };
        let left_id = match read_i64(settings, "leftId") {
            Ok(v) => v,
            Err(e) => return Err(e),
        };
        let right_id = match read_i64(settings, "rightId") {
            Ok(v) => v,
            Err(e) => return Err(e),
        };
        let cost = match read_i64(settings, "cost") {
            Ok(v) => v,
            Err(e) => return Err(e),
        };
        match SimpleOovPlugin::configure(&oov_pos, left_id, right_id, cost, grammar) {
            Ok(p) => {
                *self = p;
                Ok(())
            },
            Err(e) => Err(e),
        }
    }

    fn provide_oov(&self, input_text: &Utf8InputText, offset: usize, has_other_words: bool) -> (r:
        SudachiResult<Vec<Node>>) {
        if offset >= input_text.len() {
            return Err(SudachiError::OffsetOutOfBounds);
        }
        if has_other_words {
            return Ok(Vec::new());
        }
        let length = input_text.char_len(offset);
        let info = WordInfo { head_word_length: length as u16, pos_id: self.oov_pos_id };
        let node = Node::new_oov(self.left_id, self.right_id, self.cost, info);
        let nodes = vec![node];
        assert(nodes@ =~= seq![self.char_node(*input_text, offset)]);
        Ok(nodes)
    }
}

} // verus!
