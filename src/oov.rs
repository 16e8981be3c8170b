use vstd::prelude::*;

use crate::config::{Config, Grammar};
use crate::error::SudachiResult;
use crate::input_text::Utf8InputText;
use crate::node::{anchor_all, fits_at, Node};

verus! {

/// A generator of out-of-vocabulary nodes.
///
/// `set_up` runs once, before any generation. After that an instance is only
/// read, so it can be shared by concurrent tokenizations.
pub trait OovProviderPlugin: Sized + Sync + Send {
    /// What `provide_oov` returns for these arguments: generation is a
    /// function of the instance and its three inputs.
    spec fn provided(&self, input_text: Utf8InputText, offset: usize, has_other_words: bool)
        -> SudachiResult<Seq<Node>>;

    /// `set_up` of `self` with these arguments may leave the instance as
    /// `after` and return `r`.
    spec fn set_up_spec(
        &self,
        settings: serde_json::Value,
        config: Config,
        grammar: Grammar,
        after: Self,
        r: SudachiResult<()>,
    ) -> bool;

    /// Loads necessary information for the plugin.
    fn set_up(&mut self, settings: &serde_json::Value, config: &Config, grammar: &Grammar) -> (r:
        SudachiResult<()>)
        ensures
            old(self).set_up_spec(*settings, *config, *grammar, *final(self), r),
    ;

    /// Generates a list of oov nodes. Each carries its word metadata, with a
    /// head word that starts at `offset` and ends within the text; ranges are
    /// left for `get_oov` to fill.
    fn provide_oov(&self, input_text: &Utf8InputText, offset: usize, has_other_words: bool) -> (r:
        SudachiResult<Vec<Node>>)
        requires
            input_text.wf(),
        ensures
            match r {
                Ok(nodes) => self.provided(*input_text, offset, has_other_words) == Ok::<
                    Seq<Node>,
                    crate::error::SudachiError,
                >(nodes@) && fits_at(nodes@, offset, input_text.spec_len()),
                Err(e) => self.provided(*input_text, offset, has_other_words) == Err::<
                    Seq<Node>,
                    crate::error::SudachiError,
                >(e),
            },
    ;

    /// Generates oov nodes and sets the range of each to
    /// `[offset, offset + head word length)`.
    fn get_oov(&self, input_text: &Utf8InputText, offset: usize, has_other_words: bool) -> (r:
        SudachiResult<Vec<Node>>)
        requires
            input_text.wf(),
        ensures
            match self.provided(*input_text, offset, has_other_words) {
                Ok(nodes) => r is Ok && r->Ok_0@ == anchor_all(nodes, offset) && forall|i: int|
                    0 <= i < nodes.len() ==> r->Ok_0@[i].begin == offset && r->Ok_0@[i].end
                        == offset + nodes[i].word_info->Some_0.head_word_length,
                Err(e) => r == Err::<Vec<Node>, crate::error::SudachiError>(e),
            },
    {
        let mut nodes = match self.provide_oov(input_text, offset, has_other_words) {
            Ok(nodes) => nodes,
            Err(e) => return Err(e),
        };
        let ghost provided = nodes@;
        let text_len = input_text.len();
        let mut i: usize = 0;
        while i < nodes.len()
            invariant
                nodes@.len() == provided.len(),
                fits_at(provided, offset, input_text.spec_len()),
                input_text.wf(),
                text_len == input_text.spec_len(),
                forall|j: int| 0 <= j < i ==> nodes@[j] == crate::node::anchored_at(provided[j], offset),
                forall|j: int| i <= j < nodes@.len() ==> nodes@[j] == provided[j],
            decreases nodes@.len() - i,
        {
            let mut node = nodes[i];
            assert(node == provided[i as int]);
            let length = node.word_info.unwrap().head_word_length as usize;
            node.set_range(offset, offset + length);
            nodes.set(i, node);
            i = i + 1;
        }
        assert(nodes@ =~= anchor_all(provided, offset));
        assert forall|i: int| 0 <= i < provided.len() implies nodes@[i].end == offset
            + provided[i].word_info->Some_0.head_word_length by {
            assert(offset + provided[i].word_info->Some_0.head_word_length <= text_len);
        }
        Ok(nodes)
    }
}

} // verus!
