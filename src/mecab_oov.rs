use vstd::prelude::*;

use crate::config::{Config, Grammar};
use crate::error::{SetupErrorKind, SudachiError, SudachiResult};
use crate::input_text::Utf8InputText;
use crate::node::{fits_at, Node, WordInfo};
use crate::oov::OovProviderPlugin;
use crate::settings::{
    array_setting, bool_setting, i64_setting, is_conn_id, is_cost, pos_id_of, read_array, read_bool,
    read_i64, read_string_list, resolve_pos, string_list_setting,
};

verus! {

/// Connection ids, cost and part of speech of one unknown-word entry.
#[derive(Debug, Clone, Copy, PartialEq, Eq, Structural)]
pub struct OovEntry {
    pub left_id: u16,
    pub right_id: u16,
    pub cost: i16,
    pub pos_id: u16,
}

/// How unknown words of one character category are generated.
pub struct CategoryInfo {
    /// Category bits that select this entry.
    pub category_bits: u32,
    /// Generate even where a dictionary word starts at the offset.
    pub is_invoke: bool,
    /// Emit one word over the whole run of characters of the category.
    pub is_group: bool,
    /// Emit words of 1 to `length` characters.
    pub length: u32,
    /// Entries to emit for each generated span.
    pub oovs: Vec<OovEntry>,
}

/// MeCab-style plugin: unknown words are generated from the character
/// categories of the text at the offset.
pub struct MeCabOovPlugin {
    pub categories: Vec<CategoryInfo>,
}

impl Default for MeCabOovPlugin {
    fn default() -> (r: Self)
        ensures
            r.categories@.len() == 0,
    {
        MeCabOovPlugin { categories: Vec::new() }
    }
}

impl OovEntry {
    /// An entry from settings values: ids must fit `u16`, the cost `i16`, and
    /// the part of speech must be in the grammar.
    pub fn configure(oov_pos: &Vec<String>, left_id: i64, right_id: i64, cost: i64, grammar: &Grammar)
        -> (r: SudachiResult<OovEntry>)
        ensures
            r == entry_config(oov_pos.deep_view(), left_id, right_id, cost, *grammar),
    {
        if !(0 <= left_id && left_id <= 0xffff && 0 <= right_id && right_id <= 0xffff && -0x8000
            <= cost && cost <= 0x7fff) {
            return Err(SudachiError::Setup(SetupErrorKind::InvalidField));
        }
        let pos_id = match resolve_pos(grammar, oov_pos) {
            Ok(id) => id,
            Err(e) => return Err(e),
        };
        Ok(OovEntry { left_id: left_id as u16, right_id: right_id as u16, cost: cost as i16, pos_id })
    }
}

/// The entry made from settings values.
pub open spec fn entry_config(
    oov_pos: Seq<Seq<char>>,
    left_id: i64,
    right_id: i64,
    cost: i64,
    grammar: Grammar,
) -> SudachiResult<OovEntry> {
    if !(is_conn_id(left_id) && is_conn_id(right_id) && is_cost(cost)) {
        Err(SudachiError::Setup(SetupErrorKind::InvalidField))
    } else {
        match pos_id_of(grammar, oov_pos) {
            None => Err(SudachiError::Setup(SetupErrorKind::UnknownPartOfSpeech)),
            Some(id) => Ok(
                OovEntry {
                    left_id: left_id as u16,
                    right_id: right_id as u16,
                    cost: cost as i16,
                    pos_id: id,
                },
            ),
        }
    }
}

/// The entry that the settings `oovPOS`, `leftId`, `rightId` and `cost` of
/// `v` describe.
pub open spec fn entry_setting(v: serde_json::Value, grammar: Grammar) -> SudachiResult<OovEntry> {
    match string_list_setting(v, "oovPOS"@) {
        Err(e) => Err(e),
        Ok(pos) => match i64_setting(v, "leftId"@) {
            Err(e) => Err(e),
            Ok(left_id) => match i64_setting(v, "rightId"@) {
                Err(e) => Err(e),
                Ok(right_id) => match i64_setting(v, "cost"@) {
                    Err(e) => Err(e),
                    Ok(cost) => entry_config(pos, left_id, right_id, cost, grammar),
                },
            },
        },
    }
}

/// The entries described by the elements from index `k` on; the first that
/// cannot be read decides the error.
pub open spec fn entries_from(items: Seq<serde_json::Value>, grammar: Grammar, k: int) -> SudachiResult<
    Seq<OovEntry>,
>
    decreases items.len() - k,
{
    if k < 0 || k >= items.len() {
        Ok(Seq::empty())
    } else {
        match entry_setting(items[k], grammar) {
            Err(e) => Err(e),
            Ok(o) => match entries_from(items, grammar, k + 1) {
                Err(e) => Err(e),
                Ok(rest) => Ok(seq![o] + rest),
            },
        }
    }
}

/// The fields of a category: bits, `invoke`, `group`, length and entries.
pub type CategoryView = (u32, bool, bool, u32, Seq<OovEntry>);

impl CategoryInfo {
    pub open spec fn spec_of(self) -> CategoryView {
        (self.category_bits, self.is_invoke, self.is_group, self.length, self.oovs@)
    }
}

/// The category that the settings `type`, `invoke`, `group`, `length` and
/// `oovs` of `v` describe; bits and length must fit `u32`.
pub open spec fn category_setting(v: serde_json::Value, grammar: Grammar) -> SudachiResult<CategoryView> {
    match i64_setting(v, "type"@) {
        Err(e) => Err(e),
        Ok(bits) => match bool_setting(v, "invoke"@) {
            Err(e) => Err(e),
            Ok(is_invoke) => match bool_setting(v, "group"@) {
                Err(e) => Err(e),
                Ok(is_group) => match i64_setting(v, "length"@) {
                    Err(e) => Err(e),
                    Ok(length) => if !(0 <= bits <= u32::MAX && 0 <= length <= u32::MAX) {
                        Err(SudachiError::Setup(SetupErrorKind::InvalidField))
                    } else {
                        match array_setting(v, "oovs"@) {
                            Err(e) => Err(e),
                            Ok(items) => match entries_from(items, grammar, 0) {
                                Err(e) => Err(e),
                                Ok(oovs) => Ok((bits as u32, is_invoke, is_group, length as u32, oovs)),
                            },
                        }
                    },
                },
            },
        },
    }
}

/// The categories described by the elements from index `k` on.
pub open spec fn categories_from(items: Seq<serde_json::Value>, grammar: Grammar, k: int) -> SudachiResult<
    Seq<CategoryView>,
>
    decreases items.len() - k,
{
    if k < 0 || k >= items.len() {
        Ok(Seq::empty())
    } else {
        match category_setting(items[k], grammar) {
            Err(e) => Err(e),
            Ok(c) => match categories_from(items, grammar, k + 1) {
                Err(e) => Err(e),
                Ok(rest) => Ok(seq![c] + rest),
            },
        }
    }
}

/// The categories of the setting `categories`, in order.
pub open spec fn mecab_settings(settings: serde_json::Value, grammar: Grammar) -> SudachiResult<
    Seq<CategoryView>,
> {
    match array_setting(settings, "categories"@) {
        Err(e) => Err(e),
        Ok(items) => categories_from(items, grammar, 0),
    }
}

/// Reads one unknown-word entry: `leftId`, `rightId`, `cost` and `oovPOS`.
fn read_oov_entry(v: &serde_json::Value, grammar: &Grammar) -> (r: SudachiResult<OovEntry>)
    ensures
        r == entry_setting(*v, *grammar),
{
    let oov_pos = match read_string_list(v, "oovPOS") {
        Ok(x) => x,
        Err(e) => return Err(e),
    };
    let left_id = match read_i64(v, "leftId") {
        Ok(x) => x,
        Err(e) => return Err(e),
    };
    let right_id = match read_i64(v, "rightId") {
        Ok(x) => x,
        Err(e) => return Err(e),
    };
    let cost = match read_i64(v, "cost") {
        Ok(x) => x,
        Err(e) => return Err(e),
    };
    OovEntry::configure(&oov_pos, left_id, right_id, cost, grammar)
}

/// Reads the entries of a list, in order.
fn read_oov_entries(items: &Vec<serde_json::Value>, grammar: &Grammar) -> (r: SudachiResult<
    Vec<OovEntry>,
>)
    ensures
        match r {
            Ok(v) => entries_from(items@, *grammar, 0) == Ok::<Seq<OovEntry>, SudachiError>(v@),
            Err(e) => entries_from(items@, *grammar, 0) == Err::<Seq<OovEntry>, SudachiError>(e),
        },
{
    let mut out: Vec<OovEntry> = Vec::new();
    let mut i: usize = 0;
    while i < items.len()
        invariant
            i <= items@.len(),
            match entries_from(items@, *grammar, i as int) {
                Ok(rest) => entries_from(items@, *grammar, 0) == Ok::<Seq<OovEntry>, SudachiError>(out@ + rest),
                Err(e) => entries_from(items@, *grammar, 0) == Err::<Seq<OovEntry>, SudachiError>(e),
            },
        decreases items@.len() - i,
    {
        let entry = match read_oov_entry(&items[i], grammar) {
            Ok(x) => x,
            Err(e) => return Err(e),
        };
        let ghost before = out@;
        out.push(entry);
        proof {
            match entries_from(items@, *grammar, i + 1) {
                Ok(rest) => {
                    assert(before + (seq![entry] + rest) =~= out@ + rest);
                },
                Err(e) => {},
            }
        }
        i = i + 1;
    }
    assert(out@ + Seq::<OovEntry>::empty() =~= out@);
    Ok(out)
}

/// Reads one category: its bits `type`, the flags `invoke` and `group`, the
/// word `length` and its entries `oovs`.
fn read_category(v: &serde_json::Value, grammar: &Grammar) -> (r: SudachiResult<CategoryInfo>)
    ensures
        match r {
            Ok(c) => category_setting(*v, *grammar) == Ok::<CategoryView, SudachiError>(c.spec_of()),
            Err(e) => category_setting(*v, *grammar) == Err::<CategoryView, SudachiError>(e),
        },
{
    let bits = match read_i64(v, "type") {
        Ok(x) => x,
        Err(e) => return Err(e),
    };
    let is_invoke = match read_bool(v, "invoke") {
        Ok(x) => x,
        Err(e) => return Err(e),
    };
    let is_group = match read_bool(v, "group") {
        Ok(x) => x,
        Err(e) => return Err(e),
    };
    let length = match read_i64(v, "length") {
        Ok(x) => x,
        Err(e) => return Err(e),
    };
    if !(0 <= bits && bits <= 0xffff_ffff && 0 <= length && length <= 0xffff_ffff) {
        return Err(SudachiError::Setup(SetupErrorKind::InvalidField));
    }
    let items = match read_array(v, "oovs") {
        Ok(x) => x,
        Err(e) => return Err(e),
    };
    let oovs = match read_oov_entries(&items, grammar) {
        Ok(x) => x,
        Err(e) => return Err(e),
    };
    Ok(CategoryInfo { category_bits: bits as u32, is_invoke, is_group, length: length as u32, oovs })
}

/// Reads the list `categories` of the settings, in order.
fn read_categories(settings: &serde_json::Value, grammar: &Grammar) -> (r: SudachiResult<
    Vec<CategoryInfo>,
>)
    ensures
        match r {
            Ok(v) => mecab_settings(*settings, *grammar) == Ok::<Seq<CategoryView>, SudachiError>(
                v@.map_values(|c: CategoryInfo| c.spec_of()),
            ),
            Err(e) => mecab_settings(*settings, *grammar) == Err::<Seq<CategoryView>, SudachiError>(e),
        },
{
    let items = match read_array(settings, "categories") {
        Ok(x) => x,
        Err(e) => return Err(e),
    };
    let mut out: Vec<CategoryInfo> = Vec::new();
    let mut i: usize = 0;
    while i < items.len()
        invariant
            i <= items@.len(),
            array_setting(*settings, "categories"@) == Ok::<Seq<serde_json::Value>, SudachiError>(items@),
            match categories_from(items@, *grammar, i as int) {
                Ok(rest) => categories_from(items@, *grammar, 0) == Ok::<Seq<CategoryView>, SudachiError>(
                    out@.map_values(|c: CategoryInfo| c.spec_of()) + rest,
                ),
                Err(e) => categories_from(items@, *grammar, 0) == Err::<Seq<CategoryView>, SudachiError>(e),
            },
        decreases items@.len() - i,
    {
        let c = match read_category(&items[i], grammar) {
            Ok(x) => x,
            Err(e) => return Err(e),
        };
        let ghost before = out@.map_values(|c: CategoryInfo| c.spec_of());
        let ghost cv = c.spec_of();
        out.push(c);
        proof {
            assert(out@.map_values(|c: CategoryInfo| c.spec_of()) =~= before.push(cv));
            match categories_from(items@, *grammar, i + 1) {
                Ok(rest) => {
                    assert(before + (seq![cv] + rest) =~= before.push(cv) + rest);
                },
                Err(e) => {},
            }
        }
        i = i + 1;
    }
    assert(out@.map_values(|c: CategoryInfo| c.spec_of()) + Seq::<CategoryView>::empty()
        =~= out@.map_values(|c: CategoryInfo| c.spec_of()));
    Ok(out)
}

/// The byte at `j` shares a category with the byte at `offset`.
pub open spec fn in_run(text: Utf8InputText, offset: int, j: int) -> bool {
    text.categories@[j] & text.categories@[offset] != 0
}

/// End of the run of bytes from `j` on that share a category with `offset`.
pub open spec fn run_end(text: Utf8InputText, offset: int, j: int) -> int
    decreases text.spec_len() - j,
{
    if 0 <= j < text.spec_len() && in_run(text, offset, j) {
        run_end(text, offset, j + 1)
    } else {
        j
    }
}

/// A run never ends before where it is looked at.
proof fn lemma_run_end_ge(text: Utf8InputText, offset: int, j: int)
    ensures
        run_end(text, offset, j) >= j,
    decreases text.spec_len() - j,
{
    if 0 <= j < text.spec_len() && in_run(text, offset, j) {
        lemma_run_end_ge(text, offset, j + 1);
    }
}

/// Byte length of the first `n` characters from `offset`, cut at the end of the text.
pub open spec fn span(text: Utf8InputText, offset: int, n: nat) -> int
    decreases n,
{
    if n == 0 {
        0
    } else {
        let p = span(text, offset, (n - 1) as nat);
        if offset + p < text.spec_len() {
            p + text.char_len_at(offset + p)
        } else {
            p
        }
    }
}

/// One node for each entry, over `length` bytes.
pub open spec fn entry_nodes(oovs: Seq<OovEntry>, length: int) -> Seq<Node> {
    oovs.map_values(
        |o: OovEntry|
            Node {
                begin: 0,
                end: 0,
                left_id: o.left_id,
                right_id: o.right_id,
                cost: o.cost,
                word_info: Some(WordInfo { head_word_length: length as u16, pos_id: o.pos_id }),
            },
    )
}

/// Nodes of `n`, `n + 1`, ... up to `c.length` characters, while they stay
/// within `limit` bytes.
pub open spec fn length_nodes(
    c: CategoryInfo,
    text: Utf8InputText,
    offset: int,
    limit: int,
    n: nat,
) -> Seq<Node>
    decreases c.length + 1 - n,
{
    if n > c.length || span(text, offset, n) > limit {
        Seq::empty()
    } else {
        entry_nodes(c.oovs@, span(text, offset, n)) + length_nodes(c, text, offset, limit, n + 1)
    }
}

/// Whether category `c` generates at all.
pub open spec fn generates(c: CategoryInfo, has_other_words: bool) -> bool {
    c.is_invoke || !has_other_words
}

/// Nodes that category `c` generates at `offset`.
pub open spec fn category_nodes(
    c: CategoryInfo,
    text: Utf8InputText,
    offset: int,
    has_other_words: bool,
) -> Seq<Node> {
    let run = run_end(text, offset, offset) - offset;
    let grouped = c.is_group && generates(c, has_other_words);
    let group = if grouped {
        entry_nodes(c.oovs@, run)
    } else {
        Seq::empty()
    };
    let limit = if grouped {
        run - 1
    } else {
        run
    };
    if generates(c, has_other_words) {
        group + length_nodes(c, text, offset, limit, 1)
    } else {
        group
    }
}

/// Nodes of the categories from index `k` on that the byte at `offset` belongs to.
pub open spec fn categories_nodes(
    cats: Seq<CategoryInfo>,
    text: Utf8InputText,
    offset: int,
    has_other_words: bool,
    k: int,
) -> Seq<Node>
    decreases cats.len() - k,
{
    if k < 0 || k >= cats.len() {
        Seq::empty()
    } else {
        let here = if cats[k].category_bits & text.categories@[offset] != 0 {
            category_nodes(cats[k], text, offset, has_other_words)
        } else {
            Seq::empty()
        };
        here + categories_nodes(cats, text, offset, has_other_words, k + 1)
    }
}

/// The node of entry `o` over `length` bytes.
pub open spec fn entry_node(o: OovEntry, length: int) -> Node {
    Node {
        begin: 0,
        end: 0,
        left_id: o.left_id,
        right_id: o.right_id,
        cost: o.cost,
        word_info: Some(WordInfo { head_word_length: length as u16, pos_id: o.pos_id }),
    }
}

/// Appends one node per entry over `length` bytes.
fn push_entries(
    out: &mut Vec<Node>,
    oovs: &Vec<OovEntry>,
    length: usize,
    Ghost(offset): Ghost<int>,
    Ghost(text_len): Ghost<nat>,
)
    requires
        0 <= offset,
        offset + length <= text_len,
        fits_at(old(out)@, offset as usize, text_len),
    ensures
        final(out)@ == old(out)@ + entry_nodes(oovs@, length as int),
        fits_at(final(out)@, offset as usize, text_len),
{
    let ghost base = out@;
    let mut k: usize = 0;
    while k < oovs.len()
        invariant
            0 <= offset,
            offset + length <= text_len,
            k <= oovs@.len(),
            out@.len() == base.len() + k,
            forall|j: int| 0 <= j < base.len() ==> out@[j] == base[j],
            forall|j: int| 0 <= j < k ==> out@[base.len() + j] == entry_node(oovs@[j], length as int),
            fits_at(base, offset as usize, text_len),
            fits_at(out@, offset as usize, text_len),
        decreases oovs@.len() - k,
    {
        let o = oovs[k];
        let info = WordInfo { head_word_length: length as u16, pos_id: o.pos_id };
        let node = Node::new_oov(o.left_id, o.right_id, o.cost, info);
        assert((length as u16) <= length) by (bit_vector);
        out.push(node);
        k = k + 1;
    }
    assert(out@ =~= base + entry_nodes(oovs@, length as int));
}

impl MeCabOovPlugin {
    /// Length in bytes of the run of bytes from `offset` on that share a
    /// category with the byte at `offset`.
    pub fn run_length(input_text: &Utf8InputText, offset: usize) -> (r: usize)
        requires
            input_text.wf(),
            offset < input_text.spec_len(),
        ensures
            r == run_end(*input_text, offset as int, offset as int) - offset,
            offset + r <= input_text.spec_len(),
    {
        let bits = input_text.categories[offset];
        let mut j: usize = offset;
        while j < input_text.bytes.len() && input_text.categories[j] & bits != 0
            invariant
                input_text.wf(),
                offset <= j <= input_text.spec_len(),
                bits == input_text.categories@[offset as int],
                run_end(*input_text, offset as int, j as int) == run_end(
                    *input_text,
                    offset as int,
                    offset as int,
                ),
            decreases input_text.spec_len() - j,
        {
            j = j + 1;
        }
        j - offset
    }

    /// Appends the nodes of 1 to `c.length` characters that fit in `limit` bytes.
    fn push_length_nodes(
        out: &mut Vec<Node>,
        c: &CategoryInfo,
        input_text: &Utf8InputText,
        offset: usize,
        limit: usize,
    )
        requires
            input_text.wf(),
            offset < input_text.spec_len(),
            offset + limit <= input_text.spec_len(),
            fits_at(old(out)@, offset, input_text.spec_len()),
        ensures
            final(out)@ == old(out)@ + length_nodes(*c, *input_text, offset as int, limit as int, 1),
            fits_at(final(out)@, offset, input_text.spec_len()),
    {
        let ghost target = out@ + length_nodes(*c, *input_text, offset as int, limit as int, 1);
        let text_len = input_text.len();
        let mut n: u64 = 1;
        let mut p: usize = 0;
        while n <= c.length as u64
            invariant
                input_text.wf(),
                text_len == input_text.spec_len(),
                offset < text_len,
                offset + limit <= text_len,
                1 <= n <= c.length as u64 + 1,
                p == span(*input_text, offset as int, (n - 1) as nat),
                offset + p <= text_len,
                out@ + length_nodes(*c, *input_text, offset as int, limit as int, n as nat) == target,
                fits_at(out@, offset, input_text.spec_len()),
            ensures
                out@ == target,
                fits_at(out@, offset, input_text.spec_len()),
            decreases c.length as u64 + 1 - n,
        {
            let sub = if offset + p < text_len {
                p + input_text.char_len(offset + p)
            } else {
                p
            };
            assert(sub == span(*input_text, offset as int, n as nat));
            if sub > limit {
                assert(out@ =~= target);
                break;
            }
            let ghost before = out@;
            push_entries(out, &c.oovs, sub, Ghost(offset as int), Ghost(input_text.spec_len()));
            assert(length_nodes(*c, *input_text, offset as int, limit as int, n as nat) == entry_nodes(
                c.oovs@,
                sub as int,
            ) + length_nodes(*c, *input_text, offset as int, limit as int, (n + 1) as nat));
            assert(before + length_nodes(*c, *input_text, offset as int, limit as int, n as nat) =~= out@
                + length_nodes(*c, *input_text, offset as int, limit as int, (n + 1) as nat));
            p = sub;
            n = n + 1;
            if n > c.length as u64 {
                assert(out@ =~= target);
            }
        }
    }

    /// Appends the nodes that category `c` generates at `offset`.
    fn push_category_nodes(
        out: &mut Vec<Node>,
        c: &CategoryInfo,
        input_text: &Utf8InputText,
        offset: usize,
        has_other_words: bool,
    )
        requires
            input_text.wf(),
            offset < input_text.spec_len(),
            input_text.categories@[offset as int] != 0,
            fits_at(old(out)@, offset, input_text.spec_len()),
        ensures
            final(out)@ == old(out)@ + category_nodes(*c, *input_text, offset as int, has_other_words),
            fits_at(final(out)@, offset, input_text.spec_len()),
    {
        let ghost base = out@;
        let run = MeCabOovPlugin::run_length(input_text, offset);
        let x = input_text.categories[offset];
        assert(x & x == x) by (bit_vector);
        assert(run_end(*input_text, offset as int, offset as int) == run_end(
            *input_text,
            offset as int,
            offset + 1,
        ));
        proof {
            lemma_run_end_ge(*input_text, offset as int, offset + 1);
        }
        let generates = c.is_invoke || !has_other_words;
        let mut limit = run;
        if c.is_group && generates {
            push_entries(out, &c.oovs, run, Ghost(offset as int), Ghost(input_text.spec_len()));
            limit = run - 1;
        }
        if generates {
            MeCabOovPlugin::push_length_nodes(out, c, input_text, offset, limit);
        }
        assert(out@ =~= base + category_nodes(*c, *input_text, offset as int, has_other_words));
    }
}

impl OovProviderPlugin for MeCabOovPlugin {
    open spec fn provided(&self, input_text: Utf8InputText, offset: usize, has_other_words: bool)
        -> SudachiResult<Seq<Node>> {
        if offset >= input_text.spec_len() {
            Err(SudachiError::OffsetOutOfBounds)
        } else {
            Ok(categories_nodes(self.categories@, input_text, offset as int, has_other_words, 0))
        }
    }

    open spec fn set_up_spec(
        &self,
        settings: serde_json::Value,
        config: Config,
        grammar: Grammar,
        after: Self,
        r: SudachiResult<()>,
    ) -> bool {
        match mecab_settings(settings, grammar) {
            Ok(cs) => after.categories@.map_values(|c: CategoryInfo| c.spec_of()) == cs && r == Ok::<
                (),
                SudachiError,
            >(()),
            Err(e) => after == *self && r == Err::<(), SudachiError>(e),
        }
    }

    fn set_up(&mut self, settings: &serde_json::Value, _config: &Config, grammar: &Grammar) -> (r:
        SudachiResult<()>) {
        match read_categories(settings, grammar) {
            Ok(cs) => {
                self.categories = cs;
                Ok(())
            },
            Err(e) => Err(e),
        }
    }

    fn provide_oov(&self, input_text: &Utf8InputText, offset: usize, has_other_words: bool) -> (r:
        SudachiResult<Vec<Node>>) {
        if offset >= input_text.len() {
            return Err(SudachiError::OffsetOutOfBounds);
        }
        let ghost target = categories_nodes(self.categories@, *input_text, offset as int, has_other_words, 0);
        let bits = input_text.categories[offset];
        let mut out: Vec<Node> = Vec::new();
        let mut k: usize = 0;
        while k < self.categories.len()
            invariant
                input_text.wf(),
                offset < input_text.spec_len(),
                bits == input_text.categories@[offset as int],
                k <= self.categories@.len(),
                out@ + categories_nodes(self.categories@, *input_text, offset as int, has_other_words, k as int)
                    == target,
                fits_at(out@, offset, input_text.spec_len()),
            decreases self.categories@.len() - k,
        {
            let c = &self.categories[k];
            let ghost before = out@;
            let ghost rest = categories_nodes(self.categories@, *input_text, offset as int, has_other_words, k + 1);
            if c.category_bits & bits != 0 {
                let cb = c.category_bits;
                assert(cb & bits != 0 ==> bits != 0) by (bit_vector);
                MeCabOovPlugin::push_category_nodes(&mut out, c, input_text, offset, has_other_words);
            }
            assert(before + categories_nodes(self.categories@, *input_text, offset as int, has_other_words, k as int)
                =~= out@ + rest);
            k = k + 1;
        }
        assert(out@ =~= target);
        Ok(out)
    }
}

} // verus!
