use vstd::prelude::*;

use crate::config::Grammar;
use crate::error::{SetupErrorKind, SudachiError, SudachiResult};
use crate::json::{
    array_of, as_array, as_bool, as_i64, as_string, bool_of, i64_of, member, member_of, str_of,
};

verus! {

/// The first id from `j` on whose part of speech equals `pos`, among the
/// ids that fit a `u16`.
pub open spec fn pos_search(list: Seq<Seq<Seq<char>>>, pos: Seq<Seq<char>>, j: int) -> Option<u16>
    decreases list.len() - j,
{
    if j < 0 || j >= list.len() || j > u16::MAX {
        None
    } else if list[j] == pos {
        Some(j as u16)
    } else {
        pos_search(list, pos, j + 1)
    }
}

/// The id of the part of speech `pos` in the grammar.
pub open spec fn pos_id_of(grammar: Grammar, pos: Seq<Seq<char>>) -> Option<u16> {
    pos_search(grammar.pos_list.deep_view(), pos, 0)
}

/// What reading a setting gives from the member found, or not found, under its key.
pub open spec fn setting<T>(found: Option<serde_json::Value>, read: spec_fn(serde_json::Value) -> Option<T>) -> SudachiResult<T> {
    match found {
        None => Err(SudachiError::Setup(SetupErrorKind::MissingField)),
        Some(v) => match read(v) {
            Some(x) => Ok(x),
            None => Err(SudachiError::Setup(SetupErrorKind::InvalidField)),
        },
    }
}

/// The integer setting `key` of `settings`.
pub open spec fn i64_setting(settings: serde_json::Value, key: Seq<char>) -> SudachiResult<i64> {
    setting(member_of(settings, key), |v: serde_json::Value| i64_of(v))
}

/// The boolean setting `key` of `settings`.
pub open spec fn bool_setting(settings: serde_json::Value, key: Seq<char>) -> SudachiResult<bool> {
    setting(member_of(settings, key), |v: serde_json::Value| bool_of(v))
}

/// The string setting `key` of `settings`.
pub open spec fn string_setting(settings: serde_json::Value, key: Seq<char>) -> SudachiResult<Seq<char>> {
    setting(member_of(settings, key), |v: serde_json::Value| str_of(v))
}

/// The array setting `key` of `settings`.
pub open spec fn array_setting(settings: serde_json::Value, key: Seq<char>) -> SudachiResult<Seq<serde_json::Value>> {
    setting(member_of(settings, key), |v: serde_json::Value| array_of(v))
}

/// The texts of the elements from index `k` on, when each is a string.
pub open spec fn strings_from(items: Seq<serde_json::Value>, k: int) -> Option<Seq<Seq<char>>>
    decreases items.len() - k,
{
    if k < 0 || k >= items.len() {
        Some(Seq::empty())
    } else {
        match (str_of(items[k]), strings_from(items, k + 1)) {
            (Some(s), Some(rest)) => Some(seq![s] + rest),
            _ => None,
        }
    }
}

/// The setting `key` of `settings` as a list of strings.
pub open spec fn string_list_setting(settings: serde_json::Value, key: Seq<char>) -> SudachiResult<Seq<Seq<char>>> {
    match array_setting(settings, key) {
        Err(e) => Err(e),
        Ok(items) => match strings_from(items, 0) {
            Some(strings) => Ok(strings),
            None => Err(SudachiError::Setup(SetupErrorKind::InvalidField)),
        },
    }
}

/// `n` fits a connection id.
pub open spec fn is_conn_id(n: i64) -> bool {
    0 <= n <= u16::MAX
}

/// `n` fits a word cost.
pub open spec fn is_cost(n: i64) -> bool {
    i16::MIN <= n <= i16::MAX
}

/// Looks a part of speech up, failing as a setup error when it is unknown.
pub fn resolve_pos(grammar: &Grammar, pos: &Vec<String>) -> (r: SudachiResult<u16>)
    ensures
        r == match pos_id_of(*grammar, pos.deep_view()) {
            Some(id) => Ok::<u16, SudachiError>(id),
            None => Err(SudachiError::Setup(SetupErrorKind::UnknownPartOfSpeech)),
        },
{
    match grammar.get_part_of_speech_id(pos) {
        Some(id) => Ok(id),
        None => Err(SudachiError::Setup(SetupErrorKind::UnknownPartOfSpeech)),
    }
}

/// The integer setting `key`: missing when absent, invalid when not an integer.
pub fn read_i64(settings: &serde_json::Value, key: &str) -> (r: SudachiResult<i64>)
    ensures
        r == i64_setting(*settings, key@),
{
    match member(settings, key) {
        None => Err(SudachiError::Setup(SetupErrorKind::MissingField)),
        Some(v) => match as_i64(&v) {
            Some(n) => Ok(n),
            None => Err(SudachiError::Setup(SetupErrorKind::InvalidField)),
        },
    }
}

/// The boolean setting `key`: missing when absent, invalid when not a boolean.
pub fn read_bool(settings: &serde_json::Value, key: &str) -> (r: SudachiResult<bool>)
    ensures
        r == bool_setting(*settings, key@),
{
    match member(settings, key) {
        None => Err(SudachiError::Setup(SetupErrorKind::MissingField)),
        Some(v) => match as_bool(&v) {
            Some(b) => Ok(b),
            None => Err(SudachiError::Setup(SetupErrorKind::InvalidField)),
        },
    }
}

/// The array setting `key`: missing when absent, invalid when not an array.
pub fn read_array(settings: &serde_json::Value, key: &str) -> (r: SudachiResult<Vec<serde_json::Value>>)
    ensures
        match r {
            Ok(v) => array_setting(*settings, key@) == Ok::<Seq<serde_json::Value>, SudachiError>(v@),
            Err(e) => array_setting(*settings, key@) == Err::<Seq<serde_json::Value>, SudachiError>(e),
        },
{
    match member(settings, key) {
        None => Err(SudachiError::Setup(SetupErrorKind::MissingField)),
        Some(v) => match as_array(&v) {
            Some(items) => Ok(items),
            None => Err(SudachiError::Setup(SetupErrorKind::InvalidField)),
        },
    }
}

/// The string setting `key`: missing when absent, invalid when not a string.
pub fn read_string(settings: &serde_json::Value, key: &str) -> (r: SudachiResult<String>)
    ensures
        match r {
            Ok(v) => string_setting(*settings, key@) == Ok::<Seq<char>, SudachiError>(v@),
            Err(e) => string_setting(*settings, key@) == Err::<Seq<char>, SudachiError>(e),
        },
{
    match member(settings, key) {
        None => Err(SudachiError::Setup(SetupErrorKind::MissingField)),
        Some(v) => match as_string(&v) {
            Some(s) => Ok(s),
            None => Err(SudachiError::Setup(SetupErrorKind::InvalidField)),
        },
    }
}

/// The setting `key` as a list of strings: missing when absent, invalid when
/// not an array or when an element is not a string.
pub fn read_string_list(settings: &serde_json::Value, key: &str) -> (r: SudachiResult<Vec<String>>)
    ensures
        match r {
            Ok(v) => string_list_setting(*settings, key@) == Ok::<Seq<Seq<char>>, SudachiError>(v.deep_view()),
            Err(e) => string_list_setting(*settings, key@) == Err::<Seq<Seq<char>>, SudachiError>(e),
        },
{
    let items = match read_array(settings, key) {
        Ok(items) => items,
        Err(e) => return Err(e),
    };
    let mut out: Vec<String> = Vec::new();
    let mut i: usize = 0;
    while i < items.len()
        invariant
            i <= items@.len(),
            array_setting(*settings, key@) == Ok::<Seq<serde_json::Value>, SudachiError>(items@),
            match strings_from(items@, i as int) {
                Some(rest) => strings_from(items@, 0) == Some(out.deep_view() + rest),
                None => strings_from(items@, 0) is None,
            },
        decreases items@.len() - i,
    {
        match as_string(&items[i]) {
            Some(s) => {
                let ghost before = out.deep_view();
                out.push(s);
                proof {
                    match strings_from(items@, i + 1) {
                        Some(rest) => {
                            assert(out.deep_view() =~= before.push(s@));
                            assert(before + (seq![s@] + rest) =~= out.deep_view() + rest);
                        },
                        None => {},
                    }
                }
            },
            None => return Err(SudachiError::Setup(SetupErrorKind::InvalidField)),
        }
        i = i + 1;
    }
    assert(out.deep_view() + Seq::<Seq<char>>::empty() =~= out.deep_view());
    Ok(out)
}

} // verus!
