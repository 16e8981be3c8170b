use vstd::prelude::*;

verus! {

/// The part of the global configuration that plugins read.
pub struct Config {
    /// Settings of each OOV provider plugin, in activation order.
    pub oov_provider_plugins: Vec<serde_json::Value>,
}

/// The parts of speech of the dictionary's grammar, by id.
pub struct Grammar {
    pub pos_list: Vec<Vec<String>>,
}

impl Grammar {
    /// Id of the part of speech `pos`: the first index whose entry equals it.
    pub fn get_part_of_speech_id(&self, pos: &Vec<String>) -> (r: Option<u16>)
        ensures
            r == crate::settings::pos_search(self.pos_list.deep_view(), pos.deep_view(), 0),
            match r {
                Some(id) => id < self.pos_list@.len() && self.pos_list@[id as int].deep_view()
                    == pos.deep_view() && forall|j: int|
                    0 <= j < id ==> self.pos_list@[j].deep_view() != pos.deep_view(),
                None => forall|j: int|
                    0 <= j < self.pos_list@.len() && j <= u16::MAX ==> self.pos_list@[j].deep_view()
                        != pos.deep_view(),
            },
    {
        let mut i: usize = 0;
        while i < self.pos_list.len() && i <= 0xffff
            invariant
                forall|j: int| 0 <= j < i ==> self.pos_list@[j].deep_view() != pos.deep_view(),
                crate::settings::pos_search(self.pos_list.deep_view(), pos.deep_view(), i as int)
                    == crate::settings::pos_search(self.pos_list.deep_view(), pos.deep_view(), 0),
            decreases self.pos_list@.len() - i,
        {
            assert(self.pos_list.deep_view()[i as int] == self.pos_list@[i as int].deep_view());
            if same_strings(&self.pos_list[i], pos) {
                return Some(i as u16);
            }
            i = i + 1;
        }
        None
    }
}

/// Whether two lists of strings are equal.
fn same_strings(a: &Vec<String>, b: &Vec<String>) -> (r: bool)
    ensures
        r == (a.deep_view() == b.deep_view()),
{
    if a.len() != b.len() {
        assert(a.deep_view().len() != b.deep_view().len());
        return false;
    }
    let mut i: usize = 0;
    while i < a.len()
        invariant
            a@.len() == b@.len(),
            forall|j: int| 0 <= j < i ==> a@[j]@ == b@[j]@,
        decreases a@.len() - i,
    {
        if a[i] != b[i] {
            assert(a.deep_view()[i as int] != b.deep_view()[i as int]);
            return false;
        }
        i = i + 1;
    }
    assert(a.deep_view() =~= b.deep_view());
    true
}

} // verus!
