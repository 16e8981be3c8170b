use vstd::prelude::*;

verus! {

/// Number of bytes of a UTF-8 encoded character that starts with byte `b`.
pub open spec fn utf8_width(b: u8) -> nat {
    if b < 0x80 {
        1
    } else if b < 0xe0 {
        2
    } else if b < 0xf0 {
        3
    } else {
        4
    }
}

/// The analysed text as bytes, with the character category bits of the
/// character each byte belongs to.
pub struct Utf8InputText {
    pub bytes: Vec<u8>,
    pub categories: Vec<u32>,
}

impl Utf8InputText {
    /// Each byte has its category bits.
    pub open spec fn wf(&self) -> bool {
        self.bytes@.len() == self.categories@.len()
    }

    pub open spec fn spec_len(&self) -> nat {
        self.bytes@.len()
    }

    /// Byte length of the character at `offset`, cut at the end of the text.
    pub open spec fn char_len_at(&self, offset: int) -> nat {
        let w = utf8_width(self.bytes@[offset]);
        if offset + w <= self.spec_len() {
            w
        } else {
            (self.spec_len() - offset) as nat
        }
    }

    /// A text whose bytes carry the given category bits; `None` when the two
    /// lengths differ.
    pub fn new(bytes: Vec<u8>, categories: Vec<u32>) -> (r: Option<Utf8InputText>)
        ensures
            match r {
                Some(t) => t.bytes == bytes && t.categories == categories && t.wf(),
                None => bytes@.len() != categories@.len(),
            },
    {
        if bytes.len() == categories.len() {
            Some(Utf8InputText { bytes, categories })
        } else {
            None
        }
    }

    pub fn len(&self) -> (r: usize)
        ensures
            r == self.spec_len(),
    {
        self.bytes.len()
    }

    /// Byte length of the character that starts at `offset`.
    pub fn char_len(&self, offset: usize) -> (r: usize)
        requires
            offset < self.spec_len(),
        ensures
            r == self.char_len_at(offset as int),
            1 <= r <= 4,
    {
        let b = self.bytes[offset];
        let w: usize = if b < 0x80 {
            1
        } else if b < 0xe0 {
            2
        } else if b < 0xf0 {
            3
        } else {
            4
        };
        let rest = self.bytes.len() - offset;
        if w <= rest {
            w
        } else {
            rest
        }
    }
}

} // verus!
