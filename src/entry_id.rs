use vstd::prelude::*;
use vstd::string::StringSliceAdditionalSpecFns;

verus! {

/// Every byte of `b` is a seven-bit ASCII code.
pub open spec fn all_ascii(b: Seq<u8>) -> bool {
    forall|i: int| 0 <= i < b.len() ==> #[trigger] b[i] < 128
}

/// ASCII upper-casing of one byte: `a`..`z` become `A`..`Z`, every other byte is kept.
pub open spec fn upper_byte(b: u8) -> u8 {
    if 97 <= b <= 122 {
        (b - 32) as u8
    } else {
        b
    }
}

/// The identifier bytes named by `text`: none when it is longer than eight bytes or
/// holds a non-ASCII byte; otherwise the text upper-cased and padded with zero bytes.
pub open spec fn text_id(text: Seq<u8>) -> Option<Seq<u8>> {
    if text.len() <= 8 && all_ascii(text) {
        Some(Seq::new(8, |i: int| if i < text.len() { upper_byte(text[i]) } else { 0u8 }))
    } else {
        None
    }
}

/// `k` is where the name in `b` ends: the first zero byte, or the end of `b`.
pub open spec fn is_name_end(b: Seq<u8>, k: int) -> bool {
    &&& 0 <= k <= b.len()
    &&& forall|j: int| 0 <= j < k ==> #[trigger] b[j] != 0
    &&& k == b.len() || b[k] == 0
}

/// The length of the name in `b`, the bytes before the first zero byte.
pub open spec fn name_len(b: Seq<u8>) -> int {
    choose|k: int| is_name_end(b, k)
}

/// ASCII bytes read as characters.
pub open spec fn ascii_chars(b: Seq<u8>) -> Seq<char> {
    Seq::new(b.len(), |i: int| b[i] as char)
}

/// The display form of identifier bytes: `?` if any byte is non-ASCII, otherwise the
/// bytes before the first zero byte.
pub open spec fn display_of(id: Seq<u8>) -> Seq<char> {
    if all_ascii(id) {
        ascii_chars(id.subrange(0, name_len(id)))
    } else {
        seq!['?']
    }
}

/// A name ends at one place only.
pub proof fn lemma_name_len(b: Seq<u8>, k: int)
    requires
        is_name_end(b, k),
    ensures
        name_len(b) == k,
{
    let n = name_len(b);
    assert(is_name_end(b, n));
    if n < k {
        assert(b[n] != 0);
    } else if k < n {
        assert(b[k] != 0);
    }
}

/// Text of at most eight ASCII bytes, none of them zero, names an identifier whose display
/// form is the text upper-cased.
pub proof fn lemma_text_id_display(text: Seq<u8>)
    requires
        text.len() <= 8,
        all_ascii(text),
        forall|i: int| 0 <= i < text.len() ==> #[trigger] text[i] != 0,
    ensures
        text_id(text) is Some,
        display_of(text_id(text)->Some_0) == ascii_chars(text.map_values(|b: u8| upper_byte(b))),
{
    let id = text_id(text)->Some_0;
    assert(all_ascii(id));
    assert(is_name_end(id, text.len() as int));
    lemma_name_len(id, text.len() as int);
    assert(id.subrange(0, text.len() as int) =~= text.map_values(|b: u8| upper_byte(b)));
}

/// An identifier made from text has eight bytes, and an identifier rebuilt from those
/// bytes displays as the one made from text.
pub proof fn lemma_text_id_round_trip(text: Seq<u8>, rebuilt: Seq<u8>)
    requires
        text.len() <= 8,
        all_ascii(text),
        rebuilt == text_id(text)->Some_0,
    ensures
        text_id(text) is Some,
        text_id(text)->Some_0.len() == 8,
        display_of(rebuilt) == display_of(text_id(text)->Some_0),
{
}

/// Relies on std::str::from_utf8: bytes that are all ASCII are valid UTF-8, and each
/// byte is one character of the result.
#[verifier::external_body]
fn ascii_str(b: &[u8]) -> (r: &str)
    requires
        all_ascii(b@),
    ensures
        r@ == ascii_chars(b@),
{
    std::str::from_utf8(b).unwrap_or("")
}

/// An eight-byte directory name, compared byte for byte.
#[derive(Debug, Clone, Copy, Eq, Hash)]
pub struct EntryId {
    bytes: [u8; 8],
}

impl View for EntryId {
    type V = Seq<u8>;

    closed spec fn view(&self) -> Seq<u8> {
        self.bytes@
    }
}

impl PartialEq for EntryId {
    fn eq(&self, other: &EntryId) -> (r: bool) {
        let mut i: usize = 0;
        while i < 8
            invariant
                i <= 8,
                forall|j: int| 0 <= j < i ==> self.bytes@[j] == other.bytes@[j],
            decreases 8 - i,
        {
            if self.bytes[i] != other.bytes[i] {
                return false;
            }
            i += 1;
        }
        assert(self.bytes@ =~= other.bytes@);
        true
    }
}

impl vstd::std_specs::cmp::PartialEqSpecImpl for EntryId {
    open spec fn obeys_eq_spec() -> bool {
        true
    }

    open spec fn eq_spec(&self, other: &EntryId) -> bool {
        self@ == other@
    }
}

impl EntryId {
    /// The identifier made of these eight bytes, whatever they hold.
    pub fn from_bytes(bytes: &[u8; 8]) -> (r: EntryId)
        ensures
            r@ == bytes@,
    {
        EntryId { bytes: *bytes }
    }

    /// The identifier named by `text`, upper-cased and zero-padded; none when `text`
    /// is longer than eight bytes or holds a non-ASCII byte.
    pub fn from_ascii(text: &[u8]) -> (r: Option<EntryId>)
        ensures
            match r {
                Some(id) => text_id(text@) == Some(id@),
                None => text_id(text@) is None,
            },
            text@.len() > 8 || !all_ascii(text@) ==> r is None,
    {
        if text.len() > 8 {
            return None;
        }
        let mut padded = [0u8; 8];
        let mut i: usize = 0;
        while i < text.len()
            invariant
                text@.len() <= 8,
                i <= text@.len(),
                forall|j: int| 0 <= j < i ==> #[trigger] text@[j] < 128,
                forall|j: int| 0 <= j < i ==> #[trigger] padded@[j] == upper_byte(text@[j]),
                forall|j: int| i <= j < 8 ==> #[trigger] padded@[j] == 0,
            decreases text@.len() - i,
        {
            let b = text[i];
            if b >= 128 {
                assert(!all_ascii(text@));
                return None;
            }
            padded[i] = if 97 <= b && b <= 122 { b - 32 } else { b };
            i += 1;
        }
        let id = EntryId { bytes: padded };
        assert(id@ =~= text_id(text@)->Some_0);
        Some(id)
    }

    /// The identifier named by the bytes of `s`; see [`EntryId::from_ascii`].
    pub fn from_str(s: &str) -> (r: Option<EntryId>)
        ensures
            match r {
                Some(id) => text_id(s.spec_bytes()) == Some(id@),
                None => text_id(s.spec_bytes()) is None,
            },
            s.spec_bytes().len() > 8 || !all_ascii(s.spec_bytes()) ==> r is None,
    {
        EntryId::from_ascii(s.as_bytes())
    }

    /// The eight bytes of the identifier.
    pub fn as_bytes(&self) -> (r: &[u8; 8])
        ensures
            r@ == self@,
    {
        &self.bytes
    }

    /// The display form: `?` if any byte is non-ASCII, otherwise the bytes before the
    /// first zero byte as text. Never fails.
    pub fn display(&self) -> (r: &str)
        ensures
            r@ == display_of(self@),
    {
        let mut i: usize = 0;
        while i < 8
            invariant
                i <= 8,
                forall|j: int| 0 <= j < i ==> #[trigger] self.bytes@[j] < 128,
            decreases 8 - i,
        {
            if self.bytes[i] >= 128 {
                proof {
                    reveal_strlit("?");
                }
                assert(!all_ascii(self@));
                assert("?"@ =~= seq!['?']);
                return "?";
            }
            i += 1;
        }
        let mut k: usize = 0;
        while k < 8 && self.bytes[k] != 0
            invariant
                k <= 8,
                forall|j: int| 0 <= j < k ==> #[trigger] self.bytes@[j] != 0,
            decreases 8 - k,
        {
            k += 1;
        }
        proof {
            lemma_name_len(self@, k as int);
        }
        let name = &self.bytes[0..k];
        ascii_str(name)
    }
}

} // verus!
