use vstd::prelude::*;

verus! {

/// The nibble that closes a terminating key.
pub const TERMINATOR: u8 = 16;

/// The nibble at position `i` of the path that `raw` spells, high half of each byte first,
/// closed by `TERMINATOR` when `is_leaf` holds.
pub open spec fn nibbles_of(raw: Seq<u8>, is_leaf: bool) -> Seq<u8> {
    Seq::new(
        2 * raw.len() + if is_leaf { 1nat } else { 0nat },
        |i: int|
            if i < 2 * raw.len() {
                if i % 2 == 0 {
                    raw[i / 2] / 16
                } else {
                    raw[i / 2] % 16
                }
            } else {
                TERMINATOR
            },
    )
}

/// A path of nibbles (values 0 to 15), optionally closed by `TERMINATOR`.
#[derive(Debug, Default)]
pub struct Nibbles {
    hex_data: Vec<u8>,
}

impl View for Nibbles {
    type V = Seq<u8>;

    closed spec fn view(&self) -> Seq<u8> {
        self.hex_data@
    }
}

impl Nibbles {
    /// The path spelled by `raw`, two nibbles a byte, closed by `TERMINATOR` when `is_leaf`.
    pub fn from_raw(raw: &[u8], is_leaf: bool) -> (r: Nibbles)
        requires
            2 * raw@.len() + 1 <= usize::MAX,
        ensures
            r@ == nibbles_of(raw@, is_leaf),
    {
        let mut hex_data: Vec<u8> = Vec::new();
        let mut k: usize = 0;
        while k < raw.len()
            invariant
                k <= raw@.len(),
                2 * raw@.len() + 1 <= usize::MAX,
                hex_data@ =~= nibbles_of(raw@, false).take(2 * k as int),
            decreases raw@.len() - k,
        {
            let b = raw[k];
            hex_data.push(b / 16);
            hex_data.push(b % 16);
            k = k + 1;
        }
        if is_leaf {
            hex_data.push(TERMINATOR);
        }
        assert(hex_data@ =~= nibbles_of(raw@, is_leaf));
        Nibbles { hex_data }
    }

    /// Whether the path is closed by `TERMINATOR`.
    pub fn is_leaf(&self) -> (r: bool)
        ensures
            r == (self@.len() > 0 && self@.last() == TERMINATOR),
    {
        let n = self.hex_data.len();
        n > 0 && self.hex_data[n - 1] == TERMINATOR
    }

    /// The number of nibbles, the terminator included.
    pub fn len(&self) -> (r: usize)
        ensures
            r == self@.len(),
    {
        self.hex_data.len()
    }

    /// The nibble at position `i`.
    pub fn at(&self, i: usize) -> (r: u8)
        requires
            i < self@.len(),
        ensures
            r == self@[i as int],
    {
        self.hex_data[i]
    }
}

/// Equal byte sequences, compared element by element.
pub fn bytes_eq(a: &[u8], b: &[u8]) -> (r: bool)
    ensures
        r == (a@ == b@),
{
    if a.len() != b.len() {
        return false;
    }
    let mut k: usize = 0;
    while k < a.len()
        invariant
            k <= a@.len(),
            a@.len() == b@.len(),
            forall|j: int| 0 <= j < k ==> a@[j] == b@[j],
        decreases a@.len() - k,
    {
        if a[k] != b[k] {
            return false;
        }
        k = k + 1;
    }
    assert(a@ =~= b@);
    true
}

impl PartialEq for Nibbles {
    fn eq(&self, other: &Nibbles) -> (r: bool) {
        bytes_eq(self.hex_data.as_slice(), other.hex_data.as_slice())
    }
}

impl vstd::std_specs::cmp::PartialEqSpecImpl for Nibbles {
    open spec fn obeys_eq_spec() -> bool {
        true
    }

    open spec fn eq_spec(&self, other: &Nibbles) -> bool {
        self@ == other@
    }
}

impl Clone for Nibbles {
    fn clone(&self) -> (r: Self)
        ensures
            r@ == self@,
    {
        Nibbles { hex_data: vstd::slice::slice_to_vec(self.hex_data.as_slice()) }
    }
}

impl Eq for Nibbles {

}

} // verus!
