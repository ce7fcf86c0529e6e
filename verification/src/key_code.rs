//! Usage codes of the HID Keyboard/Keypad page and the 8-byte boot-keyboard
//! input report.
//!
//! A usage code is valid iff it falls into one of the two non-reserved zones
//! of the page.  The report layout is the boot-protocol one: byte 0 holds the
//! modifier bitmask, byte 1 is reserved, bytes 2..7 hold up to six pressed
//! usage codes.

use vstd::prelude::*;

verus! {

/// First usage code of the lower zone (`A`).
pub const ZONE1_FIRST: u8 = 0x04;
/// Last usage code of the lower zone.
pub const ZONE1_LAST: u8 = 0xA4;
/// First usage code of the upper zone (left control).
pub const ZONE2_FIRST: u8 = 0xE0;
/// Last usage code of the upper zone.
pub const ZONE2_LAST: u8 = 0xFB;

/// A usage code is valid iff it lies in one of the two zones.
pub open spec fn valid_usage(code: u8) -> bool {
    (ZONE1_FIRST <= code && code <= ZONE1_LAST) || (ZONE2_FIRST <= code && code <= ZONE2_LAST)
}

/// Number of physical buttons.
pub const NUM_BTS: usize = 3;

/// A serialized mapping is valid iff it holds one valid usage code per
/// button.
pub open spec fn mapping_valid(b: Seq<u8>) -> bool {
    &&& b.len() == NUM_BTS
    &&& forall|i: int| 0 <= i < b.len() ==> valid_usage(b[i])
}

/// One usage code of the HID Keyboard/Keypad page.
#[derive(Clone, Copy, Debug, PartialEq, Eq, Structural)]
pub struct KeyCode {
    pub code: u8,
}

impl KeyCode {
    /// A key code is well formed iff its byte is a valid usage code.
    pub open spec fn wf(self) -> bool {
        valid_usage(self.code)
    }

    /// Decodes one byte, rejecting anything outside the two zones.
    pub fn try_from_byte(code: u8) -> (r: Option<KeyCode>)
        ensures
            valid_usage(code) ==> r == Some(KeyCode { code }),
            !valid_usage(code) ==> r is None,
    {
        if (ZONE1_FIRST <= code && code <= ZONE1_LAST) || (ZONE2_FIRST <= code && code <= ZONE2_LAST) {
            Some(KeyCode { code })
        } else {
            None
        }
    }
}

/// Position of the first free (zero) byte of the pressed-key area `r[2..8]`,
/// or 8 if every position is taken.
pub open spec fn first_free(r: Seq<u8>, i: int) -> int
    recommends
        2 <= i <= 8,
        r.len() == 8,
    decreases 8 - i when i <= 8
{
    if i >= 8 {
        8
    } else if r[i] == 0 {
        i
    } else {
        first_free(r, i + 1)
    }
}

/// The report bytes after registering `code` as pressed: the code lands in
/// the first free position of the pressed-key area; a zero code, or a full
/// area, leaves the report unchanged.
pub open spec fn spec_pressed(r: Seq<u8>, code: u8) -> Seq<u8>
    recommends
        r.len() == 8,
{
    if code == 0 {
        r
    } else {
        let j = first_free(r, 2);
        if j < 8 {
            r.update(j, code)
        } else {
            r
        }
    }
}

/// The first free position lies between the scan start and the end of the
/// report.
pub proof fn lemma_first_free_range(r: Seq<u8>, i: int)
    requires
        2 <= i <= 8,
    ensures
        i <= first_free(r, i) <= 8,
        first_free(r, i) < 8 ==> r[first_free(r, i)] == 0,
    decreases 8 - i,
{
    if i < 8 && r[i] != 0 {
        lemma_first_free_range(r, i + 1);
    }
}

/// An 8-byte boot-keyboard input report.
pub struct KbHidReport {
    bytes: Vec<u8>,
}

impl View for KbHidReport {
    type V = Seq<u8>;

    closed spec fn view(&self) -> Seq<u8> {
        self.bytes@
    }
}

/// Well-formed report bytes: boot layout, with the modifier byte and the
/// reserved byte zero (modifier remapping is not supported).
pub open spec fn report_wf(r: Seq<u8>) -> bool {
    &&& r.len() == 8
    &&& r[0] == 0
    &&& r[1] == 0
}

impl KbHidReport {
    /// The all-released report.
    pub fn new() -> (r: KbHidReport)
        ensures
            r@ =~= seq![0u8, 0, 0, 0, 0, 0, 0, 0],
            report_wf(r@),
    {
        KbHidReport { bytes: vec![0u8, 0, 0, 0, 0, 0, 0, 0] }
    }

    /// Registers `kc` as currently pressed.
    pub fn pressed(&mut self, kc: KeyCode)
        requires
            old(self)@.len() == 8,
        ensures
            final(self)@ == spec_pressed(old(self)@, kc.code),
    {
        if kc.code == 0 {
            return;
        }
        let mut i: usize = 2;
        while i < 8
            invariant
                2 <= i <= 8,
                self@ == old(self)@,
                self@.len() == 8,
                first_free(self@, 2) == first_free(self@, i as int),
                forall|k: int| 2 <= k < i ==> self@[k] != 0,
            decreases 8 - i,
        {
            let b = self.bytes[i];
            if b == 0 {
                self.bytes.set(i, kc.code);
                assert(first_free(old(self)@, 2) == i);
                return;
            }
            i = i + 1;
        }
        assert(first_free(self@, 2) == 8);
    }

    /// The raw 8 bytes of the report.
    pub fn as_bytes(&self) -> (r: &Vec<u8>)
        ensures
            r@ == self@,
    {
        &self.bytes
    }

    /// Builds a report from raw bytes; the device side uses this only in
    /// tests and for the control-channel response.
    pub fn from_bytes(bytes: Vec<u8>) -> (r: KbHidReport)
        ensures
            r@ == bytes@,
    {
        KbHidReport { bytes }
    }
}

impl PartialEq for KbHidReport {
    /// Two reports compare equal iff their bytes are equal.
    fn eq(&self, other: &Self) -> (r: bool) {
        bytes_equal(&self.bytes, &other.bytes)
    }
}

impl vstd::std_specs::cmp::PartialEqSpecImpl for KbHidReport {
    open spec fn obeys_eq_spec() -> bool {
        true
    }

    open spec fn eq_spec(&self, other: &Self) -> bool {
        self@ == other@
    }
}

/// Byte-wise comparison of two vectors.
pub fn bytes_equal(a: &Vec<u8>, b: &Vec<u8>) -> (r: bool)
    ensures
        r <==> a@ == b@,
{
    if a.len() != b.len() {
        proof {
            assert(a@ != b@);
        }
        return false;
    }
    let mut i: usize = 0;
    while i < a.len()
        invariant
            0 <= i <= a@.len(),
            a@.len() == b@.len(),
            forall|k: int| 0 <= k < i ==> a@[k] == b@[k],
        decreases a@.len() - i,
    {
        if a[i] != b[i] {
            proof {
                assert(a@[i as int] != b@[i as int]);
            }
            return false;
        }
        i = i + 1;
    }
    proof {
        assert(a@ =~= b@);
    }
    true
}

} // verus!
