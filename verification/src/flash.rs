//! The wear-leveled flash configuration store.
//!
//! Successive configurations are appended into a single erase page, one
//! fixed-size entry per slot; the last committed entry is the live one, and
//! the page is erased only when it is full.  The page itself is modeled as
//! data: programming works on 16-bit half-words and, as on the target
//! flash, can only succeed on half-words that read as erased.  The device
//! adapter performs the register-level unlock/erase/program protocol and
//! feeds the resulting bytes through the same interface; hardware-only
//! faults (unlock, erase, read-back verification) share the error type but
//! never arise in the model.

use vstd::prelude::*;

use crate::key_code::{mapping_valid, NUM_BTS};
use crate::matrix::Matrix;

verus! {

/// Size in bytes of one erase page.
pub const PAGE_SIZE: usize = 1024;

/// Size in bytes of one configuration entry: a magic byte plus one usage
/// code per button, padded to a whole number of 16-bit half-words.
pub const CONFIG_SIZE: usize = 4;

/// Number of entry slots in the page.
pub const CONFIGS_IN_PAGE: usize = PAGE_SIZE / CONFIG_SIZE;

/// Marker byte of a committed entry.
pub const MAGIC: u8 = 0x55;

/// Value every erased flash byte reads as.
pub const ERASED: u8 = 0xFF;

/// Errors of the flash store.  The first three arise only from the flash
/// peripheral itself and are surfaced by the device adapter; the in-memory
/// page model never raises them.
#[derive(Debug, Clone, Copy, PartialEq, Eq, Structural)]
pub enum FlashError {
    /// The flash cannot be unlocked; terminal until reset.
    UnlockError,
    /// Programmed or erased bytes do not read back as written.
    VerificationError,
    /// A write-protection fault during erase.
    EraseError,
    /// A destination outside the config page, or an odd byte count.
    WrongRange,
    /// A half-word write failed; on the model, the target was not erased.
    ProgrammingError,
    /// The append target slot is not in the erased state.
    FlashNotErased,
}

/// First byte of slot `i`.
pub open spec fn slot_base(i: int) -> int {
    i * (CONFIG_SIZE as int)
}

/// Result of programming `data` into the page `p` at `start`, half-word by
/// half-word: the page afterwards, and whether every half-word was erased
/// and the write ran to completion.
pub open spec fn spec_program(p: Seq<u8>, start: int, data: Seq<u8>) -> (Seq<u8>, bool)
    decreases data.len(),
{
    if data.len() < 2 {
        (p, true)
    } else if p[start] == ERASED && p[start + 1] == ERASED {
        spec_program(
            p.update(start, data[0]).update(start + 1, data[1]),
            start + 2,
            data.skip(2),
        )
    } else {
        (p, false)
    }
}

/// Programming never touches bytes outside the destination range.
pub proof fn lemma_program_frame(p: Seq<u8>, start: int, data: Seq<u8>)
    requires
        0 <= start,
        start + data.len() <= p.len(),
    ensures
        ({
            let qok = spec_program(p, start, data);
            &&& qok.0.len() == p.len()
            &&& forall|i: int|
                0 <= i < p.len() && !(start <= i < start + data.len()) ==> qok.0[i] == p[i]
        }),
    decreases data.len(),
{
    if data.len() >= 2 && p[start] == ERASED && p[start + 1] == ERASED {
        let p2 = p.update(start, data[0]).update(start + 1, data[1]);
        lemma_program_frame(p2, start + 2, data.skip(2));
        assert(spec_program(p, start, data) == spec_program(p2, start + 2, data.skip(2)));
        assert(data.skip(2).len() == data.len() - 2);
        let q = spec_program(p, start, data).0;
        assert forall|i: int|
            0 <= i < p.len() && !(start <= i < start + data.len()) implies q[i] == p[i] by {
            assert(q[i] == p2[i]);
        }
    }
}

/// A write that ran to completion put exactly the data bytes in place.
pub proof fn lemma_program_ok(p: Seq<u8>, start: int, data: Seq<u8>)
    requires
        0 <= start,
        start + data.len() <= p.len(),
        data.len() % 2 == 0,
    ensures
        ({
            let qok = spec_program(p, start, data);
            qok.1 ==> forall|i: int|
                start <= i < start + data.len() ==> qok.0[i] == data[i - start]
        }),
    decreases data.len(),
{
    if data.len() >= 2 && p[start] == ERASED && p[start + 1] == ERASED {
        let p2 = p.update(start, data[0]).update(start + 1, data[1]);
        lemma_program_ok(p2, start + 2, data.skip(2));
        lemma_program_frame(p2, start + 2, data.skip(2));
        assert(spec_program(p, start, data) == spec_program(p2, start + 2, data.skip(2)));
        let qok = spec_program(p, start, data);
        if qok.1 {
            assert forall|i: int|
                start <= i < start + data.len() implies qok.0[i] == data[i - start] by {
                if i >= start + 2 {
                    assert(qok.0[i] == data.skip(2)[i - (start + 2)]);
                } else {
                    assert(qok.0[i] == p2[i]);
                }
            }
        }
    }
}

/// Programming a fully erased destination runs to completion.
pub proof fn lemma_program_erased(p: Seq<u8>, start: int, data: Seq<u8>)
    requires
        0 <= start,
        start + data.len() <= p.len(),
        data.len() % 2 == 0,
        forall|i: int| start <= i < start + data.len() ==> p[i] == ERASED,
    ensures
        ({
            let qok = spec_program(p, start, data);
            &&& qok.1
            &&& qok.0.len() == p.len()
            &&& forall|i: int| start <= i < start + data.len() ==> qok.0[i] == data[i - start]
            &&& forall|i: int|
                0 <= i < p.len() && !(start <= i < start + data.len()) ==> qok.0[i] == p[i]
        }),
    decreases data.len(),
{
    lemma_program_frame(p, start, data);
    lemma_program_ok(p, start, data);
    if data.len() >= 2 {
        assert(p[start] == ERASED && p[start + 1] == ERASED);
        let p2 = p.update(start, data[0]).update(start + 1, data[1]);
        lemma_program_erased(p2, start + 2, data.skip(2));
    }
}

/// One erase page of flash, held as bytes.
pub struct FlashPage {
    bytes: Vec<u8>,
}

impl View for FlashPage {
    type V = Seq<u8>;

    closed spec fn view(&self) -> Seq<u8> {
        self.bytes@
    }
}

impl FlashPage {
    /// A page always holds exactly one erase page of bytes.
    pub open spec fn wf(&self) -> bool {
        self@.len() == PAGE_SIZE
    }

    /// A fully erased page.
    pub fn new_erased() -> (p: FlashPage)
        ensures
            p.wf(),
            forall|i: int| 0 <= i < PAGE_SIZE ==> p@[i] == ERASED,
    {
        let mut bytes: Vec<u8> = Vec::new();
        let mut i: usize = 0;
        while i < PAGE_SIZE
            invariant
                0 <= i <= PAGE_SIZE,
                bytes@.len() == i,
                forall|t: int| 0 <= t < i ==> bytes@[t] == ERASED,
            decreases PAGE_SIZE - i,
        {
            bytes.push(ERASED);
            i = i + 1;
        }
        FlashPage { bytes }
    }

    /// A page built from bytes the device adapter read back.
    pub fn from_bytes(bytes: Vec<u8>) -> (p: FlashPage)
        requires
            bytes@.len() == PAGE_SIZE,
        ensures
            p@ == bytes@,
            p.wf(),
    {
        FlashPage { bytes }
    }

    /// One byte of the page.
    pub fn read_byte(&self, i: usize) -> (b: u8)
        requires
            self.wf(),
            i < PAGE_SIZE,
        ensures
            b == self@[i as int],
    {
        self.bytes[i]
    }

    /// A range of bytes of the page; rejects a range that leaves the page.
    pub fn read(&self, start: usize, length: usize) -> (r: Result<Vec<u8>, FlashError>)
        requires
            self.wf(),
        ensures
            start + length <= PAGE_SIZE ==> (r matches Ok(v) && v@ == self@.subrange(
                start as int,
                start + length,
            )),
            start + length > PAGE_SIZE ==> r == Err::<Vec<u8>, FlashError>(FlashError::WrongRange),
    {
        if start > PAGE_SIZE || length > PAGE_SIZE - start {
            return Err(FlashError::WrongRange);
        }
        let mut v: Vec<u8> = Vec::new();
        let mut i: usize = 0;
        while i < length
            invariant
                0 <= i <= length,
                start + length <= PAGE_SIZE,
                self@.len() == PAGE_SIZE,
                v@.len() == i,
                forall|t: int| 0 <= t < i ==> v@[t] == self@[start + t],
            decreases length - i,
        {
            v.push(self.bytes[start + i]);
            i = i + 1;
        }
        proof {
            assert(v@ =~= self@.subrange(start as int, start + length));
        }
        Ok(v)
    }

    /// Erases the whole page.
    pub fn erase(&mut self)
        requires
            old(self).wf(),
        ensures
            final(self).wf(),
            forall|i: int| 0 <= i < PAGE_SIZE ==> final(self)@[i] == ERASED,
    {
        *self = FlashPage::new_erased();
    }

    /// Programs `data` at byte offset `start`, two bytes per half-word
    /// write.  A half-word whose destination is not erased stops the write
    /// with `ProgrammingError`, leaving the earlier half-words in place; a
    /// range outside the page, or an odd byte count, is rejected untouched.
    pub fn program(&mut self, start: usize, data: &Vec<u8>) -> (r: Result<(), FlashError>)
        requires
            old(self).wf(),
        ensures
            final(self).wf(),
            (start + data@.len() > PAGE_SIZE || data@.len() % 2 != 0) ==> (r == Err::<
                (),
                FlashError,
            >(FlashError::WrongRange) && final(self)@ == old(self)@),
            (start + data@.len() <= PAGE_SIZE && data@.len() % 2 == 0) ==> ({
                let qok = spec_program(old(self)@, start as int, data@);
                &&& final(self)@ == qok.0
                &&& (r is Ok <==> qok.1)
                &&& (!qok.1 ==> r == Err::<(), FlashError>(FlashError::ProgrammingError))
            }),
    {
        if data.len() % 2 != 0 || start > PAGE_SIZE || data.len() > PAGE_SIZE - start {
            return Err(FlashError::WrongRange);
        }
        let ghost p0 = self@;
        proof {
            assert(data@.skip(0) =~= data@);
        }
        let mut k: usize = 0;
        while k < data.len()
            invariant
                0 <= k <= data@.len(),
                k % 2 == 0,
                data@.len() % 2 == 0,
                start + data@.len() <= PAGE_SIZE,
                self@.len() == PAGE_SIZE,
                p0 == old(self)@,
                spec_program(p0, start as int, data@) == spec_program(
                    self@,
                    start + k,
                    data@.skip(k as int),
                ),
            decreases data@.len() - k,
        {
            proof {
                assert(data@.skip(k as int).len() == data@.len() - k);
                assert((data@.len() - k) % 2 == 0);
                assert(data@.len() - k >= 2);
                assert(data@.skip(k as int)[0] == data@[k as int]);
                assert(data@.skip(k as int)[1] == data@[k as int + 1]);
            }
            let lo = self.bytes[start + k];
            let hi = self.bytes[start + k + 1];
            if lo != ERASED || hi != ERASED {
                proof {
                    assert(spec_program(self@, start + k, data@.skip(k as int)) == (self@, false));
                }
                return Err(FlashError::ProgrammingError);
            }
            self.bytes.set(start + k, data[k]);
            self.bytes.set(start + k + 1, data[k + 1]);
            proof {
                assert(data@.skip(k as int).skip(2) =~= data@.skip(k as int + 2));
            }
            k = k + 2;
        }
        Ok(())
    }
}

/// Bytes of a mapping's payload as stored at slot `lvi`.
pub open spec fn stored_bytes(p: Seq<u8>, lvi: int) -> Seq<u8> {
    p.subrange(slot_base(lvi) + 1, slot_base(lvi) + 1 + (NUM_BTS as int))
}

/// The configuration the page holds at slot `lvi`: the payload bytes when
/// they are all valid usage codes, nothing otherwise.
pub open spec fn spec_config(p: Seq<u8>, lvi: int) -> Option<Seq<u8>> {
    if mapping_valid(stored_bytes(p, lvi)) {
        Some(stored_bytes(p, lvi))
    } else {
        None
    }
}

/// One serialized entry: the magic marker followed by the mapping bytes.
pub open spec fn entry_bytes(m: Seq<u8>) -> Seq<u8>
    recommends
        m.len() == NUM_BTS,
{
    seq![MAGIC, m[0], m[1], m[2]]
}

/// The factory-default mapping `[A, B, C]`.
pub open spec fn default_mapping() -> Seq<u8> {
    seq![0x04u8, 0x05, 0x06]
}

/// A page holding `e` at slot 0 and erased bytes everywhere else.
pub open spec fn fresh_page_with(e: Seq<u8>) -> Seq<u8> {
    Seq::new(PAGE_SIZE as nat, |i: int| if 0 <= i < e.len() { e[i] } else { ERASED })
}

/// The full relation of one store operation on the page and the committed
/// index.  While a next slot exists, the entry is appended there — the
/// slot must read as erased, and every half-word must still program — and
/// the index moves up; on a full page, the page is erased and the entry
/// becomes slot 0.  On success the committed configuration is exactly the
/// mapping stored.
pub open spec fn store_post(
    pre_page: Seq<u8>,
    pre_lvi: int,
    post_page: Seq<u8>,
    post_lvi: int,
    m: Seq<u8>,
    r: Result<(), FlashError>,
) -> bool {
    &&& (r is Ok ==> spec_config(post_page, post_lvi) == Some(m))
    &&& ((pre_lvi + 1 < CONFIGS_IN_PAGE && pre_page[slot_base(pre_lvi + 1)] != ERASED) ==> ({
        &&& r == Err::<(), FlashError>(FlashError::FlashNotErased)
        &&& post_page == pre_page
        &&& post_lvi == pre_lvi
    }))
    &&& ((pre_lvi + 1 < CONFIGS_IN_PAGE && pre_page[slot_base(pre_lvi + 1)] == ERASED) ==> ({
        let qok = spec_program(pre_page, slot_base(pre_lvi + 1), entry_bytes(m));
        &&& post_page == qok.0
        &&& (r is Ok <==> qok.1)
        &&& (!qok.1 ==> r == Err::<(), FlashError>(FlashError::ProgrammingError) && post_lvi
            == pre_lvi)
        &&& (r is Ok ==> post_lvi == pre_lvi + 1)
        &&& forall|i: int|
            0 <= i < PAGE_SIZE && !(slot_base(pre_lvi + 1) <= i < slot_base(pre_lvi + 1)
                + CONFIG_SIZE) ==> post_page[i] == pre_page[i]
    }))
    &&& (pre_lvi + 1 == CONFIGS_IN_PAGE ==> ({
        &&& r is Ok
        &&& post_lvi == 0
        &&& post_page == fresh_page_with(entry_bytes(m))
    }))
}

/// How successive stores fill the page: while a slot is left, a
/// successful append commits the entry to the next slot, moves the index
/// up by one, and leaves every byte before that slot — all earlier
/// entries included — unchanged, so stores from a fresh page fill slots
/// one by one; the append at the last slot erases the page and restarts
/// at slot 0, with the following slot reading as erased again.  Either
/// way, every slot up to the committed index starts with the magic
/// marker, and the committed slot holds exactly the entry written.
pub proof fn lemma_store_progression(
    pre_page: Seq<u8>,
    pre_lvi: int,
    post_page: Seq<u8>,
    post_lvi: int,
    m: Seq<u8>,
    r: Result<(), FlashError>,
)
    requires
        pre_page.len() == PAGE_SIZE,
        0 <= pre_lvi < CONFIGS_IN_PAGE,
        forall|i: int| 0 <= i <= pre_lvi ==> #[trigger] pre_page[slot_base(i)] == MAGIC,
        m.len() == NUM_BTS,
        store_post(pre_page, pre_lvi, post_page, post_lvi, m, r),
        r is Ok,
    ensures
        pre_lvi + 1 < CONFIGS_IN_PAGE ==> (post_lvi == pre_lvi + 1 && forall|i: int|
            0 <= i < slot_base(pre_lvi + 1) ==> post_page[i] == pre_page[i]),
        pre_lvi + 1 == CONFIGS_IN_PAGE ==> (post_lvi == 0 && post_page[slot_base(1)] == ERASED),
        forall|i: int| 0 <= i <= post_lvi ==> #[trigger] post_page[slot_base(i)] == MAGIC,
        post_page.subrange(slot_base(post_lvi), slot_base(post_lvi) + (CONFIG_SIZE as int))
            =~= entry_bytes(m),
{
    if pre_lvi + 1 < CONFIGS_IN_PAGE {
        let next = slot_base(pre_lvi + 1);
        assert(pre_page[next] == ERASED) by {
            if pre_page[next] != ERASED {
                assert(r == Err::<(), FlashError>(FlashError::FlashNotErased));
            }
        }
        let qok = spec_program(pre_page, next, entry_bytes(m));
        lemma_program_frame(pre_page, next, entry_bytes(m));
        lemma_program_ok(pre_page, next, entry_bytes(m));
        assert forall|i: int| 0 <= i <= post_lvi implies #[trigger] post_page[slot_base(i)]
            == MAGIC by {
            if i <= pre_lvi {
                assert(pre_page[slot_base(i)] == MAGIC);
                assert(post_page[slot_base(i)] == pre_page[slot_base(i)]);
            } else {
                assert(qok.0[next] == entry_bytes(m)[0]);
            }
        }
        assert forall|j: int| 0 <= j < CONFIG_SIZE implies post_page[slot_base(post_lvi) + j]
            == entry_bytes(m)[j] by {
            assert(qok.0[next + j] == entry_bytes(m)[j]);
        }
    } else {
        let fresh = fresh_page_with(entry_bytes(m));
        assert(post_page == fresh);
        assert(fresh[slot_base(1)] == ERASED);
        assert forall|j: int| 0 <= j < CONFIG_SIZE implies post_page[slot_base(0) + j]
            == entry_bytes(m)[j] by {
            assert(fresh[j] == entry_bytes(m)[j]);
        }
    }
}

/// The wear-leveled store: the config page and the index of the last
/// committed slot.
pub struct ConfigWriter {
    page: FlashPage,
    last_valid_index: usize,
}

impl ConfigWriter {
    /// The bytes of the config page.
    pub closed spec fn page_view(&self) -> Seq<u8> {
        self.page@
    }

    /// The index of the last committed slot.
    pub closed spec fn lvi(&self) -> int {
        self.last_valid_index as int
    }

    /// The store invariant: the index stays inside the page, and every slot
    /// up to it starts with the magic marker.
    pub open spec fn wf(&self) -> bool {
        &&& self.page_view().len() == PAGE_SIZE
        &&& 0 <= self.lvi() < CONFIGS_IN_PAGE
        &&& forall|i: int|
            0 <= i <= self.lvi() ==> #[trigger] self.page_view()[slot_base(i)] == MAGIC
    }

    /// The index of the last committed slot, as the scan task reads it.
    pub fn last_valid_index(&self) -> (r: usize)
        ensures
            r == self.lvi(),
    {
        self.last_valid_index
    }

    /// The raw page bytes, for inspection.
    pub fn page(&self) -> (r: &FlashPage)
        ensures
            r@ == self.page_view(),
    {
        &self.page
    }

    /// Index of the slot after the last run of committed slots starting at
    /// slot 0, minus one: the index `open` recovers on boot.
    pub open spec fn scan_lvi(p: Seq<u8>, i: int) -> int
        decreases CONFIGS_IN_PAGE - i when i <= CONFIGS_IN_PAGE
    {
        if i >= CONFIGS_IN_PAGE {
            i - 1
        } else if p[slot_base(i)] != MAGIC {
            i - 1
        } else {
            Self::scan_lvi(p, i + 1)
        }
    }

    /// Opens the store on a page: a page without a committed slot 0 is
    /// reset to the factory default; otherwise the scan recovers the last
    /// committed slot and the page is left untouched.
    pub fn new(page: FlashPage) -> (r: Result<ConfigWriter, FlashError>)
        requires
            page.wf(),
        ensures
            r matches Ok(w) && w.wf(),
            page@[0] != MAGIC ==> ({
                &&& r matches Ok(w)
                &&& w.lvi() == 0
                &&& w.page_view() == fresh_page_with(entry_bytes(default_mapping()))
                &&& spec_config(w.page_view(), 0) == Some(default_mapping())
            }),
            page@[0] == MAGIC ==> ({
                &&& r matches Ok(w)
                &&& w.page_view() == page@
                &&& w.lvi() == Self::scan_lvi(page@, 1)
            }),
    {
        let mut w = ConfigWriter { page, last_valid_index: 0 };
        if w.page.read_byte(0) != MAGIC {
            match w.write_default() {
                Ok(()) => Ok(w),
                Err(e) => Err(e),
            }
        } else {
            let mut i: usize = 1;
            while i < CONFIGS_IN_PAGE && w.page.read_byte(i * CONFIG_SIZE) == MAGIC
                invariant
                    1 <= i <= CONFIGS_IN_PAGE,
                    w.page_view() == page@,
                    page@.len() == PAGE_SIZE,
                    page@[0] == MAGIC,
                    forall|t: int| 0 <= t < i ==> #[trigger] page@[slot_base(t)] == MAGIC,
                    Self::scan_lvi(page@, 1) == Self::scan_lvi(page@, i as int),
                decreases CONFIGS_IN_PAGE - i,
            {
                i = i + 1;
            }
            w.last_valid_index = i - 1;
            Ok(w)
        }
    }

    /// Erases the page and commits the factory-default mapping to slot 0.
    pub fn write_default(&mut self) -> (r: Result<(), FlashError>)
        requires
            old(self).page_view().len() == PAGE_SIZE,
        ensures
            r is Ok,
            final(self).wf(),
            final(self).lvi() == 0,
            final(self).page_view() == fresh_page_with(entry_bytes(default_mapping())),
            spec_config(final(self).page_view(), 0) == Some(default_mapping()),
    {
        self.page.erase();
        let ghost erased_page = self.page@;
        let m = Matrix::new();
        let bytes = m.to_bytes();
        let mut entry: Vec<u8> = Vec::new();
        entry.push(MAGIC);
        entry.push(bytes[0]);
        entry.push(bytes[1]);
        entry.push(bytes[2]);
        proof {
            assert(entry@ =~= entry_bytes(default_mapping()));
            lemma_program_erased(erased_page, 0, entry@);
        }
        let res = self.page.program(0, &entry);
        if res.is_err() {
            return res;
        }
        self.last_valid_index = 0;
        proof {
            let e = entry_bytes(default_mapping());
            let qok = spec_program(erased_page, 0, entry@);
            assert(self.page_view() == qok.0);
            assert forall|i: int| 0 <= i < PAGE_SIZE implies self.page_view()[i] == (if 0 <= i
                < e.len() {
                e[i]
            } else {
                ERASED
            }) by {
                if 0 <= i < e.len() {
                    assert(qok.0[i] == entry@[i - 0]);
                } else {
                    assert(qok.0[i] == erased_page[i]);
                }
            }
            assert(self.page_view() =~= fresh_page_with(e));
            assert(stored_bytes(self.page_view(), 0) =~= default_mapping());
        }
        Ok(())
    }

    /// The committed configuration, if its payload decodes to valid usage
    /// codes; a corrupted payload yields nothing.
    pub fn get_config(&self) -> (r: Option<Matrix>)
        requires
            self.wf(),
        ensures
            spec_config(self.page_view(), self.lvi()) matches Some(m) ==> (r matches Some(mx)
                && mx@ == m && mx.wf()),
            spec_config(self.page_view(), self.lvi()) is None ==> r is None,
    {
        let base = self.last_valid_index * CONFIG_SIZE;
        let data = match self.page.read(base + 1, NUM_BTS) {
            Ok(d) => d,
            Err(_) => {
                return None;
            },
        };
        proof {
            assert(data@ =~= stored_bytes(self.page_view(), self.lvi()));
        }
        Matrix::from_bytes(&data)
    }

    /// Appends the mapping as a new entry.  While a next slot exists, the
    /// entry goes there — provided the slot reads as erased — and the index
    /// moves up; on a full page, the page is erased and the entry becomes
    /// slot 0.  On success the committed configuration is exactly the
    /// mapping written.
    pub fn write_config(&mut self, matrix: &Matrix) -> (r: Result<(), FlashError>)
        requires
            old(self).wf(),
            matrix.wf(),
        ensures
            final(self).wf(),
            store_post(
                old(self).page_view(),
                old(self).lvi(),
                final(self).page_view(),
                final(self).lvi(),
                matrix@,
                r,
            ),
    {
        let bytes = matrix.to_bytes();
        let mut entry: Vec<u8> = Vec::new();
        entry.push(MAGIC);
        entry.push(bytes[0]);
        entry.push(bytes[1]);
        entry.push(bytes[2]);
        proof {
            assert(entry@ =~= entry_bytes(matrix@));
        }
        if self.last_valid_index + 1 < CONFIGS_IN_PAGE {
            let next = (self.last_valid_index + 1) * CONFIG_SIZE;
            if self.page.read_byte(next) != ERASED {
                return Err(FlashError::FlashNotErased);
            }
            proof {
                lemma_program_frame(self.page_view(), next as int, entry@);
                lemma_program_ok(self.page_view(), next as int, entry@);
            }
            let res = self.page.program(next, &entry);
            match res {
                Ok(()) => {
                    self.last_valid_index = self.last_valid_index + 1;
                    proof {
                        let qok = spec_program(
                            old(self).page_view(),
                            next as int,
                            entry@,
                        );
                        assert(self.page_view() == qok.0);
                        assert forall|i: int| 0 <= i <= self.lvi() implies #[trigger] self
                            .page_view()[slot_base(i)] == MAGIC by {
                            if i < self.lvi() {
                                assert(old(self).page_view()[slot_base(i)] == MAGIC);
                                assert(qok.0[slot_base(i)] == old(self).page_view()[slot_base(i)]);
                            } else {
                                assert(qok.0[next as int] == entry@[0]);
                            }
                        }
                        assert forall|j: int| 0 <= j < NUM_BTS implies stored_bytes(
                            self.page_view(),
                            self.lvi(),
                        )[j] == matrix@[j] by {
                            assert(qok.0[next + 1 + j] == entry@[1 + j]);
                        }
                        assert(stored_bytes(self.page_view(), self.lvi()) =~= matrix@);
                    }
                    Ok(())
                },
                Err(e) => {
                    proof {
                        let qok = spec_program(
                            old(self).page_view(),
                            next as int,
                            entry@,
                        );
                        assert(self.page_view() == qok.0);
                        assert forall|i: int| 0 <= i <= self.lvi() implies #[trigger] self
                            .page_view()[slot_base(i)] == MAGIC by {
                            assert(old(self).page_view()[slot_base(i)] == MAGIC);
                            assert(qok.0[slot_base(i)] == old(self).page_view()[slot_base(i)]);
                        }
                    }
                    Err(e)
                },
            }
        } else {
            self.page.erase();
            let ghost erased_page = self.page@;
            proof {
                lemma_program_erased(erased_page, 0, entry@);
            }
            let res = self.page.program(0, &entry);
            if res.is_err() {
                return res;
            }
            self.last_valid_index = 0;
            proof {
                let e = entry_bytes(matrix@);
                let qok = spec_program(erased_page, 0, entry@);
                assert(self.page_view() == qok.0);
                assert forall|i: int| 0 <= i < PAGE_SIZE implies self.page_view()[i] == (if 0 <= i
                    < e.len() {
                    e[i]
                } else {
                    ERASED
                }) by {
                    if 0 <= i < e.len() {
                        assert(qok.0[i] == entry@[i - 0]);
                    } else {
                        assert(qok.0[i] == erased_page[i]);
                    }
                }
                assert(self.page_view() =~= fresh_page_with(e));
                assert(stored_bytes(self.page_view(), 0) =~= matrix@);
            }
            Ok(())
        }
    }
}

} // verus!
