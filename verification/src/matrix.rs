//! The key matrix: the mapping from the three physical buttons to usage
//! codes, its byte-level serialization, and the composition of a
//! boot-keyboard input report from debounced button states.

use vstd::prelude::*;

use crate::flash::{ConfigWriter, FlashError};
use crate::key_code::{
    mapping_valid, report_wf, spec_pressed, valid_usage, KbHidReport, KeyCode, NUM_BTS,
};
use crate::packets::AppCommand;

verus! {

/// The state of one button as the debouncer reports it.
#[derive(Debug, Clone, Copy, PartialEq, Eq, Structural)]
pub enum BtnState {
    UnPressed,
    ChangedToPressed,
    Repeat,
    ChangedToUnpressed,
}

/// A button contributes to the report iff it is currently down: either it
/// just transitioned to pressed or it is held.
pub open spec fn is_pressed(s: BtnState) -> bool {
    s is ChangedToPressed || s is Repeat
}

/// The mapping from button slots to usage codes.
#[derive(Debug)]
pub struct Matrix {
    layout: Vec<KeyCode>,
}

impl View for Matrix {
    type V = Seq<u8>;

    closed spec fn view(&self) -> Seq<u8> {
        self.layout@.map(|i: int, k: KeyCode| k.code)
    }
}

/// The mapping after a command touched it: a remap overwrites one slot,
/// persisting leaves the mapping itself unchanged.
pub open spec fn spec_apply(m: Seq<u8>, cmd: AppCommand) -> Seq<u8> {
    match cmd {
        AppCommand::Set1(k) => m.update(0, k.code),
        AppCommand::Set2(k) => m.update(1, k.code),
        AppCommand::Set3(k) => m.update(2, k.code),
        AppCommand::Save => m,
    }
}

/// Applying the same remap command twice is the same as applying it once.
pub proof fn lemma_apply_idempotent(m: Seq<u8>, cmd: AppCommand)
    requires
        m.len() == NUM_BTS,
        !(cmd is Save),
    ensures
        spec_apply(spec_apply(m, cmd), cmd) == spec_apply(m, cmd),
{
    match cmd {
        AppCommand::Set1(k) => {
            assert(m.update(0, k.code).update(0, k.code) =~= m.update(0, k.code));
        },
        AppCommand::Set2(k) => {
            assert(m.update(1, k.code).update(1, k.code) =~= m.update(1, k.code));
        },
        AppCommand::Set3(k) => {
            assert(m.update(2, k.code).update(2, k.code) =~= m.update(2, k.code));
        },
        AppCommand::Save => {},
    }
}

/// Serialization round trip: for a well-formed mapping, the bytes that
/// `to_bytes` yields decode again, to a mapping with the very same codes.
/// The hypotheses are the contracts of `to_bytes` and `from_bytes`.
pub proof fn lemma_serialization_round_trip(m: Matrix, b: Vec<u8>, r: Option<Matrix>)
    requires
        m.wf(),
        b@ == m@,
        mapping_valid(b@) ==> (r matches Some(m2) && m2@ == b@),
    ensures
        r matches Some(m2) && m2@ == m@,
{
}

/// The report bytes composed from the first `i` button slots.
pub open spec fn spec_compose(layout: Seq<u8>, states: Seq<BtnState>, i: int) -> Seq<u8>
    decreases i,
{
    if i <= 0 {
        seq![0u8, 0, 0, 0, 0, 0, 0, 0]
    } else {
        let prev = spec_compose(layout, states, i - 1);
        if is_pressed(states[i - 1]) {
            spec_pressed(prev, layout[i - 1])
        } else {
            prev
        }
    }
}

/// The pressed-key area holds the usage code `u` somewhere.
pub open spec fn report_contains(r: Seq<u8>, u: u8) -> bool {
    exists|j: int| 2 <= j < 8 && r[j] == u
}

/// A report whose pressed-key area holds exactly `n` codes, packed at the
/// front, with the modifier and reserved bytes zero.
pub open spec fn packed(r: Seq<u8>, n: int) -> bool {
    &&& r.len() == 8
    &&& r[0] == 0
    &&& r[1] == 0
    &&& 0 <= n <= 6
    &&& forall|j: int| 2 <= j < 2 + n ==> r[j] != 0
    &&& forall|j: int| 2 + n <= j < 8 ==> r[j] == 0
}

/// How many of the first `i` buttons are currently down.
pub open spec fn pressed_count(states: Seq<BtnState>, i: int) -> int
    decreases i,
{
    if i <= 0 {
        0
    } else {
        pressed_count(states, i - 1) + if is_pressed(states[i - 1]) {
            1int
        } else {
            0int
        }
    }
}

proof fn lemma_first_free_at(r: Seq<u8>, i: int, n: int)
    requires
        2 <= i <= 2 + n <= 8,
        r.len() == 8,
        forall|j: int| i <= j < 2 + n ==> r[j] != 0,
        2 + n < 8 ==> r[2 + n] == 0,
    ensures
        crate::key_code::first_free(r, i) == 2 + n,
    decreases 2 + n - i,
{
    if i < 2 + n {
        lemma_first_free_at(r, i + 1, n);
    }
}

/// Registering a fresh nonzero code in a packed report appends it right
/// after the codes already present, and the codes the area holds afterwards
/// are the old ones plus the new one.
proof fn lemma_pressed_packed(r: Seq<u8>, n: int, c: u8)
    requires
        packed(r, n),
        n < 6,
        c != 0,
    ensures
        packed(spec_pressed(r, c), n + 1),
        spec_pressed(r, c) == r.update(2 + n, c),
        forall|u: u8|
            u != 0 ==> (report_contains(spec_pressed(r, c), u) <==> report_contains(r, u) || u
                == c),
{
    lemma_first_free_at(r, 2, n);
    let upd = r.update(2 + n, c);
    assert(spec_pressed(r, c) == upd);
    assert forall|u: u8| u != 0 implies (report_contains(upd, u) <==> report_contains(r, u) || u
        == c) by {
        if report_contains(upd, u) {
            let j = choose|j: int| 2 <= j < 8 && upd[j] == u;
            if j == 2 + n {
                assert(u == c);
            } else {
                assert(r[j] == u);
            }
        }
        if u == c {
            assert(upd[2 + n] == u);
            assert(report_contains(upd, u));
        }
        if report_contains(r, u) {
            let j = choose|j: int| 2 <= j < 8 && r[j] == u;
            assert(j < 2 + n);
            assert(upd[j] == u);
            assert(report_contains(upd, u));
        }
    }
}

proof fn lemma_compose_props(layout: Seq<u8>, states: Seq<BtnState>, i: int)
    requires
        0 <= i <= layout.len(),
        layout.len() == NUM_BTS,
        states.len() == NUM_BTS,
        forall|t: int| 0 <= t < layout.len() ==> layout[t] != 0,
    ensures
        packed(spec_compose(layout, states, i), pressed_count(states, i)),
        pressed_count(states, i) <= i,
        forall|u: u8|
            u != 0 ==> (report_contains(spec_compose(layout, states, i), u) <==> exists|t: int|
                0 <= t < i && is_pressed(states[t]) && layout[t] == u),
    decreases i,
{
    if i <= 0 {
        let r = spec_compose(layout, states, i);
        assert(packed(r, 0));
        assert forall|u: u8| u != 0 implies !report_contains(r, u) by {
            if report_contains(r, u) {
                let j = choose|j: int| 2 <= j < 8 && r[j] == u;
                assert(r[j] == 0);
            }
        }
    } else {
        lemma_compose_props(layout, states, i - 1);
        let prev = spec_compose(layout, states, i - 1);
        let n = pressed_count(states, i - 1);
        let r = spec_compose(layout, states, i);
        if is_pressed(states[i - 1]) {
            let c = layout[i - 1];
            lemma_pressed_packed(prev, n, c);
            assert forall|u: u8| u != 0 implies (report_contains(r, u) <==> exists|t: int|
                0 <= t < i && is_pressed(states[t]) && layout[t] == u) by {
                if report_contains(r, u) {
                    if report_contains(prev, u) {
                        let t = choose|t: int|
                            0 <= t < i - 1 && is_pressed(states[t]) && layout[t] == u;
                        assert(0 <= t < i && is_pressed(states[t]) && layout[t] == u);
                    } else {
                        assert(u == c);
                        assert(0 <= i - 1 < i && is_pressed(states[i - 1]) && layout[i - 1]
                            == u);
                    }
                }
                if exists|t: int| 0 <= t < i && is_pressed(states[t]) && layout[t] == u {
                    let t = choose|t: int| 0 <= t < i && is_pressed(states[t]) && layout[t] == u;
                    if t < i - 1 {
                        assert(report_contains(prev, u));
                    } else {
                        assert(u == c);
                    }
                    assert(report_contains(prev, u) || u == c);
                    assert(r == spec_pressed(prev, c));
                    assert(report_contains(spec_pressed(prev, c), u));
                    assert(report_contains(r, u));
                }
            }
        } else {
            assert forall|u: u8| u != 0 implies (report_contains(r, u) <==> exists|t: int|
                0 <= t < i && is_pressed(states[t]) && layout[t] == u) by {
                if report_contains(r, u) {
                    let t = choose|t: int|
                        0 <= t < i - 1 && is_pressed(states[t]) && layout[t] == u;
                    assert(0 <= t < i && is_pressed(states[t]) && layout[t] == u);
                }
                if exists|t: int| 0 <= t < i && is_pressed(states[t]) && layout[t] == u {
                    let t = choose|t: int| 0 <= t < i && is_pressed(states[t]) && layout[t] == u;
                    assert(t < i - 1);
                    assert(report_contains(prev, u));
                }
            }
        }
    }
}

/// A composed report holds a usage code in its pressed-key area iff some
/// button slot mapped to that code is currently down; its modifier and
/// reserved bytes are zero.
pub proof fn lemma_report_contains(layout: Seq<u8>, states: Seq<BtnState>)
    requires
        mapping_valid(layout),
        states.len() == layout.len(),
    ensures
        report_wf(spec_compose(layout, states, layout.len() as int)),
        forall|u: u8|
            u != 0 ==> (report_contains(spec_compose(layout, states, layout.len() as int), u)
                <==> exists|t: int| 0 <= t < states.len() && is_pressed(states[t]) && layout[t]
                == u),
{
    assert forall|t: int| 0 <= t < layout.len() implies layout[t] != 0 by {
        assert(valid_usage(layout[t]));
    }
    lemma_compose_props(layout, states, layout.len() as int);
}

/// Two reports composed from the same mapping and the same debouncer
/// snapshot are byte-equal.
pub proof fn lemma_report_stable(layout: Seq<u8>, states: Seq<BtnState>, r1: Seq<u8>, r2: Seq<u8>)
    requires
        r1 == spec_compose(layout, states, layout.len() as int),
        r2 == spec_compose(layout, states, layout.len() as int),
    ensures
        r1 == r2,
{
}

impl Matrix {
    /// A matrix is well formed iff it maps every slot to a valid usage code.
    pub open spec fn wf(&self) -> bool {
        mapping_valid(self@)
    }

    /// The factory-default mapping `[A, B, C]`.
    pub fn new() -> (m: Matrix)
        ensures
            m@ =~= seq![0x04u8, 0x05, 0x06],
            m.wf(),
    {
        let layout = vec![
            KeyCode { code: 0x04 },
            KeyCode { code: 0x05 },
            KeyCode { code: 0x06 },
        ];
        let m = Matrix { layout };
        proof {
            assert(m@ =~= seq![0x04u8, 0x05, 0x06]);
        }
        m
    }

    /// The usage code of one slot.
    pub fn slot(&self, i: usize) -> (r: KeyCode)
        requires
            i < self@.len(),
        ensures
            r.code == self@[i as int],
    {
        self.layout[i]
    }

    /// Overwrites one slot of the mapping.
    pub fn set_slot(&mut self, i: usize, k: KeyCode)
        requires
            i < old(self)@.len(),
        ensures
            final(self)@ == old(self)@.update(i as int, k.code),
    {
        self.layout.set(i, k);
        proof {
            assert(self@ =~= old(self)@.update(i as int, k.code));
        }
    }

    /// The mapping as its three raw bytes, one usage code per byte.
    pub fn to_bytes(&self) -> (b: Vec<u8>)
        ensures
            b@ == self@,
    {
        let mut b: Vec<u8> = Vec::new();
        let mut i: usize = 0;
        while i < self.layout.len()
            invariant
                0 <= i <= self.layout@.len(),
                b@.len() == i,
                forall|t: int| 0 <= t < i ==> b@[t] == self@[t],
            decreases self.layout@.len() - i,
        {
            b.push(self.layout[i].code);
            i = i + 1;
        }
        proof {
            assert(b@ =~= self@);
        }
        b
    }

    /// Rebuilds a mapping from raw bytes, rejecting any byte that is not a
    /// valid usage code and any length other than one byte per button.
    pub fn from_bytes(bytes: &Vec<u8>) -> (r: Option<Matrix>)
        ensures
            mapping_valid(bytes@) ==> (r matches Some(m) && m@ == bytes@ && m.wf()),
            !mapping_valid(bytes@) ==> r is None,
    {
        if bytes.len() != NUM_BTS {
            return None;
        }
        let mut layout: Vec<KeyCode> = Vec::new();
        let mut i: usize = 0;
        while i < bytes.len()
            invariant
                0 <= i <= bytes@.len(),
                layout@.len() == i,
                forall|t: int| 0 <= t < i ==> layout@[t].code == bytes@[t],
                forall|t: int| 0 <= t < i ==> valid_usage(bytes@[t]),
            decreases bytes@.len() - i,
        {
            match KeyCode::try_from_byte(bytes[i]) {
                Some(k) => layout.push(k),
                None => {
                    return None;
                },
            }
            i = i + 1;
        }
        let m = Matrix { layout };
        proof {
            assert(m@ =~= bytes@);
        }
        Some(m)
    }

    /// Applies one dequeued command: a remap overwrites the slot in RAM and
    /// never touches flash; persisting stores the current mapping through
    /// the writer.
    pub fn update_layout(&mut self, command: AppCommand, writer: &mut ConfigWriter) -> (r: Result<
        (),
        FlashError,
    >)
        requires
            old(self).wf(),
            command.wf(),
            old(writer).wf(),
        ensures
            final(self).wf(),
            final(writer).wf(),
            final(self)@ == spec_apply(old(self)@, command),
            !(command is Save) ==> (r is Ok && *final(writer) == *old(writer)),
            command is Save ==> crate::flash::store_post(
                old(writer).page_view(),
                old(writer).lvi(),
                final(writer).page_view(),
                final(writer).lvi(),
                old(self)@,
                r,
            ),
    {
        match command {
            AppCommand::Set1(value) => {
                self.set_slot(0, value);
                Ok(())
            },
            AppCommand::Set2(value) => {
                self.set_slot(1, value);
                Ok(())
            },
            AppCommand::Set3(value) => {
                self.set_slot(2, value);
                Ok(())
            },
            AppCommand::Save => writer.write_config(self),
        }
    }

    /// Composes the boot-keyboard report for the given button states: every
    /// slot whose button is currently down contributes its usage code, in
    /// slot order; the modifier and reserved bytes stay zero.
    pub fn update(&self, states: &Vec<BtnState>) -> (r: KbHidReport)
        requires
            self.wf(),
            states@.len() == self@.len(),
        ensures
            r@ == spec_compose(self@, states@, self@.len() as int),
            report_wf(r@),
    {
        proof {
            lemma_report_contains(self@, states@);
        }
        let mut report = KbHidReport::new();
        let mut i: usize = 0;
        while i < self.layout.len()
            invariant
                0 <= i <= self@.len(),
                states@.len() == self@.len(),
                report@.len() == 8,
                report@ == spec_compose(self@, states@, i as int),
            decreases self@.len() - i,
        {
            let s = states[i];
            let down = match s {
                BtnState::ChangedToPressed => true,
                BtnState::Repeat => true,
                _ => false,
            };
            if down {
                proof {
                    crate::key_code::lemma_first_free_range(report@, 2);
                }
                report.pressed(self.layout[i]);
            }
            i = i + 1;
        }
        report
    }
}

} // verus!
