//! The decisions of the periodic scan task: turning a debounced sample
//! into at most one endpoint write, and applying one dequeued command to
//! the mapping and the flash store, with the local recovery the store's
//! errors call for.
//!
//! The device adapter binds these to the scan timer: it samples the GPIO
//! port, runs its debouncer, calls `scan_report` under its critical
//! section with the HID class object, performs the endpoint write the
//! result asks for, and panics on the error `handle_command` passes up,
//! as persistent storage is then unusable.

use vstd::prelude::*;

use crate::flash::{
    entry_bytes, fresh_page_with, lemma_program_erased, slot_base, spec_config, ConfigWriter,
    FlashError,
};
use crate::hid::Keykey;
use crate::key_code::report_wf;
use crate::matrix::{spec_apply, spec_compose, BtnState, Matrix};
use crate::packets::AppCommand;

verus! {

/// One scan tick's report path: composes the report for the sampled
/// states, stores it in the class object, and — when it differs from the
/// report last streamed and no transfer is in flight — yields the bytes
/// to write to the interrupt endpoint.  An unchanged report is never
/// retransmitted; a changed one is retransmitted once the in-flight
/// transfer completes and the report changes again.
pub fn scan_report(keykey: &mut Keykey, matrix: &Matrix, states: &Vec<BtnState>) -> (out: Option<
    Vec<u8>,
>)
    requires
        old(keykey).wf(),
        matrix.wf(),
        states@.len() == matrix@.len(),
    ensures
        final(keykey).wf(),
        final(keykey).spec_queue() == old(keykey).spec_queue(),
        final(keykey).spec_endpoint_addr() == old(keykey).spec_endpoint_addr(),
        ({
            let rep = spec_compose(matrix@, states@, matrix@.len() as int);
            &&& final(keykey).spec_report() == rep
            &&& report_wf(rep)
            &&& (rep == old(keykey).spec_report() ==> (out is None && final(keykey).spec_expect()
                == old(keykey).spec_expect()))
            &&& (rep != old(keykey).spec_report() && old(keykey).spec_expect() ==> (out is None
                && final(keykey).spec_expect()))
            &&& (rep != old(keykey).spec_report() && !old(keykey).spec_expect() ==> (
            out matches Some(v) && v@ == rep && final(keykey).spec_expect()))
        }),
{
    let report = matrix.update(states);
    let changed = keykey.set_keyboard_report(report);
    if changed {
        if keykey.write(8) {
            Some(keykey.report_bytes())
        } else {
            None
        }
    } else {
        None
    }
}

/// Applies one dequeued command.  A remap only changes the mapping in
/// RAM.  Persisting appends the mapping to the store; if the store finds
/// its append slot not erased, the page is reset to the factory default
/// and the append is tried once more, which then succeeds.  Any other
/// store failure is passed up as fatal.
pub fn handle_command(matrix: &mut Matrix, writer: &mut ConfigWriter, cmd: AppCommand) -> (r:
    Result<(), FlashError>)
    requires
        old(matrix).wf(),
        cmd.wf(),
        old(writer).wf(),
    ensures
        final(matrix).wf(),
        final(writer).wf(),
        final(matrix)@ == spec_apply(old(matrix)@, cmd),
        !(cmd is Save) ==> (r is Ok && *final(writer) == *old(writer)),
        cmd is Save && r is Ok ==> spec_config(final(writer).page_view(), final(writer).lvi())
            == Some(old(matrix)@),
        r is Err ==> r == Err::<(), FlashError>(FlashError::ProgrammingError),
{
    let first = matrix.update_layout(cmd, writer);
    match first {
        Ok(()) => Ok(()),
        Err(FlashError::FlashNotErased) => {
            let reset = writer.write_default();
            if reset.is_err() {
                return reset;
            }
            proof {
                lemma_program_erased(
                    fresh_page_with(entry_bytes(crate::flash::default_mapping())),
                    slot_base(1),
                    entry_bytes(matrix@),
                );
            }
            matrix.update_layout(cmd, writer)
        },
        Err(e) => Err(e),
    }
}

} // verus!
