//! The texts of the immobilizer findings.

use vstd::prelude::*;

verus! {

pub const UNAVAILABLE_DETAIL: &'static str =
    "The ECU did not answer, or answered with a short payload. This is not evidence of a \
     problem — the check simply could not run. Flashing is not known to be unsafe here, \
     but the immobilizer state is unverified.";

pub const EMPTY_ALLOW_LIST: &'static str =
    "Tuning interlock: the power-class allow-list (strVarTun) is all zeroes, so no tuning \
     index can ever match.";

pub const DEAD_DETAIL: &'static str =
    "In this state the ECU accepts neither a login nor a download, so there is no \
     diagnostic recovery. Flashing ASW/CAL will not change it.";

pub const DEAD_SAMPLE: &'static str = " Corroborated by DID 0x2FF byte 0 = 0x41 'A' (hardware sample).";

pub const DEAD_NO_SAMPLE: &'static str =
    " Note: DID 0x2FF byte 0 reads 0x53 'S', which does not corroborate the \
     hardware-sample lock.";

pub const DEAD_UNREAD: &'static str =
    " DID 0x2FF was not readable, so the hardware-sample marker could not be \
     corroborated.";

pub const NOT_ADAPTED: &'static str = "The ECU has no immobilizer identity (stStatFct = 1, neutral / not adapted).";

pub const NOT_ADAPTED_DETAIL: &'static str =
    "Flashing ASW/CAL will not create an immobilizer identity. The ECU must be adapted to \
     the vehicle before it will start.";

pub const ADAPTED: &'static str = "Immobilizer state 2 confirmed: adapted and healthy.";

pub const ADAPTED_DETAIL: &'static str = "DID 0x2EE byte 1 bit 0x40 is set, so the reported state of 2 is the real one.";

pub const SAMPLE_ADAPTED: &'static str = "The reported state of 2 is really 3 — hardware-sample adapted.";

pub const SAMPLE_ADAPTED_DETAIL: &'static str =
    "DID 0x2EE byte 1 bit 0x80 is clear, which means stStatFct is actually 3. The ECU is \
     a hardware sample; its immobilizer behaviour is not that of a production ECU.";

pub const ADAPTATION_MODE: &'static str = "The reported state of 2 is really 4 — adaptation mode.";

pub const ADAPTATION_MODE_DETAIL: &'static str =
    "The ECU is mid-adaptation rather than fully adapted. Complete the adaptation before \
     relying on the immobilizer state.";

pub const TUNING_FAILED: &'static str = "The reported state of 2 is really 'B' (0x42) — the tuning check failed.";

pub const TUNING_FAILED_DETAIL: &'static str =
    "The ECU forces 'B' to report as 2. In 'B' the ECU can never produce a matching \
     CrcMaster/CrcSlave, so it will not start. Recovery is the 0x04/0x80 login, which \
     requires the noKeySecu key — that key only exists in a DFlash dump.";

pub const UNDECIDED: &'static str = "The reported immobilizer state of 2 could not be disambiguated.";

pub const UNDECIDED_DETAIL: &'static str =
    "The ECU forces states 3, 4 and 'B' (0x42) to report as 2. Telling them apart needs \
     DID 0x2EE and DID 0x2FF, and at least one of them was unavailable.";

pub const VERIFIED: &'static str = "The ECU has verified the cluster's CrcMaster and PIN.";

pub const VERIFIED_DETAIL: &'static str =
    "Note this is not the same as 'the immobilizer is released': bMstCksVld plus \
     bMstKeyVld equal full release only for authentication variant A. Variants B and C \
     need a bit that DID 0x2EE does not publish.";

pub const IGNITION_OFF: &'static str = "Ignition is off, so the immobilizer authentication state is unverified.";

pub const IGNITION_OFF_DETAIL: &'static str =
    "The ECU does not authenticate on bench power. Turn the ignition on to read a \
     meaningful lock state.";

pub const NO_REPLY: &'static str = "No master reply — nothing is answering on CAN 0x011.";

pub const NO_REPLY_DETAIL: &'static str =
    "The cluster (immobilizer master) did not respond, so the ECU could not attempt \
     authentication. This is expected on a bench harness with no cluster present.";

pub const CRC_REJECTED: &'static str = "The ECU rejected the cluster's CrcMaster.";

pub const CRC_REJECTED_DETAIL: &'static str =
    "CrcMaster is computed over noKeySecu, idxLab and idxTun; a rejection means one of \
     those does not match the cluster. The ECU will not start in this state.";

pub const PIN_REJECTED: &'static str = "CrcMaster was accepted but the PIN mask was rejected (wrong noKeyMst).";

pub const PIN_REJECTED_DETAIL: &'static str =
    "The ECU and cluster agree on the security key but not on the PIN. The ECU will not \
     start in this state.";

pub const DOWNLOAD_LOCKOUT_DETAIL: &'static str =
    "The ECU will refuse an immobilizer download until the lockout expires, so the \
     recovery path is unavailable for that long.";

pub const LOGIN_LOCKOUT_DETAIL: &'static str =
    "The ECU will refuse an immobilizer login until the lockout expires, so the recovery \
     path is unavailable for that long.";

pub const LAST_ERROR_DETAIL: &'static str =
    "No decode table for these codes is available, so the raw value is all that can be \
     reported.";

pub const MEMORY_ACCESS: &'static str = "Raw memory read (UDS 0x23) and CCP are disabled on this ECU.";

pub const MEMORY_ACCESS_DETAIL: &'static str =
    "This is a tooling limitation, not an immobilizer risk. bInhAcsMem gates only UDS \
     0x23 ReadMemoryByAddress and the CCP/ETK interface. It has no effect on engine \
     start, on immobilizer authentication, or on the bootloader.";

pub const DIFF_INCOMPLETE: &'static str =
    "The post-flash immobilizer comparison is incomplete — one or both snapshots are \
     missing DID 0x2ED or DID 0x2FF.";

pub const DIFF_INCOMPLETE_DETAIL: &'static str =
    "Whatever could be compared is reported; the rest is unverified. This is not evidence \
     of a problem.";

pub const LOCKOUT_MALFORMED: &'static str =
    "The lockout timers could not be read (DID 0x2EF answered with a short payload).";

pub const DIFF_ONE_SIDED: &'static str =
    "The post-flash immobilizer comparison is incomplete — only one of the two snapshots \
     has DID 0x2EE, so a lost bit 0x40 would not have been seen.";

pub const LIST_CHANGED_DETAIL: &'static str =
    "strVarTun is the allow-list the tuning interlock tests idxTun against. It can only \
     be rewritten through DID 0x2E2, which requires the noKeySecu key — and that key only \
     exists in a DFlash dump.";

pub const NO_LONGER_DETAIL: &'static str =
    "This is the tuning interlock tripping. The only recovery is rewriting idxTun via DID \
     0x2E2, which requires the noKeySecu key — and that key only exists in a DFlash \
     dump.";

pub const MARKER_FLIPPED: &'static str =
    "DID 0x2FF byte 0 flipped from 0x53 'S' to 0x41 'A' — the ECU now reports itself as a \
     hardware sample.";

pub const MARKER_FLIPPED_DETAIL: &'static str = "No diagnostic recovery for this transition is known.";

pub const MOVED_DEAD_DETAIL: &'static str =
    "There is no diagnostic recovery from stStatFct 10, 0x58 or 0x63 — the ECU accepts \
     neither a login nor a download.";

pub const BIT_LOST: &'static str =
    "The ECU still reports stStatFct 2 but has lost DID 0x2EE bit 0x40, so it is no \
     longer really in state 2.";

pub const BIT_LOST_DETAIL: &'static str =
    "The ECU forces states 3, 4 and 'B' (0x42) to report as 2. If it has moved to 'B', \
     recovery is the 0x04/0x80 login, which requires the noKeySecu key — and that key \
     only exists in a DFlash dump.";

} // verus!
