//! The flash sequence, as a machine: a run says what to do next, whoever drives
//! it does that and comes back with the reply.
//!
//! 1. Extended diagnostic session, and the VIN.
//! 2. Programming precondition, keep-alive, programming session; SwitchPatch
//!    where the session is refused.
//! 3. Seed-key authentication and the workshop code.
//! 4. Every block, in the order given.
//! 5. Programming dependencies, a pause, and a hard reset.

use vstd::prelude::*;

use crate::bytes::{be32_at, be_bytes, copy_range, read_u32_be, to_vec, u32_be_bytes};
use crate::flash::{told, Progress, ProgressUpdate};
use crate::module::{row_of, FlashInfo, PreparedBlockData};
use crate::text::{dec, lossy_utf8, push_dec, utf8_lossy};
use crate::uds::{Act, Action, FaultKind, FlashError, Reply, Trouble, UdsFault};

verus! {

/// How often a patch chunk is sent again. A negative response is a routine part
/// of writing without erase; the cap only stops a wedged ECU spinning forever.
pub const MAX_PATCH_RETRIES: usize = 200;

/// Payload of a transfer where the module's table says nothing.
pub const DEFAULT_TRANSFER_SIZE: usize = 0xFFD;

/// Pause before every patch transfer, in milliseconds.
pub const PATCH_PAUSE: u64 = 25;

/// Pause before the hard reset, in milliseconds.
pub const SETTLE_PAUSE: u64 = 5_000;

/// What is to be flashed.
#[derive(Debug, Clone)]
pub struct FlashPlan {
    pub flash_info: FlashInfo,
    /// In the order they are flashed.
    pub blocks: Vec<PreparedBlockData>,
    pub workshop_code: [u8; 9],
}

/// What a run is waiting for.
#[derive(Debug, Clone, Copy, PartialEq, Eq, Structural)]
pub enum Stage {
    /// The extended session.
    Extended,
    /// The VIN.
    Vin,
    /// The precondition check.
    Precondition,
    /// The keep-alive before the programming session.
    PresentExtended,
    /// The programming session.
    Programming,
    /// The SwitchPatch fallback.
    SwitchPatch,
    /// The keep-alive in the programming session.
    PresentProgramming,
    /// The seed.
    Seed,
    /// The key of the seed.
    KeyComputed,
    /// The acceptance of the key.
    KeySent,
    /// The keep-alive after the authentication.
    PresentAuthenticated,
    /// The workshop code.
    Workshop,
    /// The keep-alive before the first block.
    PresentWorkshop,
    /// The erase of a block.
    Erase { index: usize },
    /// The download request of a block.
    Download { index: usize },
    /// A transfer up to `end`.
    Transfer { index: usize, end: usize, counter: u8, size: usize },
    /// The end of the transfer.
    Exit { index: usize },
    /// The block checksum.
    Checksum { index: usize },
    /// The erase before a patch.
    PatchErase { index: usize },
    /// The download request of a patch.
    PatchDownload { index: usize },
    /// The size of the next patch chunk.
    PatchSize { index: usize, offset: usize, counter: u8 },
    /// The pause before a patch transfer.
    PatchPause { index: usize, offset: usize, end: usize, counter: u8, attempt: usize },
    /// A patch transfer.
    PatchTransfer { index: usize, offset: usize, end: usize, counter: u8, attempt: usize },
    /// The end of the patch transfer.
    PatchExit { index: usize },
    /// The keep-alive after a block.
    PresentBlock { index: usize },
    /// The programming dependencies.
    Verify,
    /// The keep-alive after the verification.
    PresentVerified,
    /// The pause before the reset.
    Settle,
    /// The reset.
    Resetting,
    /// Nothing: the run is over.
    Over,
}

/// A run of the sequence.
#[derive(Debug, Clone)]
pub struct FlashRun {
    pub stage: Stage,
    /// Why the programming session was refused, if it was.
    pub refusal: String,
}

/// One step of a run: what to report and what to do, and the run that waits for
/// the reply.
#[derive(Debug, Clone)]
pub struct FlashMove {
    pub run: FlashRun,
    pub progress: Vec<ProgressUpdate>,
    pub action: Action,
}

/// A step as a value.
pub struct Move {
    pub stage: Stage,
    pub refusal: Seq<char>,
    pub progress: Seq<Progress>,
    pub action: Act,
}

impl View for FlashMove {
    type V = Move;

    open spec fn view(&self) -> Move {
        Move {
            stage: self.run.stage,
            refusal: self.run.refusal@,
            progress: told(self.progress@),
            action: self.action@,
        }
    }
}

/// Go on.
pub open spec fn go(stage: Stage, progress: Seq<Progress>, action: Act) -> Move {
    Move { stage, refusal: Seq::empty(), progress, action }
}

/// Stop with an error.
pub open spec fn stop(progress: Seq<Progress>, why: Trouble) -> Move {
    go(Stage::Over, progress, Act::Failed(why))
}

/// The data of a reply.
pub open spec fn reply_data(reply: Reply) -> Seq<u8> {
    match reply {
        Reply::Data(b) => b@,
        _ => Seq::empty(),
    }
}

/// The size of a reply.
pub open spec fn reply_size(reply: Reply) -> usize {
    match reply {
        Reply::Size(n) => n,
        _ => 0,
    }
}

/// How many payload bytes go into one transfer. The ECU's maximum counts the
/// service identifier and the sequence counter.
pub open spec fn transfer_size(plan: FlashPlan, index: int, max_chunk: usize) -> int {
    let table = match row_of(
        plan.flash_info.block_transfer_sizes@,
        plan.blocks@[index].block_number,
    ) {
        Some(n) => n as int,
        None => DEFAULT_TRANSFER_SIZE as int,
    };
    let room = if max_chunk >= 2 {
        max_chunk - 2
    } else {
        0
    };
    if table <= room {
        table
    } else {
        room
    }
}

/// The next sequence counter.
pub open spec fn counted(counter: u8) -> u8 {
    if counter == 255 {
        0
    } else {
        (counter + 1) as u8
    }
}

/// The end of the chunk that starts at `offset`.
pub open spec fn chunk_end(len: int, offset: int, size: int) -> int {
    if offset + size <= len {
        offset + size
    } else {
        len
    }
}

/// The payload of a block.
pub open spec fn payload(plan: FlashPlan, index: int) -> Seq<u8> {
    plan.blocks@[index].block_encrypted_bytes@
}

/// The name of a block.
pub open spec fn block_name(plan: FlashPlan, index: int) -> Seq<char> {
    plan.blocks@[index].block_name@
}

/// Send the next chunk of a block, or end its transfer.
pub open spec fn next_chunk(
    plan: FlashPlan,
    index: usize,
    offset: usize,
    counter: u8,
    size: usize,
    progress: Seq<Progress>,
) -> Move {
    let data = payload(plan, index as int);
    if offset < data.len() {
        let end = chunk_end(data.len() as int, offset as int, size as int);
        go(
            Stage::Transfer { index, end: end as usize, counter, size },
            progress,
            Act::Transfer(counter, data.subrange(offset as int, end)),
        )
    } else {
        go(Stage::Exit { index }, progress, Act::TransferExit)
    }
}

/// Ask for the size of the next chunk of a patch, or end its transfer.
pub open spec fn next_patch(
    plan: FlashPlan,
    index: usize,
    offset: usize,
    counter: u8,
    progress: Seq<Progress>,
) -> Move {
    if offset < payload(plan, index as int).len() {
        go(
            Stage::PatchSize { index, offset, counter },
            progress,
            Act::PatchChunk((plan.blocks@[index as int].block_number - 5) as u8, offset),
        )
    } else {
        go(Stage::PatchExit { index }, progress, Act::TransferExit)
    }
}

/// Request the download of a block to an address.
pub open spec fn download(
    plan: FlashPlan,
    index: usize,
    address: u8,
    stage: Stage,
    progress: Seq<Progress>,
) -> Move {
    let block = plan.blocks@[index as int];
    go(
        stage,
        progress.push(Progress::BlockDownloading(block.block_name@)),
        Act::Download {
            compression: block.compression_type,
            encryption: block.encryption_type,
            address,
            size: be_bytes(block.announced_length as int),
        },
    )
}

/// What the user is told where a block has no identifier.
pub open spec fn no_identifier(number: u8) -> Trouble {
    Trouble::Config("No block_identifier for block "@ + dec(number as nat))
}

/// Start a block, or go on to the verification after the last one. Blocks above
/// 5 are patches, written without erase over the block five below.
pub open spec fn start_block(plan: FlashPlan, index: usize, progress: Seq<Progress>) -> Move {
    if index >= plan.blocks@.len() {
        go(
            Stage::Verify,
            progress.push(Progress::Verifying),
            Act::Routine(0xFF01, Seq::empty()),
        )
    } else {
        let block = plan.blocks@[index as int];
        let name = block.block_name@;
        let begun = progress.push(
            Progress::FlashingBlock(name, index, plan.blocks@.len() as usize),
        );
        if block.block_number <= 5 {
            match row_of(plan.flash_info.block_identifiers@, block.block_number) {
                None => stop(begun, no_identifier(block.block_number)),
                Some(id) => if block.should_erase {
                    go(
                        Stage::Erase { index },
                        begun.push(Progress::BlockErasing(name)),
                        Act::Routine(0xFF00, seq![0x01, id]),
                    )
                } else {
                    download(plan, index, id, Stage::Download { index }, begun)
                },
            }
        } else {
            let erasing = begun.push(Progress::BlockErasing(name));
            match row_of(plan.flash_info.block_identifiers@, 5) {
                None => stop(
                    erasing,
                    Trouble::Config("No block_identifier for CAL (block 5)"@),
                ),
                Some(cal) => go(
                    Stage::PatchErase { index },
                    erasing,
                    Act::Routine(0xFF00, seq![0x01, cal]),
                ),
            }
        }
    }
}

/// The identifier of a block that was started.
pub open spec fn started_id(plan: FlashPlan, index: int) -> u8 {
    match row_of(plan.flash_info.block_identifiers@, plan.blocks@[index].block_number) {
        Some(id) => id,
        None => 0,
    }
}

/// The first step.
pub open spec fn first_move() -> Move {
    go(Stage::Extended, seq![Progress::Connecting], Act::Session(0x03))
}

/// The step once the VIN is known, or known to be unreadable.
pub open spec fn vin_move(vin: Seq<char>) -> Move {
    go(
        Stage::Precondition,
        seq![Progress::ReadVin(vin), Progress::CheckingPreconditions],
        Act::Routine(0x0203, Seq::empty()),
    )
}

/// Send a chunk of a patch.
pub open spec fn patch_transfer(
    plan: FlashPlan,
    index: usize,
    offset: usize,
    end: usize,
    counter: u8,
    attempt: usize,
) -> Move {
    go(
        Stage::PatchTransfer { index, offset, end, counter, attempt },
        Seq::empty(),
        Act::Transfer(
            counter,
            payload(plan, index as int).subrange(offset as int, end as int),
        ),
    )
}

/// The step after a reply that is no failure.
pub open spec fn move_on(plan: FlashPlan, stage: Stage, reply: Reply) -> Move {
    match stage {
        Stage::Extended => go(Stage::Vin, Seq::empty(), Act::ReadDid(0xF190)),
        Stage::Vin => vin_move(utf8_lossy(reply_data(reply))),
        Stage::Precondition => go(Stage::PresentExtended, Seq::empty(), Act::TesterPresent),
        Stage::PresentExtended => go(
            Stage::Programming,
            seq![Progress::ProgrammingSession],
            Act::Session(0x02),
        ),
        Stage::Programming => go(Stage::PresentProgramming, Seq::empty(), Act::TesterPresent),
        Stage::SwitchPatch => go(
            Stage::PresentProgramming,
            seq![Progress::SwitchPatchUsed],
            Act::TesterPresent,
        ),
        Stage::PresentProgramming => go(
            Stage::Seed,
            seq![Progress::Authenticating],
            Act::SecurityAccess(0x11, Seq::empty()),
        ),
        Stage::Seed => if reply_data(reply).len() < 4 {
            stop(Seq::empty(), Trouble::AuthFailed)
        } else {
            go(
                Stage::KeyComputed,
                Seq::empty(),
                Act::ComputeKey(be32_at(reply_data(reply), 0) as u32),
            )
        },
        Stage::KeyComputed => match reply {
            Reply::Key(key) => go(
                Stage::KeySent,
                Seq::empty(),
                Act::SecurityAccess(0x12, be_bytes(key as int)),
            ),
            _ => stop(Seq::empty(), Trouble::AuthFailed),
        },
        Stage::KeySent => go(Stage::PresentAuthenticated, Seq::empty(), Act::TesterPresent),
        Stage::PresentAuthenticated => go(
            Stage::Workshop,
            seq![Progress::WritingWorkshopCode],
            Act::WriteDid(0xF15A, plan.workshop_code@),
        ),
        Stage::Workshop => go(Stage::PresentWorkshop, Seq::empty(), Act::TesterPresent),
        Stage::PresentWorkshop => start_block(plan, 0, Seq::empty()),
        Stage::Erase { index } => download(
            plan,
            index,
            started_id(plan, index as int),
            Stage::Download { index },
            Seq::empty(),
        ),
        Stage::Download { index } => {
            let size = transfer_size(plan, index as int, reply_size(reply));
            if size == 0 {
                stop(
                    Seq::empty(),
                    Trouble::Config(
                        "ECU reported maxNumberOfBlockLength "@ + dec(reply_size(reply) as nat)
                            + ", leaving no room for a payload"@,
                    ),
                )
            } else {
                next_chunk(plan, index, 0, 1, size as usize, Seq::empty())
            }
        },
        Stage::Transfer { index, end, counter, size } => next_chunk(
            plan,
            index,
            end,
            counted(counter),
            size,
            seq![
                Progress::BlockTransferProgress(
                    block_name(plan, index as int),
                    end,
                    payload(plan, index as int).len() as usize,
                ),
            ],
        ),
        Stage::Exit { index } => go(
            Stage::Checksum { index },
            seq![Progress::BlockChecksum(block_name(plan, index as int))],
            Act::Routine(
                0x0202,
                seq![0x01, started_id(plan, index as int), 0x00, 0x04]
                    + plan.blocks@[index as int].uds_checksum@,
            ),
        ),
        Stage::Checksum { index } => go(
            Stage::PresentBlock { index },
            seq![Progress::BlockComplete(index)],
            Act::TesterPresent,
        ),
        Stage::PatchErase { index } => download(
            plan,
            index,
            (plan.blocks@[index as int].block_number - 5) as u8,
            Stage::PatchDownload { index },
            Seq::empty(),
        ),
        Stage::PatchDownload { index } => if plan.flash_info.patch_info is None {
            stop(Seq::empty(), Trouble::Config("No patch_info for this ECU"@))
        } else {
            next_patch(plan, index, 0, 1, Seq::empty())
        },
        Stage::PatchSize { index, offset, counter } => go(
            Stage::PatchPause {
                index,
                offset,
                end: chunk_end(
                    payload(plan, index as int).len() as int,
                    offset as int,
                    reply_size(reply) as int,
                ) as usize,
                counter,
                attempt: 0,
            },
            Seq::empty(),
            Act::Wait(PATCH_PAUSE),
        ),
        Stage::PatchPause { index, offset, end, counter, attempt } => patch_transfer(
            plan,
            index,
            offset,
            end,
            counter,
            attempt,
        ),
        Stage::PatchTransfer { index, offset, end, counter, attempt } => next_patch(
            plan,
            index,
            end,
            counted(counter),
            seq![
                Progress::BlockTransferProgress(
                    block_name(plan, index as int),
                    end,
                    payload(plan, index as int).len() as usize,
                ),
            ],
        ),
        Stage::PatchExit { index } => go(
            Stage::PresentBlock { index },
            seq![Progress::BlockComplete(index)],
            Act::TesterPresent,
        ),
        Stage::PresentBlock { index } => start_block(plan, (index + 1) as usize, Seq::empty()),
        Stage::Verify => go(Stage::PresentVerified, Seq::empty(), Act::TesterPresent),
        Stage::PresentVerified => go(Stage::Settle, Seq::empty(), Act::Wait(SETTLE_PAUSE)),
        Stage::Settle => go(Stage::Resetting, seq![Progress::EcuReset], Act::Reset(0x01)),
        Stage::Resetting => go(Stage::Over, Seq::empty(), Act::Finished),
        Stage::Over => go(Stage::Over, Seq::empty(), Act::Finished),
    }
}

/// The step after a failure. Most end the run. The VIN is not needed; a refused
/// programming session has a fallback; a patch chunk that was refused is sent
/// again; and once everything is written and verified nothing fails any more.
pub open spec fn move_failed(plan: FlashPlan, stage: Stage, refusal: Seq<char>, e: UdsFault) -> Move {
    match stage {
        Stage::Vin => vin_move("(unknown)"@),
        Stage::Programming => Move {
            stage: Stage::SwitchPatch,
            refusal: e.text@,
            progress: Seq::empty(),
            action: Act::SwitchPatch,
        },
        Stage::SwitchPatch => stop(
            Seq::empty(),
            Trouble::Interface(
                "Could not enter programming session. Normal request: "@ + refusal
                    + ". SwitchPatch fallback: "@ + e.text@,
            ),
        ),
        Stage::KeyComputed => stop(Seq::empty(), Trouble::AuthFailed),
        Stage::KeySent => stop(Seq::empty(), Trouble::AuthFailed),
        Stage::PatchPause { index, offset, end, counter, attempt } => patch_transfer(
            plan,
            index,
            offset,
            end,
            counter,
            attempt,
        ),
        Stage::PatchTransfer { index, offset, end, counter, attempt } => if e.kind
            == FaultKind::Negative && attempt + 1 < MAX_PATCH_RETRIES {
            go(
                Stage::PatchPause {
                    index,
                    offset,
                    end,
                    counter: counted(counter),
                    attempt: (attempt + 1) as usize,
                },
                Seq::empty(),
                Act::Wait(PATCH_PAUSE),
            )
        } else {
            stop(Seq::empty(), e.trouble())
        },
        Stage::PresentVerified => go(Stage::Settle, Seq::empty(), Act::Wait(SETTLE_PAUSE)),
        Stage::Settle => go(Stage::Resetting, seq![Progress::EcuReset], Act::Reset(0x01)),
        Stage::Resetting => go(Stage::Over, Seq::empty(), Act::Finished),
        Stage::Over => go(Stage::Over, Seq::empty(), Act::Finished),
        _ => stop(Seq::empty(), e.trouble()),
    }
}

/// The step after a reply.
pub open spec fn next_move(plan: FlashPlan, stage: Stage, refusal: Seq<char>, reply: Reply) -> Move {
    match reply {
        Reply::Fault(e) => move_failed(plan, stage, refusal, e),
        _ => move_on(plan, stage, reply),
    }
}

/// Whether a stage can be reached with a plan.
pub open spec fn reachable(plan: FlashPlan, stage: Stage) -> bool {
    let n = plan.blocks@.len();
    match stage {
        Stage::Erase { index } => index < n,
        Stage::Download { index } => index < n,
        Stage::Transfer { index, end, counter, size } => index < n && size > 0 && end <= payload(
            plan,
            index as int,
        ).len(),
        Stage::Exit { index } => index < n,
        Stage::Checksum { index } => index < n,
        Stage::PatchErase { index } => is_patch(plan, index as int),
        Stage::PatchDownload { index } => is_patch(plan, index as int),
        Stage::PatchSize { index, offset, counter } => is_patch(plan, index as int) && offset
            <= payload(plan, index as int).len(),
        Stage::PatchPause { index, offset, end, counter, attempt } => is_patch(plan, index as int)
            && offset <= end <= payload(plan, index as int).len() && attempt < MAX_PATCH_RETRIES,
        Stage::PatchTransfer { index, offset, end, counter, attempt } => is_patch(
            plan,
            index as int,
        ) && offset <= end <= payload(plan, index as int).len() && attempt < MAX_PATCH_RETRIES,
        Stage::PatchExit { index } => index < n,
        Stage::PresentBlock { index } => index < n,
        _ => true,
    }
}

/// Whether a block of a plan is a patch.
pub open spec fn is_patch(plan: FlashPlan, index: int) -> bool {
    0 <= index < plan.blocks@.len() && plan.blocks@[index].block_number > 5
}

fn going(stage: Stage, progress: Vec<ProgressUpdate>, action: Action) -> (r: FlashMove)
    ensures
        r@ == go(stage, told(progress@), action@),
{
    let refusal = String::new();
    assert(refusal@ == Seq::<char>::empty());
    FlashMove { run: FlashRun { stage, refusal }, progress, action }
}

fn quietly(stage: Stage, action: Action) -> (r: FlashMove)
    ensures
        r@ == go(stage, Seq::empty(), action@),
{
    let none: Vec<ProgressUpdate> = Vec::new();
    assert(told(none@) == Seq::<Progress>::empty());
    going(stage, none, action)
}

fn reporting(stage: Stage, update: ProgressUpdate, action: Action) -> (r: FlashMove)
    ensures
        r@ == go(stage, seq![update@], action@),
{
    let mut one: Vec<ProgressUpdate> = Vec::new();
    one.push(update);
    assert(told(one@) == seq![update@]);
    going(stage, one, action)
}

fn stopping(progress: Vec<ProgressUpdate>, why: FlashError) -> (r: FlashMove)
    ensures
        r@ == stop(told(progress@), why@),
{
    going(Stage::Over, progress, Action::Failed(why))
}

fn nothing() -> (v: Vec<u8>)
    ensures
        v@ == Seq::<u8>::empty(),
{
    Vec::new()
}

fn report(progress: &mut Vec<ProgressUpdate>, update: ProgressUpdate)
    ensures
        told(final(progress)@) == told(old(progress)@).push(update@),
{
    progress.push(update);
    assert(told(progress@) == told(old(progress)@).push(update@));
}

fn request_download(
    plan: &FlashPlan,
    index: usize,
    address: u8,
    stage: Stage,
    progress: Vec<ProgressUpdate>,
) -> (r: FlashMove)
    requires
        index < plan.blocks@.len(),
    ensures
        r@ == download(*plan, index, address, stage, told(progress@)),
{
    let block = &plan.blocks[index];
    let mut progress = progress;
    report(&mut progress, ProgressUpdate::BlockDownloading { name: block.block_name.clone() });
    let size = u32_be_bytes(block.announced_length);
    going(
        stage,
        progress,
        Action::Download {
            compression: block.compression_type,
            encryption: block.encryption_type,
            address,
            size: to_vec(size.as_slice()),
        },
    )
}

fn begin_block(plan: &FlashPlan, index: usize) -> (r: FlashMove)
    ensures
        r@ == start_block(*plan, index, Seq::empty()),
        reachable(*plan, r.run.stage),
{
    let mut progress: Vec<ProgressUpdate> = Vec::new();
    assert(told(progress@) == Seq::<Progress>::empty());
    if index >= plan.blocks.len() {
        report(&mut progress, ProgressUpdate::Verifying);
        return going(Stage::Verify, progress, Action::Routine(0xFF01, nothing()));
    }
    let block = &plan.blocks[index];
    report(
        &mut progress,
        ProgressUpdate::FlashingBlock {
            name: block.block_name.clone(),
            index,
            total: plan.blocks.len(),
        },
    );
    if block.block_number <= 5 {
        match plan.flash_info.block_identifier(block.block_number) {
            None => {
                let mut why = "No block_identifier for block ".to_owned();
                push_dec(&mut why, block.block_number as u64);
                stopping(progress, FlashError::Config(why))
            },
            Some(id) => {
                if block.should_erase {
                    report(
                        &mut progress,
                        ProgressUpdate::BlockErasing { name: block.block_name.clone() },
                    );
                    let data: Vec<u8> = vec![0x01, id];
                    assert(data@ == seq![0x01, id]);
                    going(Stage::Erase { index }, progress, Action::Routine(0xFF00, data))
                } else {
                    request_download(plan, index, id, Stage::Download { index }, progress)
                }
            },
        }
    } else {
        report(&mut progress, ProgressUpdate::BlockErasing { name: block.block_name.clone() });
        match plan.flash_info.block_identifier(5) {
            None => stopping(
                progress,
                FlashError::Config("No block_identifier for CAL (block 5)".to_owned()),
            ),
            Some(cal) => {
                let data: Vec<u8> = vec![0x01, cal];
                assert(data@ == seq![0x01, cal]);
                going(Stage::PatchErase { index }, progress, Action::Routine(0xFF00, data))
            },
        }
    }
}

fn send_chunk(
    plan: &FlashPlan,
    index: usize,
    offset: usize,
    counter: u8,
    size: usize,
    progress: Vec<ProgressUpdate>,
) -> (r: FlashMove)
    requires
        index < plan.blocks@.len(),
        offset <= payload(*plan, index as int).len(),
        size > 0,
    ensures
        r@ == next_chunk(*plan, index, offset, counter, size, told(progress@)),
        reachable(*plan, r.run.stage),
{
    let data = &plan.blocks[index].block_encrypted_bytes;
    if offset < data.len() {
        let end: usize = if data.len() - offset >= size {
            offset + size
        } else {
            data.len()
        };
        let chunk = copy_range(data.as_slice(), offset, end);
        going(
            Stage::Transfer { index, end, counter, size },
            progress,
            Action::Transfer(counter, chunk),
        )
    } else {
        going(Stage::Exit { index }, progress, Action::TransferExit)
    }
}

fn ask_patch_size(
    plan: &FlashPlan,
    index: usize,
    offset: usize,
    counter: u8,
    progress: Vec<ProgressUpdate>,
) -> (r: FlashMove)
    requires
        is_patch(*plan, index as int),
        offset <= payload(*plan, index as int).len(),
    ensures
        r@ == next_patch(*plan, index, offset, counter, told(progress@)),
        reachable(*plan, r.run.stage),
{
    let block = &plan.blocks[index];
    if offset < block.block_encrypted_bytes.len() {
        going(
            Stage::PatchSize { index, offset, counter },
            progress,
            Action::PatchChunk(block.block_number - 5, offset),
        )
    } else {
        going(Stage::PatchExit { index }, progress, Action::TransferExit)
    }
}

fn send_patch(
    plan: &FlashPlan,
    index: usize,
    offset: usize,
    end: usize,
    counter: u8,
    attempt: usize,
) -> (r: FlashMove)
    requires
        index < plan.blocks@.len(),
        offset <= end <= payload(*plan, index as int).len(),
    ensures
        r@ == patch_transfer(*plan, index, offset, end, counter, attempt),
{
    let data = &plan.blocks[index].block_encrypted_bytes;
    let chunk = copy_range(data.as_slice(), offset, end);
    quietly(
        Stage::PatchTransfer { index, offset, end, counter, attempt },
        Action::Transfer(counter, chunk),
    )
}

fn sent(plan: &FlashPlan, index: usize, end: usize) -> (v: Vec<ProgressUpdate>)
    requires
        index < plan.blocks@.len(),
    ensures
        told(v@) == seq![
            Progress::BlockTransferProgress(
                block_name(*plan, index as int),
                end,
                payload(*plan, index as int).len() as usize,
            ),
        ],
{
    let block = &plan.blocks[index];
    let update = ProgressUpdate::BlockTransferProgress {
        name: block.block_name.clone(),
        bytes_sent: end,
        bytes_total: block.block_encrypted_bytes.len(),
    };
    let mut one: Vec<ProgressUpdate> = Vec::new();
    one.push(update);
    assert(told(one@) == seq![update@]);
    one
}

fn count(counter: u8) -> (r: u8)
    ensures
        r == counted(counter),
{
    counter.wrapping_add(1)
}

fn identifier(plan: &FlashPlan, index: usize) -> (r: u8)
    requires
        index < plan.blocks@.len(),
    ensures
        r == started_id(*plan, index as int),
{
    match plan.flash_info.block_identifier(plan.blocks[index].block_number) {
        Some(id) => id,
        None => 0,
    }
}

/// Report the VIN and go on to the precondition check.
pub fn report_vin(vin: String) -> (r: FlashMove)
    ensures
        r@ == vin_move(vin@),
{
    let mut progress: Vec<ProgressUpdate> = Vec::new();
    assert(told(progress@) == Seq::<Progress>::empty());
    report(&mut progress, ProgressUpdate::ReadVin { vin });
    report(&mut progress, ProgressUpdate::CheckingPreconditions);
    assert(told(progress@) == seq![Progress::ReadVin(vin@), Progress::CheckingPreconditions]);
    going(Stage::Precondition, progress, Action::Routine(0x0203, nothing()))
}

fn start_transfer(plan: &FlashPlan, index: usize, max_chunk: usize) -> (r: FlashMove)
    requires
        index < plan.blocks@.len(),
    ensures
        r@ == move_on(*plan, Stage::Download { index }, Reply::Size(max_chunk)),
        reachable(*plan, r.run.stage),
{
    let table: usize = match plan.flash_info.block_transfer_size(plan.blocks[index].block_number) {
        Some(n) => n,
        None => DEFAULT_TRANSFER_SIZE,
    };
    let room: usize = if max_chunk >= 2 {
        max_chunk - 2
    } else {
        0
    };
    let size: usize = if table <= room {
        table
    } else {
        room
    };
    let none: Vec<ProgressUpdate> = Vec::new();
    assert(told(none@) == Seq::<Progress>::empty());
    if size == 0 {
        let mut why = "ECU reported maxNumberOfBlockLength ".to_owned();
        push_dec(&mut why, max_chunk as u64);
        why.push_str(", leaving no room for a payload");
        stopping(none, FlashError::Config(why))
    } else {
        send_chunk(plan, index, 0, 1, size, none)
    }
}

fn run_checksum(plan: &FlashPlan, index: usize) -> (r: FlashMove)
    requires
        index < plan.blocks@.len(),
    ensures
        r@ == move_on(*plan, Stage::Exit { index }, Reply::Done),
        reachable(*plan, r.run.stage),
{
    let block = &plan.blocks[index];
    let sum: [u8; 4] = block.uds_checksum;
    let id: u8 = identifier(plan, index);
    let data: Vec<u8> = vec![0x01, id, 0x00, 0x04, sum[0], sum[1], sum[2], sum[3]];
    assert(data@ == seq![0x01, id, 0x00, 0x04] + sum@);
    reporting(
        Stage::Checksum { index },
        ProgressUpdate::BlockChecksum { name: block.block_name.clone() },
        Action::Routine(0x0202, data),
    )
}

fn failed(plan: &FlashPlan, run: &FlashRun, e: &UdsFault) -> (r: FlashMove)
    requires
        reachable(*plan, run.stage),
    ensures
        r@ == move_failed(*plan, run.stage, run.refusal@, *e),
        reachable(*plan, r.run.stage),
{
    let none: Vec<ProgressUpdate> = Vec::new();
    assert(told(none@) == Seq::<Progress>::empty());
    match run.stage {
        Stage::Vin => report_vin("(unknown)".to_owned()),
        Stage::Programming => FlashMove {
            run: FlashRun { stage: Stage::SwitchPatch, refusal: e.text.clone() },
            progress: none,
            action: Action::SwitchPatch,
        },
        Stage::SwitchPatch => {
            let mut why = "Could not enter programming session. Normal request: ".to_owned();
            why.push_str(run.refusal.as_str());
            why.push_str(". SwitchPatch fallback: ");
            why.push_str(e.text.as_str());
            stopping(none, FlashError::Interface(why))
        },
        Stage::KeyComputed => stopping(none, FlashError::AuthFailed),
        Stage::KeySent => stopping(none, FlashError::AuthFailed),
        Stage::PatchPause { index, offset, end, counter, attempt } => send_patch(
            plan,
            index,
            offset,
            end,
            counter,
            attempt,
        ),
        Stage::PatchTransfer { index, offset, end, counter, attempt } => {
            if e.kind == FaultKind::Negative && attempt + 1 < MAX_PATCH_RETRIES {
                quietly(
                    Stage::PatchPause {
                        index,
                        offset,
                        end,
                        counter: count(counter),
                        attempt: attempt + 1,
                    },
                    Action::Wait(PATCH_PAUSE),
                )
            } else {
                stopping(none, e.to_error())
            }
        },
        Stage::PresentVerified => quietly(Stage::Settle, Action::Wait(SETTLE_PAUSE)),
        Stage::Settle => reporting(
            Stage::Resetting,
            ProgressUpdate::EcuReset,
            Action::Reset(0x01),
        ),
        Stage::Resetting => quietly(Stage::Over, Action::Finished),
        Stage::Over => quietly(Stage::Over, Action::Finished),
        _ => stopping(none, e.to_error()),
    }
}

fn enter(plan: &FlashPlan, stage: Stage, reply: &Reply) -> (r: Option<FlashMove>)
    requires
        !(reply is Fault),
    ensures
        r matches Some(m) ==> m@ == move_on(*plan, stage, *reply) && reachable(*plan, m.run.stage),
        r is None <==> !entering(stage),
{
    let m = match stage {
        Stage::Extended => quietly(Stage::Vin, Action::ReadDid(0xF190)),
        Stage::Vin => {
            let vin = match reply {
                Reply::Data(b) => lossy_utf8(b.as_slice()),
                _ => lossy_utf8(nothing().as_slice()),
            };
            report_vin(vin)
        },
        Stage::Precondition => quietly(Stage::PresentExtended, Action::TesterPresent),
        Stage::PresentExtended => reporting(
            Stage::Programming,
            ProgressUpdate::ProgrammingSession,
            Action::Session(0x02),
        ),
        Stage::Programming => quietly(Stage::PresentProgramming, Action::TesterPresent),
        Stage::SwitchPatch => reporting(
            Stage::PresentProgramming,
            ProgressUpdate::SwitchPatchUsed,
            Action::TesterPresent,
        ),
        Stage::PresentProgramming => reporting(
            Stage::Seed,
            ProgressUpdate::Authenticating,
            Action::SecurityAccess(0x11, nothing()),
        ),
        Stage::Seed => match reply {
            Reply::Data(b) if b.len() >= 4 => quietly(
                Stage::KeyComputed,
                Action::ComputeKey(read_u32_be(b.as_slice(), 0)),
            ),
            _ => quietly(Stage::Over, Action::Failed(FlashError::AuthFailed)),
        },
        Stage::KeyComputed => match reply {
            Reply::Key(key) => {
                let bytes = u32_be_bytes(*key);
                quietly(Stage::KeySent, Action::SecurityAccess(0x12, to_vec(bytes.as_slice())))
            },
            _ => quietly(Stage::Over, Action::Failed(FlashError::AuthFailed)),
        },
        Stage::KeySent => quietly(Stage::PresentAuthenticated, Action::TesterPresent),
        Stage::PresentAuthenticated => reporting(
            Stage::Workshop,
            ProgressUpdate::WritingWorkshopCode,
            Action::WriteDid(0xF15A, to_vec(plan.workshop_code.as_slice())),
        ),
        Stage::Workshop => quietly(Stage::PresentWorkshop, Action::TesterPresent),
        Stage::PresentWorkshop => begin_block(plan, 0),
        _ => {
            return None;
        },
    };
    Some(m)
}

/// The stages before the first block.
pub open spec fn entering(stage: Stage) -> bool {
    match stage {
        Stage::Extended | Stage::Vin | Stage::Precondition | Stage::PresentExtended
        | Stage::Programming | Stage::SwitchPatch | Stage::PresentProgramming | Stage::Seed
        | Stage::KeyComputed | Stage::KeySent | Stage::PresentAuthenticated | Stage::Workshop
        | Stage::PresentWorkshop => true,
        _ => false,
    }
}

/// Start a run.
pub fn begin() -> (r: FlashMove)
    ensures
        r@ == first_move(),
{
    reporting(Stage::Extended, ProgressUpdate::Connecting, Action::Session(0x03))
}

/// Go on with a run once a reply is in.
pub fn advance(plan: &FlashPlan, run: &FlashRun, reply: &Reply) -> (r: FlashMove)
    requires
        reachable(*plan, run.stage),
    ensures
        r@ == next_move(*plan, run.stage, run.refusal@, *reply),
        reachable(*plan, r.run.stage),
{
    if let Reply::Fault(e) = reply {
        return failed(plan, run, e);
    }
    if let Some(m) = enter(plan, run.stage, reply) {
        return m;
    }
    let none: Vec<ProgressUpdate> = Vec::new();
    assert(told(none@) == Seq::<Progress>::empty());
    let size: usize = match reply {
        Reply::Size(n) => *n,
        _ => 0,
    };
    let total: usize = plan.blocks.len();
    assert(run.stage matches Stage::PresentBlock { index } ==> index < total);
    match run.stage {
        Stage::Erase { index } => request_download(
            plan,
            index,
            identifier(plan, index),
            Stage::Download { index },
            none,
        ),
        Stage::Download { index } => start_transfer(plan, index, size),
        Stage::Transfer { index, end, counter, size } => send_chunk(
            plan,
            index,
            end,
            count(counter),
            size,
            sent(plan, index, end),
        ),
        Stage::Exit { index } => run_checksum(plan, index),
        Stage::Checksum { index } => reporting(
            Stage::PresentBlock { index },
            ProgressUpdate::BlockComplete { index },
            Action::TesterPresent,
        ),
        Stage::PatchErase { index } => request_download(
            plan,
            index,
            plan.blocks[index].block_number - 5,
            Stage::PatchDownload { index },
            none,
        ),
        Stage::PatchDownload { index } => {
            if plan.flash_info.patch_info.is_none() {
                stopping(none, FlashError::Config("No patch_info for this ECU".to_owned()))
            } else {
                ask_patch_size(plan, index, 0, 1, none)
            }
        },
        Stage::PatchSize { index, offset, counter } => {
            let len: usize = plan.blocks[index].block_encrypted_bytes.len();
            let end: usize = if len - offset >= size {
                offset + size
            } else {
                len
            };
            quietly(
                Stage::PatchPause { index, offset, end, counter, attempt: 0 },
                Action::Wait(PATCH_PAUSE),
            )
        },
        Stage::PatchPause { index, offset, end, counter, attempt } => send_patch(
            plan,
            index,
            offset,
            end,
            counter,
            attempt,
        ),
        Stage::PatchTransfer { index, offset, end, counter, attempt } => ask_patch_size(
            plan,
            index,
            end,
            count(counter),
            sent(plan, index, end),
        ),
        Stage::PatchExit { index } => reporting(
            Stage::PresentBlock { index },
            ProgressUpdate::BlockComplete { index },
            Action::TesterPresent,
        ),
        Stage::PresentBlock { index } => begin_block(plan, index + 1),
        Stage::Verify => quietly(Stage::PresentVerified, Action::TesterPresent),
        Stage::PresentVerified => quietly(Stage::Settle, Action::Wait(SETTLE_PAUSE)),
        Stage::Settle => reporting(
            Stage::Resetting,
            ProgressUpdate::EcuReset,
            Action::Reset(0x01),
        ),
        _ => quietly(Stage::Over, Action::Finished),
    }
}

/// What a run transfers from a step on, as long as the block transfers go
/// through; `n` bounds how many are listed.
pub open spec fn transfers(plan: FlashPlan, step: Move, n: nat) -> Seq<(u8, Seq<u8>)>
    decreases n,
{
    if n == 0 || !(step.stage is Transfer) {
        Seq::empty()
    } else {
        match step.action {
            Act::Transfer(counter, chunk) => seq![(counter, chunk)] + transfers(
                plan,
                move_on(plan, step.stage, Reply::Done),
                (n - 1) as nat,
            ),
            _ => Seq::empty(),
        }
    }
}

/// Chunks put together.
pub open spec fn put_together(chunks: Seq<(u8, Seq<u8>)>) -> Seq<u8>
    decreases chunks.len(),
{
    if chunks.len() == 0 {
        Seq::empty()
    } else {
        chunks[0].1 + put_together(chunks.skip(1))
    }
}

proof fn lemma_next_transfer(plan: FlashPlan, index: usize, end: usize, counter: u8, size: usize)
    ensures
        move_on(plan, Stage::Transfer { index, end, counter, size }, Reply::Done) == next_chunk(
            plan,
            index,
            end,
            counted(counter),
            size,
            seq![
                Progress::BlockTransferProgress(
                    block_name(plan, index as int),
                    end,
                    payload(plan, index as int).len() as usize,
                ),
            ],
        ),
{
}

proof fn lemma_put_first(first: (u8, Seq<u8>), rest: Seq<(u8, Seq<u8>)>)
    ensures
        put_together(seq![first] + rest) == first.1 + put_together(rest),
{
    assert((seq![first] + rest).skip(1) == rest);
}

proof fn lemma_counted(counter: u8, k: int)
    ensures
        (counted(counter) + (k - 1)) % 256 == (counter + k) % 256,
{
}

/// A transfer comes first where there is data left.
proof fn lemma_first_transfer(
    plan: FlashPlan,
    index: usize,
    offset: usize,
    counter: u8,
    size: usize,
    progress: Seq<Progress>,
    n: nat,
)
    requires
        index < plan.blocks@.len(),
        payload(plan, index as int).len() <= usize::MAX,
        offset < payload(plan, index as int).len(),
        size > 0,
        n > 0,
    ensures
        ({
            let data = payload(plan, index as int);
            let step = next_chunk(plan, index, offset, counter, size, progress);
            let end = chunk_end(data.len() as int, offset as int, size as int);
            transfers(plan, step, n) == seq![
                (counter, data.subrange(offset as int, end)),
            ] + transfers(plan, move_on(plan, step.stage, Reply::Done), (n - 1) as nat)
        }),
{
}

#[verifier::spinoff_prover]
#[verifier::rlimit(40)]
proof fn lemma_chunks(
    plan: FlashPlan,
    index: usize,
    offset: usize,
    counter: u8,
    size: usize,
    progress: Seq<Progress>,
    n: nat,
)
    requires
        index < plan.blocks@.len(),
        payload(plan, index as int).len() <= usize::MAX,
        offset <= payload(plan, index as int).len(),
        size > 0,
        n > payload(plan, index as int).len() - offset,
    ensures
        ({
            let all = transfers(plan, next_chunk(plan, index, offset, counter, size, progress), n);
            &&& put_together(all) == payload(plan, index as int).skip(offset as int)
            &&& forall|k: int|
                0 <= k < all.len() ==> 1 <= (#[trigger] all[k]).1.len() <= size && all[k].0 == (
                counter + k) % 256
        }),
    decreases n,
{
    let data = payload(plan, index as int);
    let step = next_chunk(plan, index, offset, counter, size, progress);
    let all = transfers(plan, step, n);
    if offset < data.len() {
        let end = chunk_end(data.len() as int, offset as int, size as int) as usize;
        let rest = transfers(plan, move_on(plan, step.stage, Reply::Done), (n - 1) as nat);
        let told = seq![
            Progress::BlockTransferProgress(
                block_name(plan, index as int),
                end,
                data.len() as usize,
            ),
        ];
        lemma_next_transfer(plan, index, end, counter, size);
        lemma_chunks(plan, index, end, counted(counter), size, told, (n - 1) as nat);
        let first = (counter, data.subrange(offset as int, end as int));
        lemma_first_transfer(plan, index, offset, counter, size, progress, n);
        lemma_put_first(first, rest);
        assert(data.subrange(offset as int, end as int) + data.skip(end as int) == data.skip(
            offset as int,
        ));
        assert forall|k: int| 0 <= k < all.len() implies 1 <= (#[trigger] all[k]).1.len() <= size
            && all[k].0 == (counter + k) % 256 by {
            if k > 0 {
                assert(all[k] == rest[k - 1]);
                lemma_counted(counter, k);
            }
        }
    } else {
        assert(data.skip(offset as int) == Seq::<u8>::empty());
    }
}

/// What a block transfer sends is the payload of the block, whole and in order,
/// in chunks of at most the transfer size, counted from one and wrapping.
pub proof fn law_transfers_carry_the_payload(plan: FlashPlan, index: usize, max_chunk: usize)
    requires
        index < plan.blocks@.len(),
        payload(plan, index as int).len() <= usize::MAX,
        transfer_size(plan, index as int, max_chunk) > 0,
    ensures
        ({
            let data = payload(plan, index as int);
            let step = move_on(plan, Stage::Download { index }, Reply::Size(max_chunk));
            let all = transfers(plan, step, data.len() + 1);
            &&& put_together(all) == data
            &&& forall|k: int|
                0 <= k < all.len() ==> 1 <= (#[trigger] all[k]).1.len() <= transfer_size(
                    plan,
                    index as int,
                    max_chunk,
                ) && all[k].0 == (1 + k) % 256
        }),
{
    let data = payload(plan, index as int);
    let size = transfer_size(plan, index as int, max_chunk) as usize;
    lemma_chunks(plan, index, 0, 1, size, Seq::empty(), data.len() + 1);
    assert(data.skip(0) == data);
}

/// How far a run has come.
pub open spec fn rank(stage: Stage) -> int {
    match stage {
        Stage::Extended => 0,
        Stage::Vin => 1,
        Stage::Precondition => 2,
        Stage::PresentExtended => 3,
        Stage::Programming => 4,
        Stage::SwitchPatch => 4,
        Stage::PresentProgramming => 5,
        Stage::Seed => 6,
        Stage::KeyComputed => 7,
        Stage::KeySent => 8,
        Stage::PresentAuthenticated => 9,
        Stage::Workshop => 10,
        Stage::PresentWorkshop => 11,
        Stage::Verify => 13,
        Stage::PresentVerified => 14,
        Stage::Settle => 15,
        Stage::Resetting => 16,
        Stage::Over => 17,
        _ => 12,
    }
}

/// Whether an action changes what is stored in the ECU.
pub open spec fn writes(action: Act) -> bool {
    match action {
        Act::Routine(id, _) => id == 0xFF00,
        Act::WriteDid(_, _) | Act::Download { .. } | Act::Transfer(_, _) => true,
        _ => false,
    }
}

/// Whether a step keeps to the order of a run.
pub open spec fn in_order(plan: FlashPlan, stage: Stage, reply: Reply, step: Move) -> bool {
    &&& rank(stage) <= rank(step.stage)
    &&& step.stage is Over || rank(step.stage) <= rank(stage) + 1 || (stage is PresentWorkshop
        && plan.blocks@.len() == 0)
    &&& writes(step.action) ==> rank(stage) >= rank(Stage::PresentAuthenticated)
    &&& rank(stage) < rank(Stage::PresentAuthenticated) <= rank(step.stage) && !(step.stage is Over)
        ==> stage is KeySent && !(reply is Fault)
}

proof fn lemma_block_start(plan: FlashPlan, index: usize, progress: Seq<Progress>)
    ensures
        ({
            let step = start_block(plan, index, progress);
            &&& step.stage is Over || 12 <= rank(step.stage) <= 13
            &&& index < plan.blocks@.len() && !(step.stage is Over) ==> rank(step.stage) == 12
        }),
{
}

/// A run never goes back to an earlier part, nor skips one (the blocks, where
/// there are none to flash, make no part); and nothing is
/// erased or written before the ECU has accepted the key.
pub proof fn law_nothing_is_written_before_the_key_is_accepted(
    plan: FlashPlan,
    stage: Stage,
    refusal: Seq<char>,
    reply: Reply,
)
    ensures
        in_order(plan, stage, reply, next_move(plan, stage, refusal, reply)),
{
    match reply {
        Reply::Fault(e) => {
            assert(in_order(plan, stage, reply, move_failed(plan, stage, refusal, e)));
        },
        _ => {
            match stage {
                Stage::PresentWorkshop => {
                    lemma_block_start(plan, 0, Seq::empty());
                },
                Stage::PresentBlock { index } => {
                    lemma_block_start(plan, (index + 1) as usize, Seq::empty());
                },
                _ => {},
            }
        },
    }
}

/// Once everything is written and verified nothing fails any more: whatever the
/// ECU answers to the teardown, the run finishes.
pub proof fn law_teardown_never_fails(
    plan: FlashPlan,
    refusal: Seq<char>,
    a: Reply,
    b: Reply,
    c: Reply,
)
    ensures
        ({
            let settle = next_move(plan, Stage::PresentVerified, refusal, a);
            let reset = next_move(plan, settle.stage, settle.refusal, b);
            let over = next_move(plan, reset.stage, reset.refusal, c);
            &&& settle.action == Act::Wait(SETTLE_PAUSE)
            &&& reset.action == Act::Reset(0x01)
            &&& over.action == Act::Finished
        }),
{
}

/// A refused patch chunk is sent again, the same bytes under the next counter,
/// until the retries are used up. Anything but a refusal ends the run at once.
pub proof fn law_a_refused_patch_chunk_is_sent_again(
    plan: FlashPlan,
    refusal: Seq<char>,
    index: usize,
    offset: usize,
    end: usize,
    counter: u8,
    attempt: usize,
    e: UdsFault,
    waited: Reply,
)
    ensures
        ({
            let stage = Stage::PatchTransfer { index, offset, end, counter, attempt };
            let pause = next_move(plan, stage, refusal, Reply::Fault(e));
            let again = next_move(plan, pause.stage, pause.refusal, waited);
            if e.kind == FaultKind::Negative && attempt + 1 < MAX_PATCH_RETRIES {
                again.action == Act::Transfer(
                    counted(counter),
                    payload(plan, index as int).subrange(offset as int, end as int),
                )
            } else {
                pause.action == Act::Failed(e.trouble())
            }
        }),
{
}

/// The block after a finished one is the next of the list, and the verification
/// follows the last.
pub proof fn law_blocks_are_flashed_in_the_order_given(plan: FlashPlan, index: usize)
    requires
        index < plan.blocks@.len() <= usize::MAX,
    ensures
        ({
            let step = move_on(plan, Stage::PresentBlock { index }, Reply::Done);
            if index + 1 < plan.blocks@.len() {
                step.progress[0] == Progress::FlashingBlock(
                    block_name(plan, index + 1),
                    (index + 1) as usize,
                    plan.blocks@.len() as usize,
                )
            } else {
                step.stage == Stage::Verify
            }
        }),
{
}

} // verus!
