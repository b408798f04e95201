//! What a flash run sends, from the first request to the reset.

use vstd::prelude::*;

use crate::flash::Progress;
use crate::module::{row_of, PreparedBlockData};
use crate::sequence::{
    first_move, go, next_chunk, next_move, next_patch, start_block, FlashPlan, Move, Stage,
};
use crate::uds::{Act, Reply, Trouble, UdsFault};

verus! {

/// The move that follows a reply.
#[verifier::opaque]
pub open spec fn followed(plan: FlashPlan, m: Move, reply: Reply) -> Move {
    next_move(plan, m.stage, m.refusal, reply)
}

/// The moves of a run, one more than there are replies.
pub open spec fn run_of(plan: FlashPlan, replies: Seq<Reply>) -> Seq<Move>
    decreases replies.len(),
{
    if replies.len() == 0 {
        seq![first_move()]
    } else {
        let before = run_of(plan, replies.drop_last());
        before.push(followed(plan, before.last(), replies.last()))
    }
}

/// The block that a stage is about.
pub open spec fn in_hand(stage: Stage) -> int {
    match stage {
        Stage::Erase { index } => index as int,
        Stage::Download { index } => index as int,
        Stage::Transfer { index, .. } => index as int,
        Stage::Exit { index } => index as int,
        Stage::Checksum { index } => index as int,
        Stage::PatchErase { index } => index as int,
        Stage::PatchDownload { index } => index as int,
        Stage::PatchSize { index, .. } => index as int,
        Stage::PatchPause { index, .. } => index as int,
        Stage::PatchTransfer { index, .. } => index as int,
        Stage::PatchExit { index } => index as int,
        Stage::PresentBlock { index } => index as int,
        _ => -1,
    }
}

/// The identifier of a block number, where the module has one.
pub open spec fn id_of(plan: FlashPlan, number: u8) -> Option<u8> {
    row_of(plan.flash_info.block_identifiers@, number)
}

/// The request to erase the block with an identifier.
pub open spec fn erase(id: u8) -> Act {
    Act::Routine(0xFF00, seq![0x01, id])
}

/// Whether an action erases something.
pub open spec fn erases(action: Act) -> bool {
    action matches Act::Routine(routine, _) && routine == 0xFF00
}

spec fn plain(plan: FlashPlan, k: int) -> bool {
    0 <= k < plan.blocks@.len() && plan.blocks@[k].block_number <= 5 && id_of(
        plan,
        plan.blocks@[k].block_number,
    ) is Some
}

spec fn patch(plan: FlashPlan, k: int) -> bool {
    0 <= k < plan.blocks@.len() && plan.blocks@[k].block_number > 5 && id_of(plan, 5) is Some
}

/// What holds of every move of a run.
spec fn fits(plan: FlashPlan, m: Move) -> bool {
    let k = in_hand(m.stage);
    match m.stage {
        Stage::Erase { .. } => plain(plan, k) && plan.blocks@[k].should_erase && m.action == erase(
            id_of(plan, plan.blocks@[k].block_number)->0,
        ),
        Stage::Download { .. } => plain(plan, k) && (m.action matches Act::Download { address, .. }
            && address == id_of(plan, plan.blocks@[k].block_number)->0),
        Stage::Transfer { .. } => plain(plan, k) && m.action is Transfer,
        Stage::Exit { .. } => plain(plan, k) && m.action is TransferExit,
        Stage::Checksum { .. } => plain(plan, k) && (m.action matches Act::Routine(routine, _)
            && routine == 0x0202),
        Stage::PatchErase { .. } => patch(plan, k) && m.action == erase(id_of(plan, 5)->0),
        Stage::PatchDownload { .. } => patch(plan, k) && (m.action matches Act::Download {
            address,
            ..
        } && address + 5 == plan.blocks@[k].block_number),
        Stage::PatchSize { offset, .. } => patch(plan, k) && (m.action matches Act::PatchChunk(
            target,
            at,
        ) && target + 5 == plan.blocks@[k].block_number && at == offset),
        Stage::PatchPause { .. } => patch(plan, k) && m.action == Act::Wait(25),
        Stage::PatchTransfer { .. } => patch(plan, k) && m.action is Transfer,
        Stage::PatchExit { .. } => patch(plan, k) && m.action is TransferExit,
        Stage::PresentBlock { .. } => 0 <= k < plan.blocks@.len() && m.action is TesterPresent,
        Stage::PresentWorkshop => m.action is TesterPresent,
        _ => !erases(m.action) && !(m.action is Download) && !(m.action is PatchChunk)
            && !(m.action is Transfer),
    }
}

proof fn lemma_start_fits(plan: FlashPlan, index: usize, progress: Seq<Progress>)
    ensures
        fits(plan, start_block(plan, index, progress)),
{
}

proof fn lemma_step_fits(plan: FlashPlan, m: Move, reply: Reply)
    requires
        fits(plan, m),
    ensures
        fits(plan, followed(plan, m, reply)),
{
    reveal(followed);
    lemma_start_fits(plan, 0, Seq::empty());
    if let Stage::PresentBlock { index } = m.stage {
        lemma_start_fits(plan, (index + 1) as usize, Seq::empty());
    }
}

proof fn lemma_run_fits(plan: FlashPlan, replies: Seq<Reply>, i: int)
    requires
        0 <= i <= replies.len(),
    ensures
        run_of(plan, replies).len() == replies.len() + 1,
        run_of(plan, replies)[0] == first_move(),
        fits(plan, run_of(plan, replies)[i]),
        i > 0 ==> run_of(plan, replies)[i] == followed(
            plan,
            run_of(plan, replies)[i - 1],
            replies[i - 1],
        ),
    decreases replies.len(),
{
    if replies.len() > 0 {
        let shorter = replies.drop_last();
        let before = run_of(plan, shorter);
        lemma_run_fits(plan, shorter, shorter.len() as int);
        if i < replies.len() {
            lemma_run_fits(plan, shorter, i);
        } else {
            lemma_step_fits(plan, before.last(), replies.last());
        }
    }
}

/// What leads to a download.
proof fn lemma_before_download(plan: FlashPlan, m: Move, reply: Reply)
    requires
        fits(plan, m),
        followed(plan, m, reply).action is Download,
    ensures
        ({
            let next = followed(plan, m, reply);
            let k = in_hand(next.stage);
            let number = plan.blocks@[k].block_number;
            &&& 0 <= k < plan.blocks@.len()
            &&& number <= 5 && plan.blocks@[k].should_erase ==> m.action == erase(
                id_of(plan, number)->0,
            ) && !(reply is Fault)
            &&& number <= 5 && !plan.blocks@[k].should_erase ==> m.action is TesterPresent
                && next.progress[0] == Progress::FlashingBlock(
                plan.blocks@[k].block_name@,
                k as usize,
                plan.blocks@.len() as usize,
            )
            &&& number > 5 ==> m.action == erase(id_of(plan, 5)->0) && !(reply is Fault)
        }),
{
    reveal(followed);
    lemma_step_fits(plan, m, reply);
    if reply is Fault {
        assert(false);
    }
    match m.stage {
        Stage::PresentBlock { index } => {},
        Stage::PresentWorkshop => {},
        Stage::Erase { index } => {},
        Stage::PatchErase { index } => {},
        _ => {
            assert(false);
        },
    }
}

/// In every run, whatever is answered: a block of a number up to 5 that is to be erased
/// is downloaded right after the request to erase that very block was carried out, and
/// one that is not to be erased is downloaded as the first thing that happens to it. The
/// download goes to the identifier of the block.
pub proof fn law_a_block_is_erased_before_its_download(
    plan: FlashPlan,
    replies: Seq<Reply>,
    i: int,
)
    requires
        0 <= i <= replies.len(),
        run_of(plan, replies)[i].action is Download,
        0 <= in_hand(run_of(plan, replies)[i].stage) < plan.blocks@.len() ==> plan.blocks@[in_hand(
            run_of(plan, replies)[i].stage,
        )].block_number <= 5,
    ensures
        ({
            let moves = run_of(plan, replies);
            let k = in_hand(moves[i].stage);
            let block = plan.blocks@[k];
            &&& i > 0
            &&& 0 <= k < plan.blocks@.len()
            &&& id_of(plan, block.block_number) is Some
            &&& moves[i].action->address == id_of(plan, block.block_number)->0
            &&& if block.should_erase {
                moves[i - 1].action == erase(id_of(plan, block.block_number)->0) && !(replies[i
                    - 1] is Fault)
            } else {
                moves[i - 1].action is TesterPresent && moves[i].progress[0]
                    == Progress::FlashingBlock(
                    block.block_name@,
                    k as usize,
                    plan.blocks@.len() as usize,
                )
            }
        }),
{
    lemma_run_fits(plan, replies, i);
    if i > 0 {
        lemma_run_fits(plan, replies, i - 1);
        if run_of(plan, replies)[i].action is Download {
            lemma_before_download(plan, run_of(plan, replies)[i - 1], replies[i - 1]);
        }
    }
}

/// In every run: what is erased is a block of a number up to 5 that is to be erased, by
/// its own identifier, or the calibration, for a patch.
pub proof fn law_only_what_is_to_be_erased_is(plan: FlashPlan, replies: Seq<Reply>, i: int)
    requires
        0 <= i <= replies.len(),
        erases(run_of(plan, replies)[i].action),
    ensures
        ({
            let moves = run_of(plan, replies);
            let k = in_hand(moves[i].stage);
            let number = plan.blocks@[k].block_number;
            &&& 0 <= k < plan.blocks@.len()
            &&& if number <= 5 {
                plan.blocks@[k].should_erase && id_of(plan, number) is Some && moves[i].action
                    == erase(id_of(plan, number)->0)
            } else {
                id_of(plan, 5) is Some && moves[i].action == erase(id_of(plan, 5)->0)
            }
        }),
{
    lemma_run_fits(plan, replies, i);
}

/// In every run: a patch with the number n goes to block n - 5. Its download is requested
/// for that block, right after the calibration was erased, and the sizes of its chunks
/// are asked for that block too.
pub proof fn law_a_patch_goes_to_the_block_five_below(
    plan: FlashPlan,
    replies: Seq<Reply>,
    i: int,
)
    requires
        0 <= i <= replies.len(),
        ({
            let m = run_of(plan, replies)[i];
            m.action is PatchChunk || (m.action is Download && (0 <= in_hand(m.stage)
                < plan.blocks@.len() ==> plan.blocks@[in_hand(m.stage)].block_number > 5))
        }),
    ensures
        ({
            let moves = run_of(plan, replies);
            let k = in_hand(moves[i].stage);
            let number = plan.blocks@[k].block_number;
            &&& i > 0
            &&& 0 <= k < plan.blocks@.len()
            &&& number > 5
            &&& moves[i].action matches Act::PatchChunk(target, _) ==> target == number - 5
            &&& moves[i].action matches Act::Download { address, .. } ==> address == number - 5
                && id_of(plan, 5) is Some && moves[i - 1].action == erase(id_of(plan, 5)->0)
                && !(replies[i - 1] is Fault)
        }),
{
    lemma_run_fits(plan, replies, i);
    if i > 0 {
        lemma_run_fits(plan, replies, i - 1);
        if run_of(plan, replies)[i].action is Download {
            lemma_before_download(plan, run_of(plan, replies)[i - 1], replies[i - 1]);
        }
    }
}

/// The four bytes of a number, most significant first.
pub open spec fn word(v: u32) -> Seq<u8> {
    seq![
        (v / 0x100_0000) as u8,
        (v / 0x1_0000 % 0x100) as u8,
        (v / 0x100 % 0x100) as u8,
        (v % 0x100) as u8,
    ]
}

/// A control module that does whatever it is asked.
pub struct Ecu {
    pub vin: Vec<u8>,
    pub seed: Vec<u8>,
    /// The key that its seed comes to.
    pub key: u32,
    /// The longest transfer that it takes, header and all.
    pub room: usize,
    /// How many bytes of a patch go into a transfer.
    pub chunk: usize,
}

/// How it answers.
pub open spec fn answer(ecu: Ecu, action: Act) -> Reply {
    match action {
        Act::ReadDid(_) => Reply::Data(ecu.vin),
        Act::SecurityAccess(_, key) => if key.len() == 0 {
            Reply::Data(ecu.seed)
        } else {
            Reply::Done
        },
        Act::ComputeKey(_) => Reply::Key(ecu.key),
        Act::Download { .. } => Reply::Size(ecu.room),
        Act::PatchChunk(_, _) => Reply::Size(ecu.chunk),
        _ => Reply::Done,
    }
}

/// The move that follows its answer.
#[verifier::opaque]
pub open spec fn answered(plan: FlashPlan, ecu: Ecu, m: Move) -> Move {
    next_move(plan, m.stage, m.refusal, answer(ecu, m.action))
}

/// The move that follows `n` answers.
pub open spec fn after(plan: FlashPlan, ecu: Ecu, m: Move, n: nat) -> Move
    decreases n,
{
    if n == 0 {
        m
    } else {
        after(plan, ecu, answered(plan, ecu, m), (n - 1) as nat)
    }
}

/// The first `n` actions from a move on.
pub open spec fn acts(plan: FlashPlan, ecu: Ecu, m: Move, n: nat) -> Seq<Act>
    decreases n,
{
    if n == 0 {
        Seq::empty()
    } else {
        seq![m.action] + acts(plan, ecu, answered(plan, ecu, m), (n - 1) as nat)
    }
}

proof fn lemma_acts_split(plan: FlashPlan, ecu: Ecu, m: Move, a: nat, b: nat)
    ensures
        acts(plan, ecu, m, a + b) == acts(plan, ecu, m, a) + acts(
            plan,
            ecu,
            after(plan, ecu, m, a),
            b,
        ),
        after(plan, ecu, m, a + b) == after(plan, ecu, after(plan, ecu, m, a), b),
    decreases a,
{
    if a > 0 {
        let next = answered(plan, ecu, m);
        lemma_acts_split(plan, ecu, next, (a - 1) as nat, b);
        assert((a + b - 1) as nat == (a - 1) as nat + b);
        assert(acts(plan, ecu, m, a + b) == acts(plan, ecu, m, a) + acts(
            plan,
            ecu,
            after(plan, ecu, m, a),
            b,
        ));
    } else {
        assert(acts(plan, ecu, m, a + b) == acts(plan, ecu, m, a) + acts(
            plan,
            ecu,
            after(plan, ecu, m, a),
            b,
        ));
    }
}

proof fn lemma_one_act(plan: FlashPlan, ecu: Ecu, m: Move, n: nat)
    requires
        n > 0,
    ensures
        ({
            let next = answered(plan, ecu, m);
            &&& acts(plan, ecu, m, n) == seq![m.action] + acts(plan, ecu, next, (n - 1) as nat)
            &&& after(plan, ecu, m, n) == after(plan, ecu, next, (n - 1) as nat)
        }),
{
}

/// What a run begins with.
pub open spec fn opening(plan: FlashPlan, ecu: Ecu) -> Seq<Act> {
    seq![
        Act::Session(0x03),
        Act::ReadDid(0xF190),
        Act::Routine(0x0203, Seq::empty()),
        Act::TesterPresent,
        Act::Session(0x02),
        Act::TesterPresent,
        Act::SecurityAccess(0x11, Seq::empty()),
        Act::ComputeKey(seed_of(ecu)),
        Act::SecurityAccess(0x12, word(ecu.key)),
        Act::TesterPresent,
        Act::WriteDid(0xF15A, plan.workshop_code@),
        Act::TesterPresent,
    ]
}

/// What a run ends with.
pub open spec fn closing() -> Seq<Act> {
    seq![
        Act::Routine(0xFF01, Seq::empty()),
        Act::TesterPresent,
        Act::Wait(5000),
        Act::Reset(0x01),
        Act::Finished,
    ]
}

/// The smaller of two numbers.
pub open spec fn smaller(a: int, b: int) -> int {
    if a <= b {
        a
    } else {
        b
    }
}

/// Data from `from` on in transfers of `size` bytes, counted from `counter` on.
pub open spec fn in_chunks(data: Seq<u8>, from: int, size: int, counter: u8) -> Seq<Act>
    decreases data.len() - from,
{
    if size <= 0 || from < 0 || from >= data.len() {
        Seq::empty()
    } else {
        let end = smaller(from + size, data.len() as int);
        seq![Act::Transfer(counter, data.subrange(from, end))] + in_chunks(
            data,
            end,
            size,
            ((counter + 1) % 256) as u8,
        )
    }
}

/// The same for a patch: ask for a size, wait, transfer.
pub open spec fn in_patches(
    data: Seq<u8>,
    target: u8,
    from: int,
    size: int,
    counter: u8,
) -> Seq<Act>
    decreases data.len() - from,
{
    if size <= 0 || from < 0 || from >= data.len() {
        Seq::empty()
    } else {
        let end = smaller(from + size, data.len() as int);
        seq![
            Act::PatchChunk(target, from as usize),
            Act::Wait(25),
            Act::Transfer(counter, data.subrange(from, end)),
        ] + in_patches(data, target, end, size, ((counter + 1) % 256) as u8)
    }
}

/// How many payload bytes a transfer of a block holds: what the module's table says, or
/// 0xFFD, but no more than the control module has room for beside two bytes of header.
pub open spec fn payload_size(plan: FlashPlan, ecu: Ecu, number: u8) -> int {
    let listed = match row_of(plan.flash_info.block_transfer_sizes@, number) {
        Some(n) => n as int,
        None => 0xFFD,
    };
    smaller(listed, ecu.room - 2)
}

/// The request to download a block.
pub open spec fn download_of(block: PreparedBlockData, address: u8) -> Act {
    Act::Download {
        compression: block.compression_type,
        encryption: block.encryption_type,
        address,
        size: word(block.announced_length),
    }
}

/// What is sent for a block.
pub open spec fn block_script(plan: FlashPlan, ecu: Ecu, k: int) -> Seq<Act> {
    let block = plan.blocks@[k];
    let number = block.block_number;
    let data = block.block_encrypted_bytes@;
    if number <= 5 {
        let id = id_of(plan, number)->0;
        let erased = if block.should_erase {
            seq![erase(id)]
        } else {
            Seq::empty()
        };
        erased + seq![download_of(block, id)] + in_chunks(
            data,
            0,
            payload_size(plan, ecu, number),
            1,
        ) + seq![
            Act::TransferExit,
            Act::Routine(0x0202, seq![0x01, id, 0x00, 0x04] + block.uds_checksum@),
            Act::TesterPresent,
        ]
    } else {
        let target = (number - 5) as u8;
        seq![erase(id_of(plan, 5)->0), download_of(block, target)] + in_patches(
            data,
            target,
            0,
            ecu.chunk as int,
            1,
        ) + seq![Act::TransferExit, Act::TesterPresent]
    }
}

/// What is sent for the blocks from `k` on.
pub open spec fn blocks_script(plan: FlashPlan, ecu: Ecu, k: int) -> Seq<Act>
    decreases plan.blocks@.len() - k,
{
    if k < 0 || k >= plan.blocks@.len() {
        Seq::empty()
    } else {
        block_script(plan, ecu, k) + blocks_script(plan, ecu, k + 1)
    }
}

/// Whether nothing stands in the way of flashing a plan.
pub open spec fn flashable(plan: FlashPlan, ecu: Ecu) -> bool {
    &&& ecu.seed@.len() >= 4
    &&& plan.blocks@.len() <= usize::MAX
    &&& forall|k: int|
        0 <= k < plan.blocks@.len() ==> {
            let block = #[trigger] plan.blocks@[k];
            &&& block.block_encrypted_bytes@.len() <= usize::MAX
            &&& if block.block_number <= 5 {
                id_of(plan, block.block_number) is Some && payload_size(
                    plan,
                    ecu,
                    block.block_number,
                ) > 0
            } else {
                id_of(plan, 5) is Some && plan.flash_info.patch_info is Some && ecu.chunk > 0
            }
        }
}

proof fn lemma_word(v: u32)
    ensures
        crate::bytes::be_bytes(v as int) == word(v),
{
    assert(crate::bytes::be_bytes(v as int) == word(v));
}

/// The seed of a control module as a number, most significant byte first.
pub open spec fn seed_of(ecu: Ecu) -> u32 {
    let seed = ecu.seed@;
    (0x100_0000 * seed[0] + 0x1_0000 * seed[1] + 0x100 * seed[2] + seed[3]) as u32
}

proof fn lemma_from_extended(plan: FlashPlan, ecu: Ecu, m: Move)
    requires
        ecu.seed@.len() >= 4,
        m.stage == Stage::Extended,
        m.action == Act::Session(0x03),
    ensures
        answered(plan, ecu, m).stage == Stage::Vin,
        answered(plan, ecu, m).action == Act::ReadDid(0xF190),
{
    reveal(answered);
    lemma_word(ecu.key);
}

proof fn lemma_from_vin(plan: FlashPlan, ecu: Ecu, m: Move)
    requires
        ecu.seed@.len() >= 4,
        m.stage == Stage::Vin,
        m.action == Act::ReadDid(0xF190),
    ensures
        answered(plan, ecu, m).stage == Stage::Precondition,
        answered(plan, ecu, m).action == Act::Routine(0x0203, Seq::empty()),
{
    reveal(answered);
    lemma_word(ecu.key);
}

proof fn lemma_from_precondition(plan: FlashPlan, ecu: Ecu, m: Move)
    requires
        ecu.seed@.len() >= 4,
        m.stage == Stage::Precondition,
        m.action == Act::Routine(0x0203, Seq::empty()),
    ensures
        answered(plan, ecu, m).stage == Stage::PresentExtended,
        answered(plan, ecu, m).action == Act::TesterPresent,
{
    reveal(answered);
    lemma_word(ecu.key);
}

proof fn lemma_from_present(plan: FlashPlan, ecu: Ecu, m: Move)
    requires
        ecu.seed@.len() >= 4,
        m.stage == Stage::PresentExtended,
        m.action == Act::TesterPresent,
    ensures
        answered(plan, ecu, m).stage == Stage::Programming,
        answered(plan, ecu, m).action == Act::Session(0x02),
{
    reveal(answered);
    lemma_word(ecu.key);
}

proof fn lemma_from_programming(plan: FlashPlan, ecu: Ecu, m: Move)
    requires
        ecu.seed@.len() >= 4,
        m.stage == Stage::Programming,
        m.action == Act::Session(0x02),
    ensures
        answered(plan, ecu, m).stage == Stage::PresentProgramming,
        answered(plan, ecu, m).action == Act::TesterPresent,
{
    reveal(answered);
    lemma_word(ecu.key);
}

proof fn lemma_from_programmed(plan: FlashPlan, ecu: Ecu, m: Move)
    requires
        ecu.seed@.len() >= 4,
        m.stage == Stage::PresentProgramming,
        m.action == Act::TesterPresent,
    ensures
        answered(plan, ecu, m).stage == Stage::Seed,
        answered(plan, ecu, m).action == Act::SecurityAccess(0x11, Seq::empty()),
{
    reveal(answered);
    lemma_word(ecu.key);
}

proof fn lemma_from_seed(plan: FlashPlan, ecu: Ecu, m: Move)
    requires
        ecu.seed@.len() >= 4,
        m.stage == Stage::Seed,
        m.action == Act::SecurityAccess(0x11, Seq::empty()),
    ensures
        answered(plan, ecu, m).stage == Stage::KeyComputed,
        answered(plan, ecu, m).action == Act::ComputeKey(seed_of(ecu)),
{
    reveal(answered);
    lemma_word(ecu.key);
}

proof fn lemma_from_key(plan: FlashPlan, ecu: Ecu, m: Move)
    requires
        ecu.seed@.len() >= 4,
        m.stage == Stage::KeyComputed,
        m.action == Act::ComputeKey(seed_of(ecu)),
    ensures
        answered(plan, ecu, m).stage == Stage::KeySent,
        answered(plan, ecu, m).action == Act::SecurityAccess(0x12, word(ecu.key)),
{
    reveal(answered);
    lemma_word(ecu.key);
}

proof fn lemma_from_accepted(plan: FlashPlan, ecu: Ecu, m: Move)
    requires
        ecu.seed@.len() >= 4,
        m.stage == Stage::KeySent,
        m.action == Act::SecurityAccess(0x12, word(ecu.key)),
    ensures
        answered(plan, ecu, m).stage == Stage::PresentAuthenticated,
        answered(plan, ecu, m).action == Act::TesterPresent,
{
    reveal(answered);
    lemma_word(ecu.key);
}

proof fn lemma_from_authenticated(plan: FlashPlan, ecu: Ecu, m: Move)
    requires
        ecu.seed@.len() >= 4,
        m.stage == Stage::PresentAuthenticated,
        m.action == Act::TesterPresent,
    ensures
        answered(plan, ecu, m).stage == Stage::Workshop,
        answered(plan, ecu, m).action == Act::WriteDid(0xF15A, plan.workshop_code@),
{
    reveal(answered);
    lemma_word(ecu.key);
}

proof fn lemma_from_workshop(plan: FlashPlan, ecu: Ecu, m: Move)
    requires
        ecu.seed@.len() >= 4,
        m.stage == Stage::Workshop,
        m.action == Act::WriteDid(0xF15A, plan.workshop_code@),
    ensures
        answered(plan, ecu, m).stage == Stage::PresentWorkshop,
        answered(plan, ecu, m).action == Act::TesterPresent,
{
    reveal(answered);
    lemma_word(ecu.key);
}

proof fn lemma_from_written(plan: FlashPlan, ecu: Ecu, m: Move)
    requires
        m.stage == Stage::PresentWorkshop,
        m.action == Act::TesterPresent,
    ensures
        answered(plan, ecu, m) == start_block(plan, 0, Seq::empty()),
{
    reveal(answered);
}

proof fn lemma_opening(plan: FlashPlan, ecu: Ecu)
    requires
        ecu.seed@.len() >= 4,
    ensures
        acts(plan, ecu, first_move(), 12) == opening(plan, ecu),
        after(plan, ecu, first_move(), 12) == start_block(plan, 0, Seq::empty()),
{
    let m0 = first_move();
    lemma_from_extended(plan, ecu, m0);
    let m1 = answered(plan, ecu, m0);
    lemma_from_vin(plan, ecu, m1);
    let m2 = answered(plan, ecu, m1);
    lemma_from_precondition(plan, ecu, m2);
    let m3 = answered(plan, ecu, m2);
    lemma_from_present(plan, ecu, m3);
    let m4 = answered(plan, ecu, m3);
    lemma_from_programming(plan, ecu, m4);
    let m5 = answered(plan, ecu, m4);
    lemma_from_programmed(plan, ecu, m5);
    let m6 = answered(plan, ecu, m5);
    lemma_from_seed(plan, ecu, m6);
    let m7 = answered(plan, ecu, m6);
    lemma_from_key(plan, ecu, m7);
    let m8 = answered(plan, ecu, m7);
    lemma_from_accepted(plan, ecu, m8);
    let m9 = answered(plan, ecu, m8);
    lemma_from_authenticated(plan, ecu, m9);
    let m10 = answered(plan, ecu, m9);
    lemma_from_workshop(plan, ecu, m10);
    let m11 = answered(plan, ecu, m10);
    lemma_from_written(plan, ecu, m11);
    lemma_one_act(plan, ecu, m0, 12);
    lemma_one_act(plan, ecu, m1, 11);
    lemma_one_act(plan, ecu, m2, 10);
    lemma_one_act(plan, ecu, m3, 9);
    lemma_one_act(plan, ecu, m4, 8);
    lemma_one_act(plan, ecu, m5, 7);
    lemma_one_act(plan, ecu, m6, 6);
    lemma_one_act(plan, ecu, m7, 5);
    lemma_one_act(plan, ecu, m8, 4);
    lemma_one_act(plan, ecu, m9, 3);
    lemma_one_act(plan, ecu, m10, 2);
    lemma_one_act(plan, ecu, m11, 1);
    assert(acts(plan, ecu, first_move(), 12) == opening(plan, ecu));
}

proof fn lemma_closing(plan: FlashPlan, ecu: Ecu, index: usize, progress: Seq<Progress>)
    requires
        index >= plan.blocks@.len(),
    ensures
        acts(plan, ecu, start_block(plan, index, progress), 5) == closing(),
{
    reveal(answered);
    let m0 = start_block(plan, index, progress);
    let m1 = answered(plan, ecu, m0);
    let m2 = answered(plan, ecu, m1);
    let m3 = answered(plan, ecu, m2);
    let m4 = answered(plan, ecu, m3);
    lemma_one_act(plan, ecu, m0, 5);
    lemma_one_act(plan, ecu, m1, 4);
    lemma_one_act(plan, ecu, m2, 3);
    lemma_one_act(plan, ecu, m3, 2);
    lemma_one_act(plan, ecu, m4, 1);
    assert(acts(plan, ecu, m0, 5) == closing());
}

proof fn lemma_chunks(
    plan: FlashPlan,
    ecu: Ecu,
    index: usize,
    from: usize,
    counter: u8,
    size: usize,
    progress: Seq<Progress>,
)
    requires
        index < plan.blocks@.len(),
        size > 0,
        plan.blocks@[index as int].block_encrypted_bytes@.len() <= usize::MAX,
        from <= plan.blocks@[index as int].block_encrypted_bytes@.len(),
    ensures
        ({
            let data = plan.blocks@[index as int].block_encrypted_bytes@;
            let sent = in_chunks(data, from as int, size as int, counter);
            let m = next_chunk(plan, index, from, counter, size, progress);
            &&& acts(plan, ecu, m, sent.len()) == sent
            &&& after(plan, ecu, m, sent.len()).stage == Stage::Exit { index }
            &&& after(plan, ecu, m, sent.len()).action == Act::TransferExit
        }),
    decreases plan.blocks@[index as int].block_encrypted_bytes@.len() - from,
{
    reveal(answered);
    let data = plan.blocks@[index as int].block_encrypted_bytes@;
    let m = next_chunk(plan, index, from, counter, size, progress);
    let sent = in_chunks(data, from as int, size as int, counter);
    if from < data.len() {
        let end = smaller(from + size, data.len() as int) as usize;
        let next = answered(plan, ecu, m);
        let counted = ((counter + 1) % 256) as u8;
        let rest = in_chunks(data, end as int, size as int, counted);
        lemma_one_act(plan, ecu, m, sent.len());
        assert(next == next_chunk(plan, index, end, counted, size, next.progress));
        lemma_chunks(plan, ecu, index, end, counted, size, next.progress);
        assert((sent.len() - 1) as nat == rest.len());
    }
}

proof fn lemma_patches(
    plan: FlashPlan,
    ecu: Ecu,
    index: usize,
    from: usize,
    counter: u8,
    progress: Seq<Progress>,
)
    requires
        index < plan.blocks@.len(),
        plan.blocks@[index as int].block_number > 5,
        ecu.chunk > 0,
        plan.blocks@[index as int].block_encrypted_bytes@.len() <= usize::MAX,
        from <= plan.blocks@[index as int].block_encrypted_bytes@.len(),
    ensures
        ({
            let block = plan.blocks@[index as int];
            let data = block.block_encrypted_bytes@;
            let target = (block.block_number - 5) as u8;
            let sent = in_patches(data, target, from as int, ecu.chunk as int, counter);
            let m = next_patch(plan, index, from, counter, progress);
            &&& acts(plan, ecu, m, sent.len()) == sent
            &&& after(plan, ecu, m, sent.len()).stage == Stage::PatchExit { index }
            &&& after(plan, ecu, m, sent.len()).action == Act::TransferExit
        }),
    decreases plan.blocks@[index as int].block_encrypted_bytes@.len() - from,
{
    reveal(answered);
    let block = plan.blocks@[index as int];
    let data = block.block_encrypted_bytes@;
    let target = (block.block_number - 5) as u8;
    let m = next_patch(plan, index, from, counter, progress);
    let sent = in_patches(data, target, from as int, ecu.chunk as int, counter);
    if from < data.len() {
        let end = smaller(from + ecu.chunk, data.len() as int) as usize;
        let counted = ((counter + 1) % 256) as u8;
        let rest = in_patches(data, target, end as int, ecu.chunk as int, counted);
        let m1 = answered(plan, ecu, m);
        let m2 = answered(plan, ecu, m1);
        let m3 = answered(plan, ecu, m2);
        assert(m1.action == Act::Wait(25));
        assert(m2.action == Act::Transfer(counter, data.subrange(from as int, end as int)));
        assert(m3 == next_patch(plan, index, end, counted, m3.progress));
        lemma_patches(plan, ecu, index, end, counted, m3.progress);
        lemma_one_act(plan, ecu, m, sent.len());
        lemma_one_act(plan, ecu, m1, (sent.len() - 1) as nat);
        lemma_one_act(plan, ecu, m2, (sent.len() - 2) as nat);
        assert((sent.len() - 3) as nat == rest.len());
        assert(acts(plan, ecu, m, sent.len()) == sent);
    }
}

/// From the download of a block of a number up to 5 on.
proof fn lemma_downloaded(plan: FlashPlan, ecu: Ecu, k: usize, m: Move)
    requires
        k < plan.blocks@.len(),
        flashable(plan, ecu),
        plan.blocks@[k as int].block_number <= 5,
        m.stage == (Stage::Download { index: k }),
        m.action is Download,
    ensures
        ({
            let block = plan.blocks@[k as int];
            let id = id_of(plan, block.block_number)->0;
            let sent = in_chunks(
                block.block_encrypted_bytes@,
                0,
                payload_size(plan, ecu, block.block_number),
                1,
            );
            let script = seq![m.action] + sent + seq![
                Act::TransferExit,
                Act::Routine(0x0202, seq![0x01, id, 0x00, 0x04] + block.uds_checksum@),
                Act::TesterPresent,
            ];
            &&& acts(plan, ecu, m, script.len()) == script
            &&& after(plan, ecu, m, script.len()) == start_block(
                plan,
                (k + 1) as usize,
                Seq::empty(),
            )
        }),
{
    reveal(answered);
    let block = plan.blocks@[k as int];
    let id = id_of(plan, block.block_number)->0;
    let size = payload_size(plan, ecu, block.block_number) as usize;
    let sent = in_chunks(block.block_encrypted_bytes@, 0, size as int, 1);
    let script = seq![m.action] + sent + seq![
        Act::TransferExit,
        Act::Routine(0x0202, seq![0x01, id, 0x00, 0x04] + block.uds_checksum@),
        Act::TesterPresent,
    ];
    let m1 = answered(plan, ecu, m);
    assert(m1 == next_chunk(plan, k, 0, 1, size, Seq::empty()));
    lemma_chunks(plan, ecu, k, 0, 1, size, Seq::empty());
    let e = after(plan, ecu, m1, sent.len());
    let e1 = answered(plan, ecu, e);
    let e2 = answered(plan, ecu, e1);
    lemma_one_act(plan, ecu, m, script.len());
    assert((script.len() - 1) as nat == sent.len() + 3);
    lemma_acts_split(plan, ecu, m1, sent.len(), 3);
    lemma_one_act(plan, ecu, e, 3);
    lemma_one_act(plan, ecu, e1, 2);
    lemma_one_act(plan, ecu, e2, 1);
    assert(acts(plan, ecu, m, script.len()) == script);
}

/// A block of a number up to 5.
proof fn lemma_plain_block(plan: FlashPlan, ecu: Ecu, k: usize)
    requires
        k < plan.blocks@.len(),
        flashable(plan, ecu),
        plan.blocks@[k as int].block_number <= 5,
    ensures
        ({
            let m = start_block(plan, k, Seq::empty());
            let script = block_script(plan, ecu, k as int);
            &&& acts(plan, ecu, m, script.len()) == script
            &&& after(plan, ecu, m, script.len()) == start_block(
                plan,
                (k + 1) as usize,
                Seq::empty(),
            )
        }),
{
    let block = plan.blocks@[k as int];
    let m = start_block(plan, k, Seq::empty());
    let script = block_script(plan, ecu, k as int);
    lemma_word(block.announced_length);
    if block.should_erase {
        let m1 = answered(plan, ecu, m);
        assert(m1.stage == (Stage::Download { index: k }) && m1.action == download_of(
            block,
            id_of(plan, block.block_number)->0,
        )) by {
            reveal(answered);
        }
        lemma_downloaded(plan, ecu, k, m1);
        lemma_one_act(plan, ecu, m, script.len());
        assert(script.skip(1) == acts(plan, ecu, m1, (script.len() - 1) as nat));
        assert(acts(plan, ecu, m, script.len()) == script);
    } else {
        lemma_downloaded(plan, ecu, k, m);
        assert(acts(plan, ecu, m, script.len()) == script);
    }
}

/// A patch.
proof fn lemma_patch_block(plan: FlashPlan, ecu: Ecu, k: usize)
    requires
        k < plan.blocks@.len(),
        flashable(plan, ecu),
        plan.blocks@[k as int].block_number > 5,
    ensures
        ({
            let m = start_block(plan, k, Seq::empty());
            let script = block_script(plan, ecu, k as int);
            &&& acts(plan, ecu, m, script.len()) == script
            &&& after(plan, ecu, m, script.len()) == start_block(
                plan,
                (k + 1) as usize,
                Seq::empty(),
            )
        }),
{
    let block = plan.blocks@[k as int];
    let m = start_block(plan, k, Seq::empty());
    let script = block_script(plan, ecu, k as int);
    lemma_word(block.announced_length);
    let target = (block.block_number - 5) as u8;
    let data = block.block_encrypted_bytes@;
    let sent = in_patches(data, target, 0, ecu.chunk as int, 1);
    let m1 = answered(plan, ecu, m);
    let m2 = answered(plan, ecu, m1);
    assert(m1.stage == (Stage::PatchDownload { index: k }) && m1.action == download_of(
        block,
        target,
    )) by {
        reveal(answered);
    }
    assert(m2 == next_patch(plan, k, 0, 1, Seq::empty())) by {
        reveal(answered);
    }
    lemma_patches(plan, ecu, k, 0, 1, Seq::empty());
    let e = after(plan, ecu, m2, sent.len());
    let e1 = answered(plan, ecu, e);
    assert(e1.stage == (Stage::PresentBlock { index: k }) && e1.action is TesterPresent) by {
        reveal(answered);
    }
    assert(answered(plan, ecu, e1) == start_block(plan, (k + 1) as usize, Seq::empty())) by {
        reveal(answered);
    }
    lemma_one_act(plan, ecu, m, script.len());
    lemma_one_act(plan, ecu, m1, (script.len() - 1) as nat);
    assert((script.len() - 2) as nat == sent.len() + 2);
    lemma_acts_split(plan, ecu, m2, sent.len(), 2);
    lemma_one_act(plan, ecu, e, 2);
    lemma_one_act(plan, ecu, e1, 1);
    assert(acts(plan, ecu, m, script.len()) == script);
}

proof fn lemma_block(plan: FlashPlan, ecu: Ecu, k: usize)
    requires
        k < plan.blocks@.len(),
        flashable(plan, ecu),
    ensures
        ({
            let m = start_block(plan, k, Seq::empty());
            let script = block_script(plan, ecu, k as int);
            &&& acts(plan, ecu, m, script.len()) == script
            &&& after(plan, ecu, m, script.len()) == start_block(
                plan,
                (k + 1) as usize,
                Seq::empty(),
            )
        }),
{
    if plan.blocks@[k as int].block_number <= 5 {
        lemma_plain_block(plan, ecu, k);
    } else {
        lemma_patch_block(plan, ecu, k);
    }
}

proof fn lemma_blocks(plan: FlashPlan, ecu: Ecu, k: usize)
    requires
        k <= plan.blocks@.len(),
        flashable(plan, ecu),
    ensures
        ({
            let script = blocks_script(plan, ecu, k as int) + closing();
            acts(plan, ecu, start_block(plan, k, Seq::empty()), script.len()) == script
        }),
    decreases plan.blocks@.len() - k,
{
    let m = start_block(plan, k, Seq::empty());
    let script = blocks_script(plan, ecu, k as int) + closing();
    if k >= plan.blocks@.len() {
        lemma_closing(plan, ecu, k, Seq::empty());
        assert(script == closing());
    } else {
        let first = block_script(plan, ecu, k as int);
        let rest = blocks_script(plan, ecu, k + 1) + closing();
        lemma_block(plan, ecu, k);
        lemma_blocks(plan, ecu, (k + 1) as usize);
        lemma_acts_split(plan, ecu, m, first.len(), rest.len());
        assert(script == first + rest);
    }
}

/// What a control module that does whatever it is asked is asked for, from the first
/// request to the last: the sessions and the authentication, every block in turn, the
/// verification and the reset.
pub proof fn law_what_a_flash_sends(plan: FlashPlan, ecu: Ecu)
    requires
        flashable(plan, ecu),
    ensures
        ({
            let script = opening(plan, ecu) + blocks_script(plan, ecu, 0) + closing();
            acts(plan, ecu, first_move(), script.len()) == script
        }),
{
    let blocks = blocks_script(plan, ecu, 0) + closing();
    let script = opening(plan, ecu) + blocks_script(plan, ecu, 0) + closing();
    lemma_opening(plan, ecu);
    lemma_blocks(plan, ecu, 0);
    lemma_acts_split(plan, ecu, first_move(), 12, blocks.len());
    assert(script == opening(plan, ecu) + blocks);
}

/// Whether a failure at a stage ends the run. The VIN is not needed, a refused
/// programming session has a fallback, and what follows the verification is teardown;
/// a pause does not fail.
pub open spec fn fails_hard(stage: Stage) -> bool {
    match stage {
        Stage::Vin | Stage::Programming | Stage::PresentVerified | Stage::Settle
        | Stage::Resetting | Stage::Over => false,
        Stage::PatchPause { .. } | Stage::PatchTransfer { .. } => false,
        _ => true,
    }
}

/// A failed request ends the run at once, with an error that says what failed, wherever
/// the request was needed. Nothing is done after that.
pub proof fn law_a_failure_ends_the_run(
    plan: FlashPlan,
    stage: Stage,
    refusal: Seq<char>,
    e: UdsFault,
    later: Reply,
)
    requires
        fails_hard(stage),
    ensures
        ({
            let m = next_move(plan, stage, refusal, Reply::Fault(e));
            &&& m.action == Act::Failed(
                if stage is KeySent || stage is KeyComputed {
                    Trouble::AuthFailed
                } else if stage is SwitchPatch {
                    Trouble::Interface(
                        "Could not enter programming session. Normal request: "@ + refusal
                            + ". SwitchPatch fallback: "@ + e.text@,
                    )
                } else if e.kind is Timeout {
                    Trouble::Timeout
                } else {
                    Trouble::Interface(e.text@)
                },
            )
            &&& m.progress.len() == 0
            &&& next_move(plan, m.stage, m.refusal, later).action is Finished
        }),
{
}

/// A refused programming session is asked for a second time, in the other way, and what
/// the refusal said is kept; where the other way works, the run goes on as if the first
/// had worked.
pub proof fn law_a_refused_session_is_asked_for_again(
    plan: FlashPlan,
    refusal: Seq<char>,
    e: UdsFault,
)
    ensures
        ({
            let again = next_move(plan, Stage::Programming, refusal, Reply::Fault(e));
            let entered = next_move(plan, again.stage, again.refusal, Reply::Done);
            let direct = next_move(plan, Stage::Programming, refusal, Reply::Done);
            &&& again.action is SwitchPatch
            &&& again.refusal == e.text@
            &&& entered.progress == seq![Progress::SwitchPatchUsed]
            &&& entered.stage == direct.stage
            &&& entered.action == direct.action
            &&& direct.action is TesterPresent
        }),
{
}

/// An unreadable VIN changes nothing but what is reported.
pub proof fn law_the_vin_is_not_needed(
    plan: FlashPlan,
    refusal: Seq<char>,
    e: UdsFault,
    vin: Vec<u8>,
)
    ensures
        ({
            let without = next_move(plan, Stage::Vin, refusal, Reply::Fault(e));
            let with = next_move(plan, Stage::Vin, refusal, Reply::Data(vin));
            &&& without.stage == with.stage
            &&& without.action == with.action
            &&& without.progress[0] == Progress::ReadVin("(unknown)"@)
            &&& with.progress[0] == Progress::ReadVin(crate::text::utf8_lossy(vin@))
            &&& without.progress.skip(1) == with.progress.skip(1)
        }),
{
    let without = next_move(plan, Stage::Vin, refusal, Reply::Fault(e));
    let with = next_move(plan, Stage::Vin, refusal, Reply::Data(vin));
    assert(without.progress.skip(1) == with.progress.skip(1));
}

/// A seed of fewer than four bytes is no seed.
pub proof fn law_a_short_seed_fails(plan: FlashPlan, refusal: Seq<char>, seed: Vec<u8>)
    ensures
        (next_move(plan, Stage::Seed, refusal, Reply::Data(seed)).action == Act::Failed(
            Trouble::AuthFailed,
        )) == (seed@.len() < 4),
{
}

/// A control module that leaves no room for a payload is told of.
pub proof fn law_no_room_for_a_payload_fails(
    plan: FlashPlan,
    refusal: Seq<char>,
    index: usize,
    room: usize,
)
    requires
        index < plan.blocks@.len(),
        room <= 2,
    ensures
        next_move(plan, Stage::Download { index }, refusal, Reply::Size(room)).action
            == Act::Failed(
            Trouble::Config(
                "ECU reported maxNumberOfBlockLength "@ + crate::text::dec(room as nat)
                    + ", leaving no room for a payload"@,
            ),
        ),
{
}

/// A patch chunk that is refused is sent again after a pause, the same bytes under the
/// next counter, up to 200 times in all; any other failure, and the last refusal, ends
/// the run.
pub proof fn law_a_patch_chunk_is_tried_two_hundred_times(
    plan: FlashPlan,
    refusal: Seq<char>,
    m: Move,
    index: usize,
    offset: usize,
    end: usize,
    counter: u8,
    attempt: usize,
    e: UdsFault,
)
    requires
        m.stage == (Stage::PatchTransfer { index, offset, end, counter, attempt }),
        m == next_move(
            plan,
            Stage::PatchPause { index, offset, end, counter, attempt },
            refusal,
            Reply::Done,
        ),
    ensures
        ({
            let pause = next_move(plan, m.stage, m.refusal, Reply::Fault(e));
            let again = next_move(plan, pause.stage, pause.refusal, Reply::Done);
            if e.kind is Negative && attempt < 199 {
                &&& pause.action == Act::Wait(25)
                &&& again.action == Act::Transfer(
                    ((counter + 1) % 256) as u8,
                    m.action->Transfer_1,
                )
                &&& again.stage == (Stage::PatchTransfer {
                    index,
                    offset,
                    end,
                    counter: ((counter + 1) % 256) as u8,
                    attempt: (attempt + 1) as usize,
                })
            } else {
                pause.action == Act::Failed(
                    if e.kind is Timeout {
                        Trouble::Timeout
                    } else {
                        Trouble::Interface(e.text@)
                    },
                )
            }
        }),
{
}

/// What is reported of a block: that it is begun, how far it is with every transfer, and
/// that it is complete.
pub proof fn law_the_progress_of_a_block_is_reported(
    plan: FlashPlan,
    refusal: Seq<char>,
    index: usize,
    end: usize,
    counter: u8,
    size: usize,
)
    requires
        index < plan.blocks@.len() <= usize::MAX,
    ensures
        ({
            let block = plan.blocks@[index as int];
            let begun = start_block(plan, index, Seq::empty());
            let stage = Stage::Transfer { index, end, counter, size };
            let sent = next_move(plan, stage, refusal, Reply::Done);
            let checked = next_move(plan, Stage::Checksum { index }, refusal, Reply::Done);
            let patched = next_move(plan, Stage::PatchExit { index }, refusal, Reply::Done);
            let complete = seq![Progress::BlockComplete(index)];
            &&& begun.progress[0] == Progress::FlashingBlock(
                block.block_name@,
                index,
                plan.blocks@.len() as usize,
            )
            &&& sent.progress == seq![
                Progress::BlockTransferProgress(
                    block.block_name@,
                    end,
                    block.block_encrypted_bytes@.len() as usize,
                ),
            ]
            &&& checked.progress == complete
            &&& patched.progress == complete
        }),
{
}

/// Once the blocks are verified nothing can fail a run any more, and a pause that is cut
/// short is over.
pub proof fn law_a_verified_run_ends_well(
    plan: FlashPlan,
    stage: Stage,
    refusal: Seq<char>,
    e: UdsFault,
)
    requires
        stage is PresentVerified || stage is Settle || stage is Resetting || stage is PatchPause,
    ensures
        next_move(plan, stage, refusal, Reply::Fault(e)) == next_move(
            plan,
            stage,
            refusal,
            Reply::Done,
        ),
        !(next_move(plan, stage, refusal, Reply::Fault(e)).action is Failed),
{
}

/// What is reported of a run outside of its blocks.
pub proof fn law_the_progress_of_a_run_is_reported(
    plan: FlashPlan,
    refusal: Seq<char>,
    key: u32,
    seed: Vec<u8>,
)
    ensures
        ({
            let after = |stage: Stage| next_move(plan, stage, refusal, Reply::Done).progress;
            &&& first_move().progress == seq![Progress::Connecting]
            &&& after(Stage::Extended).len() == 0
            &&& after(Stage::Precondition).len() == 0
            &&& after(Stage::PresentExtended) == seq![Progress::ProgrammingSession]
            &&& after(Stage::Programming).len() == 0
            &&& after(Stage::PresentProgramming) == seq![Progress::Authenticating]
            &&& next_move(plan, Stage::Seed, refusal, Reply::Data(seed)).progress.len() == 0
            &&& next_move(plan, Stage::KeyComputed, refusal, Reply::Key(key)).progress.len() == 0
            &&& after(Stage::KeySent).len() == 0
            &&& after(Stage::PresentAuthenticated) == seq![Progress::WritingWorkshopCode]
            &&& after(Stage::Workshop).len() == 0
            &&& start_block(plan, plan.blocks@.len() as usize, Seq::empty()).progress == seq![
                Progress::Verifying,
            ] || plan.blocks@.len() > usize::MAX
            &&& after(Stage::Verify).len() == 0
            &&& after(Stage::PresentVerified).len() == 0
            &&& after(Stage::Settle) == seq![Progress::EcuReset]
            &&& after(Stage::Resetting).len() == 0
        }),
{
    assert(Seq::<Progress>::empty().push(Progress::Verifying) =~= seq![Progress::Verifying]);
}

} // verus!
