use vstd::prelude::*;
use crate::status::StatusCode;
use crate::game::{GameState, result_byte};

verus! {

/// The firmware calls the bootloader makes, in the order it makes them: it
/// runs the game, reads whether the game was won, and boots Linux only then.
#[derive(Clone, Copy, Debug, PartialEq, Eq, Structural)]
pub enum BootStep {
    /// Open the loaded-image protocol of the bootloader itself.
    OpenLoadedImage,
    /// Build the device path of `\game.efi` on the boot device.
    BuildGamePath,
    /// Delete a game result left from an earlier boot.
    ClearStaleResult,
    /// Load the game image.
    LoadGame,
    /// Open the loaded-image protocol of the game.
    OpenLoadedGame,
    /// Hand the command line to the game image.
    SetGameOptions,
    /// Start the game and wait for it to return.
    StartGame,
    /// Read the game result variable.
    ReadResult,
    /// Delete the game result variable, remembering the result read.
    ClearResult(u8),
    /// Build the device path of `\vmlinuz` on the boot device.
    BuildKernelPath,
    /// Load the kernel image.
    LoadKernel,
    /// Open the loaded-image protocol of the kernel.
    OpenLoadedKernel,
    /// Hand the command line to the kernel image.
    SetKernelOptions,
    /// Start the kernel.
    StartKernel,
}

/// What the bootloader reports on the console as it stops.
#[derive(Clone, Copy, Debug, PartialEq, Eq, Structural)]
pub enum BootNote {
    Silent,
    /// The game left no readable result.
    NoResult,
    /// The game was lost, so Linux is not booted.
    GameLost,
}

/// What the bootloader does next: make a firmware call, or return to the
/// firmware with a status.
#[derive(Clone, Copy, Debug, PartialEq, Eq, Structural)]
pub enum BootAction {
    Run(BootStep),
    Exit(StatusCode, BootNote),
}

impl BootStep {
    /// The steps that lead to Linux once the game has been won.
    pub open spec fn boots_kernel(self) -> bool {
        ||| self == BootStep::BuildKernelPath
        ||| self == BootStep::LoadKernel
        ||| self == BootStep::OpenLoadedKernel
        ||| self == BootStep::SetKernelOptions
        ||| self == BootStep::StartKernel
    }
}

/// The step that follows `step` when it succeeded; `value` is what the
/// step produced (the byte read, for `ReadResult`).
pub open spec fn after_success(step: BootStep, value: u8) -> BootAction {
    match step {
        BootStep::OpenLoadedImage => BootAction::Run(BootStep::BuildGamePath),
        BootStep::BuildGamePath => BootAction::Run(BootStep::ClearStaleResult),
        BootStep::ClearStaleResult => BootAction::Run(BootStep::LoadGame),
        BootStep::LoadGame => BootAction::Run(BootStep::OpenLoadedGame),
        BootStep::OpenLoadedGame => BootAction::Run(BootStep::SetGameOptions),
        BootStep::SetGameOptions => BootAction::Run(BootStep::StartGame),
        BootStep::StartGame => BootAction::Run(BootStep::ReadResult),
        BootStep::ReadResult => BootAction::Run(BootStep::ClearResult(value)),
        BootStep::ClearResult(result) => if result != 1 {
            BootAction::Exit(StatusCode::success(), BootNote::GameLost)
        } else {
            BootAction::Run(BootStep::BuildKernelPath)
        },
        BootStep::BuildKernelPath => BootAction::Run(BootStep::LoadKernel),
        BootStep::LoadKernel => BootAction::Run(BootStep::OpenLoadedKernel),
        BootStep::OpenLoadedKernel => BootAction::Run(BootStep::SetKernelOptions),
        BootStep::SetKernelOptions => BootAction::Run(BootStep::StartKernel),
        BootStep::StartKernel => BootAction::Exit(StatusCode::success(), BootNote::Silent),
    }
}

/// The action that follows `step` with the given outcome.
pub open spec fn boot_next_spec(step: BootStep, outcome: Result<u8, StatusCode>) -> BootAction {
    match outcome {
        Ok(value) => after_success(step, value),
        Err(status) => BootAction::Exit(
            status,
            if step == BootStep::ReadResult { BootNote::NoResult } else { BootNote::Silent },
        ),
    }
}

/// Where a boot stands after the firmware calls have had the given outcomes,
/// one per call, starting from the first step.
pub open spec fn boot_after(outcomes: Seq<Result<u8, StatusCode>>) -> BootAction
    decreases outcomes.len(),
{
    if outcomes.len() == 0 {
        BootAction::Run(BootStep::OpenLoadedImage)
    } else {
        match boot_after(outcomes.drop_last()) {
            BootAction::Run(step) => boot_next_spec(step, outcomes.last()),
            exit => exit,
        }
    }
}

/// The first firmware call of a boot.
pub fn boot_start() -> (action: BootAction)
    ensures
        action == boot_after(seq![]),
{
    BootAction::Run(BootStep::OpenLoadedImage)
}

/// Decides what the bootloader does after `step` had `outcome`: any failure
/// ends the boot with the failure's status; a read game result other than 1
/// ends it with success and nothing booted; otherwise the next call follows.
pub fn boot_next(step: BootStep, outcome: Result<u8, StatusCode>) -> (action: BootAction)
    ensures
        action == boot_next_spec(step, outcome),
{
    let value = match outcome {
        Ok(value) => value,
        Err(status) => {
            let note = match step {
                BootStep::ReadResult => BootNote::NoResult,
                _ => BootNote::Silent,
            };
            return BootAction::Exit(status, note);
        },
    };
    match step {
        BootStep::OpenLoadedImage => BootAction::Run(BootStep::BuildGamePath),
        BootStep::BuildGamePath => BootAction::Run(BootStep::ClearStaleResult),
        BootStep::ClearStaleResult => BootAction::Run(BootStep::LoadGame),
        BootStep::LoadGame => BootAction::Run(BootStep::OpenLoadedGame),
        BootStep::OpenLoadedGame => BootAction::Run(BootStep::SetGameOptions),
        BootStep::SetGameOptions => BootAction::Run(BootStep::StartGame),
        BootStep::StartGame => BootAction::Run(BootStep::ReadResult),
        BootStep::ReadResult => BootAction::Run(BootStep::ClearResult(value)),
        BootStep::ClearResult(result) => {
            if result != 1 {
                BootAction::Exit(StatusCode::success_code(), BootNote::GameLost)
            } else {
                BootAction::Run(BootStep::BuildKernelPath)
            }
        },
        BootStep::BuildKernelPath => BootAction::Run(BootStep::LoadKernel),
        BootStep::LoadKernel => BootAction::Run(BootStep::OpenLoadedKernel),
        BootStep::OpenLoadedKernel => BootAction::Run(BootStep::SetKernelOptions),
        BootStep::SetKernelOptions => BootAction::Run(BootStep::StartKernel),
        BootStep::StartKernel => BootAction::Exit(StatusCode::success_code(), BootNote::Silent),
    }
}

/// The size in bytes of a UEFI command line of UTF-16 code units, as the
/// `load_options_size` field of a loaded image holds it (cut to 32 bits).
pub fn load_options_size(cmdline: &[u16]) -> (size: u32)
    requires
        cmdline@.len() * 2 <= usize::MAX,
    ensures
        size == (cmdline@.len() * 2) as u32,
{
    let bytes: usize = cmdline.len() * core::mem::size_of::<u16>();
    bytes as u32
}


impl BootStep {
    /// How many firmware calls come before this one in a boot.
    pub open spec fn position(self) -> nat {
        match self {
            BootStep::OpenLoadedImage => 0,
            BootStep::BuildGamePath => 1,
            BootStep::ClearStaleResult => 2,
            BootStep::LoadGame => 3,
            BootStep::OpenLoadedGame => 4,
            BootStep::SetGameOptions => 5,
            BootStep::StartGame => 6,
            BootStep::ReadResult => 7,
            BootStep::ClearResult(_) => 8,
            BootStep::BuildKernelPath => 9,
            BootStep::LoadKernel => 10,
            BootStep::OpenLoadedKernel => 11,
            BootStep::SetKernelOptions => 12,
            BootStep::StartKernel => 13,
        }
    }
}

/// Each firmware call moves the boot one step on: after `n` calls that did
/// not end it, the boot stands at its `n`-th step.
pub proof fn lemma_boot_position(outcomes: Seq<Result<u8, StatusCode>>)
    ensures
        boot_after(outcomes) matches BootAction::Run(step) ==> step.position() == outcomes.len(),
    decreases outcomes.len(),
{
    if outcomes.len() > 0 {
        lemma_boot_position(outcomes.drop_last());
    }
}

/// Every boot ends: after fourteen firmware calls at most, the bootloader
/// returns to the firmware.
pub proof fn lemma_boot_ends(outcomes: Seq<Result<u8, StatusCode>>)
    requires
        outcomes.len() >= 14,
    ensures
        boot_after(outcomes) is Exit,
{
    lemma_boot_position(outcomes);
}

/// Linux is only ever loaded after the game result was read as 1: whenever
/// the boot stands at a step that leads to the kernel, the eighth call was
/// the read of the result and it gave 1.
pub proof fn lemma_kernel_needs_win(outcomes: Seq<Result<u8, StatusCode>>)
    ensures
        boot_after(outcomes) matches BootAction::Run(step) ==> (step.boots_kernel() ==> {
            &&& outcomes.len() > 7
            &&& boot_after(outcomes.take(7)) == BootAction::Run(BootStep::ReadResult)
            &&& outcomes[7] == Ok::<u8, StatusCode>(1u8)
        }),
        boot_after(outcomes) matches BootAction::Run(BootStep::ClearResult(v)) ==> {
            &&& outcomes.len() == 8
            &&& boot_after(outcomes.take(7)) == BootAction::Run(BootStep::ReadResult)
            &&& outcomes[7] == Ok::<u8, StatusCode>(v)
        },
    decreases outcomes.len(),
{
    if outcomes.len() > 0 {
        let prev = outcomes.drop_last();
        lemma_kernel_needs_win(prev);
        lemma_boot_position(prev);
        if prev.len() >= 7 {
            assert(prev.take(7) =~= outcomes.take(7));
        }
        if prev.len() == 7 {
            assert(prev.take(7) =~= prev);
        }
    }
}

/// The game's result decides the boot: the byte a won match leaves makes the
/// bootloader go on to Linux, and the byte a lost match leaves makes it stop
/// with success and report the loss.
pub proof fn lemma_game_result_decides_boot(state: GameState, cleared: u8)
    requires
        result_byte(state) is Some,
    ensures
        ({
            let byte = result_byte(state)->0;
            &&& boot_next_spec(BootStep::ReadResult, Ok(byte)) == BootAction::Run(BootStep::ClearResult(byte))
            &&& state == GameState::Won ==> boot_next_spec(BootStep::ClearResult(byte), Ok(cleared))
                == BootAction::Run(BootStep::BuildKernelPath)
            &&& state == GameState::Lost ==> boot_next_spec(BootStep::ClearResult(byte), Ok(cleared))
                == BootAction::Exit(StatusCode::success(), BootNote::GameLost)
        }),
{
}

/// A failed firmware call, at any step, ends the boot with that very
/// status: the bootloader hands the failure back to the firmware, never
/// success in its place.
pub proof fn lemma_failure_returns_its_status(step: BootStep, status: StatusCode)
    ensures
        boot_next_spec(step, Err(status)) matches BootAction::Exit(returned, _) && returned == status,
{
}

} // verus!
