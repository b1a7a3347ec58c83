//! The order of a run: decode, generate for each requested platform,
//! relocate, done; and failure from any step.
//!
//! The machine decides and does nothing itself. It answers every event with
//! the next state and the action to perform; the caller performs the action
//! and reports how it ended.

use crate::errors::IconError;
use crate::icon::Platform;
use crate::text::same_text;
use vstd::prelude::*;

verus! {

/// Where a run stands.
#[derive(Clone, Copy, Debug, PartialEq, Eq, Structural)]
pub enum PipelineState {
    Idle,
    Decoding,
    /// Generating for the platform with this index among the requested ones.
    GeneratingPlatform(usize),
    Migrating,
    Done,
    Failed,
}

/// What has happened since the last action was handed out.
#[derive(Debug)]
pub enum PipelineEvent {
    /// The caller asks for the run to begin.
    Start,
    /// The last action was carried out.
    Succeeded,
    /// The last action failed.
    Failed(IconError),
}

/// What the caller is to do next.
#[derive(Debug)]
pub enum PipelineAction {
    /// Read and decode the source image.
    Decode,
    /// Generate the files of the platform with this index.
    Generate(usize),
    /// Relocate the files of the mobile platforms.
    Migrate,
    /// Report success.
    Finish,
    /// Report the failure; what was written before stays.
    Abort(IconError),
    /// Nothing: the run is over, or the event does not belong to the state.
    Nothing,
}

/// A run in this state accepts no further event.
pub open spec fn is_terminal(state: PipelineState) -> bool {
    state is Done || state is Failed
}

/// The state that follows the generation of platform `done` of `platforms`.
pub open spec fn after_platform(done: int, platforms: int) -> (PipelineState, PipelineAction) {
    if done < platforms {
        (PipelineState::GeneratingPlatform(done as usize), PipelineAction::Generate(done as usize))
    } else {
        (PipelineState::Migrating, PipelineAction::Migrate)
    }
}

/// The transition function.
pub open spec fn next(state: PipelineState, platforms: usize, event: PipelineEvent) -> (
    PipelineState,
    PipelineAction,
) {
    if is_terminal(state) {
        (state, PipelineAction::Nothing)
    } else {
        match (state, event) {
            (PipelineState::Idle, PipelineEvent::Start) => (
                PipelineState::Decoding,
                PipelineAction::Decode,
            ),
            (_, PipelineEvent::Failed(e)) => (PipelineState::Failed, PipelineAction::Abort(e)),
            (PipelineState::Idle, _) => (state, PipelineAction::Nothing),
            (_, PipelineEvent::Start) => (state, PipelineAction::Nothing),
            (PipelineState::Decoding, PipelineEvent::Succeeded) => after_platform(
                0,
                platforms as int,
            ),
            (PipelineState::GeneratingPlatform(i), PipelineEvent::Succeeded) => {
                if i < platforms {
                    after_platform(i + 1, platforms as int)
                } else {
                    (PipelineState::Migrating, PipelineAction::Migrate)
                }
            },
            (_, PipelineEvent::Succeeded) => (PipelineState::Done, PipelineAction::Finish),
        }
    }
}

/// The state reached from `state` when every one of `steps` actions succeeds.
pub open spec fn after_successes(state: PipelineState, platforms: usize, steps: nat)
    -> PipelineState
    decreases steps,
{
    if steps == 0 {
        state
    } else {
        next(
            after_successes(state, platforms, (steps - 1) as nat),
            platforms,
            PipelineEvent::Succeeded,
        ).0
    }
}

/// A finished or failed run stays as it is and asks for nothing more.
pub proof fn lemma_terminal_absorbs(state: PipelineState, platforms: usize, event: PipelineEvent)
    requires
        is_terminal(state),
    ensures
        next(state, platforms, event) == (state, PipelineAction::Nothing),
{
}

/// A failure in any state that is not terminal ends the run at once and
/// hands the error to the caller.
pub proof fn lemma_failure_aborts(state: PipelineState, platforms: usize, error: IconError)
    requires
        !is_terminal(state),
    ensures
        next(state, platforms, PipelineEvent::Failed(error)) == (
            PipelineState::Failed,
            PipelineAction::Abort(error),
        ),
{
}

/// After decoding and `k` successful generations the run is generating
/// platform `k`: every requested platform gets its turn exactly once and in
/// the order of the request.
pub proof fn lemma_platforms_in_order(platforms: usize, k: nat)
    requires
        k < platforms,
    ensures
        after_successes(PipelineState::Decoding, platforms, k + 1)
            == PipelineState::GeneratingPlatform(k as usize),
    decreases k,
{
    if k > 0 {
        lemma_platforms_in_order(platforms, (k - 1) as nat);
    } else {
        assert(after_successes(PipelineState::Decoding, platforms, 0) == PipelineState::Decoding);
    }
}

/// When nothing fails, a run is done after decoding, one generation for each
/// requested platform, and the relocation.
pub proof fn lemma_run_completes(platforms: usize)
    ensures
        next(PipelineState::Idle, platforms, PipelineEvent::Start).0 == PipelineState::Decoding,
        after_successes(PipelineState::Decoding, platforms, platforms as nat + 1)
            == PipelineState::Migrating,
        after_successes(PipelineState::Decoding, platforms, platforms as nat + 2)
            == PipelineState::Done,
{
    if platforms > 0 {
        lemma_platforms_in_order(platforms, (platforms - 1) as nat);
    } else {
        assert(after_successes(PipelineState::Decoding, platforms, 0) == PipelineState::Decoding);
    }
    let migrating = after_successes(PipelineState::Decoding, platforms, platforms as nat + 1);
    assert(migrating == PipelineState::Migrating);
    assert(after_successes(PipelineState::Decoding, platforms, platforms as nat + 2) == next(
        migrating,
        platforms,
        PipelineEvent::Succeeded,
    ).0);
}

/// Answers an event: the next state and what to do.
pub fn step(state: PipelineState, platforms: usize, event: PipelineEvent) -> (r: (
    PipelineState,
    PipelineAction,
))
    ensures
        r == next(state, platforms, event),
{
    match state {
        PipelineState::Done => (state, PipelineAction::Nothing),
        PipelineState::Failed => (state, PipelineAction::Nothing),
        PipelineState::Idle => match event {
            PipelineEvent::Start => (PipelineState::Decoding, PipelineAction::Decode),
            PipelineEvent::Failed(e) => (PipelineState::Failed, PipelineAction::Abort(e)),
            PipelineEvent::Succeeded => (state, PipelineAction::Nothing),
        },
        PipelineState::Decoding => match event {
            PipelineEvent::Start => (state, PipelineAction::Nothing),
            PipelineEvent::Failed(e) => (PipelineState::Failed, PipelineAction::Abort(e)),
            PipelineEvent::Succeeded => {
                if platforms > 0 {
                    (PipelineState::GeneratingPlatform(0), PipelineAction::Generate(0))
                } else {
                    (PipelineState::Migrating, PipelineAction::Migrate)
                }
            },
        },
        PipelineState::GeneratingPlatform(i) => match event {
            PipelineEvent::Start => (state, PipelineAction::Nothing),
            PipelineEvent::Failed(e) => (PipelineState::Failed, PipelineAction::Abort(e)),
            PipelineEvent::Succeeded => {
                if i < platforms && i + 1 < platforms {
                    (PipelineState::GeneratingPlatform(i + 1), PipelineAction::Generate(i + 1))
                } else {
                    (PipelineState::Migrating, PipelineAction::Migrate)
                }
            },
        },
        PipelineState::Migrating => match event {
            PipelineEvent::Start => (state, PipelineAction::Nothing),
            PipelineEvent::Failed(e) => (PipelineState::Failed, PipelineAction::Abort(e)),
            PipelineEvent::Succeeded => (PipelineState::Done, PipelineAction::Finish),
        },
    }
}

/// Whether `wanted` is among the names.
pub open spec fn names_hold(names: Seq<String>, wanted: Seq<char>) -> bool {
    exists|i: int| 0 <= i < names.len() && (#[trigger] names[i])@ == wanted
}

/// The platforms that a request names, each once: `desktop` stands for the
/// macOS and the Windows container, `ios` and `android` for themselves;
/// other names ask for nothing.
pub open spec fn requested(names: Seq<String>) -> Seq<Platform> {
    (if names_hold(names, "desktop"@) {
        seq![Platform::MacOs, Platform::Windows]
    } else {
        Seq::<Platform>::empty()
    }) + (if names_hold(names, "ios"@) {
        seq![Platform::Ios]
    } else {
        Seq::<Platform>::empty()
    }) + (if names_hold(names, "android"@) {
        seq![Platform::Android]
    } else {
        Seq::<Platform>::empty()
    })
}

/// No platform is requested twice, however often the request names it.
pub proof fn lemma_requested_once(names: Seq<String>, i: int, j: int)
    requires
        0 <= i < j < requested(names).len(),
    ensures
        requested(names)[i] != requested(names)[j],
{
}

/// Whether the files of a platform are relocated after they are generated.
pub open spec fn needs_relocation(platform: Platform) -> bool {
    platform == Platform::Ios || platform == Platform::Android
}

/// `names_hold`, computed.
pub fn holds_name(names: &Vec<String>, wanted: &str) -> (yes: bool)
    ensures
        yes == names_hold(names@, wanted@),
{
    let mut i: usize = 0;
    while i < names.len()
        invariant
            i <= names@.len(),
            forall|j: int| 0 <= j < i ==> (#[trigger] names@[j])@ != wanted@,
        decreases names@.len() - i,
    {
        if same_text(names[i].as_str(), wanted) {
            return true;
        }
        i = i + 1;
    }
    false
}

/// `requested`, computed.
pub fn requested_platforms(names: &Vec<String>) -> (platforms: Vec<Platform>)
    ensures
        platforms@ == requested(names@),
{
    let mut platforms: Vec<Platform> = Vec::new();
    if holds_name(names, "desktop") {
        platforms.push(Platform::MacOs);
        platforms.push(Platform::Windows);
    }
    if holds_name(names, "ios") {
        platforms.push(Platform::Ios);
    }
    if holds_name(names, "android") {
        platforms.push(Platform::Android);
    }
    proof {
        assert(platforms@ =~= requested(names@));
    }
    platforms
}

/// `needs_relocation`, computed.
pub fn relocates(platform: Platform) -> (yes: bool)
    ensures
        yes == needs_relocation(platform),
{
    match platform {
        Platform::Ios => true,
        Platform::Android => true,
        _ => false,
    }
}

} // verus!
