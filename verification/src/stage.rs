//! The stage the transcription pipeline is in.
use vstd::prelude::*;

use crate::text::same_text;

verus! {

/// The binding that records and transcribes.
pub const TRANSCRIBE: &'static str = "transcribe";

/// The binding that records, transcribes and post-processes the transcript.
pub const TRANSCRIBE_WITH_POST_PROCESS: &'static str = "transcribe_with_post_process";

/// Whether `id` names one of the two transcribe bindings.
pub fn is_transcribe_binding(id: &str) -> (res: bool)
    ensures
        res == (id@ == "transcribe"@ || id@ == "transcribe_with_post_process"@),
{
    same_text(id, TRANSCRIBE) || same_text(id, TRANSCRIBE_WITH_POST_PROCESS)
}

/// Pipeline lifecycle, owned exclusively by the coordinator thread.
#[derive(Debug, PartialEq, Eq)]
pub enum Stage {
    Idle,
    Recording {
        binding_id: String,
        /// Hands-free: the shortcut is no longer holding the recording open,
        /// so releases are ignored and the next press stops it.
        latched: bool,
        /// Post-process the transcript when this recording ends. Set when the
        /// post-process binding started the recording, or when it fired while
        /// another binding was already recording: its combo may share its
        /// leading keys with the transcribe binding, which then always wins
        /// the initial press (e.g. `option` vs `option+shift+space`).
        post_process: bool,
    },
    Processing,
}

/// A stage, in the abstract.
pub ghost enum StageSpec {
    Idle,
    Recording { binding_id: Seq<char>, latched: bool, post_process: bool },
    Processing,
}

impl View for Stage {
    type V = StageSpec;

    open spec fn view(&self) -> StageSpec {
        match self {
            Stage::Idle => StageSpec::Idle,
            Stage::Recording { binding_id, latched, post_process } => StageSpec::Recording {
                binding_id: binding_id@,
                latched: *latched,
                post_process: *post_process,
            },
            Stage::Processing => StageSpec::Processing,
        }
    }
}

impl StageSpec {
    /// The binding that is recording and whether it is latched.
    pub open spec fn recording(self) -> Option<(Seq<char>, bool)> {
        match self {
            StageSpec::Recording { binding_id, latched, .. } => Some((binding_id, latched)),
            _ => None,
        }
    }

    /// The event ends the recording: a latched one waits for the next press, an
    /// ordinary hold ends when the key it started with comes back up.
    pub open spec fn stopped_by(self, binding_id: Seq<char>, is_pressed: bool) -> bool {
        self.recording() == Some((binding_id, is_pressed))
    }

    /// Another binding is recording.
    pub open spec fn switched_by(self, incoming: Seq<char>) -> bool {
        self matches StageSpec::Recording { binding_id, .. } && binding_id != incoming
    }

    /// The stage after a press of `incoming`, where it retargets the recording
    /// of another binding to its own mode.
    pub open spec fn switched(self, incoming: Seq<char>) -> StageSpec {
        match self {
            StageSpec::Recording { binding_id, latched, .. } if binding_id != incoming =>
                StageSpec::Recording {
                    binding_id,
                    latched,
                    post_process: incoming == "transcribe_with_post_process"@,
                },
            _ => self,
        }
    }

    /// A hold that can still be latched.
    pub open spec fn can_latch(self) -> bool {
        self matches StageSpec::Recording { latched: false, .. }
    }

    /// The stage after the hold, if there is one, went hands-free.
    pub open spec fn latched(self) -> StageSpec {
        match self {
            StageSpec::Recording { binding_id, post_process, .. } => StageSpec::Recording {
                binding_id,
                latched: true,
                post_process,
            },
            _ => self,
        }
    }

    /// The action that a stop through `binding_id` runs: the one that
    /// post-processes, where the recording asks for that, and the plain one, where
    /// a recording that began with post-processing was retargeted.
    pub open spec fn stop_action(self, binding_id: Seq<char>) -> Seq<char> {
        match self {
            StageSpec::Recording { post_process: true, .. } => "transcribe_with_post_process"@,
            StageSpec::Recording { .. } if binding_id == "transcribe_with_post_process"@ =>
                "transcribe"@,
            _ => binding_id,
        }
    }

    /// The stage that a recording begun through `binding_id` starts in.
    pub open spec fn begun(binding_id: Seq<char>) -> StageSpec {
        StageSpec::Recording {
            binding_id,
            latched: false,
            post_process: binding_id == "transcribe_with_post_process"@,
        }
    }
}

impl Stage {
    /// The binding that is recording and whether it is latched.
    pub fn recording(&self) -> (res: Option<(&str, bool)>)
        ensures
            res is Some <==> self@.recording() is Some,
            res matches Some((id, latched)) ==> self@.recording() == Some((id@, latched)),
    {
        match self {
            Stage::Recording { binding_id, latched, .. } => Some((binding_id.as_str(), *latched)),
            _ => None,
        }
    }

    /// The stage that a recording begun through `binding_id` starts in.
    pub fn begun(binding_id: &str) -> (stage: Stage)
        ensures
            stage@ == StageSpec::begun(binding_id@),
    {
        Stage::Recording {
            binding_id: binding_id.to_owned(),
            latched: false,
            post_process: same_text(binding_id, TRANSCRIBE_WITH_POST_PROCESS),
        }
    }

    /// The action that a stop through `binding_id` runs. The action decides
    /// whether the transcript is post-processed.
    pub fn stop_action<'a>(&self, binding_id: &'a str) -> (action_id: &'a str)
        ensures
            action_id@ == self@.stop_action(binding_id@),
    {
        match self {
            Stage::Recording { post_process, .. } => {
                if *post_process {
                    TRANSCRIBE_WITH_POST_PROCESS
                } else if same_text(binding_id, TRANSCRIBE_WITH_POST_PROCESS) {
                    TRANSCRIBE
                } else {
                    binding_id
                }
            },
            _ => binding_id,
        }
    }

    /// Switches the in-flight hold to hands-free: the shortcut stops holding the
    /// recording open and the next press ends it.
    ///
    /// Returns whether anything latched: `false` when there was no unlatched
    /// recording, so callers know the deferred stop still has to fire.
    pub fn latch(&mut self) -> (latched: bool)
        ensures
            latched == old(self)@.can_latch(),
            final(self)@ == old(self)@.latched(),
    {
        match self {
            Stage::Recording { latched, .. } => {
                if *latched {
                    return false;
                }
                *latched = true;
                true
            },
            _ => false,
        }
    }
}

/// Whether this event ends the recording: a latched one waits for the next
/// press, an ordinary hold ends when the key it started with comes back up.
pub fn stops_recording(stage: &Stage, binding_id: &str, is_pressed: bool) -> (res: bool)
    ensures
        res == stage@.stopped_by(binding_id@, is_pressed),
{
    match stage {
        Stage::Recording { binding_id: id, latched, .. } => same_text(id.as_str(), binding_id)
            && *latched == is_pressed,
        _ => false,
    }
}

/// A press of one transcribe binding while the other holds the recording open.
/// The two combos may share their leading keys (`option` for push-to-talk and
/// `option+shift+space` for post-processing), so the shorter one always wins
/// the initial press and the longer one can only ever fire mid-recording.
/// Retargets the in-flight recording to the incoming binding's mode instead of
/// ignoring the press. Returns whether the press was consumed.
pub fn switch_transcribe_mode(stage: &mut Stage, incoming: &str) -> (consumed: bool)
    ensures
        consumed == old(stage)@.switched_by(incoming@),
        final(stage)@ == old(stage)@.switched(incoming@),
{
    match stage {
        Stage::Recording { binding_id, post_process, .. } => {
            if same_text(binding_id.as_str(), incoming) {
                return false;
            }
            *post_process = same_text(incoming, TRANSCRIBE_WITH_POST_PROCESS);
            true
        },
        _ => false,
    }
}

/// Retargeting a recording leaves its owner and its latch alone, so the same
/// events end it as before.
pub proof fn switching_keeps_the_owner(
    stage: StageSpec,
    incoming: Seq<char>,
    binding_id: Seq<char>,
    is_pressed: bool,
)
    ensures
        stage.switched(incoming).recording() == stage.recording(),
        stage.switched(incoming).stopped_by(binding_id, is_pressed) == stage.stopped_by(
            binding_id,
            is_pressed,
        ),
{
}

/// The last binding to retarget a recording decides its mode; a press of the
/// binding that owns the recording retargets nothing.
pub proof fn last_switch_decides_the_mode(stage: StageSpec, first: Seq<char>, second: Seq<char>)
    ensures
        stage.switched_by(second) ==> stage.switched(first).switched(second) == stage.switched(
            second,
        ),
        !stage.switched_by(second) ==> stage.switched(second) == stage,
{
}

/// A recording of either transcribe binding stops in the mode it was last put in,
/// whichever of the two began it.
pub proof fn a_recording_stops_in_its_mode(
    owner: Seq<char>,
    latched: bool,
    post_process: bool,
    incoming: Seq<char>,
)
    requires
        owner == "transcribe"@ || owner == "transcribe_with_post_process"@,
        incoming == "transcribe"@ || incoming == "transcribe_with_post_process"@,
    ensures
        ({
            let stage = StageSpec::Recording { binding_id: owner, latched, post_process };
            &&& stage.stop_action(owner) == (if post_process {
                "transcribe_with_post_process"@
            } else {
                "transcribe"@
            })
            &&& incoming != owner ==> stage.switched(incoming).stop_action(owner) == incoming
            &&& StageSpec::begun(owner).stop_action(owner) == owner
        }),
{
    reveal_strlit("transcribe");
    reveal_strlit("transcribe_with_post_process");
    assert("transcribe"@.len() != "transcribe_with_post_process"@.len());
}

/// Exactly one of press and release ends a recording, and only for its owner.
pub proof fn one_kind_of_event_ends_a_recording(stage: StageSpec, binding_id: Seq<char>)
    ensures
        !(stage.stopped_by(binding_id, true) && stage.stopped_by(binding_id, false)),
        (stage.stopped_by(binding_id, true) || stage.stopped_by(binding_id, false)) <==> (stage
            matches StageSpec::Recording { binding_id: owner, .. } && owner == binding_id),
{
}

/// A recording shows its owner and its latch, and nothing else does.
pub proof fn only_a_recording_has_an_owner(stage: StageSpec)
    ensures
        match stage {
            StageSpec::Recording { binding_id, latched, .. } => stage.recording() matches Some((
                owner,
                latch,
            )) && owner == binding_id && latch == latched,
            _ => stage.recording() is None,
        },
        stage.can_latch() <==> (stage matches StageSpec::Recording { latched, .. } && !latched),
{
}

/// A latched recording ends by a press of its owner and an unlatched one by its
/// release; nothing else ends anything.
pub proof fn the_owner_ends_its_recording(
    stage: StageSpec,
    binding_id: Seq<char>,
    is_pressed: bool,
)
    ensures
        stage.stopped_by(binding_id, is_pressed) <==> (stage matches StageSpec::Recording {
            binding_id: owner,
            latched,
            ..
        } && owner == binding_id && (latched <==> is_pressed)),
{
}

/// A press of another binding than the owner is consumed and sets the mode to its
/// own; a press of the owner, or without a recording, is not and changes nothing.
pub proof fn another_binding_sets_the_mode(stage: StageSpec, incoming: Seq<char>)
    ensures
        match stage {
            StageSpec::Recording { binding_id, latched, post_process } => {
                &&& stage.switched_by(incoming) <==> incoming != binding_id
                &&& stage.switched(incoming) == (StageSpec::Recording {
                    binding_id,
                    latched,
                    post_process: if incoming == binding_id {
                        post_process
                    } else {
                        incoming == "transcribe_with_post_process"@
                    },
                })
            },
            _ => !stage.switched_by(incoming) && stage.switched(incoming) == stage,
        },
{
}

/// Latching sets the latch of a recording and touches nothing else.
pub proof fn latching_sets_the_latch_only(stage: StageSpec)
    ensures
        match stage {
            StageSpec::Recording { binding_id, post_process, .. } => stage.latched() == (
            StageSpec::Recording { binding_id, latched: true, post_process }),
            _ => stage.latched() == stage,
        },
{
}

/// A recording begins unlatched, with its own binding as owner, and is
/// post-processed exactly if the post-processing binding began it.
pub proof fn a_recording_begins_in_the_mode_of_its_binding(binding_id: Seq<char>)
    ensures
        StageSpec::begun(binding_id) matches StageSpec::Recording {
            binding_id: owner,
            latched,
            post_process,
        } && owner == binding_id && !latched && (post_process <==> binding_id
            == "transcribe_with_post_process"@),
{
}

/// A stop runs the post-processing action where the recording asks for it, never
/// where it does not, and otherwise the action of the binding itself.
pub proof fn the_mode_decides_the_stop(stage: StageSpec, binding_id: Seq<char>)
    ensures
        match stage {
            StageSpec::Recording { post_process, .. } => {
                &&& post_process ==> stage.stop_action(binding_id)
                    == "transcribe_with_post_process"@
                &&& !post_process && binding_id == "transcribe_with_post_process"@
                    ==> stage.stop_action(binding_id) == "transcribe"@
                &&& !post_process && binding_id != "transcribe_with_post_process"@
                    ==> stage.stop_action(binding_id) == binding_id
            },
            _ => stage.stop_action(binding_id) == binding_id,
        },
{
}

/// A stage means what its fields say.
pub proof fn a_stage_means_its_fields(stage: Stage)
    ensures
        match stage {
            Stage::Idle => stage@ is Idle,
            Stage::Recording { binding_id, latched, post_process } => stage@ matches
                StageSpec::Recording { binding_id: b, latched: l, post_process: p } && b
                == binding_id@ && l == latched && p == post_process,
            Stage::Processing => stage@ is Processing,
        },
{
}

} // verus!
