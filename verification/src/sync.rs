//! One cycle of the synchronization loop: drain-and-coalesce the inbound
//! notifications, consult the policy engine, and say what command (if any)
//! must go out and how the loop's state changes.
//!
//! The loop itself — sleeping, reading the channel, querying the window
//! manager, writing the socket — runs outside the library and feeds each
//! cycle's observations in as plain values.

use vstd::prelude::*;

use crate::policy::decide;
use crate::policy::spec_decide;
use crate::wire::ClientMessage;

verus! {

/// How long the loop sleeps between cycles while something can change.
pub const ACTIVE_INTERVAL_MS: u64 = 100;

/// How long the loop sleeps between cycles while idle (no focus, or the
/// current layer is protected), so that an idle desktop does not keep a core
/// busy.
pub const IDLE_INTERVAL_MS: u64 = 1500;

/// The synchronization loop's whole state: the layer this process believes
/// the remapper holds, and whether the loop is in idle backoff.
pub struct SyncState {
    /// The last layer the remapper is believed to hold. It may lag the truth
    /// for at most one round trip, between an outbound command and the
    /// remapper's echoed notification.
    pub current_layer: String,
    /// Whether the last cycle found nothing to act on: sleep longer before
    /// the next one.
    pub idle: bool,
}

/// The one significant notification among those drained in one cycle: the
/// most recent, staler ones coalesced away; with none drained, the current
/// layer stands.
pub open spec fn spec_coalesce(drained: Seq<Seq<char>>, current: Seq<char>) -> Seq<char> {
    if drained.len() > 0 {
        drained.last()
    } else {
        current
    }
}

/// One cycle, as a function of the state and the cycle's observations: the
/// new current layer, the new idle flag, and the layer to command the
/// remapper to, if any. A command goes out only when the decided layer
/// differs from the current one — never a redundant write — and the current
/// layer is updated optimistically with it.
pub open spec fn spec_sync_step(
    current: Seq<char>,
    drained: Seq<Seq<char>>,
    focused: Option<Seq<char>>,
    allow: Option<Seq<Seq<char>>>,
    apps: Seq<Seq<char>>,
) -> (Seq<char>, bool, Option<Seq<char>>) {
    let noted = spec_coalesce(drained, current);
    match spec_decide(noted, focused, allow, apps) {
        None => (noted, true, None),
        Some(target) => if target == noted {
            (noted, false, None)
        } else {
            (target, false, Some(target))
        },
    }
}

/// The layer a command (when there is one) tells the remapper to change to.
pub open spec fn command_layer(command: Option<ClientMessage>) -> Option<Seq<char>> {
    match command {
        Some(m) => Some(m->ChangeLayer_new@),
        None => None,
    }
}

impl SyncState {
    /// The state at startup: the remapper is assumed to hold the default
    /// layer, and the loop starts active.
    pub fn new() -> (s: SyncState)
        ensures
            s.current_layer@ == crate::policy::default_layer(),
            !s.idle,
    {
        SyncState { current_layer: String::from_str("main"), idle: false }
    }
}

/// Runs one cycle of the synchronization loop on `state`, given what this
/// cycle observed: the notifications drained from the channel (in arrival
/// order), the focused application, the allow-list, and the set of
/// per-application layers. Returns the command to send to the remapper, if
/// one is owed.
pub fn sync_step(
    state: &mut SyncState,
    drained: Vec<String>,
    focused_app: Option<String>,
    allow_list: Option<Vec<String>>,
    app_layers: Vec<String>,
) -> (command: Option<ClientMessage>)
    ensures
        ({
            let r = spec_sync_step(
                old(state).current_layer@,
                drained.deep_view(),
                focused_app.deep_view(),
                allow_list.deep_view(),
                app_layers.deep_view(),
            );
            &&& final(state).current_layer@ == r.0
            &&& final(state).idle == r.1
            &&& command_layer(command) == r.2
        }),
{
    if drained.len() > 0 {
        let last = drained.len() - 1;
        proof {
            assert(drained.deep_view().last() == drained@[last as int]@);
        }
        state.current_layer = drained[last].clone();
    }
    let decided = decide(&state.current_layer, &focused_app, &allow_list, &app_layers);
    match decided {
        None => {
            state.idle = true;
            None
        },
        Some(target) => {
            state.idle = false;
            if target.eq(&state.current_layer) {
                None
            } else {
                state.current_layer = target.clone();
                Some(ClientMessage::ChangeLayer { new: target })
            }
        },
    }
}

/// How long the loop should sleep before its next cycle.
pub fn backoff_interval(idle: bool) -> (ms: u64)
    ensures
        ms == spec_backoff_interval(idle),
{
    if idle {
        IDLE_INTERVAL_MS
    } else {
        ACTIVE_INTERVAL_MS
    }
}

/// The sleep interval each mode calls for: the idle backoff is the longer
/// one.
pub open spec fn spec_backoff_interval(idle: bool) -> u64 {
    if idle {
        IDLE_INTERVAL_MS
    } else {
        ACTIVE_INTERVAL_MS
    }
}

/// Law: a round trip counts once. When a cycle issues a command for a layer,
/// the command's self-echo and the remapper's echoed notification are both
/// queued; the next cycle that drains them (under the same observations)
/// leaves the current layer at that layer and issues no further command — the
/// transition is not made twice.
pub proof fn lemma_round_trip(
    current: Seq<char>,
    focused: Option<Seq<char>>,
    allow: Option<Seq<Seq<char>>>,
    apps: Seq<Seq<char>>,
    sent: Seq<char>,
)
    requires
        spec_sync_step(current, Seq::empty(), focused, allow, apps).2 == Some(sent),
    ensures
        ({
            let r = spec_sync_step(sent, seq![sent, sent], focused, allow, apps);
            &&& r.0 == sent
            &&& r.2 is None
        }),
{
    assert(seq![sent, sent].last() == sent);
}

} // verus!
