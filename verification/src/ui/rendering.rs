//! The compositing state machine that runs inside the intercepted presentation call.
//!
//! The machine decides; the caller performs. Each intercepted call starts with a
//! `Begin` event. The machine answers every event with the next thing to do, the
//! caller does it and reports the outcome as the next event, until the machine
//! hands back the original routine's result with `Return`.

use vstd::prelude::*;
use super::mmf::MMFData;

verus! {

/// What is known of the GPU resources that can be reused over many frames.
/// A width and height of zero mean that no size-dependent resource exists.
#[derive(Clone, Copy, Debug, PartialEq, Eq, Structural)]
pub struct OverlayState {
    /// Width the size-dependent resources were built for.
    pub width: u32,
    /// Height the size-dependent resources were built for.
    pub height: u32,
    /// Handle of the first shared texture that is open, or zero.
    pub addr1: u64,
    /// Handle of the second shared texture that is open, or zero.
    pub addr2: u64,
    /// Width of the back buffer that the render target was made for.
    pub target_width: u32,
    /// Height of the back buffer that the render target was made for.
    pub target_height: u32,
}

/// The size of the swap chain's back buffer.
#[derive(Clone, Copy, Debug, PartialEq, Eq, Structural)]
pub struct BackBuffer {
    pub width: u32,
    pub height: u32,
}

impl OverlayState {
    /// The state right after the device-dependent resources were built, and
    /// after a shutdown: no size-dependent resource exists.
    pub open spec fn blank() -> OverlayState {
        OverlayState {
            width: 0,
            height: 0,
            addr1: 0,
            addr2: 0,
            target_width: 0,
            target_height: 0,
        }
    }

    /// The state after the size-dependent resources were built for a frame and
    /// a back buffer.
    pub open spec fn built_for(frame: MMFData, target: BackBuffer) -> OverlayState {
        OverlayState {
            width: frame.width,
            height: frame.height,
            addr1: frame.addr1,
            addr2: frame.addr2,
            target_width: target.width,
            target_height: target.height,
        }
    }

    /// Whether the size-dependent resources fit a published frame and the back
    /// buffer as it is now.
    pub open spec fn fits(&self, frame: MMFData, target: BackBuffer) -> bool {
        &&& self.width == frame.width
        &&& self.height == frame.height
        &&& self.addr1 == frame.addr1
        &&& self.addr2 == frame.addr2
        &&& self.target_width == target.width
        &&& self.target_height == target.height
    }

    /// The state without any size-dependent resource.
    pub fn new() -> (state: OverlayState)
        ensures
            state == OverlayState::blank(),
    {
        OverlayState {
            width: 0,
            height: 0,
            addr1: 0,
            addr2: 0,
            target_width: 0,
            target_height: 0,
        }
    }

    /// Records that the render target, the viewport and the shared textures were
    /// rebuilt for this frame and this back buffer.
    pub fn resize(&mut self, frame: &MMFData, target: BackBuffer)
        ensures
            *final(self) == OverlayState::built_for(*frame, target),
    {
        self.width = frame.width;
        self.height = frame.height;
        self.addr1 = frame.addr1;
        self.addr2 = frame.addr2;
        self.target_width = target.width;
        self.target_height = target.height;
    }

    /// Records that every size-dependent resource was let go.
    pub fn shutdown(&mut self)
        ensures
            *final(self) == OverlayState::blank(),
    {
        self.width = 0;
        self.height = 0;
        self.addr1 = 0;
        self.addr2 = 0;
        self.target_width = 0;
        self.target_height = 0;
    }

    /// Tells whether the size-dependent resources fit a frame and a back buffer.
    pub fn matches(&self, frame: &MMFData, target: BackBuffer) -> (fits: bool)
        ensures
            fits == self.fits(*frame, target),
    {
        self.width == frame.width && self.height == frame.height && self.addr1 == frame.addr1
            && self.addr2 == frame.addr2 && self.target_width == target.width
            && self.target_height == target.height
    }
}

/// Where the machine stands within one intercepted call.
#[derive(Clone, Copy, Debug, PartialEq, Eq, Structural)]
pub enum PresentPhase {
    /// Between two intercepted calls.
    Idle,
    /// Waiting to hear whether the device was removed.
    AwaitStatus,
    /// Waiting for the device-dependent resources to be rebuilt.
    AwaitRebuild,
    /// Waiting for the size-dependent resources to be rebuilt.
    AwaitResize,
    /// Waiting for the original routine to return.
    AwaitOriginal,
}

/// What the caller reports to the machine.
#[derive(Clone, Copy, Debug, PartialEq, Eq, Structural)]
pub enum PresentEvent {
    /// The host called the intercepted routine. `frame` is what the transport
    /// published last, `target` the size of the swap chain's back buffer.
    Begin { rendering_enabled: bool, frame: MMFData, target: BackBuffer },
    /// Answer to `QueryDevice`.
    DeviceStatus { removed: bool },
    /// Answer to `Rebuild`.
    Rebuilt { ok: bool },
    /// Answer to `Resize`.
    Resized { target_ok: bool, textures_ok: bool },
    /// Answer to `Forward`: what the original routine returned.
    Returned { result: i32 },
}

/// What the machine asks the caller to do.
#[derive(Clone, Copy, Debug, PartialEq, Eq, Structural)]
pub enum PresentAction {
    /// Ask the device whether it was removed or reset.
    QueryDevice,
    /// Build shaders, sampler and blend state from scratch.
    Rebuild,
    /// Rebuild the size-dependent resources for a frame of `width` by `height`
    /// pixels: set the viewport to `width` by `height`, open the two shared
    /// textures, which have that size, with their views, and make the render
    /// target anew from the back buffer as it is now.
    Resize { width: u32, height: u32, addr1: u64, addr2: u64 },
    /// Call the original routine with the host's own arguments. Before that, draw
    /// the overlay from the buffer `draw` names, if it names one; and where
    /// `release` is set, unbind the shader resources and clean up the transport.
    Forward { draw: Option<u32>, release: bool },
    /// Hand this result back to the host.
    Return { result: i32 },
}

/// The compositing engine: the resource state that outlives a call, and the
/// progress of the call that is under way.
#[derive(Clone, Copy, Debug, PartialEq, Eq, Structural)]
pub struct CompositeEngine {
    /// `None` while no device-dependent resource exists.
    pub state: Option<OverlayState>,
    pub phase: PresentPhase,
    /// The frame that the running call began with.
    pub frame: MMFData,
    /// The back buffer that the running call began with.
    pub target: BackBuffer,
}

/// The action that passes the call on without any drawing.
pub open spec fn pass_through() -> PresentAction {
    PresentAction::Forward { draw: None, release: false }
}

impl CompositeEngine {
    /// The engine before the first call.
    pub open spec fn initial() -> CompositeEngine {
        CompositeEngine {
            state: None,
            phase: PresentPhase::Idle,
            frame: MMFData::empty(),
            target: BackBuffer { width: 0, height: 0 },
        }
    }

    /// Whether `event` is the one that the machine waits for.
    pub open spec fn accepts(&self, event: PresentEvent) -> bool {
        match self.phase {
            PresentPhase::Idle => event is Begin,
            PresentPhase::AwaitStatus => event is DeviceStatus,
            PresentPhase::AwaitRebuild => event is Rebuilt,
            PresentPhase::AwaitResize => event is Resized,
            PresentPhase::AwaitOriginal => event is Returned,
        }
    }

    /// With the device-dependent resources in `state` at hand: what to do about
    /// the frame of the running call.
    pub open spec fn settle(&self, state: OverlayState) -> (CompositeEngine, PresentAction) {
        let frame = self.frame;
        if !frame.ready() {
            (
                CompositeEngine { state: Some(state), phase: PresentPhase::AwaitOriginal, ..*self },
                pass_through(),
            )
        } else if !state.fits(frame, self.target) {
            (
                CompositeEngine { state: Some(state), phase: PresentPhase::AwaitResize, ..*self },
                PresentAction::Resize {
                    width: frame.width,
                    height: frame.height,
                    addr1: frame.addr1,
                    addr2: frame.addr2,
                },
            )
        } else {
            (
                CompositeEngine { state: Some(state), phase: PresentPhase::AwaitOriginal, ..*self },
                PresentAction::Forward { draw: Some(frame.index), release: false },
            )
        }
    }

    /// The transition function: the engine after `event`, and the action it asks for.
    /// It is meant for events that the engine accepts; any other leaves it unchanged
    /// and asks for a pass-through.
    pub open spec fn next(&self, event: PresentEvent) -> (CompositeEngine, PresentAction) {
        match (self.phase, event) {
            (PresentPhase::Idle, PresentEvent::Begin { rendering_enabled, frame, target }) => {
                if !rendering_enabled {
                    (
                        CompositeEngine {
                            phase: PresentPhase::AwaitOriginal,
                            frame,
                            target,
                            ..*self
                        },
                        pass_through(),
                    )
                } else if self.state is None {
                    (
                        CompositeEngine {
                            phase: PresentPhase::AwaitRebuild,
                            frame,
                            target,
                            ..*self
                        },
                        PresentAction::Rebuild,
                    )
                } else {
                    (
                        CompositeEngine {
                            phase: PresentPhase::AwaitStatus,
                            frame,
                            target,
                            ..*self
                        },
                        PresentAction::QueryDevice,
                    )
                }
            },
            (PresentPhase::AwaitStatus, PresentEvent::DeviceStatus { removed }) => {
                if removed || self.state is None {
                    (
                        CompositeEngine {
                            state: None,
                            phase: PresentPhase::AwaitRebuild,
                            ..*self
                        },
                        PresentAction::Rebuild,
                    )
                } else {
                    self.settle(self.state->Some_0)
                }
            },
            (PresentPhase::AwaitRebuild, PresentEvent::Rebuilt { ok }) => {
                if ok {
                    self.settle(OverlayState::blank())
                } else {
                    (
                        CompositeEngine {
                            state: None,
                            phase: PresentPhase::AwaitOriginal,
                            ..*self
                        },
                        pass_through(),
                    )
                }
            },
            (PresentPhase::AwaitResize, PresentEvent::Resized { target_ok, textures_ok }) => {
                let frame = self.frame;
                if target_ok && textures_ok && frame.ready() {
                    (
                        CompositeEngine {
                            state: Some(OverlayState::built_for(frame, self.target)),
                            phase: PresentPhase::AwaitOriginal,
                            ..*self
                        },
                        PresentAction::Forward { draw: Some(frame.index), release: false },
                    )
                } else {
                    (
                        CompositeEngine {
                            state: None,
                            phase: PresentPhase::AwaitOriginal,
                            ..*self
                        },
                        PresentAction::Forward { draw: None, release: !textures_ok },
                    )
                }
            },
            (PresentPhase::AwaitOriginal, PresentEvent::Returned { result }) => {
                (
                    CompositeEngine { phase: PresentPhase::Idle, ..*self },
                    PresentAction::Return { result },
                )
            },
            _ => (*self, pass_through()),
        }
    }

    /// The engine before the first call: idle, with no resources.
    pub fn new() -> (engine: CompositeEngine)
        ensures
            engine == CompositeEngine::initial(),
    {
        CompositeEngine {
            state: None,
            phase: PresentPhase::Idle,
            frame: MMFData::new(),
            target: BackBuffer { width: 0, height: 0 },
        }
    }

    /// Tells whether `event` is the one that the machine waits for.
    pub fn expects(&self, event: &PresentEvent) -> (fits: bool)
        ensures
            fits == self.accepts(*event),
    {
        match (self.phase, event) {
            (PresentPhase::Idle, PresentEvent::Begin { .. }) => true,
            (PresentPhase::AwaitStatus, PresentEvent::DeviceStatus { .. }) => true,
            (PresentPhase::AwaitRebuild, PresentEvent::Rebuilt { .. }) => true,
            (PresentPhase::AwaitResize, PresentEvent::Resized { .. }) => true,
            (PresentPhase::AwaitOriginal, PresentEvent::Returned { .. }) => true,
            _ => false,
        }
    }

    /// Decides about the frame of the running call once the device-dependent
    /// resources are known to be usable.
    fn settle_frame(&mut self, state: OverlayState) -> (action: PresentAction)
        ensures
            (*final(self), action) == old(self).settle(state),
    {
        self.state = Some(state);
        if !self.frame.is_ready() {
            self.phase = PresentPhase::AwaitOriginal;
            PresentAction::Forward { draw: None, release: false }
        } else if !state.matches(&self.frame, self.target) {
            self.phase = PresentPhase::AwaitResize;
            PresentAction::Resize {
                width: self.frame.width,
                height: self.frame.height,
                addr1: self.frame.addr1,
                addr2: self.frame.addr2,
            }
        } else {
            self.phase = PresentPhase::AwaitOriginal;
            PresentAction::Forward { draw: Some(self.frame.index), release: false }
        }
    }

    /// Forgets every size-dependent resource, as after the producer's death.
    /// The device-dependent resources, if there are any, stay.
    pub fn shutdown(&mut self)
        ensures
            final(self).phase == old(self).phase,
            final(self).frame == old(self).frame,
            final(self).target == old(self).target,
            final(self).state == (match old(self).state {
                Some(_) => Some(OverlayState::blank()),
                None => None,
            }),
    {
        match self.state {
            Some(_) => {
                self.state = Some(OverlayState::new());
            },
            None => {},
        }
    }
}

/// One step of the intercepted presentation call: takes the event that the
/// machine waits for and returns what to do next.
pub fn detoured_present(engine: &mut CompositeEngine, event: PresentEvent) -> (action:
    PresentAction)
    requires
        old(engine).accepts(event),
    ensures
        (*final(engine), action) == old(engine).next(event),
{
    match event {
        PresentEvent::Begin { rendering_enabled, frame, target } => {
            engine.frame = frame;
            engine.target = target;
            if !rendering_enabled {
                engine.phase = PresentPhase::AwaitOriginal;
                PresentAction::Forward { draw: None, release: false }
            } else if engine.state.is_none() {
                engine.phase = PresentPhase::AwaitRebuild;
                PresentAction::Rebuild
            } else {
                engine.phase = PresentPhase::AwaitStatus;
                PresentAction::QueryDevice
            }
        },
        PresentEvent::DeviceStatus { removed } => {
            match engine.state {
                Some(state) if !removed => engine.settle_frame(state),
                _ => {
                    engine.state = None;
                    engine.phase = PresentPhase::AwaitRebuild;
                    PresentAction::Rebuild
                },
            }
        },
        PresentEvent::Rebuilt { ok } => {
            if ok {
                engine.settle_frame(OverlayState::new())
            } else {
                engine.state = None;
                engine.phase = PresentPhase::AwaitOriginal;
                PresentAction::Forward { draw: None, release: false }
            }
        },
        PresentEvent::Resized { target_ok, textures_ok } => {
            engine.phase = PresentPhase::AwaitOriginal;
            if target_ok && textures_ok && engine.frame.is_ready() {
                let mut state = OverlayState::new();
                state.resize(&engine.frame, engine.target);
                engine.state = Some(state);
                PresentAction::Forward { draw: Some(engine.frame.index), release: false }
            } else {
                engine.state = None;
                PresentAction::Forward { draw: None, release: !textures_ok }
            }
        },
        PresentEvent::Returned { result } => {
            engine.phase = PresentPhase::Idle;
            PresentAction::Return { result }
        },
    }
}

/// The engine and the actions it asked for after a sequence of events, each
/// answered in turn.
pub open spec fn run(engine: CompositeEngine, events: Seq<PresentEvent>) -> (
    CompositeEngine,
    Seq<PresentAction>,
)
    decreases events.len(),
{
    if events.len() == 0 {
        (engine, Seq::empty())
    } else {
        let (before, actions) = run(engine, events.drop_last());
        let (after, action) = before.next(events.last());
        (after, actions.push(action))
    }
}

/// Whether each event of the sequence is the one that the machine waits for
/// when it arrives.
pub open spec fn in_order(engine: CompositeEngine, events: Seq<PresentEvent>) -> bool
    decreases events.len(),
{
    events.len() == 0 || (in_order(engine, events.drop_last()) && run(
        engine,
        events.drop_last(),
    ).0.accepts(events.last()))
}

/// Whether the events are those of one intercepted call, or of the beginning of
/// one: the machine is idle before the first event and not again before the last.
pub open spec fn one_call(engine: CompositeEngine, events: Seq<PresentEvent>) -> bool {
    &&& engine.phase is Idle
    &&& events.len() >= 1
    &&& in_order(engine, events)
    &&& forall|k: int| 0 < k < events.len() ==> !(#[trigger] run(engine, events.take(k)).0.phase is Idle)
}

/// How many of the actions call the original routine.
pub open spec fn forward_count(actions: Seq<PresentAction>) -> nat
    decreases actions.len(),
{
    if actions.len() == 0 {
        0
    } else {
        forward_count(actions.drop_last()) + if actions.last() is Forward {
            1nat
        } else {
            0nat
        }
    }
}

/// How many of the actions rebuild the size-dependent resources.
pub open spec fn resize_count(actions: Seq<PresentAction>) -> nat
    decreases actions.len(),
{
    if actions.len() == 0 {
        0
    } else {
        resize_count(actions.drop_last()) + if actions.last() is Resize {
            1nat
        } else {
            0nat
        }
    }
}

/// Whether none of the actions draws anything.
pub open spec fn draws_nothing(actions: Seq<PresentAction>) -> bool {
    forall|i: int|
        0 <= i < actions.len() ==> (#[trigger] actions[i] matches PresentAction::Forward {
            draw,
            ..
        } ==> draw is None)
}

/// The frame that a `Begin` event carries.
pub open spec fn begin_frame(event: PresentEvent) -> MMFData {
    match event {
        PresentEvent::Begin { frame, .. } => frame,
        _ => MMFData::empty(),
    }
}

/// The back buffer that a `Begin` event carries.
pub open spec fn begin_target(event: PresentEvent) -> BackBuffer {
    match event {
        PresentEvent::Begin { target, .. } => target,
        _ => BackBuffer { width: 0, height: 0 },
    }
}

/// Whether a `Begin` event came with rendering switched on.
pub open spec fn begin_enabled(event: PresentEvent) -> bool {
    match event {
        PresentEvent::Begin { rendering_enabled, .. } => rendering_enabled,
        _ => false,
    }
}

/// The result that a `Returned` event carries.
pub open spec fn returned_result(event: PresentEvent) -> i32 {
    match event {
        PresentEvent::Returned { result } => result,
        _ => 0,
    }
}

spec fn progress(phase: PresentPhase) -> nat {
    match phase {
        PresentPhase::AwaitStatus => 1,
        PresentPhase::AwaitRebuild => 2,
        PresentPhase::AwaitResize => 3,
        PresentPhase::AwaitOriginal => 4,
        PresentPhase::Idle => 5,
    }
}

proof fn lemma_run_push(engine: CompositeEngine, events: Seq<PresentEvent>, event: PresentEvent)
    ensures
        run(engine, events.push(event)) == ({
            let (before, actions) = run(engine, events);
            let (after, action) = before.next(event);
            (after, actions.push(action))
        }),
        run(engine, Seq::empty()) == (engine, Seq::<PresentAction>::empty()),
{
    assert(events.push(event).drop_last() =~= events);
}

proof fn lemma_in_order_push(
    engine: CompositeEngine,
    events: Seq<PresentEvent>,
    event: PresentEvent,
)
    ensures
        in_order(engine, events.push(event)) == (in_order(engine, events) && run(
            engine,
            events,
        ).0.accepts(event)),
        in_order(engine, Seq::empty()),
{
    assert(events.push(event).drop_last() =~= events);
}

proof fn lemma_resize_count_push(actions: Seq<PresentAction>, action: PresentAction)
    ensures
        resize_count(actions.push(action)) == resize_count(actions) + (if action is Resize {
            1nat
        } else {
            0nat
        }),
        resize_count(Seq::empty()) == 0,
{
    assert(actions.push(action).drop_last() =~= actions);
}

proof fn lemma_one_call_prefix(engine: CompositeEngine, events: Seq<PresentEvent>)
    requires
        one_call(engine, events),
        events.len() >= 2,
    ensures
        one_call(engine, events.drop_last()),
        !(run(engine, events.drop_last()).0.phase is Idle),
{
    let shorter = events.drop_last();
    assert(events.take(shorter.len() as int) =~= shorter);
    assert forall|k: int| 0 < k < shorter.len() implies !(#[trigger] run(
        engine,
        shorter.take(k),
    ).0.phase is Idle) by {
        assert(shorter.take(k) =~= events.take(k));
    }
}

proof fn lemma_call_shape(engine: CompositeEngine, events: Seq<PresentEvent>)
    requires
        one_call(engine, events),
    ensures
        ({
            let (after, actions) = run(engine, events);
            let n = events.len() as int;
            &&& events[0] is Begin
            &&& actions.len() == n
            &&& n <= progress(after.phase)
            &&& after.frame == begin_frame(events[0])
            &&& after.target == begin_target(events[0])
            &&& forward_count(actions) == (if after.phase is AwaitOriginal || after.phase is Idle {
                1nat
            } else {
                0nat
            })
            &&& after.phase is AwaitOriginal ==> actions[n - 1] is Forward
            &&& after.phase is Idle ==> n >= 2 && events[n - 1] is Returned && actions[n - 1] == (
            PresentAction::Return { result: returned_result(events[n - 1]) }) && actions[n
                - 2] is Forward
            &&& after.phase is AwaitStatus || after.phase is AwaitRebuild ==> resize_count(actions)
                == 0
            &&& after.phase is AwaitResize ==> resize_count(actions) == 1
            &&& resize_count(actions) <= 1
            &&& !begin_frame(events[0]).ready() || !begin_enabled(events[0]) ==> resize_count(
                actions,
            ) == 0 && draws_nothing(actions) && !(after.phase is AwaitResize)
            &&& !begin_enabled(events[0]) ==> after.state == engine.state && (after.phase is AwaitOriginal
                || after.phase is Idle)
        }),
    decreases events.len(),
{
    let shorter = events.drop_last();
    let (before, earlier) = run(engine, shorter);
    let (after, action) = before.next(events.last());
    assert(run(engine, events) == (after, earlier.push(action)));
    assert(earlier.push(action).drop_last() =~= earlier);
    if events.len() == 1 {
        assert(shorter =~= Seq::<PresentEvent>::empty());
        assert(before == engine);
        assert(earlier =~= Seq::<PresentAction>::empty());
        assert(forward_count(earlier) == 0);
        assert(resize_count(earlier) == 0);
    } else {
        lemma_one_call_prefix(engine, events);
        lemma_call_shape(engine, shorter);
        assert(shorter[0] == events[0]);
    }
}

/// Every intercepted call reaches the original routine exactly once: however the
/// GPU work of a call turns out, once the call is over the machine has asked for
/// the original exactly once, as the action before the last, and has handed its
/// result back unchanged as the last. A call takes at most five events.
pub proof fn lemma_call_reaches_original_once(engine: CompositeEngine, events: Seq<PresentEvent>)
    requires
        one_call(engine, events),
        run(engine, events).0.phase is Idle,
    ensures
        2 <= events.len() <= 5,
        run(engine, events).1.len() == events.len(),
        forward_count(run(engine, events).1) == 1,
        run(engine, events).1[events.len() - 2] is Forward,
        events.last() is Returned,
        run(engine, events).1.last() == (PresentAction::Return {
            result: returned_result(events.last()),
        }),
{
    lemma_call_shape(engine, events);
}

/// With rendering switched off a call is transparent: the machine asks for the
/// original at once, without any drawing or GPU work, hands its result back
/// unchanged, and keeps its resource state.
pub proof fn lemma_disabled_rendering_is_transparent(
    engine: CompositeEngine,
    frame: MMFData,
    target: BackBuffer,
    result: i32,
)
    requires
        engine.phase is Idle,
    ensures
        run(
            engine,
            seq![
                PresentEvent::Begin { rendering_enabled: false, frame, target },
                PresentEvent::Returned { result },
            ],
        ) == (
            CompositeEngine { frame, target, ..engine },
            seq![pass_through(), PresentAction::Return { result }],
        ),
{
    let begin = PresentEvent::Begin { rendering_enabled: false, frame, target };
    let returned = PresentEvent::Returned { result };
    let none = Seq::<PresentEvent>::empty();
    lemma_run_push(engine, none, begin);
    lemma_run_push(engine, none.push(begin), returned);
    assert(seq![begin, returned] =~= none.push(begin).push(returned));
    assert(seq![pass_through(), PresentAction::Return { result }] =~= Seq::<
        PresentAction,
    >::empty().push(pass_through()).push(PresentAction::Return { result }));
}

/// A frame that is not ready contributes nothing: in a call that began with such
/// a frame, or with rendering switched off, the machine never asks to rebuild
/// size-dependent resources and never asks to draw.
pub proof fn lemma_unready_frame_contributes_nothing(
    engine: CompositeEngine,
    events: Seq<PresentEvent>,
)
    requires
        one_call(engine, events),
        !begin_frame(events[0]).ready() || !begin_enabled(events[0]),
    ensures
        resize_count(run(engine, events).1) == 0,
        draws_nothing(run(engine, events).1),
{
    lemma_call_shape(engine, events);
}

/// What the transport publishes from a header record that is rejected is not
/// ready, whatever the cache held before: a malformed header is never drawn from.
pub proof fn lemma_malformed_header_is_not_ready(before: MMFData, alive: bool, bytes: Seq<u8>)
    requires
        super::mmf::parse_header(bytes) is Err,
    ensures
        !super::mmf::published(before, alive, bytes).ready(),
{
}

/// The events of a call with rendering switched on in which the device is
/// found in order and, where `resized` is set, a rebuild of the size-dependent
/// resources succeeds.
pub open spec fn smooth_call(
    frame: MMFData,
    target: BackBuffer,
    resized: bool,
    result: i32,
) -> Seq<PresentEvent> {
    if resized {
        seq![
            PresentEvent::Begin { rendering_enabled: true, frame, target },
            PresentEvent::DeviceStatus { removed: false },
            PresentEvent::Resized { target_ok: true, textures_ok: true },
            PresentEvent::Returned { result },
        ]
    } else {
        seq![
            PresentEvent::Begin { rendering_enabled: true, frame, target },
            PresentEvent::DeviceStatus { removed: false },
            PresentEvent::Returned { result },
        ]
    }
}

/// The events of several smooth calls without a rebuild, one after the other,
/// all with the same back buffer; each call is given by its frame and by what
/// the original routine returns.
pub open spec fn steady_calls(calls: Seq<(MMFData, i32)>, target: BackBuffer) -> Seq<PresentEvent>
    decreases calls.len(),
{
    if calls.len() == 0 {
        Seq::empty()
    } else {
        steady_calls(calls.drop_last(), target) + smooth_call(
            calls.last().0,
            target,
            false,
            calls.last().1,
        )
    }
}

proof fn lemma_run_concat(engine: CompositeEngine, first: Seq<PresentEvent>, then: Seq<PresentEvent>)
    ensures
        run(engine, first + then) == ({
            let (middle, actions) = run(engine, first);
            let (after, more) = run(middle, then);
            (after, actions + more)
        }),
        in_order(engine, first + then) == (in_order(engine, first) && in_order(
            run(engine, first).0,
            then,
        )),
    decreases then.len(),
{
    let (middle, actions) = run(engine, first);
    if then.len() == 0 {
        assert(first + then =~= first);
        assert(actions + Seq::<PresentAction>::empty() =~= actions);
    } else {
        lemma_run_concat(engine, first, then.drop_last());
        assert((first + then).drop_last() =~= first + then.drop_last());
        let (before, more) = run(middle, then.drop_last());
        let (after, action) = before.next(then.last());
        assert((actions + more).push(action) =~= actions + more.push(action));
    }
}

proof fn lemma_resize_count_concat(first: Seq<PresentAction>, then: Seq<PresentAction>)
    ensures
        resize_count(first + then) == resize_count(first) + resize_count(then),
    decreases then.len(),
{
    if then.len() == 0 {
        assert(first + then =~= first);
    } else {
        lemma_resize_count_concat(first, then.drop_last());
        assert((first + then).drop_last() =~= first + then.drop_last());
    }
}

proof fn lemma_smooth_call(
    engine: CompositeEngine,
    frame: MMFData,
    target: BackBuffer,
    resized: bool,
    result: i32,
)
    requires
        engine.phase is Idle,
        engine.state is Some,
        frame.ready(),
        resized == !engine.state->Some_0.fits(frame, target),
    ensures
        in_order(engine, smooth_call(frame, target, resized, result)),
        run(engine, smooth_call(frame, target, resized, result)).0 == (CompositeEngine {
            state: Some(OverlayState::built_for(frame, target)),
            phase: PresentPhase::Idle,
            frame,
            target,
        }),
        resize_count(run(engine, smooth_call(frame, target, resized, result)).1) == (if resized {
            1nat
        } else {
            0nat
        }),
        run(engine, smooth_call(frame, target, resized, result)).1 =~= (if resized {
            seq![
                PresentAction::QueryDevice,
                PresentAction::Resize {
                    width: frame.width,
                    height: frame.height,
                    addr1: frame.addr1,
                    addr2: frame.addr2,
                },
                PresentAction::Forward { draw: Some(frame.index), release: false },
                PresentAction::Return { result },
            ]
        } else {
            seq![
                PresentAction::QueryDevice,
                PresentAction::Forward { draw: Some(frame.index), release: false },
                PresentAction::Return { result },
            ]
        }),
{
    let none = Seq::<PresentEvent>::empty();
    let begin = PresentEvent::Begin { rendering_enabled: true, frame, target };
    let status = PresentEvent::DeviceStatus { removed: false };
    let returned = PresentEvent::Returned { result };
    let e1 = none.push(begin);
    let e2 = e1.push(status);
    lemma_run_push(engine, none, begin);
    lemma_run_push(engine, e1, status);
    lemma_in_order_push(engine, none, begin);
    lemma_in_order_push(engine, e1, status);
    let a0 = Seq::<PresentAction>::empty();
    let a1 = a0.push(PresentAction::QueryDevice);
    lemma_resize_count_push(a0, PresentAction::QueryDevice);
    assert(run(engine, e1).1 == a1);
    if resized {
        let size = PresentEvent::Resized { target_ok: true, textures_ok: true };
        let e3 = e2.push(size);
        let e4 = e3.push(returned);
        lemma_run_push(engine, e2, size);
        lemma_run_push(engine, e3, returned);
        lemma_in_order_push(engine, e2, size);
        lemma_in_order_push(engine, e3, returned);
        assert(smooth_call(frame, target, resized, result) =~= e4);
        let resize = PresentAction::Resize {
            width: frame.width,
            height: frame.height,
            addr1: frame.addr1,
            addr2: frame.addr2,
        };
        let forward = PresentAction::Forward { draw: Some(frame.index), release: false };
        let a2 = a1.push(resize);
        let a3 = a2.push(forward);
        lemma_resize_count_push(a1, resize);
        lemma_resize_count_push(a2, forward);
        lemma_resize_count_push(a3, PresentAction::Return { result });
        assert(run(engine, e2).1 == a2);
        assert(run(engine, e3).1 == a3);
    } else {
        let e3 = e2.push(returned);
        lemma_run_push(engine, e2, returned);
        lemma_in_order_push(engine, e2, returned);
        assert(smooth_call(frame, target, resized, result) =~= e3);
        let forward = PresentAction::Forward { draw: Some(frame.index), release: false };
        let a2 = a1.push(forward);
        lemma_resize_count_push(a1, forward);
        lemma_resize_count_push(a2, PresentAction::Return { result });
        assert(run(engine, e2).1 == a2);
    }
}

/// Frames that fit the resources at hand need no rebuild: while the device stays
/// in order and the back buffer stays what it is, any number of calls whose
/// frames are ready and have the dimensions and handles that the resources were
/// built for asks for no rebuild at all, and leaves the resource state as it was.
pub proof fn lemma_fitting_frames_need_no_rebuild(
    engine: CompositeEngine,
    calls: Seq<(MMFData, i32)>,
    target: BackBuffer,
)
    requires
        engine.phase is Idle,
        engine.state is Some,
        forall|i: int|
            0 <= i < calls.len() ==> (#[trigger] calls[i]).0.ready() && engine.state->Some_0.fits(
                calls[i].0,
                target,
            ),
    ensures
        in_order(engine, steady_calls(calls, target)),
        resize_count(run(engine, steady_calls(calls, target)).1) == 0,
        run(engine, steady_calls(calls, target)).0.phase is Idle,
        run(engine, steady_calls(calls, target)).0.state == engine.state,
    decreases calls.len(),
{
    if calls.len() > 0 {
        let earlier = calls.drop_last();
        let (frame, result) = calls.last();
        lemma_fitting_frames_need_no_rebuild(engine, earlier, target);
        let middle = run(engine, steady_calls(earlier, target)).0;
        lemma_smooth_call(middle, frame, target, false, result);
        lemma_run_concat(
            engine,
            steady_calls(earlier, target),
            smooth_call(frame, target, false, result),
        );
        lemma_resize_count_concat(
            run(engine, steady_calls(earlier, target)).1,
            run(middle, smooth_call(frame, target, false, result)).1,
        );
    }
}

/// A change of resolution is answered by exactly one rebuild: when a ready frame
/// arrives that the resources at hand do not fit, the call that sees it rebuilds
/// them once, and the calls after it, however many, with frames of the same
/// dimensions and handles and with the same back buffer, rebuild nothing.
pub proof fn lemma_changed_frame_rebuilds_once(
    engine: CompositeEngine,
    frame: MMFData,
    target: BackBuffer,
    result: i32,
    calls: Seq<(MMFData, i32)>,
)
    requires
        engine.phase is Idle,
        engine.state is Some,
        frame.ready(),
        !engine.state->Some_0.fits(frame, target),
        forall|i: int|
            0 <= i < calls.len() ==> (#[trigger] calls[i]).0.ready() && calls[i].0.width
                == frame.width && calls[i].0.height == frame.height && calls[i].0.addr1
                == frame.addr1 && calls[i].0.addr2 == frame.addr2,
    ensures
        in_order(
            engine,
            smooth_call(frame, target, true, result) + steady_calls(calls, target),
        ),
        resize_count(
            run(engine, smooth_call(frame, target, true, result) + steady_calls(calls, target)).1,
        ) == 1,
        run(
            engine,
            smooth_call(frame, target, true, result) + steady_calls(calls, target),
        ).0.state == Some(OverlayState::built_for(frame, target)),
{
    lemma_smooth_call(engine, frame, target, true, result);
    let middle = run(engine, smooth_call(frame, target, true, result)).0;
    lemma_fitting_frames_need_no_rebuild(middle, calls, target);
    lemma_run_concat(
        engine,
        smooth_call(frame, target, true, result),
        steady_calls(calls, target),
    );
    lemma_resize_count_concat(
        run(engine, smooth_call(frame, target, true, result)).1,
        run(middle, steady_calls(calls, target)).1,
    );
}

} // verus!
