use vstd::prelude::*;
use crate::engine::{InputEvent, SystemEvent};
use crate::entity::EntityManager;

verus! {

/// Why a step unit could not run its step; the worker drops it.
#[derive(Clone, Debug)]
pub struct SystemError {
    pub name: String,
    pub description: String,
}

pub type SysResult<T> = Result<T, SystemError>;

/// What the window showed since the previous frame, gathered before the
/// units step.
#[derive(Clone, Debug)]
pub struct WindowState {
    pub should_close: bool,
    pub inputs: Vec<InputEvent>,
}

impl WindowState {
    /// A frame in which the window stays open and nothing was pressed.
    pub fn quiet() -> (r: WindowState)
        ensures
            !r.should_close,
            r.inputs@ == Seq::<InputEvent>::empty(),
    {
        WindowState { should_close: false, inputs: Vec::new() }
    }
}

/// The capability that every kind of step unit has.
pub trait SystemTrait: Sized {
    /// The events of one step on a frame with window state `window`, or
    /// `None` where the step fails.
    spec fn step_spec(&self, window: WindowState) -> Option<Seq<SystemEvent>>;

    /// Name and description of the error of a step that fails.
    spec fn step_error_spec(&self, window: WindowState) -> (Seq<char>, Seq<char>);

    /// The unit as one step leaves it.
    spec fn stepped_spec(&self, window: WindowState) -> Self;

    /// The unit as its `init` leaves it.
    spec fn init_spec(&self) -> Self;

    /// Called once, before the unit's first step.
    fn init(&mut self)
        ensures
            *final(self) == old(self).init_spec(),
    ;

    fn step(&mut self, time: usize, window: &WindowState, world: &EntityManager) -> (r: SysResult<
        Vec<SystemEvent>,
    >)
        ensures
            match old(self).step_spec(*window) {
                Some(e) => r matches Ok(v) && v@ == e,
                None => r matches Err(err) && (err.name@, err.description@)
                    == old(self).step_error_spec(*window),
            },
            *final(self) == old(self).stepped_spec(*window),
    ;
}

/// A unit with no work of its own.
#[derive(Clone, Debug)]
pub struct SampleSystem {
    pub name: String,
}

/// The unit that streams assets in; it has no per-tick events.
#[derive(Clone, Debug)]
pub struct AssetLoaderSystem {}

impl AssetLoaderSystem {
    pub fn new() -> (r: AssetLoaderSystem) {
        AssetLoaderSystem {  }
    }
}

/// The unit that owns the window: it turns window input into events and
/// asks for shutdown when the window closes. The handles of the GPU objects
/// it draws with are set once the drawing context exists.
#[derive(Clone, Debug)]
pub struct RenderSystem {
    shader_program: Option<u32>,
    vao: Option<u32>,
}

impl RenderSystem {
    pub closed spec fn shader_spec(&self) -> Option<u32> {
        self.shader_program
    }

    pub closed spec fn vao_spec(&self) -> Option<u32> {
        self.vao
    }

    /// Ready to step once both GPU objects exist.
    pub open spec fn ready(&self) -> bool {
        self.shader_spec() is Some && self.vao_spec() is Some
    }

    pub fn new() -> (r: RenderSystem)
        ensures
            r.shader_spec() is None,
            r.vao_spec() is None,
    {
        RenderSystem { shader_program: None, vao: None }
    }

    /// Records the shader program and vertex array made for this unit.
    pub fn attach(&mut self, shader_program: u32, vao: u32)
        ensures
            final(self).shader_spec() == Some(shader_program),
            final(self).vao_spec() == Some(vao),
    {
        self.shader_program = Some(shader_program);
        self.vao = Some(vao);
    }

    pub fn shader_program(&self) -> (r: Option<u32>)
        ensures
            r == self.shader_spec(),
    {
        self.shader_program
    }

    pub fn vao(&self) -> (r: Option<u32>)
        ensures
            r == self.vao_spec(),
    {
        self.vao
    }
}

/// The closed set of step units.
#[derive(Clone, Debug)]
pub enum System {
    SampleSystem(SampleSystem),
    RenderSystem(RenderSystem),
    AssetSystem(AssetLoaderSystem),
}

/// Window input as events, in order.
pub open spec fn input_events(inputs: Seq<InputEvent>) -> Seq<SystemEvent> {
    inputs.map_values(|i: InputEvent| SystemEvent::InputEvent(i))
}

/// The error of a failed step of `u`, as name and description.
pub open spec fn step_error(u: System, w: WindowState) -> (Seq<char>, Seq<char>) {
    match u {
        System::SampleSystem(s) => s.step_error_spec(w),
        System::RenderSystem(r) => r.step_error_spec(w),
        System::AssetSystem(a) => a.step_error_spec(w),
    }
}

/// The unit as one step leaves it.
pub open spec fn stepped(u: System, w: WindowState) -> System {
    match u {
        System::SampleSystem(s) => System::SampleSystem(s.stepped_spec(w)),
        System::RenderSystem(r) => System::RenderSystem(r.stepped_spec(w)),
        System::AssetSystem(a) => System::AssetSystem(a.stepped_spec(w)),
    }
}

/// The events of one step of `u`, or `None` where the step fails.
pub open spec fn step_outcome(u: System, w: WindowState) -> Option<Seq<SystemEvent>> {
    match u {
        System::SampleSystem(s) => s.step_spec(w),
        System::RenderSystem(r) => r.step_spec(w),
        System::AssetSystem(a) => a.step_spec(w),
    }
}

impl SystemTrait for SampleSystem {
    /// Its step never fails.
    open spec fn step_error_spec(&self, window: WindowState) -> (Seq<char>, Seq<char>) {
        (Seq::empty(), Seq::empty())
    }

    open spec fn stepped_spec(&self, window: WindowState) -> Self {
        *self
    }

    open spec fn init_spec(&self) -> Self {
        *self
    }

    open spec fn step_spec(&self, window: WindowState) -> Option<Seq<SystemEvent>> {
        Some(Seq::empty())
    }

    fn init(&mut self) {
    }

    fn step(&mut self, time: usize, window: &WindowState, world: &EntityManager) -> (r: SysResult<
        Vec<SystemEvent>,
    >) {
        Ok(Vec::new())
    }
}

impl SystemTrait for AssetLoaderSystem {
    /// Its step never fails.
    open spec fn step_error_spec(&self, window: WindowState) -> (Seq<char>, Seq<char>) {
        (Seq::empty(), Seq::empty())
    }

    open spec fn stepped_spec(&self, window: WindowState) -> Self {
        *self
    }

    open spec fn init_spec(&self) -> Self {
        *self
    }

    open spec fn step_spec(&self, window: WindowState) -> Option<Seq<SystemEvent>> {
        Some(Seq::empty())
    }

    fn init(&mut self) {
    }

    fn step(&mut self, time: usize, window: &WindowState, world: &EntityManager) -> (r: SysResult<
        Vec<SystemEvent>,
    >) {
        Ok(Vec::new())
    }
}

impl SystemTrait for RenderSystem {
    open spec fn step_error_spec(&self, window: WindowState) -> (Seq<char>, Seq<char>) {
        ("render"@, "stepped before its drawing context was made"@)
    }

    open spec fn stepped_spec(&self, window: WindowState) -> Self {
        *self
    }

    open spec fn init_spec(&self) -> Self {
        *self
    }

    /// Fails before the GPU objects are attached; otherwise a closing window
    /// asks for shutdown, and an open one passes its input on in order.
    open spec fn step_spec(&self, window: WindowState) -> Option<Seq<SystemEvent>> {
        if !self.ready() {
            None
        } else if window.should_close {
            Some(seq![SystemEvent::ShutdownEngine])
        } else {
            Some(input_events(window.inputs@))
        }
    }

    /// The window and GL objects are made where the window lives, and handed
    /// over through `attach`.
    fn init(&mut self) {
    }

    fn step(&mut self, time: usize, window: &WindowState, world: &EntityManager) -> (r: SysResult<
        Vec<SystemEvent>,
    >) {
        if self.shader_program.is_none() || self.vao.is_none() {
            return Err(
                SystemError {
                    name: "render".to_owned(),
                    description: "stepped before its drawing context was made".to_owned(),
                },
            );
        }
        if window.should_close {
            return Ok(vec![SystemEvent::ShutdownEngine]);
        }
        let mut out: Vec<SystemEvent> = Vec::new();
        let mut i: usize = 0;
        while i < window.inputs.len()
            invariant
                0 <= i <= window.inputs@.len(),
                out@ == input_events(window.inputs@.subrange(0, i as int)),
            decreases window.inputs@.len() - i,
        {
            out.push(SystemEvent::InputEvent(window.inputs[i]));
            proof {
                assert(input_events(window.inputs@.subrange(0, i + 1)) =~= input_events(
                    window.inputs@.subrange(0, i as int),
                ).push(SystemEvent::InputEvent(window.inputs@[i as int])));
            }
            i = i + 1;
        }
        proof {
            assert(window.inputs@.subrange(0, i as int) =~= window.inputs@);
        }
        Ok(out)
    }
}

impl System {
    /// Prepares the unit before its first step. No kind keeps state that
    /// needs setting up here, so the unit stays as it is.
    pub fn init(&mut self)
        ensures
            *final(self) == *old(self),
    {
        match self {
            System::SampleSystem(sys) => sys.init(),
            System::RenderSystem(sys) => sys.init(),
            System::AssetSystem(sys) => sys.init(),
        }
    }

    /// Runs one step of the unit at tick length `time`, with read access to
    /// the entity table: the result and the new state are those of the
    /// unit's own step.
    pub fn update(&mut self, time: usize, window: &WindowState, world: &EntityManager) -> (r:
        SysResult<Vec<SystemEvent>>)
        ensures
            match step_outcome(*old(self), *window) {
                Some(e) => r matches Ok(v) && v@ == e,
                None => r matches Err(err) && (err.name@, err.description@) == step_error(
                    *old(self),
                    *window,
                ),
            },
            *final(self) == stepped(*old(self), *window),
    {
        match self {
            System::SampleSystem(sys) => sys.step(time, window, world),
            System::RenderSystem(sys) => sys.step(time, window, world),
            System::AssetSystem(sys) => sys.step(time, window, world),
        }
    }
}

} // verus!
