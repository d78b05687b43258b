use vstd::prelude::*;

verus! {

/// Number of entity slots that the tables reserve room for up front.
pub const TOTAL_ENTITIES: usize = 1000;

/// Marker for the kinds of data that entities can carry.
pub trait Component {
}

/// Data that a render pass needs for one entity.
#[derive(Clone, Copy, Debug, PartialEq, Eq, Structural)]
pub struct RenderComponent {}

/// Placement of one entity in the world.
#[derive(Clone, Copy, Debug, PartialEq, Eq, Structural)]
pub struct TransformComponent {}

impl Component for RenderComponent {
}

impl Component for TransformComponent {
}

/// Component arrays, indexed by entity slot.
pub struct ComponentsData {
    render_components: Vec<Option<RenderComponent>>,
}

impl View for ComponentsData {
    type V = Seq<Option<RenderComponent>>;

    closed spec fn view(&self) -> Seq<Option<RenderComponent>> {
        self.render_components@
    }
}

impl ComponentsData {
    pub fn new() -> (r: ComponentsData)
        ensures
            r@ == Seq::<Option<RenderComponent>>::empty(),
    {
        ComponentsData { render_components: Vec::with_capacity(TOTAL_ENTITIES) }
    }

    /// Adds the component slot of a new entity slot, holding nothing.
    pub(crate) fn push_empty(&mut self)
        ensures
            final(self)@ == old(self)@.push(None),
    {
        self.render_components.push(None);
    }

    pub(crate) fn set_render(&mut self, index: usize, c: Option<RenderComponent>)
        requires
            index < old(self)@.len(),
        ensures
            final(self)@ == old(self)@.update(index as int, c),
    {
        self.render_components.set(index, c);
    }

    pub(crate) fn render(&self, index: usize) -> (r: Option<RenderComponent>)
        requires
            index < self@.len(),
        ensures
            r == self@[index as int],
    {
        self.render_components[index]
    }
}

} // verus!
