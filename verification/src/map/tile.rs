use vstd::prelude::*;

verus! {

/// Whether a tile's room and decor exist in the world, with the entities
/// that make them up.
pub enum TileState<E> {
    Active(Vec<E>),
    Destroyed,
}

/// Step a tile takes in a frame: tiles in view are built unless they already
/// are, tiles out of view lose their entities if they have any.
pub open spec fn tile_step_for(active: bool, in_view: bool) -> TileStep {
    if in_view {
        if active { TileStep::Keep } else { TileStep::Build }
    } else {
        if active { TileStep::Destroy } else { TileStep::Keep }
    }
}

/// Whether a tile has entities after taking `step`.
pub open spec fn active_after(active: bool, step: TileStep) -> bool {
    match step {
        TileStep::Build => true,
        TileStep::Destroy => false,
        TileStep::Keep => active,
    }
}

/// What a tile needs in a frame.
#[derive(Clone, Copy, Debug, PartialEq, Eq, Structural)]
pub enum TileStep {
    /// Create the room and decor entities.
    Build,
    /// Delete its entities.
    Destroy,
    /// Nothing changes.
    Keep,
}

impl<E> TileState<E> {
    /// A tile starts without entities.
    pub fn new() -> (s: Self)
        ensures
            s is Destroyed,
    {
        TileState::Destroyed
    }

    /// Whether the tile's entities exist.
    pub fn is_active(&self) -> (r: bool)
        ensures
            r == self is Active,
    {
        match self {
            TileState::Active(_) => true,
            TileState::Destroyed => false,
        }
    }

    /// What the tile needs this frame: tiles in view are built unless they
    /// already are, tiles out of view lose their entities if they have any.
    pub fn step(&self, in_view: bool) -> (r: TileStep)
        ensures
            r == tile_step_for(self is Active, in_view),
    {
        let active = self.is_active();
        if in_view {
            if active { TileStep::Keep } else { TileStep::Build }
        } else {
            if active { TileStep::Destroy } else { TileStep::Keep }
        }
    }

    /// Records the entities of a tile that has just been built.
    pub fn activate(&mut self, entities: Vec<E>)
        requires
            *old(self) is Destroyed,
        ensures
            *final(self) == TileState::Active(entities),
    {
        *self = TileState::Active(entities);
    }

    /// Hands out the entities to delete and marks the tile destroyed; a tile
    /// that has none hands out nothing.
    pub fn take_entities(&mut self) -> (r: Option<Vec<E>>)
        ensures
            *final(self) is Destroyed,
            *old(self) matches TileState::Active(es) ==> r == Some(es),
            *old(self) is Destroyed ==> r is None,
    {
        let mut previous = TileState::Destroyed;
        std::mem::swap(&mut previous, self);
        match previous {
            TileState::Active(es) => Some(es),
            TileState::Destroyed => None,
        }
    }
}

/// After a frame's step is carried out, a tile has entities exactly when it
/// is in view, whatever it had before.
pub proof fn lemma_step_follows_view(active: bool, in_view: bool)
    ensures
        active_after(active, tile_step_for(active, in_view)) == in_view,
{
}

} // verus!
