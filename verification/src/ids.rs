use vstd::prelude::*;

verus! {

/// An entity of the game world (a player), identified by its index.
#[derive(Clone, Copy, PartialEq, Eq, Structural, Debug, Hash)]
pub struct Entity(pub u32);

/// Marks an entity that exists in the world.
#[derive(Clone, Copy, PartialEq, Eq, Structural, Debug, Hash)]
pub struct Live;

/// The identifier of a client connection.
#[derive(Clone, Copy, PartialEq, Eq, Structural, Debug, Hash)]
pub struct ConnectionId(pub usize);

/// The team a player plays for.
#[derive(Clone, Copy, PartialEq, Eq, Structural, Debug, Hash)]
pub struct Team(pub u16);

} // verus!
