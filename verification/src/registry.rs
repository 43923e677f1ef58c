//! Voxel-type registry: definitions of voxel types (id, name, rendering and
//! collision flags, texture mapping), looked up by id, by datum, or by name.
//! The chunk store and the raycast engine only read from the registry.
use crate::chunk::VoxelDatum;
use vstd::prelude::*;

verus! {

/// How a voxel's faces map onto textures.
#[derive(Clone, Debug)]
pub enum TextureMapping<T> {
    TiledSingle(T),
    TiledTSB { top: T, side: T, bottom: T },
}

impl<T> TextureMapping<T> {
    /// Applies a function to every texture handle, keeping the shape.
    pub fn map<U, F: Fn(T) -> U>(self, f: F) -> (r: TextureMapping<U>)
        requires
            match self {
                TextureMapping::TiledSingle(a) => f.requires((a,)),
                TextureMapping::TiledTSB { top, side, bottom } => f.requires((top,))
                    && f.requires((side,)) && f.requires((bottom,)),
            },
        ensures
            match self {
                TextureMapping::TiledSingle(a) => r matches TextureMapping::TiledSingle(b)
                    && f.ensures((a,), b),
                TextureMapping::TiledTSB { top, side, bottom } => r matches TextureMapping::TiledTSB {
                    top: t2,
                    side: s2,
                    bottom: b2,
                } && f.ensures((top,), t2) && f.ensures((side,), s2) && f.ensures((bottom,), b2),
            },
    {
        match self {
            TextureMapping::TiledSingle(a) => TextureMapping::TiledSingle(f(a)),
            TextureMapping::TiledTSB { top, side, bottom } => TextureMapping::TiledTSB {
                top: f(top),
                side: f(side),
                bottom: f(bottom),
            },
        }
    }
}

impl Default for TextureMapping<u32> {
    /// A single tiled texture with handle 0.
    fn default() -> (r: TextureMapping<u32>)
        ensures
            r == TextureMapping::TiledSingle(0u32),
    {
        TextureMapping::TiledSingle(0)
    }
}

/// The definition of one voxel type.
#[derive(Clone, Debug)]
pub struct VoxelDefinition {
    pub id: u32,
    /// Namespaced name, e.g. `core:air`.
    pub name: String,
    pub has_mesh: bool,
    pub has_collisions: bool,
    pub has_hitbox: bool,
    pub texture_mapping: TextureMapping<u32>,
}

impl VoxelDefinition {
    pub fn name(&self) -> (r: &str)
        ensures
            r@ == self.name@,
    {
        self.name.as_str()
    }

    pub fn id(&self) -> (r: u32)
        ensures
            r == self.id,
    {
        self.id
    }
}

/// Relies on str's `PartialEq`: two string slices compare equal exactly when
/// their character sequences are equal.
#[verifier::external_body]
fn str_eq(a: &str, b: &str) -> (r: bool)
    ensures
        r == (a@ == b@),
{
    a == b
}

/// The first definition in `defs` whose id is `id`, if any.
pub open spec fn find_by_id(defs: Seq<VoxelDefinition>, id: u32) -> Option<VoxelDefinition>
    decreases defs.len(),
{
    if defs.len() == 0 {
        None
    } else if defs[0].id == id {
        Some(defs[0])
    } else {
        find_by_id(defs.skip(1), id)
    }
}

/// The first definition in `defs` whose name is `name`, if any.
pub open spec fn find_by_name(defs: Seq<VoxelDefinition>, name: Seq<char>) -> Option<
    VoxelDefinition,
>
    decreases defs.len(),
{
    if defs.len() == 0 {
        None
    } else if defs[0].name@ == name {
        Some(defs[0])
    } else {
        find_by_name(defs.skip(1), name)
    }
}

/// A scan that stops at index `i` on the first id match agrees with
/// `find_by_id`.
proof fn lemma_find_by_id_at(defs: Seq<VoxelDefinition>, id: u32, i: int)
    requires
        0 <= i < defs.len(),
        defs[i].id == id,
        forall|k: int| 0 <= k < i ==> defs[k].id != id,
    ensures
        find_by_id(defs, id) == Some(defs[i]),
    decreases i,
{
    if i > 0 {
        lemma_find_by_id_at(defs.skip(1), id, i - 1);
    }
}

/// A scan that matches no id agrees with `find_by_id`.
proof fn lemma_find_by_id_none(defs: Seq<VoxelDefinition>, id: u32)
    requires
        forall|k: int| 0 <= k < defs.len() ==> defs[k].id != id,
    ensures
        find_by_id(defs, id) is None,
    decreases defs.len(),
{
    if defs.len() > 0 {
        lemma_find_by_id_none(defs.skip(1), id);
    }
}

/// A scan that stops at index `i` on the first name match agrees with
/// `find_by_name`.
proof fn lemma_find_by_name_at(defs: Seq<VoxelDefinition>, name: Seq<char>, i: int)
    requires
        0 <= i < defs.len(),
        defs[i].name@ == name,
        forall|k: int| 0 <= k < i ==> defs[k].name@ != name,
    ensures
        find_by_name(defs, name) == Some(defs[i]),
    decreases i,
{
    if i > 0 {
        lemma_find_by_name_at(defs.skip(1), name, i - 1);
    }
}

/// A scan that matches no name agrees with `find_by_name`.
proof fn lemma_find_by_name_none(defs: Seq<VoxelDefinition>, name: Seq<char>)
    requires
        forall|k: int| 0 <= k < defs.len() ==> defs[k].name@ != name,
    ensures
        find_by_name(defs, name) is None,
    decreases defs.len(),
{
    if defs.len() > 0 {
        lemma_find_by_name_none(defs.skip(1), name);
    }
}

/// The registry of voxel-type definitions. Lookups return the first
/// definition registered under the queried id or name.
pub struct VoxelRegistry {
    definitions: Vec<VoxelDefinition>,
}

impl VoxelRegistry {
    /// The registered definitions, in registration order.
    pub closed spec fn defs(self) -> Seq<VoxelDefinition> {
        self.definitions@
    }

    pub fn new() -> (r: VoxelRegistry)
        ensures
            r.defs() == Seq::<VoxelDefinition>::empty(),
    {
        VoxelRegistry { definitions: Vec::new() }
    }

    /// Adds a definition at the end of the registry.
    pub fn register(&mut self, def: VoxelDefinition)
        ensures
            final(self).defs() == old(self).defs().push(def),
    {
        self.definitions.push(def);
    }

    /// Looks a definition up by id.
    pub fn get_definition_from_id(&self, id: u32) -> (r: Option<&VoxelDefinition>)
        ensures
            match r {
                Some(d) => find_by_id(self.defs(), id) == Some(*d),
                None => find_by_id(self.defs(), id) is None,
            },
    {
        let len = self.definitions.len();
        let mut i: usize = 0;
        while i < len
            invariant
                len == self.defs().len(),
                i <= len,
                forall|k: int| 0 <= k < i ==> self.defs()[k].id != id,
            decreases len - i,
        {
            if self.definitions[i].id == id {
                proof {
                    lemma_find_by_id_at(self.defs(), id, i as int);
                }
                return Some(&self.definitions[i]);
            }
            i = i + 1;
        }
        proof {
            lemma_find_by_id_none(self.defs(), id);
        }
        None
    }

    /// Looks a definition up by a voxel datum's id.
    pub fn get_definition_from_datum(&self, datum: VoxelDatum) -> (r: Option<&VoxelDefinition>)
        ensures
            match r {
                Some(d) => find_by_id(self.defs(), datum.id) == Some(*d),
                None => find_by_id(self.defs(), datum.id) is None,
            },
    {
        self.get_definition_from_id(datum.id)
    }

    /// Looks a definition up by its namespaced name.
    pub fn get_definition_from_name(&self, name: &str) -> (r: Option<&VoxelDefinition>)
        ensures
            match r {
                Some(d) => find_by_name(self.defs(), name@) == Some(*d),
                None => find_by_name(self.defs(), name@) is None,
            },
    {
        let len = self.definitions.len();
        let mut i: usize = 0;
        while i < len
            invariant
                len == self.defs().len(),
                i <= len,
                forall|k: int| 0 <= k < i ==> self.defs()[k].name@ != name@,
            decreases len - i,
        {
            if str_eq(self.definitions[i].name.as_str(), name) {
                proof {
                    lemma_find_by_name_at(self.defs(), name@, i as int);
                }
                return Some(&self.definitions[i]);
            }
            i = i + 1;
        }
        proof {
            lemma_find_by_name_none(self.defs(), name@);
        }
        None
    }
}

} // verus!
