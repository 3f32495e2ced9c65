//! Contains [`RawLevelAccessor`]: convenience methods for accessing raw level data by reference.
use vstd::prelude::*;

use crate::assets::LevelIndices;
use crate::ldtk::{LdtkJson, Level, World};
use crate::refs::{points_to_each, points_to_option};

verus! {

/// The levels of `worlds`, world by world, each world's levels in order.
pub open spec fn world_levels(worlds: Seq<World>) -> Seq<Level>
    decreases worlds.len(),
{
    if worlds.len() == 0 {
        Seq::empty()
    } else {
        world_levels(worlds.drop_last()) + worlds.last().levels@
    }
}

/// All levels of a project: its root levels first, then the levels of its worlds.
pub open spec fn raw_levels(root: Seq<Level>, worlds: Seq<World>) -> Seq<Level> {
    root + world_levels(worlds)
}

/// Root levels paired with their indices.
pub open spec fn root_levels_with_indices(root: Seq<Level>) -> Seq<(LevelIndices, Level)> {
    Seq::new(
        root.len(),
        |i: int| (LevelIndices { world: None, level: i as usize }, root[i]),
    )
}

/// The levels of the world at index `world`, paired with their indices.
pub open spec fn world_segment(world: int, levels: Seq<Level>) -> Seq<(LevelIndices, Level)> {
    Seq::new(
        levels.len(),
        |j: int| (LevelIndices { world: Some(world as usize), level: j as usize }, levels[j]),
    )
}

/// The levels of `worlds` paired with their indices, world by world.
pub open spec fn world_levels_with_indices(worlds: Seq<World>) -> Seq<(LevelIndices, Level)>
    decreases worlds.len(),
{
    if worlds.len() == 0 {
        Seq::empty()
    } else {
        world_levels_with_indices(worlds.drop_last()) + world_segment(
            worlds.len() - 1,
            worlds.last().levels@,
        )
    }
}

/// All levels of a project paired with their indices: root levels first, then world levels.
pub open spec fn raw_levels_with_indices(root: Seq<Level>, worlds: Seq<World>) -> Seq<
    (LevelIndices, Level),
> {
    root_levels_with_indices(root) + world_levels_with_indices(worlds)
}

/// The level that `indices` point to, if there is one.
pub open spec fn level_at_indices(
    root: Seq<Level>,
    worlds: Seq<World>,
    indices: LevelIndices,
) -> Option<Level> {
    match indices.world {
        Some(w) => if w < worlds.len() && indices.level < worlds[w as int].levels@.len() {
            Some(worlds[w as int].levels@[indices.level as int])
        } else {
            None
        },
        None => if indices.level < root.len() {
            Some(root[indices.level as int])
        } else {
            None
        },
    }
}

/// `refs` holds, in order, the indices of `values` and references to their levels.
pub open spec fn indexed_refs_match(
    refs: Seq<(LevelIndices, &Level)>,
    values: Seq<(LevelIndices, Level)>,
) -> bool {
    &&& refs.len() == values.len()
    &&& forall|i: int|
        0 <= i < refs.len() ==> (#[trigger] refs[i]).0 == values[i].0 && *refs[i].1
            == values[i].1
}

/// The root levels, the worlds and the levels of each world are few enough to be indexed by
/// `usize`, as those of any project held in memory are.
pub open spec fn lengths_bounded(root: Seq<Level>, worlds: Seq<World>) -> bool {
    &&& root.len() <= usize::MAX
    &&& worlds.len() <= usize::MAX
    &&& forall|w: int| 0 <= w < worlds.len() ==> #[trigger] worlds[w].levels@.len() <= usize::MAX
}

proof fn lemma_world_levels_indexed(root: Seq<Level>, worlds: Seq<World>, n: int)
    requires
        lengths_bounded(root, worlds),
        0 <= n <= worlds.len(),
    ensures
        world_levels_with_indices(worlds.take(n)).len() == world_levels(worlds.take(n)).len(),
        forall|k: int|
            0 <= k < world_levels(worlds.take(n)).len() ==> {
                &&& (#[trigger] world_levels_with_indices(worlds.take(n))[k]).1 == world_levels(
                    worlds.take(n),
                )[k]
                &&& level_at_indices(root, worlds, world_levels_with_indices(worlds.take(n))[k].0)
                    == Some(world_levels(worlds.take(n))[k])
            },
    decreases n,
{
    if n == 0 {
        assert(worlds.take(0) =~= Seq::<World>::empty());
    } else {
        lemma_world_levels_indexed(root, worlds, n - 1);
        let prefix = worlds.take(n);
        assert(prefix.drop_last() =~= worlds.take(n - 1));
        assert(prefix.last() == worlds[n - 1]);
        let before = world_levels(worlds.take(n - 1));
        let levels = worlds[n - 1].levels@;
        assert forall|k: int| 0 <= k < world_levels(prefix).len() implies {
            &&& (#[trigger] world_levels_with_indices(prefix)[k]).1 == world_levels(prefix)[k]
            &&& level_at_indices(root, worlds, world_levels_with_indices(prefix)[k].0) == Some(
                world_levels(prefix)[k],
            )
        } by {
            if k >= before.len() {
                let j = k - before.len();
                assert(world_levels(prefix)[k] == levels[j]);
                assert(world_levels_with_indices(prefix)[k] == world_segment(n - 1, levels)[j]);
                assert(levels.len() <= usize::MAX);
            }
        }
    }
}

/// Each level of a project paired with its indices is at those indices: the two orders
/// of [`RawLevelAccessor::iter_raw_levels`] and
/// [`RawLevelAccessor::iter_raw_levels_with_indices`] agree, and
/// [`RawLevelAccessor::get_raw_level_at_indices`] finds each level at the indices it is
/// listed with.
pub proof fn lemma_indexed_levels(root: Seq<Level>, worlds: Seq<World>)
    requires
        lengths_bounded(root, worlds),
    ensures
        raw_levels_with_indices(root, worlds).len() == raw_levels(root, worlds).len(),
        forall|k: int|
            0 <= k < raw_levels(root, worlds).len() ==> {
                &&& (#[trigger] raw_levels_with_indices(root, worlds)[k]).1 == raw_levels(
                    root,
                    worlds,
                )[k]
                &&& level_at_indices(root, worlds, raw_levels_with_indices(root, worlds)[k].0)
                    == Some(raw_levels(root, worlds)[k])
            },
{
    lemma_world_levels_indexed(root, worlds, worlds.len() as int);
    assert(worlds.take(worlds.len() as int) =~= worlds);
    let with = raw_levels_with_indices(root, worlds);
    let plain = raw_levels(root, worlds);
    assert forall|k: int| 0 <= k < plain.len() implies {
        &&& (#[trigger] with[k]).1 == plain[k]
        &&& level_at_indices(root, worlds, with[k].0) == Some(plain[k])
    } by {
        if k < root.len() {
            assert(with[k] == root_levels_with_indices(root)[k]);
        } else {
            assert(with[k] == world_levels_with_indices(worlds)[k - root.len()]);
            assert(plain[k] == world_levels(worlds)[k - root.len()]);
        }
    }
}

/// Every level of every world is among the world levels.
pub proof fn lemma_world_level_listed(worlds: Seq<World>, w: int, j: int)
    requires
        0 <= w < worlds.len(),
        0 <= j < worlds[w].levels@.len(),
    ensures
        exists|k: int|
            0 <= k < world_levels(worlds).len() && #[trigger] world_levels(worlds)[k]
                == worlds[w].levels@[j],
    decreases worlds.len(),
{
    let rest = worlds.drop_last();
    if w == worlds.len() - 1 {
        let k = world_levels(rest).len() + j;
        assert(world_levels(worlds)[k] == worlds.last().levels@[j]);
    } else {
        assert(rest[w] == worlds[w]);
        lemma_world_level_listed(rest, w, j);
        let k = choose|k: int|
            0 <= k < world_levels(rest).len() && #[trigger] world_levels(rest)[k]
                == rest[w].levels@[j];
        assert(world_levels(worlds)[k] == world_levels(rest)[k]);
    }
}

/// Convenience methods for accessing raw level data by reference.
///
/// # Root vs world levels
/// This trait is intended for types that store [`LdtkJson`] data.
/// This sort of data stores levels both in the "root" of the project, and in each [`World`].
/// The former is referred to in trait methods as `root_levels`, and the latter as `world_levels`.
pub trait RawLevelAccessor {
    /// The project's root levels.
    spec fn root_levels_view(&self) -> Seq<Level>;

    /// The project's worlds.
    spec fn worlds_view(&self) -> Seq<World>;

    /// Slice to this project's collection of root levels.
    fn root_levels(&self) -> (levels: &[Level])
        ensures
            levels@ == self.root_levels_view(),
    ;

    /// Slice to this project's collection of [`World`]s.
    fn worlds(&self) -> (worlds: &[World])
        ensures
            worlds@ == self.worlds_view(),
    ;

    /// This project's root levels, in order.
    fn iter_root_levels(&self) -> (levels: Vec<&Level>)
        ensures
            points_to_each(levels@, self.root_levels_view()),
    {
        let root = self.root_levels();
        let mut levels: Vec<&Level> = Vec::new();
        let mut i: usize = 0;
        while i < root.len()
            invariant
                i <= root@.len(),
                root@ == self.root_levels_view(),
                points_to_each(levels@, root@.take(i as int)),
            decreases root@.len() - i,
        {
            levels.push(&root[i]);
            i = i + 1;
        }
        assert(root@.take(root@.len() as int) =~= root@);
        levels
    }

    /// This project's world levels: the levels of each world, world by world.
    fn iter_world_levels(&self) -> (levels: Vec<&Level>)
        ensures
            points_to_each(levels@, world_levels(self.worlds_view())),
    {
        let worlds = self.worlds();
        let mut levels: Vec<&Level> = Vec::new();
        let mut w: usize = 0;
        while w < worlds.len()
            invariant
                w <= worlds@.len(),
                worlds@ == self.worlds_view(),
                points_to_each(levels@, world_levels(worlds@.take(w as int))),
            decreases worlds@.len() - w,
        {
            let world_levels_vec = &worlds[w].levels;
            let ghost before = world_levels(worlds@.take(w as int));
            let mut l: usize = 0;
            while l < world_levels_vec.len()
                invariant
                    w < worlds@.len(),
                    world_levels_vec@ == worlds@[w as int].levels@,
                    l <= world_levels_vec@.len(),
                    points_to_each(levels@, before + world_levels_vec@.take(l as int)),
                decreases world_levels_vec@.len() - l,
            {
                levels.push(&world_levels_vec[l]);
                proof {
                    assert(before + world_levels_vec@.take(l + 1) =~= (before
                        + world_levels_vec@.take(l as int)).push(world_levels_vec@[l as int]));
                }
                l = l + 1;
            }
            proof {
                assert(worlds@.take(w + 1).drop_last() =~= worlds@.take(w as int));
                assert(world_levels_vec@.take(l as int) =~= world_levels_vec@);
            }
            w = w + 1;
        }
        assert(worlds@.take(worlds@.len() as int) =~= worlds@);
        levels
    }

    /// This project's levels: root levels first, then world levels.
    fn iter_raw_levels(&self) -> (levels: Vec<&Level>)
        ensures
            points_to_each(levels@, raw_levels(self.root_levels_view(), self.worlds_view())),
    {
        let mut levels = self.iter_root_levels();
        let mut world = self.iter_world_levels();
        let ghost root_part = levels@;
        let ghost world_part = world@;
        levels.append(&mut world);
        assert(levels@ =~= root_part + world_part);
        levels
    }

    /// This project's root levels enumerated with their [`LevelIndices`].
    fn iter_root_levels_with_indices(&self) -> (levels: Vec<(LevelIndices, &Level)>)
        ensures
            indexed_refs_match(levels@, root_levels_with_indices(self.root_levels_view())),
    {
        let root = self.root_levels();
        let mut levels: Vec<(LevelIndices, &Level)> = Vec::new();
        let mut i: usize = 0;
        while i < root.len()
            invariant
                i <= root@.len(),
                root@ == self.root_levels_view(),
                indexed_refs_match(levels@, root_levels_with_indices(root@.take(i as int))),
            decreases root@.len() - i,
        {
            levels.push((LevelIndices::in_root(i), &root[i]));
            i = i + 1;
        }
        assert(root@.take(root@.len() as int) =~= root@);
        levels
    }

    /// This project's world levels enumerated with their [`LevelIndices`].
    fn iter_world_levels_with_indices(&self) -> (levels: Vec<(LevelIndices, &Level)>)
        ensures
            indexed_refs_match(levels@, world_levels_with_indices(self.worlds_view())),
            lengths_bounded(Seq::empty(), self.worlds_view()),
    {
        let worlds = self.worlds();
        let mut levels: Vec<(LevelIndices, &Level)> = Vec::new();
        let mut w: usize = 0;
        while w < worlds.len()
            invariant
                w <= worlds@.len(),
                worlds@ == self.worlds_view(),
                indexed_refs_match(levels@, world_levels_with_indices(worlds@.take(w as int))),
                forall|v: int| 0 <= v < w ==> #[trigger] worlds@[v].levels@.len() <= usize::MAX,
            decreases worlds@.len() - w,
        {
            let world_levels_vec = &worlds[w].levels;
            let ghost before = world_levels_with_indices(worlds@.take(w as int));
            let mut l: usize = 0;
            while l < world_levels_vec.len()
                invariant
                    w < worlds@.len(),
                    world_levels_vec@ == worlds@[w as int].levels@,
                    l <= world_levels_vec@.len(),
                    indexed_refs_match(
                        levels@,
                        before + world_segment(w as int, world_levels_vec@.take(l as int)),
                    ),
                decreases world_levels_vec@.len() - l,
            {
                levels.push((LevelIndices::in_world(w, l), &world_levels_vec[l]));
                proof {
                    assert(before + world_segment(w as int, world_levels_vec@.take(l + 1)) =~= (
                    before + world_segment(w as int, world_levels_vec@.take(l as int))).push(
                        (
                            LevelIndices { world: Some(w), level: l },
                            world_levels_vec@[l as int],
                        ),
                    ));
                }
                l = l + 1;
            }
            proof {
                assert(worlds@.take(w + 1).drop_last() =~= worlds@.take(w as int));
                assert(world_levels_vec@.take(l as int) =~= world_levels_vec@);
            }
            w = w + 1;
        }
        assert(worlds@.take(worlds@.len() as int) =~= worlds@);
        levels
    }

    /// This project's levels enumerated with their [`LevelIndices`]: root levels first, then
    /// world levels.
    fn iter_raw_levels_with_indices(&self) -> (levels: Vec<(LevelIndices, &Level)>)
        ensures
            indexed_refs_match(
                levels@,
                raw_levels_with_indices(self.root_levels_view(), self.worlds_view()),
            ),
            lengths_bounded(self.root_levels_view(), self.worlds_view()),
    {
        let root_len = self.root_levels().len();
        let mut levels = self.iter_root_levels_with_indices();
        let mut world = self.iter_world_levels_with_indices();
        let ghost root_part = levels@;
        let ghost world_part = world@;
        levels.append(&mut world);
        assert(levels@ =~= root_part + world_part);
        levels
    }

    /// Immutable access to a level at the given [`LevelIndices`].
    fn get_raw_level_at_indices(&self, indices: &LevelIndices) -> (level: Option<&Level>)
        ensures
            points_to_option(
                level,
                level_at_indices(self.root_levels_view(), self.worlds_view(), *indices),
            ),
    {
        match indices.world {
            Some(world_index) => {
                let worlds = self.worlds();
                if world_index < worlds.len() && indices.level < worlds[world_index].levels.len() {
                    Some(&worlds[world_index].levels[indices.level])
                } else {
                    None
                }
            },
            None => {
                let root = self.root_levels();
                if indices.level < root.len() {
                    Some(&root[indices.level])
                } else {
                    None
                }
            },
        }
    }
}

impl RawLevelAccessor for LdtkJson {
    open spec fn root_levels_view(&self) -> Seq<Level> {
        self.levels@
    }

    open spec fn worlds_view(&self) -> Seq<World> {
        self.worlds@
    }

    fn root_levels(&self) -> (levels: &[Level]) {
        self.levels.as_slice()
    }

    fn worlds(&self) -> (worlds: &[World]) {
        self.worlds.as_slice()
    }
}

} // verus!
