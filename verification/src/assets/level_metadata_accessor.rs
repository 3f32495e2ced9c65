use vstd::prelude::*;

use crate::assets::{LevelIndices, LevelMetadata};
use crate::ldtk::raw_level_accessor::{level_at_indices, raw_levels, RawLevelAccessor};
use crate::ldtk::{Level, World};
use crate::refs::{points_to_each, points_to_option};
use crate::resources::LevelSelection;

verus! {

/// The first of `levels` that satisfies `pred`, if any.
pub open spec fn first_level_where(levels: Seq<Level>, pred: spec_fn(Level) -> bool) -> Option<
    Level,
>
    decreases levels.len(),
{
    if levels.len() == 0 {
        None
    } else if pred(levels[0]) {
        Some(levels[0])
    } else {
        first_level_where(levels.drop_first(), pred)
    }
}

/// Levels whose identifier is `identifier`.
pub open spec fn has_identifier(identifier: Seq<char>) -> spec_fn(Level) -> bool {
    |level: Level| level.identifier@ == identifier
}

/// Levels whose uid is `uid`.
pub open spec fn has_uid(uid: i32) -> spec_fn(Level) -> bool {
    |level: Level| level.uid == uid
}

/// The level that the metadata of `iid` points to, if there is such metadata and such a level.
pub open spec fn level_by_iid(
    root: Seq<Level>,
    worlds: Seq<World>,
    metadata: Map<Seq<char>, LevelMetadata>,
    iid: Seq<char>,
) -> Option<Level> {
    match metadata.get(iid) {
        Some(m) => level_at_indices(root, worlds, m.spec_indices()),
        None => None,
    }
}

/// The level that `selection` selects.
///
/// Iids are looked up in the level metadata, indices point directly to a level, and
/// identifiers and uids select the first level, root levels first, that has them.
pub open spec fn level_by_selection(
    root: Seq<Level>,
    worlds: Seq<World>,
    metadata: Map<Seq<char>, LevelMetadata>,
    selection: LevelSelection,
) -> Option<Level> {
    match selection {
        LevelSelection::Iid(iid) => level_by_iid(root, worlds, metadata, iid@),
        LevelSelection::Indices(indices) => level_at_indices(root, worlds, indices),
        LevelSelection::Identifier(identifier) => first_level_where(
            raw_levels(root, worlds),
            has_identifier(identifier@),
        ),
        LevelSelection::Uid(uid) => first_level_where(raw_levels(root, worlds), has_uid(uid)),
    }
}

/// The first level that satisfies a predicate that no other level satisfies is that level.
pub proof fn lemma_first_level_where_unique(
    levels: Seq<Level>,
    pred: spec_fn(Level) -> bool,
    k: int,
)
    requires
        0 <= k < levels.len(),
        pred(levels[k]),
        forall|j: int| 0 <= j < levels.len() && j != k ==> !pred(#[trigger] levels[j]),
    ensures
        first_level_where(levels, pred) == Some(levels[k]),
    decreases levels.len(),
{
    if k > 0 {
        assert(!pred(levels[0]));
        let rest = levels.drop_first();
        assert forall|j: int| 0 <= j < rest.len() && j != k - 1 implies !pred(#[trigger] rest[j]) by {
            assert(rest[j] == levels[j + 1]);
        }
        lemma_first_level_where_unique(rest, pred, k - 1);
    }
}

/// The first of `levels` satisfying the predicate, found by a linear scan.
fn find_first<'a>(
    levels: &Vec<&'a Level>,
    values: Ghost<Seq<Level>>,
    identifier: Option<&String>,
    uid: i32,
) -> (found: Option<&'a Level>)
    requires
        points_to_each(levels@, values@),
    ensures
        points_to_option(
            found,
            first_level_where(
                values@,
                match identifier {
                    Some(s) => has_identifier(s@),
                    None => has_uid(uid),
                },
            ),
        ),
{
    let ghost pred = match identifier {
        Some(s) => has_identifier(s@),
        None => has_uid(uid),
    };
    let mut i: usize = 0;
    assert(values@.skip(0) =~= values@);
    while i < levels.len()
        invariant
            i <= levels@.len(),
            points_to_each(levels@, values@),
            pred == (match identifier {
                Some(s) => has_identifier(s@),
                None => has_uid(uid),
            }),
            first_level_where(values@, pred) == first_level_where(values@.skip(i as int), pred),
        decreases levels@.len() - i,
    {
        let level = levels[i];
        assert(values@.skip(i as int).drop_first() =~= values@.skip(i + 1));
        assert(values@.skip(i as int)[0] == values@[i as int]);
        let matched = match identifier {
            Some(s) => level.identifier == *s,
            None => level.uid == uid,
        };
        if matched {
            return Some(level);
        }
        i = i + 1;
    }
    None
}

/// Convenience methods for types that store levels and level metadata.
pub trait LevelMetadataAccessor: RawLevelAccessor {
    /// The level metadata, by level iid.
    spec fn level_metadata_view(&self) -> Map<Seq<char>, LevelMetadata>;

    /// Returns a reference to the level metadata corresponding to the given level iid.
    fn get_level_metadata_by_iid(&self, iid: &String) -> (metadata: Option<&LevelMetadata>)
        ensures
            points_to_option(metadata, self.level_metadata_view().get(iid@)),
    ;

    /// Immutable access to a level at the given level iid.
    fn get_raw_level_by_iid(&self, iid: &String) -> (level: Option<&Level>)
        ensures
            points_to_option(
                level,
                level_by_iid(
                    self.root_levels_view(),
                    self.worlds_view(),
                    self.level_metadata_view(),
                    iid@,
                ),
            ),
    {
        match self.get_level_metadata_by_iid(iid) {
            Some(metadata) => self.get_raw_level_at_indices(metadata.indices()),
            None => None,
        }
    }

    /// Find the level matching the given [`LevelSelection`].
    ///
    /// [`LevelSelection::Iid`] is looked up in the level metadata and
    /// [`LevelSelection::Indices`] directly by index; the other variants go through the levels
    /// to find the match.
    fn find_raw_level_by_level_selection(&self, level_selection: &LevelSelection) -> (level:
        Option<&Level>)
        ensures
            points_to_option(
                level,
                level_by_selection(
                    self.root_levels_view(),
                    self.worlds_view(),
                    self.level_metadata_view(),
                    *level_selection,
                ),
            ),
    {
        match level_selection {
            LevelSelection::Iid(iid) => self.get_raw_level_by_iid(iid.get()),
            LevelSelection::Indices(indices) => self.get_raw_level_at_indices(indices),
            LevelSelection::Identifier(selected_identifier) => {
                let levels = self.iter_raw_levels();
                find_first(
                    &levels,
                    Ghost(raw_levels(self.root_levels_view(), self.worlds_view())),
                    Some(selected_identifier),
                    0,
                )
            },
            LevelSelection::Uid(selected_uid) => {
                let levels = self.iter_raw_levels();
                find_first(
                    &levels,
                    Ghost(raw_levels(self.root_levels_view(), self.worlds_view())),
                    None,
                    *selected_uid,
                )
            },
        }
    }
}

} // verus!
