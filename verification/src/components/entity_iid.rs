use vstd::prelude::*;

verus! {

/// Component added to all LDtk entities by default, holding the entity's instance identifier.
///
/// The `iid` stored in this component can be used to uniquely identify LDtk entities within a
/// project.
#[derive(Clone, Debug, Default, Hash, Eq, PartialEq)]
pub struct EntityIid(String);

impl View for EntityIid {
    type V = Seq<char>;

    closed spec fn view(&self) -> Seq<char> {
        self.0@
    }
}

impl EntityIid {
    /// Construct an [`EntityIid`].
    pub fn new(iid: String) -> (entity_iid: EntityIid)
        ensures
            entity_iid@ == iid@,
    {
        EntityIid(iid)
    }

    /// Returns the internal entity iid as a `&str`.
    pub fn as_str(&self) -> (iid: &str)
        ensures
            iid@ == self@,
    {
        self.0.as_str()
    }
}

impl From<String> for EntityIid {
    fn from(value: String) -> (entity_iid: EntityIid) {
        EntityIid(value)
    }
}

impl vstd::std_specs::convert::FromSpecImpl<String> for EntityIid {
    open spec fn obeys_from_spec() -> bool {
        true
    }

    closed spec fn from_spec(v: String) -> EntityIid {
        EntityIid(v)
    }
}

impl From<EntityIid> for String {
    fn from(value: EntityIid) -> (iid: String) {
        value.0
    }
}

impl vstd::std_specs::convert::FromSpecImpl<EntityIid> for String {
    open spec fn obeys_from_spec() -> bool {
        true
    }

    closed spec fn from_spec(v: EntityIid) -> String {
        v.0
    }
}

/// Converting a string to an [`EntityIid`] and back gives the string.
pub proof fn lemma_entity_iid_from_string(s: String)
    ensures
        <EntityIid as vstd::std_specs::convert::FromSpec<String>>::from_spec(s)@ == s@,
        <String as vstd::std_specs::convert::FromSpec<EntityIid>>::from_spec(
            <EntityIid as vstd::std_specs::convert::FromSpec<String>>::from_spec(s),
        ) == s,
{
}

} // verus!
