use vstd::prelude::*;

verus! {

/// Component that stores a level's instance identifier.
#[derive(Clone, Debug, Default, Hash, Eq, PartialEq)]
pub struct LevelIid(String);

impl View for LevelIid {
    type V = Seq<char>;

    closed spec fn view(&self) -> Seq<char> {
        self.0@
    }
}

impl LevelIid {
    /// Creates a new [`LevelIid`] from a string.
    pub fn new(iid: String) -> (level_iid: LevelIid)
        ensures
            level_iid@ == iid@,
    {
        LevelIid(iid)
    }

    /// Immutable access to the IID as a `String`.
    pub fn get(&self) -> (iid: &String)
        ensures
            iid@ == self@,
    {
        &self.0
    }

    /// The IID as a `String`, as displaying it gives it.
    pub fn to_string(&self) -> (iid: String)
        ensures
            iid@ == self@,
    {
        self.0.clone()
    }

    /// Immutable access to the IID as a `&str`.
    pub fn as_str(&self) -> (iid: &str)
        ensures
            iid@ == self@,
    {
        self.0.as_str()
    }
}

impl AsRef<str> for LevelIid {
    fn as_ref(&self) -> &str {
        self.0.as_str()
    }
}

impl From<String> for LevelIid {
    fn from(value: String) -> (level_iid: LevelIid) {
        LevelIid(value)
    }
}

impl vstd::std_specs::convert::FromSpecImpl<String> for LevelIid {
    open spec fn obeys_from_spec() -> bool {
        true
    }

    closed spec fn from_spec(v: String) -> LevelIid {
        LevelIid(v)
    }
}

impl From<LevelIid> for String {
    fn from(value: LevelIid) -> (iid: String) {
        value.0
    }
}

impl vstd::std_specs::convert::FromSpecImpl<LevelIid> for String {
    open spec fn obeys_from_spec() -> bool {
        true
    }

    closed spec fn from_spec(v: LevelIid) -> String {
        v.0
    }
}

/// Converting a string to a [`LevelIid`] and back gives the string.
pub proof fn lemma_level_iid_from_string(s: String)
    ensures
        <LevelIid as vstd::std_specs::convert::FromSpec<String>>::from_spec(s)@ == s@,
        <String as vstd::std_specs::convert::FromSpec<LevelIid>>::from_spec(
            <LevelIid as vstd::std_specs::convert::FromSpec<String>>::from_spec(s),
        ) == s,
{
}

} // verus!
