use vstd::prelude::*;

verus! {

/// Stable machine identity of a repository.
#[derive(Clone, Debug, Eq, Hash)]
pub struct RepositoryId {
    value: String,
}

impl View for RepositoryId {
    type V = Seq<char>;

    closed spec fn view(&self) -> Seq<char> {
        self.value@
    }
}

impl RepositoryId {
    pub fn new(value: &str) -> (id: Self)
        ensures
            id@ == value@,
    {
        RepositoryId { value: value.to_owned() }
    }

    pub fn from_string(value: String) -> (id: Self)
        ensures
            id@ == value@,
    {
        RepositoryId { value }
    }

    pub fn as_str(&self) -> (text: &str)
        ensures
            text@ == self@,
    {
        self.value.as_str()
    }

    /// A copy carrying the same opaque value.
    pub fn duplicate(&self) -> (id: Self)
        ensures
            id@ == self@,
            id == *self,
    {
        RepositoryId { value: self.value.clone() }
    }
}

impl PartialEq for RepositoryId {
    fn eq(&self, other: &Self) -> (equal: bool) {
        self.value == other.value
    }
}

impl vstd::std_specs::cmp::PartialEqSpecImpl for RepositoryId {
    open spec fn obeys_eq_spec() -> bool {
        true
    }

    open spec fn eq_spec(&self, other: &Self) -> bool {
        self@ == other@
    }
}

/// Stable identity of one filesystem location of a repository.
#[derive(Clone, Debug, Eq, Hash)]
pub struct LocationId {
    value: String,
}

impl View for LocationId {
    type V = Seq<char>;

    closed spec fn view(&self) -> Seq<char> {
        self.value@
    }
}

impl LocationId {
    pub fn new(value: &str) -> (id: Self)
        ensures
            id@ == value@,
    {
        LocationId { value: value.to_owned() }
    }

    pub fn from_string(value: String) -> (id: Self)
        ensures
            id@ == value@,
    {
        LocationId { value }
    }

    pub fn as_str(&self) -> (text: &str)
        ensures
            text@ == self@,
    {
        self.value.as_str()
    }

    /// A copy carrying the same opaque value.
    pub fn duplicate(&self) -> (id: Self)
        ensures
            id@ == self@,
            id == *self,
    {
        LocationId { value: self.value.clone() }
    }
}

impl PartialEq for LocationId {
    fn eq(&self, other: &Self) -> (equal: bool) {
        self.value == other.value
    }
}

impl vstd::std_specs::cmp::PartialEqSpecImpl for LocationId {
    open spec fn obeys_eq_spec() -> bool {
        true
    }

    open spec fn eq_spec(&self, other: &Self) -> bool {
        self@ == other@
    }
}

/// Stable identity of a working tree.
#[derive(Clone, Debug, Eq, Hash)]
pub struct WorktreeId {
    value: String,
}

impl View for WorktreeId {
    type V = Seq<char>;

    closed spec fn view(&self) -> Seq<char> {
        self.value@
    }
}

impl WorktreeId {
    pub fn new(value: &str) -> (id: Self)
        ensures
            id@ == value@,
    {
        WorktreeId { value: value.to_owned() }
    }

    pub fn from_string(value: String) -> (id: Self)
        ensures
            id@ == value@,
    {
        WorktreeId { value }
    }

    pub fn as_str(&self) -> (text: &str)
        ensures
            text@ == self@,
    {
        self.value.as_str()
    }

    /// A copy carrying the same opaque value.
    pub fn duplicate(&self) -> (id: Self)
        ensures
            id@ == self@,
            id == *self,
    {
        WorktreeId { value: self.value.clone() }
    }
}

impl PartialEq for WorktreeId {
    fn eq(&self, other: &Self) -> (equal: bool) {
        self.value == other.value
    }
}

impl vstd::std_specs::cmp::PartialEqSpecImpl for WorktreeId {
    open spec fn obeys_eq_spec() -> bool {
        true
    }

    open spec fn eq_spec(&self, other: &Self) -> bool {
        self@ == other@
    }
}

/// Identity of one observation run.
#[derive(Clone, Debug, Eq, Hash)]
pub struct ObservationRunId {
    value: String,
}

impl View for ObservationRunId {
    type V = Seq<char>;

    closed spec fn view(&self) -> Seq<char> {
        self.value@
    }
}

impl ObservationRunId {
    pub fn new(value: &str) -> (id: Self)
        ensures
            id@ == value@,
    {
        ObservationRunId { value: value.to_owned() }
    }

    pub fn from_string(value: String) -> (id: Self)
        ensures
            id@ == value@,
    {
        ObservationRunId { value }
    }

    pub fn as_str(&self) -> (text: &str)
        ensures
            text@ == self@,
    {
        self.value.as_str()
    }

    /// A copy carrying the same opaque value.
    pub fn duplicate(&self) -> (id: Self)
        ensures
            id@ == self@,
            id == *self,
    {
        ObservationRunId { value: self.value.clone() }
    }
}

impl PartialEq for ObservationRunId {
    fn eq(&self, other: &Self) -> (equal: bool) {
        self.value == other.value
    }
}

impl vstd::std_specs::cmp::PartialEqSpecImpl for ObservationRunId {
    open spec fn obeys_eq_spec() -> bool {
        true
    }

    open spec fn eq_spec(&self, other: &Self) -> bool {
        self@ == other@
    }
}

} // verus!
