//! The registry of connection profiles, by name.

use vstd::prelude::*;
use vstd::string::StringExecFns;
use crate::models::connection_config::ConnectionConfig;
use crate::models::connection_config::Profile;
use crate::text::text_eq;

verus! {

/// No two profiles have one name.
pub open spec fn names_unique(profiles: Seq<Profile>) -> bool {
    forall|i: int, j: int| 0 <= i < j < profiles.len() ==> profiles[i].name != profiles[j].name
}

/// Whether a profile of this name is among `profiles`.
pub open spec fn has_name(profiles: Seq<Profile>, name: Seq<char>) -> bool {
    exists|i: int| 0 <= i < profiles.len() && (#[trigger] profiles[i]).name == name
}

/// A place at which a profile of this name stands, where there is one. Where
/// names are unique it is the only one.
pub open spec fn place_of(profiles: Seq<Profile>, name: Seq<char>) -> int {
    choose|i: int| 0 <= i < profiles.len() && (#[trigger] profiles[i]).name == name
}

/// The profile at place `j` has the name of one before it.
pub open spec fn repeats(profiles: Seq<Profile>, j: int) -> bool {
    exists|i: int| 0 <= i < j && (#[trigger] profiles[i]).name == profiles[j].name
}

/// Place `j` is the first whose profile has the name of one before it.
pub open spec fn first_repeat(profiles: Seq<Profile>, j: int) -> bool {
    &&& 0 <= j < profiles.len()
    &&& repeats(profiles, j)
    &&& forall|k: int| 0 <= k < j ==> !repeats(profiles, k)
}

/// The mathematical form of a registry failure.
pub enum RegistryErrorView {
    DuplicateName(Seq<char>),
    NotFound(Seq<char>),
    PersistenceError(Seq<char>),
}

/// Why the registry refused a change.
#[derive(Debug, Clone, PartialEq, Eq)]
pub enum RegistryError {
    /// A profile of this name is registered already.
    DuplicateName(String),
    /// No profile of this name is registered.
    NotFound(String),
    /// The change could not be written down; the message is the store's own.
    PersistenceError(String),
}

impl DeepView for RegistryError {
    type V = RegistryErrorView;

    open spec fn deep_view(&self) -> RegistryErrorView {
        match *self {
            RegistryError::DuplicateName(name) => RegistryErrorView::DuplicateName(name@),
            RegistryError::NotFound(name) => RegistryErrorView::NotFound(name@),
            RegistryError::PersistenceError(text) => RegistryErrorView::PersistenceError(text@),
        }
    }
}

impl View for RegistryError {
    type V = RegistryErrorView;

    open spec fn view(&self) -> RegistryErrorView {
        self.deep_view()
    }
}

/// The text shown for a registry failure.
pub open spec fn registry_error_text(error: RegistryErrorView) -> Seq<char> {
    match error {
        RegistryErrorView::DuplicateName(name) => "Connection '"@ + name + "' already exists."@,
        RegistryErrorView::NotFound(name) => "Connection '"@ + name + "' not found."@,
        RegistryErrorView::PersistenceError(text) => "Failed to save connections: "@ + text,
    }
}

impl RegistryError {
    /// The text shown for the failure.
    pub fn message(&self) -> (r: String)
        ensures
            r@ == registry_error_text(self@),
    {
        match self {
            RegistryError::DuplicateName(name) => {
                let mut r = String::from_str("Connection '");
                r.append(name.as_str());
                r.append("' already exists.");
                r
            },
            RegistryError::NotFound(name) => {
                let mut r = String::from_str("Connection '");
                r.append(name.as_str());
                r.append("' not found.");
                r
            },
            RegistryError::PersistenceError(text) => {
                let mut r = String::from_str("Failed to save connections: ");
                r.append(text.as_str());
                r
            },
        }
    }
}

/// The registered connection profiles. No two have one name.
///
/// A change is made in three steps: the registry works out the list that the
/// change leads to, the caller writes that list down, and `commit` takes it
/// over if that went well. Until then the registry shows what it held before.
pub struct ConnectionRegistry {
    profiles: Vec<ConnectionConfig>,
}

impl View for ConnectionRegistry {
    type V = Seq<Profile>;

    closed spec fn view(&self) -> Seq<Profile> {
        self.profiles.deep_view()
    }
}

/// The first place among the first `limit` profiles that has this name, or
/// `limit`.
fn find_name(profiles: &Vec<ConnectionConfig>, name: &str, limit: usize) -> (i: usize)
    requires
        limit <= profiles.len(),
    ensures
        i <= limit,
        i < limit ==> profiles.deep_view()[i as int].name == name@,
        forall|j: int| 0 <= j < i ==> (#[trigger] profiles.deep_view()[j]).name != name@,
{
    let mut i: usize = 0;
    while i < limit
        invariant
            limit <= profiles.len(),
            i <= limit,
            forall|j: int| 0 <= j < i ==> (#[trigger] profiles.deep_view()[j]).name != name@,
        decreases limit - i,
    {
        if text_eq(profiles[i].name.as_str(), name) {
            return i;
        }
        i = i + 1;
    }
    limit
}

/// The first place whose profile has the name of one before it, or the
/// number of profiles where names are unique.
fn find_repeat(profiles: &Vec<ConnectionConfig>) -> (j: usize)
    ensures
        j <= profiles.len(),
        j == profiles.len() ==> names_unique(profiles.deep_view()),
        j < profiles.len() ==> first_repeat(profiles.deep_view(), j as int),
{
    let n: usize = profiles.len();
    let mut j: usize = 0;
    while j < n
        invariant
            n == profiles.len(),
            j <= n,
            forall|k: int| 0 <= k < j ==> !repeats(profiles.deep_view(), k),
        decreases n - j,
    {
        let i = find_name(profiles, profiles[j].name.as_str(), j);
        if i < j {
            return j;
        }
        j = j + 1;
    }
    proof {
        let s = profiles.deep_view();
        assert forall|a: int, b: int| 0 <= a < b < s.len() implies s[a].name != s[b].name by {
            assert(!repeats(s, b));
        }
    }
    n
}

/// A copy of the profiles.
fn copy_all(profiles: &Vec<ConnectionConfig>) -> (r: Vec<ConnectionConfig>)
    ensures
        r.deep_view() == profiles.deep_view(),
{
    let n: usize = profiles.len();
    let mut r: Vec<ConnectionConfig> = Vec::new();
    let mut i: usize = 0;
    while i < n
        invariant
            n == profiles.len(),
            i <= n,
            r.len() == i,
            forall|j: int| 0 <= j < i ==> (#[trigger] r[j])@ == profiles[j]@,
        decreases n - i,
    {
        r.push(profiles[i].duplicate());
        i = i + 1;
    }
    assert(r.deep_view() =~= profiles.deep_view());
    r
}

impl ConnectionRegistry {
    /// What holds of every registry.
    #[verifier::type_invariant]
    pub open spec fn well_formed(&self) -> bool {
        names_unique(self@)
    }

    /// A registry without profiles.
    pub fn new() -> (r: ConnectionRegistry)
        ensures
            r@ == Seq::<Profile>::empty(),
    {
        let r = ConnectionRegistry { profiles: Vec::new() };
        assert(r.profiles.deep_view() =~= Seq::<Profile>::empty());
        r
    }

    /// The registry of the profiles that were loaded. Where two of them have
    /// one name, the first name that comes a second time is reported.
    pub fn restore(profiles: Vec<ConnectionConfig>) -> (r: Result<
        ConnectionRegistry,
        RegistryError,
    >)
        ensures
            names_unique(profiles.deep_view()) ==> r is Ok && r->Ok_0@ == profiles.deep_view(),
            !names_unique(profiles.deep_view()) ==> r is Err && r->Err_0@ is DuplicateName && exists|
                j: int,
            |
                first_repeat(profiles.deep_view(), j) && r->Err_0@->DuplicateName_0
                    == profiles.deep_view()[j].name,
    {
        let j = find_repeat(&profiles);
        if j < profiles.len() {
            Err(RegistryError::DuplicateName(profiles[j].name.clone()))
        } else {
            Ok(ConnectionRegistry { profiles })
        }
    }
}

/// The registered profiles, in the order in which they were registered.
pub fn get_all_connection_configurations(registry: &ConnectionRegistry) -> (r: Vec<
    ConnectionConfig,
>)
    ensures
        r.deep_view() == registry@,
        names_unique(registry@),
{
    proof {
        use_type_invariant(registry);
    }
    copy_all(&registry.profiles)
}

/// Whether a profile of this name is registered.
pub fn connection_name_exists(registry: &ConnectionRegistry, name: &str) -> (r: bool)
    ensures
        r == has_name(registry@, name@),
{
    let i = find_name(&registry.profiles, name, registry.profiles.len());
    i < registry.profiles.len()
}

/// The list that registering `config` leads to: the registered profiles with
/// `config` at the end. A name that is registered already is refused.
pub fn create_connection_configuration(registry: &ConnectionRegistry, config: ConnectionConfig)
    -> (r: Result<Vec<ConnectionConfig>, RegistryError>)
    ensures
        has_name(registry@, config@.name) ==> r is Err && r->Err_0@
            == RegistryErrorView::DuplicateName(config@.name),
        !has_name(registry@, config@.name) ==> r is Ok && r->Ok_0.deep_view() == registry@.push(
            config@,
        ) && names_unique(r->Ok_0.deep_view()),
{
    proof {
        use_type_invariant(registry);
    }
    if connection_name_exists(registry, config.name.as_str()) {
        return Err(RegistryError::DuplicateName(config.name));
    }
    let mut next = copy_all(&registry.profiles);
    next.push(config);
    proof {
        assert(next.deep_view() =~= registry@.push(config@));
        let s = next.deep_view();
        assert forall|i: int, j: int| 0 <= i < j < s.len() implies s[i].name != s[j].name by {
            if j == registry@.len() {
                assert(registry@[i].name != config@.name);
            } else {
                assert(s[i] == registry@[i]);
                assert(s[j] == registry@[j]);
            }
        }
    }
    Ok(next)
}

/// The list that replacing the profile of `config`'s name by `config` leads
/// to. A name that is not registered is refused.
pub fn update_connection_configuration(registry: &ConnectionRegistry, config: ConnectionConfig)
    -> (r: Result<Vec<ConnectionConfig>, RegistryError>)
    ensures
        has_name(registry@, config@.name) ==> r is Ok && r->Ok_0.deep_view() == registry@.update(
            place_of(registry@, config@.name),
            config@,
        ) && names_unique(r->Ok_0.deep_view()),
        !has_name(registry@, config@.name) ==> r is Err && r->Err_0@
            == RegistryErrorView::NotFound(config@.name),
{
    proof {
        use_type_invariant(registry);
    }
    let i = find_name(&registry.profiles, config.name.as_str(), registry.profiles.len());
    if i == registry.profiles.len() {
        return Err(RegistryError::NotFound(config.name));
    }
    let mut next = copy_all(&registry.profiles);
    next.set(i, config);
    proof {
        let at = place_of(registry@, config@.name);
        assert(registry@[i as int].name == config@.name);
        assert(at == i);
        assert(next.deep_view() =~= registry@.update(i as int, config@));
        let s = next.deep_view();
        assert forall|a: int, b: int| 0 <= a < b < s.len() implies s[a].name != s[b].name by {
            assert(s[a].name == registry@[a].name);
            assert(s[b].name == registry@[b].name);
        }
    }
    Ok(next)
}

/// The list that removing the profile of this name leads to. A name that is
/// not registered is refused.
pub fn delete_connection_configuration(registry: &ConnectionRegistry, name: &str) -> (r: Result<
    Vec<ConnectionConfig>,
    RegistryError,
>)
    ensures
        has_name(registry@, name@) ==> r is Ok && r->Ok_0.deep_view() == registry@.remove(
            place_of(registry@, name@),
        ) && names_unique(r->Ok_0.deep_view()),
        !has_name(registry@, name@) ==> r is Err && r->Err_0@ == RegistryErrorView::NotFound(
            name@,
        ),
{
    proof {
        use_type_invariant(registry);
    }
    let i = find_name(&registry.profiles, name, registry.profiles.len());
    if i == registry.profiles.len() {
        return Err(RegistryError::NotFound(String::from_str(name)));
    }
    let mut next = copy_all(&registry.profiles);
    next.remove(i);
    proof {
        let at = place_of(registry@, name@);
        assert(registry@[i as int].name == name@);
        assert(at == i);
        assert(next.deep_view() =~= registry@.remove(i as int));
        let s = next.deep_view();
        assert forall|a: int, b: int| 0 <= a < b < s.len() implies s[a].name != s[b].name by {
            let a0 = if a < i { a } else { a + 1 };
            let b0 = if b < i { b } else { b + 1 };
            assert(s[a] == registry@[a0]);
            assert(s[b] == registry@[b0]);
        }
    }
    Ok(next)
}

impl ConnectionRegistry {
    /// Takes over the list that a change led to, once it is known whether the
    /// list was written down. Where it was not, the registry keeps what it
    /// held and reports the store's message; so it does, with the first name
    /// that comes a second time, for a list in which two profiles have one
    /// name.
    pub fn commit(&mut self, next: Vec<ConnectionConfig>, flushed: Result<(), String>) -> (r:
        Result<(), RegistryError>)
        ensures
            flushed is Err ==> final(self)@ == old(self)@ && r is Err && r->Err_0@
                == RegistryErrorView::PersistenceError(flushed->Err_0@),
            flushed is Ok && names_unique(next.deep_view()) ==> final(self)@ == next.deep_view()
                && r is Ok,
            flushed is Ok && !names_unique(next.deep_view()) ==> final(self)@ == old(self)@ && r is Err
                && r->Err_0@ is DuplicateName && exists|j: int|
                first_repeat(next.deep_view(), j) && r->Err_0@->DuplicateName_0
                    == next.deep_view()[j].name,
            names_unique(final(self)@),
    {
        proof {
            use_type_invariant(&*self);
        }
        match flushed {
            Err(message) => Err(RegistryError::PersistenceError(message)),
            Ok(_) => {
                let j = find_repeat(&next);
                if j < next.len() {
                    Err(RegistryError::DuplicateName(next[j].name.clone()))
                } else {
                    self.profiles = next;
                    Ok(())
                }
            },
        }
    }
}

} // verus!
