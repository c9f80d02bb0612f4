use vstd::prelude::*;
use vstd::string::StringExecFns;

verus! {

/// The one registry file version this library reads and writes.
pub const REGISTRY_VERSION: u32 = 1;

/// The persisted description of one service.
#[derive(Clone, Debug)]
pub struct ServiceDefinition {
    pub id: String,
    pub name: String,
    /// True once an artifact has been installed.
    pub ready: bool,
    /// When ready, a path relative to the service root through `bin/current`.
    pub binary_path: String,
    pub args: Vec<String>,
    /// Environment entries, keys unique.
    pub env: Vec<(String, String)>,
    pub auto_restart: bool,
    /// The restart budget; `None` means unbounded.
    pub restart_limit: Option<u32>,
    pub current_version: Option<String>,
    /// The allocated port, which is never persisted.
    pub port: Option<u16>,
}

/// The contents of the registry file.
#[derive(Clone, Debug)]
pub struct RegistryFile {
    pub version: u32,
    pub services: Vec<ServiceDefinition>,
}

/// Why a registry operation or load was refused.
#[derive(Clone, Copy, Debug, PartialEq, Eq, Structural)]
pub enum RegistryError {
    /// A definition with this id is already present.
    AlreadyExists,
    /// No definition has this id.
    NotFound,
    /// The file carries a version other than the supported one.
    UnsupportedVersion(u32),
    /// The file holds two definitions with one id.
    DuplicateId,
}

/// The value `auto_restart` takes when a stored definition leaves it out.
pub fn default_auto_restart() -> (r: bool)
    ensures
        r,
{
    true
}

/// No two definitions share an id.
pub open spec fn ids_unique(defs: Seq<ServiceDefinition>) -> bool {
    forall|i: int, j: int|
        0 <= i < defs.len() && 0 <= j < defs.len() && i != j ==> #[trigger] defs[i].id@
            != #[trigger] defs[j].id@
}

/// Some definition has id `id`.
pub open spec fn has_id(defs: Seq<ServiceDefinition>, id: Seq<char>) -> bool {
    exists|i: int| 0 <= i < defs.len() && #[trigger] defs[i].id@ == id
}

/// What loading a file with this version and these definitions yields.
pub open spec fn load_result(version: u32, services: Seq<ServiceDefinition>) -> Result<
    Seq<ServiceDefinition>,
    RegistryError,
> {
    if version != REGISTRY_VERSION {
        Err(RegistryError::UnsupportedVersion(version))
    } else if !ids_unique(services) {
        Err(RegistryError::DuplicateId)
    } else {
        Ok(services)
    }
}

/// The in-memory registry: an ordered sequence of definitions and the path of
/// the file it is persisted to.
pub struct RegistryManager {
    path: String,
    definitions: Vec<ServiceDefinition>,
}

impl RegistryManager {
    /// The definitions, in order.
    pub closed spec fn defs(&self) -> Seq<ServiceDefinition> {
        self.definitions@
    }

    /// The path of the backing file.
    pub closed spec fn file_path(&self) -> Seq<char> {
        self.path@
    }

    /// Ids are unique.
    pub open spec fn wf(&self) -> bool {
        ids_unique(self.defs())
    }

    /// An empty registry persisted at `path`.
    pub fn new(path: String) -> (r: Self)
        ensures
            r.wf(),
            r.defs() == Seq::<ServiceDefinition>::empty(),
            r.file_path() == path@,
    {
        RegistryManager { path, definitions: Vec::new() }
    }

    /// The contents of a fresh registry file.
    pub fn empty_file() -> (r: RegistryFile)
        ensures
            r.version == REGISTRY_VERSION,
            r.services@.len() == 0,
    {
        RegistryFile { version: REGISTRY_VERSION, services: Vec::new() }
    }

    fn find(defs: &Vec<ServiceDefinition>, id: &String) -> (r: Option<usize>)
        ensures
            r.is_none() == !has_id(defs@, id@),
            r.is_some() ==> r.unwrap() < defs@.len() && defs@[r.unwrap() as int].id@ == id@,
    {
        let mut i: usize = 0;
        while i < defs.len()
            invariant
                i <= defs@.len(),
                forall|k: int| 0 <= k < i ==> #[trigger] defs@[k].id@ != id@,
            decreases defs@.len() - i,
        {
            if defs[i].id == *id {
                return Some(i);
            }
            i = i + 1;
        }
        None
    }

    fn check_unique(defs: &Vec<ServiceDefinition>) -> (r: bool)
        ensures
            r == ids_unique(defs@),
    {
        let mut i: usize = 0;
        while i < defs.len()
            invariant
                i <= defs@.len(),
                forall|a: int, b: int|
                    0 <= a < i && 0 <= b < defs@.len() && a != b ==> #[trigger] defs@[a].id@
                        != #[trigger] defs@[b].id@,
            decreases defs@.len() - i,
        {
            let mut j: usize = 0;
            while j < defs.len()
                invariant
                    i < defs@.len(),
                    j <= defs@.len(),
                    forall|a: int, b: int|
                        0 <= a < i && 0 <= b < defs@.len() && a != b ==> #[trigger] defs@[a].id@
                            != #[trigger] defs@[b].id@,
                    forall|b: int| 0 <= b < j && b != i ==> defs@[i as int].id@ != #[trigger] defs@[b].id@,
                decreases defs@.len() - j,
            {
                if j != i && defs[i].id == defs[j].id {
                    return false;
                }
                j = j + 1;
            }
            i = i + 1;
        }
        true
    }

    /// Takes a parsed registry file: any version but the supported one is
    /// refused, and so is a file in which two definitions share an id.
    pub fn from_file(path: String, file: RegistryFile) -> (r: Result<Self, RegistryError>)
        ensures
            match load_result(file.version, file.services@) {
                Ok(defs) => r.is_ok() && r.unwrap().defs() == defs && r.unwrap().file_path()
                    == path@ && r.unwrap().wf(),
                Err(e) => r == Err::<Self, RegistryError>(e),
            },
    {
        if file.version != REGISTRY_VERSION {
            return Err(RegistryError::UnsupportedVersion(file.version));
        }
        if !Self::check_unique(&file.services) {
            return Err(RegistryError::DuplicateId);
        }
        Ok(RegistryManager { path, definitions: file.services })
    }

    /// The path of the backing file.
    pub fn path(&self) -> (r: &String)
        ensures
            r@ == self.file_path(),
    {
        &self.path
    }

    /// All definitions, in order.
    pub fn list_definitions(&self) -> (r: &[ServiceDefinition])
        ensures
            r@ == self.defs(),
    {
        self.definitions.as_slice()
    }

    /// Mutable access to the definitions; the caller keeps ids unique.
    pub fn list_definitions_mut(&mut self) -> (r: &mut Vec<ServiceDefinition>)
        ensures
            r@ == old(self).defs(),
            final(r)@ == final(self).defs(),
            final(self).file_path() == old(self).file_path(),
    {
        &mut self.definitions
    }

    /// Appends a definition; refused when its id is taken.
    pub fn add(&mut self, def: ServiceDefinition) -> (r: Result<(), RegistryError>)
        requires
            old(self).wf(),
        ensures
            final(self).wf(),
            final(self).file_path() == old(self).file_path(),
            r is Err <==> has_id(old(self).defs(), def.id@),
            r is Err ==> r == Err::<(), RegistryError>(RegistryError::AlreadyExists)
                && final(self).defs() == old(self).defs(),
            r is Ok ==> final(self).defs() == old(self).defs().push(def),
    {
        if Self::find(&self.definitions, &def.id).is_some() {
            return Err(RegistryError::AlreadyExists);
        }
        self.definitions.push(def);
        Ok(())
    }

    /// Replaces the definition with id `id`. Refused when no definition has
    /// that id, or when `def` carries another id that a third definition holds.
    pub fn update(&mut self, id: &String, def: ServiceDefinition) -> (r: Result<(), RegistryError>)
        requires
            old(self).wf(),
        ensures
            final(self).wf(),
            final(self).file_path() == old(self).file_path(),
            !has_id(old(self).defs(), id@) ==> r == Err::<(), RegistryError>(RegistryError::NotFound),
            has_id(old(self).defs(), id@) && def.id@ != id@ && has_id(old(self).defs(), def.id@)
                ==> r == Err::<(), RegistryError>(RegistryError::AlreadyExists),
            r is Err ==> final(self).defs() == old(self).defs(),
            r is Ok <==> has_id(old(self).defs(), id@) && (def.id@ == id@ || !has_id(
                old(self).defs(),
                def.id@,
            )),
            r is Ok ==> exists|i: int|
                0 <= i < old(self).defs().len() && old(self).defs()[i].id@ == id@
                    && final(self).defs() == old(self).defs().update(i, def),
    {
        match Self::find(&self.definitions, id) {
            None => Err(RegistryError::NotFound),
            Some(i) => {
                if def.id != *id && Self::find(&self.definitions, &def.id).is_some() {
                    return Err(RegistryError::AlreadyExists);
                }
                let ghost old_defs = self.definitions@;
                self.definitions.set(i, def);
                assert forall|a: int, b: int|
                    0 <= a < self.definitions@.len() && 0 <= b < self.definitions@.len() && a
                        != b implies #[trigger] self.definitions@[a].id@
                        != #[trigger] self.definitions@[b].id@ by {
                    if a != i as int && b != i as int {
                        assert(old_defs[a] == self.definitions@[a]);
                        assert(old_defs[b] == self.definitions@[b]);
                    } else if a == i as int {
                        assert(old_defs[b] == self.definitions@[b]);
                    } else {
                        assert(old_defs[a] == self.definitions@[a]);
                    }
                }
                Ok(())
            },
        }
    }

    /// Records the install of `version`, whose binary is `name`, on the
    /// definition with id `id`; returns whether there is one.
    pub fn record_install(&mut self, id: &String, version: String, name: &String) -> (r: bool)
        requires
            old(self).wf(),
        ensures
            final(self).wf(),
            final(self).file_path() == old(self).file_path(),
            r == has_id(old(self).defs(), id@),
            !r ==> final(self).defs() == old(self).defs(),
            r ==> exists|i: int|
                0 <= i < old(self).defs().len() && old(self).defs()[i].id@ == id@
                    && final(self).defs().len() == old(self).defs().len()
                    && installed(old(self).defs()[i], final(self).defs()[i], version@, name@)
                    && forall|k: int| 0 <= k < old(self).defs().len() && k != i
                        ==> final(self).defs()[k] == old(self).defs()[k],
    {
        match Self::find(&self.definitions, id) {
            None => false,
            Some(i) => {
                let ghost old_defs = self.definitions@;
                let d = &mut self.definitions[i];
                if d.binary_path.as_str().is_empty() {
                    proof {
                        reveal_strlit("bin/current/");
                    }
                    d.binary_path = String::from_str("bin/current/").concat(name.as_str());
                }
                d.current_version = Some(version);
                d.ready = true;
                assert forall|a: int, b: int|
                    0 <= a < self.definitions@.len() && 0 <= b < self.definitions@.len() && a
                        != b implies #[trigger] self.definitions@[a].id@
                        != #[trigger] self.definitions@[b].id@ by {
                    assert(old_defs[a].id@ == self.definitions@[a].id@);
                    assert(old_defs[b].id@ == self.definitions@[b].id@);
                }
                true
            },
        }
    }

    /// The definition with id `id`, if any.
    pub fn get(&self, id: &String) -> (r: Option<&ServiceDefinition>)
        ensures
            r.is_none() == !has_id(self.defs(), id@),
            r.is_some() ==> r.unwrap().id@ == id@ && exists|i: int|
                0 <= i < self.defs().len() && self.defs()[i] == *r.unwrap(),
    {
        match Self::find(&self.definitions, id) {
            Some(i) => {
                let d = &self.definitions[i];
                assert(self.defs()[i as int] == *d);
                Some(d)
            },
            None => None,
        }
    }

    /// Removes the definition with id `id`; refused when there is none.
    pub fn remove(&mut self, id: &String) -> (r: Result<(), RegistryError>)
        requires
            old(self).wf(),
        ensures
            final(self).wf(),
            final(self).file_path() == old(self).file_path(),
            r is Err <==> !has_id(old(self).defs(), id@),
            r is Err ==> r == Err::<(), RegistryError>(RegistryError::NotFound)
                && final(self).defs() == old(self).defs(),
            r is Ok ==> exists|i: int|
                0 <= i < old(self).defs().len() && old(self).defs()[i].id@ == id@
                    && final(self).defs() == old(self).defs().remove(i),
            !has_id(final(self).defs(), id@),
    {
        match Self::find(&self.definitions, id) {
            None => Err(RegistryError::NotFound),
            Some(i) => {
                let ghost old_defs = self.definitions@;
                self.definitions.remove(i);
                assert(self.definitions@ == old_defs.remove(i as int));
                assert forall|a: int, b: int|
                    0 <= a < self.definitions@.len() && 0 <= b < self.definitions@.len() && a
                        != b implies #[trigger] self.definitions@[a].id@
                        != #[trigger] self.definitions@[b].id@ by {
                    let oa = if a < i { a } else { a + 1 };
                    let ob = if b < i { b } else { b + 1 };
                    assert(old_defs[oa] == self.definitions@[a]);
                    assert(old_defs[ob] == self.definitions@[b]);
                }
                assert forall|k: int| 0 <= k < self.definitions@.len() implies #[trigger] self.definitions@[k].id@ != id@ by {
                    let ok = if k < i { k } else { k + 1 };
                    assert(old_defs[ok] == self.definitions@[k]);
                }
                Ok(())
            },
        }
    }
}

/// Saving a well-formed registry and loading the file back yields the same
/// definitions.
pub proof fn lemma_registry_round_trip(r: RegistryManager)
    requires
        r.wf(),
    ensures
        load_result(REGISTRY_VERSION, r.defs()) == Ok::<Seq<ServiceDefinition>, RegistryError>(r.defs()),
{
}


/// The definition of a service just created by `init`: not ready, no binary,
/// no arguments or environment, restarted without bound.
pub open spec fn fresh_definition(d: ServiceDefinition, id: Seq<char>, name: Seq<char>) -> bool {
    &&& d.id@ == id
    &&& d.name@ == name
    &&& !d.ready
    &&& d.binary_path@.len() == 0
    &&& d.args@.len() == 0
    &&& d.env@.len() == 0
    &&& d.auto_restart
    &&& d.restart_limit is None
    &&& d.current_version is None
    &&& d.port is None
}

/// The binary path of an installed artifact named `name`.
pub open spec fn current_binary_path(name: Seq<char>) -> Seq<char> {
    "bin/current/"@ + name
}

/// `after` is `before` once `version` is installed with binary `name`: the
/// version is recorded, the binary path is set when it was empty, and the
/// service is ready; nothing else changes.
pub open spec fn installed(
    before: ServiceDefinition,
    after: ServiceDefinition,
    version: Seq<char>,
    name: Seq<char>,
) -> bool {
    &&& after == (ServiceDefinition {
        current_version: after.current_version,
        binary_path: after.binary_path,
        ready: true,
        ..before
    })
    &&& after.current_version is Some
    &&& after.current_version.unwrap()@ == version
    &&& after.binary_path@ == if before.binary_path@.len() == 0 {
        current_binary_path(name)
    } else {
        before.binary_path@
    }
}

/// What `configure` replaces of a definition.
pub struct ConfigureServiceRequest {
    pub env: Vec<(String, String)>,
    pub args: Vec<String>,
    pub auto_restart: Option<bool>,
    pub restart_limit: Option<u32>,
}

impl ServiceDefinition {
    /// The definition of a new, empty service.
    pub fn fresh(id: String, name: String) -> (r: Self)
        ensures
            fresh_definition(r, id@, name@),
    {
        ServiceDefinition {
            id,
            name,
            ready: false,
            binary_path: String::new(),
            args: Vec::new(),
            env: Vec::new(),
            auto_restart: true,
            restart_limit: None,
            current_version: None,
            port: None,
        }
    }

    /// The definition with environment, arguments and restart limit replaced,
    /// and `auto_restart` replaced when the request gives it.
    pub fn configured(self, req: ConfigureServiceRequest) -> (r: Self)
        ensures
            r == (ServiceDefinition {
                env: req.env,
                args: req.args,
                auto_restart: match req.auto_restart {
                    Some(b) => b,
                    None => self.auto_restart,
                },
                restart_limit: req.restart_limit,
                ..self
            }),
    {
        let auto_restart = match req.auto_restart {
            Some(b) => b,
            None => self.auto_restart,
        };
        ServiceDefinition {
            env: req.env,
            args: req.args,
            auto_restart,
            restart_limit: req.restart_limit,
            ..self
        }
    }
}

} // verus!
