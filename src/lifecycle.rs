use crate::manager::SupervisorManager;
use crate::ports::{
    allocations_wf, exhausted, has_key, lemma_port_of_entry, lowest_free, port_of, PortError,
    PortManager,
};
use crate::registry::{has_id, RegistryManager, ServiceDefinition};
use crate::service::{env_with, log_path_of, plain_env, port_var, Service};
use crate::state::ServiceState;
use crate::text::{blank, decimal, derive_service_id, is_blank, join3, last_segment, lower_of, slug, file_name_of};
use vstd::prelude::*;
use vstd::string::StrSliceExecFns;
use vstd::string::StringExecFns;

verus! {

/// Why a new service was refused.
#[derive(Clone, Copy, Debug, PartialEq, Eq, Structural)]
pub enum InitError {
    /// The name is empty or white space.
    NameRequired,
    /// The id, given or derived, is empty.
    IdRequired,
    /// A service with this id exists.
    AlreadyExists,
    /// The id holds no port and every port of the range is taken.
    PortsExhausted,
}

/// Why a lifecycle call on an existing service was refused.
#[derive(Clone, Copy, Debug, PartialEq, Eq, Structural)]
pub enum ControlError {
    /// No definition has this id.
    NotFound,
    /// The service has no artifact installed yet.
    NotReady,
    /// The service is not registered with the manager.
    NotRegistered,
}

/// The directory of a service under the data directory.
pub open spec fn service_root_of(data_dir: Seq<char>, id: Seq<char>) -> Seq<char> {
    data_dir + "/services/"@ + id
}

/// `<data_dir>/services/<id>`.
pub fn service_root(data_dir: &String, id: &String) -> (r: String)
    ensures
        r@ == service_root_of(data_dir@, id@),
{
    join3(data_dir.as_str(), "/services/", id.as_str())
}

/// The id a new service gets: the one requested, or else one derived from its
/// name. A blank name or an empty id is refused.
pub open spec fn resolved_id(name: Seq<char>, requested: Option<Seq<char>>) -> Result<Seq<char>, InitError> {
    if blank(name) {
        Err(InitError::NameRequired)
    } else {
        let id = match requested {
            Some(r) => r,
            None => slug(lower_of(name)),
        };
        if id.len() == 0 {
            Err(InitError::IdRequired)
        } else {
            Ok(id)
        }
    }
}

/// The text of an optional string.
pub open spec fn opt_text(o: Option<String>) -> Option<Seq<char>> {
    match o {
        Some(s) => Some(s@),
        None => None,
    }
}

/// Validates the name of a new service and settles its id.
pub fn resolve_service_id(name: &String, requested: Option<String>) -> (r: Result<String, InitError>)
    ensures
        match resolved_id(name@, opt_text(requested)) {
            Ok(id) => r is Ok && r.unwrap()@ == id,
            Err(e) => r == Err::<String, InitError>(e),
        },
{
    if is_blank(name.as_str()) {
        return Err(InitError::NameRequired);
    }
    let id = match requested {
        Some(r) => r,
        None => derive_service_id(name.as_str()),
    };
    if id.as_str().is_empty() {
        Err(InitError::IdRequired)
    } else {
        Ok(id)
    }
}

/// Adds `def` to the registry with a port of its own. A taken id is refused
/// with nothing changed; so is an id without a port when the range is full.
/// Otherwise the id keeps the port it holds, or gets the lowest free one, and
/// the definition is appended.
pub fn admit_service(registry: &mut RegistryManager, ports: &mut PortManager, def: ServiceDefinition) -> (r: Result<u16, InitError>)
    requires
        old(registry).wf(),
        old(ports).wf(),
    ensures
        final(registry).wf(),
        final(ports).wf(),
        final(registry).file_path() == old(registry).file_path(),
        final(ports).file_path() == old(ports).file_path(),
        final(ports).range_start() == old(ports).range_start(),
        final(ports).range_end() == old(ports).range_end(),
        has_id(old(registry).defs(), def.id@) ==> r == Err::<u16, InitError>(InitError::AlreadyExists),
        !has_id(old(registry).defs(), def.id@) && (port_of(old(ports).allocs(), def.id@) is Some
            || !exhausted(old(ports).allocs(), old(ports).range_start(), old(ports).range_end()))
            ==> r is Ok,
        !has_id(old(registry).defs(), def.id@) && port_of(old(ports).allocs(), def.id@) is None
            && exhausted(old(ports).allocs(), old(ports).range_start(), old(ports).range_end())
            ==> r == Err::<u16, InitError>(InitError::PortsExhausted),
        r is Err ==> final(registry).defs() == old(registry).defs() && final(ports).allocs()
            == old(ports).allocs(),
        r is Ok ==> {
            &&& final(registry).defs() == old(registry).defs().push(def)
            &&& port_of(final(ports).allocs(), def.id@) == Some(r.unwrap())
            &&& port_of(old(ports).allocs(), def.id@) is Some ==> r.unwrap() == port_of(
                old(ports).allocs(),
                def.id@,
            ).unwrap() && final(ports).allocs() == old(ports).allocs()
            &&& port_of(old(ports).allocs(), def.id@) is None ==> lowest_free(
                old(ports).allocs(),
                old(ports).range_start(),
                old(ports).range_end(),
                r.unwrap(),
            ) && final(ports).allocs() == old(ports).allocs().push((def.id@, r.unwrap()))
        },
{
    if registry.get(&def.id).is_some() {
        return Err(InitError::AlreadyExists);
    }
    let port = match ports.allocate(&def.id) {
        Ok(p) => p,
        Err(_) => return Err(InitError::PortsExhausted),
    };
    let added = registry.add(def);
    assert(added is Ok);
    Ok(port)
}

/// Creates the registry entry and port of a new, empty service.
pub fn init_service(registry: &mut RegistryManager, ports: &mut PortManager, id: String, name: String) -> (r: Result<u16, InitError>)
    requires
        old(registry).wf(),
        old(ports).wf(),
    ensures
        final(registry).wf(),
        final(ports).wf(),
        final(registry).file_path() == old(registry).file_path(),
        final(ports).file_path() == old(ports).file_path(),
        final(ports).range_start() == old(ports).range_start(),
        final(ports).range_end() == old(ports).range_end(),
        has_id(old(registry).defs(), id@) ==> r == Err::<u16, InitError>(InitError::AlreadyExists),
        !has_id(old(registry).defs(), id@) && (port_of(old(ports).allocs(), id@) is Some
            || !exhausted(old(ports).allocs(), old(ports).range_start(), old(ports).range_end()))
            ==> r is Ok,
        !has_id(old(registry).defs(), id@) && port_of(old(ports).allocs(), id@) is None && exhausted(
            old(ports).allocs(),
            old(ports).range_start(),
            old(ports).range_end(),
        ) ==> r == Err::<u16, InitError>(InitError::PortsExhausted),
        r is Err ==> final(registry).defs() == old(registry).defs() && final(ports).allocs()
            == old(ports).allocs(),
        r is Ok ==> {
            &&& final(registry).defs().len() == old(registry).defs().len() + 1
            &&& final(registry).defs().drop_last() == old(registry).defs()
            &&& crate::registry::fresh_definition(final(registry).defs().last(), id@, name@)
            &&& port_of(final(ports).allocs(), id@) == Some(r.unwrap())
            &&& port_of(old(ports).allocs(), id@) is Some ==> final(ports).allocs() == old(
                ports,
            ).allocs()
            &&& port_of(old(ports).allocs(), id@) is None ==> lowest_free(
                old(ports).allocs(),
                old(ports).range_start(),
                old(ports).range_end(),
                r.unwrap(),
            ) && final(ports).allocs() == old(ports).allocs().push((id@, r.unwrap()))
        },
{
    let def = ServiceDefinition::fresh(id, name);
    let r = admit_service(registry, ports, def);
    proof {
        if r is Ok {
            assert(registry.defs().drop_last() =~= old(registry).defs());
        }
    }
    r
}

/// Removes every trace of service `id` from the registry, the port
/// allocations and the manager, and hands back the handle of a supervisor
/// still running for it. Refused, with nothing changed, when the registry has
/// no such id.
pub fn delete_service<S, H>(
    registry: &mut RegistryManager,
    ports: &mut PortManager,
    manager: &mut SupervisorManager<S, H>,
    id: &String,
) -> (r: Result<Option<H>, ControlError>)
    requires
        old(registry).wf(),
        old(ports).wf(),
        old(manager).wf(),
    ensures
        final(registry).wf(),
        final(ports).wf(),
        final(manager).wf(),
        final(registry).file_path() == old(registry).file_path(),
        final(ports).file_path() == old(ports).file_path(),
        final(ports).range_start() == old(ports).range_start(),
        final(ports).range_end() == old(ports).range_end(),
        r is Err <==> !has_id(old(registry).defs(), id@),
        r is Err ==> r == Err::<Option<H>, ControlError>(ControlError::NotFound) && final(registry).defs()
            == old(registry).defs() && final(ports).allocs() == old(ports).allocs()
            && final(manager).registered() == old(manager).registered()
            && final(manager).running() == old(manager).running(),
        r is Ok ==> {
            &&& exists|i: int|
                0 <= i < old(registry).defs().len() && old(registry).defs()[i].id@ == id@
                    && final(registry).defs() == old(registry).defs().remove(i)
            &&& !has_key(old(ports).allocs(), id@) ==> final(ports).allocs() == old(ports).allocs()
            &&& has_key(old(ports).allocs(), id@) ==> exists|j: int|
                0 <= j < old(ports).allocs().len() && old(ports).allocs()[j].0 == id@
                    && final(ports).allocs() == old(ports).allocs().remove(j)
            &&& port_of(final(ports).allocs(), id@) is None
            &&& !has_id(final(registry).defs(), id@)
            &&& !final(manager).service_ids().contains(id@)
            &&& !final(manager).running_ids().contains(id@)
            &&& r.unwrap() is Some == old(manager).running_ids().contains(id@)
        },
        old(manager).supervised_registered() ==> final(manager).supervised_registered(),
{
    if registry.get(id).is_none() {
        return Err(ControlError::NotFound);
    }
    ports.deallocate(id);
    let handle = match manager.stop(id) {
        Ok(h) => Some(h),
        Err(_) => None,
    };
    let _ = manager.unregister_service(id);
    let removed = registry.remove(id);
    assert(removed is Ok);
    Ok(handle)
}

/// Whether a definition is ready.
pub open spec fn is_ready() -> spec_fn(ServiceDefinition) -> bool {
    |d: ServiceDefinition| d.ready
}

/// The ready definitions, in order.
pub open spec fn ready_defs(defs: Seq<ServiceDefinition>) -> Seq<ServiceDefinition> {
    defs.filter(is_ready())
}

/// `s` is the runtime service of `d` with port `port`, rooted under `data_dir`.
pub open spec fn materialized(s: Service, d: ServiceDefinition, port: u16, data_dir: Seq<char>) -> bool {
    &&& s.id == d.id
    &&& s.name == d.name
    &&& s.binary_path == d.binary_path
    &&& s.args@ == d.args@
    &&& plain_env(s.env@) == env_with(plain_env(d.env@), port_var(), decimal(port as nat))
    &&& s.auto_restart == d.auto_restart
    &&& s.restart_limit == d.restart_limit
    &&& s.working_dir@ == service_root_of(data_dir, d.id@)
    &&& s.state == ServiceState::Stopped
    &&& s.pid is None
    &&& s.log_buffer.wf()
    &&& s.log_buffer.ring().len() == 0
    &&& s.log_buffer.file_path() == log_path_of(s.working_dir@)
}

proof fn lemma_port_of_kept(a: Seq<(Seq<char>, u16)>, start: u16, end: u16, id: Seq<char>, p: u16, x: Seq<char>)
    requires
        allocations_wf(a, start, end),
        allocations_wf(a.push((id, p)), start, end),
        !has_key(a, id),
        port_of(a, x) is Some,
    ensures
        port_of(a.push((id, p)), x) == port_of(a, x),
{
    let k = choose|k: int| 0 <= k < a.len() && #[trigger] a[k].0 == x;
    lemma_port_of_entry(a, start, end, k);
    let b = a.push((id, p));
    assert(b[k] == a[k]);
    lemma_port_of_entry(b, start, end, k);
}

/// The runtime services of the ready definitions, in order, each with `PORT`
/// set to the port it holds, which it gets now if it holds none. Fails only
/// when a ready service holds no port and the range is full.
pub fn bootstrap_services(registry: &RegistryManager, ports: &mut PortManager, data_dir: &String) -> (r: Result<Vec<Service>, PortError>)
    requires
        registry.wf(),
        old(ports).wf(),
    ensures
        final(ports).wf(),
        final(ports).file_path() == old(ports).file_path(),
        final(ports).range_start() == old(ports).range_start(),
        final(ports).range_end() == old(ports).range_end(),
        forall|x: Seq<char>| port_of(old(ports).allocs(), x) is Some ==> #[trigger] port_of(final(ports).allocs(), x)
            == port_of(old(ports).allocs(), x),
        (forall|k: int| 0 <= k < ready_defs(registry.defs()).len() ==> #[trigger] port_of(
            old(ports).allocs(),
            ready_defs(registry.defs())[k].id@,
        ) is Some) ==> r is Ok,
        (forall|k: int| 0 <= k < ready_defs(registry.defs()).len() ==> #[trigger] port_of(
            old(ports).allocs(),
            ready_defs(registry.defs())[k].id@,
        ) is Some) ==> final(ports).allocs() == old(ports).allocs(),
        r is Err ==> exhausted(final(ports).allocs(), final(ports).range_start(), final(ports).range_end()),
        r is Err ==> r == Err::<Vec<Service>, PortError>(PortError::RangeExhausted) && exists|k: int|
            0 <= k < ready_defs(registry.defs()).len() && #[trigger] port_of(
                old(ports).allocs(),
                ready_defs(registry.defs())[k].id@,
            ) is None,
        r is Ok ==> {
            &&& r.unwrap()@.len() == ready_defs(registry.defs()).len()
            &&& forall|k: int|
                0 <= k < r.unwrap()@.len() ==> #[trigger] port_of(final(ports).allocs(), ready_defs(registry.defs())[k].id@) is Some
                    && materialized(
                    r.unwrap()@[k],
                    ready_defs(registry.defs())[k],
                    port_of(final(ports).allocs(), ready_defs(registry.defs())[k].id@).unwrap(),
                    data_dir@,
                )
        },
{
    let defs = registry.list_definitions();
    let ghost all = registry.defs();
    let ghost a0 = ports.allocs();
    let mut out: Vec<Service> = Vec::new();
    let mut i: usize = 0;
    while i < defs.len()
        invariant
            defs@ == all,
            all == registry.defs(),
            i <= all.len(),
            ports.wf(),
            ports.file_path() == old(ports).file_path(),
            ports.range_start() == old(ports).range_start(),
            ports.range_end() == old(ports).range_end(),
            a0 == old(ports).allocs(),
            forall|x: Seq<char>| port_of(a0, x) is Some ==> #[trigger] port_of(ports.allocs(), x) == port_of(a0, x),
            (forall|k: int| 0 <= k < ready_defs(all).len() ==> #[trigger] port_of(a0, ready_defs(all)[k].id@) is Some)
                ==> ports.allocs() == a0,
            out@.len() == ready_defs(all.subrange(0, i as int)).len(),
            forall|k: int|
                0 <= k < out@.len() ==> #[trigger] port_of(ports.allocs(), ready_defs(all.subrange(0, i as int))[k].id@) is Some
                    && materialized(
                    out@[k],
                    ready_defs(all.subrange(0, i as int))[k],
                    port_of(ports.allocs(), ready_defs(all.subrange(0, i as int))[k].id@).unwrap(),
                    data_dir@,
                ),
        decreases all.len() - i,
    {
        let ghost prefix = ready_defs(all.subrange(0, i as int));
        let ghost next = all.subrange(0, i + 1);
        assert(next.drop_last() =~= all.subrange(0, i as int));
        assert(next.last() == all[i as int]);
        proof {
            reveal(Seq::filter);
        }
        let def = &defs[i];
        if def.ready {
            assert(ready_defs(next) == prefix.push(all[i as int]));
            let ghost before = ports.allocs();
            proof {
                lemma_ready_prefix(all, (i + 1) as int, prefix.len() as int);
                assert(ready_defs(next)[prefix.len() as int] == all[i as int]);
                let m = choose|m: int|
                    0 <= m < ready_defs(all).len() && ready_defs(all)[m] == ready_defs(next)[prefix.len() as int];
                if forall|k: int| 0 <= k < ready_defs(all).len() ==> #[trigger] port_of(a0, ready_defs(all)[k].id@) is Some {
                    assert(port_of(a0, ready_defs(all)[m].id@) is Some);
                    assert(port_of(before, def.id@) == port_of(a0, def.id@));
                }
            }
            let port = match ports.allocate(&def.id) {
                Ok(p) => p,
                Err(e) => {
                    proof {
                        let k = prefix.len() as int;
                        assert(ready_defs(next)[k] == all[i as int]);
                        assert(port_of(before, all[i as int].id@) is None);
                        if port_of(a0, all[i as int].id@) is Some {
                            assert(port_of(before, all[i as int].id@) == port_of(a0, all[i as int].id@));
                        }
                        lemma_ready_prefix(all, (i + 1) as int, k);
                        let m = choose|m: int|
                            0 <= m < ready_defs(all).len() && ready_defs(all)[m] == ready_defs(next)[k];
                        assert(port_of(a0, ready_defs(all)[m].id@) is None);
                        assert(e == PortError::RangeExhausted);
                    }
                    return Err(e);
                },
            };
            proof {
                if port_of(before, def.id@) is None {
                    assert forall|x: Seq<char>| port_of(before, x) is Some implies #[trigger] port_of(ports.allocs(), x)
                        == port_of(before, x) by {
                        lemma_port_of_kept(before, ports.range_start(), ports.range_end(), def.id@, port, x);
                    }
                }
            }
            let root = service_root(data_dir, &def.id);
            let svc = Service::from_definition(def, Some(port), root);
            out.push(svc);
            assert forall|k: int| 0 <= k < out@.len() implies #[trigger] port_of(ports.allocs(), ready_defs(next)[k].id@) is Some
                && materialized(
                out@[k],
                ready_defs(next)[k],
                port_of(ports.allocs(), ready_defs(next)[k].id@).unwrap(),
                data_dir@,
            ) by {
                if k < prefix.len() {
                    assert(ready_defs(next)[k] == prefix[k]);
                } else {
                    assert(ready_defs(next)[k] == all[i as int]);
                }
            }
        } else {
            assert(ready_defs(next) == prefix);
        }
        i = i + 1;
    }
    assert(all.subrange(0, all.len() as int) =~= all);
    Ok(out)
}

proof fn lemma_ready_prefix(all: Seq<ServiceDefinition>, n: int, k: int)
    requires
        0 <= n <= all.len(),
        0 <= k < ready_defs(all.subrange(0, n)).len(),
    ensures
        exists|m: int| 0 <= m < ready_defs(all).len() && ready_defs(all)[m] == ready_defs(all.subrange(0, n))[k],
    decreases all.len() - n,
{
    if n == all.len() {
        assert(all.subrange(0, n) =~= all);
        assert(ready_defs(all)[k] == ready_defs(all.subrange(0, n))[k]);
    } else {
        let next = all.subrange(0, n + 1);
        assert(next.drop_last() =~= all.subrange(0, n));
        reveal(Seq::filter);
        if is_ready()(next.last()) {
            assert(ready_defs(next) == ready_defs(all.subrange(0, n)).push(next.last()));
        } else {
            assert(ready_defs(next) == ready_defs(all.subrange(0, n)));
        }
        assert(ready_defs(next)[k] == ready_defs(all.subrange(0, n))[k]);
        lemma_ready_prefix(all, n + 1, k);
    }
}

/// Creating a service and deleting it right after gives the registry back as
/// it was: the entry appended for the new id is the one removed.
pub proof fn lemma_init_then_delete_registry(defs: Seq<ServiceDefinition>, d: ServiceDefinition, i: int)
    requires
        !has_id(defs, d.id@),
        0 <= i < defs.len() + 1,
        defs.push(d)[i].id@ == d.id@,
    ensures
        defs.push(d).remove(i) == defs,
        !has_id(defs.push(d).remove(i), d.id@),
{
    if i < defs.len() {
        assert(defs[i].id@ == d.id@);
    }
    assert(defs.push(d).remove(i) =~= defs);
}

/// Creating a service and deleting it right after leaves its id without a
/// port; when it held none before, the allocations are as they were.
pub proof fn lemma_init_then_delete_ports(
    before: Seq<(Seq<char>, u16)>,
    after_init: Seq<(Seq<char>, u16)>,
    after_delete: Seq<(Seq<char>, u16)>,
    id: Seq<char>,
    p: u16,
    j: int,
)
    requires
        !has_key(before, id),
        after_init == before.push((id, p)),
        0 <= j < after_init.len(),
        after_init[j].0 == id,
        after_delete == after_init.remove(j),
    ensures
        after_delete == before,
        port_of(after_delete, id) is None,
{
    if j < before.len() {
        assert(before[j].0 == id);
    }
    assert(after_init.remove(j) =~= before);
}

/// Which file name an uploaded artifact is installed under.
pub struct BinaryPlan {
    /// The name the binary path resolves to from now on.
    pub name: String,
    /// Whether the upload must also be copied under that name.
    pub copy_needed: bool,
}

/// The definition is ready and has a binary path already.
pub open spec fn has_established_binary(def: Option<&ServiceDefinition>) -> bool {
    match def {
        Some(d) => d.ready && d.binary_path@.len() > 0,
        None => false,
    }
}

/// Settles the file name of an uploaded artifact: a ready service keeps the
/// file name its binary path ends in, and the upload is copied under it when
/// the names differ; otherwise the uploaded name is used.
pub fn plan_binary_name(def: Option<&ServiceDefinition>, uploaded: &String) -> (r: BinaryPlan)
    ensures
        has_established_binary(def) ==> last_segment(def.unwrap().binary_path@, r.name@)
            && r.copy_needed == (r.name@ != uploaded@),
        !has_established_binary(def) ==> r.name@ == uploaded@ && !r.copy_needed,
{
    match def {
        Some(d) => {
            if d.ready && !d.binary_path.as_str().is_empty() {
                let name = file_name_of(d.binary_path.as_str());
                let copy_needed = !(name == *uploaded);
                return BinaryPlan { name, copy_needed };
            }
        },
        None => {},
    }
    BinaryPlan { name: uploaded.clone(), copy_needed: false }
}

/// The target of the `bin/current` link for a version: `../versions/<v>`.
pub fn version_link_target(version: &String) -> (r: String)
    ensures
        r@ == "../versions/"@ + version@,
{
    String::from_str("../versions/").concat(version.as_str())
}

/// The directory of a version under a service root: `<root>/versions/<v>`.
pub fn version_dir(root: &String, version: &String) -> (r: String)
    ensures
        r@ == root@ + "/versions/"@ + version@,
{
    join3(root.as_str(), "/versions/", version.as_str())
}

/// Some definition has id `id` and is ready.
pub open spec fn ready_id(defs: Seq<ServiceDefinition>, id: Seq<char>) -> bool {
    exists|i: int| 0 <= i < defs.len() && #[trigger] defs[i].id@ == id && defs[i].ready
}

/// Whether start, stop or restart may go ahead for `id`: it must have a
/// definition, that definition must be ready, and the manager must know it.
pub fn check_controllable<S, H>(registry: &RegistryManager, manager: &SupervisorManager<S, H>, id: &String) -> (r: Result<(), ControlError>)
    requires
        registry.wf(),
    ensures
        !has_id(registry.defs(), id@) ==> r == Err::<(), ControlError>(ControlError::NotFound),
        has_id(registry.defs(), id@) && !ready_id(registry.defs(), id@) ==> r == Err::<(), ControlError>(
            ControlError::NotReady,
        ),
        ready_id(registry.defs(), id@) && !manager.service_ids().contains(id@) ==> r == Err::<(), ControlError>(
            ControlError::NotRegistered,
        ),
        r is Ok <==> ready_id(registry.defs(), id@) && manager.service_ids().contains(id@),
{
    match registry.get(id) {
        None => Err(ControlError::NotFound),
        Some(d) => {
            let ghost i = choose|i: int| 0 <= i < registry.defs().len() && registry.defs()[i] == *d;
            if !d.ready {
                assert forall|k: int| 0 <= k < registry.defs().len() && #[trigger] registry.defs()[k].id@ == id@
                    implies !registry.defs()[k].ready by {
                    assert(registry.defs()[i].id@ == id@);
                    assert(k == i);
                }
                return Err(ControlError::NotReady);
            }
            assert(registry.defs()[i].id@ == id@);
            if manager.is_registered(id) {
                Ok(())
            } else {
                Err(ControlError::NotRegistered)
            }
        },
    }
}

/// Why a release asset could not be used.
#[derive(Clone, Copy, Debug, PartialEq, Eq, Structural)]
pub enum AssetError {
    /// No asset of the release has the wanted name.
    NotListed,
    /// The asset lists no download address.
    EmptyUrl,
}

/// No asset before index `n` has name `wanted`.
pub open spec fn not_before(assets: Seq<(String, String)>, wanted: Seq<char>, n: int) -> bool {
    forall|k: int| 0 <= k < n ==> #[trigger] assets[k].0@ != wanted
}

/// The download address of the first asset, as name and address, whose name is `wanted`.
pub fn select_asset(assets: &Vec<(String, String)>, wanted: &String) -> (r: Result<String, AssetError>)
    ensures
        not_before(assets@, wanted@, assets@.len() as int) ==> r == Err::<String, AssetError>(
            AssetError::NotListed,
        ),
        forall|i: int|
            0 <= i < assets@.len() && #[trigger] assets@[i].0@ == wanted@ && not_before(assets@, wanted@, i)
                ==> if assets@[i].1@.len() == 0 {
                r == Err::<String, AssetError>(AssetError::EmptyUrl)
            } else {
                r is Ok && r.unwrap()@ == assets@[i].1@
            },
{
    let mut i: usize = 0;
    while i < assets.len()
        invariant
            i <= assets@.len(),
            not_before(assets@, wanted@, i as int),
        decreases assets@.len() - i,
    {
        if assets[i].0 == *wanted {
            if assets[i].1.as_str().is_empty() {
                return Err(AssetError::EmptyUrl);
            }
            return Ok(assets[i].1.clone());
        }
        i = i + 1;
    }
    Err(AssetError::NotListed)
}

/// The release API address of `version` of `repo` on GitHub.
pub fn release_url(repo: &String, version: &String) -> (r: String)
    ensures
        r@ == "https://api.github.com/repos/"@ + repo@ + "/releases/tags/"@ + version@,
{
    join3("https://api.github.com/repos/", repo.as_str(), "/releases/tags/").concat(version.as_str())
}

/// Why a complete definition handed in for creation was refused.
#[derive(Clone, Copy, Debug, PartialEq, Eq, Structural)]
pub enum CreateError {
    /// The id or the binary path is blank.
    MissingFields,
    /// The binary path is not absolute.
    NotAbsolute,
}

/// Checks a definition handed in whole: id and binary path must not be blank,
/// and the binary path must be absolute.
pub fn validate_definition(def: &ServiceDefinition) -> (r: Result<(), CreateError>)
    ensures
        blank(def.id@) || blank(def.binary_path@) ==> r == Err::<(), CreateError>(CreateError::MissingFields),
        !blank(def.id@) && !blank(def.binary_path@) && def.binary_path@[0] != '/' ==> r == Err::<(), CreateError>(
            CreateError::NotAbsolute,
        ),
        r is Ok <==> !blank(def.id@) && !blank(def.binary_path@) && def.binary_path@[0] == '/',
{
    if is_blank(def.id.as_str()) || is_blank(def.binary_path.as_str()) {
        return Err(CreateError::MissingFields);
    }
    if def.binary_path.as_str().get_char(0) != '/' {
        return Err(CreateError::NotAbsolute);
    }
    Ok(())
}

/// The restart budget a service created whole runs with: its own, or three.
pub fn created_restart_limit(limit: Option<u32>) -> (r: Option<u32>)
    ensures
        r == match limit {
            Some(l) => Some(l),
            None => Some(3u32),
        },
{
    match limit {
        Some(l) => Some(l),
        None => Some(3),
    }
}

} // verus!
