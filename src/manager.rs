use vstd::prelude::*;

verus! {

/// Seconds the manager waits for a stopped supervisor to finish.
pub const STOP_JOIN_TIMEOUT_SECS: u64 = 30;

/// Seconds between the terminate signal and the force-kill that `stop` sends
/// to a recorded process id.
pub const STOP_KILL_DELAY_SECS: u64 = 2;

/// Why a manager operation was refused.
#[derive(Clone, Copy, Debug, PartialEq, Eq, Structural)]
pub enum ManagerError {
    /// A service with this id is registered already.
    AlreadyRegistered,
    /// No service with this id is registered (register, update, unregister).
    NotRegistered,
    /// A supervisor for this id runs already.
    AlreadyRunning,
    /// No service with this id is registered (start).
    NotFound,
    /// No supervisor for this id runs.
    NotRunning,
}

/// The ids of keyed entries, in order.
pub open spec fn keys<T>(s: Seq<(String, T)>) -> Seq<Seq<char>> {
    s.map_values(|e: (String, T)| e.0@)
}

/// The texts of a sequence of strings.
pub open spec fn texts(s: Seq<String>) -> Seq<Seq<char>> {
    s.map_values(|x: String| x@)
}

/// No id occurs twice.
pub open spec fn unique(ids: Seq<Seq<char>>) -> bool {
    forall|i: int, j: int|
        0 <= i < ids.len() && 0 <= j < ids.len() && i != j ==> #[trigger] ids[i] != #[trigger] ids[j]
}

fn position<T>(v: &Vec<(String, T)>, id: &String) -> (r: Option<usize>)
    ensures
        r is None <==> !keys(v@).contains(id@),
        r is Some ==> r.unwrap() < v@.len() && keys(v@)[r.unwrap() as int] == id@,
{
    let mut i: usize = 0;
    while i < v.len()
        invariant
            i <= v@.len(),
            forall|k: int| 0 <= k < i ==> #[trigger] keys(v@)[k] != id@,
        decreases v@.len() - i,
    {
        assert(keys(v@)[i as int] == v@[i as int].0@);
        if v[i].0 == *id {
            return Some(i);
        }
        i = i + 1;
    }
    None
}

proof fn lemma_keys_push<T>(s: Seq<(String, T)>, e: (String, T))
    ensures
        keys(s.push(e)) == keys(s).push(e.0@),
{
    assert(keys(s.push(e)) =~= keys(s).push(e.0@));
}

proof fn lemma_keys_remove<T>(s: Seq<(String, T)>, i: int)
    requires
        0 <= i < s.len(),
    ensures
        keys(s.remove(i)) == keys(s).remove(i),
{
    assert(keys(s.remove(i)) =~= keys(s).remove(i));
}

proof fn lemma_keys_update<T>(s: Seq<(String, T)>, i: int, e: (String, T))
    requires
        0 <= i < s.len(),
    ensures
        keys(s.update(i, e)) == keys(s).update(i, e.0@),
{
    assert(keys(s.update(i, e)) =~= keys(s).update(i, e.0@));
}

proof fn lemma_unique_remove(ids: Seq<Seq<char>>, i: int)
    requires
        unique(ids),
        0 <= i < ids.len(),
    ensures
        unique(ids.remove(i)),
        !ids.remove(i).contains(ids[i]),
        forall|x: Seq<char>| x != ids[i] ==> (ids.remove(i).contains(x) == ids.contains(x)),
{
    let r = ids.remove(i);
    assert forall|a: int, b: int| 0 <= a < r.len() && 0 <= b < r.len() && a != b implies #[trigger] r[a]
        != #[trigger] r[b] by {
        let oa = if a < i { a } else { a + 1 };
        let ob = if b < i { b } else { b + 1 };
        assert(r[a] == ids[oa] && r[b] == ids[ob]);
    }
    assert forall|x: Seq<char>| x != ids[i] implies (r.contains(x) == ids.contains(x)) by {
        if ids.contains(x) {
            let k = choose|k: int| 0 <= k < ids.len() && ids[k] == x;
            let rk = if k < i { k } else { k - 1 };
            assert(r[rk] == x);
        }
        if r.contains(x) {
            let k = choose|k: int| 0 <= k < r.len() && r[k] == x;
            let ok = if k < i { k } else { k + 1 };
            assert(ids[ok] == x);
        }
    }
    if r.contains(ids[i]) {
        let k = choose|k: int| 0 <= k < r.len() && r[k] == ids[i];
        let ok = if k < i { k } else { k + 1 };
        assert(ids[ok] == ids[i]);
    }
}

proof fn lemma_unique_push(ids: Seq<Seq<char>>, x: Seq<char>)
    requires
        unique(ids),
        !ids.contains(x),
    ensures
        unique(ids.push(x)),
        forall|y: Seq<char>| ids.push(x).contains(y) == (ids.contains(y) || y == x),
{
    let r = ids.push(x);
    assert forall|a: int, b: int| 0 <= a < r.len() && 0 <= b < r.len() && a != b implies #[trigger] r[a]
        != #[trigger] r[b] by {
        if a == ids.len() {
            assert(!ids.contains(r[b]) || r[b] != x);
            assert(r[b] == ids[b]);
        } else if b == ids.len() {
            assert(r[a] == ids[a]);
        }
    }
    assert forall|y: Seq<char>| r.contains(y) == (ids.contains(y) || y == x) by {
        if ids.contains(y) {
            let k = choose|k: int| 0 <= k < ids.len() && ids[k] == y;
            assert(r[k] == y);
        }
        if y == x {
            assert(r[ids.len() as int] == x);
        }
        if r.contains(y) {
            let k = choose|k: int| 0 <= k < r.len() && r[k] == y;
            if k < ids.len() {
                assert(ids[k] == y);
            }
        }
    }
}

/// The registered services and the running supervisors, both keyed by
/// service id. `S` is how a service is held, `H` the handle of a running
/// supervisor.
pub struct SupervisorManager<S, H> {
    services: Vec<(String, S)>,
    supervisors: Vec<(String, H)>,
}

impl<S, H> SupervisorManager<S, H> {
    /// The registered services, in order of registration.
    pub closed spec fn registered(&self) -> Seq<(String, S)> {
        self.services@
    }

    /// The running supervisors, in order of start.
    pub closed spec fn running(&self) -> Seq<(String, H)> {
        self.supervisors@
    }

    /// The ids of the registered services.
    pub open spec fn service_ids(&self) -> Seq<Seq<char>> {
        keys(self.registered())
    }

    /// The ids of the running supervisors.
    pub open spec fn running_ids(&self) -> Seq<Seq<char>> {
        keys(self.running())
    }

    /// Each id is registered at most once and runs at most once.
    pub open spec fn wf(&self) -> bool {
        unique(self.service_ids()) && unique(self.running_ids())
    }

    /// Every running supervisor belongs to a registered service.
    pub open spec fn supervised_registered(&self) -> bool {
        forall|i: int|
            0 <= i < self.running_ids().len() ==> self.service_ids().contains(
                #[trigger] self.running_ids()[i],
            )
    }

    /// No service registered, none running.
    pub fn new() -> (r: Self)
        ensures
            r.wf(),
            r.supervised_registered(),
            r.registered().len() == 0,
            r.running().len() == 0,
    {
        SupervisorManager { services: Vec::new(), supervisors: Vec::new() }
    }

    /// Registers `service` under `id`; refused when the id is registered.
    pub fn register_service(&mut self, id: String, service: S) -> (r: Result<(), ManagerError>)
        requires
            old(self).wf(),
        ensures
            final(self).wf(),
            final(self).running() == old(self).running(),
            r is Err <==> old(self).service_ids().contains(id@),
            r is Err ==> r == Err::<(), ManagerError>(ManagerError::AlreadyRegistered)
                && final(self).registered() == old(self).registered(),
            r is Ok ==> final(self).registered() == old(self).registered().push((id, service)),
            old(self).supervised_registered() ==> final(self).supervised_registered(),
    {
        if position(&self.services, &id).is_some() {
            return Err(ManagerError::AlreadyRegistered);
        }
        let ghost before = self.service_ids();
        proof {
            lemma_keys_push(self.services@, (id, service));
            lemma_unique_push(before, id@);
        }
        self.services.push((id, service));
        assert forall|i: int| 0 <= i < self.running_ids().len() && old(self).supervised_registered()
            implies self.service_ids().contains(#[trigger] self.running_ids()[i]) by {
            assert(before.contains(self.running_ids()[i]));
        }
        Ok(())
    }

    /// Replaces the service registered under `id`; refused when none is.
    pub fn update_service(&mut self, id: String, service: S) -> (r: Result<(), ManagerError>)
        requires
            old(self).wf(),
        ensures
            final(self).wf(),
            final(self).running() == old(self).running(),
            final(self).service_ids() == old(self).service_ids(),
            r is Err <==> !old(self).service_ids().contains(id@),
            r is Err ==> r == Err::<(), ManagerError>(ManagerError::NotRegistered)
                && final(self).registered() == old(self).registered(),
            r is Ok ==> exists|i: int|
                0 <= i < old(self).registered().len() && old(self).service_ids()[i] == id@
                    && final(self).registered() == old(self).registered().update(i, (id, service)),
            old(self).supervised_registered() ==> final(self).supervised_registered(),
    {
        match position(&self.services, &id) {
            None => Err(ManagerError::NotRegistered),
            Some(i) => {
                proof {
                    lemma_keys_update(self.services@, i as int, (id, service));
                }
                let ghost before = self.service_ids();
                self.services.set(i, (id, service));
                assert(self.service_ids() =~= before);
                Ok(())
            },
        }
    }

    /// Removes the service registered under `id` and returns it; refused when
    /// none is. Running supervisors are left alone.
    pub fn unregister_service(&mut self, id: &String) -> (r: Result<S, ManagerError>)
        requires
            old(self).wf(),
        ensures
            final(self).wf(),
            final(self).running() == old(self).running(),
            r is Err <==> !old(self).service_ids().contains(id@),
            r is Err ==> r == Err::<S, ManagerError>(ManagerError::NotRegistered)
                && final(self).registered() == old(self).registered(),
            r is Ok ==> exists|i: int|
                0 <= i < old(self).registered().len() && old(self).service_ids()[i] == id@
                    && r.unwrap() == old(self).registered()[i].1
                    && final(self).registered() == old(self).registered().remove(i),
            !final(self).service_ids().contains(id@),
            old(self).supervised_registered() && !old(self).running_ids().contains(id@)
                ==> final(self).supervised_registered(),
    {
        match position(&self.services, id) {
            None => Err(ManagerError::NotRegistered),
            Some(i) => {
                let ghost before = self.service_ids();
                proof {
                    lemma_keys_remove(self.services@, i as int);
                    lemma_unique_remove(before, i as int);
                }
                let (_, s) = self.services.remove(i);
                assert forall|k: int|
                    0 <= k < self.running_ids().len() && old(self).supervised_registered()
                        && !old(self).running_ids().contains(id@) implies self.service_ids().contains(
                    #[trigger] self.running_ids()[k],
                ) by {
                    assert(old(self).running_ids()[k] == self.running_ids()[k]);
                    assert(self.running_ids()[k] != id@);
                }
                Ok(s)
            },
        }
    }

    /// How many services are registered.
    pub fn service_count(&self) -> (r: usize)
        ensures
            r == self.registered().len(),
    {
        self.services.len()
    }

    /// How many supervisors run.
    pub fn running_count(&self) -> (r: usize)
        ensures
            r == self.running().len(),
    {
        self.supervisors.len()
    }

    /// Whether a service is registered under `id`.
    pub fn is_registered(&self, id: &String) -> (r: bool)
        ensures
            r == self.service_ids().contains(id@),
    {
        position(&self.services, id).is_some()
    }

    /// Whether a supervisor runs for `id`.
    pub fn is_running(&self, id: &String) -> (r: bool)
        ensures
            r == self.running_ids().contains(id@),
    {
        position(&self.supervisors, id).is_some()
    }

    /// The service registered under `id`, if any.
    pub fn get_service(&self, id: &String) -> (r: Option<&S>)
        ensures
            r is None <==> !self.service_ids().contains(id@),
            r is Some ==> exists|i: int|
                0 <= i < self.registered().len() && self.service_ids()[i] == id@ && *r.unwrap()
                    == self.registered()[i].1,
    {
        match position(&self.services, id) {
            None => None,
            Some(i) => {
                let s = &self.services[i].1;
                assert(*s == self.registered()[i as int].1);
                assert(self.service_ids()[i as int] == id@);
                Some(s)
            },
        }
    }

    /// The service that `start` would supervise: refused when a supervisor
    /// runs for `id` already, or when no service is registered under it.
    pub fn prepare_start(&self, id: &String) -> (r: Result<&S, ManagerError>)
        ensures
            self.running_ids().contains(id@) ==> r == Err::<&S, ManagerError>(
                ManagerError::AlreadyRunning,
            ),
            !self.running_ids().contains(id@) && !self.service_ids().contains(id@) ==> r == Err::<
                &S,
                ManagerError,
            >(ManagerError::NotFound),
            r is Ok <==> !self.running_ids().contains(id@) && self.service_ids().contains(id@),
            r is Ok ==> exists|i: int|
                0 <= i < self.registered().len() && self.service_ids()[i] == id@ && *r.unwrap()
                    == self.registered()[i].1,
    {
        if self.is_running(id) {
            return Err(ManagerError::AlreadyRunning);
        }
        match self.get_service(id) {
            None => Err(ManagerError::NotFound),
            Some(s) => Ok(s),
        }
    }

    /// Records the handle of a supervisor started for `id`; refused, as
    /// `prepare_start` is, when one runs already or the id is not registered.
    pub fn start(&mut self, id: &String, handle: H) -> (r: Result<(), ManagerError>)
        requires
            old(self).wf(),
        ensures
            final(self).wf(),
            final(self).registered() == old(self).registered(),
            old(self).running_ids().contains(id@) ==> r == Err::<(), ManagerError>(
                ManagerError::AlreadyRunning,
            ),
            !old(self).running_ids().contains(id@) && !old(self).service_ids().contains(id@) ==> r
                == Err::<(), ManagerError>(ManagerError::NotFound),
            r is Ok <==> !old(self).running_ids().contains(id@) && old(self).service_ids().contains(
                id@,
            ),
            r is Err ==> final(self).running() == old(self).running(),
            r is Ok ==> final(self).running_ids() == old(self).running_ids().push(id@)
                && final(self).running().len() == old(self).running().len() + 1
                && final(self).running().last().1 == handle
                && final(self).running().drop_last() == old(self).running(),
            old(self).supervised_registered() ==> final(self).supervised_registered(),
    {
        if self.is_running(id) {
            return Err(ManagerError::AlreadyRunning);
        }
        if !self.is_registered(id) {
            return Err(ManagerError::NotFound);
        }
        let ghost before = self.running_ids();
        let entry = (id.clone(), handle);
        proof {
            lemma_keys_push(self.supervisors@, entry);
            lemma_unique_push(before, id@);
        }
        self.supervisors.push(entry);
        assert(self.running().drop_last() =~= old(self).running());
        assert forall|i: int| 0 <= i < self.running_ids().len() && old(self).supervised_registered()
            implies self.service_ids().contains(#[trigger] self.running_ids()[i]) by {
            if i < before.len() {
                assert(before[i] == self.running_ids()[i]);
            }
        }
        Ok(())
    }

    /// Removes the supervisor of `id` and hands back its handle, for the
    /// caller to signal and await; refused when none runs.
    pub fn stop(&mut self, id: &String) -> (r: Result<H, ManagerError>)
        requires
            old(self).wf(),
        ensures
            final(self).wf(),
            final(self).registered() == old(self).registered(),
            r is Err <==> !old(self).running_ids().contains(id@),
            r is Err ==> r == Err::<H, ManagerError>(ManagerError::NotRunning)
                && final(self).running() == old(self).running(),
            r is Ok ==> exists|i: int|
                0 <= i < old(self).running().len() && old(self).running_ids()[i] == id@
                    && r.unwrap() == old(self).running()[i].1
                    && final(self).running() == old(self).running().remove(i),
            !final(self).running_ids().contains(id@),
            old(self).supervised_registered() ==> final(self).supervised_registered(),
    {
        match position(&self.supervisors, id) {
            None => Err(ManagerError::NotRunning),
            Some(i) => {
                let ghost before = self.running_ids();
                proof {
                    lemma_keys_remove(self.supervisors@, i as int);
                    lemma_unique_remove(before, i as int);
                }
                let (_, h) = self.supervisors.remove(i);
                assert forall|k: int|
                    0 <= k < self.running_ids().len() && old(self).supervised_registered()
                        implies self.service_ids().contains(#[trigger] self.running_ids()[k]) by {
                    let ok = if k < i { k } else { k + 1 };
                    assert(before[ok] == self.running_ids()[k]);
                }
                Ok(h)
            },
        }
    }

    /// The first half of a restart: refused when no service is registered
    /// under `id`; otherwise the supervisor of `id`, if one runs, is removed
    /// and its handle handed back for the caller to stop, after which `start`
    /// may follow.
    pub fn begin_restart(&mut self, id: &String) -> (r: Result<Option<H>, ManagerError>)
        requires
            old(self).wf(),
        ensures
            final(self).wf(),
            final(self).registered() == old(self).registered(),
            r is Err <==> !old(self).service_ids().contains(id@),
            r is Err ==> r == Err::<Option<H>, ManagerError>(ManagerError::NotFound)
                && final(self).running() == old(self).running(),
            r is Ok ==> (r.unwrap() is Some <==> old(self).running_ids().contains(id@)),
            r is Ok && r.unwrap() is None ==> final(self).running() == old(self).running(),
            r is Ok && r.unwrap() is Some ==> exists|i: int|
                0 <= i < old(self).running().len() && old(self).running_ids()[i] == id@
                    && r.unwrap().unwrap() == old(self).running()[i].1
                    && final(self).running() == old(self).running().remove(i),
            r is Ok ==> !final(self).running_ids().contains(id@) && final(self).service_ids().contains(id@),
            old(self).supervised_registered() ==> final(self).supervised_registered(),
    {
        if !self.is_registered(id) {
            return Err(ManagerError::NotFound);
        }
        match self.stop(id) {
            Ok(h) => Ok(Some(h)),
            Err(_) => Ok(None),
        }
    }

    /// The ids of the registered services, in order of registration.
    pub fn list_ids(&self) -> (r: Vec<String>)
        ensures
            texts(r@) == self.service_ids(),
    {
        let mut out: Vec<String> = Vec::new();
        let mut i: usize = 0;
        while i < self.services.len()
            invariant
                i <= self.services@.len(),
                texts(out@) == self.service_ids().subrange(0, i as int),
            decreases self.services@.len() - i,
        {
            let ghost prev = out@;
            out.push(self.services[i].0.clone());
            assert(self.service_ids()[i as int] == self.services@[i as int].0@);
            assert(out@ == prev.push(self.services@[i as int].0));
            assert(texts(out@) =~= texts(prev).push(self.services@[i as int].0@));
            assert(texts(out@) =~= self.service_ids().subrange(0, i + 1));
            i = i + 1;
        }
        assert(self.service_ids().subrange(0, self.services@.len() as int) =~= self.service_ids());
        out
    }

    /// The registered services, in order of registration.
    pub fn list(&self) -> (r: Vec<&S>)
        ensures
            r@.len() == self.registered().len(),
            forall|i: int| 0 <= i < r@.len() ==> *(#[trigger] r@[i]) == self.registered()[i].1,
    {
        let mut out: Vec<&S> = Vec::new();
        let mut i: usize = 0;
        while i < self.services.len()
            invariant
                i <= self.services@.len(),
                out@.len() == i,
                forall|k: int| 0 <= k < i ==> *(#[trigger] out@[k]) == self.registered()[k].1,
            decreases self.services@.len() - i,
        {
            out.push(&self.services[i].1);
            i = i + 1;
        }
        out
    }

    /// Takes every supervisor handle out, for the caller to await after it has
    /// broadcast the global shutdown.
    pub fn shutdown_all(&mut self) -> (r: Vec<(String, H)>)
        requires
            old(self).wf(),
        ensures
            final(self).wf(),
            final(self).supervised_registered(),
            r@ == old(self).running(),
            final(self).running().len() == 0,
            final(self).registered() == old(self).registered(),
    {
        let mut drained: Vec<(String, H)> = Vec::new();
        std::mem::swap(&mut drained, &mut self.supervisors);
        assert(self.running_ids() =~= Seq::<Seq<char>>::empty());
        drained
    }
}

} // verus!
