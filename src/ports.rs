use vstd::prelude::*;

verus! {

/// The one ports file version this library reads and writes.
pub const PORTS_VERSION: u32 = 1;

/// The first port of the default range.
pub const DEFAULT_PORT_RANGE_START: u16 = 8100;

/// The last port of the default range.
pub const DEFAULT_PORT_RANGE_END: u16 = 8999;

/// The contents of the ports file.
#[derive(Clone, Debug)]
pub struct PortsFile {
    pub version: u32,
    pub port_range_start: u16,
    pub port_range_end: u16,
    pub allocations: Vec<(String, u16)>,
}

/// Why a port operation or load was refused.
#[derive(Clone, Copy, Debug, PartialEq, Eq, Structural)]
pub enum PortError {
    /// Every port of the range is taken.
    RangeExhausted,
    /// The file carries a version other than the supported one.
    UnsupportedVersion(u32),
    /// The file gives one service two ports, one port two services, or a port
    /// outside its range.
    Corrupt,
}

/// Allocations as plain values: service id and port.
pub open spec fn plain(a: Seq<(String, u16)>) -> Seq<(Seq<char>, u16)> {
    a.map_values(|e: (String, u16)| (e.0@, e.1))
}

/// Some entry belongs to service `id`.
pub open spec fn has_key(a: Seq<(Seq<char>, u16)>, id: Seq<char>) -> bool {
    exists|i: int| 0 <= i < a.len() && #[trigger] a[i].0 == id
}

/// Some entry holds port `p`.
pub open spec fn port_used(a: Seq<(Seq<char>, u16)>, p: u16) -> bool {
    exists|i: int| 0 <= i < a.len() && #[trigger] a[i].1 == p
}

/// The port held by service `id`, if any.
pub open spec fn port_of(a: Seq<(Seq<char>, u16)>, id: Seq<char>) -> Option<u16> {
    if has_key(a, id) {
        Some(a[choose|i: int| 0 <= i < a.len() && #[trigger] a[i].0 == id].1)
    } else {
        None
    }
}

/// No service holds two entries, no port is held twice, and every port lies
/// in `[start, end]`.
pub open spec fn allocations_wf(a: Seq<(Seq<char>, u16)>, start: u16, end: u16) -> bool {
    &&& forall|i: int, j: int|
        0 <= i < a.len() && 0 <= j < a.len() && i != j ==> #[trigger] a[i].0 != #[trigger] a[j].0
    &&& forall|i: int, j: int|
        0 <= i < a.len() && 0 <= j < a.len() && i != j ==> #[trigger] a[i].1 != #[trigger] a[j].1
    &&& forall|i: int| 0 <= i < a.len() ==> start <= #[trigger] a[i].1 <= end
}

/// What loading a ports file with these contents yields: the range and the
/// allocations, or the reason for refusal.
pub open spec fn ports_load_result(
    version: u32,
    start: u16,
    end: u16,
    a: Seq<(Seq<char>, u16)>,
) -> Result<(u16, u16, Seq<(Seq<char>, u16)>), PortError> {
    if version != PORTS_VERSION {
        Err(PortError::UnsupportedVersion(version))
    } else if !allocations_wf(a, start, end) {
        Err(PortError::Corrupt)
    } else {
        Ok((start, end, a))
    }
}

/// `p` is the lowest port of `[start, end]` that no entry holds.
pub open spec fn lowest_free(a: Seq<(Seq<char>, u16)>, start: u16, end: u16, p: u16) -> bool {
    &&& start <= p <= end
    &&& !port_used(a, p)
    &&& forall|q: u16| start <= q < p ==> port_used(a, q)
}

/// Every port of `[start, end]` is held.
pub open spec fn exhausted(a: Seq<(Seq<char>, u16)>, start: u16, end: u16) -> bool {
    forall|q: u16| start <= q <= end ==> port_used(a, q)
}

/// With unique service ids, the entry at `i` gives the port of its service.
pub proof fn lemma_port_of_entry(a: Seq<(Seq<char>, u16)>, start: u16, end: u16, i: int)
    requires
        allocations_wf(a, start, end),
        0 <= i < a.len(),
    ensures
        port_of(a, a[i].0) == Some(a[i].1),
{
    assert(has_key(a, a[i].0));
    let k = choose|k: int| 0 <= k < a.len() && #[trigger] a[k].0 == a[i].0;
    assert(a[k].0 == a[i].0);
}

/// A persistent allocator of TCP ports over a contiguous range.
pub struct PortManager {
    path: String,
    port_range_start: u16,
    port_range_end: u16,
    allocations: Vec<(String, u16)>,
}

impl PortManager {
    /// The allocations, as service id and port, in order of allocation.
    pub closed spec fn allocs(&self) -> Seq<(Seq<char>, u16)> {
        plain(self.allocations@)
    }

    pub closed spec fn range_start(&self) -> u16 {
        self.port_range_start
    }

    pub closed spec fn range_end(&self) -> u16 {
        self.port_range_end
    }

    pub closed spec fn file_path(&self) -> Seq<char> {
        self.path@
    }

    pub open spec fn wf(&self) -> bool {
        allocations_wf(self.allocs(), self.range_start(), self.range_end())
    }

    /// The contents of a fresh ports file over the default range.
    pub fn empty_file() -> (r: PortsFile)
        ensures
            r.version == PORTS_VERSION,
            r.port_range_start == DEFAULT_PORT_RANGE_START,
            r.port_range_end == DEFAULT_PORT_RANGE_END,
            r.allocations@.len() == 0,
    {
        PortsFile {
            version: PORTS_VERSION,
            port_range_start: DEFAULT_PORT_RANGE_START,
            port_range_end: DEFAULT_PORT_RANGE_END,
            allocations: Vec::new(),
        }
    }

    fn entries_wf(allocations: &Vec<(String, u16)>, start: u16, end: u16) -> (r: bool)
        ensures
            r == allocations_wf(plain(allocations@), start, end),
    {
        let ghost a = plain(allocations@);
        let mut i: usize = 0;
        while i < allocations.len()
            invariant
                a == plain(allocations@),
                i <= a.len(),
                forall|x: int, y: int|
                    0 <= x < i && 0 <= y < a.len() && x != y ==> #[trigger] a[x].0
                        != #[trigger] a[y].0,
                forall|x: int, y: int|
                    0 <= x < i && 0 <= y < a.len() && x != y ==> #[trigger] a[x].1
                        != #[trigger] a[y].1,
                forall|x: int| 0 <= x < i ==> start <= #[trigger] a[x].1 <= end,
            decreases a.len() - i,
        {
            let p = allocations[i].1;
            assert(a[i as int] == (allocations@[i as int].0@, allocations@[i as int].1));
            if p < start || p > end {
                assert(!(start <= a[i as int].1 <= end));
                return false;
            }
            let mut j: usize = 0;
            while j < allocations.len()
                invariant
                    a == plain(allocations@),
                    i < a.len(),
                    j <= a.len(),
                    p == a[i as int].1,
                    forall|x: int, y: int|
                        0 <= x < i && 0 <= y < a.len() && x != y ==> #[trigger] a[x].0
                            != #[trigger] a[y].0,
                    forall|x: int, y: int|
                        0 <= x < i && 0 <= y < a.len() && x != y ==> #[trigger] a[x].1
                            != #[trigger] a[y].1,
                    forall|y: int| 0 <= y < j && y != i ==> a[i as int].0 != #[trigger] a[y].0,
                    forall|y: int| 0 <= y < j && y != i ==> a[i as int].1 != #[trigger] a[y].1,
                decreases a.len() - j,
            {
                assert(a[j as int] == (allocations@[j as int].0@, allocations@[j as int].1));
                if j != i {
                    if allocations[i].0 == allocations[j].0 || allocations[j].1 == p {
                        assert(a[i as int].0 == a[j as int].0 || a[i as int].1 == a[j as int].1);
                        return false;
                    }
                }
                j = j + 1;
            }
            i = i + 1;
        }
        true
    }

    /// Takes a parsed ports file: any version but the supported one is
    /// refused, and so is a file whose allocations break uniqueness or lie
    /// outside the range.
    pub fn from_file(path: String, file: PortsFile) -> (r: Result<Self, PortError>)
        ensures
            file.version != PORTS_VERSION ==> r == Err::<Self, PortError>(
                PortError::UnsupportedVersion(file.version),
            ),
            file.version == PORTS_VERSION && !allocations_wf(
                plain(file.allocations@),
                file.port_range_start,
                file.port_range_end,
            ) ==> r == Err::<Self, PortError>(PortError::Corrupt),
            r is Ok <==> file.version == PORTS_VERSION && allocations_wf(
                plain(file.allocations@),
                file.port_range_start,
                file.port_range_end,
            ),
            match ports_load_result(
                file.version,
                file.port_range_start,
                file.port_range_end,
                plain(file.allocations@),
            ) {
                Ok(t) => r is Ok && (r.unwrap().range_start(), r.unwrap().range_end(), r.unwrap().allocs()) == t,
                Err(e) => r == Err::<Self, PortError>(e),
            },
            r is Ok ==> {
                &&& r.unwrap().wf()
                &&& r.unwrap().allocs() == plain(file.allocations@)
                &&& r.unwrap().range_start() == file.port_range_start
                &&& r.unwrap().range_end() == file.port_range_end
                &&& r.unwrap().file_path() == path@
            },
    {
        if file.version != PORTS_VERSION {
            return Err(PortError::UnsupportedVersion(file.version));
        }
        if !Self::entries_wf(&file.allocations, file.port_range_start, file.port_range_end) {
            return Err(PortError::Corrupt);
        }
        Ok(PortManager {
            path,
            port_range_start: file.port_range_start,
            port_range_end: file.port_range_end,
            allocations: file.allocations,
        })
    }

    /// The path of the backing file.
    pub fn path(&self) -> (r: &String)
        ensures
            r@ == self.file_path(),
    {
        &self.path
    }

    /// The first port of the range.
    pub fn port_range_start(&self) -> (r: u16)
        ensures
            r == self.range_start(),
    {
        self.port_range_start
    }

    /// The last port of the range.
    pub fn port_range_end(&self) -> (r: u16)
        ensures
            r == self.range_end(),
    {
        self.port_range_end
    }

    fn index_of(&self, id: &String) -> (r: Option<usize>)
        ensures
            r.is_none() == !has_key(self.allocs(), id@),
            r.is_some() ==> r.unwrap() < self.allocs().len() && self.allocs()[r.unwrap() as int].0
                == id@,
    {
        let ghost a = self.allocs();
        let mut i: usize = 0;
        while i < self.allocations.len()
            invariant
                a == plain(self.allocations@),
                i <= a.len(),
                forall|k: int| 0 <= k < i ==> #[trigger] a[k].0 != id@,
            decreases a.len() - i,
        {
            assert(a[i as int] == (self.allocations@[i as int].0@, self.allocations@[i as int].1));
            if self.allocations[i].0 == *id {
                assert(a[i as int].0 == id@);
                assert(has_key(a, id@));
                return Some(i);
            }
            i = i + 1;
        }
        None
    }

    fn in_use(&self, p: u16) -> (r: bool)
        ensures
            r == port_used(self.allocs(), p),
    {
        let ghost a = self.allocs();
        let mut i: usize = 0;
        while i < self.allocations.len()
            invariant
                a == plain(self.allocations@),
                i <= a.len(),
                forall|k: int| 0 <= k < i ==> #[trigger] a[k].1 != p,
            decreases a.len() - i,
        {
            assert(a[i as int] == (self.allocations@[i as int].0@, self.allocations@[i as int].1));
            if self.allocations[i].1 == p {
                assert(a[i as int].1 == p);
                assert(port_used(a, p));
                return true;
            }
            i = i + 1;
        }
        false
    }

    /// The port of service `service_id`: the one it holds already, else the
    /// lowest free port of the range, which is then recorded for it.
    pub fn allocate(&mut self, service_id: &String) -> (r: Result<u16, PortError>)
        requires
            old(self).wf(),
        ensures
            final(self).wf(),
            final(self).range_start() == old(self).range_start(),
            final(self).range_end() == old(self).range_end(),
            final(self).file_path() == old(self).file_path(),
            port_of(old(self).allocs(), service_id@) is Some ==> r == Ok::<u16, PortError>(
                port_of(old(self).allocs(), service_id@).unwrap(),
            ) && final(self).allocs() == old(self).allocs(),
            port_of(old(self).allocs(), service_id@) is None ==> {
                &&& r is Err <==> exhausted(
                    old(self).allocs(),
                    old(self).range_start(),
                    old(self).range_end(),
                )
                &&& r is Err ==> r == Err::<u16, PortError>(PortError::RangeExhausted)
                    && final(self).allocs() == old(self).allocs()
                &&& r is Ok ==> lowest_free(
                    old(self).allocs(),
                    old(self).range_start(),
                    old(self).range_end(),
                    r.unwrap(),
                ) && final(self).allocs() == old(self).allocs().push((service_id@, r.unwrap()))
            },
            r is Ok ==> port_of(final(self).allocs(), service_id@) == Some(r.unwrap()),
    {
        let ghost a = self.allocs();
        if let Some(i) = self.index_of(service_id) {
            proof {
                lemma_port_of_entry(a, self.port_range_start, self.port_range_end, i as int);
            }
            return Ok(self.allocations[i].1);
        }
        match self.lowest_free_port() {
            None => Err(PortError::RangeExhausted),
            Some(port) => {
                let start = self.port_range_start;
                let end = self.port_range_end;
                self.allocations.push((service_id.clone(), port));
                proof {
                    let b = self.allocs();
                    assert(b =~= a.push((service_id@, port)));
                    assert forall|i: int, j: int|
                        0 <= i < b.len() && 0 <= j < b.len() && i != j implies #[trigger] b[i].0
                            != #[trigger] b[j].0 by {
                        if i == a.len() as int {
                            assert(a[j].0 != service_id@);
                        } else if j == a.len() as int {
                            assert(a[i].0 != service_id@);
                        }
                    }
                    assert forall|i: int, j: int|
                        0 <= i < b.len() && 0 <= j < b.len() && i != j implies #[trigger] b[i].1
                            != #[trigger] b[j].1 by {
                        if i == a.len() as int {
                            assert(a[j].1 != port);
                        } else if j == a.len() as int {
                            assert(a[i].1 != port);
                        }
                    }
                    lemma_port_of_entry(b, start, end, a.len() as int);
                }
                Ok(port)
            },
        }
    }

    fn lowest_free_port(&self) -> (r: Option<u16>)
        ensures
            r is None <==> exhausted(self.allocs(), self.range_start(), self.range_end()),
            r is Some ==> lowest_free(self.allocs(), self.range_start(), self.range_end(), r.unwrap()),
    {
        let start = self.port_range_start;
        let end = self.port_range_end;
        let mut p: u32 = start as u32;
        while p <= end as u32
            invariant
                start == self.range_start(),
                end == self.range_end(),
                start <= p <= end as u32 + 1 || (start > end && p == start as u32),
                forall|q: u16| start <= q < p ==> port_used(self.allocs(), q),
            decreases end as u32 + 1 - p,
        {
            let port = p as u16;
            if !self.in_use(port) {
                return Some(port);
            }
            p = p + 1;
        }
        None
    }

    /// Releases the port of service `service_id`; returns whether it held one.
    /// An unknown id changes nothing.
    pub fn deallocate(&mut self, service_id: &String) -> (r: bool)
        requires
            old(self).wf(),
        ensures
            final(self).wf(),
            final(self).range_start() == old(self).range_start(),
            final(self).range_end() == old(self).range_end(),
            final(self).file_path() == old(self).file_path(),
            r == has_key(old(self).allocs(), service_id@),
            !r ==> final(self).allocs() == old(self).allocs(),
            r ==> exists|i: int|
                0 <= i < old(self).allocs().len() && old(self).allocs()[i].0 == service_id@
                    && final(self).allocs() == old(self).allocs().remove(i),
            port_of(final(self).allocs(), service_id@) is None,
    {
        let ghost a = self.allocs();
        match self.index_of(service_id) {
            None => false,
            Some(i) => {
                self.allocations.remove(i);
                proof {
                    let b = self.allocs();
                    assert(b =~= a.remove(i as int));
                    assert forall|x: int, y: int|
                        0 <= x < b.len() && 0 <= y < b.len() && x != y implies #[trigger] b[x].0
                            != #[trigger] b[y].0 && b[x].1 != b[y].1 by {
                        let ox = if x < i { x } else { x + 1 };
                        let oy = if y < i { y } else { y + 1 };
                        assert(a[ox] == b[x]);
                        assert(a[oy] == b[y]);
                    }
                    assert forall|x: int| 0 <= x < b.len() implies #[trigger] b[x].0 != service_id@
                        && start_end_ok(b[x].1, self.port_range_start, self.port_range_end) by {
                        let ox = if x < i { x } else { x + 1 };
                        assert(a[ox] == b[x]);
                    }
                }
                true
            },
        }
    }

    /// The port of service `service_id`, if it holds one.
    pub fn get_port(&self, service_id: &String) -> (r: Option<u16>)
        requires
            self.wf(),
        ensures
            r == port_of(self.allocs(), service_id@),
    {
        match self.index_of(service_id) {
            Some(i) => {
                proof {
                    lemma_port_of_entry(self.allocs(), self.port_range_start, self.port_range_end, i as int);
                }
                Some(self.allocations[i].1)
            },
            None => None,
        }
    }

    /// Every allocation, as service id and port, in order of allocation.
    pub fn all_allocations(&self) -> (r: &[(String, u16)])
        ensures
            plain(r@) == self.allocs(),
    {
        self.allocations.as_slice()
    }
}

/// `p` lies in `[start, end]`.
pub open spec fn start_end_ok(p: u16, start: u16, end: u16) -> bool {
    start <= p <= end
}

/// Every port held lies in the range and is held by exactly one service.
pub proof fn lemma_ports_unique_in_range(pm: PortManager, i: int)
    requires
        pm.wf(),
        0 <= i < pm.allocs().len(),
    ensures
        pm.range_start() <= pm.allocs()[i].1 <= pm.range_end(),
        forall|j: int| 0 <= j < pm.allocs().len() && #[trigger] pm.allocs()[j].1 == pm.allocs()[i].1 ==> j == i,
{
}

/// Saving a well-formed port manager and loading the file back yields the same
/// range and allocations.
pub proof fn lemma_ports_round_trip(pm: PortManager)
    requires
        pm.wf(),
    ensures
        ports_load_result(PORTS_VERSION, pm.range_start(), pm.range_end(), pm.allocs()) == Ok::<
            (u16, u16, Seq<(Seq<char>, u16)>),
            PortError,
        >((pm.range_start(), pm.range_end(), pm.allocs())),
{
}

} // verus!
