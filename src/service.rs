use crate::log_buffer::LogBuffer;
use crate::registry::ServiceDefinition;
use crate::state::ServiceState;
use crate::text::{decimal, port_text};
use vstd::prelude::*;
use vstd::string::StringExecFns;

verus! {

/// Environment entries as plain values: name and value.
pub open spec fn plain_env(e: Seq<(String, String)>) -> Seq<(Seq<char>, Seq<char>)> {
    e.map_values(|p: (String, String)| (p.0@, p.1@))
}

/// The environment with every entry named `k` replaced by one entry `k = v`
/// placed last.
pub open spec fn env_with(e: Seq<(Seq<char>, Seq<char>)>, k: Seq<char>, v: Seq<char>) -> Seq<
    (Seq<char>, Seq<char>),
> {
    e.filter(other_key(k)).push((k, v))
}

/// Holds of the entries whose name is not `k`.
pub open spec fn other_key(k: Seq<char>) -> spec_fn((Seq<char>, Seq<char>)) -> bool {
    |p: (Seq<char>, Seq<char>)| p.0 != k
}

/// The variable through which a service learns its allocated port.
pub open spec fn port_var() -> Seq<char> {
    seq!['P', 'O', 'R', 'T']
}

/// A copy of the environment `env` in which `key` is set to `value`.
pub fn env_with_entry(env: &Vec<(String, String)>, key: &String, value: String) -> (r: Vec<(String, String)>)
    ensures
        plain_env(r@) == env_with(plain_env(env@), key@, value@),
{
    let ghost pe = plain_env(env@);
    let ghost pred = other_key(key@);
    let mut out: Vec<(String, String)> = Vec::new();
    let mut i: usize = 0;
    while i < env.len()
        invariant
            pe == plain_env(env@),
            pred == other_key(key@),
            i <= env@.len(),
            plain_env(out@) == pe.subrange(0, i as int).filter(pred),
        decreases env@.len() - i,
    {
        let ghost before = out@;
        let k = &env[i].0;
        assert(k@ == pe[i as int].0);
        assert(pe[i as int] == (env@[i as int].0@, env@[i as int].1@));
        assert(pe.subrange(0, i + 1).drop_last() =~= pe.subrange(0, i as int));
        proof {
            reveal(Seq::filter);
        }
        assert(pe.subrange(0, i + 1).last() == pe[i as int]);
        if *k == *key {
            assert(!pred(pe[i as int]));
        } else {
            out.push((k.clone(), env[i].1.clone()));
            assert(plain_env(out@) =~= plain_env(before).push(pe[i as int]));
        }
        i = i + 1;
    }
    assert(pe.subrange(0, env@.len() as int) =~= pe);
    let ghost filtered = out@;
    out.push((key.clone(), value));
    assert(plain_env(out@) =~= plain_env(filtered).push((key@, value@)));
    out
}

/// A copy of the environment `env`.
pub fn copy_env(env: &Vec<(String, String)>) -> (r: Vec<(String, String)>)
    ensures
        plain_env(r@) == plain_env(env@),
{
    let mut out: Vec<(String, String)> = Vec::new();
    let mut i: usize = 0;
    while i < env.len()
        invariant
            i <= env@.len(),
            out@ == env@.subrange(0, i as int),
        decreases env@.len() - i,
    {
        out.push((env[i].0.clone(), env[i].1.clone()));
        assert(out@ =~= env@.subrange(0, i + 1));
        i = i + 1;
    }
    assert(env@.subrange(0, env@.len() as int) =~= env@);
    out
}

/// A copy of a sequence of strings.
pub fn copy_strings(v: &Vec<String>) -> (r: Vec<String>)
    ensures
        r@ == v@,
{
    let mut out: Vec<String> = Vec::new();
    let mut i: usize = 0;
    while i < v.len()
        invariant
            i <= v@.len(),
            out@ == v@.subrange(0, i as int),
        decreases v@.len() - i,
    {
        out.push(v[i].clone());
        assert(out@ =~= v@.subrange(0, i + 1));
        i = i + 1;
    }
    assert(v@.subrange(0, v@.len() as int) =~= v@);
    out
}

/// The path, under a working directory, of a service's log file.
pub open spec fn log_path_of(working_dir: Seq<char>) -> Seq<char> {
    working_dir + "/logs/service.log"@
}

/// A supervised service: its descriptor, the state last published for it, the
/// process id of its running child, and its log.
pub struct Service {
    pub id: String,
    pub name: String,
    pub binary_path: String,
    pub args: Vec<String>,
    pub env: Vec<(String, String)>,
    pub auto_restart: bool,
    pub restart_limit: Option<u32>,
    /// `<data_dir>/services/<id>`.
    pub working_dir: String,
    pub state: ServiceState,
    pub pid: Option<u32>,
    pub log_buffer: LogBuffer,
}

impl Service {
    /// A stopped service with no process and an empty log bound to
    /// `<working_dir>/logs/service.log`.
    pub fn new(
        id: String,
        name: String,
        binary_path: String,
        args: Vec<String>,
        env: Vec<(String, String)>,
        auto_restart: bool,
        restart_limit: Option<u32>,
        working_dir: String,
    ) -> (r: Self)
        ensures
            r.id == id,
            r.name == name,
            r.binary_path == binary_path,
            r.args == args,
            r.env == env,
            r.auto_restart == auto_restart,
            r.restart_limit == restart_limit,
            r.working_dir == working_dir,
            r.state == ServiceState::Stopped,
            r.pid.is_none(),
            r.log_buffer.wf(),
            r.log_buffer.ring().len() == 0,
            r.log_buffer.file_path() == log_path_of(working_dir@),
    {
        let log_file = working_dir.clone().concat("/logs/service.log");
        Service {
            id,
            name,
            binary_path,
            args,
            env,
            auto_restart,
            restart_limit,
            working_dir,
            state: ServiceState::Stopped,
            pid: None,
            log_buffer: LogBuffer::new(log_file),
        }
    }

    /// The runtime service of a definition: its descriptor, with `PORT` set to
    /// the allocated port when there is one, rooted at `working_dir`.
    pub fn from_definition(def: &ServiceDefinition, port: Option<u16>, working_dir: String) -> (r: Self)
        ensures
            r.id == def.id,
            r.name == def.name,
            r.binary_path == def.binary_path,
            r.args@ == def.args@,
            port is Some ==> plain_env(r.env@) == env_with(
                plain_env(def.env@),
                port_var(),
                decimal(port.unwrap() as nat),
            ),
            port is None ==> plain_env(r.env@) == plain_env(def.env@),
            r.auto_restart == def.auto_restart,
            r.restart_limit == def.restart_limit,
            r.working_dir == working_dir,
            r.state == ServiceState::Stopped,
            r.pid.is_none(),
            r.log_buffer.wf(),
            r.log_buffer.ring().len() == 0,
            r.log_buffer.file_path() == log_path_of(working_dir@),
    {
        let env = match port {
            Some(p) => {
                let key = String::from_str("PORT");
                proof {
                    reveal_strlit("PORT");
                }
                assert(key@ =~= port_var());
                env_with_entry(&def.env, &key, port_text(p))
            },
            None => copy_env(&def.env),
        };
        Service::new(
            def.id.clone(),
            def.name.clone(),
            def.binary_path.clone(),
            copy_strings(&def.args),
            env,
            def.auto_restart,
            def.restart_limit,
            working_dir,
        )
    }

    /// Publishes a new state.
    pub fn set_state(&mut self, new_state: ServiceState)
        ensures
            *final(self) == (Service { state: new_state, ..*old(self) }),
    {
        self.state = new_state;
    }

    /// The state last published.
    pub fn get_state(&self) -> (r: ServiceState)
        ensures
            r == self.state,
    {
        self.state
    }

    /// The process id of the running child, if any.
    pub fn get_pid(&self) -> (r: Option<u32>)
        ensures
            r == self.pid,
    {
        self.pid
    }

    /// Records or clears the process id of the running child.
    pub fn set_pid(&mut self, new_pid: Option<u32>)
        ensures
            *final(self) == (Service { pid: new_pid, ..*old(self) }),
    {
        self.pid = new_pid;
    }
}

} // verus!
