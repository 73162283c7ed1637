//! The hand-off to the workload: the path, argument vector and environment
//! that `execve` receives. Every string must be free of NUL bytes, since
//! each becomes a C string.

use vstd::prelude::*;
use vstd::string::*;
use vstd::utf8::encode_utf8;
use crate::error::GuestInitError;
use crate::protocol::{WorkloadConfig, WorkloadConfigModel};
use crate::text::{decimal, decimal_string, join3};

verus! {

/// The program, argument vector and environment of the workload.
#[derive(Debug)]
pub struct ExecPlan {
    /// The program to run.
    pub path: String,
    /// Its arguments, the program path first.
    pub argv: Vec<String>,
    /// Its environment, `KEY=value` entries.
    pub envp: Vec<String>,
}

/// Mathematical value of an [`ExecPlan`].
pub struct ExecPlanModel {
    pub path: Seq<char>,
    pub argv: Seq<Seq<char>>,
    pub envp: Seq<Seq<char>>,
}

impl DeepView for ExecPlan {
    type V = ExecPlanModel;

    open spec fn deep_view(&self) -> ExecPlanModel {
        ExecPlanModel { path: self.path@, argv: self.argv.deep_view(), envp: self.envp.deep_view() }
    }
}

/// The position of the first zero byte of `b` at or after `i`.
pub open spec fn first_zero_from(b: Seq<u8>, i: int) -> Option<int>
    decreases b.len() - i,
{
    if i < 0 || i >= b.len() {
        None
    } else if b[i] == 0 {
        Some(i)
    } else {
        first_zero_from(b, i + 1)
    }
}

/// The byte position of the first NUL in `s`.
pub open spec fn nul_position(s: Seq<char>) -> Option<int> {
    first_zero_from(encode_utf8(s), 0)
}

/// The byte position of the first NUL in the first string of `xs`, from
/// index `i` on, that holds one.
pub open spec fn first_nul_in(xs: Seq<Seq<char>>, i: int) -> Option<int>
    decreases xs.len() - i,
{
    if i < 0 || i >= xs.len() {
        None
    } else {
        match nul_position(xs[i]) {
            Some(p) => Some(p),
            None => first_nul_in(xs, i + 1),
        }
    }
}

/// The text that refuses a string with a NUL byte at `pos`.
pub open spec fn nul_text(label: Seq<char>, pos: int) -> Seq<char> {
    label + "nul byte found in provided data at position: "@ + decimal(pos as nat)
}

/// The environment entry `KEY=value`.
pub open spec fn env_entry(kv: (Seq<char>, Seq<char>)) -> Seq<char> {
    kv.0 + "="@ + kv.1
}

/// The entry added when the configuration sets no `PATH`.
pub open spec fn default_path_entry() -> Seq<char> {
    "PATH=/usr/local/bin:/usr/bin:/bin"@
}

/// Some variable of `vars` is named `PATH`.
pub open spec fn sets_path(vars: Seq<(Seq<char>, Seq<char>)>) -> bool {
    exists|i: int| 0 <= i < vars.len() && (#[trigger] vars[i]).0 == "PATH"@
}

/// What `execve` receives for `c`, or the text of the error that refuses it:
/// the path is checked first, then the arguments in order, then the
/// environment entries in order.
pub open spec fn exec_outcome(c: WorkloadConfigModel) -> Result<ExecPlanModel, Seq<char>> {
    let path = c.workload_binary_path;
    let envs = c.env_vars.map_values(|kv: (Seq<char>, Seq<char>)| env_entry(kv));
    match nul_position(path) {
        Some(p) => Err(nul_text("bad path: "@, p)),
        None => match first_nul_in(c.workload_args, 0) {
            Some(p) => Err(nul_text("bad arg: "@, p)),
            None => match first_nul_in(envs, 0) {
                Some(p) => Err(nul_text("bad env: "@, p)),
                None => Ok(
                    ExecPlanModel {
                        path,
                        argv: seq![path] + c.workload_args,
                        envp: if sets_path(c.env_vars) {
                            envs
                        } else {
                            envs.push(default_path_entry())
                        },
                    },
                ),
            },
        },
    }
}

/// The byte position of the first NUL in `s`.
fn find_nul(s: &str) -> (r: Option<usize>)
    ensures
        match r {
            Some(p) => nul_position(s@) == Some(p as int),
            None => nul_position(s@) is None,
        },
{
    let bytes = s.as_bytes();
    let mut i: usize = 0;
    while i < bytes.len()
        invariant
            i <= bytes@.len(),
            bytes@ == encode_utf8(s@),
            first_zero_from(bytes@, 0) == first_zero_from(bytes@, i as int),
        decreases bytes@.len() - i,
    {
        if bytes[i] == 0 {
            return Some(i);
        }
        i += 1;
    }
    None
}

fn nul_error(label: &str, pos: usize) -> (m: String)
    ensures
        m@ == nul_text(label@, pos as int),
{
    let p = decimal_string(pos as u64);
    join3(label, "nul byte found in provided data at position: ", p.as_str())
}

/// Whether some variable of `vars` is named `PATH`.
fn has_path_var(vars: &Vec<(String, String)>) -> (r: bool)
    ensures
        r == sets_path(vars.deep_view()),
{
    let key = String::from_str("PATH");
    let mut i: usize = 0;
    while i < vars.len()
        invariant
            i <= vars@.len(),
            key@ == "PATH"@,
            forall|j: int| 0 <= j < i ==> (#[trigger] vars.deep_view()[j]).0 != "PATH"@,
        decreases vars@.len() - i,
    {
        if vars[i].0 == key {
            assert(vars.deep_view()[i as int].0 == "PATH"@);
            return true;
        }
        i += 1;
    }
    false
}

/// Builds what `execve` receives to run the workload of `config`: the
/// binary path; the arguments, the path first; the environment entries
/// `KEY=value` in order, with a default `PATH` when the configuration sets
/// none. A string holding a NUL byte is refused with an exec error.
pub fn exec_plan(config: &WorkloadConfig) -> (r: Result<ExecPlan, GuestInitError>)
    ensures
        match (r, exec_outcome(config.deep_view())) {
            (Ok(plan), Ok(m)) => plan.deep_view() == m,
            (Err(e), Err(t)) => e matches GuestInitError::Exec(msg) && msg@ == t,
            _ => false,
        },
{
    let ghost c = config.deep_view();
    let ghost envs = c.env_vars.map_values(|kv: (Seq<char>, Seq<char>)| env_entry(kv));
    let path = config.workload_binary_path.clone();
    if let Some(p) = find_nul(path.as_str()) {
        return Err(GuestInitError::Exec(nul_error("bad path: ", p)));
    }
    let mut argv: Vec<String> = Vec::new();
    argv.push(path.clone());
    let args = &config.workload_args;
    let mut i: usize = 0;
    while i < args.len()
        invariant
            i <= args@.len(),
            args.deep_view() == c.workload_args,
            c == config.deep_view(),
            path@ == c.workload_binary_path,
            nul_position(c.workload_binary_path) is None,
            argv.deep_view() == seq![c.workload_binary_path] + c.workload_args.take(i as int),
            first_nul_in(c.workload_args, 0) == first_nul_in(c.workload_args, i as int),
        decreases args@.len() - i,
    {
        let arg = &args[i];
        if let Some(p) = find_nul(arg.as_str()) {
            proof {
                assert(arg@ == c.workload_args[i as int]);
                assert(first_nul_in(c.workload_args, i as int) == Some(p as int));
            }
            return Err(GuestInitError::Exec(nul_error("bad arg: ", p)));
        }
        let ghost before = argv.deep_view();
        argv.push(arg.clone());
        proof {
            assert(argv.deep_view() =~= before.push(c.workload_args[i as int]));
            assert(c.workload_args.take(i + 1) =~= c.workload_args.take(i as int).push(
                c.workload_args[i as int],
            ));
        }
        i += 1;
    }
    assert(c.workload_args.take(args@.len() as int) =~= c.workload_args);
    let vars = &config.env_vars;
    let mut envp: Vec<String> = Vec::new();
    let mut j: usize = 0;
    while j < vars.len()
        invariant
            j <= vars@.len(),
            vars.deep_view() == c.env_vars,
            c == config.deep_view(),
            envs == c.env_vars.map_values(|kv: (Seq<char>, Seq<char>)| env_entry(kv)),
            envp.deep_view() == envs.take(j as int),
            nul_position(c.workload_binary_path) is None,
            first_nul_in(c.workload_args, 0) is None,
            argv.deep_view() == seq![c.workload_binary_path] + c.workload_args,
            path@ == c.workload_binary_path,
            first_nul_in(envs, 0) == first_nul_in(envs, j as int),
        decreases vars@.len() - j,
    {
        let entry = join3(vars[j].0.as_str(), "=", vars[j].1.as_str());
        assert(entry@ == envs[j as int]);
        if let Some(p) = find_nul(entry.as_str()) {
            proof {
                assert(first_nul_in(envs, j as int) == Some(p as int));
            }
            return Err(GuestInitError::Exec(nul_error("bad env: ", p)));
        }
        let ghost before = envp.deep_view();
        envp.push(entry);
        proof {
            assert(envp.deep_view() =~= before.push(envs[j as int]));
            assert(envs.take(j + 1) =~= envs.take(j as int).push(envs[j as int]));
        }
        j += 1;
    }
    assert(envs.take(vars@.len() as int) =~= envs);
    if !has_path_var(vars) {
        let ghost before = envp.deep_view();
        envp.push(String::from_str("PATH=/usr/local/bin:/usr/bin:/bin"));
        assert(envp.deep_view() =~= before.push(default_path_entry()));
    }
    Ok(ExecPlan { path, argv, envp })
}

/// Environment law: each configured variable becomes `KEY=value`, in order,
/// and one more entry, `PATH=/usr/local/bin:/usr/bin:/bin`, is added exactly
/// when no variable, at any position, is named `PATH`.
pub proof fn lemma_default_path_only_when_unset(c: WorkloadConfigModel)
    ensures
        exec_outcome(c) matches Ok(m) ==> {
            let vars = c.env_vars;
            &&& forall|i: int|
                0 <= i < vars.len() ==> #[trigger] m.envp[i] == vars[i].0 + "="@ + vars[i].1
            &&& (exists|i: int| 0 <= i < vars.len() && (#[trigger] vars[i]).0 == "PATH"@)
                ==> m.envp.len() == vars.len()
            &&& (forall|i: int| 0 <= i < vars.len() ==> (#[trigger] vars[i]).0 != "PATH"@) ==> {
                &&& m.envp.len() == vars.len() + 1
                &&& m.envp[vars.len() as int] == "PATH=/usr/local/bin:/usr/bin:/bin"@
            }
        },
{
}

/// The scan for a zero byte from `i` finds none exactly when no byte from
/// `i` on is zero, and what it finds is a zero byte.
proof fn lemma_first_zero_from(b: Seq<u8>, i: int)
    requires
        0 <= i,
    ensures
        first_zero_from(b, i) is None <==> forall|j: int| i <= j < b.len() ==> b[j] != 0,
        first_zero_from(b, i) matches Some(p) ==> i <= p < b.len() && b[p] == 0,
    decreases b.len() - i,
{
    if i < b.len() && b[i] != 0 {
        lemma_first_zero_from(b, i + 1);
    }
}

/// The scan of `xs` from `i` finds no NUL exactly when no string from `i`
/// on holds a zero byte.
proof fn lemma_first_nul_in(xs: Seq<Seq<char>>, i: int)
    requires
        0 <= i,
    ensures
        first_nul_in(xs, i) is None <==> forall|k: int, j: int|
            #![trigger encode_utf8(xs[k])[j]]
            i <= k < xs.len() && 0 <= j < encode_utf8(xs[k]).len() ==> encode_utf8(xs[k])[j] != 0,
    decreases xs.len() - i,
{
    if i < xs.len() {
        lemma_first_zero_from(encode_utf8(xs[i]), 0);
        lemma_first_nul_in(xs, i + 1);
        if first_nul_in(xs, i) is None {
            assert forall|k: int, j: int|
                #![trigger encode_utf8(xs[k])[j]]
                i <= k < xs.len() && 0 <= j < encode_utf8(xs[k]).len() implies encode_utf8(
                xs[k],
            )[j] != 0 by {}
        }
    }
}

/// Argument law: a plan runs the configured binary, and its argument
/// vector is that binary's path followed by the configured arguments, in
/// order.
pub proof fn lemma_argv_path_first(c: WorkloadConfigModel)
    ensures
        exec_outcome(c) matches Ok(m) ==> {
            &&& m.path == c.workload_binary_path
            &&& m.argv.len() == c.workload_args.len() + 1
            &&& m.argv[0] == c.workload_binary_path
            &&& forall|i: int|
                0 <= i < c.workload_args.len() ==> #[trigger] m.argv[i + 1] == c.workload_args[i]
        },
{
}

/// Refusal law: the configuration is turned into a plan exactly when no
/// byte of the binary path, of an argument or of a `KEY=value` environment
/// entry is zero.
pub proof fn lemma_plan_iff_no_nul(c: WorkloadConfigModel)
    ensures
        exec_outcome(c) is Ok <==> {
            &&& forall|j: int|
                0 <= j < encode_utf8(c.workload_binary_path).len() ==> #[trigger] encode_utf8(
                    c.workload_binary_path,
                )[j] != 0
            &&& forall|k: int, j: int|
                #![trigger encode_utf8(c.workload_args[k])[j]]
                0 <= k < c.workload_args.len() && 0 <= j < encode_utf8(c.workload_args[k]).len()
                    ==> encode_utf8(c.workload_args[k])[j] != 0
            &&& forall|k: int, j: int|
                #![trigger encode_utf8(c.env_vars[k].0 + "="@ + c.env_vars[k].1)[j]]
                0 <= k < c.env_vars.len() && 0 <= j < encode_utf8(
                    c.env_vars[k].0 + "="@ + c.env_vars[k].1,
                ).len() ==> encode_utf8(c.env_vars[k].0 + "="@ + c.env_vars[k].1)[j] != 0
        },
{
    let envs = c.env_vars.map_values(|kv: (Seq<char>, Seq<char>)| env_entry(kv));
    lemma_first_zero_from(encode_utf8(c.workload_binary_path), 0);
    lemma_first_nul_in(c.workload_args, 0);
    lemma_first_nul_in(envs, 0);
    assert(envs.len() == c.env_vars.len());
    if first_nul_in(envs, 0) is None {
        assert forall|k: int, j: int|
            #![trigger encode_utf8(c.env_vars[k].0 + "="@ + c.env_vars[k].1)[j]]
            0 <= k < c.env_vars.len() && 0 <= j < encode_utf8(
                c.env_vars[k].0 + "="@ + c.env_vars[k].1,
            ).len() implies encode_utf8(c.env_vars[k].0 + "="@ + c.env_vars[k].1)[j] != 0 by {
            assert(envs[k] == c.env_vars[k].0 + "="@ + c.env_vars[k].1);
            assert(encode_utf8(envs[k])[j] != 0);
        }
    } else {
        let (k, j) = choose|k: int, j: int|
            #![trigger encode_utf8(envs[k])[j]]
            0 <= k < envs.len() && 0 <= j < encode_utf8(envs[k]).len() && encode_utf8(envs[k])[j]
                == 0;
        assert(envs[k] == c.env_vars[k].0 + "="@ + c.env_vars[k].1);
        assert(encode_utf8(c.env_vars[k].0 + "="@ + c.env_vars[k].1)[j] == 0);
    }
}

} // verus!
