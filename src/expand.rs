//! Planning a transformation: the configuration, the execution strategy,
//! the artefact paths and the argument order of dispatcher and kernel.
use vstd::prelude::*;
use vstd::string::*;

use crate::attrs::{
    chosen_datadir, config_matches, default_datadir, joined_path, params_of, Config, GwasmAttrs,
    GwasmParams,
};
use crate::error::{MissingSetting, TransformError};
use crate::protocol::kernel_args_of;
use crate::signature::{arg_error, param_of, validate_extract_args, FnArgDesc, GwasmFn, Param};

verus! {

/// How the generated dispatcher runs the computation; decided once, when
/// the function is transformed.
#[derive(Debug, Clone, Copy, PartialEq, Eq, Structural)]
pub enum Strategy {
    /// In the local sandbox engine.
    LocalSandbox,
    /// As a task on the distributed compute network.
    Distributed,
}

/// What the build environment decides: where artefacts go, and the strategy.
#[derive(Debug)]
pub struct BuildEnv {
    pub out_dir: String,
    pub strategy: Strategy,
}

impl BuildEnv {
    /// The build environment from its two variables: the output directory,
    /// which must be set, and whether the local toggle is present.
    pub fn from_vars(out_dir: Option<String>, local_toggle: bool) -> (r: Result<
        BuildEnv,
        TransformError,
    >)
        ensures
            match out_dir {
                Some(d) => r is Ok && r->Ok_0.out_dir == d && r->Ok_0.strategy == (if local_toggle {
                    Strategy::LocalSandbox
                } else {
                    Strategy::Distributed
                }),
                None => r == Err::<BuildEnv, TransformError>(
                    TransformError::MissingEnvironment(MissingSetting::OutputDirectory),
                ),
            },
    {
        match out_dir {
            Some(d) => {
                let strategy = if local_toggle {
                    Strategy::LocalSandbox
                } else {
                    Strategy::Distributed
                };
                Ok(BuildEnv { out_dir: d, strategy })
            },
            None => Err(TransformError::MissingEnvironment(MissingSetting::OutputDirectory)),
        }
    }
}

/// The body the generated dispatcher gets.
#[derive(Debug, PartialEq, Eq)]
pub enum DispatchPlan {
    /// Run in the local sandbox with one input file: the bytes of the
    /// parameter at `input_param`.
    LocalSandbox { input_param: usize },
    /// Submit a task with one subtask per entry, holding the bytes of the
    /// parameter at that index.
    Distributed { subtask_params: Vec<usize> },
}

/// Everything the code emitters need for one remotable function. Paths are
/// lists of components, the first being the output directory.
#[derive(Debug, PartialEq, Eq)]
pub struct Expansion {
    pub ident: String,
    pub params: Vec<Param>,
    pub config: Config,
    pub out_dir: String,
    /// The kernel's companion script.
    pub js_path: Vec<String>,
    /// The kernel's portable binary module.
    pub wasm_path: Vec<String>,
    /// Where the kernel program's source is written.
    pub kernel_path: Vec<String>,
    pub dispatch: DispatchPlan,
    /// `kernel_pops[k]` is the parameter that the `k`-th input popped from
    /// the end of the kernel's command line stands for.
    pub kernel_pops: Vec<usize>,
}

pub open spec fn path_views(p: Seq<String>) -> Seq<Seq<char>> {
    p.map_values(|s: String| s@)
}

/// `0, 1, ..., n - 1`
pub open spec fn in_order(n: nat) -> Seq<usize> {
    Seq::new(n, |i: int| i as usize)
}

/// `n - 1, n - 2, ..., 0`
pub open spec fn reversed(n: nat) -> Seq<usize> {
    Seq::new(n, |k: int| (n - 1 - k) as usize)
}

/// Whether a plan is the one for a function named `ident` with these
/// parameters, settings, data directory, output directory and toggle.
pub open spec fn expansion_matches(
    e: Expansion,
    ident: Seq<char>,
    params: Seq<Param>,
    p: GwasmParams,
    datadir: Seq<char>,
    out_dir: Seq<char>,
    local: bool,
) -> bool {
    let n = params.len();
    &&& e.ident@ == ident
    &&& e.params@ == params
    &&& config_matches(e.config, p, datadir)
    &&& e.out_dir@ == out_dir
    &&& path_views(e.js_path@) == seq![out_dir, "bin"@, ident + ".js"@]
    &&& path_views(e.wasm_path@) == seq![out_dir, "bin"@, ident + ".wasm"@]
    &&& path_views(e.kernel_path@) == seq![
        out_dir,
        "gfaas_modules"@,
        "src"@,
        "bin"@,
        ident + ".rs"@,
    ]
    &&& if local {
        e.dispatch == DispatchPlan::LocalSandbox { input_param: 0 }
    } else {
        e.dispatch is Distributed && e.dispatch->Distributed_subtask_params@ == in_order(n)
    }
    &&& e.kernel_pops@ == reversed(n)
}

fn path3(a: &String, b: &str, c: String) -> (r: Vec<String>)
    ensures
        path_views(r@) == seq![a@, b@, c@],
{
    let mut r: Vec<String> = Vec::new();
    r.push(a.clone());
    r.push(String::from_str(b));
    r.push(c);
    assert(path_views(r@) =~= seq![a@, b@, c@]);
    r
}

/// Plans the artefacts for a validated function, once its settings are
/// resolved; `fallback` is the data directory used when the settings name
/// none. The first missing piece decides the error: the data directory,
/// then the output directory, then a parameter.
pub fn build_expansion(
    ident: String,
    params: Vec<Param>,
    p: GwasmParams,
    fallback: Option<String>,
    out_dir: Option<String>,
    local_toggle: bool,
) -> (r: Result<Expansion, TransformError>)
    ensures
        chosen_datadir(p, fallback) is None ==> r == Err::<Expansion, TransformError>(
            TransformError::MissingEnvironment(MissingSetting::DataDirectory),
        ),
        chosen_datadir(p, fallback) is Some && out_dir is None ==> r == Err::<
            Expansion,
            TransformError,
        >(TransformError::MissingEnvironment(MissingSetting::OutputDirectory)),
        chosen_datadir(p, fallback) is Some && out_dir is Some && params@.len() == 0 ==> r
            == Err::<Expansion, TransformError>(TransformError::NoParameters),
        chosen_datadir(p, fallback) is Some && out_dir is Some && params@.len() > 0 ==> r is Ok
            && expansion_matches(
            r->Ok_0,
            ident@,
            params@,
            p,
            chosen_datadir(p, fallback)->0@,
            out_dir->0@,
            local_toggle,
        ),
{
    let config = match p.with_defaults(fallback) {
        Ok(c) => c,
        Err(e) => return Err(e),
    };
    let env = match BuildEnv::from_vars(out_dir, local_toggle) {
        Ok(b) => b,
        Err(e) => return Err(e),
    };
    let n = params.len();
    if n == 0 {
        return Err(TransformError::NoParameters);
    }
    let js_path = path3(&env.out_dir, "bin", ident.clone().concat(".js"));
    let wasm_path = path3(&env.out_dir, "bin", ident.clone().concat(".wasm"));
    let mut kernel_path: Vec<String> = Vec::new();
    kernel_path.push(env.out_dir.clone());
    kernel_path.push(String::from_str("gfaas_modules"));
    kernel_path.push(String::from_str("src"));
    kernel_path.push(String::from_str("bin"));
    kernel_path.push(ident.clone().concat(".rs"));
    assert(path_views(kernel_path@) =~= seq![
        env.out_dir@,
        "gfaas_modules"@,
        "src"@,
        "bin"@,
        ident@ + ".rs"@,
    ]);
    let mut kernel_pops: Vec<usize> = Vec::new();
    let mut k: usize = 0;
    while k < n
        invariant
            k <= n,
            kernel_pops@ =~= reversed(n as nat).take(k as int),
        decreases n - k,
    {
        kernel_pops.push(n - 1 - k);
        k = k + 1;
    }
    assert(reversed(n as nat).take(n as int) =~= reversed(n as nat));
    let dispatch = match env.strategy {
        Strategy::LocalSandbox => DispatchPlan::LocalSandbox { input_param: 0 },
        Strategy::Distributed => {
            let mut subtask_params: Vec<usize> = Vec::new();
            let mut i: usize = 0;
            while i < n
                invariant
                    i <= n,
                    subtask_params@ =~= in_order(n as nat).take(i as int),
                decreases n - i,
            {
                subtask_params.push(i);
                i = i + 1;
            }
            assert(in_order(n as nat).take(n as int) =~= in_order(n as nat));
            DispatchPlan::Distributed { subtask_params }
        },
    };
    Ok(
        Expansion {
            ident,
            params,
            config,
            out_dir: env.out_dir,
            js_path,
            wasm_path,
            kernel_path,
            dispatch,
            kernel_pops,
        },
    )
}

/// Whether every parameter entry is accepted.
pub open spec fn all_args_ok(args: Seq<FnArgDesc>) -> bool {
    forall|i: int| 0 <= i < args.len() ==> arg_error(#[trigger] args[i]) is None
}

/// The parameters of accepted entries.
pub open spec fn params_from(args: Seq<FnArgDesc>) -> Seq<Param> {
    args.map_values(|a: FnArgDesc| param_of(a))
}

/// Whether `e` is the error of the first refused parameter entry.
pub open spec fn first_arg_error(args: Seq<FnArgDesc>, e: TransformError) -> bool {
    exists|i: int|
        0 <= i < args.len() && (forall|j: int| 0 <= j < i ==> arg_error(#[trigger] args[j]) is None)
            && arg_error(#[trigger] args[i]) == Some(e)
}

/// Transforms one remotable function: resolves the annotation's settings,
/// validates the parameters, and plans dispatcher and kernel. The output
/// directory and the local toggle come from the build environment. When the
/// annotation names no data directory, the per-user one is looked up and
/// joined with `default`. Errors come in this order: annotation entries,
/// a missing parameter list, parameter entries, data directory, output
/// directory.
pub fn remote_fn_impl(
    attrs: &GwasmAttrs,
    f: GwasmFn,
    out_dir: Option<String>,
    local_toggle: bool,
) -> (r: Result<Expansion, TransformError>)
    ensures
        params_of(attrs.0@) is Err ==> r == Err::<Expansion, TransformError>(
            params_of(attrs.0@)->Err_0,
        ),
        params_of(attrs.0@) is Ok && f.args@.len() == 0 ==> r == Err::<Expansion, TransformError>(
            TransformError::NoParameters,
        ),
        params_of(attrs.0@) is Ok && f.args@.len() > 0 && !all_args_ok(f.args@) ==> r is Err
            && first_arg_error(f.args@, r->Err_0),
        params_of(attrs.0@) is Ok && f.args@.len() > 0 && all_args_ok(f.args@) && params_of(
            attrs.0@,
        )->Ok_0.datadir is Some ==> {
            let p = params_of(attrs.0@)->Ok_0;
            &&& out_dir is None ==> r == Err::<Expansion, TransformError>(
                TransformError::MissingEnvironment(MissingSetting::OutputDirectory),
            )
            &&& out_dir is Some ==> r is Ok && expansion_matches(
                r->Ok_0,
                f.ident@,
                params_from(f.args@),
                p,
                p.datadir->0@,
                out_dir->0@,
                local_toggle,
            )
        },
        params_of(attrs.0@) is Ok && f.args@.len() > 0 && all_args_ok(f.args@) && params_of(
            attrs.0@,
        )->Ok_0.datadir is None ==> {
            let p = params_of(attrs.0@)->Ok_0;
            ||| r == Err::<Expansion, TransformError>(
                TransformError::MissingEnvironment(MissingSetting::DataDirectory),
            )
            ||| out_dir is None && r == Err::<Expansion, TransformError>(
                TransformError::MissingEnvironment(MissingSetting::OutputDirectory),
            )
            ||| out_dir is Some && r is Ok && exists|b: Seq<char>|
                #[trigger] expansion_matches(
                    r->Ok_0,
                    f.ident@,
                    params_from(f.args@),
                    p,
                    joined_path(b, "default"@),
                    out_dir->0@,
                    local_toggle,
                )
        },
{
    let p = match GwasmParams::from_attrs(attrs) {
        Ok(p) => p,
        Err(e) => return Err(e),
    };
    let ghost fargs = f.args@;
    let params = match validate_extract_args(f.args) {
        Ok(ps) => ps,
        Err(e) => return Err(e),
    };
    assert(params@ =~= params_from(fargs));
    let fallback = if p.datadir.is_none() {
        default_datadir()
    } else {
        None
    };
    let ghost pp = p;
    let ghost fb = fallback;
    let r = build_expansion(f.ident, params, p, fallback, out_dir, local_toggle);
    proof {
        if r is Ok && pp.datadir is None {
            let b = choose|b: Seq<char>| fb->0@ == #[trigger] joined_path(b, "default"@);
            assert(expansion_matches(
                r->Ok_0,
                f.ident@,
                params_from(f.args@),
                pp,
                joined_path(b, "default"@),
                out_dir->0@,
                local_toggle,
            ));
        }
    }
    r
}

/// The planned pop order agrees with the kernel's argument reconstruction:
/// the `k`-th input popped after the output path, `argv[len - 2 - k]`, is
/// the input that the reconstruction gives to parameter `kernel_pops[k]`.
pub proof fn lemma_pop_order_matches_reconstruction(argv: Seq<String>, n: usize)
    requires
        argv.len() >= n + 1,
    ensures
        kernel_args_of(argv, n as nat) is Some,
        forall|k: int|
            0 <= k < n ==> (kernel_args_of(argv, n as nat)->0).1[#[trigger] reversed(
                n as nat,
            )[k] as int] == argv[argv.len() - 2 - k],
{
    assert forall|k: int| 0 <= k < n implies (kernel_args_of(argv, n as nat)->0).1[
        #[trigger] reversed(n as nat)[k] as int] == argv[argv.len() - 2 - k] by {
        assert(reversed(n as nat)[k] as int == n - 1 - k);
    }
}

} // verus!
