//! Building the command that launches the server, and finding the
//! compatibility layer that a Windows executable needs.
//!
//! The host looks; this module chooses. The host reports what it found on
//! the search path and in the directories of compatibility tools as
//! [`Probes`]. The layers are tried in a fixed order and the first that is
//! there wins: the multi-runtime launcher, then the latest Proton, then
//! `wine64`, then `wine`.

use vstd::prelude::*;
use crate::config::{ConfigModel, InstanceConfig, LaunchMode};
use crate::errors::{ErrorModel, InstanceError};
use crate::text::{
    append_texts, chars_of, has_prefix, is_lex_less, join_path, join_spec, lemma_lex_irreflexive,
    lemma_lex_total, lemma_lex_transitive, lemma_texts_push, lex_less, option_view, result_view,
    starts_with, texts,
};

verus! {

/// One entry of a directory of compatibility tools.
#[derive(Debug)]
pub struct ToolEntry {
    /// The directory that was listed.
    pub parent: String,
    /// The name of the entry in it.
    pub name: String,
}

/// The mathematical content of a [`ToolEntry`].
pub struct ToolModel {
    pub parent: Seq<char>,
    pub name: Seq<char>,
}

impl View for ToolEntry {
    type V = ToolModel;

    open spec fn view(&self) -> ToolModel {
        ToolModel { parent: self.parent@, name: self.name@ }
    }
}

/// The models of a list of entries, element by element.
pub open spec fn tool_models(tools: Seq<ToolEntry>) -> Seq<ToolModel> {
    Seq::new(tools.len(), |i: int| tools[i]@)
}

/// What the host found when it looked for compatibility layers.
#[derive(Debug)]
pub struct Probes {
    /// The path of the multi-runtime launcher, if it is on the search path.
    pub launcher: Option<String>,
    /// The entries of the directories of compatibility tools, in the order
    /// in which the directories are searched.
    pub tools: Vec<ToolEntry>,
    /// The path of `wine64`, if it is on the search path.
    pub wine64: Option<String>,
    /// The path of `wine`, if it is on the search path.
    pub wine: Option<String>,
}

/// The mathematical content of [`Probes`].
pub struct ProbesModel {
    pub launcher: Option<Seq<char>>,
    pub tools: Seq<ToolModel>,
    pub wine64: Option<Seq<char>>,
    pub wine: Option<Seq<char>>,
}

impl View for Probes {
    type V = ProbesModel;

    open spec fn view(&self) -> ProbesModel {
        ProbesModel {
            launcher: option_view(self.launcher),
            tools: tool_models(self.tools@),
            wine64: option_view(self.wine64),
            wine: option_view(self.wine),
        }
    }
}

// ---------------------------------------------------------------------------
// Where the host looks
// ---------------------------------------------------------------------------

/// The name of the multi-runtime launcher on the search path.
pub fn launcher_binary() -> (name: &'static str)
    ensures
        name@ == "umu-run"@,
{
    "umu-run"
}

/// The names of the Wine runtime on the search path, the 64-bit one first.
pub fn wine_binaries() -> (names: (&'static str, &'static str))
    ensures
        names.0@ == "wine64"@,
        names.1@ == "wine"@,
{
    ("wine64", "wine")
}

/// The directories, below a Steam installation, in which compatibility
/// tools are kept.
pub open spec fn tool_folders() -> Seq<Seq<char>> {
    seq!["steamapps/common"@, "compatibilitytools.d"@]
}

/// The places, below a home directory, at which Steam is installed.
pub open spec fn steam_roots() -> Seq<Seq<char>> {
    seq![".steam/steam"@, ".steam/root"@, ".local/share/Steam"@, "Library/Application Support/Steam"@]
}

/// The directories of compatibility tools below the home directory `home`:
/// for each place of a Steam installation, each folder of tools.
pub open spec fn tool_dirs_below(home: Seq<char>) -> Seq<Seq<char>> {
    Seq::new(
        steam_roots().len() * tool_folders().len(),
        |k: int|
            join_spec(
                join_spec(home, steam_roots()[k / tool_folders().len() as int]),
                tool_folders()[k % tool_folders().len() as int],
            ),
    )
}

/// The directories in which compatibility tools are looked for, in the
/// order of the search: first those of the service account `/home/steam`,
/// then those of the given home directory.
pub open spec fn compat_tool_dirs_spec(home: Option<Seq<char>>) -> Seq<Seq<char>> {
    tool_dirs_below("/home/steam"@) + match home {
        Some(h) => tool_dirs_below(h),
        None => Seq::empty(),
    }
}

fn push_tool_dirs(dirs: &mut Vec<String>, home: &str)
    ensures
        texts(final(dirs)@) == texts(old(dirs)@) + tool_dirs_below(home@),
{
    let roots = [".steam/steam", ".steam/root", ".local/share/Steam", "Library/Application Support/Steam"];
    let folders = ["steamapps/common", "compatibilitytools.d"];
    let ghost start = texts(dirs@);
    let ghost want = tool_dirs_below(home@);
    proof {
        assert(steam_roots().len() == 4);
        assert(tool_folders().len() == 2);
        assert(want.len() == 8) by (nonlinear_arith)
            requires
                want.len() == steam_roots().len() * tool_folders().len(),
                steam_roots().len() == 4,
                tool_folders().len() == 2,
        ;
    }
    let mut r: usize = 0;
    assert(texts(dirs@) =~= start + want.subrange(0, 0));
    while r < 4
        invariant
            r <= 4,
            roots@ == seq![
                ".steam/steam",
                ".steam/root",
                ".local/share/Steam",
                "Library/Application Support/Steam",
            ],
            folders@ == seq!["steamapps/common", "compatibilitytools.d"],
            want == tool_dirs_below(home@),
            want.len() == 8,
            texts(dirs@) == start + want.subrange(0, 2 * r),
        decreases 4 - r,
    {
        let root = join_path(home, roots[r]);
        let first = join_path(root.as_str(), folders[0]);
        let second = join_path(root.as_str(), folders[1]);
        proof {
            assert(steam_roots()[r as int] == roots@[r as int]@);
            assert(tool_folders()[0] == folders@[0]@);
            assert(tool_folders()[1] == folders@[1]@);
            assert((2 * r) / 2 == r && (2 * r) % 2 == 0);
            assert((2 * r + 1) / 2 == r && (2 * r + 1) % 2 == 1);
            assert(want[2 * r] == first@);
            assert(want[2 * r + 1] == second@);
            lemma_texts_push(dirs@, first);
            lemma_texts_push(dirs@.push(first), second);
            assert(want.subrange(0, 2 * r + 2) =~= want.subrange(0, 2 * r).push(first@).push(
                second@,
            ));
        }
        dirs.push(first);
        dirs.push(second);
        r += 1;
        assert(texts(dirs@) =~= start + want.subrange(0, 2 * r));
    }
    assert(want.subrange(0, 8) =~= want);
}

/// The directories in which the host lists compatibility tools, in the
/// order of the search. `home` is the home directory of the user, where it
/// is known.
pub fn compat_tool_dirs(home: Option<&str>) -> (dirs: Vec<String>)
    ensures
        texts(dirs@) == compat_tool_dirs_spec(crate::text::option_view(home)),
{
    let mut dirs: Vec<String> = Vec::new();
    push_tool_dirs(&mut dirs, "/home/steam");
    assert(Seq::<Seq<char>>::empty() + tool_dirs_below("/home/steam"@) =~= tool_dirs_below(
        "/home/steam"@,
    ));
    match home {
        Some(h) => {
            push_tool_dirs(&mut dirs, h);
        },
        None => {
            assert(texts(dirs@) + Seq::<Seq<char>>::empty() =~= texts(dirs@));
        },
    }
    dirs
}

// ---------------------------------------------------------------------------
// Proton
// ---------------------------------------------------------------------------

/// Whether an entry is an installation of Proton: its name begins with
/// `Proton`.
pub open spec fn is_proton(entry: ToolModel) -> bool {
    has_prefix(entry.name, "Proton"@)
}

/// Whether entry `i` is the latest Proton among `tools`: it is an
/// installation of Proton, none has a name that comes after its name, and
/// those before it in the search have names that come before its own.
pub open spec fn latest_proton(tools: Seq<ToolModel>, i: int) -> bool {
    &&& 0 <= i < tools.len()
    &&& is_proton(tools[i])
    &&& forall|j: int|
        0 <= j < tools.len() && is_proton(#[trigger] tools[j]) ==> !lex_less(
            tools[i].name,
            tools[j].name,
        )
    &&& forall|j: int|
        0 <= j < i && is_proton(#[trigger] tools[j]) ==> lex_less(tools[j].name, tools[i].name)
}

/// At most one entry is the latest Proton.
pub proof fn lemma_latest_proton_unique(tools: Seq<ToolModel>, i: int, j: int)
    requires
        latest_proton(tools, i),
        latest_proton(tools, j),
    ensures
        i == j,
{
    if i < j {
        assert(is_proton(tools[i]));
        assert(lex_less(tools[i].name, tools[j].name));
        assert(is_proton(tools[j]));
        assert(!lex_less(tools[i].name, tools[j].name));
    } else if j < i {
        assert(is_proton(tools[j]));
        assert(lex_less(tools[j].name, tools[i].name));
        assert(is_proton(tools[i]));
        assert(!lex_less(tools[j].name, tools[i].name));
    }
}

/// The latest Proton among `tools`, if there is an installation of Proton
/// at all.
pub open spec fn proton_choice(tools: Seq<ToolModel>) -> Option<int> {
    if exists|i: int| latest_proton(tools, i) {
        Some(choose|i: int| latest_proton(tools, i))
    } else {
        None
    }
}

/// The position of the latest Proton among `tools`; `None` where no entry
/// is an installation of Proton.
pub fn find_latest_proton(tools: &Vec<ToolEntry>) -> (found: Option<usize>)
    ensures
        match found {
            Some(i) => latest_proton(tool_models(tools@), i as int),
            None => forall|j: int|
                0 <= j < tools.len() ==> !is_proton(#[trigger] tool_models(tools@)[j]),
        },
        found matches Some(i) ==> proton_choice(tool_models(tools@)) == Some(i as int),
        found is None ==> proton_choice(tool_models(tools@)) is None,
{
    let ghost models = tool_models(tools@);
    let mut best: Option<usize> = None;
    let mut best_name: Vec<char> = Vec::new();
    let mut k: usize = 0;
    while k < tools.len()
        invariant
            k <= tools.len(),
            models == tool_models(tools@),
            match best {
                Some(b) => {
                    &&& b < k
                    &&& best_name@ == models[b as int].name
                    &&& is_proton(models[b as int])
                    &&& forall|j: int|
                        0 <= j < k && is_proton(#[trigger] models[j]) ==> !lex_less(
                            models[b as int].name,
                            models[j].name,
                        )
                    &&& forall|j: int|
                        0 <= j < b && is_proton(#[trigger] models[j]) ==> lex_less(
                            models[j].name,
                            models[b as int].name,
                        )
                },
                None => forall|j: int| 0 <= j < k ==> !is_proton(#[trigger] models[j]),
            },
        decreases tools.len() - k,
    {
        assert(models[k as int] == tools@[k as int]@);
        let entry = &tools[k];
        if starts_with(entry.name.as_str(), "Proton") {
            let name = chars_of(entry.name.as_str());
            match best {
                None => {
                    proof {
                        lemma_lex_irreflexive(name@, 0);
                    }
                    best = Some(k);
                    best_name = name;
                },
                Some(b) => {
                    if is_lex_less(&best_name, &name) {
                        proof {
                            let old_name = models[b as int].name;
                            lemma_lex_irreflexive(name@, 0);
                            assert forall|j: int|
                                0 <= j < k + 1 && is_proton(
                                    #[trigger] models[j],
                                ) implies !lex_less(name@, models[j].name) by {
                                if j < k && lex_less(name@, models[j].name) {
                                    lemma_lex_transitive(old_name, name@, models[j].name, 0);
                                }
                            }
                            assert forall|j: int|
                                0 <= j < k && is_proton(#[trigger] models[j]) implies lex_less(
                                models[j].name,
                                name@,
                            ) by {
                                if lex_less(models[j].name, old_name) {
                                    lemma_lex_transitive(models[j].name, old_name, name@, 0);
                                } else {
                                    lemma_lex_total(old_name, models[j].name, 0);
                                    assert(old_name.subrange(0, old_name.len() as int)
                                        == old_name);
                                    assert(models[j].name.subrange(
                                        0,
                                        models[j].name.len() as int,
                                    ) == models[j].name);
                                }
                            }
                        }
                        best = Some(k);
                        best_name = name;
                    }
                },
            }
        }
        k += 1;
    }
    proof {
        match best {
            Some(b) => {
                assert(latest_proton(models, b as int));
                let c = choose|i: int| latest_proton(models, i);
                lemma_latest_proton_unique(models, b as int, c);
            },
            None => {
                assert forall|i: int| !latest_proton(models, i) by {
                    if 0 <= i < models.len() {
                        assert(!is_proton(models[i]));
                    }
                }
            },
        }
    }
    best
}

/// The executable of the Proton installation `entry`.
pub open spec fn proton_executable(entry: ToolModel) -> Seq<char> {
    join_spec(join_spec(entry.parent, entry.name), "proton"@)
}

/// The executable of the latest Proton among `tools`, or the reason why
/// there is none.
pub open spec fn proton_found(tools: Seq<ToolModel>) -> Result<Seq<char>, Seq<char>> {
    match proton_choice(tools) {
        Some(i) => Ok(proton_executable(tools[i])),
        None => Err("No Proton installation found."@),
    }
}

/// The executable of the latest Proton among the entries of the tool
/// directories: of the entries whose name begins with `Proton`, the one
/// whose name is greatest in lexicographic order; among entries of the
/// same name, the one found first.
pub fn find_proton(tools: &Vec<ToolEntry>) -> (found: Result<String, String>)
    ensures
        result_view(found) == proton_found(tool_models(tools@)),
{
    match find_latest_proton(tools) {
        Some(i) => {
            assert(tool_models(tools@)[i as int] == tools@[i as int]@);
            let entry = &tools[i];
            let home = join_path(entry.parent.as_str(), entry.name.as_str());
            Ok(join_path(home.as_str(), "proton"))
        },
        None => Err(String::from_str("No Proton installation found.")),
    }
}

// ---------------------------------------------------------------------------
// Wine
// ---------------------------------------------------------------------------

/// The Wine runtime to use: `wine64` where it was found, else `wine`, else
/// the reason why there is none.
pub open spec fn wine_found(wine64: Option<Seq<char>>, wine: Option<Seq<char>>) -> Result<
    Seq<char>,
    Seq<char>,
> {
    match wine64 {
        Some(path) => Ok(path),
        None => match wine {
            Some(path) => Ok(path),
            None => Err("Neither 'wine64' nor 'wine' was found in the system's PATH."@),
        },
    }
}

/// The Wine runtime to use; the 64-bit runtime is preferred.
pub fn fine_wine(wine64: &Option<String>, wine: &Option<String>) -> (found: Result<String, String>)
    ensures
        result_view(found) == wine_found(option_view(*wine64), option_view(*wine)),
{
    match wine64 {
        Some(path) => Ok(path.clone()),
        None => match wine {
            Some(path) => Ok(path.clone()),
            None => Err(
                String::from_str("Neither 'wine64' nor 'wine' was found in the system's PATH."),
            ),
        },
    }
}

// ---------------------------------------------------------------------------
// The chain of layers
// ---------------------------------------------------------------------------

/// A compatibility layer that was found on the host.
#[derive(Debug)]
pub enum CompatLayer {
    /// The multi-runtime launcher, at this path.
    Launcher(String),
    /// Proton, with its executable at this path.
    Proton(String),
    /// The Wine runtime, at this path.
    Wine(String),
}

/// The mathematical content of a [`CompatLayer`].
pub enum LayerModel {
    Launcher(Seq<char>),
    Proton(Seq<char>),
    Wine(Seq<char>),
}

impl View for CompatLayer {
    type V = LayerModel;

    open spec fn view(&self) -> LayerModel {
        match self {
            CompatLayer::Launcher(p) => LayerModel::Launcher(p@),
            CompatLayer::Proton(p) => LayerModel::Proton(p@),
            CompatLayer::Wine(p) => LayerModel::Wine(p@),
        }
    }
}

/// The error for a host without any compatibility layer.
pub open spec fn no_layer() -> ErrorModel {
    ErrorModel::Unknown("No suitable compatibility layer found."@)
}

/// The layer that the chain selects: the launcher if it is there, else the
/// latest Proton if there is one, else `wine64`, else `wine`; an error if
/// nothing is there.
pub open spec fn selected_layer(probes: ProbesModel) -> Result<LayerModel, ErrorModel> {
    match probes.launcher {
        Some(path) => Ok(LayerModel::Launcher(path)),
        None => match proton_found(probes.tools) {
            Ok(path) => Ok(LayerModel::Proton(path)),
            Err(_) => match wine_found(probes.wine64, probes.wine) {
                Ok(path) => Ok(LayerModel::Wine(path)),
                Err(_) => Err(no_layer()),
            },
        },
    }
}

/// Selects the compatibility layer for a Windows executable from what the
/// host found. The layers are tried in a fixed order and the first that is
/// there is taken. Without any layer the executable is not run at all.
pub fn resolve_compat_layer(probes: &Probes) -> (layer: Result<CompatLayer, InstanceError>)
    ensures
        result_view(layer) == selected_layer(probes@),
{
    match &probes.launcher {
        Some(path) => Ok(CompatLayer::Launcher(path.clone())),
        None => match find_proton(&probes.tools) {
            Ok(path) => Ok(CompatLayer::Proton(path)),
            Err(_) => match fine_wine(&probes.wine64, &probes.wine) {
                Ok(path) => Ok(CompatLayer::Wine(path)),
                Err(_) => Err(
                    InstanceError::Unknown(
                        String::from_str("No suitable compatibility layer found."),
                    ),
                ),
            },
        },
    }
}

/// The launcher wins whenever it is there, whatever else was found.
pub proof fn lemma_launcher_wins(probes: ProbesModel)
    requires
        probes.launcher is Some,
    ensures
        selected_layer(probes) == Ok::<LayerModel, ErrorModel>(
            LayerModel::Launcher(probes.launcher->0),
        ),
{
}

/// Without the launcher, the latest Proton wins over any Wine runtime.
pub proof fn lemma_proton_before_wine(probes: ProbesModel, i: int)
    requires
        probes.launcher is None,
        latest_proton(probes.tools, i),
    ensures
        selected_layer(probes) == Ok::<LayerModel, ErrorModel>(
            LayerModel::Proton(proton_executable(probes.tools[i])),
        ),
{
    let c = choose|k: int| latest_proton(probes.tools, k);
    lemma_latest_proton_unique(probes.tools, i, c);
}

/// Without the launcher and without Proton, `wine64` wins over `wine`, and
/// `wine` is taken where it alone is there.
pub proof fn lemma_wine_comes_last(probes: ProbesModel)
    requires
        probes.launcher is None,
        forall|j: int| 0 <= j < probes.tools.len() ==> !is_proton(#[trigger] probes.tools[j]),
    ensures
        probes.wine64 is Some ==> selected_layer(probes) == Ok::<LayerModel, ErrorModel>(
            LayerModel::Wine(probes.wine64->0),
        ),
        probes.wine64 is None && probes.wine is Some ==> selected_layer(probes) == Ok::<
            LayerModel,
            ErrorModel,
        >(LayerModel::Wine(probes.wine->0)),
        probes.wine64 is None && probes.wine is None ==> selected_layer(probes) == Err::<
            LayerModel,
            ErrorModel,
        >(no_layer()),
{
    assert forall|i: int| !latest_proton(probes.tools, i) by {
        if 0 <= i < probes.tools.len() {
            assert(!is_proton(probes.tools[i]));
        }
    }
}

// ---------------------------------------------------------------------------
// The launch
// ---------------------------------------------------------------------------

/// Everything the host needs to start the server process.
#[derive(Debug)]
pub struct LaunchPlan {
    /// The program to run.
    pub program: String,
    /// Its arguments.
    pub args: Vec<String>,
    /// Variables to set in its environment, as pairs of name and value.
    pub env: Vec<(String, String)>,
    /// The directory in which it runs.
    pub working_dir: String,
    /// The directory of the log files, to be created if it is missing.
    pub log_dir: String,
    /// The file, emptied first, that receives its standard output.
    pub stdout: String,
    /// The file, emptied first, that receives its standard error.
    pub stderr: String,
}

/// The mathematical content of a [`LaunchPlan`].
pub struct PlanModel {
    pub program: Seq<char>,
    pub args: Seq<Seq<char>>,
    pub env: Seq<(Seq<char>, Seq<char>)>,
    pub working_dir: Seq<char>,
    pub log_dir: Seq<char>,
    pub stdout: Seq<char>,
    pub stderr: Seq<char>,
}

/// The models of a list of pairs of strings, element by element.
pub open spec fn pair_texts(pairs: Seq<(String, String)>) -> Seq<(Seq<char>, Seq<char>)> {
    Seq::new(pairs.len(), |i: int| (pairs[i].0@, pairs[i].1@))
}

impl View for LaunchPlan {
    type V = PlanModel;

    open spec fn view(&self) -> PlanModel {
        PlanModel {
            program: self.program@,
            args: texts(self.args@),
            env: pair_texts(self.env@),
            working_dir: self.working_dir@,
            log_dir: self.log_dir@,
            stdout: self.stdout@,
            stderr: self.stderr@,
        }
    }
}

/// The program that is run for `config`: the server's own command where it
/// runs natively, else the layer.
pub open spec fn plan_program(config: ConfigModel, layer: Option<LayerModel>) -> Seq<char> {
    match layer {
        None => config.command,
        Some(LayerModel::Launcher(path)) => path,
        Some(LayerModel::Proton(path)) => path,
        Some(LayerModel::Wine(path)) => path,
    }
}

/// The arguments of the program: what the layer needs to be told, then the
/// server's own launch arguments.
pub open spec fn plan_args(config: ConfigModel, layer: Option<LayerModel>) -> Seq<Seq<char>> {
    (match layer {
        None => Seq::empty(),
        Some(LayerModel::Launcher(_)) => seq![config.command],
        Some(LayerModel::Proton(_)) => seq!["run"@, config.command],
        Some(LayerModel::Wine(_)) => seq![config.command],
    }) + config.launch_args
}

/// The environment of the program: Proton keeps its data in `compatdata`
/// in the working directory; nothing else is set.
pub open spec fn plan_env(config: ConfigModel, layer: Option<LayerModel>) -> Seq<
    (Seq<char>, Seq<char>),
> {
    match layer {
        Some(LayerModel::Proton(_)) => seq![
            ("STEAM_COMPAT_DATA_PATH"@, join_spec(config.working_dir, "compatdata"@)),
        ],
        _ => Seq::empty(),
    }
}

/// The launch of the server of `config` through `layer`, or natively
/// without one.
pub open spec fn launch_plan(config: ConfigModel, layer: Option<LayerModel>) -> PlanModel {
    PlanModel {
        program: plan_program(config, layer),
        args: plan_args(config, layer),
        env: plan_env(config, layer),
        working_dir: config.working_dir,
        log_dir: config.log_dir(),
        stdout: config.stdout(),
        stderr: config.stderr(),
    }
}

/// The launch that `launch_server` plans: a native server is run as it
/// is; any other needs the layer that the chain selects, and is not run
/// without one.
pub open spec fn planned_launch(config: ConfigModel, probes: ProbesModel) -> Result<
    PlanModel,
    ErrorModel,
> {
    if config.launch_mode == LaunchMode::Native {
        Ok(launch_plan(config, None))
    } else {
        match selected_layer(probes) {
            Ok(layer) => Ok(launch_plan(config, Some(layer))),
            Err(e) => Err(e),
        }
    }
}

/// The launch of the server of `config` through `layer`, or natively
/// without one.
pub fn plan_launch(config: &InstanceConfig, layer: Option<&CompatLayer>) -> (plan: LaunchPlan)
    ensures
        plan@ == launch_plan(
            config@,
            match layer {
                Some(l) => Some(l@),
                None => None,
            },
        ),
{
    let mut args: Vec<String> = Vec::new();
    let mut env: Vec<(String, String)> = Vec::new();
    let ghost model = match layer {
        Some(l) => Some(l@),
        None => None,
    };
    let program = match layer {
        None => config.command.clone(),
        Some(CompatLayer::Launcher(path)) => {
            let command = config.command.clone();
            proof {
                lemma_texts_push(args@, command);
            }
            args.push(command);
            path.clone()
        },
        Some(CompatLayer::Proton(path)) => {
            let run = String::from_str("run");
            let command = config.command.clone();
            proof {
                lemma_texts_push(args@, run);
                lemma_texts_push(args@.push(run), command);
            }
            args.push(run);
            args.push(command);
            env.push(
                (
                    String::from_str("STEAM_COMPAT_DATA_PATH"),
                    join_path(config.working_dir.as_str(), "compatdata"),
                ),
            );
            path.clone()
        },
        Some(CompatLayer::Wine(path)) => {
            let command = config.command.clone();
            proof {
                lemma_texts_push(args@, command);
            }
            args.push(command);
            path.clone()
        },
    };
    proof {
        assert(texts(args@) =~= match model {
            None => Seq::<Seq<char>>::empty(),
            Some(LayerModel::Launcher(_)) => seq![config@.command],
            Some(LayerModel::Proton(_)) => seq!["run"@, config@.command],
            Some(LayerModel::Wine(_)) => seq![config@.command],
        });
        assert(pair_texts(env@) =~= plan_env(config@, model));
    }
    append_texts(&mut args, &config.launch_args);
    LaunchPlan {
        program,
        args,
        env,
        working_dir: config.working_dir.clone(),
        log_dir: config.log_dir(),
        stdout: config.stdout(),
        stderr: config.stderr(),
    }
}

/// Plans the launch of the server: the program and its arguments, its
/// environment, its working directory, and the log files that receive its
/// output. A server that does not run natively is run through the
/// compatibility layer that the chain selects from `probes`; where the
/// host has none, the launch fails and the executable is not run.
pub fn launch_server(config: &InstanceConfig, probes: &Probes) -> (plan: Result<
    LaunchPlan,
    InstanceError,
>)
    ensures
        result_view(plan) == planned_launch(config@, probes@),
{
    match config.launch_mode {
        LaunchMode::Native => Ok(plan_launch(config, None)),
        _ => match resolve_compat_layer(probes) {
            Ok(layer) => Ok(plan_launch(config, Some(&layer))),
            Err(e) => Err(e),
        },
    }
}

} // verus!
