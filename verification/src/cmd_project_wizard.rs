//! Project wizard decisions: the manifest cache, the new project's
//! directory, and the configuration a fully specified command line gives.

use vstd::prelude::*;
use vstd::string::StringExecFns;
use vstd::string::StrSliceExecFns;
use vstd::utf8::encode_utf8;
use crate::device::{bytes_eq_ignore_ascii_case, eq_ignore_ascii_case};

verus! {

/// A character ends a path component: `/` everywhere, and the platform's own
/// separator `sep`.
pub open spec fn is_separator(c: char, sep: char) -> bool {
    c == '/' || c == sep
}

/// `comp` joined under `base`: a separator is put between them unless `base`
/// is empty or already ends with one.
pub open spec fn joined(base: Seq<char>, comp: Seq<char>, sep: char) -> Seq<char> {
    if base.len() == 0 || is_separator(base.last(), sep) {
        base + comp
    } else {
        base + seq![sep] + comp
    }
}

/// Joins the relative component `comp` under `base`, with `sep` (a string of
/// one character) as the separator it puts between them.
pub fn join_path(base: &str, comp: &str, sep: &str) -> (p: String)
    requires
        sep@.len() == 1,
    ensures
        p@ == joined(base@, comp@, sep@[0]),
{
    let mut p = base.to_owned();
    let n = base.unicode_len();
    if n > 0 {
        let last = base.get_char(n - 1);
        let s = sep.get_char(0);
        if last != '/' && last != s {
            p.append(sep);
        }
    }
    p.append(comp);
    proof {
        assert(sep@ =~= seq![sep@[0]]);
    }
    p
}

/// The home directory: `USERPROFILE`, else `HOME`, else the current
/// directory, else `.`; each given as read from the environment, `None` where
/// it is not set.
pub fn home_dir_choice(userprofile: Option<&str>, home: Option<&str>, cwd: Option<&str>) -> (p: String)
    ensures
        p@ == match (userprofile, home, cwd) {
            (Some(u), _, _) => u@,
            (None, Some(h), _) => h@,
            (None, None, Some(c)) => c@,
            (None, None, None) => "."@,
        },
{
    match (userprofile, home, cwd) {
        (Some(u), _, _) => u.to_owned(),
        (None, Some(h), _) => h.to_owned(),
        (None, None, Some(c)) => c.to_owned(),
        (None, None, None) => ".".to_owned(),
    }
}

/// The manifest cache: `.luatos/manifest_cache.json` under the home directory,
/// joined with the platform separator `sep`.
pub fn manifest_cache_path(home: &str, sep: &str) -> (p: String)
    requires
        sep@.len() == 1,
    ensures
        p@ == joined(joined(home@, ".luatos"@, sep@[0]), "manifest_cache.json"@, sep@[0]),
{
    let dir = join_path(home, ".luatos", sep);
    join_path(dir.as_str(), "manifest_cache.json", sep)
}

/// The project directory: the one given, else `./<project name>`.
pub fn resolve_project_dir(dir_arg: Option<&str>, project_name: &str) -> (p: String)
    ensures
        p@ == match dir_arg {
            Some(d) => d@,
            None => "./"@ + project_name@,
        },
{
    match dir_arg {
        Some(d) => d.to_owned(),
        None => {
            let mut p = "./".to_owned();
            p.append(project_name);
            p
        },
    }
}

/// Two names equal ignoring ASCII case.
pub open spec fn same_name(a: Seq<char>, b: Seq<char>) -> bool {
    eq_ignore_ascii_case(encode_utf8(a), encode_utf8(b))
}

/// Compares two names ignoring ASCII case.
pub fn names_match(a: &str, b: &str) -> (r: bool)
    ensures
        r == same_name(a@, b@),
{
    bytes_eq_ignore_ascii_case(a.as_bytes(), b.as_bytes())
}

/// A firmware release of a model.
#[derive(Debug, Clone, PartialEq, Eq)]
pub struct VersionEntry {
    pub version_name: String,
    pub filename: String,
    pub size: u64,
}

/// A module model and its firmware releases, newest first.
#[derive(Debug, Clone, PartialEq, Eq)]
pub struct ModelInfo {
    pub name: String,
    pub chip: String,
    pub bitw: u32,
    pub versions: Vec<VersionEntry>,
}

/// The wizard's command-line answers; a missing one is asked for.
#[derive(Debug, Clone, PartialEq, Eq)]
pub struct WizardArgs {
    pub project_name: Option<String>,
    pub project_dir: Option<String>,
    pub model: Option<String>,
    pub firmware_version: Option<String>,
    pub template: Option<String>,
    pub port: Option<String>,
    pub soc_script: Option<String>,
    /// Skip the git repository.
    pub no_git: bool,
    /// Skip the firmware and soc_script downloads.
    pub no_download: bool,
}

/// What the wizard creates.
#[derive(Debug, Clone, PartialEq, Eq)]
pub struct WizardConfig {
    pub project_name: String,
    pub project_dir: String,
    pub model: ModelInfo,
    pub selected_version: Option<VersionEntry>,
    pub download_firmware: bool,
    /// The template name as given; an absent or unknown name means the
    /// hello-world template.
    pub template_name: Option<String>,
    pub port: Option<String>,
    pub soc_script: String,
    pub download_soc_script: bool,
    pub git_init: bool,
}

/// Why a fully specified wizard run cannot start.
#[derive(Debug, Clone, Copy, PartialEq, Eq, Structural)]
pub enum WizardError {
    /// No project name.
    MissingName,
    /// No model.
    MissingModel,
    /// The model is not in the list.
    UnknownModel,
}

/// The first model with this name (ignoring ASCII case).
pub open spec fn first_model_named(models: Seq<ModelInfo>, name: Seq<char>) -> Option<ModelInfo>
    decreases models.len(),
{
    if models.len() == 0 {
        None
    } else if same_name(models[0].name@, name) {
        Some(models[0])
    } else {
        first_model_named(models.drop_first(), name)
    }
}

/// The first release with this name (ignoring ASCII case).
pub open spec fn first_version_named(versions: Seq<VersionEntry>, name: Seq<char>) -> Option<VersionEntry>
    decreases versions.len(),
{
    if versions.len() == 0 {
        None
    } else if same_name(versions[0].version_name@, name) {
        Some(versions[0])
    } else {
        first_version_named(versions.drop_first(), name)
    }
}

/// The index of the first model with this name.
pub fn find_model(models: &Vec<ModelInfo>, name: &str) -> (r: Option<usize>)
    ensures
        match r {
            Some(i) => i < models@.len() && first_model_named(models@, name@) == Some(models@[i as int]),
            None => first_model_named(models@, name@) is None,
        },
{
    let mut i: usize = 0;
    assert(models@.skip(0) =~= models@);
    while i < models.len()
        invariant
            i <= models@.len(),
            first_model_named(models@, name@) == first_model_named(models@.skip(i as int), name@),
        decreases models@.len() - i,
    {
        assert(models@.skip(i as int).drop_first() =~= models@.skip(i + 1));
        if names_match(models[i].name.as_str(), name) {
            return Some(i);
        }
        i = i + 1;
    }
    None
}

/// The index of the first release with this name.
pub fn find_version(versions: &Vec<VersionEntry>, name: &str) -> (r: Option<usize>)
    ensures
        match r {
            Some(i) => i < versions@.len() && first_version_named(versions@, name@) == Some(versions@[i as int]),
            None => first_version_named(versions@, name@) is None,
        },
{
    let mut i: usize = 0;
    assert(versions@.skip(0) =~= versions@);
    while i < versions.len()
        invariant
            i <= versions@.len(),
            first_version_named(versions@, name@) == first_version_named(versions@.skip(i as int), name@),
        decreases versions@.len() - i,
    {
        assert(versions@.skip(i as int).drop_first() =~= versions@.skip(i + 1));
        if names_match(versions[i].version_name.as_str(), name) {
            return Some(i);
        }
        i = i + 1;
    }
    None
}

fn copy_version(v: &VersionEntry) -> (r: VersionEntry)
    ensures
        r == *v,
{
    VersionEntry { version_name: v.version_name.clone(), filename: v.filename.clone(), size: v.size }
}

/// Every answer the wizard would otherwise ask for is given: a name, a
/// template, and a model that is in the list.
pub fn is_fully_specified(args: &WizardArgs, models: &Vec<ModelInfo>) -> (r: bool)
    ensures
        r == (args.project_name is Some && args.template is Some && match args.model {
            Some(m) => first_model_named(models@, m@) is Some,
            None => false,
        }),
{
    if args.project_name.is_none() || args.template.is_none() {
        return false;
    }
    match &args.model {
        Some(m) => find_model(models, m.as_str()).is_some(),
        None => false,
    }
}

/// The release a run installs: the one named, else the newest.
pub open spec fn chosen_version(versions: Seq<VersionEntry>, wanted: Option<String>) -> Option<VersionEntry> {
    match wanted {
        Some(w) => first_version_named(versions, w@),
        None => if versions.len() > 0 { Some(versions[0]) } else { None },
    }
}

/// The configuration of a fully specified wizard run.
pub fn build_config_noninteractive(args: WizardArgs, models: Vec<ModelInfo>) -> (r: Result<WizardConfig, WizardError>)
    ensures
        match r {
            Err(WizardError::MissingName) => args.project_name is None,
            Err(WizardError::MissingModel) => args.project_name is Some && args.model is None,
            Err(WizardError::UnknownModel) => args.project_name is Some && args.model is Some && first_model_named(
                models@,
                args.model->0@,
            ) is None,
            Ok(c) => {
                &&& args.project_name == Some(c.project_name)
                &&& args.model is Some
                &&& first_model_named(models@, args.model->0@) == Some(c.model)
                &&& c.selected_version == chosen_version(c.model.versions@, args.firmware_version)
                &&& c.download_firmware == (!args.no_download && c.selected_version is Some)
                &&& c.template_name == args.template
                &&& c.port == args.port
                &&& c.soc_script@ == match args.soc_script {
                    Some(s) => s@,
                    None => "latest"@,
                }
                &&& c.download_soc_script == (!args.no_download && c.soc_script@ != "disable"@)
                &&& c.project_dir@ == match args.project_dir {
                    Some(d) => d@,
                    None => "./"@ + c.project_name@,
                }
                &&& c.git_init == !args.no_git
            },
        },
{
    let WizardArgs { project_name, project_dir, model, firmware_version, template, port, soc_script, no_git, no_download } =
        args;
    let project_name = match project_name {
        Some(n) => n,
        None => return Err(WizardError::MissingName),
    };
    let model_name = match model {
        Some(m) => m,
        None => return Err(WizardError::MissingModel),
    };
    let idx = match find_model(&models, model_name.as_str()) {
        Some(i) => i,
        None => return Err(WizardError::UnknownModel),
    };
    let mut models = models;
    let chosen = models.remove(idx);
    let selected_version = match &firmware_version {
        Some(v) => match find_version(&chosen.versions, v.as_str()) {
            Some(j) => Some(copy_version(&chosen.versions[j])),
            None => None,
        },
        None => if chosen.versions.len() > 0 {
            Some(copy_version(&chosen.versions[0]))
        } else {
            None
        },
    };
    let download_firmware = !no_download && selected_version.is_some();
    let soc_script = match soc_script {
        Some(s) => s,
        None => "latest".to_owned(),
    };
    let download_soc_script = !no_download && !(soc_script == "disable".to_owned());
    let dir = match &project_dir {
        Some(d) => resolve_project_dir(Some(d.as_str()), project_name.as_str()),
        None => resolve_project_dir(None, project_name.as_str()),
    };
    Ok(WizardConfig {
        project_name,
        project_dir: dir,
        model: chosen,
        selected_version,
        download_firmware,
        template_name: template,
        port,
        soc_script,
        download_soc_script,
        git_init: !no_git,
    })
}

} // verus!
