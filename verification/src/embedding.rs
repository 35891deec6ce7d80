//! Finding the models that make vectors on this machine.

use crate::path;
use crate::text;
use vstd::prelude::*;

verus! {

/// The variable that names a directory of models.
pub const MODELS_DIR_ENV: &'static str = "NONOKA_EMBEDDING_MODELS_DIR";

/// The model that is used where none is set.
pub const DEFAULT_LOCAL_MODEL: &'static str = "bge-small-zh-v1.5-int8";

/// The model's file where it names none.
pub const DEFAULT_MODEL_FILE: &'static str = "model.onnx";

/// The tokenizer's file where a model names none.
pub const DEFAULT_TOKENIZER_FILE: &'static str = "tokenizer.json";

/// How many tokens a model takes where it does not say.
pub const DEFAULT_MAX_LENGTH: usize = 512;

/// How one vector is made of many.
#[derive(Debug, Clone, Copy, PartialEq, Eq, Structural)]
pub enum Pooling {
    Cls,
    Mean,
}

/// What a model says it is. The least score is given by its bits.
#[derive(Debug)]
pub struct ModelManifest {
    pub id: String,
    pub display_name: String,
    pub model_file: String,
    pub tokenizer_file: String,
    pub dims: usize,
    pub pooling: Pooling,
    pub normalize: bool,
    pub max_length: usize,
    pub query_prefix: String,
    pub min_score_bits: u32,
}

/// A model on this machine.
#[derive(Debug)]
pub struct LocalModel {
    pub dir: String,
    pub manifest: ModelManifest,
}

/// Why a model cannot be used.
#[derive(Debug)]
pub enum ModelError {
    /// None is named.
    Unnamed,
    /// There is none of that name in any of the directories.
    NotFound { name: String, searched: Vec<String> },
    /// Its vectors have no length.
    NoDimensions { manifest: String },
    /// It has no name.
    NoId { manifest: String },
    /// One of its files is not there.
    MissingFile { path: String },
}

impl ModelError {
    /// What is said of it.
    pub open spec fn said(self) -> Seq<char> {
        match self {
            ModelError::Unnamed => "embedding.local_model is empty"@,
            ModelError::NotFound { name, searched } => "embedding model `"@ + name@
                + "` was not found; install it under /usr/share/nonoka/models or ~/.nonoka/models, or set "@
                + MODELS_DIR_ENV@ + " (searched: "@ + text::joined(text::views(searched@), ", "@)
                + ")"@,
            ModelError::NoDimensions { manifest } => manifest@ + ": dims must be positive"@,
            ModelError::NoId { manifest } => manifest@ + ": id is empty"@,
            ModelError::MissingFile { path } => "embedding model file is missing: "@ + path@,
        }
    }

    /// What is said of it.
    pub fn message(&self) -> (r: String)
        ensures
            r@ == self.said(),
    {
        match self {
            ModelError::Unnamed => "embedding.local_model is empty".to_owned(),
            ModelError::NotFound { name, searched } => {
                let head = text::cat5(
                    "embedding model `",
                    name.as_str(),
                    "` was not found; install it under /usr/share/nonoka/models or ~/.nonoka/models, or set ",
                    MODELS_DIR_ENV,
                    " (searched: ",
                );
                text::cat3(head.as_str(), text::join(searched, ", ").as_str(), ")")
            },
            ModelError::NoDimensions { manifest } => text::cat2(
                manifest.as_str(),
                ": dims must be positive",
            ),
            ModelError::NoId { manifest } => text::cat2(manifest.as_str(), ": id is empty"),
            ModelError::MissingFile { path } => text::cat2(
                "embedding model file is missing: ",
                path.as_str(),
            ),
        }
    }
}

impl LocalModel {
    /// Where the model's file is.
    pub fn model_path(&self) -> (r: String)
        ensures
            r@ == path::below(self.dir@, self.manifest.model_file@),
    {
        path::join(self.dir.as_str(), self.manifest.model_file.as_str())
    }

    /// Where the tokenizer's file is.
    pub fn tokenizer_path(&self) -> (r: String)
        ensures
            r@ == path::below(self.dir@, self.manifest.tokenizer_file@),
    {
        path::join(self.dir.as_str(), self.manifest.tokenizer_file.as_str())
    }

    /// The name by which vectors are known to be the model's.
    pub fn model_id(&self) -> (r: String)
        ensures
            r@ == "local:"@ + self.manifest.id@,
    {
        text::cat2("local:", self.manifest.id.as_str())
    }
}

/// Vectors of models with different names are told apart.
pub proof fn lemma_ids_differ(a: LocalModel, b: LocalModel)
    requires
        a.manifest.id@ != b.manifest.id@,
    ensures
        "local:"@ + a.manifest.id@ != "local:"@ + b.manifest.id@,
{
    let x = "local:"@ + a.manifest.id@;
    let y = "local:"@ + b.manifest.id@;
    if x == y {
        assert(x.skip("local:"@.len() as int) =~= a.manifest.id@);
        assert(y.skip("local:"@.len() as int) =~= b.manifest.id@);
    }
}

/// The model that a manifest in a directory is of: its vectors have a length and it has a name.
/// `file` is where the manifest was read.
pub fn read_model(dir: &str, file: &str, manifest: ModelManifest) -> (r: Result<
    LocalModel,
    ModelError,
>)
    ensures
        if manifest.dims == 0 {
            r matches Err(ModelError::NoDimensions { manifest: m }) && m@ == file@
        } else if text::trimmed(manifest.id@).len() == 0 {
            r matches Err(ModelError::NoId { manifest: m }) && m@ == file@
        } else {
            r matches Ok(model) && model.dir@ == dir@ && model.manifest == manifest
        },
{
    if manifest.dims == 0 {
        return Err(ModelError::NoDimensions { manifest: file.to_owned() });
    }
    let id = text::trim(manifest.id.as_str());
    if id.as_str().is_empty() {
        return Err(ModelError::NoId { manifest: file.to_owned() });
    }
    Ok(LocalModel { dir: dir.to_owned(), manifest })
}

/// A model whose files are there.
pub fn check_files(model: LocalModel, model_there: bool, tokenizer_there: bool) -> (r: Result<
    LocalModel,
    ModelError,
>)
    ensures
        if !model_there {
            r matches Err(ModelError::MissingFile { path }) && path@ == path::below(
                model.dir@,
                model.manifest.model_file@,
            )
        } else if !tokenizer_there {
            r matches Err(ModelError::MissingFile { path }) && path@ == path::below(
                model.dir@,
                model.manifest.tokenizer_file@,
            )
        } else {
            r == Ok::<LocalModel, ModelError>(model)
        },
{
    if !model_there {
        Err(ModelError::MissingFile { path: model.model_path() })
    } else if !tokenizer_there {
        Err(ModelError::MissingFile { path: model.tokenizer_path() })
    } else {
        Ok(model)
    }
}

/// Where a model is looked for.
#[derive(Debug)]
pub enum ModelPlace {
    /// In this directory.
    Dir { dir: String },
    /// Under this name, in each of the usual directories.
    Named { name: String },
}

/// Whether a name holds a separator of paths.
pub open spec fn has_separator(name: Seq<char>) -> bool {
    text::mentions(name, "/"@) || text::mentions(name, "\\"@)
}

/// Where a model is looked for: a name that holds a separator, or that an existing directory
/// bears, is a directory. `is_dir` says whether there is a directory of the name, without the
/// space around it.
pub fn model_place(name: &str, is_dir: bool) -> (r: Result<ModelPlace, ModelError>)
    ensures
        ({
            let n = text::trimmed(name@);
            if n.len() == 0 {
                r matches Err(ModelError::Unnamed)
            } else if has_separator(n) || is_dir {
                r matches Ok(ModelPlace::Dir { dir }) && dir@ == n
            } else {
                r matches Ok(ModelPlace::Named { name: m }) && m@ == n
            }
        }),
{
    let n = text::trim(name);
    if n.as_str().is_empty() {
        return Err(ModelError::Unnamed);
    }
    if is_dir || text::contains(n.as_str(), "/") || text::contains(n.as_str(), "\\") {
        Ok(ModelPlace::Dir { dir: n })
    } else {
        Ok(ModelPlace::Named { name: n })
    }
}

/// The first directory that holds the model, from `i` on.
pub open spec fn first_there(there: Seq<bool>, i: int) -> Option<int>
    decreases there.len() - i,
{
    if i < 0 || i >= there.len() {
        None
    } else if there[i] {
        Some(i)
    } else {
        first_there(there, i + 1)
    }
}

/// The directory of a model: the one that is named, or else the one below the first of the usual
/// directories that holds the model. `is_dir` says whether there is a directory of the name, and
/// `there` says of each of the usual directories whether it holds the model.
pub fn resolve_local_model(
    name: &str,
    is_dir: bool,
    bases: &Vec<String>,
    there: &Vec<bool>,
) -> (r: Result<String, ModelError>)
    requires
        there@.len() == bases@.len(),
    ensures
        ({
            let n = text::trimmed(name@);
            if n.len() == 0 {
                r matches Err(ModelError::Unnamed)
            } else if has_separator(n) || is_dir {
                r matches Ok(dir) && dir@ == n
            } else {
                match first_there(there@, 0) {
                    Some(i) => r matches Ok(dir) && dir@ == path::below(bases@[i]@, n),
                    None => r matches Err(ModelError::NotFound { name: m, searched }) && m@ == n
                        && text::views(searched@) == text::views(bases@),
                }
            }
        }),
{
    let named = match model_place(name, is_dir) {
        Ok(ModelPlace::Dir { dir }) => {
            return Ok(dir);
        },
        Ok(ModelPlace::Named { name }) => name,
        Err(e) => {
            return Err(e);
        },
    };
    let mut i: usize = 0;
    let mut searched: Vec<String> = Vec::new();
    assert(text::views(searched@) =~= text::views(bases@).take(0));
    while i < bases.len()
        invariant
            i <= bases@.len(),
            there@.len() == bases@.len(),
            named@ == text::trimmed(name@),
            named@.len() > 0,
            !(has_separator(named@) || is_dir),
            first_there(there@, 0) == first_there(there@, i as int),
            text::views(searched@) == text::views(bases@).take(i as int),
        decreases bases@.len() - i,
    {
        if there[i] {
            return Ok(path::join(bases[i].as_str(), named.as_str()));
        }
        let base = bases[i].clone();
        proof {
            text::lemma_views_push(searched@, base);
            assert(text::views(bases@).take(i + 1) =~= text::views(bases@).take(i as int).push(
                text::views(bases@)[i as int],
            ));
        }
        searched.push(base);
        i = i + 1;
    }
    assert(text::views(bases@).take(bases@.len() as int) =~= text::views(bases@));
    Err(ModelError::NotFound { name: named, searched })
}

/// A list with one more directory, where there is one.
pub open spec fn with_dir(dirs: Seq<Seq<char>>, dir: Option<Seq<char>>) -> Seq<Seq<char>> {
    match dir {
        Some(d) => dirs.push(d),
        None => dirs,
    }
}

/// A path below a directory, where there is one.
pub open spec fn below_it(dir: Option<Seq<char>>, rel: Seq<char>) -> Option<Seq<char>> {
    match dir {
        Some(d) => Some(path::below(d, rel)),
        None => None,
    }
}

/// The usual directories: the one that is set, the one at home, that of the source, that of the
/// system, and those beside the program.
pub open spec fn usual_dirs(
    set: Option<Seq<char>>,
    home: Option<Seq<char>>,
    source: Option<Seq<char>>,
    prefix: Option<Seq<char>>,
    workspace: Option<Seq<char>>,
) -> Seq<Seq<char>> {
    let a = with_dir(Seq::empty(), set);
    let b = with_dir(a, below_it(home, "models"@));
    let c = with_dir(b, below_it(source, "assets/models"@));
    let d = c.push("/usr/share/nonoka/models"@);
    let e = with_dir(d, below_it(prefix, "share/nonoka/models"@));
    with_dir(e, below_it(workspace, "assets/models"@))
}

fn add_dir(dirs: Vec<String>, dir: Option<String>) -> (r: Vec<String>)
    ensures
        text::views(r@) == with_dir(text::views(dirs@), text::opt(dir)),
{
    let mut out = dirs;
    if let Some(d) = dir {
        proof {
            text::lemma_views_push(out@, d);
        }
        out.push(d);
    }
    out
}

fn join_it(dir: Option<&str>, rel: &str) -> (r: Option<String>)
    ensures
        text::opt(r) == below_it(text::opt_str(dir), rel@),
{
    match dir {
        Some(d) => Some(path::join(d, rel)),
        None => None,
    }
}

/// The usual directories. `prefix` is the directory two levels above the program, and `workspace`
/// the one three levels above it.
pub fn candidate_model_dirs(
    set: Option<&str>,
    home: Option<&str>,
    source: Option<&str>,
    prefix: Option<&str>,
    workspace: Option<&str>,
) -> (r: Vec<String>)
    ensures
        text::views(r@) == usual_dirs(
            text::opt_str(set),
            text::opt_str(home),
            text::opt_str(source),
            text::opt_str(prefix),
            text::opt_str(workspace),
        ),
{
    let none: Vec<String> = Vec::new();
    assert(text::views(none@) =~= Seq::<Seq<char>>::empty());
    let first = match set {
        Some(s) => Some(s.to_owned()),
        None => None,
    };
    let dirs = add_dir(none, first);
    let dirs = add_dir(dirs, join_it(home, "models"));
    let dirs = add_dir(dirs, join_it(source, "assets/models"));
    let dirs = add_dir(dirs, Some("/usr/share/nonoka/models".to_owned()));
    let dirs = add_dir(dirs, join_it(prefix, "share/nonoka/models"));
    add_dir(dirs, join_it(workspace, "assets/models"))
}

/// Whether one of the models has that name.
pub open spec fn is_known(models: Seq<LocalModel>, id: Seq<char>) -> bool {
    exists|i: int| 0 <= i < models.len() && (#[trigger] models[i]).manifest.id@ == id
}

/// The first `n` models, each name once: the first of a name is kept.
pub open spec fn each_once(models: Seq<LocalModel>, n: nat) -> Seq<LocalModel>
    decreases n,
{
    if n == 0 {
        Seq::empty()
    } else {
        let before = each_once(models, (n - 1) as nat);
        if is_known(before, models[n - 1].manifest.id@) {
            before
        } else {
            before.push(models[n - 1])
        }
    }
}

/// No name stands twice, and no name is lost.
pub proof fn lemma_each_once(models: Seq<LocalModel>, n: nat)
    requires
        n <= models.len(),
    ensures
        forall|i: int, j: int|
            0 <= i < j < each_once(models, n).len() ==> (#[trigger] each_once(
                models,
                n,
            )[i]).manifest.id@ != (#[trigger] each_once(models, n)[j]).manifest.id@,
        forall|i: int|
            0 <= i < n ==> is_known(each_once(models, n), (#[trigger] models[i]).manifest.id@),
    decreases n,
{
    if n > 0 {
        lemma_each_once(models, (n - 1) as nat);
        let before = each_once(models, (n - 1) as nat);
        let now = each_once(models, n);
        let m = models[n - 1];
        if !is_known(before, m.manifest.id@) {
            assert(now[before.len() as int] == m);
            assert forall|i: int, j: int| 0 <= i < j < now.len() implies (
            #[trigger] now[i]).manifest.id@ != (#[trigger] now[j]).manifest.id@ by {
                assert(now[i] == before[i]);
                if j < before.len() {
                    assert(now[j] == before[j]);
                }
            }
        }
        assert forall|i: int| 0 <= i < n implies is_known(
            now,
            (#[trigger] models[i]).manifest.id@,
        ) by {
            let id = models[i].manifest.id@;
            if i < n - 1 {
                assert(is_known(before, id));
                let k = choose|k: int|
                    0 <= k < before.len() && (#[trigger] before[k]).manifest.id@ == id;
                assert(now[k] == before[k]);
            } else if !is_known(before, id) {
                assert(now[before.len() as int].manifest.id@ == id);
            }
        }
    }
}

fn knows(models: &Vec<LocalModel>, id: &str) -> (r: bool)
    ensures
        r == is_known(models@, id@),
{
    let mut i: usize = 0;
    while i < models.len()
        invariant
            i <= models@.len(),
            forall|k: int| 0 <= k < i ==> (#[trigger] models@[k]).manifest.id@ != id@,
        decreases models@.len() - i,
    {
        if text::same(models[i].manifest.id.as_str(), id) {
            assert(models@[i as int].manifest.id@ == id@);
            return true;
        }
        i = i + 1;
    }
    false
}

/// The models that are kept and one more that was found: it is kept where its name is new.
pub fn keep_new(models: &mut Vec<LocalModel>, found: LocalModel)
    ensures
        final(models)@ == if is_known(old(models)@, found.manifest.id@) {
            old(models)@
        } else {
            old(models)@.push(found)
        },
{
    if !knows(models, found.manifest.id.as_str()) {
        models.push(found);
    }
}

/// The models on this machine, in the order in which they were found, each name once.
pub fn installed_local_models(found: Vec<LocalModel>) -> (r: Vec<LocalModel>)
    ensures
        r@ == each_once(found@, found@.len()),
{
    let ghost all = found@;
    let mut rest = found;
    let mut out: Vec<LocalModel> = Vec::new();
    let ghost mut n: nat = 0;
    assert(rest@ =~= all.skip(0));
    while rest.len() > 0
        invariant
            n <= all.len(),
            rest@ == all.skip(n as int),
            out@ == each_once(all, n),
        decreases rest@.len(),
    {
        let m = rest.remove(0);
        assert(m == all[n as int]);
        keep_new(&mut out, m);
        proof {
            assert(rest@ =~= all.skip(n as int + 1));
            n = n + 1;
        }
    }
    out
}

/// The first directory that has a model is taken, and none is only where none has it.
pub proof fn lemma_first_there(there: Seq<bool>, from: int)
    requires
        0 <= from <= there.len(),
    ensures
        match first_there(there, from) {
            Some(i) => from <= i < there.len() && there[i] && forall|k: int|
                from <= k < i ==> !#[trigger] there[k],
            None => forall|k: int| from <= k < there.len() ==> !#[trigger] there[k],
        },
    decreases there.len() - from,
{
    if from < there.len() {
        lemma_first_there(there, from + 1);
    }
}

/// The directory that is set comes first, the home directory's next, and the system's is always
/// among them.
pub proof fn lemma_usual_dirs(
    set: Option<Seq<char>>,
    home: Option<Seq<char>>,
    source: Option<Seq<char>>,
    prefix: Option<Seq<char>>,
    workspace: Option<Seq<char>>,
)
    ensures
        ({
            let dirs = usual_dirs(set, home, source, prefix, workspace);
            &&& dirs.contains("/usr/share/nonoka/models"@)
            &&& set matches Some(d) ==> dirs[0] == d
            &&& set is Some && home is Some ==> dirs[1] == path::below(home->0, "models"@)
            &&& set is None && home is Some ==> dirs[0] == path::below(home->0, "models"@)
            &&& workspace matches Some(w) ==> dirs.last() == path::below(w, "assets/models"@)
            &&& set is None && home is None && source is None && prefix is None && workspace is None
                ==> dirs == seq!["/usr/share/nonoka/models"@]
        }),
{
    let dirs = usual_dirs(set, home, source, prefix, workspace);
    let a = with_dir(Seq::empty(), set);
    let b = with_dir(a, below_it(home, "models"@));
    let c = with_dir(b, below_it(source, "assets/models"@));
    assert(dirs[c.len() as int] == "/usr/share/nonoka/models"@);
    if set is None && home is None && source is None && prefix is None && workspace is None {
        assert(dirs =~= seq!["/usr/share/nonoka/models"@]);
    }
}

/// A model is taken where its vectors have a length and it has a name.
pub proof fn lemma_read_model(
    dir: &str,
    file: &str,
    manifest: ModelManifest,
    r: Result<LocalModel, ModelError>,
)
    requires
        call_ensures(read_model, (dir, file, manifest), r),
    ensures
        r is Ok <==> manifest.dims > 0 && text::trimmed(manifest.id@).len() > 0,
        manifest.dims == 0 ==> r matches Err(ModelError::NoDimensions { .. }),
        r matches Ok(m) ==> m.manifest == manifest && m.dir@ == dir@,
{
}

/// A model can be used where both of its files are there, and else the first that is not is named.
pub proof fn lemma_check_files(
    model: LocalModel,
    model_there: bool,
    tokenizer_there: bool,
    r: Result<LocalModel, ModelError>,
)
    requires
        call_ensures(check_files, (model, model_there, tokenizer_there), r),
    ensures
        r is Ok <==> model_there && tokenizer_there,
        r matches Ok(m) ==> m == model,
        !model_there ==> (r matches Err(ModelError::MissingFile { path }) && path@ == path::below(
            model.dir@,
            model.manifest.model_file@,
        )),
{
}

/// A model is looked for in the directory that it names, where it names one, and else in the first
/// of the usual directories that has it.
pub proof fn lemma_resolve(
    name: &str,
    is_dir: bool,
    bases: &Vec<String>,
    there: &Vec<bool>,
    r: Result<String, ModelError>,
)
    requires
        call_ensures(resolve_local_model, (name, is_dir, bases, there), r),
        there@.len() == bases@.len(),
    ensures
        text::trimmed(name@).len() == 0 <==> r matches Err(ModelError::Unnamed),
        text::trimmed(name@).len() > 0 && (is_dir || text::mentions(text::trimmed(name@), "/"@)
            || text::mentions(text::trimmed(name@), "\\"@)) ==> (r matches Ok(d) && d@
            == text::trimmed(name@)),
        text::trimmed(name@).len() > 0 && !is_dir && !text::mentions(text::trimmed(name@), "/"@)
            && !text::mentions(text::trimmed(name@), "\\"@) ==> {
            &&& r is Ok <==> exists|i: int| 0 <= i < there@.len() && #[trigger] there@[i]
            &&& forall|i: int|
                0 <= i < there@.len() && #[trigger] there@[i] && (forall|k: int|
                    0 <= k < i ==> !#[trigger] there@[k]) ==> (r matches Ok(d) && d@
                    == path::below(bases@[i]@, text::trimmed(name@)))
        },
{
    lemma_first_there(there@, 0);
}

}
