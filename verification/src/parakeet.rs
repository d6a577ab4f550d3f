//! Parakeet speech models: the catalog Glide can download, where they are
//! installed, and the install state of each.
use vstd::prelude::*;

use crate::error::GlideError;
use crate::lifecycle::{
    active_in, after_finish_clear, after_finish_error, after_request_cancel, after_update,
    is_current, DownloadFinish, DownloadRegistry, DownloadRun, EntryModel,
};
use crate::config::hotkey::{decimal_digits, push_decimal};
use crate::text::{is_blank, str_eq, trim_spec};

verus! {

/// A downloadable Parakeet model.
#[derive(Debug, Clone, Copy, PartialEq, Eq)]
pub struct ParakeetModelDefinition {
    pub id: &'static str,
    pub label: &'static str,
    pub language: &'static str,
    pub url: &'static str,
    pub archive_name: &'static str,
}

/// Install state of a Parakeet model.
#[derive(Debug, Clone, PartialEq, Eq)]
pub enum ParakeetInstallState {
    NotInstalled,
    Downloading { downloaded_bytes: u64, total_bytes: Option<u64> },
    Cancelling { downloaded_bytes: u64, total_bytes: Option<u64> },
    Installed { size_bytes: u64 },
    Failed(String),
}

impl ParakeetInstallState {
    pub fn duplicate(&self) -> (r: ParakeetInstallState)
        ensures
            r == *self,
    {
        match self {
            ParakeetInstallState::NotInstalled => ParakeetInstallState::NotInstalled,
            ParakeetInstallState::Downloading { downloaded_bytes, total_bytes } => ParakeetInstallState::Downloading {
                downloaded_bytes: *downloaded_bytes,
                total_bytes: *total_bytes,
            },
            ParakeetInstallState::Cancelling { downloaded_bytes, total_bytes } => ParakeetInstallState::Cancelling {
                downloaded_bytes: *downloaded_bytes,
                total_bytes: *total_bytes,
            },
            ParakeetInstallState::Installed { size_bytes } => ParakeetInstallState::Installed {
                size_bytes: *size_bytes,
            },
            ParakeetInstallState::Failed(m) => ParakeetInstallState::Failed(m.clone()),
        }
    }

    pub fn is_installed(&self) -> (r: bool)
        ensures
            r == (*self is Installed),
    {
        match self {
            ParakeetInstallState::Installed { .. } => true,
            _ => false,
        }
    }

    pub fn is_downloading(&self) -> (r: bool)
        ensures
            r == (*self is Downloading),
    {
        match self {
            ParakeetInstallState::Downloading { .. } => true,
            _ => false,
        }
    }
}

/// A Parakeet model and its install state.
#[derive(Debug, Clone, PartialEq, Eq)]
pub struct ParakeetModelStatus {
    pub definition: ParakeetModelDefinition,
    pub state: ParakeetInstallState,
}

impl ParakeetModelStatus {
    pub fn duplicate(&self) -> (r: ParakeetModelStatus)
        ensures
            r == *self,
    {
        ParakeetModelStatus { definition: self.definition, state: self.state.duplicate() }
    }
}

pub open spec fn v2_id() -> Seq<char> {
    "parakeet-tdt-0.6b-v2-int8"@
}

pub open spec fn v3_id() -> Seq<char> {
    "parakeet-tdt-0.6b-v3-int8"@
}

/// Whether `id` names one of the Parakeet models Glide offers.
pub open spec fn known_parakeet(id: Seq<char>) -> bool {
    id == v2_id() || id == v3_id()
}

/// Entry `i` of the table of Parakeet models Glide offers: 0 is the English
/// v2 model, 1 the multilingual v3 model.
pub open spec fn parakeet_entry(d: ParakeetModelDefinition, i: int) -> bool {
    if i == 0 {
        &&& d.id@ == v2_id()
        &&& d.label@ == "Parakeet TDT 0.6B v2 int8"@
        &&& d.language@ == "English"@
        &&& d.url@
            == "https://github.com/k2-fsa/sherpa-onnx/releases/download/asr-models/sherpa-onnx-nemo-parakeet-tdt-0.6b-v2-int8.tar.bz2"@
        &&& d.archive_name@ == "sherpa-onnx-nemo-parakeet-tdt-0.6b-v2-int8.tar.bz2"@
    } else if i == 1 {
        &&& d.id@ == v3_id()
        &&& d.label@ == "Parakeet TDT 0.6B v3 int8"@
        &&& d.language@ == "25 European languages"@
        &&& d.url@
            == "https://github.com/k2-fsa/sherpa-onnx/releases/download/asr-models/sherpa-onnx-nemo-parakeet-tdt-0.6b-v3-int8.tar.bz2"@
        &&& d.archive_name@ == "sherpa-onnx-nemo-parakeet-tdt-0.6b-v3-int8.tar.bz2"@
    } else {
        false
    }
}

/// The table position of the offered model `id`.
pub open spec fn parakeet_index(id: Seq<char>) -> int {
    if id == v2_id() {
        0
    } else {
        1
    }
}

/// The Parakeet models Glide offers, in the order they are listed.
pub fn parakeet_models() -> (r: Vec<ParakeetModelDefinition>)
    ensures
        r@.len() == 2,
        parakeet_entry(r@[0], 0),
        parakeet_entry(r@[1], 1),
{
    let mut r = Vec::new();
    r.push(
        ParakeetModelDefinition {
            id: "parakeet-tdt-0.6b-v2-int8",
            label: "Parakeet TDT 0.6B v2 int8",
            language: "English",
            url: "https://github.com/k2-fsa/sherpa-onnx/releases/download/asr-models/sherpa-onnx-nemo-parakeet-tdt-0.6b-v2-int8.tar.bz2",
            archive_name: "sherpa-onnx-nemo-parakeet-tdt-0.6b-v2-int8.tar.bz2",
        },
    );
    r.push(
        ParakeetModelDefinition {
            id: "parakeet-tdt-0.6b-v3-int8",
            label: "Parakeet TDT 0.6B v3 int8",
            language: "25 European languages",
            url: "https://github.com/k2-fsa/sherpa-onnx/releases/download/asr-models/sherpa-onnx-nemo-parakeet-tdt-0.6b-v3-int8.tar.bz2",
            archive_name: "sherpa-onnx-nemo-parakeet-tdt-0.6b-v3-int8.tar.bz2",
        },
    );
    r
}

/// The offered model `id`: its whole table entry.
pub fn parakeet_definition(id: &str) -> (r: Option<ParakeetModelDefinition>)
    ensures
        match r {
            Some(d) => known_parakeet(id@) && d.id@ == id@ && parakeet_entry(d, parakeet_index(id@)),
            None => !known_parakeet(id@),
        },
{
    let models = parakeet_models();
    proof {
        lemma_parakeet_ids_differ();
    }
    if str_eq(id, models[0].id) {
        Some(models[0])
    } else if str_eq(id, models[1].id) {
        Some(models[1])
    } else {
        None
    }
}

proof fn lemma_parakeet_ids_differ()
    ensures
        v2_id() != v3_id(),
{
    reveal_strlit("parakeet-tdt-0.6b-v2-int8");
    reveal_strlit("parakeet-tdt-0.6b-v3-int8");
    assert(v2_id()[19] != v3_id()[19]);
}

/// Every offered model's id and archive name are plain relative names, as
/// `ParakeetInstallWorkspace::plan` requires.
pub proof fn lemma_parakeet_entry_names_relative(d: ParakeetModelDefinition, i: int)
    requires
        parakeet_entry(d, i),
    ensures
        d.id@.len() > 0 && d.id@[0] != '/',
        d.archive_name@.len() > 0 && d.archive_name@[0] != '/',
{
    reveal_strlit("parakeet-tdt-0.6b-v2-int8");
    reveal_strlit("parakeet-tdt-0.6b-v3-int8");
    reveal_strlit("sherpa-onnx-nemo-parakeet-tdt-0.6b-v2-int8.tar.bz2");
    reveal_strlit("sherpa-onnx-nemo-parakeet-tdt-0.6b-v3-int8.tar.bz2");
}

/// The state shown while a cancellation is under way: progress is kept,
/// any other state is left as it is.
pub open spec fn cancelling_of(s: ParakeetInstallState) -> ParakeetInstallState {
    match s {
        ParakeetInstallState::Downloading { downloaded_bytes, total_bytes } => ParakeetInstallState::Cancelling {
            downloaded_bytes,
            total_bytes,
        },
        ParakeetInstallState::Cancelling { downloaded_bytes, total_bytes } => ParakeetInstallState::Cancelling {
            downloaded_bytes,
            total_bytes,
        },
        _ => s,
    }
}

pub fn parakeet_cancelling_state(state: &ParakeetInstallState) -> (r: ParakeetInstallState)
    ensures
        r == cancelling_of(*state),
{
    match state {
        ParakeetInstallState::Downloading { downloaded_bytes, total_bytes } => ParakeetInstallState::Cancelling {
            downloaded_bytes: *downloaded_bytes,
            total_bytes: *total_bytes,
        },
        ParakeetInstallState::Cancelling { downloaded_bytes, total_bytes } => ParakeetInstallState::Cancelling {
            downloaded_bytes: *downloaded_bytes,
            total_bytes: *total_bytes,
        },
        _ => state.duplicate(),
    }
}

/// The install state of `id`: a download record wins; otherwise an offered
/// model whose directory holds a valid install (of `installed_size` bytes)
/// is installed.
pub open spec fn parakeet_state_spec(
    id: Seq<char>,
    downloads: Map<Seq<char>, EntryModel<ParakeetInstallState>>,
    installed_size: Option<u64>,
) -> ParakeetInstallState {
    if downloads.contains_key(id) {
        downloads[id].state
    } else if !known_parakeet(id) {
        ParakeetInstallState::NotInstalled
    } else {
        match installed_size {
            Some(size_bytes) => ParakeetInstallState::Installed { size_bytes },
            None => ParakeetInstallState::NotInstalled,
        }
    }
}

/// The recorded state of a download of `id`, if any.
pub fn transient_install_state(id: &str, downloads: &DownloadRegistry<ParakeetInstallState>) -> (r: Option<
    ParakeetInstallState,
>)
    requires
        downloads.wf(),
    ensures
        match r {
            Some(s) => downloads.model().contains_key(id@) && s == downloads.model()[id@].state,
            None => !downloads.model().contains_key(id@),
        },
{
    match downloads.state_ref(id) {
        Some(s) => Some(s.duplicate()),
        None => None,
    }
}

pub fn parakeet_install_state(
    id: &str,
    downloads: &DownloadRegistry<ParakeetInstallState>,
    installed_size: Option<u64>,
) -> (r: ParakeetInstallState)
    requires
        downloads.wf(),
    ensures
        r == parakeet_state_spec(id@, downloads.model(), installed_size),
{
    if let Some(state) = transient_install_state(id, downloads) {
        return state;
    }
    if parakeet_definition(id).is_none() {
        return ParakeetInstallState::NotInstalled;
    }
    match installed_size {
        Some(size_bytes) => ParakeetInstallState::Installed { size_bytes },
        None => ParakeetInstallState::NotInstalled,
    }
}

/// Every offered model with its state; `installed_sizes[i]` is the size of
/// a valid install of the `i`-th offered model, if there is one.
pub fn parakeet_models_status(
    downloads: &DownloadRegistry<ParakeetInstallState>,
    installed_sizes: &[Option<u64>],
) -> (r: Vec<ParakeetModelStatus>)
    requires
        downloads.wf(),
        installed_sizes@.len() == 2,
    ensures
        r@.len() == 2,
        r@[0].definition.id@ == v2_id(),
        r@[1].definition.id@ == v3_id(),
        r@[0].state == parakeet_state_spec(v2_id(), downloads.model(), installed_sizes@[0]),
        r@[1].state == parakeet_state_spec(v3_id(), downloads.model(), installed_sizes@[1]),
{
    let models = parakeet_models();
    let mut r = Vec::new();
    let s0 = parakeet_install_state(models[0].id, downloads, installed_sizes[0]);
    r.push(ParakeetModelStatus { definition: models[0], state: s0 });
    let s1 = parakeet_install_state(models[1].id, downloads, installed_sizes[1]);
    r.push(ParakeetModelStatus { definition: models[1], state: s1 });
    r
}

/// Starts a download of `id` unless one is under way; the run returned is
/// the one the caller must carry out.
pub fn start_parakeet_download(id: &str, downloads: &mut DownloadRegistry<ParakeetInstallState>) -> (r: Result<
    Option<DownloadRun>,
    GlideError,
>)
    requires
        old(downloads).wf(),
    ensures
        final(downloads).wf(),
        final(downloads).cancelled_ids() == if known_parakeet(id@) { crate::lifecycle::cancelled_after_begin(old(downloads).cancelled_ids(), old(downloads).model(), old(downloads).next_id(), id@) } else { old(downloads).cancelled_ids() },
        !known_parakeet(id@) ==> (r matches Err(e) && e is UnknownParakeetModel) && final(downloads).model()
            == old(downloads).model(),
        known_parakeet(id@) && active_in(old(downloads).model(), id@) ==> (r matches Ok(None)
            && final(downloads).model() == old(downloads).model()),
        known_parakeet(id@) && !active_in(old(downloads).model(), id@) ==> (r matches Ok(Some(run))
            && run.id_view() == id@ && run.run_id_view() == old(downloads).next_id()) && final(downloads).model() == old(downloads).model().insert(
            id@,
            EntryModel {
                state: ParakeetInstallState::Downloading { downloaded_bytes: 0, total_bytes: None },
                active: Some(crate::lifecycle::ActiveDownload { run_id: old(downloads).next_id(), cancelled: false }),
            },
        ),
{
    match parakeet_definition(id) {
        None => Err(GlideError::UnknownParakeetModel(String::from_str(id))),
        Some(definition) => Ok(
            downloads.begin(
                definition.id,
                ParakeetInstallState::Downloading { downloaded_bytes: 0, total_bytes: None },
            ),
        ),
    }
}

/// Asks the download of `id` under way, if any, to stop.
pub fn cancel_parakeet_download(id: &str, downloads: &mut DownloadRegistry<ParakeetInstallState>) -> (r: Result<
    (),
    GlideError,
>)
    requires
        old(downloads).wf(),
    ensures
        final(downloads).wf(),
        final(downloads).cancelled_ids() == if known_parakeet(id@) { crate::lifecycle::cancelled_after_request(old(downloads).cancelled_ids(), old(downloads).model(), id@) } else { old(downloads).cancelled_ids() },
        final(downloads).next_id() == old(downloads).next_id(),
        !known_parakeet(id@) ==> (r matches Err(e) && e is UnknownParakeetModel) && final(downloads).model()
            == old(downloads).model(),
        known_parakeet(id@) ==> r is Ok && final(downloads).model() == after_request_cancel(
            old(downloads).model(),
            id@,
            cancelling_of(old(downloads).model()[id@].state),
        ).0,
{
    if parakeet_definition(id).is_none() {
        return Err(GlideError::UnknownParakeetModel(String::from_str(id)));
    }
    let _ = downloads.request_cancel(id, parakeet_cancelling_state);
    Ok(())
}

/// Records download progress for `run`, unless the run is stale or the
/// model is no longer downloading (for example, being cancelled).
pub fn update_parakeet_download_progress(
    run: &DownloadRun,
    downloaded_bytes: u64,
    total_bytes: Option<u64>,
    downloads: &mut DownloadRegistry<ParakeetInstallState>,
) -> (r: bool)
    requires
        old(downloads).wf(),
    ensures
        final(downloads).wf(),
        final(downloads).cancelled_ids() == old(downloads).cancelled_ids(),
        final(downloads).next_id() == old(downloads).next_id(),
        (final(downloads).model(), r) == after_update(
            old(downloads).model(),
            run.id_view(),
            run.run_id_view(),
            ParakeetInstallState::Downloading { downloaded_bytes, total_bytes },
            old(downloads).model().contains_key(run.id_view()) && old(downloads).model()[run.id_view()].state is Downloading,
        ),
{
    downloads.update_if_current(
        run,
        ParakeetInstallState::Downloading { downloaded_bytes, total_bytes },
        ParakeetInstallState::is_downloading,
    )
}

/// Applies the outcome of `run`: success clears the record; a failure is
/// recorded, unless the run was cancelled, which clears it.
pub fn finish_parakeet_download(
    run: &DownloadRun,
    outcome: Result<(), String>,
    downloads: &mut DownloadRegistry<ParakeetInstallState>,
) -> (r: DownloadFinish)
    requires
        old(downloads).wf(),
    ensures
        final(downloads).wf(),
        final(downloads).cancelled_ids() == old(downloads).cancelled_ids(),
        final(downloads).next_id() == old(downloads).next_id(),
        match outcome {
            Ok(()) => (final(downloads).model(), r) == after_finish_clear(
                old(downloads).model(),
                run.id_view(),
                run.run_id_view(),
            ),
            Err(message) => (final(downloads).model(), r) == after_finish_error(
                old(downloads).model(),
                run.id_view(),
                run.run_id_view(),
                ParakeetInstallState::Failed(message),
            ),
        },
{
    match outcome {
        Ok(()) => downloads.finish_clear(run),
        Err(message) => downloads.finish_error(run, ParakeetInstallState::Failed(message)),
    }
}

/// An error if `run` should stop.
pub fn check_download_cancelled(run: &DownloadRun, downloads: &DownloadRegistry<ParakeetInstallState>) -> (r: Result<
    (),
    GlideError,
>)
    requires
        downloads.wf(),
    ensures
        r is Err <==> downloads.cancelled_ids().contains(run.run_id_view()),
        r matches Err(e) ==> e is DownloadCancelled,
{
    if downloads.is_cancelled(run) {
        Err(GlideError::DownloadCancelled)
    } else {
        Ok(())
    }
}

/// The bookkeeping half of deleting model `id`: a download under way is
/// cancelled, any other record is dropped. The caller then removes the
/// model directory, which exists only for offered models.
pub fn delete_parakeet_model(id: &str, downloads: &mut DownloadRegistry<ParakeetInstallState>) -> (r: Result<
    (),
    GlideError,
>)
    requires
        old(downloads).wf(),
    ensures
        final(downloads).wf(),
        final(downloads).cancelled_ids() == if known_parakeet(id@) { crate::lifecycle::cancelled_after_request(old(downloads).cancelled_ids(), old(downloads).model(), id@) } else { old(downloads).cancelled_ids() },
        !known_parakeet(id@) ==> (r matches Err(e) && e is UnknownParakeetModel),
        known_parakeet(id@) ==> r is Ok,
        active_in(old(downloads).model(), id@) && known_parakeet(id@) ==> final(downloads).model()
            == after_request_cancel(
            old(downloads).model(),
            id@,
            cancelling_of(old(downloads).model()[id@].state),
        ).0,
        !active_in(old(downloads).model(), id@) ==> final(downloads).model() == old(downloads).model().remove(id@),
{
    if downloads.is_active(id) {
        cancel_parakeet_download(id, downloads)
    } else {
        downloads.clear(id);
        if parakeet_definition(id).is_none() {
            return Err(GlideError::UnknownParakeetModel(String::from_str(id)));
        }
        Ok(())
    }
}

/// After a cancellation has been asked, a progress report of the cancelled
/// run leaves the record alone: it stays in its cancelling state.
pub proof fn law_progress_does_not_overwrite_cancelling(
    m: Map<Seq<char>, EntryModel<ParakeetInstallState>>,
    id: Seq<char>,
    downloaded_bytes: u64,
    total_bytes: Option<u64>,
)
    requires
        active_in(m, id),
        m[id].state is Downloading || m[id].state is Cancelling,
    ensures
        ({
            let (m1, run) = after_request_cancel(m, id, cancelling_of(m[id].state));
            let accepted = m1.contains_key(id) && m1[id].state is Downloading;
            let (m2, updated) = after_update(
                m1,
                id,
                run.unwrap(),
                ParakeetInstallState::Downloading { downloaded_bytes, total_bytes },
                accepted,
            );
            &&& !updated
            &&& m2 == m1
            &&& m2[id].state is Cancelling
        }),
{
}

/// `dir` joined with the relative path component `name`.
pub open spec fn join_path(dir: Seq<char>, name: Seq<char>) -> Seq<char> {
    if dir.len() == 0 {
        name
    } else if dir.last() == '/' {
        dir + name
    } else {
        dir + seq!['/'] + name
    }
}

pub fn join_path_exec(dir: &str, name: &str) -> (r: String)
    requires
        name@.len() == 0 || name@[0] != '/',
    ensures
        r@ == join_path(dir@, name@),
{
    let n = dir.unicode_len();
    if n == 0 {
        return String::from_str(name);
    }
    let mut r = String::from_str(dir);
    if dir.get_char(n - 1) != '/' {
        r.append("/");
        proof {
            reveal_strlit("/");
            assert("/"@ =~= seq!['/']);
        }
    }
    r.append(name);
    r
}

/// Directory model `id` is installed in, under the model asset directory.
pub fn parakeet_model_dir(id: &str, assets_dir: &str) -> (r: Result<String, GlideError>)
    ensures
        match r {
            Ok(p) => known_parakeet(id@) && p@ == join_path(assets_dir@, id@),
            Err(e) => !known_parakeet(id@) && e is UnknownParakeetModel,
        },
{
    match parakeet_definition(id) {
        Some(d) => {
            proof {
                reveal_strlit("parakeet-tdt-0.6b-v2-int8");
                reveal_strlit("parakeet-tdt-0.6b-v3-int8");
            }
            Ok(join_path_exec(assets_dir, d.id))
        },
        None => Err(GlideError::UnknownParakeetModel(String::from_str(id))),
    }
}

/// Files a Parakeet model directory must hold.
pub open spec fn required_files() -> Seq<Seq<char>> {
    seq!["encoder.int8.onnx"@, "decoder.int8.onnx"@, "joiner.int8.onnx"@, "tokens.txt"@]
}

pub fn required_parakeet_files() -> (r: Vec<&'static str>)
    ensures
        r@.len() == 4,
        forall|i: int| 0 <= i < 4 ==> (#[trigger] r@[i])@ == required_files()[i],
{
    let mut r = Vec::new();
    r.push("encoder.int8.onnx");
    r.push("decoder.int8.onnx");
    r.push("joiner.int8.onnx");
    r.push("tokens.txt");
    r
}

/// Whether `name` is among `files`.
pub open spec fn listed(files: Seq<String>, name: Seq<char>) -> bool {
    exists|i: int| 0 <= i < files.len() && (#[trigger] files[i])@ == name
}

fn is_listed(files: &[String], name: &str) -> (r: bool)
    ensures
        r == listed(files@, name@),
{
    let mut i: usize = 0;
    while i < files.len()
        invariant
            i <= files@.len(),
            forall|k: int| 0 <= k < i ==> (#[trigger] files@[k])@ != name@,
        decreases files@.len() - i,
    {
        if str_eq(files[i].as_str(), name) {
            return true;
        }
        i = i + 1;
    }
    false
}

/// Checks a model directory: it must exist and hold every required file
/// (`present_files` lists the regular files it holds). The first missing
/// file, in the required order, is reported.
pub fn validate_parakeet_model_dir(is_dir: bool, present_files: &[String]) -> (r: Result<(), GlideError>)
    ensures
        !is_dir ==> (r matches Err(e) && e is ModelDirectoryMissing),
        is_dir ==> (r is Ok <==> forall|k: int| 0 <= k < 4 ==> listed(present_files@, #[trigger] required_files()[k])),
        is_dir ==> (r matches Err(e) ==> (e matches GlideError::MissingModelFile(f) && exists|k: int|
            0 <= k < 4 && f@ == #[trigger] required_files()[k] && !listed(present_files@, required_files()[k])
                && forall|j: int| 0 <= j < k ==> listed(present_files@, #[trigger] required_files()[j]))),
{
    if !is_dir {
        return Err(GlideError::ModelDirectoryMissing);
    }
    let required = required_parakeet_files();
    let mut i: usize = 0;
    while i < required.len()
        invariant
            is_dir,
            required@.len() == 4,
            forall|k: int| 0 <= k < 4 ==> (#[trigger] required@[k])@ == required_files()[k],
            i <= 4,
            forall|k: int| 0 <= k < i ==> listed(present_files@, #[trigger] required_files()[k]),
        decreases 4 - i,
    {
        if !is_listed(present_files, required[i]) {
            let f = String::from_str(required[i]);
            proof {
                assert(f@ == required_files()[i as int]);
                assert(!listed(present_files@, required_files()[i as int]));
            }
            return Err(GlideError::MissingModelFile(f));
        }
        i = i + 1;
    }
    Ok(())
}

/// A directory named by an environment variable, unless it is blank.
pub open spec fn env_dir(value: Option<String>) -> Option<Seq<char>> {
    match value {
        Some(v) => if trim_spec(v@).len() > 0 {
            Some(v@)
        } else {
            None
        },
        None => None,
    }
}

pub fn env_path(value: Option<String>) -> (r: Option<String>)
    ensures
        match r {
            Some(p) => env_dir(value) == Some(p@),
            None => env_dir(value) is None,
        },
{
    match value {
        Some(v) => {
            if is_blank(v.as_str()) {
                None
            } else {
                Some(v)
            }
        },
        None => None,
    }
}

/// The default model directory under a home directory.
pub open spec fn default_models_dir(home: Seq<char>) -> Seq<char> {
    join_path(join_path(join_path(join_path(home, "Library"@), "Application Support"@), "Glide"@), "Models"@)
}

/// The model directory the environment names, if any.
pub open spec fn models_dir_spec(
    assets_dir_var: Option<String>,
    local_models_dir_var: Option<String>,
    home: Option<String>,
) -> Option<Seq<char>> {
    if env_dir(assets_dir_var) is Some {
        env_dir(assets_dir_var)
    } else if env_dir(local_models_dir_var) is Some {
        env_dir(local_models_dir_var)
    } else {
        match home {
            Some(h) => Some(default_models_dir(h@)),
            None => None,
        }
    }
}

/// Where models are installed: `GLIDE_MODEL_ASSETS_DIR`, else
/// `GLIDE_LOCAL_MODELS_DIR` (blank values ignored), else
/// `~/Library/Application Support/Glide/Models`.
pub fn model_assets_dir(
    assets_dir_var: Option<String>,
    local_models_dir_var: Option<String>,
    home: Option<String>,
) -> (r: Result<String, GlideError>)
    ensures
        match models_dir_spec(assets_dir_var, local_models_dir_var, home) {
            Some(p) => r matches Ok(d) && d@ == p,
            None => r matches Err(e) && e is HomeNotSet,
        },
{
    if let Some(p) = env_path(assets_dir_var) {
        return Ok(p);
    }
    if let Some(p) = env_path(local_models_dir_var) {
        return Ok(p);
    }
    match home {
        Some(h) => {
            proof {
                reveal_strlit("Library");
                reveal_strlit("Application Support");
                reveal_strlit("Glide");
                reveal_strlit("Models");
            }
            let a = join_path_exec(h.as_str(), "Library");
            let b = join_path_exec(a.as_str(), "Application Support");
            let c = join_path_exec(b.as_str(), "Glide");
            Ok(join_path_exec(c.as_str(), "Models"))
        },
        None => Err(GlideError::HomeNotSet),
    }
}

/// One component of a path inside a model archive.
#[derive(Debug, Clone, PartialEq, Eq)]
pub enum ArchivePathComponent {
    Normal(String),
    CurDir,
    ParentDir,
    RootDir,
    Prefix,
}

/// Whether an archive path may be unpacked: after its first component (the
/// archive's root directory) it must not climb up or restart from a root.
pub open spec fn archive_path_safe(c: Seq<ArchivePathComponent>) -> bool {
    forall|i: int|
        1 <= i < c.len() ==> !((#[trigger] c[i]) is ParentDir || c[i] is RootDir || c[i] is Prefix)
}

/// The names an archive path keeps after its root directory is dropped.
pub open spec fn archive_path_kept(c: Seq<ArchivePathComponent>) -> Seq<Seq<char>>
    decreases c.len(),
{
    if c.len() <= 1 {
        Seq::empty()
    } else {
        let rest = archive_path_kept(c.drop_last());
        match c.last() {
            ArchivePathComponent::Normal(n) => rest.push(n@),
            _ => rest,
        }
    }
}

/// The path of an archive entry below the archive's root directory, or an
/// error when the entry would escape the extraction directory.
pub fn strip_archive_root(components: &[ArchivePathComponent]) -> (r: Result<Vec<String>, GlideError>)
    ensures
        archive_path_safe(components@) ==> (r matches Ok(v) && v@.len() == archive_path_kept(components@).len()
            && forall|i: int| 0 <= i < v@.len() ==> (#[trigger] v@[i])@ == archive_path_kept(components@)[i]),
        !archive_path_safe(components@) ==> (r matches Err(e) && e is UnsafeArchivePath),
{
    let mut out: Vec<String> = Vec::new();
    if components.len() == 0 {
        return Ok(out);
    }
    let mut i: usize = 1;
    proof {
        assert(components@.take(1).len() == 1);
    }
    while i < components.len()
        invariant
            1 <= i <= components@.len(),
            archive_path_safe(components@.take(i as int)),
            out@.len() == archive_path_kept(components@.take(i as int)).len(),
            forall|k: int| 0 <= k < out@.len() ==> (#[trigger] out@[k])@ == archive_path_kept(components@.take(i as int))[k],
        decreases components@.len() - i,
    {
        proof {
            assert(components@.take(i + 1).drop_last() =~= components@.take(i as int));
            assert(components@.take(i + 1).last() == components@[i as int]);
        }
        match &components[i] {
            ArchivePathComponent::Normal(n) => {
                out.push(n.clone());
            },
            ArchivePathComponent::CurDir => {},
            _ => {
                proof {
                    assert(!archive_path_safe(components@));
                }
                return Err(GlideError::UnsafeArchivePath);
            },
        }
        proof {
            let t = components@.take(i + 1);
            assert forall|j: int| 1 <= j < t.len() implies !((#[trigger] t[j]) is ParentDir || t[j] is RootDir || t[j] is Prefix) by {
                if j < i {
                    assert(t[j] == components@.take(i as int)[j]);
                }
            }
        }
        i = i + 1;
    }
    proof {
        assert(components@.take(components@.len() as int) =~= components@);
    }
    Ok(out)
}

/// Takes in `read` more bytes of `run`'s archive, written after the
/// `downloaded` bytes before them: a cancelled run stops with an error;
/// otherwise the progress is shown and the new count returned.
pub fn advance_download(
    run: &DownloadRun,
    downloaded: u64,
    read: u64,
    total: Option<u64>,
    downloads: &mut DownloadRegistry<ParakeetInstallState>,
) -> (r: Result<u64, GlideError>)
    requires
        old(downloads).wf(),
        downloaded + read <= u64::MAX,
    ensures
        final(downloads).wf(),
        final(downloads).next_id() == old(downloads).next_id(),
        final(downloads).cancelled_ids() == old(downloads).cancelled_ids(),
        old(downloads).cancelled_ids().contains(run.run_id_view()) ==> (r matches Err(
            e,
        ) && e is DownloadCancelled) && final(downloads).model() == old(downloads).model(),
        !old(downloads).cancelled_ids().contains(run.run_id_view()) ==> r == Ok::<
            u64,
            GlideError,
        >((downloaded + read) as u64) && final(downloads).model() == after_update(
            old(downloads).model(),
            run.id_view(),
            run.run_id_view(),
            ParakeetInstallState::Downloading { downloaded_bytes: (downloaded + read) as u64, total_bytes: total },
            old(downloads).model().contains_key(run.id_view()) && old(downloads).model()[run.id_view()].state is Downloading,
        ).0,
{
    let now = downloaded + read;
    if let Err(e) = check_download_cancelled(run, downloads) {
        return Err(e);
    }
    let _ = update_parakeet_download_progress(run, now, total, downloads);
    Ok(now)
}

/// Where an install happens: the model's directory, the temporary
/// directory the archive is unpacked in, and the archive inside it.
#[derive(Debug, Clone)]
pub struct ParakeetInstallWorkspace {
    pub install_dir: String,
    pub temp_dir: String,
    pub archive_path: String,
}

/// The temporary directory name of an install started at `millis`
/// (milliseconds since the Unix epoch): hidden, and unique per start time.
pub open spec fn temp_dir_name(id: Seq<char>, millis: u64) -> Seq<char> {
    "."@ + id + "-download-"@ + decimal_digits(millis as nat)
}

impl ParakeetInstallWorkspace {
    /// The workspace for installing `definition` under `root`, started at
    /// `millis`.
    pub fn plan(root: &str, definition: ParakeetModelDefinition, millis: u64) -> (r: ParakeetInstallWorkspace)
        requires
            definition.id@.len() > 0 && definition.id@[0] != '/',
            definition.archive_name@.len() > 0 && definition.archive_name@[0] != '/',
        ensures
            r.install_dir@ == join_path(root@, definition.id@),
            r.temp_dir@ == join_path(root@, temp_dir_name(definition.id@, millis)),
            r.archive_path@ == join_path(r.temp_dir@, definition.archive_name@),
    {
        let mut name = String::from_str(".");
        name.append(definition.id);
        name.append("-download-");
        push_decimal(&mut name, millis);
        proof {
            reveal_strlit(".");
            assert(name@ =~= temp_dir_name(definition.id@, millis));
        }
        let temp_dir = join_path_exec(root, name.as_str());
        let archive_path = join_path_exec(temp_dir.as_str(), definition.archive_name);
        ParakeetInstallWorkspace { install_dir: join_path_exec(root, definition.id), temp_dir, archive_path }
    }
}

/// `dir` joined with each of `names` in turn.
pub open spec fn join_all(dir: Seq<char>, names: Seq<Seq<char>>) -> Seq<char>
    decreases names.len(),
{
    if names.len() == 0 {
        dir
    } else {
        join_path(join_all(dir, names.drop_last()), names.last())
    }
}

/// Where an archive entry is unpacked: below `destination`, at its path
/// without the archive's root directory; `None` for the root directory
/// itself; an error for a path that would escape.
pub fn archive_entry_path(destination: &str, components: &[ArchivePathComponent]) -> (r: Result<
    Option<String>,
    GlideError,
>)
    requires
        forall|i: int|
            0 <= i < components@.len() ==> ((#[trigger] components@[i]) matches ArchivePathComponent::Normal(n) ==> n@.len()
                > 0 && n@[0] != '/'),
    ensures
        !archive_path_safe(components@) ==> (r matches Err(e) && e is UnsafeArchivePath),
        archive_path_safe(components@) && archive_path_kept(components@).len() == 0 ==> r matches Ok(None),
        archive_path_safe(components@) && archive_path_kept(components@).len() > 0 ==> (r matches Ok(Some(p))
            && p@ == join_all(destination@, archive_path_kept(components@))),
{
    let parts = match strip_archive_root(components) {
        Ok(v) => v,
        Err(e) => return Err(e),
    };
    if parts.len() == 0 {
        return Ok(None);
    }
    let ghost kept = archive_path_kept(components@);
    proof {
        lemma_kept_names(components@);
    }
    let mut out = String::from_str(destination);
    let mut i: usize = 0;
    while i < parts.len()
        invariant
            i <= parts@.len(),
            parts@.len() == kept.len(),
            forall|k: int| 0 <= k < parts@.len() ==> (#[trigger] parts@[k])@ == kept[k],
            forall|k: int| 0 <= k < kept.len() ==> (#[trigger] kept[k]).len() > 0 && kept[k][0] != '/',
            out@ == join_all(destination@, kept.take(i as int)),
        decreases parts@.len() - i,
    {
        proof {
            assert(kept.take(i + 1).drop_last() =~= kept.take(i as int));
            assert(kept.take(i + 1).last() == kept[i as int]);
            assert(parts@[i as int]@ == kept[i as int]);
        }
        out = join_path_exec(out.as_str(), parts[i].as_str());
        i = i + 1;
    }
    proof {
        assert(kept.take(kept.len() as int) =~= kept);
    }
    Ok(Some(out))
}

/// The kept names are the normal components, so none is empty or rooted.
proof fn lemma_kept_names(c: Seq<ArchivePathComponent>)
    requires
        forall|i: int|
            0 <= i < c.len() ==> ((#[trigger] c[i]) matches ArchivePathComponent::Normal(n) ==> n@.len() > 0 && n@[0]
                != '/'),
    ensures
        forall|k: int|
            0 <= k < archive_path_kept(c).len() ==> (#[trigger] archive_path_kept(c)[k]).len() > 0
                && archive_path_kept(c)[k][0] != '/',
    decreases c.len(),
{
    if c.len() > 1 {
        let d = c.drop_last();
        assert forall|i: int| 0 <= i < d.len() implies ((#[trigger] d[i]) matches ArchivePathComponent::Normal(n)
            ==> n@.len() > 0 && n@[0] != '/') by {
            assert(d[i] == c[i]);
        }
        lemma_kept_names(d);
        let kept = archive_path_kept(c);
        let rest = archive_path_kept(d);
        assert forall|k: int| 0 <= k < kept.len() implies (#[trigger] kept[k]).len() > 0 && kept[k][0] != '/' by {
            if k < rest.len() {
                match c.last() {
                    ArchivePathComponent::Normal(n) => assert(kept[k] == rest[k]),
                    _ => {},
                }
            } else {
                assert(c[c.len() - 1] == c.last());
            }
        }
    }
}

/// A directory tree as far as its size is concerned.
#[derive(Debug)]
pub enum FileTree {
    /// A file of this many bytes.
    File(u64),
    /// A directory and its entries.
    Dir(Vec<FileTree>),
}

/// The bytes of the files in a tree.
pub open spec fn tree_bytes(t: FileTree) -> int
    decreases t,
{
    match t {
        FileTree::File(n) => n as int,
        FileTree::Dir(entries) => entries_bytes(entries@),
    }
}

/// The bytes of the files in a list of trees.
pub open spec fn entries_bytes(entries: Seq<FileTree>) -> int
    decreases entries,
{
    if entries.len() == 0 {
        0
    } else {
        entries_bytes(entries.drop_last()) + tree_bytes(entries.last())
    }
}

proof fn lemma_entries_bytes_nonneg(entries: Seq<FileTree>)
    ensures
        entries_bytes(entries) >= 0,
    decreases entries,
{
    if entries.len() > 0 {
        lemma_entries_bytes_nonneg(entries.drop_last());
        lemma_tree_bytes_nonneg(entries.last());
    }
}

proof fn lemma_tree_bytes_nonneg(t: FileTree)
    ensures
        tree_bytes(t) >= 0,
    decreases t,
{
    if let FileTree::Dir(entries) = t {
        lemma_entries_bytes_nonneg(entries@);
    }
}

/// The size of an installed model: the bytes of its files, every level down.
pub fn directory_size(tree: &FileTree) -> (r: u64)
    requires
        tree_bytes(*tree) <= u64::MAX,
    ensures
        r == tree_bytes(*tree),
    decreases tree,
{
    match tree {
        FileTree::File(n) => *n,
        FileTree::Dir(entries) => {
            let mut total: u64 = 0;
            let mut i: usize = 0;
            while i < entries.len()
                invariant
                    *tree == FileTree::Dir(*entries),
                    i <= entries@.len(),
                    total == entries_bytes(entries@.take(i as int)),
                    entries_bytes(entries@) <= u64::MAX,
                decreases entries@.len() - i,
            {
                proof {
                    assert(entries@.take(i + 1).drop_last() =~= entries@.take(i as int));
                    assert(entries@.take(i + 1).last() == entries@[i as int]);
                    lemma_prefix_bytes(entries@, i + 1);
                    lemma_tree_bytes_nonneg(entries@[i as int]);
                    lemma_entries_bytes_nonneg(entries@.take(i as int));
                }
                proof {
                    vstd::std_specs::vec::axiom_vec_index_decreases(*entries, i as int);
                    assert(decreases_to!(*tree => (*tree)->Dir_0));
                    assert(decreases_to!(*entries => entries[i as int]));
                }
                let size = directory_size(&entries[i]);
                total = total + size;
                i = i + 1;
            }
            proof {
                assert(entries@.take(entries@.len() as int) =~= entries@);
            }
            total
        },
    }
}

/// A prefix of a list holds no more bytes than the list.
proof fn lemma_prefix_bytes(entries: Seq<FileTree>, n: int)
    requires
        0 <= n <= entries.len(),
    ensures
        entries_bytes(entries.take(n)) <= entries_bytes(entries),
    decreases entries.len(),
{
    if n < entries.len() {
        assert(entries.take(n) =~= entries.drop_last().take(n));
        lemma_prefix_bytes(entries.drop_last(), n);
        lemma_tree_bytes_nonneg(entries.last());
    } else {
        assert(entries.take(n) =~= entries);
    }
}

} // verus!
