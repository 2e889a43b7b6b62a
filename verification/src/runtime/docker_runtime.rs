//! The container backend's decision logic and resource naming.
//!
//! Everything here is the computational core of the container backend: secret
//! mount wiring, cache and workspace volume naming, the container request an
//! agent is materialised from, command-completion judgement, orphan-cleanup
//! planning and plugin-volume resolution.  The engine calls themselves are
//! made by the backend shell around this crate, which follows these plans.

use vstd::prelude::*;

use rand::distributions::DistString;

use crate::config::{Agent, CacheRule, ContainerConfigurationView, ShellConfig};
use crate::runtime::BuildRuntimeError;
use vstd::pervasive::unreached;
use crate::text::{is_word_char, push_char, spec_upper_char, upper_char, u64_to_string,
    i64_to_string, spec_nat_string, spec_int_string, spec_split, split_char};

verus! {

// ---------------------------------------------------------------------------
// Random identifiers and creation-time labels
// ---------------------------------------------------------------------------
/// Relies on rand's `Alphanumeric` distribution (`DistString::sample_string`):
/// a fresh string of exactly `len` characters, each an ASCII letter or digit.
/// The characters are random: nothing further holds of them.
#[verifier::external_body]
pub fn random_alphanumeric(len: usize) -> (r: String)
    ensures
        r@.len() == len as nat,
        forall|i: int|
            0 <= i < r@.len() ==> (('a' <= #[trigger] r@[i] && r@[i] <= 'z') || ('A' <= r@[i]
                && r@[i] <= 'Z') || ('0' <= r@[i] && r@[i] <= '9')),
{
    rand::distributions::Alphanumeric.sample_string(&mut rand::thread_rng(), len)
}

/// Relies on chrono's `Utc::now().to_rfc3339()`: the current wall-clock time;
/// being a clock reading, nothing is pinned of the result.
#[verifier::external_body]
pub fn now_rfc3339() -> String {
    chrono::Utc::now().to_rfc3339()
}

/// A string of ASCII letters and digits only: safe inside a resource name.
pub open spec fn seq_alphanumeric(s: Seq<char>) -> bool {
    forall|i: int|
        0 <= i < s.len() ==> (('a' <= #[trigger] s[i] && s[i] <= 'z') || ('A' <= s[i] && s[i]
            <= 'Z') || ('0' <= s[i] && s[i] <= '9'))
}

/// Every resource this system creates carries these two labels, which the
/// orphan sweep later finds it by.
pub open spec fn spec_standard_labels(time: Seq<char>) -> Seq<(Seq<char>, Seq<char>)> {
    seq![("created-by"@, "jarvis"@), ("build-time"@, time)]
}

/// The creator and creation-time labels stamped on every resource, with the
/// clock read at the call.
pub fn standard_labels() -> (r: Vec<(String, String)>)
    ensures
        exists|time: Seq<char>|
            r@.map_values(|p: (String, String)| (p.0@, p.1@)) == spec_standard_labels(time),
{
    let time = now_rfc3339();
    let mut labels: Vec<(String, String)> = Vec::new();
    labels.push(("created-by".to_owned(), "jarvis".to_owned()));
    labels.push(("build-time".to_owned(), time));
    proof {
        assert(labels@.map_values(|p: (String, String)| (p.0@, p.1@)) =~= spec_standard_labels(
            labels@[1].1@,
        ));
    }
    labels
}

// ---------------------------------------------------------------------------
// Resource names
// ---------------------------------------------------------------------------
/// The name of a module's workspace volume, before its random suffix.
pub open spec fn spec_workspace_volume_name(module: Seq<char>, suffix: Seq<char>) -> Seq<char> {
    "build-data-volume_"@ + module + "_"@ + suffix
}

/// A fresh workspace volume name for the module: the fixed prefix, the module
/// name, and a random 30-character suffix so that repeated runs cannot
/// collide.
pub fn new_workspace_volume_name(module_name: &String) -> (r: String)
    ensures
        exists|suffix: Seq<char>|
            suffix.len() == 30 && seq_alphanumeric(suffix) && r@ == spec_workspace_volume_name(
                module_name@,
                suffix,
            ),
{
    let id = random_alphanumeric(30);
    let r = "build-data-volume_".to_owned();
    let r = r.concat(module_name.as_str());
    let r = r.concat("_");
    let r = r.concat(id.as_str());
    proof {
        assert(r@ =~= spec_workspace_volume_name(module_name@, id@));
    }
    r
}

/// The name of an agent's container, before its random suffix.
pub open spec fn spec_agent_container_name(
    module: Seq<char>,
    agent: Seq<char>,
    suffix: Seq<char>,
) -> Seq<char> {
    "jarvis-agent-"@ + module + "-"@ + agent + "-"@ + suffix
}

/// A fresh, globally unique container name for one agent instantiation.
pub fn new_agent_container_name(module_name: &String, agent_name: &String) -> (r: String)
    ensures
        exists|suffix: Seq<char>|
            suffix.len() == 30 && seq_alphanumeric(suffix) && r@ == spec_agent_container_name(
                module_name@,
                agent_name@,
                suffix,
            ),
{
    let id = random_alphanumeric(30);
    let r = "jarvis-agent-".to_owned();
    let r = r.concat(module_name.as_str());
    let r = r.concat("-");
    let r = r.concat(agent_name.as_str());
    let r = r.concat("-");
    let r = r.concat(id.as_str());
    proof {
        assert(r@ =~= spec_agent_container_name(module_name@, agent_name@, id@));
    }
    r
}

/// The stable name of the cache volume backing one cache rule: keyed by the
/// module's identifier base and the rule's name, so it outlives the run.
pub open spec fn spec_cache_volume_name(base: Seq<char>, rule: Seq<char>) -> Seq<char> {
    "cache_"@ + base + "_"@ + rule
}

/// The cache volumes an agent's cache rules call for, as pairs of the rule's
/// name and the backing volume's stable name, in declared order.
pub fn cache_volume_plan(cache_rules: &Vec<CacheRule>, identifier_base: &String) -> (r: Vec<
    (String, String),
>)
    ensures
        r@.len() == cache_rules@.len(),
        forall|i: int|
            0 <= i < r@.len() ==> (#[trigger] r@[i]).0@ == cache_rules@[i].name@ && r@[i].1@
                == spec_cache_volume_name(identifier_base@, cache_rules@[i].name@),
{
    let mut volumes: Vec<(String, String)> = Vec::new();
    let mut i: usize = 0;
    while i < cache_rules.len()
        invariant
            0 <= i <= cache_rules@.len(),
            volumes@.len() == i,
            forall|k: int|
                0 <= k < i ==> (#[trigger] volumes@[k]).0@ == cache_rules@[k].name@ && volumes@[k].1@
                    == spec_cache_volume_name(identifier_base@, cache_rules@[k].name@),
        decreases cache_rules@.len() - i,
    {
        let name = "cache_".to_owned();
        let name = name.concat(identifier_base.as_str());
        let name = name.concat("_");
        let name = name.concat(cache_rules[i].name.as_str());
        proof {
            assert(name@ =~= spec_cache_volume_name(identifier_base@, cache_rules@[i as int].name@));
        }
        volumes.push((cache_rules[i].name.clone(), name));
        i = i + 1;
    }
    volumes
}

// ---------------------------------------------------------------------------
// Secrets
// ---------------------------------------------------------------------------
/// One pass of sanitization from position `i` on: word characters are kept
/// (upper-cased), a run of anything else becomes one underscore.  `prev_bad`
/// records whether the previous character belonged to such a run.
pub open spec fn sanitize_from(s: Seq<char>, i: int, prev_bad: bool) -> Seq<char>
    decreases s.len() - i,
{
    if i < 0 || i >= s.len() {
        Seq::empty()
    } else if is_word_char(s[i]) {
        seq![spec_upper_char(s[i])] + sanitize_from(s, i + 1, false)
    } else if prev_bad {
        sanitize_from(s, i + 1, true)
    } else {
        seq!['_'] + sanitize_from(s, i + 1, true)
    }
}

/// The environment-variable name a secret name sanitizes to: every run of
/// characters outside `[a-zA-Z0-9_]` collapses to a single underscore, and
/// the result is upper-cased.
pub open spec fn sanitized_env_name(s: Seq<char>) -> Seq<char> {
    sanitize_from(s, 0, false)
}

/// Sanitizes a secret name into its environment-variable name.
pub fn to_environment_variable_name(source: &str) -> (r: String)
    ensures
        r@ == sanitized_env_name(source@),
{
    let len = source.unicode_len();
    let mut out = String::new();
    let mut prev_bad = false;
    let mut i: usize = 0;
    while i < len
        invariant
            0 <= i <= len,
            len == source@.len(),
            sanitized_env_name(source@) == out@ + sanitize_from(source@, i as int, prev_bad),
        decreases len - i,
    {
        let c = source.get_char(i);
        if ('a' <= c && c <= 'z') || ('A' <= c && c <= 'Z') || ('0' <= c && c <= '9') || c == '_' {
            push_char(&mut out, upper_char(c));
            prev_bad = false;
        } else if !prev_bad {
            push_char(&mut out, '_');
            prev_bad = true;
        }
        i = i + 1;
    }
    out
}

/// A character that sanitization leaves exactly as it is: a word character
/// that is its own upper-casing.
pub open spec fn sanitized_char_stable(c: char) -> bool {
    is_word_char(c) && spec_upper_char(c) == c
}

/// Upper-casing a word character yields a stable character.
proof fn lemma_upper_of_word_char(c: char)
    requires
        is_word_char(c),
    ensures
        sanitized_char_stable(spec_upper_char(c)),
{
    if 'a' <= c && c <= 'z' {
        assert('a' <= c && c <= 'z');
        assert(97 <= c as int <= 122);
        let u = ((c as int) - 32) as char;
        assert(65 <= (c as int) - 32 <= 90);
        assert(u as int == (c as int) - 32);
        assert('A' <= u && u <= 'Z');
    }
}

/// Every character a sanitization pass emits is stable.
proof fn lemma_sanitize_from_chars(s: Seq<char>, i: int, prev_bad: bool)
    ensures
        forall|k: int|
            0 <= k < sanitize_from(s, i, prev_bad).len() ==> sanitized_char_stable(
                #[trigger] sanitize_from(s, i, prev_bad)[k],
            ),
    decreases s.len() - i,
{
    let out = sanitize_from(s, i, prev_bad);
    if i < 0 || i >= s.len() {
    } else if is_word_char(s[i]) {
        lemma_upper_of_word_char(s[i]);
        lemma_sanitize_from_chars(s, i + 1, false);
        assert forall|k: int| 0 <= k < out.len() implies sanitized_char_stable(out[k]) by {
            if k == 0 {
                assert(out[0] == spec_upper_char(s[i]));
            } else {
                assert(out[k] == sanitize_from(s, i + 1, false)[k - 1]);
            }
        }
    } else if prev_bad {
        lemma_sanitize_from_chars(s, i + 1, true);
        assert forall|k: int| 0 <= k < out.len() implies sanitized_char_stable(out[k]) by {
            assert(out[k] == sanitize_from(s, i + 1, true)[k]);
        }
    } else {
        lemma_sanitize_from_chars(s, i + 1, true);
        assert(sanitized_char_stable('_'));
        assert forall|k: int| 0 <= k < out.len() implies sanitized_char_stable(out[k]) by {
            if k == 0 {
                assert(out[0] == '_');
            } else {
                assert(out[k] == sanitize_from(s, i + 1, true)[k - 1]);
            }
        }
    }
}

/// A string of stable characters sanitizes to itself.
proof fn lemma_sanitize_of_stable(t: Seq<char>, i: int)
    requires
        0 <= i <= t.len(),
        forall|k: int| 0 <= k < t.len() ==> sanitized_char_stable(#[trigger] t[k]),
    ensures
        sanitize_from(t, i, false) == t.skip(i),
    decreases t.len() - i,
{
    if i == t.len() {
        assert(sanitize_from(t, i, false) =~= t.skip(i));
    } else {
        assert(sanitized_char_stable(t[i]));
        lemma_sanitize_of_stable(t, i + 1);
        assert(sanitize_from(t, i, false) =~= t.skip(i));
    }
}

/// Sanitization is stable: applying it once more changes nothing, so the
/// collapse can be repeated any number of times to the same end.
pub proof fn lemma_sanitize_idempotent(s: Seq<char>)
    ensures
        sanitized_env_name(sanitized_env_name(s)) == sanitized_env_name(s),
{
    let t = sanitized_env_name(s);
    lemma_sanitize_from_chars(s, 0, false);
    lemma_sanitize_of_stable(t, 0);
    assert(t.skip(0) =~= t);
}

/// The host-side file a secret must live in: under the project's metadata
/// directory, in `secrets/`, as `<name>.secret.txt`.
pub open spec fn spec_secret_file_path(jarvis_dir: Seq<char>, name: Seq<char>) -> Seq<char> {
    jarvis_dir + "/secrets/"@ + name + ".secret.txt"@
}

/// The fixed in-agent path a secret is mounted at.
pub open spec fn spec_secret_container_path(name: Seq<char>) -> Seq<char> {
    "/build/secrets/"@ + name
}

/// The error reported for a secret whose file is missing.
pub open spec fn spec_secret_missing_msg(name: Seq<char>, path: Seq<char>) -> Seq<char> {
    "Secret ["@ + name + "] not found at ["@ + path + "]"@
}

/// The wiring of one secret into an agent: the sanitized environment variable
/// base name, the host file to bind-mount, and the in-agent mount path.
pub open spec fn spec_secret_mount(jarvis_dir: Seq<char>, name: Seq<char>) -> (
    Seq<char>,
    Seq<char>,
    Seq<char>,
) {
    (
        sanitized_env_name(name),
        spec_secret_file_path(jarvis_dir, name),
        spec_secret_container_path(name),
    )
}

/// Resolves a step's secrets to their mount wiring.  `present` says, for each
/// requested secret in order, whether its file exists under the secrets
/// directory; the first missing one is a hard error, before any container
/// work.  Each resolved secret yields its environment variable name, host
/// file path and in-agent path.
pub fn configure_secrets(
    jarvis_directory: &String,
    secrets: &Option<Vec<String>>,
    present: &Vec<bool>,
) -> (r: Result<Vec<(String, String, String)>, BuildRuntimeError>)
    requires
        match *secrets {
            Some(ref names) => present@.len() == names@.len(),
            None => true,
        },
    ensures
        match *secrets {
            Some(ref names) => {
                &&& (r is Ok <==> (forall|i: int| 0 <= i < present@.len() ==> present@[i]))
                &&& (r matches Ok(mounts) ==> mounts@.len() == names@.len() && (forall|i: int|
                    0 <= i < names@.len() ==> ((#[trigger] mounts@[i]).0@, mounts@[i].1@,
                    mounts@[i].2@) == spec_secret_mount(jarvis_directory@, names@[i]@)))
                &&& (forall|i: int|
                    0 <= i < present@.len() && !(#[trigger] present@[i]) && (forall|j: int|
                        0 <= j < i ==> present@[j]) ==> (r matches Err(e) && e.msg@
                        == spec_secret_missing_msg(
                        names@[i]@,
                        spec_secret_file_path(jarvis_directory@, names@[i]@),
                    )))
            },
            None => r matches Ok(mounts) && mounts@.len() == 0,
        },
{
    let mut secret_mounts: Vec<(String, String, String)> = Vec::new();
    match *secrets {
        Some(ref names) => {
            let mut i: usize = 0;
            while i < names.len()
                invariant
                    0 <= i <= names@.len(),
                    present@.len() == names@.len(),
                    forall|k: int| 0 <= k < i ==> present@[k],
                    secret_mounts@.len() == i,
                    forall|k: int|
                        0 <= k < i ==> ((#[trigger] secret_mounts@[k]).0@, secret_mounts@[k].1@,
                        secret_mounts@[k].2@) == spec_secret_mount(jarvis_directory@, names@[k]@),
                decreases names@.len() - i,
            {
                let secret = &names[i];
                let secret_file = jarvis_directory.clone();
                let secret_file = secret_file.concat("/secrets/");
                let secret_file = secret_file.concat(secret.as_str());
                let secret_file = secret_file.concat(".secret.txt");
                proof {
                    assert(secret_file@ =~= spec_secret_file_path(jarvis_directory@, secret@));
                }
                if !present[i] {
                    let msg = "Secret [".to_owned();
                    let msg = msg.concat(secret.as_str());
                    let msg = msg.concat("] not found at [");
                    let msg = msg.concat(secret_file.as_str());
                    let msg = msg.concat("]");
                    proof {
                        assert(msg@ =~= spec_secret_missing_msg(secret@, secret_file@));
                        assert(0 <= i < present@.len() && !present@[i as int] && msg@
                            == spec_secret_missing_msg(
                            names@[i as int]@,
                            spec_secret_file_path(jarvis_directory@, names@[i as int]@),
                        ));
                        assert(forall|k: int|
                            0 <= k < present@.len() && !(#[trigger] present@[k]) && (forall|j: int|
                                0 <= j < k ==> present@[j]) ==> k == i as int);
                    }
                    return Err(BuildRuntimeError { msg });
                }
                let target = "/build/secrets/".to_owned();
                let target = target.concat(secret.as_str());
                proof {
                    assert(target@ =~= spec_secret_container_path(secret@));
                }
                secret_mounts.push(
                    (to_environment_variable_name(secret.as_str()), secret_file, target),
                );
                i = i + 1;
            }
        },
        None => {},
    }
    Ok(secret_mounts)
}

// ---------------------------------------------------------------------------
// Command completion
// ---------------------------------------------------------------------------
/// The message reported for a non-zero exit status.
pub open spec fn spec_nonzero_exit_msg(code: int) -> Seq<char> {
    "Command has non-zero exit status ["@ + spec_int_string(code) + "]"@
}

/// Judges a finished command from the engine's inspection of its exec: the
/// command must have stopped running and have exited with status zero;
/// a still-running, unknown or non-zero status is a failure.
pub fn exec_completion_result(running: Option<bool>, exit_code: Option<i64>) -> (r: Result<
    (),
    BuildRuntimeError,
>)
    ensures
        r is Ok <==> (running == Some(false) && exit_code == Some(0i64)),
        running == Some(true) ==> (r matches Err(e) && e.msg@ == "Command has not exited."@),
        running is None ==> (r matches Err(e) && e.msg@ == "Command status is not available."@),
        running == Some(false) && exit_code is None ==> (r matches Err(e) && e.msg@
            == "Command exit status is not available."@),
        running == Some(false) && exit_code is Some && exit_code->0 != 0 ==> (r matches Err(e)
            && e.msg@ == spec_nonzero_exit_msg(exit_code->0 as int)),
{
    match running {
        Some(true) => Err(BuildRuntimeError { msg: "Command has not exited.".to_owned() }),
        None => Err(BuildRuntimeError { msg: "Command status is not available.".to_owned() }),
        Some(false) => {
            match exit_code {
                Some(code) => {
                    if code == 0 {
                        Ok(())
                    } else {
                        let msg = "Command has non-zero exit status [".to_owned();
                        let msg = msg.concat(i64_to_string(code).as_str());
                        let msg = msg.concat("]");
                        proof {
                            assert(msg@ =~= spec_nonzero_exit_msg(code as int));
                        }
                        Err(BuildRuntimeError { msg })
                    }
                },
                None => Err(
                    BuildRuntimeError { msg: "Command exit status is not available.".to_owned() },
                ),
            }
        },
    }
}

// ---------------------------------------------------------------------------
// Plugin volume resolution
// ---------------------------------------------------------------------------
/// What the backend must do about the shared plugin volume.
pub enum PluginVolumePlan {
    /// No volume exists yet: create one under the fixed name.
    Create,
    /// Exactly one exists: reuse it.
    Reuse(String),
}

/// The fixed name the plugin volume is created under.
pub fn plugin_volume_name() -> (r: String)
    ensures
        r@ == "jarvis-plugins"@,
{
    "jarvis-plugins".to_owned()
}

/// The label set that identifies the shared plugin volume.
pub open spec fn spec_plugin_volume_labels() -> Seq<(Seq<char>, Seq<char>)> {
    seq![("created-by"@, "jarvis"@), ("used-for"@, "plugins"@)]
}

/// The labels the plugin volume is looked up by, and created with.
pub fn plugin_volume_labels() -> (r: Vec<(String, String)>)
    ensures
        r@.map_values(|p: (String, String)| (p.0@, p.1@)) == spec_plugin_volume_labels(),
{
    let mut labels: Vec<(String, String)> = Vec::new();
    labels.push(("created-by".to_owned(), "jarvis".to_owned()));
    labels.push(("used-for".to_owned(), "plugins".to_owned()));
    proof {
        assert(labels@.map_values(|p: (String, String)| (p.0@, p.1@))
            =~= spec_plugin_volume_labels());
    }
    labels
}

/// The message reported when several plugin volumes match.
pub open spec fn spec_ambiguous_plugin_volumes_msg(count: nat) -> Seq<char> {
    "Multiple plugin volumes found. Please remove unwanted disks until only 1 of "@
        + spec_nat_string(count) + " remains"@
}

/// Resolves the plugin-volume singleton from the names of the volumes that
/// matched its label set: none means create exactly one, one is reused as it
/// stands, and several is a configuration inconsistency that is refused —
/// guessing which volume is authoritative would be wrong.
pub fn resolve_plugin_volume(matches: &Vec<String>) -> (r: Result<
    PluginVolumePlan,
    BuildRuntimeError,
>)
    ensures
        matches@.len() == 0 ==> (r matches Ok(p) && p is Create),
        matches@.len() == 1 ==> (r matches Ok(p) && p matches PluginVolumePlan::Reuse(n) && n@
            == matches@[0]@),
        matches@.len() >= 2 ==> (r matches Err(e) && e.msg@ == spec_ambiguous_plugin_volumes_msg(
            matches@.len(),
        )),
{
    let n = matches.len();
    if n == 1 {
        Ok(PluginVolumePlan::Reuse(matches[0].clone()))
    } else if n == 0 {
        Ok(PluginVolumePlan::Create)
    } else {
        let msg = "Multiple plugin volumes found. Please remove unwanted disks until only 1 of "
            .to_owned();
        let msg = msg.concat(u64_to_string(n as u64).as_str());
        let msg = msg.concat(" remains");
        proof {
            assert(msg@ =~= spec_ambiguous_plugin_volumes_msg(matches@.len()));
        }
        Err(BuildRuntimeError { msg })
    }
}

// ---------------------------------------------------------------------------
// Orphan cleanup
// ---------------------------------------------------------------------------
/// One action of the orphan sweep.  Indices point into the lists of found
/// containers and volumes handed to the planner.
#[derive(Clone, Copy)]
pub enum CleanupAction {
    /// Print the identity and labels of the container at `index`.
    ReportContainer { index: usize },
    /// Remove the container at `index`.
    DeleteContainer { index: usize },
    /// Print that no unused, system-owned container was found.
    ReportNoContainers,
    /// Print the identity and labels of the volume at `index`.
    ReportVolume { index: usize },
    /// Remove the volume at `index`.
    DeleteVolume { index: usize },
    /// Print that no unused, system-owned volume was found.
    ReportNoVolumes,
}

/// A report-then-delete pair per container, from `i` up to `n`.
pub open spec fn container_pairs(i: int, n: int) -> Seq<CleanupAction>
    decreases n - i,
{
    if i < 0 || i >= n {
        Seq::empty()
    } else {
        seq![
            CleanupAction::ReportContainer { index: i as usize },
            CleanupAction::DeleteContainer { index: i as usize },
        ] + container_pairs(i + 1, n)
    }
}

/// A report-then-delete pair per volume, from `i` up to `n`.
pub open spec fn volume_pairs(i: int, n: int) -> Seq<CleanupAction>
    decreases n - i,
{
    if i < 0 || i >= n {
        Seq::empty()
    } else {
        seq![
            CleanupAction::ReportVolume { index: i as usize },
            CleanupAction::DeleteVolume { index: i as usize },
        ] + volume_pairs(i + 1, n)
    }
}

/// The container phase of the sweep: each found container reported, then
/// deleted; finding none is reported and deletes nothing.
pub open spec fn spec_container_cleanup_plan(container_count: int) -> Seq<CleanupAction> {
    if container_count == 0 {
        seq![CleanupAction::ReportNoContainers]
    } else {
        container_pairs(0, container_count)
    }
}

/// The volume phase of the sweep, shaped like the container phase.
pub open spec fn spec_volume_cleanup_plan(volume_count: int) -> Seq<CleanupAction> {
    if volume_count == 0 {
        seq![CleanupAction::ReportNoVolumes]
    } else {
        volume_pairs(0, volume_count)
    }
}

/// The whole sweep: the container phase, then the volume phase.
pub open spec fn spec_cleanup_plan(container_count: int, volume_count: int) -> Seq<CleanupAction> {
    spec_container_cleanup_plan(container_count) + spec_volume_cleanup_plan(volume_count)
}

proof fn lemma_container_pairs_snoc(j: int, n: int)
    requires
        0 <= j <= n,
    ensures
        container_pairs(j, n + 1) == container_pairs(j, n) + seq![
            CleanupAction::ReportContainer { index: n as usize },
            CleanupAction::DeleteContainer { index: n as usize },
        ],
    decreases n - j,
{
    if j == n {
        assert(container_pairs(j, n) =~= Seq::<CleanupAction>::empty());
        assert(container_pairs(n + 1, n + 1) =~= Seq::<CleanupAction>::empty());
        assert(container_pairs(j, n + 1) =~= container_pairs(j, n) + seq![
            CleanupAction::ReportContainer { index: n as usize },
            CleanupAction::DeleteContainer { index: n as usize },
        ]);
    } else {
        lemma_container_pairs_snoc(j + 1, n);
        assert(container_pairs(j, n + 1) =~= container_pairs(j, n) + seq![
            CleanupAction::ReportContainer { index: n as usize },
            CleanupAction::DeleteContainer { index: n as usize },
        ]);
    }
}

proof fn lemma_volume_pairs_snoc(j: int, n: int)
    requires
        0 <= j <= n,
    ensures
        volume_pairs(j, n + 1) == volume_pairs(j, n) + seq![
            CleanupAction::ReportVolume { index: n as usize },
            CleanupAction::DeleteVolume { index: n as usize },
        ],
    decreases n - j,
{
    if j == n {
        assert(volume_pairs(j, n) =~= Seq::<CleanupAction>::empty());
        assert(volume_pairs(n + 1, n + 1) =~= Seq::<CleanupAction>::empty());
        assert(volume_pairs(j, n + 1) =~= volume_pairs(j, n) + seq![
            CleanupAction::ReportVolume { index: n as usize },
            CleanupAction::DeleteVolume { index: n as usize },
        ]);
    } else {
        lemma_volume_pairs_snoc(j + 1, n);
        assert(volume_pairs(j, n + 1) =~= volume_pairs(j, n) + seq![
            CleanupAction::ReportVolume { index: n as usize },
            CleanupAction::DeleteVolume { index: n as usize },
        ]);
    }
}

/// Plans the container phase of the sweep, from the count of containers the
/// engine reported.
pub fn plan_container_cleanup(container_count: usize) -> (r: Vec<CleanupAction>)
    ensures
        r@ == spec_container_cleanup_plan(container_count as int),
{
    let mut actions: Vec<CleanupAction> = Vec::new();
    if container_count == 0 {
        actions.push(CleanupAction::ReportNoContainers);
        proof {
            assert(actions@ =~= seq![CleanupAction::ReportNoContainers]);
        }
    } else {
        let mut i: usize = 0;
        proof {
            assert(container_pairs(0, 0) =~= Seq::<CleanupAction>::empty());
        }
        while i < container_count
            invariant
                0 <= i <= container_count,
                actions@ == container_pairs(0, i as int),
            decreases container_count - i,
        {
            actions.push(CleanupAction::ReportContainer { index: i });
            actions.push(CleanupAction::DeleteContainer { index: i });
            proof {
                lemma_container_pairs_snoc(0, i as int);
                assert(actions@ =~= container_pairs(0, i as int) + seq![
                    CleanupAction::ReportContainer { index: i },
                    CleanupAction::DeleteContainer { index: i },
                ]);
            }
            i = i + 1;
        }
    }
    actions
}

/// Plans the volume phase of the sweep, from the count of dangling volumes
/// the engine reported.  The shell asks for the volume list only after the
/// container deletes have run, so a volume left dangling by an orphaned
/// container's removal is swept too.
pub fn plan_volume_cleanup(volume_count: usize) -> (r: Vec<CleanupAction>)
    ensures
        r@ == spec_volume_cleanup_plan(volume_count as int),
{
    let mut actions: Vec<CleanupAction> = Vec::new();
    if volume_count == 0 {
        actions.push(CleanupAction::ReportNoVolumes);
        proof {
            assert(actions@ =~= seq![CleanupAction::ReportNoVolumes]);
        }
    } else {
        let mut i: usize = 0;
        proof {
            assert(volume_pairs(0, 0) =~= Seq::<CleanupAction>::empty());
        }
        while i < volume_count
            invariant
                0 <= i <= volume_count,
                actions@ == volume_pairs(0, i as int),
            decreases volume_count - i,
        {
            actions.push(CleanupAction::ReportVolume { index: i });
            actions.push(CleanupAction::DeleteVolume { index: i });
            proof {
                lemma_volume_pairs_snoc(0, i as int);
                assert(actions@ =~= volume_pairs(0, i as int) + seq![
                    CleanupAction::ReportVolume { index: i },
                    CleanupAction::DeleteVolume { index: i },
                ]);
            }
            i = i + 1;
        }
    }
    actions
}

/// Plans the whole orphan sweep: every found container, then every found
/// volume, each reported before it is deleted; when a kind has no matches,
/// that is reported and nothing of that kind is deleted.
pub fn plan_cleanup(container_count: usize, volume_count: usize) -> (r: Vec<CleanupAction>)
    ensures
        r@ == spec_cleanup_plan(container_count as int, volume_count as int),
{
    let mut actions = plan_container_cleanup(container_count);
    let ghost head = actions@;
    let mut volumes = plan_volume_cleanup(volume_count);
    let ghost tail = volumes@;
    let mut i: usize = 0;
    while i < volumes.len()
        invariant
            0 <= i <= tail.len(),
            volumes@ == tail,
            actions@ == head + tail.take(i as int),
        decreases tail.len() - i,
    {
        let action = volumes[i];
        actions.push(action);
        proof {
            assert(tail.take(i + 1) =~= tail.take(i as int).push(tail[i as int]));
            assert(actions@ =~= head + tail.take(i + 1));
        }
        i = i + 1;
    }
    proof {
        assert(tail.take(tail.len() as int) =~= tail);
    }
    actions
}

/// How many deletes, of either kind, a plan holds.
pub open spec fn count_delete_actions(plan: Seq<CleanupAction>) -> nat
    decreases plan.len(),
{
    if plan.len() == 0 {
        0
    } else {
        (if plan.first() is DeleteContainer || plan.first() is DeleteVolume {
            1nat
        } else {
            0nat
        }) + count_delete_actions(plan.drop_first())
    }
}

proof fn lemma_count_delete_add(a: Seq<CleanupAction>, b: Seq<CleanupAction>)
    ensures
        count_delete_actions(a + b) == count_delete_actions(a) + count_delete_actions(b),
    decreases a.len(),
{
    if a.len() == 0 {
        assert(a + b =~= b);
    } else {
        assert((a + b).drop_first() =~= a.drop_first() + b);
        assert((a + b).first() == a.first());
        lemma_count_delete_add(a.drop_first(), b);
    }
}

/// How many container deletes a plan holds.
pub open spec fn count_container_delete_actions(plan: Seq<CleanupAction>) -> nat
    decreases plan.len(),
{
    if plan.len() == 0 {
        0
    } else {
        (if plan.first() is DeleteContainer {
            1nat
        } else {
            0nat
        }) + count_container_delete_actions(plan.drop_first())
    }
}

/// How many volume deletes a plan holds.
pub open spec fn count_volume_delete_actions(plan: Seq<CleanupAction>) -> nat
    decreases plan.len(),
{
    if plan.len() == 0 {
        0
    } else {
        (if plan.first() is DeleteVolume {
            1nat
        } else {
            0nat
        }) + count_volume_delete_actions(plan.drop_first())
    }
}

proof fn lemma_kind_counts_add(a: Seq<CleanupAction>, b: Seq<CleanupAction>)
    ensures
        count_container_delete_actions(a + b) == count_container_delete_actions(a)
            + count_container_delete_actions(b),
        count_volume_delete_actions(a + b) == count_volume_delete_actions(a)
            + count_volume_delete_actions(b),
    decreases a.len(),
{
    if a.len() == 0 {
        assert(a + b =~= b);
    } else {
        assert((a + b).drop_first() =~= a.drop_first() + b);
        assert((a + b).first() == a.first());
        lemma_kind_counts_add(a.drop_first(), b);
    }
}

proof fn lemma_kind_counts_pointwise(plan: Seq<CleanupAction>)
    ensures
        (forall|i: int| 0 <= i < plan.len() ==> !((#[trigger] plan[i]) is DeleteContainer))
            ==> count_container_delete_actions(plan) == 0,
        (forall|i: int| 0 <= i < plan.len() ==> !((#[trigger] plan[i]) is DeleteVolume))
            ==> count_volume_delete_actions(plan) == 0,
    decreases plan.len(),
{
    if plan.len() > 0 {
        assert(plan[0] == plan.first());
        assert(forall|i: int|
            0 <= i < plan.drop_first().len() ==> plan.drop_first()[i] == plan[i + 1]);
        lemma_kind_counts_pointwise(plan.drop_first());
    }
}

proof fn lemma_pairs_kind_counts(j: int, n: int)
    requires
        0 <= j <= n,
    ensures
        count_container_delete_actions(container_pairs(j, n)) == n - j,
        count_volume_delete_actions(container_pairs(j, n)) == 0,
        count_container_delete_actions(volume_pairs(j, n)) == 0,
        count_volume_delete_actions(volume_pairs(j, n)) == n - j,
    decreases n - j,
{
    if j < n {
        lemma_pairs_kind_counts(j + 1, n);
        let chead = seq![
            CleanupAction::ReportContainer { index: j as usize },
            CleanupAction::DeleteContainer { index: j as usize },
        ];
        let vhead = seq![
            CleanupAction::ReportVolume { index: j as usize },
            CleanupAction::DeleteVolume { index: j as usize },
        ];
        lemma_kind_counts_add(chead, container_pairs(j + 1, n));
        lemma_kind_counts_add(vhead, volume_pairs(j + 1, n));
        assert(chead.drop_first() =~= seq![
            CleanupAction::DeleteContainer { index: j as usize },
        ]);
        assert(chead.drop_first().drop_first() =~= Seq::<CleanupAction>::empty());
        assert(vhead.drop_first() =~= seq![CleanupAction::DeleteVolume { index: j as usize }]);
        assert(vhead.drop_first().drop_first() =~= Seq::<CleanupAction>::empty());
        assert(count_container_delete_actions(Seq::<CleanupAction>::empty()) == 0);
        assert(count_volume_delete_actions(Seq::<CleanupAction>::empty()) == 0);
        assert(count_container_delete_actions(chead.drop_first()) == 1);
        assert(count_volume_delete_actions(chead.drop_first()) == 0);
        assert(count_container_delete_actions(vhead.drop_first()) == 0);
        assert(count_volume_delete_actions(vhead.drop_first()) == 1);
    }
}

proof fn lemma_pairs_facts(j: int, n: int)
    requires
        0 <= j <= n,
    ensures
        container_pairs(j, n).len() == 2 * (n - j),
        volume_pairs(j, n).len() == 2 * (n - j),
        count_delete_actions(container_pairs(j, n)) == n - j,
        count_delete_actions(volume_pairs(j, n)) == n - j,
        forall|i: int|
            0 <= i < container_pairs(j, n).len() ==> (#[trigger] container_pairs(j, n)[i]) == (
            if i % 2 == 0 {
                CleanupAction::ReportContainer { index: (j + i / 2) as usize }
            } else {
                CleanupAction::DeleteContainer { index: (j + i / 2) as usize }
            }),
        forall|i: int|
            0 <= i < volume_pairs(j, n).len() ==> (#[trigger] volume_pairs(j, n)[i]) == (if i % 2
                == 0 {
                CleanupAction::ReportVolume { index: (j + i / 2) as usize }
            } else {
                CleanupAction::DeleteVolume { index: (j + i / 2) as usize }
            }),
    decreases n - j,
{
    if j < n {
        lemma_pairs_facts(j + 1, n);
        let chead = seq![
            CleanupAction::ReportContainer { index: j as usize },
            CleanupAction::DeleteContainer { index: j as usize },
        ];
        let vhead = seq![
            CleanupAction::ReportVolume { index: j as usize },
            CleanupAction::DeleteVolume { index: j as usize },
        ];
        lemma_count_delete_add(chead, container_pairs(j + 1, n));
        lemma_count_delete_add(vhead, volume_pairs(j + 1, n));
        assert(chead.drop_first() =~= seq![
            CleanupAction::DeleteContainer { index: j as usize },
        ]);
        assert(chead.drop_first().drop_first() =~= Seq::<CleanupAction>::empty());
        assert(vhead.drop_first() =~= seq![CleanupAction::DeleteVolume { index: j as usize }]);
        assert(vhead.drop_first().drop_first() =~= Seq::<CleanupAction>::empty());
        assert(count_delete_actions(Seq::<CleanupAction>::empty()) == 0);
        assert(count_delete_actions(chead.drop_first()) == 1);
        assert(count_delete_actions(vhead.drop_first()) == 1);
        assert(count_delete_actions(chead) == 1);
        assert(count_delete_actions(vhead) == 1);
    }
}

/// The orphan sweep's guarantees: with nothing found, the plan only reports
/// that — one line per kind, no delete at all; with resources found, the plan
/// holds exactly one delete per found resource, and every delete is
/// immediately preceded by the report of that same resource.
#[verifier::rlimit(100)]
pub proof fn lemma_cleanup_plan_shape(container_count: int, volume_count: int)
    requires
        0 <= container_count <= usize::MAX,
        0 <= volume_count <= usize::MAX,
    ensures
        ({
            let plan = spec_cleanup_plan(container_count, volume_count);
            &&& count_delete_actions(plan) == container_count + volume_count
            &&& count_container_delete_actions(plan) == container_count
            &&& count_volume_delete_actions(plan) == volume_count
            &&& (container_count == 0 && volume_count == 0 ==> plan == seq![
                CleanupAction::ReportNoContainers,
                CleanupAction::ReportNoVolumes,
            ])
            &&& (forall|i: int|
                0 <= i < plan.len() ==> ((#[trigger] plan[i]) matches
                CleanupAction::DeleteContainer { index } ==> i >= 1 && plan[i - 1] == (
                CleanupAction::ReportContainer { index })))
            &&& (forall|i: int|
                0 <= i < plan.len() ==> ((#[trigger] plan[i]) matches CleanupAction::DeleteVolume {
                    index,
                } ==> i >= 1 && plan[i - 1] == (CleanupAction::ReportVolume { index })))
            &&& (forall|i: int, j: int|
                0 <= i < plan.len() && 0 <= j < plan.len() && (#[trigger] plan[i])
                    is DeleteContainer && (#[trigger] plan[j]) is DeleteVolume ==> i < j)
            &&& (forall|i: int, j: int|
                0 <= i < j < plan.len() && (#[trigger] plan[i]) is DeleteContainer && (
                #[trigger] plan[j]) is DeleteContainer ==> plan[i]->DeleteContainer_index < plan[j]
                    ->DeleteContainer_index)
            &&& (forall|i: int, j: int|
                0 <= i < j < plan.len() && (#[trigger] plan[i]) is DeleteVolume && (
                #[trigger] plan[j]) is DeleteVolume ==> plan[i]->DeleteVolume_index < plan[j]
                    ->DeleteVolume_index)
        }),
{
    let plan = spec_cleanup_plan(container_count, volume_count);
    let chead = if container_count == 0 {
        seq![CleanupAction::ReportNoContainers]
    } else {
        container_pairs(0, container_count)
    };
    let vtail = if volume_count == 0 {
        seq![CleanupAction::ReportNoVolumes]
    } else {
        volume_pairs(0, volume_count)
    };
    lemma_pairs_facts(0, container_count);
    lemma_pairs_facts(0, volume_count);
    lemma_count_delete_add(chead, vtail);
    lemma_pairs_kind_counts(0, container_count);
    lemma_pairs_kind_counts(0, volume_count);
    lemma_kind_counts_add(chead, vtail);
    if container_count == 0 {
        assert(forall|i: int|
            0 <= i < chead.len() ==> !((#[trigger] chead[i]) is DeleteContainer) && !(chead[i]
                is DeleteVolume));
        lemma_kind_counts_pointwise(chead);
    }
    if volume_count == 0 {
        assert(forall|i: int|
            0 <= i < vtail.len() ==> !((#[trigger] vtail[i]) is DeleteContainer) && !(vtail[i]
                is DeleteVolume));
        lemma_kind_counts_pointwise(vtail);
    }
    assert(forall|i: int| 0 <= i < chead.len() ==> !((#[trigger] chead[i]) is DeleteVolume));
    assert(forall|i: int| 0 <= i < vtail.len() ==> !((#[trigger] vtail[i]) is DeleteContainer));
    assert(count_delete_actions(Seq::<CleanupAction>::empty()) == 0);
    if container_count == 0 {
        assert(chead.drop_first() =~= Seq::<CleanupAction>::empty());
        assert(count_delete_actions(chead) == 0);
    }
    if volume_count == 0 {
        assert(vtail.drop_first() =~= Seq::<CleanupAction>::empty());
        assert(count_delete_actions(vtail) == 0);
    }
    if container_count == 0 && volume_count == 0 {
        assert(plan =~= seq![
            CleanupAction::ReportNoContainers,
            CleanupAction::ReportNoVolumes,
        ]);
    }
    assert(forall|i: int| 0 <= i < chead.len() ==> plan[i] == chead[i]);
    assert(forall|i: int| chead.len() <= i < plan.len() ==> plan[i] == vtail[i - chead.len()]);
    assert forall|i: int|
        0 <= i < plan.len() && (#[trigger] plan[i]) is DeleteContainer implies i >= 1 && plan[i - 1]
        == (CleanupAction::ReportContainer { index: plan[i]->DeleteContainer_index }) by {
        assert(i < chead.len());
        assert(plan[i] == chead[i]);
        assert(plan[i - 1] == chead[i - 1]);
    };
    assert forall|i: int|
        0 <= i < plan.len() && (#[trigger] plan[i]) is DeleteVolume implies i >= 1 && plan[i - 1]
        == (CleanupAction::ReportVolume { index: plan[i]->DeleteVolume_index }) by {
        assert(i >= chead.len());
        assert(plan[i] == vtail[i - chead.len()]);
        assert(i - chead.len() >= 1);
        assert(plan[i - 1] == vtail[i - 1 - chead.len()]);
    };
    lemma_cleanup_plan_order(container_count, volume_count);
}

/// Where the deletes of a sweep plan sit: each container delete at an odd
/// position of the container phase carrying index position over two, each
/// volume delete likewise within the volume phase.
proof fn lemma_cleanup_plan_positions(container_count: int, volume_count: int)
    requires
        0 <= container_count <= usize::MAX,
        0 <= volume_count <= usize::MAX,
    ensures
        ({
            let plan = spec_cleanup_plan(container_count, volume_count);
            let head_len = spec_container_cleanup_plan(container_count).len();
            &&& (forall|i: int|
                0 <= i < plan.len() && (#[trigger] plan[i]) is DeleteContainer ==> i < head_len && i
                    % 2 == 1 && plan[i]->DeleteContainer_index == i / 2)
            &&& (forall|i: int|
                0 <= i < plan.len() && (#[trigger] plan[i]) is DeleteVolume ==> i >= head_len && (i
                    - head_len) % 2 == 1 && plan[i]->DeleteVolume_index == (i - head_len) / 2)
        }),
{
    let plan = spec_cleanup_plan(container_count, volume_count);
    let chead = spec_container_cleanup_plan(container_count);
    let vtail = spec_volume_cleanup_plan(volume_count);
    lemma_pairs_facts(0, container_count);
    lemma_pairs_facts(0, volume_count);
    assert(forall|i: int| 0 <= i < chead.len() ==> plan[i] == chead[i]);
    assert(forall|i: int| chead.len() <= i < plan.len() ==> plan[i] == vtail[i - chead.len()]);
    assert forall|i: int|
        0 <= i < plan.len() && (#[trigger] plan[i]) is DeleteContainer implies i < chead.len() && i
        % 2 == 1 && plan[i]->DeleteContainer_index == i / 2 by {
        if i >= chead.len() {
            assert(plan[i] == vtail[i - chead.len()]);
            if volume_count > 0 {
                assert(vtail[i - chead.len()] == volume_pairs(0, volume_count)[i - chead.len()]);
            }
        } else {
            assert(plan[i] == chead[i]);
            if container_count > 0 {
                assert(chead[i] == container_pairs(0, container_count)[i]);
            }
        }
    };
    assert forall|i: int|
        0 <= i < plan.len() && (#[trigger] plan[i]) is DeleteVolume implies i >= chead.len() && (i
        - chead.len()) % 2 == 1 && plan[i]->DeleteVolume_index == (i - chead.len()) / 2 by {
        if i < chead.len() {
            assert(plan[i] == chead[i]);
            if container_count > 0 {
                assert(chead[i] == container_pairs(0, container_count)[i]);
            }
        } else {
            assert(plan[i] == vtail[i - chead.len()]);
            if volume_count > 0 {
                assert(vtail[i - chead.len()] == volume_pairs(0, volume_count)[i - chead.len()]);
            }
        }
    };
}

/// The order of a sweep plan's deletes: every container delete before every
/// volume delete, and each kind's deletes in listed order.
proof fn lemma_cleanup_plan_order(container_count: int, volume_count: int)
    requires
        0 <= container_count <= usize::MAX,
        0 <= volume_count <= usize::MAX,
    ensures
        ({
            let plan = spec_cleanup_plan(container_count, volume_count);
            &&& (forall|i: int, j: int|
                0 <= i < plan.len() && 0 <= j < plan.len() && (#[trigger] plan[i])
                    is DeleteContainer && (#[trigger] plan[j]) is DeleteVolume ==> i < j)
            &&& (forall|i: int, j: int|
                0 <= i < j < plan.len() && (#[trigger] plan[i]) is DeleteContainer && (
                #[trigger] plan[j]) is DeleteContainer ==> plan[i]->DeleteContainer_index < plan[j]
                    ->DeleteContainer_index)
            &&& (forall|i: int, j: int|
                0 <= i < j < plan.len() && (#[trigger] plan[i]) is DeleteVolume && (
                #[trigger] plan[j]) is DeleteVolume ==> plan[i]->DeleteVolume_index < plan[j]
                    ->DeleteVolume_index)
        }),
{
    lemma_cleanup_plan_positions(container_count, volume_count);
}

// ---------------------------------------------------------------------------
// Container requests
// ---------------------------------------------------------------------------
/// How a mount is backed: by a named volume or by a host path bind.
pub enum MountKind {
    Volume,
    Bind,
}

pub struct MountSpecView {
    pub target: Seq<char>,
    pub source: Seq<char>,
    pub kind: MountKind,
    pub read_only: bool,
}

/// One mount of a container: an in-container target, its source, and whether
/// the container may write through it.
pub struct MountSpec {
    pub target: String,
    pub source: String,
    pub kind: MountKind,
    pub read_only: bool,
}

impl View for MountSpec {
    type V = MountSpecView;

    open spec fn view(&self) -> MountSpecView {
        MountSpecView {
            target: self.target@,
            source: self.source@,
            kind: self.kind,
            read_only: self.read_only,
        }
    }
}

/// Everything the engine needs to create one container.  The backend shell
/// translates this, one field for one field, into the engine's request.
pub struct ContainerRequest {
    pub name: String,
    pub image: String,
    pub entrypoint: Vec<String>,
    pub env: Vec<String>,
    pub labels: Vec<(String, String)>,
    pub working_dir: String,
    pub user: Option<String>,
    pub privileged: bool,
    pub mounts: Vec<MountSpec>,
    pub expose_plugin_port: bool,
}

/// The fixed in-agent workspace path, shared by every agent of a module.
pub fn workspace_mount_path() -> (r: String)
    ensures
        r@ == "/build/workspace"@,
{
    "/build/workspace".to_owned()
}

/// The container identity an agent runs under: `user:group` when both are
/// configured, the user alone when only it is, and the image default
/// otherwise.
pub open spec fn spec_user_config(container: Option<ContainerConfigurationView>) -> Option<
    Seq<char>,
> {
    match container {
        Some(c) => match c.user {
            Some(u) => match c.group {
                Some(g) => Some(u + ":"@ + g),
                None => Some(u),
            },
            None => None,
        },
        None => None,
    }
}

/// Whether an agent asks for a privileged container.
pub open spec fn spec_privileged(container: Option<ContainerConfigurationView>) -> bool {
    match container {
        Some(c) => c.privileged == Some(true),
        None => false,
    }
}

/// The environment entries handed to an agent's container: the agent's own
/// `KEY=VALUE` pairs in declared order, then one `NAME_FILE=path` entry per
/// secret, pointing at the secret's in-container file.  The agent's pairs
/// come from a configuration mapping, whose loader guarantees the keys
/// unique; this function keeps whatever order and keys it is handed.
pub open spec fn spec_env_entries(
    env: Option<Seq<(Seq<char>, Seq<char>)>>,
    secrets: Seq<(Seq<char>, Seq<char>, Seq<char>)>,
) -> Seq<Seq<char>> {
    (match env {
        Some(pairs) => Seq::new(pairs.len(), |i: int| pairs[i].0 + "="@ + pairs[i].1),
        None => Seq::empty(),
    }) + Seq::new(secrets.len(), |i: int| secrets[i].0 + "_FILE="@ + secrets[i].2)
}

/// The mounts of an agent's container: the module workspace first, then one
/// read-only bind per secret, then one volume per cache rule, then — when the
/// step uses plugins — the shared plugin volume.  Only the secret binds are
/// read-only: secrets are never shared as writable state.
pub open spec fn spec_agent_mounts(
    data_volume: Seq<char>,
    secrets: Seq<(Seq<char>, Seq<char>, Seq<char>)>,
    cache_locations: Seq<Seq<char>>,
    cache_volumes: Seq<Seq<char>>,
    using_plugins: bool,
) -> Seq<MountSpecView> {
    seq![
        MountSpecView {
            target: "/build/workspace"@,
            source: data_volume,
            kind: MountKind::Volume,
            read_only: false,
        },
    ] + Seq::new(
        secrets.len(),
        |i: int|
            MountSpecView {
                target: secrets[i].2,
                source: secrets[i].1,
                kind: MountKind::Bind,
                read_only: true,
            },
    ) + Seq::new(
        cache_locations.len(),
        |i: int|
            MountSpecView {
                target: cache_locations[i],
                source: cache_volumes[i],
                kind: MountKind::Volume,
                read_only: false,
            },
    ) + (if using_plugins {
        seq![
            MountSpecView {
                target: "/build/agent"@,
                source: "jarvis-plugins"@,
                kind: MountKind::Volume,
                read_only: false,
            },
        ]
    } else {
        Seq::empty()
    })
}

/// Assembles the engine request for one agent container: image and fresh
/// name, the fixed keep-alive entrypoint, the agent's environment with one
/// `_FILE` entry per secret, creator and creation-time labels, the workspace
/// working directory, the configured identity and privilege, and the
/// workspace, secret, cache and plugin mounts in that order.
pub fn build_container_request(
    name: String,
    agent: &Agent,
    data_volume: &String,
    secrets_config: &Vec<(String, String, String)>,
    cache_volumes: &Vec<(String, String)>,
    using_plugins: bool,
    build_time: String,
) -> (r: ContainerRequest)
    requires
        match agent.cache {
            Some(ref rules) => cache_volumes@.len() == rules@.len(),
            None => cache_volumes@.len() == 0,
        },
    ensures
        r.name@ == name@,
        r.image@ == agent.image@,
        r.entrypoint@.len() == 3 && r.entrypoint@[0]@ == "/bin/sh"@ && r.entrypoint@[1]@ == "-c"@
            && r.entrypoint@[2]@ == "tail -f /dev/null"@,
        r.env@.map_values(|e: String| e@) == spec_env_entries(
            agent@.environment,
            secrets_config@.map_values(|m: (String, String, String)| (m.0@, m.1@, m.2@)),
        ),
        r.labels@.map_values(|p: (String, String)| (p.0@, p.1@)) == spec_standard_labels(
            build_time@,
        ),
        r.working_dir@ == "/build/workspace"@,
        match spec_user_config(agent@.container) {
            Some(u) => r.user matches Some(ru) && ru@ == u,
            None => r.user is None,
        },
        r.privileged == spec_privileged(agent@.container),
        r.mounts@.map_values(|m: MountSpec| m@) == spec_agent_mounts(
            data_volume@,
            secrets_config@.map_values(|m: (String, String, String)| (m.0@, m.1@, m.2@)),
            match agent@.cache {
                Some(rules) => Seq::new(rules.len(), |i: int| rules[i].location),
                None => Seq::empty(),
            },
            cache_volumes@.map_values(|c: (String, String)| c.1@),
            using_plugins,
        ),
        r.expose_plugin_port == using_plugins,
{
    let ghost secrets_view = secrets_config@.map_values(
        |m: (String, String, String)| (m.0@, m.1@, m.2@),
    );

    // Environment: the agent's own entries, then one per secret.
    let mut env: Vec<String> = Vec::new();
    match agent.environment {
        Some(ref pairs) => {
            let mut i: usize = 0;
            while i < pairs.len()
                invariant
                    0 <= i <= pairs@.len(),
                    agent.environment matches Some(ps) && ps@ == pairs@,
                    env@.len() == i,
                    forall|k: int|
                        0 <= k < i ==> (#[trigger] env@[k])@ == pairs@[k].0@ + "="@ + pairs@[k].1@,
                decreases pairs@.len() - i,
            {
                let e = pairs[i].0.clone();
                let e = e.concat("=");
                let e = e.concat(pairs[i].1.as_str());
                env.push(e);
                i = i + 1;
            }
        },
        None => {},
    }
    let ghost agent_env_count = env@.len() as int;
    let ghost base_env = env@;
    let mut i: usize = 0;
    while i < secrets_config.len()
        invariant
            0 <= i <= secrets_config@.len(),
            env@.len() == agent_env_count + i,
            env@.take(agent_env_count) == base_env,
            forall|k: int|
                0 <= k < i ==> (#[trigger] env@[agent_env_count + k])@ == secrets_view[k].0
                    + "_FILE="@ + secrets_view[k].2,
        decreases secrets_config@.len() - i,
    {
        let e = secrets_config[i].0.clone();
        let e = e.concat("_FILE=");
        let e = e.concat(secrets_config[i].2.as_str());
        env.push(e);
        i = i + 1;
    }

    // Mounts: workspace, secrets, caches, plugin volume.
    let mut mounts: Vec<MountSpec> = Vec::new();
    mounts.push(
        MountSpec {
            target: workspace_mount_path(),
            source: data_volume.clone(),
            kind: MountKind::Volume,
            read_only: false,
        },
    );
    let mut i: usize = 0;
    while i < secrets_config.len()
        invariant
            0 <= i <= secrets_config@.len(),
            mounts@.len() == 1 + i,
            mounts@[0]@ == (MountSpecView {
                target: "/build/workspace"@,
                source: data_volume@,
                kind: MountKind::Volume,
                read_only: false,
            }),
            forall|k: int|
                0 <= k < i ==> (#[trigger] mounts@[1 + k])@ == (MountSpecView {
                    target: secrets_view[k].2,
                    source: secrets_view[k].1,
                    kind: MountKind::Bind,
                    read_only: true,
                }),
        decreases secrets_config@.len() - i,
    {
        mounts.push(
            MountSpec {
                target: secrets_config[i].2.clone(),
                source: secrets_config[i].1.clone(),
                kind: MountKind::Bind,
                read_only: true,
            },
        );
        i = i + 1;
    }
    let ghost after_secrets = mounts@.len() as int;
    let ghost base_mounts = mounts@;
    match agent.cache {
        Some(ref rules) => {
            let mut i: usize = 0;
            while i < rules.len()
                invariant
                    0 <= i <= rules@.len(),
                    agent.cache matches Some(rs) && rs@ == rules@,
                    cache_volumes@.len() == rules@.len(),
                    mounts@.len() == after_secrets + i,
                    mounts@.take(after_secrets) == base_mounts,
                    forall|k: int|
                        0 <= k < i ==> (#[trigger] mounts@[after_secrets + k])@ == (MountSpecView {
                            target: rules@[k].location@,
                            source: cache_volumes@[k].1@,
                            kind: MountKind::Volume,
                            read_only: false,
                        }),
                decreases rules@.len() - i,
            {
                mounts.push(
                    MountSpec {
                        target: rules[i].location.clone(),
                        source: cache_volumes[i].1.clone(),
                        kind: MountKind::Volume,
                        read_only: false,
                    },
                );
                i = i + 1;
            }
        },
        None => {},
    }
    if using_plugins {
        mounts.push(
            MountSpec {
                target: "/build/agent".to_owned(),
                source: plugin_volume_name(),
                kind: MountKind::Volume,
                read_only: false,
            },
        );
    }

    // Identity and privilege.
    let mut user_config: Option<String> = None;
    let mut privileged = false;
    match agent.container {
        Some(ref container) => {
            privileged = match container.privileged {
                Some(p) => p,
                None => false,
            };
            match container.user {
                Some(ref user) => {
                    match container.group {
                        Some(ref group) => {
                            let u = user.clone();
                            let u = u.concat(":");
                            let u = u.concat(group.as_str());
                            user_config = Some(u);
                        },
                        None => {
                            user_config = Some(user.clone());
                        },
                    }
                },
                None => {},
            }
        },
        None => {},
    }

    let mut entrypoint: Vec<String> = Vec::new();
    entrypoint.push("/bin/sh".to_owned());
    entrypoint.push("-c".to_owned());
    entrypoint.push("tail -f /dev/null".to_owned());

    let mut labels: Vec<(String, String)> = Vec::new();
    labels.push(("created-by".to_owned(), "jarvis".to_owned()));
    labels.push(("build-time".to_owned(), build_time));

    let r = ContainerRequest {
        name,
        image: agent.image.clone(),
        entrypoint,
        env,
        labels,
        working_dir: workspace_mount_path(),
        user: user_config,
        privileged,
        mounts,
        expose_plugin_port: using_plugins,
    };
    proof {
        assert(r.labels@.map_values(|p: (String, String)| (p.0@, p.1@)) =~= spec_standard_labels(
            r.labels@[1].1@,
        ));
        let menv = r.env@.map_values(|e: String| e@);
        let senv = spec_env_entries(agent@.environment, secrets_view);
        assert(menv.len() == senv.len());
        assert forall|k: int| 0 <= k < menv.len() implies menv[k] == senv[k] by {
            if k < agent_env_count {
                assert(r.env@[k] == base_env[k]) by {
                    assert(r.env@.take(agent_env_count)[k] == r.env@[k]);
                }
            } else {
                let j = k - agent_env_count;
                assert(r.env@[agent_env_count + j]@ == secrets_view[j].0 + "_FILE="@
                    + secrets_view[j].2);
                assert(agent_env_count + j == k);
            }
        }
        assert(menv =~= senv);
        let mmounts = r.mounts@.map_values(|m: MountSpec| m@);
        let smounts = spec_agent_mounts(
            data_volume@,
            secrets_view,
            match agent@.cache {
                Some(rules) => Seq::new(rules.len(), |i: int| rules[i].location),
                None => Seq::empty(),
            },
            cache_volumes@.map_values(|c: (String, String)| c.1@),
            using_plugins,
        );
        let nsec = secrets_view.len() as int;
        let ncache = cache_volumes@.len() as int;
        assert(after_secrets == 1 + nsec);
        assert(mmounts.len() == smounts.len());
        assert forall|k: int| 0 <= k < mmounts.len() implies mmounts[k] == smounts[k] by {
            if k < after_secrets {
                assert(r.mounts@[k] == base_mounts[k]) by {
                    assert(r.mounts@.take(after_secrets)[k] == r.mounts@[k]);
                }
                if k >= 1 {
                    let j = k - 1;
                    assert((#[trigger] base_mounts[1 + j])@ == (MountSpecView {
                        target: secrets_view[j].2,
                        source: secrets_view[j].1,
                        kind: MountKind::Bind,
                        read_only: true,
                    }));
                    assert(1 + j == k);
                }
            } else if k < after_secrets + ncache {
                let j = k - after_secrets;
                assert(r.mounts@[after_secrets + j]@ == (MountSpecView {
                    target: agent@.cache->0[j].location,
                    source: cache_volumes@[j].1@,
                    kind: MountKind::Volume,
                    read_only: false,
                }));
                assert(after_secrets + j == k);
            } else {
                assert(r.mounts@[k]@ == (MountSpecView {
                    target: "/build/agent"@,
                    source: "jarvis-plugins"@,
                    kind: MountKind::Volume,
                    read_only: false,
                }));
            }
        }
        assert(mmounts =~= smounts);
    }
    r
}

/// The loopback port binding a plugin-using agent is given: container port,
/// host address, host port.
pub fn plugin_port_binding() -> (r: (String, String, String))
    ensures
        r.0@ == "1438/tcp"@,
        r.1@ == "127.0.0.1"@,
        r.2@ == "1438"@,
{
    ("1438/tcp".to_owned(), "127.0.0.1".to_owned(), "1438".to_owned())
}

/// The throwaway agent used to seed a module workspace with the project's
/// files: a minimal image, no default flag, environment, caches or identity.
pub fn bootstrap_agent() -> (r: Agent)
    ensures
        r@.name == "jarvis-init"@,
        r@.default is None,
        r@.image == "alpine:latest"@,
        r@.environment is None,
        r@.cache is None,
        r@.container is None,
{
    Agent {
        name: "jarvis-init".to_owned(),
        default: None,
        image: "alpine:latest".to_owned(),
        environment: None,
        cache: None,
        container: None,
    }
}

// ---------------------------------------------------------------------------
// Command execution and artifact extraction
// ---------------------------------------------------------------------------
/// What the engine is asked to exec in an agent: an interpreter invocation of
/// the command, and the directory to run it in.
pub struct ExecRequest {
    pub cmd: Vec<String>,
    pub working_dir: String,
}

/// The exec invocation for one command: `interpreter -c command`, run in the
/// given directory with a tty attached.
pub fn build_exec_request(shell_config: &ShellConfig, working_directory: &str, command: &str) -> (r:
    ExecRequest)
    ensures
        r.cmd@.len() == 3,
        r.cmd@[0]@ == shell_config@.executable,
        r.cmd@[1]@ == "-c"@,
        r.cmd@[2]@ == command@,
        r.working_dir@ == working_directory@,
{
    let mut cmd: Vec<String> = Vec::new();
    cmd.push(shell_config.executable.clone());
    cmd.push("-c".to_owned());
    cmd.push(command.to_owned());
    ExecRequest { cmd, working_dir: working_directory.to_owned() }
}

/// The host file an archive is written to: the rule's explicit output name,
/// or its name with `.tar` appended.
pub open spec fn spec_archive_output_name(name: Seq<char>, output: Option<Seq<char>>) -> Seq<
    char,
> {
    match output {
        Some(o) => o,
        None => name + ".tar"@,
    }
}

/// Picks the host file name for an archive rule.
pub fn archive_output_name(name: &String, output: &Option<String>) -> (r: String)
    ensures
        r@ == spec_archive_output_name(name@, match *output {
            Some(ref o) => Some(o@),
            None => None,
        }),
{
    match *output {
        Some(ref o) => o.clone(),
        None => {
            let r = name.clone();
            let r = r.concat(".tar");
            proof {
                assert(r@ =~= name@ + ".tar"@);
            }
            r
        },
    }
}

/// Whether a path, relative to the project root, lies inside the project's
/// secrets directory.  The workspace bundle must never contain such a path:
/// every agent of the module shares the workspace volume the bundle seeds.
pub open spec fn spec_in_secrets_dir(path: Seq<char>) -> bool {
    let parts = spec_split(path, '/');
    parts.len() >= 2 && parts[0] == ".jarvis"@ && parts[1] == "secrets"@
}

/// Decides `spec_in_secrets_dir` for one project-relative path.
pub fn path_in_secrets_dir(relative_path: &str) -> (r: bool)
    ensures
        r == spec_in_secrets_dir(relative_path@),
{
    let parts = split_char(relative_path, '/');
    if parts.len() < 2 {
        return false;
    }
    let jarvis_dir = ".jarvis".to_owned();
    let secrets_dir = "secrets".to_owned();
    parts[0] == jarvis_dir && parts[1] == secrets_dir
}

/// The temporary file the project bundle is written to before upload, under
/// the host's temporary directory.
pub fn bundle_file_name() -> (r: String)
    ensures
        exists|suffix: Seq<char>|
            suffix.len() == 30 && seq_alphanumeric(suffix) && r@ == "jarvis-bundle-"@ + suffix
                + ".tgz"@,
{
    let id = random_alphanumeric(30);
    let r = "jarvis-bundle-".to_owned();
    let r = r.concat(id.as_str());
    let r = r.concat(".tgz");
    proof {
        assert(r@ =~= "jarvis-bundle-"@ + id@ + ".tgz"@);
    }
    r
}

// ---------------------------------------------------------------------------
// Plugin sync
// ---------------------------------------------------------------------------
/// The command that copies the plugin payload into the shared volume.
pub fn plugin_sync_command() -> (r: String)
    ensures
        r@ == "cp -pR agent-worker agent-plugins /plugins"@,
{
    "cp -pR agent-worker agent-plugins /plugins".to_owned()
}

/// The throwaway container that syncs the host's plugin payload into the
/// shared plugin volume: a minimal image with the plugin volume mounted at
/// `/plugins`, the host source directory bound at `/input`, and `/input` as
/// its working directory.
pub fn plugin_sync_request(
    name: String,
    source_directory: &String,
    target_disk: String,
) -> (r: ContainerRequest)
    ensures
        r.name@ == name@,
        r.image@ == "alpine:latest"@,
        r.entrypoint@.len() == 3 && r.entrypoint@[0]@ == "/bin/sh"@ && r.entrypoint@[1]@ == "-c"@
            && r.entrypoint@[2]@ == "tail -f /dev/null"@,
        r.env@.len() == 0,
        r.labels@.len() == 2 && r.labels@[0].0@ == "created-by"@ && r.labels@[0].1@ == "jarvis"@
            && r.labels@[1].0@ == "used-for"@ && r.labels@[1].1@ == "plugin-sync"@,
        r.working_dir@ == "/input"@,
        r.user is None,
        !r.privileged,
        r.mounts@.len() == 2,
        r.mounts@[0]@ == (MountSpecView {
            target: "/plugins"@,
            source: target_disk@,
            kind: MountKind::Volume,
            read_only: false,
        }),
        r.mounts@[1]@ == (MountSpecView {
            target: "/input"@,
            source: source_directory@,
            kind: MountKind::Bind,
            read_only: false,
        }),
        !r.expose_plugin_port,
{
    let mut entrypoint: Vec<String> = Vec::new();
    entrypoint.push("/bin/sh".to_owned());
    entrypoint.push("-c".to_owned());
    entrypoint.push("tail -f /dev/null".to_owned());

    let mut labels: Vec<(String, String)> = Vec::new();
    labels.push(("created-by".to_owned(), "jarvis".to_owned()));
    labels.push(("used-for".to_owned(), "plugin-sync".to_owned()));

    let mut mounts: Vec<MountSpec> = Vec::new();
    mounts.push(
        MountSpec {
            target: "/plugins".to_owned(),
            source: target_disk,
            kind: MountKind::Volume,
            read_only: false,
        },
    );
    mounts.push(
        MountSpec {
            target: "/input".to_owned(),
            source: source_directory.clone(),
            kind: MountKind::Bind,
            read_only: false,
        },
    );

    ContainerRequest {
        name,
        image: "alpine:latest".to_owned(),
        entrypoint,
        env: Vec::new(),
        labels,
        working_dir: "/input".to_owned(),
        user: None,
        privileged: false,
        mounts,
        expose_plugin_port: false,
    }
}

// ---------------------------------------------------------------------------
// Image pull progress
// ---------------------------------------------------------------------------
/// One progress record of an image pull, as the engine streams them.
pub struct PullEvent {
    pub error: Option<String>,
    pub status: Option<String>,
    pub progress: Option<String>,
    pub id: Option<String>,
}

/// What to render for one pull event.  `layers` — the layer ids in the order
/// first seen — assigns each layer its line on the terminal.
pub enum PullRender {
    /// A terminal pull error: rendering stops and agent creation is aborted.
    Abort { message: String },
    /// A layer seen for the first time: print it on a fresh line (the very
    /// first layer starts the block and needs no preceding line break).
    NewLine { first: bool, layer: String, message: String },
    /// A layer seen before: move the cursor up `move_up` lines (zero means
    /// rewriting the current line in place), erase it, and print the update.
    Update { move_up: usize, layer: String, message: String },
    /// A record without a layer id, carrying only a trailing message.
    Trailing { message: String },
    /// A record with nothing to show.
    Silent,
}

/// The message a pull record contributes: while a layer downloads, its
/// progress bar; otherwise its status line.
pub open spec fn spec_pull_message(status: Seq<char>, progress: Option<Seq<char>>) -> Seq<char> {
    if status == "Downloading"@ {
        progress->0
    } else {
        status
    }
}

/// The position of the first occurrence of `id` in `layers`, or none.
pub open spec fn layer_index_of(layers: Seq<Seq<char>>, id: Seq<char>, i: int) -> Option<int>
    decreases layers.len() - i,
{
    if i < 0 || i >= layers.len() {
        None
    } else if layers[i] == id {
        Some(i)
    } else {
        layer_index_of(layers, id, i + 1)
    }
}

/// Digests one pull record: a terminal error aborts; a new layer id is given
/// the next line; a known layer id has its own line rewritten, the cursor
/// moving up by the number of lines printed since that layer's line; a record
/// without a layer id only carries a trailing message, if any.
pub fn pull_progress_step(layers: &mut Vec<String>, event: &PullEvent) -> (r: PullRender)
    requires
        event.error is None ==> event.status is Some,
        event.error is None ==> (event.status matches Some(st) ==> (st@ == "Downloading"@
            ==> event.progress is Some)),
    ensures
        event.error matches Some(e) ==> (r matches PullRender::Abort { message } && message@ == e@
            && final(layers)@ == old(layers)@),
        event.error is None ==> (event.id matches Some(l) ==> ({
            let ids = old(layers)@.map_values(|x: String| x@);
            let shown = spec_pull_message(event.status->0@, match event.progress {
                Some(ref p) => Some(p@),
                None => None,
            });
            &&& (layer_index_of(ids, l@, 0) is None ==> (final(layers)@.map_values(|x: String| x@)
                == ids.push(l@) && (r matches PullRender::NewLine { first, layer, message } && first
                == (old(layers)@.len() == 0) && layer@ == l@ && message@ == shown)))
            &&& (layer_index_of(ids, l@, 0) matches Some(pos) ==> (final(layers)@ == old(layers)@
                && (r matches PullRender::Update { move_up, layer, message } && move_up as int
                == old(layers)@.len() - (pos + 1) && layer@ == l@ && message@ == shown)))
        })),
        event.error is None && event.id is None ==> final(layers)@ == old(layers)@,
        event.error is None && event.id is None ==> (event.progress matches Some(p) ==> (r matches
            PullRender::Trailing { message } && message@ == p@)),
        event.error is None && event.id is None && event.progress is None ==> r is Silent,
{
    match event.error {
        Some(ref e) => {
            return PullRender::Abort { message: e.clone() };
        },
        None => {},
    }
    match event.id {
        Some(ref layer_id) => {
            let status = match event.status {
                Some(ref st) => st,
                None => {
                    // Excluded up front: an error-free record carries a
                    // status.
                    proof {
                        assert(false);
                    }
                    unreached()
                },
            };
            let message: String = if *status == "Downloading".to_owned() {
                match event.progress {
                    Some(ref p) => p.clone(),
                    None => {
                        // Excluded up front: a downloading record carries
                        // its progress bar.
                        proof {
                            assert(false);
                        }
                        unreached()
                    },
                }
            } else {
                status.clone()
            };
            // Look for the layer's line.
            let ghost ids = layers@.map_values(|x: String| x@);
            let mut pos: usize = 0;
            let mut found = false;
            while pos < layers.len() && !found
                invariant
                    0 <= pos <= layers@.len(),
                    ids == layers@.map_values(|x: String| x@),
                    !found ==> layer_index_of(ids, layer_id@, 0) == layer_index_of(
                        ids,
                        layer_id@,
                        pos as int,
                    ),
                    found ==> pos < layers@.len() && layer_index_of(ids, layer_id@, 0) == Some(
                        pos as int,
                    ),
                decreases layers@.len() - pos, if found { 0int } else { 1int },
            {
                proof {
                    assert(ids[pos as int] == layers@[pos as int]@);
                }
                if layers[pos] == *layer_id {
                    found = true;
                } else {
                    pos = pos + 1;
                }
            }
            if found {
                let move_up = layers.len() - (pos + 1);
                PullRender::Update { move_up, layer: layer_id.clone(), message }
            } else {
                layers.push(layer_id.clone());
                let first = layers.len() == 1;
                proof {
                    assert(final(layers)@.map_values(|x: String| x@) =~= ids.push(layer_id@));
                }
                PullRender::NewLine { first, layer: layer_id.clone(), message }
            }
        },
        None => {
            match event.progress {
                Some(ref p) => PullRender::Trailing { message: p.clone() },
                None => PullRender::Silent,
            }
        },
    }
}

} // verus!
