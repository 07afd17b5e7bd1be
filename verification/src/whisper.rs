//! Helpers of the speech-to-text command: how its settings are resolved, where
//! its files are looked for and how its failures are reported.
//!
//! Nothing here touches the file system or starts a process. The caller does
//! that and hands over what it found.

use vstd::prelude::*;
use vstd::string::StringExecFns;
use crate::launch::Platform;
use crate::text::ascii_lower;
use crate::text::bits_of;
use crate::text::bits_of_i32;
use crate::text::blank;
use crate::text::contains;
use crate::text::decimal_int;
use crate::text::decimal_nat;
use crate::text::ends_with;
use crate::text::eq_ignore_ascii_case;
use crate::text::file_name_of;
use crate::text::has_infix;
use crate::text::has_prefix;
use crate::text::has_suffix;
use crate::text::hex_upper_8;
use crate::text::join;
use crate::text::joined;
use crate::text::lemma_infix_in_lower_case;
use crate::text::lemma_infix_of_infix;
use crate::text::lowercase_text;
use crate::text::push_decimal;
use crate::text::push_decimal_i32;
use crate::text::push_hex_upper_8;
use crate::text::same_text;
use crate::text::starts_with;
use crate::text::to_ascii_lowercase;
use crate::text::to_lowercase;
use crate::text::trim;
use crate::text::trimmed;

verus! {

/// The exit status with which Windows reports that a library was not found
/// (`0xC0000135`, read as a signed number).
pub const STATUS_DLL_NOT_FOUND: i32 = -1073741515;

/// The exit status with which Windows reports a program or library built for
/// another kind of processor (`0xC000007B`, read as a signed number).
pub const STATUS_INVALID_IMAGE_FORMAT: i32 = -1073741701;

/// What to tell the user after `STATUS_DLL_NOT_FOUND`.
pub const DLL_NOT_FOUND_HINT: &'static str =
    "Windows reported STATUS_DLL_NOT_FOUND. Bundle whisper.cpp runtime DLLs (for example: whisper.dll, ggml.dll, ggml-base.dll, ggml-cpu.dll) beside whisper-cli.exe.";

/// What to tell the user after `STATUS_INVALID_IMAGE_FORMAT`.
pub const INVALID_IMAGE_FORMAT_HINT: &'static str =
    "Windows reported STATUS_INVALID_IMAGE_FORMAT. Verify Whisper binary/DLL architecture matches the app (x64 vs x86).";

/// The part of a file name that marks the smallest models.
pub const TINY_MODEL_MARK: &'static str = "ggml-tiny";

/// A setting counts only if something but white space is in it, and then
/// without the white space around it.
pub open spec fn resolved(value: Option<Seq<char>>) -> Option<Seq<char>> {
    match value {
        Some(text) => if blank(text) {
            None
        } else {
            Some(trimmed(text))
        },
        None => None,
    }
}

/// The view of an optional string.
pub open spec fn option_text(value: Option<String>) -> Option<Seq<char>> {
    match value {
        Some(text) => Some(text@),
        None => None,
    }
}

/// The views of the strings of `v`, in order.
pub open spec fn texts(v: Seq<String>) -> Seq<Seq<char>> {
    v.map_values(|s: String| s@)
}

/// The hint that belongs to an exit status: there is one for two statuses of
/// Windows, and none anywhere else.
pub open spec fn runtime_hint(platform: Platform, status_code: Option<i32>) -> Option<Seq<char>> {
    match (platform, status_code) {
        (Platform::Windows, Some(code)) => if code == STATUS_DLL_NOT_FOUND {
            Some(DLL_NOT_FOUND_HINT@)
        } else if code == STATUS_INVALID_IMAGE_FORMAT {
            Some(INVALID_IMAGE_FORMAT_HINT@)
        } else {
            None
        },
        _ => None,
    }
}

/// A model is one of the smallest if its file has a name and the name holds
/// the mark, in capitals or not.
pub open spec fn tiny_model_name(file_name: Option<Seq<char>>) -> bool {
    match file_name {
        Some(name) => has_infix(ascii_lower(name), TINY_MODEL_MARK@),
        None => false,
    }
}

/// The setting that `value` gives: its text without surrounding white space,
/// or nothing where it is absent or blank.
pub fn resolve_non_empty(value: Option<String>) -> (r: Option<String>)
    ensures
        option_text(r) == resolved(option_text(value)),
{
    match value {
        Some(entry) => {
            let kept = trim(entry.as_str());
            if kept.is_empty() {
                None
            } else {
                Some(String::from_str(kept))
            }
        },
        None => None,
    }
}

/// Whether `name` is among `seen`.
fn is_seen(seen: &Vec<String>, name: &String) -> (r: bool)
    ensures
        r == texts(seen@).contains(name@),
{
    let mut i: usize = 0;
    while i < seen.len()
        invariant
            i <= seen.len(),
            forall|j: int| 0 <= j < i ==> texts(seen@)[j] != name@,
        decreases seen.len() - i,
    {
        if seen[i] == *name {
            assert(texts(seen@)[i as int] == name@);
            return true;
        }
        i = i + 1;
    }
    false
}

/// Takes `candidate` into `collected_dirs` if it is a directory that exists
/// and has not been taken before. Two directories count as the same when
/// their lower-case forms agree; `seen_dirs` holds the forms taken so far.
/// `is_existing_dir` is what the file system said of `candidate`.
pub fn push_unique_existing_dir(
    seen_dirs: &mut Vec<String>,
    collected_dirs: &mut Vec<String>,
    candidate: String,
    is_existing_dir: bool,
)
    ensures
        is_existing_dir && !texts(old(seen_dirs)@).contains(lowercase_text(candidate@)) ==> texts(
            final(seen_dirs)@,
        ) == texts(old(seen_dirs)@).push(lowercase_text(candidate@)) && final(collected_dirs)@
            == old(collected_dirs)@.push(candidate),
        !(is_existing_dir && !texts(old(seen_dirs)@).contains(lowercase_text(candidate@)))
            ==> final(seen_dirs)@ == old(seen_dirs)@ && final(collected_dirs)@ == old(
            collected_dirs,
        )@,
{
    if !is_existing_dir {
        return ;
    }
    let normalized = to_lowercase(candidate.as_str());
    if !is_seen(seen_dirs, &normalized) {
        assert(texts(seen_dirs@.push(normalized)) == texts(seen_dirs@).push(normalized@));
        seen_dirs.push(normalized);
        collected_dirs.push(candidate);
    }
}

/// The hint for the user that belongs to the exit status of the transcription
/// program, if there is one.
pub fn whisper_runtime_hint(platform: Platform, status_code: Option<i32>) -> (r: Option<
    &'static str,
>)
    ensures
        match runtime_hint(platform, status_code) {
            Some(hint) => r matches Some(text) && text@ == hint,
            None => r is None,
        },
{
    match platform {
        Platform::Windows => match status_code {
            Some(code) => {
                if code == STATUS_DLL_NOT_FOUND {
                    Some(DLL_NOT_FOUND_HINT)
                } else if code == STATUS_INVALID_IMAGE_FORMAT {
                    Some(INVALID_IMAGE_FORMAT_HINT)
                } else {
                    None
                }
            },
            None => None,
        },
        Platform::Posix => None,
    }
}

/// Whether a file of this name is one of the smallest models.
pub fn is_tiny_model_file_name(file_name: Option<String>) -> (r: bool)
    ensures
        r == tiny_model_name(option_text(file_name)),
{
    match file_name {
        Some(name) => {
            let lowered = to_ascii_lowercase(name.as_str());
            contains(lowered.as_str(), TINY_MODEL_MARK)
        },
        None => false,
    }
}

/// Whether the model at `model_path` is one of the smallest: the decision of
/// `is_tiny_model_file_name` on the file name that the platform reads out of
/// the path. The name is a piece of the path, so a path that does not hold
/// the mark is never taken for one of the smallest.
pub fn is_tiny_whisper_model_path(model_path: &str) -> (r: bool)
    ensures
        exists|name: Option<Seq<char>>| #[trigger]
            read_from(model_path@, name) && r == tiny_model_name(name),
        r ==> has_infix(ascii_lower(model_path@), TINY_MODEL_MARK@),
{
    let file_name = file_name_of(model_path);
    let ghost name = option_text(file_name);
    proof {
        assert(read_from(model_path@, name));
        if tiny_model_name(name) {
            lemma_tiny_name_marks_path(model_path@, name);
        }
    }
    is_tiny_model_file_name(file_name)
}

/// How the end of a process is described: by its exit code, on Windows also
/// as the eight hexadecimal digits of its bit pattern, or as ended by a signal
/// where it left no code.
pub open spec fn exit_status_text(platform: Platform, code: Option<i32>) -> Seq<char> {
    match code {
        Some(code) => match platform {
            Platform::Windows => "exit code "@ + decimal_int(code as int) + " (0x"@ + hex_upper_8(
                bits_of(code),
            ) + ")"@,
            Platform::Posix => "exit code "@ + decimal_int(code as int),
        },
        None => "terminated by signal"@,
    }
}

/// Describes how a process ended, from the exit code that it left, if any.
pub fn format_exit_status(platform: Platform, code: Option<i32>) -> (r: String)
    ensures
        r@ == exit_status_text(platform, code),
{
    match code {
        Some(code) => {
            let mut r = String::from_str("exit code ");
            push_decimal_i32(&mut r, code);
            match platform {
                Platform::Windows => {
                    r.append(" (0x");
                    push_hex_upper_8(&mut r, bits_of_i32(code));
                    r.append(")");
                },
                Platform::Posix => {},
            }
            r
        },
        None => String::from_str("terminated by signal"),
    }
}

/// The rank of a model by its file name in lower case: the smaller, the
/// better. A name that is not in the list ranks behind all that are.
pub open spec fn model_rank(file_name: Seq<char>) -> nat {
    if file_name == "ggml-large-v3.bin"@ {
        0
    } else if file_name == "ggml-large-v3-turbo.bin"@ {
        1
    } else if file_name == "ggml-large-v2.bin"@ {
        2
    } else if file_name == "ggml-large-v1.bin"@ {
        3
    } else if file_name == "ggml-large.bin"@ {
        4
    } else if file_name == "ggml-medium.bin"@ {
        5
    } else if file_name == "ggml-medium.en.bin"@ {
        6
    } else if file_name == "ggml-small.bin"@ {
        7
    } else if file_name == "ggml-small.en.bin"@ {
        8
    } else if file_name == "ggml-base.bin"@ {
        9
    } else if file_name == "ggml-base.en.bin"@ {
        10
    } else if file_name == "ggml-tiny.bin"@ {
        11
    } else if file_name == "ggml-tiny.en.bin"@ {
        12
    } else {
        100
    }
}

/// The rank of the model with this file name (in lower case).
pub fn model_priority(file_name: &str) -> (rank: usize)
    ensures
        rank == model_rank(file_name@),
{
    if same_text(file_name, "ggml-large-v3.bin") {
        0
    } else if same_text(file_name, "ggml-large-v3-turbo.bin") {
        1
    } else if same_text(file_name, "ggml-large-v2.bin") {
        2
    } else if same_text(file_name, "ggml-large-v1.bin") {
        3
    } else if same_text(file_name, "ggml-large.bin") {
        4
    } else if same_text(file_name, "ggml-medium.bin") {
        5
    } else if same_text(file_name, "ggml-medium.en.bin") {
        6
    } else if same_text(file_name, "ggml-small.bin") {
        7
    } else if same_text(file_name, "ggml-small.en.bin") {
        8
    } else if same_text(file_name, "ggml-base.bin") {
        9
    } else if same_text(file_name, "ggml-base.en.bin") {
        10
    } else if same_text(file_name, "ggml-tiny.bin") {
        11
    } else if same_text(file_name, "ggml-tiny.en.bin") {
        12
    } else {
        100
    }
}

/// What a directory listing says of one of its entries.
pub struct DirEntryInfo {
    /// The entry's full path.
    pub path: String,
    /// Whether the entry is a directory.
    pub is_dir: bool,
    /// The entry's name, where it has one that is text.
    pub file_name: Option<String>,
    /// The size of the file in bytes; zero where it could not be read.
    pub size: u64,
}

/// The paths of the directories among `entries`, in order.
pub open spec fn directories(entries: Seq<DirEntryInfo>) -> Seq<Seq<char>>
    decreases entries.len(),
{
    if entries.len() == 0 {
        Seq::empty()
    } else if entries.last().is_dir {
        directories(entries.drop_last()).push(entries.last().path@)
    } else {
        directories(entries.drop_last())
    }
}

/// `entry` is a file whose name is `file_name`, capitals of ASCII aside.
pub open spec fn names_file(entry: DirEntryInfo, file_name: Seq<char>) -> bool {
    &&& !entry.is_dir
    &&& entry.file_name matches Some(name)
    &&& ascii_lower(name@) == ascii_lower(file_name)
}

/// Looks through one directory listing for the file `file_name`. The first
/// file of that name ends the search and its path comes back; the
/// directories that stand before it, or all of them where no file matches,
/// are added to `pending`, the directories still to be listed.
pub fn scan_for_file(pending: &mut Vec<String>, entries: &Vec<DirEntryInfo>, file_name: &str) -> (r:
    Option<String>)
    ensures
        match r {
            Some(path) => exists|at: int|
                0 <= at < entries@.len() && path@ == (#[trigger] entries@[at]).path@ && names_file(
                    entries@[at],
                    file_name@,
                ) && (forall|j: int| 0 <= j < at ==> !names_file(entries@[j], file_name@))
                    && texts(final(pending)@) == texts(old(pending)@) + directories(
                    entries@.take(at),
                ),
            None => (forall|j: int| 0 <= j < entries@.len() ==> !names_file(entries@[j], file_name@))
                && texts(final(pending)@) == texts(old(pending)@) + directories(entries@),
        },
{
    let mut i: usize = 0;
    assert(entries@.take(0) =~= Seq::<DirEntryInfo>::empty());
    assert(texts(pending@) + directories(entries@.take(0)) =~= texts(pending@));
    while i < entries.len()
        invariant
            i <= entries.len(),
            forall|j: int| 0 <= j < i ==> !names_file(entries@[j], file_name@),
            texts(pending@) == texts(old(pending)@) + directories(entries@.take(i as int)),
        decreases entries.len() - i,
    {
        let entry = &entries[i];
        proof {
            let now = entries@.take(i as int + 1);
            assert(now.drop_last() == entries@.take(i as int));
            assert(now.last() == entries@[i as int]);
        }
        if entry.is_dir {
            let ghost before = pending@;
            pending.push(entry.path.clone());
            assert(texts(pending@) == texts(before).push(entry.path@));
            assert(texts(pending@) == texts(old(pending)@) + directories(
                entries@.take(i as int + 1),
            ));
        } else {
            let named = match &entry.file_name {
                Some(name) => eq_ignore_ascii_case(name.as_str(), file_name),
                None => false,
            };
            if named {
                return Some(entry.path.clone());
            }
        }
        i = i + 1;
    }
    assert(entries@.take(entries@.len() as int) == entries@);
    None
}

/// A model file that was found, with what decides between it and another.
pub struct ModelChoice {
    /// The rank of its name; the smaller, the better.
    pub priority: usize,
    /// Its size in bytes.
    pub size: u64,
    /// Where it is.
    pub path: String,
}

/// A file is a model if its name, capitals of ASCII aside, begins with
/// `ggml-` and ends with `.bin`.
pub open spec fn is_model_name(name: Seq<char>) -> bool {
    has_prefix(ascii_lower(name), "ggml-"@) && has_suffix(ascii_lower(name), ".bin"@)
}

/// A model of this rank and size is taken in place of `best`: where there is
/// none yet, where its rank is better, and where the rank is the same and it
/// is the larger file.
pub open spec fn beats(priority: nat, size: nat, best: Option<ModelChoice>) -> bool {
    match best {
        Some(best) => priority < best.priority || (priority == best.priority && size > best.size),
        None => true,
    }
}

/// `entry` is a file whose name makes it a model.
pub open spec fn is_model_file(entry: DirEntryInfo) -> bool {
    &&& !entry.is_dir
    &&& entry.file_name matches Some(name)
    &&& is_model_name(name@)
}

/// The rank of the file `entry` by its name, capitals of ASCII aside.
pub open spec fn rank_of(entry: DirEntryInfo) -> nat {
    match entry.file_name {
        Some(name) => model_rank(ascii_lower(name@)),
        None => 100,
    }
}

/// The best model once `entry` has been looked at.
pub open spec fn choice_after(best: Option<ModelChoice>, entry: DirEntryInfo) -> Option<
    ModelChoice,
> {
    if is_model_file(entry) && beats(rank_of(entry), entry.size as nat, best) {
        Some(ModelChoice { priority: rank_of(entry) as usize, size: entry.size, path: entry.path })
    } else {
        best
    }
}

/// The best model once all of `entries` have been looked at, in order.
pub open spec fn choice_after_all(best: Option<ModelChoice>, entries: Seq<DirEntryInfo>) -> Option<
    ModelChoice,
>
    decreases entries.len(),
{
    if entries.len() == 0 {
        best
    } else {
        choice_after(choice_after_all(best, entries.drop_last()), entries.last())
    }
}

/// Whether a file of this name is a model.
pub fn is_ggml_model(file_name: &str) -> (r: bool)
    ensures
        r == is_model_name(file_name@),
{
    let normalized = to_ascii_lowercase(file_name);
    starts_with(normalized.as_str(), "ggml-") && ends_with(normalized.as_str(), ".bin")
}

/// Whether a model of this rank and size is taken in place of `best`.
pub fn should_replace(priority: usize, size: u64, best: &Option<ModelChoice>) -> (r: bool)
    ensures
        r == beats(priority as nat, size as nat, *best),
{
    match best {
        Some(best) => priority < best.priority || (priority == best.priority && size > best.size),
        None => true,
    }
}

/// Looks through one directory listing for model files. Every directory of
/// the listing is added to `pending`, the directories still to be listed, and
/// `best` becomes the best model seen so far.
pub fn scan_for_models(
    pending: &mut Vec<String>,
    best: &mut Option<ModelChoice>,
    entries: &Vec<DirEntryInfo>,
)
    ensures
        texts(final(pending)@) == texts(old(pending)@) + directories(entries@),
        *final(best) == choice_after_all(*old(best), entries@),
{
    let mut i: usize = 0;
    assert(entries@.take(0) =~= Seq::<DirEntryInfo>::empty());
    assert(texts(pending@) + directories(entries@.take(0)) =~= texts(pending@));
    while i < entries.len()
        invariant
            i <= entries.len(),
            texts(pending@) == texts(old(pending)@) + directories(entries@.take(i as int)),
            *best == choice_after_all(*old(best), entries@.take(i as int)),
        decreases entries.len() - i,
    {
        let entry = &entries[i];
        proof {
            let now = entries@.take(i as int + 1);
            assert(now.drop_last() == entries@.take(i as int));
            assert(now.last() == entries@[i as int]);
        }
        if entry.is_dir {
            let ghost before = pending@;
            pending.push(entry.path.clone());
            assert(texts(pending@) == texts(before).push(entry.path@));
            assert(texts(pending@) == texts(old(pending)@) + directories(
                entries@.take(i as int + 1),
            ));
        } else {
            match &entry.file_name {
                Some(name) => {
                    if is_ggml_model(name.as_str()) {
                        let model_name = to_ascii_lowercase(name.as_str());
                        let priority = model_priority(model_name.as_str());
                        if should_replace(priority, entry.size, best) {
                            *best = Some(
                                ModelChoice { priority, size: entry.size, path: entry.path.clone() },
                            );
                        }
                    }
                },
                None => {},
            }
        }
        i = i + 1;
    }
    assert(entries@.take(entries@.len() as int) == entries@);
}

/// The places from which the directories to search are reckoned.
#[derive(Clone, Copy, Debug, PartialEq, Eq, Structural)]
pub enum RootBase {
    /// The directory of the application's bundled resources.
    ResourceDir,
    /// The directory that holds the running program.
    ExecutableDir,
    /// The directory above that.
    ExecutableParent,
    /// The directory in which the program was started.
    CurrentDir,
}

/// One directory to search: a base, and the names to go down from it.
pub struct RootPlace {
    pub base: RootBase,
    pub below: Vec<String>,
}

impl RootPlace {
    /// The base, and the names below it as texts.
    pub open spec fn view(&self) -> (RootBase, Seq<Seq<char>>) {
        (self.base, texts(self.below@))
    }
}

/// The directories in which bundled files are looked for, in the order of the
/// search.
pub open spec fn root_plan() -> Seq<(RootBase, Seq<Seq<char>>)> {
    seq![
        (RootBase::ResourceDir, Seq::empty()),
        (RootBase::ResourceDir, seq!["whisper"@]),
        (RootBase::ResourceDir, seq!["resources"@]),
        (RootBase::ResourceDir, seq!["resources"@, "whisper"@]),
        (RootBase::ExecutableDir, Seq::empty()),
        (RootBase::ExecutableDir, seq!["whisper"@]),
        (RootBase::ExecutableDir, seq!["resources"@]),
        (RootBase::ExecutableDir, seq!["resources"@, "whisper"@]),
        (RootBase::ExecutableDir, seq!["Resources"@]),
        (RootBase::ExecutableDir, seq!["Resources"@, "whisper"@]),
        (RootBase::ExecutableParent, seq!["resources"@]),
        (RootBase::ExecutableParent, seq!["resources"@, "whisper"@]),
        (RootBase::ExecutableParent, seq!["Resources"@]),
        (RootBase::ExecutableParent, seq!["Resources"@, "whisper"@]),
        (RootBase::CurrentDir, seq!["src-tauri"@, "resources"@]),
        (RootBase::CurrentDir, seq!["src-tauri"@, "resources"@, "whisper"@]),
    ]
}

/// The place that lies `below` the `base`.
fn place(base: RootBase, below: &[&str]) -> (r: RootPlace)
    ensures
        r.base == base,
        texts(r.below@) == below@.map_values(|name: &str| name@),
{
    let mut names: Vec<String> = Vec::new();
    let mut i: usize = 0;
    while i < below.len()
        invariant
            i <= below.len(),
            texts(names@) == below@.take(i as int).map_values(|name: &str| name@),
        decreases below.len() - i,
    {
        let ghost before = names@;
        names.push(String::from_str(below[i]));
        assert(texts(names@) == texts(before).push(below@[i as int]@));
        assert(below@.take(i as int + 1).map_values(|name: &str| name@) == below@.take(
            i as int,
        ).map_values(|name: &str| name@).push(below@[i as int]@));
        i = i + 1;
    }
    assert(below@.take(below.len() as int) == below@);
    RootPlace { base, below: names }
}

/// The directories in which bundled files are looked for, in the order of the
/// search. A place whose base is not known to the caller is left out by the
/// caller.
pub fn search_root_plan() -> (plan: Vec<RootPlace>)
    ensures
        plan@.map_values(|p: RootPlace| p@) == root_plan(),
{
    let mut plan: Vec<RootPlace> = Vec::new();
    plan.push(place(RootBase::ResourceDir, &[]));
    plan.push(place(RootBase::ResourceDir, &["whisper"]));
    plan.push(place(RootBase::ResourceDir, &["resources"]));
    plan.push(place(RootBase::ResourceDir, &["resources", "whisper"]));
    plan.push(place(RootBase::ExecutableDir, &[]));
    plan.push(place(RootBase::ExecutableDir, &["whisper"]));
    plan.push(place(RootBase::ExecutableDir, &["resources"]));
    plan.push(place(RootBase::ExecutableDir, &["resources", "whisper"]));
    plan.push(place(RootBase::ExecutableDir, &["Resources"]));
    plan.push(place(RootBase::ExecutableDir, &["Resources", "whisper"]));
    plan.push(place(RootBase::ExecutableParent, &["resources"]));
    plan.push(place(RootBase::ExecutableParent, &["resources", "whisper"]));
    plan.push(place(RootBase::ExecutableParent, &["Resources"]));
    plan.push(place(RootBase::ExecutableParent, &["Resources", "whisper"]));
    plan.push(place(RootBase::CurrentDir, &["src-tauri", "resources"]));
    plan.push(place(RootBase::CurrentDir, &["src-tauri", "resources", "whisper"]));
    assert(plan@.map_values(|p: RootPlace| p@) =~= root_plan()) by {
        let got = plan@.map_values(|p: RootPlace| p@);
        assert forall|i: int| 0 <= i < 16 implies got[i] == root_plan()[i] by {
            assert(got[i].0 == root_plan()[i].0);
            assert(got[i].1 =~= root_plan()[i].1);
        }
    }
    plan
}

/// A directory that may be searched, with what the file system said of it.
pub struct RootCandidate {
    pub path: String,
    pub is_existing_dir: bool,
}

/// The lower-case forms of the directories that are taken from `candidates`.
pub open spec fn seen_roots(candidates: Seq<RootCandidate>) -> Seq<Seq<char>>
    decreases candidates.len(),
{
    if candidates.len() == 0 {
        Seq::empty()
    } else {
        let earlier = seen_roots(candidates.drop_last());
        let last = candidates.last();
        if last.is_existing_dir && !earlier.contains(lowercase_text(last.path@)) {
            earlier.push(lowercase_text(last.path@))
        } else {
            earlier
        }
    }
}

/// The directories that are taken from `candidates`: those that exist, each
/// once, where two count as the same when their lower-case forms agree; the
/// first of them stays.
pub open spec fn unique_roots(candidates: Seq<RootCandidate>) -> Seq<Seq<char>>
    decreases candidates.len(),
{
    if candidates.len() == 0 {
        Seq::empty()
    } else {
        let earlier = unique_roots(candidates.drop_last());
        let last = candidates.last();
        if last.is_existing_dir && !seen_roots(candidates.drop_last()).contains(
            lowercase_text(last.path@),
        ) {
            earlier.push(last.path@)
        } else {
            earlier
        }
    }
}

/// The directories to search, from the candidates in the order of the plan.
pub fn collect_resource_search_roots(candidates: Vec<RootCandidate>) -> (roots: Vec<String>)
    ensures
        texts(roots@) == unique_roots(candidates@),
{
    let mut seen_dirs: Vec<String> = Vec::new();
    let mut roots: Vec<String> = Vec::new();
    let mut i: usize = 0;
    assert(candidates@.take(0) =~= Seq::<RootCandidate>::empty());
    assert(texts(seen_dirs@) =~= seen_roots(candidates@.take(0)));
    assert(texts(roots@) =~= unique_roots(candidates@.take(0)));
    while i < candidates.len()
        invariant
            i <= candidates.len(),
            texts(seen_dirs@) == seen_roots(candidates@.take(i as int)),
            texts(roots@) == unique_roots(candidates@.take(i as int)),
        decreases candidates.len() - i,
    {
        proof {
            let now = candidates@.take(i as int + 1);
            assert(now.drop_last() == candidates@.take(i as int));
            assert(now.last() == candidates@[i as int]);
        }
        let ghost before = roots@;
        push_unique_existing_dir(
            &mut seen_dirs,
            &mut roots,
            candidates[i].path.clone(),
            candidates[i].is_existing_dir,
        );
        assert(texts(before.push(candidates@[i as int].path)) == texts(before).push(
            candidates@[i as int].path@,
        ));
        i = i + 1;
    }
    assert(candidates@.take(candidates@.len() as int) == candidates@);
    roots
}

/// Whether this build refuses every transcription.
pub const SPEECH_TO_TEXT_DISABLED: bool = true;

/// The answer of a build that refuses transcription.
pub const DISABLED_MESSAGE: &'static str = "Speech-to-text is disabled in this build.";

/// The answer to a request without audio.
pub const NO_AUDIO_MESSAGE: &'static str = "No audio payload received.";

/// The answer to a request that names no audio file.
pub const AUDIO_PATH_MISSING_MESSAGE: &'static str = "Audio file path is missing.";

/// The answer where no model could be found.
pub const MODEL_MISSING_MESSAGE: &'static str =
    "Whisper model path is missing. Set GREEPY_WHISPER_MODEL_PATH, pass modelPath, or select a larger local model file such as ggml-large-v3.bin.";

/// The answer where the model is one of the smallest.
pub const TINY_MODEL_MESSAGE: &'static str =
    "Tiny Whisper models are disabled. Select a larger model such as ggml-large-v3.bin.";

/// The answer where the transcript is blank.
pub const NO_SPEECH_MESSAGE: &'static str = "Transcription completed but no speech was detected.";

/// The program that is run where none is named or found.
pub const DEFAULT_BINARY: &'static str = "whisper-cli";

/// The language that is asked for where none is named.
pub const DEFAULT_LANGUAGE: &'static str = "auto";

/// The first of two optional texts that is there.
pub open spec fn or_else(first: Option<Seq<char>>, second: Option<Seq<char>>) -> Option<Seq<char>> {
    match first {
        Some(text) => Some(text),
        None => second,
    }
}

/// A build that is `disabled` refuses; any other lets the request pass.
pub fn speech_to_text_gate(disabled: bool) -> (r: Result<(), String>)
    ensures
        disabled ==> (r matches Err(message) && message@ == DISABLED_MESSAGE@),
        !disabled ==> r is Ok,
{
    if disabled {
        Err(String::from_str(DISABLED_MESSAGE))
    } else {
        Ok(())
    }
}

/// The audio file that a request names: its path without surrounding white
/// space. A build that is `disabled` refuses first; a path that is blank is
/// refused next.
pub fn audio_path_to_read(disabled: bool, audio_path: &str) -> (r: Result<String, String>)
    ensures
        disabled ==> (r matches Err(message) && message@ == DISABLED_MESSAGE@),
        !disabled && blank(audio_path@) ==> (r matches Err(message) && message@
            == AUDIO_PATH_MISSING_MESSAGE@),
        !disabled && !blank(audio_path@) ==> (r matches Ok(path) && path@ == trimmed(
            audio_path@,
        )),
{
    if disabled {
        return Err(String::from_str(DISABLED_MESSAGE));
    }
    let kept = trim(audio_path);
    if kept.is_empty() {
        Err(String::from_str(AUDIO_PATH_MISSING_MESSAGE))
    } else {
        Ok(String::from_str(kept))
    }
}

/// A request must bring audio: `audio_len` bytes of it, and more than none.
pub fn check_audio_payload(audio_len: usize) -> (r: Result<(), String>)
    ensures
        audio_len == 0 ==> (r matches Err(message) && message@ == NO_AUDIO_MESSAGE@),
        audio_len != 0 ==> r is Ok,
{
    if audio_len == 0 {
        Err(String::from_str(NO_AUDIO_MESSAGE))
    } else {
        Ok(())
    }
}

/// The program to run: the one that the request names, else the one that the
/// environment names, else the one that was found in the bundle, else the
/// default. A name that is blank counts as none.
pub open spec fn binary_choice(
    explicit: Option<Seq<char>>,
    from_env: Option<Seq<char>>,
    bundled: Option<Seq<char>>,
) -> Seq<char> {
    match or_else(or_else(resolved(explicit), resolved(from_env)), bundled) {
        Some(path) => path,
        None => DEFAULT_BINARY@,
    }
}

/// The program to run. A later source is looked at only where every earlier
/// one gave nothing, so the caller need not ask it before.
pub fn resolve_binary(explicit: Option<String>, from_env: Option<String>, bundled: Option<String>)
    -> (r: String)
    ensures
        r@ == binary_choice(option_text(explicit), option_text(from_env), option_text(bundled)),
{
    if let Some(path) = resolve_non_empty(explicit) {
        return path;
    }
    if let Some(path) = resolve_non_empty(from_env) {
        return path;
    }
    match bundled {
        Some(path) => path,
        None => String::from_str(DEFAULT_BINARY),
    }
}

/// The model to use: the one that the request names, else the one that the
/// environment names, else the one found in the bundle under a known name,
/// else the best one discovered in the search roots.
pub open spec fn model_choice(
    explicit: Option<Seq<char>>,
    from_env: Option<Seq<char>>,
    bundled: Option<Seq<char>>,
    discovered: Option<Seq<char>>,
) -> Option<Seq<char>> {
    or_else(or_else(or_else(resolved(explicit), resolved(from_env)), bundled), discovered)
}

/// The model to use, or the answer that none could be found.
pub fn choose_model(
    explicit: Option<String>,
    from_env: Option<String>,
    bundled: Option<String>,
    discovered: Option<String>,
) -> (r: Result<String, String>)
    ensures
        match model_choice(
            option_text(explicit),
            option_text(from_env),
            option_text(bundled),
            option_text(discovered),
        ) {
            Some(path) => r matches Ok(chosen) && chosen@ == path,
            None => r matches Err(message) && message@ == MODEL_MISSING_MESSAGE@,
        },
{
    if let Some(path) = resolve_non_empty(explicit) {
        return Ok(path);
    }
    if let Some(path) = resolve_non_empty(from_env) {
        return Ok(path);
    }
    if let Some(path) = bundled {
        return Ok(path);
    }
    match discovered {
        Some(path) => Ok(path),
        None => Err(String::from_str(MODEL_MISSING_MESSAGE)),
    }
}

/// A model whose file has the name `file_name` is refused if it is one of the
/// smallest.
pub fn reject_tiny_model(file_name: Option<String>) -> (r: Result<(), String>)
    ensures
        tiny_model_name(option_text(file_name)) ==> (r matches Err(message) && message@
            == TINY_MODEL_MESSAGE@),
        !tiny_model_name(option_text(file_name)) ==> r is Ok,
{
    if is_tiny_model_file_name(file_name) {
        Err(String::from_str(TINY_MODEL_MESSAGE))
    } else {
        Ok(())
    }
}

/// The model at `model_path` is refused if it is one of the smallest: the
/// decision of `reject_tiny_model` on the file name that the platform reads
/// out of the path. The name is a piece of the path, so a path that does not
/// hold the mark is accepted.
pub fn check_model_path(model_path: &str) -> (r: Result<(), String>)
    ensures
        r matches Err(message) ==> message@ == TINY_MODEL_MESSAGE@,
        exists|name: Option<Seq<char>>| #[trigger]
            read_from(model_path@, name) && (r is Err <==> tiny_model_name(name)),
        !has_infix(ascii_lower(model_path@), TINY_MODEL_MARK@) ==> r is Ok,
{
    let file_name = file_name_of(model_path);
    let ghost name = option_text(file_name);
    proof {
        assert(read_from(model_path@, name));
        if tiny_model_name(name) {
            lemma_tiny_name_marks_path(model_path@, name);
        }
    }
    reject_tiny_model(file_name)
}

/// The language to ask for: the one that the request names, else the one that
/// the environment names, else the default.
pub open spec fn language_choice(explicit: Option<Seq<char>>, from_env: Option<Seq<char>>) -> Seq<
    char,
> {
    match or_else(resolved(explicit), resolved(from_env)) {
        Some(language) => language,
        None => DEFAULT_LANGUAGE@,
    }
}

/// The language to ask for.
pub fn resolve_language(explicit: Option<String>, from_env: Option<String>) -> (r: String)
    ensures
        r@ == language_choice(option_text(explicit), option_text(from_env)),
{
    if let Some(language) = resolve_non_empty(explicit) {
        return language;
    }
    match resolve_non_empty(from_env) {
        Some(language) => language,
        None => String::from_str(DEFAULT_LANGUAGE),
    }
}

/// The name of the directory in which one transcription keeps its files, from
/// the time stamp of the request in milliseconds.
pub fn working_dir_name(stamp: u128) -> (r: String)
    ensures
        r@ == "greepy-whisper-"@ + decimal_nat(stamp as nat),
{
    let mut r = String::from_str("greepy-whisper-");
    push_decimal(&mut r, stamp);
    r
}

/// The arguments of the transcription program: the model, the audio file, the
/// language, and that the transcript is to be written as text beside
/// `output_base_path`.
pub open spec fn argument_list(
    model_path: Seq<char>,
    input_audio_path: Seq<char>,
    language: Seq<char>,
    output_base_path: Seq<char>,
) -> Seq<Seq<char>> {
    seq![
        "-m"@,
        model_path,
        "-f"@,
        input_audio_path,
        "-l"@,
        language,
        "-otxt"@,
        "-of"@,
        output_base_path,
    ]
}

/// The arguments of the transcription program.
pub fn whisper_arguments(
    model_path: &str,
    input_audio_path: &str,
    language: &str,
    output_base_path: &str,
) -> (args: Vec<String>)
    ensures
        texts(args@) == argument_list(
            model_path@,
            input_audio_path@,
            language@,
            output_base_path@,
        ),
{
    let mut args: Vec<String> = Vec::new();
    args.push(String::from_str("-m"));
    args.push(String::from_str(model_path));
    args.push(String::from_str("-f"));
    args.push(String::from_str(input_audio_path));
    args.push(String::from_str("-l"));
    args.push(String::from_str(language));
    args.push(String::from_str("-otxt"));
    args.push(String::from_str("-of"));
    args.push(String::from_str(output_base_path));
    assert(texts(args@) =~= argument_list(
        model_path@,
        input_audio_path@,
        language@,
        output_base_path@,
    ));
    args
}

/// `items` if `wanted`, else nothing.
pub open spec fn only_if(wanted: bool, items: Seq<Seq<char>>) -> Seq<Seq<char>> {
    if wanted {
        items
    } else {
        Seq::empty()
    }
}

/// What is told of a transcription that failed: how the program ended, what
/// it wrote to its two streams (each without surrounding white space, and
/// left out where blank), that it wrote nothing where both are blank, which
/// program and model were used, and a hint where there is one.
pub open spec fn failure_details(
    status: Seq<char>,
    stderr: Seq<char>,
    stdout: Seq<char>,
    binary: Seq<char>,
    model: Seq<char>,
    hint: Option<Seq<char>>,
) -> Seq<Seq<char>> {
    seq!["status: "@ + status] + only_if(!blank(stderr), seq!["stderr: "@ + trimmed(stderr)])
        + only_if(!blank(stdout), seq!["stdout: "@ + trimmed(stdout)]) + only_if(
        blank(stderr) && blank(stdout),
        seq!["No process output captured."@],
    ) + seq!["binary: "@ + binary, "model: "@ + model] + (match hint {
        Some(hint) => seq![hint],
        None => Seq::empty(),
    })
}

/// The report of a transcription that failed: its details in one line.
pub open spec fn failure_text(
    status: Seq<char>,
    stderr: Seq<char>,
    stdout: Seq<char>,
    binary: Seq<char>,
    model: Seq<char>,
    hint: Option<Seq<char>>,
) -> Seq<char> {
    "Whisper transcription failed: "@ + joined(
        failure_details(status, stderr, stdout, binary, model, hint),
        " | "@,
    )
}

/// `label` followed by `value`.
fn labelled(label: &str, value: &str) -> (r: String)
    ensures
        r@ == label@ + value@,
{
    let mut r = String::from_str(label);
    r.append(value);
    r
}

/// The report of a transcription that failed.
pub fn failure_report(
    status: &str,
    stderr: &str,
    stdout: &str,
    binary: &str,
    model: &str,
    hint: Option<&str>,
) -> (r: String)
    ensures
        r@ == failure_text(
            status@,
            stderr@,
            stdout@,
            binary@,
            model@,
            match hint {
                Some(text) => Some(text@),
                None => None,
            },
        ),
{
    let err = trim(stderr);
    let out = trim(stdout);
    let mut details: Vec<String> = Vec::new();
    details.push(labelled("status: ", status));
    if !err.is_empty() {
        details.push(labelled("stderr: ", err));
    }
    if !out.is_empty() {
        details.push(labelled("stdout: ", out));
    }
    if err.is_empty() && out.is_empty() {
        details.push(String::from_str("No process output captured."));
    }
    details.push(labelled("binary: ", binary));
    details.push(labelled("model: ", model));
    match hint {
        Some(text) => {
            details.push(String::from_str(text));
        },
        None => {},
    }
    assert(texts(details@) =~= failure_details(
        status@,
        stderr@,
        stdout@,
        binary@,
        model@,
        match hint {
            Some(text) => Some(text@),
            None => None,
        },
    ));
    let line = join(&details, " | ");
    labelled("Whisper transcription failed: ", line.as_str())
}

/// The report of a transcription program that ended with the exit code `code`
/// (or none) on `platform`.
pub fn transcription_failure(
    platform: Platform,
    code: Option<i32>,
    stderr: &str,
    stdout: &str,
    binary: &str,
    model: &str,
) -> (r: String)
    ensures
        r@ == failure_text(
            exit_status_text(platform, code),
            stderr@,
            stdout@,
            binary@,
            model@,
            runtime_hint(platform, code),
        ),
{
    let status = format_exit_status(platform, code);
    let hint = whisper_runtime_hint(platform, code);
    failure_report(status.as_str(), stderr, stdout, binary, model, hint)
}

/// The transcript without surrounding white space; a transcript that is blank
/// is answered as no speech.
pub fn clean_transcript(transcript: &str) -> (r: Result<String, String>)
    ensures
        blank(transcript@) ==> (r matches Err(message) && message@ == NO_SPEECH_MESSAGE@),
        !blank(transcript@) ==> (r matches Ok(text) && text@ == trimmed(transcript@)),
{
    let cleaned = trim(transcript);
    if cleaned.is_empty() {
        Err(String::from_str(NO_SPEECH_MESSAGE))
    } else {
        Ok(String::from_str(cleaned))
    }
}

/// The answer where the audio could not be written for the program.
pub fn write_failure(error: &str) -> (r: String)
    ensures
        r@ == "Failed to write temporary audio file: "@ + error@,
{
    labelled("Failed to write temporary audio file: ", error)
}

/// The answer where the program `binary` could not be started.
pub fn launch_failure(binary: &str, error: &str) -> (r: String)
    ensures
        r@ == "Failed to launch whisper binary '"@ + binary@ + "': "@ + error@,
{
    let mut r = String::from_str("Failed to launch whisper binary '");
    r.append(binary);
    r.append("': ");
    r.append(error);
    r
}

/// The answer where the transcript could not be read.
pub fn read_failure(error: &str) -> (r: String)
    ensures
        r@ == "Failed to read transcript output: "@ + error@,
{
    labelled("Failed to read transcript output: ", error)
}

/// The answer where the audio file `path` could not be read.
pub fn audio_read_failure(path: &str, error: &str) -> (r: String)
    ensures
        r@ == "Failed to read audio file '"@ + path@ + "': "@ + error@,
{
    let mut r = String::from_str("Failed to read audio file '");
    r.append(path);
    r.append("': ");
    r.append(error);
    r
}

/// Every rank is a small number.
pub proof fn lemma_rank_is_small(file_name: Seq<char>)
    ensures
        model_rank(file_name) <= 100,
{
}

/// The model that a search ends with is not beaten by any model file that the
/// search has looked at: none has a better rank, and none of the same rank is
/// larger.
pub proof fn lemma_best_model_is_not_beaten(
    best: Option<ModelChoice>,
    entries: Seq<DirEntryInfo>,
    at: int,
)
    requires
        0 <= at < entries.len(),
        is_model_file(entries[at]),
    ensures
        choice_after_all(best, entries) is Some,
        !beats(rank_of(entries[at]), entries[at].size as nat, choice_after_all(best, entries)),
    decreases entries.len(),
{
    let earlier = entries.drop_last();
    let last = entries.last();
    let before = choice_after_all(best, earlier);
    lemma_rank_is_small(ascii_lower(last.file_name->0@));
    if at < earlier.len() {
        assert(earlier[at] == entries[at]);
        lemma_best_model_is_not_beaten(best, earlier, at);
    } else {
        assert(entries[at] == last);
    }
}

/// The directories that are taken are pairwise different, also when capitals
/// are read as lower case: beside each of them stands its lower-case form,
/// and no form stands there twice.
pub proof fn lemma_roots_are_unique(candidates: Seq<RootCandidate>)
    ensures
        seen_roots(candidates).no_duplicates(),
        seen_roots(candidates).len() == unique_roots(candidates).len(),
        forall|i: int|
            0 <= i < unique_roots(candidates).len() ==> seen_roots(candidates)[i] == lowercase_text(
                #[trigger] unique_roots(candidates)[i],
            ),
    decreases candidates.len(),
{
    if candidates.len() > 0 {
        lemma_roots_are_unique(candidates.drop_last());
    }
}

/// Every directory that is taken is one of the candidates and exists.
pub proof fn lemma_roots_exist(candidates: Seq<RootCandidate>, at: int)
    requires
        0 <= at < unique_roots(candidates).len(),
    ensures
        exists|k: int|
            0 <= k < candidates.len() && (#[trigger] candidates[k]).is_existing_dir
                && candidates[k].path@ == unique_roots(candidates)[at],
    decreases candidates.len(),
{
    let earlier = candidates.drop_last();
    if at < unique_roots(earlier).len() {
        lemma_roots_exist(earlier, at);
        let k = choose|k: int|
            0 <= k < earlier.len() && (#[trigger] earlier[k]).is_existing_dir && earlier[k].path@
                == unique_roots(earlier)[at];
        assert(candidates[k] == earlier[k]);
    } else {
        assert(candidates[candidates.len() - 1] == candidates.last());
    }
}

/// What a platform may read out of `path` as the name of its file: no name,
/// or a name that stands somewhere in the path.
pub open spec fn read_from(path: Seq<char>, name: Option<Seq<char>>) -> bool {
    match name {
        Some(text) => has_infix(path, text),
        None => true,
    }
}

/// A path whose file name marks one of the smallest models holds the mark
/// itself, capitals of ASCII aside.
pub proof fn lemma_tiny_name_marks_path(path: Seq<char>, name: Option<Seq<char>>)
    requires
        read_from(path, name),
        tiny_model_name(name),
    ensures
        has_infix(ascii_lower(path), TINY_MODEL_MARK@),
{
    let text = name->0;
    lemma_infix_in_lower_case(path, text);
    lemma_infix_of_infix(ascii_lower(path), ascii_lower(text), TINY_MODEL_MARK@);
}

} // verus!
