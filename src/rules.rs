//! Which files of a repository the cleanup evaluates, and which it deletes.
use vstd::prelude::*;
use crate::paths::{file_name_of, parent_of, path_file_name, path_parent};
use crate::size::size_text;
use crate::text::{contains, ends_with, str_contains, str_ends_with, str_equals};

verus! {

/// The suffix that marks a version folder of a snapshot build.
pub const SNAPSHOT_SUFFIX: &'static str = "-SNAPSHOT";

/// The descriptor that a local build writes beside its artifacts.
pub const LOCAL_METADATA_FILE: &'static str = "maven-metadata-local.xml";

/// A folder whose name marks a snapshot version.
pub open spec fn is_snapshot_folder(folder: Seq<char>) -> bool {
    ends_with(folder, SNAPSHOT_SUFFIX@)
}

/// The reserved local-metadata file name.
pub open spec fn is_local_metadata(name: Seq<char>) -> bool {
    name == LOCAL_METADATA_FILE@
}

/// The extensions of artifacts and of their checksums.
pub open spec fn artifact_suffixes() -> Seq<Seq<char>> {
    seq![".jar"@, ".jar.sha1"@, ".pom"@, ".pom.sha1"@, ".war"@, ".war.sha1"@]
}

/// `name` ends with one of the artifact extensions.
pub open spec fn has_artifact_suffix(name: Seq<char>) -> bool {
    exists|i: int| 0 <= i < artifact_suffixes().len() && ends_with(name, #[trigger] artifact_suffixes()[i])
}

/// A file named `name` found in a folder named `folder` is queued for evaluation.
pub open spec fn is_admitted(folder: Seq<char>, name: Seq<char>) -> bool {
    is_snapshot_folder(folder) || is_local_metadata(name)
}

/// What the cleanup does with a file queued for evaluation.
#[derive(Debug, Clone, Copy, PartialEq, Eq, Structural)]
pub enum FileAction {
    /// The file's names cannot be resolved: it is left alone.
    Skip,
    /// The local-metadata descriptor: deleted, and a failure halts the run.
    DeleteMetadata,
    /// An artifact whose name lacks its folder's name: deleted and counted.
    DeleteStale,
    /// Anything else: left alone.
    Keep,
}

/// The action for a file named `name` in a folder named `folder`.
pub open spec fn action_for(folder: Seq<char>, name: Seq<char>) -> FileAction {
    if is_local_metadata(name) {
        FileAction::DeleteMetadata
    } else if has_artifact_suffix(name) && !contains(name, folder) {
        FileAction::DeleteStale
    } else {
        FileAction::Keep
    }
}

/// A file named `name` in a folder named `folder` is deleted by a run.
pub open spec fn is_deleted(folder: Seq<char>, name: Seq<char>) -> bool {
    is_admitted(folder, name) && action_for(folder, name) != FileAction::Keep
}

/// The action for the file at `path`, from the names of the file and of its folder.
pub open spec fn action_at(path: Seq<char>) -> FileAction {
    match (parent_of(path), file_name_of(path)) {
        (Some(parent), Some(name)) => match file_name_of(parent) {
            Some(folder) => action_for(folder, name),
            None => FileAction::Skip,
        },
        _ => FileAction::Skip,
    }
}

/// Whether `name` ends with one of the artifact extensions.
pub fn is_artifact(name: &str) -> (r: bool)
    ensures
        r == has_artifact_suffix(name@),
{
    let r = str_ends_with(name, ".jar") || str_ends_with(name, ".jar.sha1")
        || str_ends_with(name, ".pom") || str_ends_with(name, ".pom.sha1")
        || str_ends_with(name, ".war") || str_ends_with(name, ".war.sha1");
    assert(artifact_suffixes()[0] == ".jar"@);
    assert(artifact_suffixes()[1] == ".jar.sha1"@);
    assert(artifact_suffixes()[2] == ".pom"@);
    assert(artifact_suffixes()[3] == ".pom.sha1"@);
    assert(artifact_suffixes()[4] == ".war"@);
    assert(artifact_suffixes()[5] == ".war.sha1"@);
    r
}

/// Whether a file named `file_name`, found in a folder named `folder_name`,
/// is queued for evaluation: the folder marks a snapshot, or the file is the
/// local-metadata descriptor.
pub fn admits_file(folder_name: &str, file_name: &str) -> (r: bool)
    ensures
        r == is_admitted(folder_name@, file_name@),
{
    str_ends_with(folder_name, SNAPSHOT_SUFFIX) || str_equals(file_name, LOCAL_METADATA_FILE)
}

/// The action for a file named `file_name` in a folder named `folder_name`.
pub fn file_action(folder_name: &str, file_name: &str) -> (r: FileAction)
    ensures
        r == action_for(folder_name@, file_name@),
{
    if str_equals(file_name, LOCAL_METADATA_FILE) {
        FileAction::DeleteMetadata
    } else if is_artifact(file_name) && !str_contains(file_name, folder_name) {
        FileAction::DeleteStale
    } else {
        FileAction::Keep
    }
}

/// The action for the file at `path`: `Skip` where the name of the file or of
/// its folder cannot be resolved.
pub fn classify_file(path: &str) -> (r: FileAction)
    ensures
        r == action_at(path@),
{
    let parent = path_parent(path);
    let name = path_file_name(path);
    match (parent, name) {
        (Some(parent), Some(name)) => match path_file_name(parent.as_str()) {
            Some(folder) => file_action(folder.as_str(), name.as_str()),
            None => FileAction::Skip,
        },
        _ => FileAction::Skip,
    }
}

/// The names of a folder's files that a run leaves in place.
pub open spec fn survivors(folder: Seq<char>, names: Seq<Seq<char>>) -> Seq<Seq<char>> {
    names.filter(|n: Seq<char>| !is_deleted(folder, n))
}

proof fn lemma_last_char(s: Seq<char>, suffix: Seq<char>)
    requires
        ends_with(s, suffix),
        suffix.len() > 0,
    ensures
        s[s.len() - 1] == suffix[suffix.len() - 1],
{
    assert(s.subrange(s.len() - suffix.len(), s.len() as int)[suffix.len() - 1] == s[s.len() - 1]);
}

/// The local-metadata file name carries none of the artifact extensions.
proof fn lemma_metadata_is_no_artifact()
    ensures
        !has_artifact_suffix(LOCAL_METADATA_FILE@),
{
    reveal_strlit("maven-metadata-local.xml");
    reveal_strlit(".jar");
    reveal_strlit(".jar.sha1");
    reveal_strlit(".pom");
    reveal_strlit(".pom.sha1");
    reveal_strlit(".war");
    reveal_strlit(".war.sha1");
    let m = LOCAL_METADATA_FILE@;
    assert(m[m.len() - 1] == 'l');
    assert forall|i: int| 0 <= i < artifact_suffixes().len() implies !ends_with(
        m,
        #[trigger] artifact_suffixes()[i],
    ) by {
        let suffix = artifact_suffixes()[i];
        assert(suffix.len() > 0 && suffix[suffix.len() - 1] != 'l');
        if ends_with(m, suffix) {
            lemma_last_char(m, suffix);
        }
    }
}

/// Outside snapshot folders, files other than the local-metadata descriptor
/// are neither evaluated nor deleted.
pub proof fn law_plain_folders_untouched(folder: Seq<char>, name: Seq<char>)
    requires
        !is_snapshot_folder(folder),
        !is_local_metadata(name),
    ensures
        !is_admitted(folder, name),
        !is_deleted(folder, name),
{
}

/// In a snapshot folder, a file with an artifact extension is deleted exactly
/// when its name does not contain the folder's name.
pub proof fn law_snapshot_artifacts(folder: Seq<char>, name: Seq<char>)
    requires
        is_snapshot_folder(folder),
        has_artifact_suffix(name),
    ensures
        is_deleted(folder, name) == !contains(name, folder),
{
    lemma_metadata_is_no_artifact();
}

/// The local-metadata descriptor is deleted in every folder.
pub proof fn law_metadata_always_deleted(folder: Seq<char>)
    ensures
        is_admitted(folder, LOCAL_METADATA_FILE@),
        action_for(folder, LOCAL_METADATA_FILE@) == FileAction::DeleteMetadata,
        is_deleted(folder, LOCAL_METADATA_FILE@),
{
}

/// A second run over the files that a first run left deletes none of them,
/// and reports zero bytes.
pub proof fn law_second_run_deletes_nothing(folder: Seq<char>, names: Seq<Seq<char>>)
    ensures
        forall|i: int|
            0 <= i < survivors(folder, names).len() ==> !is_deleted(
                folder,
                #[trigger] survivors(folder, names)[i],
            ),
        survivors(folder, survivors(folder, names)) == survivors(folder, names),
        size_text(0) == seq!['0', ' ', 'B'],
{
    let pred = |n: Seq<char>| !is_deleted(folder, n);
    let once = names.filter(pred);
    broadcast use vstd::seq_lib::group_filter_ensures;

    lemma_filter_all(once, pred);
    assert(size_text(0) =~= seq!['0', ' ', 'B']);
}

proof fn lemma_filter_all(s: Seq<Seq<char>>, pred: spec_fn(Seq<char>) -> bool)
    requires
        forall|i: int| 0 <= i < s.len() ==> pred(#[trigger] s[i]),
    ensures
        s.filter(pred) == s,
    decreases s.len(),
{
    reveal(Seq::filter);
    if s.len() > 0 {
        lemma_filter_all(s.drop_last(), pred);
        assert(s.drop_last().push(s.last()) =~= s);
    } else {
        assert(s.filter(pred) =~= s);
    }
}

} // verus!
