//! What was read of a directory tree, as plain values.

use vstd::prelude::*;
use crate::config::SectionConfigInput;
use crate::content::front::FrontMatter;
use crate::content::paths::{names_markdown, relative_to};
use crate::error::ErrorView;

verus! {

/// A file of a directory, as it was read.
#[derive(Clone, Debug, PartialEq, Eq)]
pub struct SourceFile {
    /// The path of the file.
    pub path: String,
    /// The whole text of the file.
    pub file: String,
    /// The front matter of the file; the default where it has none.
    pub front: FrontMatter,
    /// The text of the file after its front matter.
    pub content: String,
}

/// A directory, as it was read: its files, and its subdirectories in turn.
#[derive(Debug, PartialEq, Eq)]
pub struct SourceDir {
    /// The path of the directory.
    pub path: String,
    /// What the metadata file of the directory says, if it has one.
    pub config: Option<SectionConfigInput>,
    /// The whole text of the index page of the directory, if it has one.
    pub index: Option<String>,
    pub files: Vec<SourceFile>,
    pub dirs: Vec<SourceDir>,
}

/// The paths of the Markdown files among a list of files, in order.
pub open spec fn markdown_file_paths(files: Seq<SourceFile>) -> Seq<Seq<char>>
    decreases files.len(),
{
    if files.len() == 0 {
        Seq::empty()
    } else if names_markdown(files.last().path@) {
        markdown_file_paths(files.drop_last()).push(files.last().path@)
    } else {
        markdown_file_paths(files.drop_last())
    }
}

/// The Markdown files among a list of files, in order.
pub open spec fn markdown_files(files: Seq<SourceFile>) -> Seq<SourceFile>
    decreases files.len(),
{
    if files.len() == 0 {
        Seq::empty()
    } else if names_markdown(files.last().path@) {
        markdown_files(files.drop_last()).push(files.last())
    } else {
        markdown_files(files.drop_last())
    }
}

/// The paths of the Markdown files in a directory and below it: those of
/// the directory itself, then those of each subdirectory in turn.
pub open spec fn markdown_paths(dir: SourceDir) -> Seq<Seq<char>>
    decreases dir,
{
    markdown_file_paths(dir.files@) + markdown_paths_all(dir.dirs@)
}

/// The paths of the Markdown files in and below each directory of a list.
pub open spec fn markdown_paths_all(dirs: Seq<SourceDir>) -> Seq<Seq<char>>
    decreases dirs,
{
    if dirs.len() == 0 {
        Seq::empty()
    } else {
        markdown_paths_all(dirs.drop_last()) + markdown_paths(dirs.last())
    }
}

/// Why a file gives no page though it is a Markdown file: its order is
/// zero, or else it does not lie under the root.
pub open spec fn file_failure(file: SourceFile, root: Seq<char>) -> Option<ErrorView> {
    if !names_markdown(file.path@) {
        None
    } else if !file.front.order_ok() {
        Some(ErrorView::ZeroOrder(file.path@))
    } else if relative_to(file.path@, root) is None {
        Some(ErrorView::Prefix(file.path@))
    } else {
        None
    }
}

/// The failure of the first file of a list that gives no page, if there is one.
pub open spec fn files_failure(files: Seq<SourceFile>, root: Seq<char>) -> Option<ErrorView>
    decreases files.len(),
{
    if files.len() == 0 {
        None
    } else {
        match files_failure(files.drop_last(), root) {
            Some(e) => Some(e),
            None => file_failure(files.last(), root),
        }
    }
}

/// Why a directory gives no section: the first failure among its files; or,
/// with none, that it holds no Markdown file; or, with some, the first
/// failure among its subdirectories.
pub open spec fn dir_failure(dir: SourceDir, root: Seq<char>) -> Option<ErrorView>
    decreases dir,
{
    match files_failure(dir.files@, root) {
        Some(e) => Some(e),
        None => {
            if markdown_file_paths(dir.files@).len() == 0 {
                Some(ErrorView::NoPages(dir.path@))
            } else {
                dirs_failure(dir.dirs@, root)
            }
        },
    }
}

/// The failure of the first directory of a list that gives no section, if there is one.
pub open spec fn dirs_failure(dirs: Seq<SourceDir>, root: Seq<char>) -> Option<ErrorView>
    decreases dirs,
{
    if dirs.len() == 0 {
        None
    } else {
        match dirs_failure(dirs.drop_last(), root) {
            Some(e) => Some(e),
            None => dir_failure(dirs.last(), root),
        }
    }
}

/// A failure among the first `k` files is the failure of the whole list.
pub proof fn lemma_files_failure_persists(files: Seq<SourceFile>, root: Seq<char>, k: int)
    requires
        0 <= k <= files.len(),
        files_failure(files.subrange(0, k), root) is Some,
    ensures
        files_failure(files, root) == files_failure(files.subrange(0, k), root),
    decreases files.len() - k,
{
    if k == files.len() {
        assert(files.subrange(0, k) =~= files);
    } else {
        assert(files.drop_last().subrange(0, k) =~= files.subrange(0, k));
        lemma_files_failure_persists(files.drop_last(), root, k);
    }
}

/// A failure among the first `k` directories is the failure of the whole list.
pub proof fn lemma_dirs_failure_persists(dirs: Seq<SourceDir>, root: Seq<char>, k: int)
    requires
        0 <= k <= dirs.len(),
        dirs_failure(dirs.subrange(0, k), root) is Some,
    ensures
        dirs_failure(dirs, root) == dirs_failure(dirs.subrange(0, k), root),
    decreases dirs.len() - k,
{
    if k == dirs.len() {
        assert(dirs.subrange(0, k) =~= dirs);
    } else {
        assert(dirs.drop_last().subrange(0, k) =~= dirs.subrange(0, k));
        lemma_dirs_failure_persists(dirs.drop_last(), root, k);
    }
}


/// Files among which there is no Markdown file give no failure.
pub proof fn lemma_no_markdown_no_failure(files: Seq<SourceFile>, root: Seq<char>)
    requires
        markdown_file_paths(files).len() == 0,
    ensures
        files_failure(files, root) is None,
    decreases files.len(),
{
    if files.len() > 0 {
        lemma_no_markdown_no_failure(files.drop_last(), root);
    }
}

/// A directory without a Markdown file of its own fails with its own path,
/// whatever lies below it; a directory below it is judged by itself.
pub proof fn directory_without_pages_fails(dir: SourceDir, root: Seq<char>)
    requires
        markdown_file_paths(dir.files@).len() == 0,
    ensures
        dir_failure(dir, root) == Some(ErrorView::NoPages(dir.path@)),
{
    lemma_no_markdown_no_failure(dir.files@, root);
}


/// Whether a tree is in place: every directory of it holds a Markdown file,
/// and every Markdown file of it lies under the root.
pub open spec fn tree_in_place(dir: SourceDir, root: Seq<char>) -> bool
    decreases dir,
{
    &&& markdown_file_paths(dir.files@).len() > 0
    &&& files_in_place(dir.files@, root)
    &&& forall|i: int| 0 <= i < dir.dirs@.len() ==> tree_in_place(#[trigger] dir.dirs@[i], root)
}

/// Whether every Markdown file of a list lies under the root.
pub open spec fn files_in_place(files: Seq<SourceFile>, root: Seq<char>) -> bool {
    forall|k: int|
        0 <= k < files.len() && names_markdown((#[trigger] files[k]).path@) ==> relative_to(
            files[k].path@,
            root,
        ) is Some
}

/// The paths of the Markdown files of a list whose order is zero, in order.
pub open spec fn zero_order_files(files: Seq<SourceFile>) -> Seq<Seq<char>>
    decreases files.len(),
{
    if files.len() == 0 {
        Seq::empty()
    } else if names_markdown(files.last().path@) && !files.last().front.order_ok() {
        zero_order_files(files.drop_last()).push(files.last().path@)
    } else {
        zero_order_files(files.drop_last())
    }
}

/// The paths of the Markdown files in and below a directory whose order is
/// zero: those of the directory itself, then those of each subdirectory in turn.
pub open spec fn zero_order_paths(dir: SourceDir) -> Seq<Seq<char>>
    decreases dir,
{
    zero_order_files(dir.files@) + zero_order_paths_all(dir.dirs@)
}

/// The paths of the Markdown files with order zero in and below each directory of a list.
pub open spec fn zero_order_paths_all(dirs: Seq<SourceDir>) -> Seq<Seq<char>>
    decreases dirs,
{
    if dirs.len() == 0 {
        Seq::empty()
    } else {
        zero_order_paths_all(dirs.drop_last()) + zero_order_paths(dirs.last())
    }
}

/// The failure that names the first of some paths, if there is one.
pub open spec fn first_zero_order(paths: Seq<Seq<char>>) -> Option<ErrorView> {
    if paths.len() > 0 {
        Some(ErrorView::ZeroOrder(paths[0]))
    } else {
        None
    }
}

/// Among files that lie under the root, the failure is that of the first
/// Markdown file with order zero.
pub proof fn lemma_files_zero_order(files: Seq<SourceFile>, root: Seq<char>)
    requires
        files_in_place(files, root),
    ensures
        files_failure(files, root) == first_zero_order(zero_order_files(files)),
    decreases files.len(),
{
    if files.len() > 0 {
        let shorter = files.drop_last();
        assert forall|k: int|
            0 <= k < shorter.len() && names_markdown((#[trigger] shorter[k]).path@) implies relative_to(
            shorter[k].path@,
            root,
        ) is Some by {
            assert(shorter[k] == files[k]);
        }
        lemma_files_zero_order(shorter, root);
        assert(files.last() == files[files.len() - 1]);
    }
}

/// In a tree in place, the failure is that of the first Markdown file with
/// order zero, in the order in which the tree is walked.
pub proof fn lemma_tree_zero_order(dir: SourceDir, root: Seq<char>)
    requires
        tree_in_place(dir, root),
    ensures
        dir_failure(dir, root) == first_zero_order(zero_order_paths(dir)),
    decreases dir, 1int,
{
    lemma_files_zero_order(dir.files@, root);
    assert(dir.dirs@ =~= dir.dirs@.subrange(0, dir.dirs@.len() as int));
    lemma_trees_zero_order(dir.dirs@, root, dir);
}

/// Among trees in place, the failure is that of the first Markdown file
/// with order zero.
pub proof fn lemma_trees_zero_order(dirs: Seq<SourceDir>, root: Seq<char>, parent: SourceDir)
    requires
        forall|i: int| 0 <= i < dirs.len() ==> tree_in_place(#[trigger] dirs[i], root),
        dirs.len() <= parent.dirs@.len(),
        dirs == parent.dirs@.subrange(0, dirs.len() as int),
    ensures
        dirs_failure(dirs, root) == first_zero_order(zero_order_paths_all(dirs)),
    decreases parent, 0int, dirs.len(),
{
    if dirs.len() > 0 {
        let shorter = dirs.drop_last();
        assert(shorter =~= parent.dirs@.subrange(0, shorter.len() as int));
        assert forall|i: int| 0 <= i < shorter.len() implies tree_in_place(
            #[trigger] shorter[i],
            root,
        ) by {
            assert(shorter[i] == dirs[i]);
        }
        lemma_trees_zero_order(shorter, root, parent);
        assert(dirs.last() == parent.dirs@[dirs.len() - 1]);
        lemma_tree_zero_order(dirs.last(), root);
    }
}

/// A page with order zero fails the whole tree, at whatever depth it
/// stands: in a tree in place, the failure names the first Markdown file
/// with order zero; where there is one such file, it names that file.
pub proof fn zero_order_fails_the_tree(dir: SourceDir, root: Seq<char>)
    requires
        tree_in_place(dir, root),
        zero_order_paths(dir).len() > 0,
    ensures
        dir_failure(dir, root) == Some(ErrorView::ZeroOrder(zero_order_paths(dir)[0])),
{
    lemma_tree_zero_order(dir, root);
}

} // verus!
