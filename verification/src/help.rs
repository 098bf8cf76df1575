use vstd::prelude::*;

use crate::nav::ContextId;
use crate::ui::{HelpEntry, HelpSection};

verus! {

/// The bindings that hold in every panel, each written as its key (such as `q` or `<c-z>`).
#[derive(Debug, Clone)]
pub struct UniversalKeybindings {
    pub quit: String,
    pub quit_alt1: String,
    pub return_key: String,
    pub toggle_panel: String,
    pub prev_item: String,
    pub next_item: String,
    pub prev_page: String,
    pub next_page: String,
    pub goto_top: String,
    pub goto_bottom: String,
    pub prev_block: String,
    pub next_block: String,
    pub start_search: String,
    pub next_match: String,
    pub prev_match: String,
    pub scroll_up_main_alt1: String,
    pub scroll_down_main_alt1: String,
    pub scroll_left: String,
    pub scroll_right: String,
    pub undo: String,
    pub redo: String,
    pub refresh: String,
    pub push_files: String,
    pub pull_files: String,
    pub next_screen_mode: String,
    pub prev_screen_mode: String,
    pub create_rebase_options_menu: String,
    pub create_patch_options_menu: String,
    pub edit: String,
    pub open_file: String,
}

/// The bindings of the files panel, each written as its key.
#[derive(Debug, Clone)]
pub struct FilesKeybindings {
    pub commit_changes: String,
    pub amend_last_commit: String,
    pub commit_changes_with_editor: String,
    pub toggle_staged_all: String,
    pub stash_all_changes: String,
    pub view_stash_options: String,
    pub toggle_tree_view: String,
    pub fetch: String,
    pub ignore_file: String,
}

/// The bindings of the branches panel, each written as its key.
#[derive(Debug, Clone)]
pub struct BranchesKeybindings {
    pub merge_into_current_branch: String,
    pub rebase_branch: String,
    pub rename_branch: String,
    pub fast_forward: String,
    pub set_upstream: String,
    pub create_pull_request: String,
}

/// The bindings of the commits panel, each written as its key.
#[derive(Debug, Clone)]
pub struct CommitsKeybindings {
    pub squash_down: String,
    pub rename_commit: String,
    pub view_reset_options: String,
    pub mark_commit_as_fixup: String,
    pub create_fixup_commit: String,
    pub squash_above_commits: String,
    pub move_up_commit: String,
    pub move_down_commit: String,
    pub amend_to_commit: String,
    pub pick_commit: String,
    pub revert_commit: String,
    pub cherry_pick_copy: String,
    pub paste_commits: String,
    pub tag_commit: String,
    pub checkout_commit: String,
    pub view_bisect_options: String,
    pub interactive_rebase: String,
    pub open_log_menu: String,
}

/// The bindings of the stash panel, each written as its key.
#[derive(Debug, Clone)]
pub struct StashKeybindings {
    pub pop_stash: String,
    pub rename_stash: String,
}

/// The key bindings the help popup shows.
#[derive(Debug, Clone)]
pub struct KeybindingConfig {
    pub universal: UniversalKeybindings,
    pub files: FilesKeybindings,
    pub branches: BranchesKeybindings,
    pub commits: CommitsKeybindings,
    pub stash: StashKeybindings,
}

/// A help entry as the pair of its key and its description.
pub open spec fn entry_view(e: HelpEntry) -> (Seq<char>, Seq<char>) {
    (e.key@, e.description@)
}

/// A help section as its title and its entries.
pub open spec fn section_view(s: HelpSection) -> (Seq<char>, Seq<(Seq<char>, Seq<char>)>) {
    (s.title@, s.entries@.map_values(|e: HelpEntry| entry_view(e)))
}

/// The help sections, in order.
pub open spec fn sections_view(r: Seq<HelpSection>) -> Seq<(Seq<char>, Seq<(Seq<char>, Seq<char>)>)> {
    r.map_values(|s: HelpSection| section_view(s))
}

fn key_entry(key: &String, description: &str) -> (e: HelpEntry)
    ensures
        entry_view(e) == (key@, description@),
{
    HelpEntry { key: key.clone(), description: String::from_str(description) }
}

fn text_entry(key: &str, description: &str) -> (e: HelpEntry)
    ensures
        entry_view(e) == (key@, description@),
{
    HelpEntry { key: String::from_str(key), description: String::from_str(description) }
}

fn section(title: &str, entries: Vec<HelpEntry>) -> (s: HelpSection)
    ensures
        s.title@ == title@,
        s.entries@ == entries@,
{
    HelpSection { title: String::from_str(title), entries }
}

/// The entries of the universal section.
pub open spec fn universal_help(kb: KeybindingConfig) -> Seq<(Seq<char>, Seq<char>)> {
    seq![
        (kb.universal.quit@, "Quit"@),
        (kb.universal.quit_alt1@, "Quit (alt)"@),
        (kb.universal.return_key@, "Return / Cancel"@),
        (kb.universal.toggle_panel@, "Next panel"@),
        (kb.universal.prev_item@, "Previous item"@),
        (kb.universal.next_item@, "Next item"@),
        (kb.universal.prev_page@, "Page up"@),
        (kb.universal.next_page@, "Page down"@),
        (kb.universal.goto_top@, "Go to top"@),
        (kb.universal.goto_bottom@, "Go to bottom"@),
        (kb.universal.prev_block@, "Previous panel"@),
        (kb.universal.next_block@, "Next panel"@),
        (kb.universal.start_search@, "Search"@),
        (kb.universal.next_match@, "Next search match"@),
        (kb.universal.prev_match@, "Previous search match"@),
        (kb.universal.scroll_up_main_alt1@, "Scroll diff up"@),
        (kb.universal.scroll_down_main_alt1@, "Scroll diff down"@),
        (kb.universal.scroll_left@, "Scroll left"@),
        (kb.universal.scroll_right@, "Scroll right"@),
        (kb.universal.undo@, "Undo"@),
        (kb.universal.redo@, "Redo"@),
        (kb.universal.refresh@, "Refresh"@),
        (kb.universal.push_files@, "Push"@),
        (kb.universal.pull_files@, "Pull"@),
        (kb.universal.next_screen_mode@, "Enlarge panel"@),
        (kb.universal.prev_screen_mode@, "Shrink panel"@),
        (kb.universal.create_rebase_options_menu@, "Rebase options"@),
        (kb.universal.create_patch_options_menu@, "Patch options"@),
        ("{/}"@, "Previous/next hunk"@),
        (";"@, "Toggle command log"@),
        ("W"@, "Compare / Diff mode"@),
        ("I"@, "Interactive rebase onto..."@),
        ("1-5"@, "Jump to panel"@),
        ("?"@, "Show this help"@),
    ]
}

fn universal_entries(kb: &KeybindingConfig) -> (v: Vec<HelpEntry>)
    ensures
        v@.map_values(|e: HelpEntry| entry_view(e)) == universal_help(*kb),
{
    let mut v: Vec<HelpEntry> = Vec::new();
    v.push(key_entry(&kb.universal.quit, "Quit"));
    v.push(key_entry(&kb.universal.quit_alt1, "Quit (alt)"));
    v.push(key_entry(&kb.universal.return_key, "Return / Cancel"));
    v.push(key_entry(&kb.universal.toggle_panel, "Next panel"));
    v.push(key_entry(&kb.universal.prev_item, "Previous item"));
    v.push(key_entry(&kb.universal.next_item, "Next item"));
    v.push(key_entry(&kb.universal.prev_page, "Page up"));
    v.push(key_entry(&kb.universal.next_page, "Page down"));
    v.push(key_entry(&kb.universal.goto_top, "Go to top"));
    v.push(key_entry(&kb.universal.goto_bottom, "Go to bottom"));
    v.push(key_entry(&kb.universal.prev_block, "Previous panel"));
    v.push(key_entry(&kb.universal.next_block, "Next panel"));
    v.push(key_entry(&kb.universal.start_search, "Search"));
    v.push(key_entry(&kb.universal.next_match, "Next search match"));
    v.push(key_entry(&kb.universal.prev_match, "Previous search match"));
    v.push(key_entry(&kb.universal.scroll_up_main_alt1, "Scroll diff up"));
    v.push(key_entry(&kb.universal.scroll_down_main_alt1, "Scroll diff down"));
    v.push(key_entry(&kb.universal.scroll_left, "Scroll left"));
    v.push(key_entry(&kb.universal.scroll_right, "Scroll right"));
    v.push(key_entry(&kb.universal.undo, "Undo"));
    v.push(key_entry(&kb.universal.redo, "Redo"));
    v.push(key_entry(&kb.universal.refresh, "Refresh"));
    v.push(key_entry(&kb.universal.push_files, "Push"));
    v.push(key_entry(&kb.universal.pull_files, "Pull"));
    v.push(key_entry(&kb.universal.next_screen_mode, "Enlarge panel"));
    v.push(key_entry(&kb.universal.prev_screen_mode, "Shrink panel"));
    v.push(key_entry(&kb.universal.create_rebase_options_menu, "Rebase options"));
    v.push(key_entry(&kb.universal.create_patch_options_menu, "Patch options"));
    v.push(text_entry("{/}", "Previous/next hunk"));
    v.push(text_entry(";", "Toggle command log"));
    v.push(text_entry("W", "Compare / Diff mode"));
    v.push(text_entry("I", "Interactive rebase onto..."));
    v.push(text_entry("1-5", "Jump to panel"));
    v.push(text_entry("?", "Show this help"));
    assert(v@.map_values(|e: HelpEntry| entry_view(e)) =~= universal_help(*kb));
    v
}

/// The entries of the files section.
pub open spec fn files_help(kb: KeybindingConfig) -> Seq<(Seq<char>, Seq<char>)> {
    seq![
        ("<enter>"@, "Toggle dir / Focus diff"@),
        ("<space>"@, "Stage / Unstage"@),
        (kb.files.commit_changes@, "Commit"@),
        (kb.files.amend_last_commit@, "Amend last commit"@),
        (kb.files.commit_changes_with_editor@, "Commit with editor"@),
        (kb.files.toggle_staged_all@, "Toggle stage all"@),
        (kb.files.stash_all_changes@, "Stash changes"@),
        (kb.files.view_stash_options@, "Stash options"@),
        (kb.files.toggle_tree_view@, "Toggle tree view"@),
        (kb.files.fetch@, "Fetch"@),
        (kb.files.ignore_file@, "Ignore file"@),
        ("d"@, "Discard changes"@),
        (kb.universal.edit@, "Open in editor"@),
        (kb.universal.open_file@, "Open in default program"@),
        ("y"@, "Copy to clipboard menu"@),
    ]
}

fn files_entries(kb: &KeybindingConfig) -> (v: Vec<HelpEntry>)
    ensures
        v@.map_values(|e: HelpEntry| entry_view(e)) == files_help(*kb),
{
    let mut v: Vec<HelpEntry> = Vec::new();
    v.push(text_entry("<enter>", "Toggle dir / Focus diff"));
    v.push(text_entry("<space>", "Stage / Unstage"));
    v.push(key_entry(&kb.files.commit_changes, "Commit"));
    v.push(key_entry(&kb.files.amend_last_commit, "Amend last commit"));
    v.push(key_entry(&kb.files.commit_changes_with_editor, "Commit with editor"));
    v.push(key_entry(&kb.files.toggle_staged_all, "Toggle stage all"));
    v.push(key_entry(&kb.files.stash_all_changes, "Stash changes"));
    v.push(key_entry(&kb.files.view_stash_options, "Stash options"));
    v.push(key_entry(&kb.files.toggle_tree_view, "Toggle tree view"));
    v.push(key_entry(&kb.files.fetch, "Fetch"));
    v.push(key_entry(&kb.files.ignore_file, "Ignore file"));
    v.push(text_entry("d", "Discard changes"));
    v.push(key_entry(&kb.universal.edit, "Open in editor"));
    v.push(key_entry(&kb.universal.open_file, "Open in default program"));
    v.push(text_entry("y", "Copy to clipboard menu"));
    assert(v@.map_values(|e: HelpEntry| entry_view(e)) =~= files_help(*kb));
    v
}

/// The entries of the worktrees section.
pub open spec fn worktrees_help() -> Seq<(Seq<char>, Seq<char>)> {
    seq![
        ("<space>"@, "Switch to worktree"@),
        ("n"@, "Create worktree"@),
        ("d"@, "Remove worktree"@),
    ]
}

fn worktrees_entries() -> (v: Vec<HelpEntry>)
    ensures
        v@.map_values(|e: HelpEntry| entry_view(e)) == worktrees_help(),
{
    let mut v: Vec<HelpEntry> = Vec::new();
    v.push(text_entry("<space>", "Switch to worktree"));
    v.push(text_entry("n", "Create worktree"));
    v.push(text_entry("d", "Remove worktree"));
    assert(v@.map_values(|e: HelpEntry| entry_view(e)) =~= worktrees_help());
    v
}

/// The entries of the submodules section.
pub open spec fn submodules_help() -> Seq<(Seq<char>, Seq<char>)> {
    seq![
        ("<space>"@, "Update submodule"@),
        ("a"@, "Add submodule"@),
        ("d"@, "Remove submodule"@),
        ("e"@, "Enter submodule"@),
        ("u"@, "Update all submodules"@),
        ("i"@, "Init submodules"@),
    ]
}

fn submodules_entries() -> (v: Vec<HelpEntry>)
    ensures
        v@.map_values(|e: HelpEntry| entry_view(e)) == submodules_help(),
{
    let mut v: Vec<HelpEntry> = Vec::new();
    v.push(text_entry("<space>", "Update submodule"));
    v.push(text_entry("a", "Add submodule"));
    v.push(text_entry("d", "Remove submodule"));
    v.push(text_entry("e", "Enter submodule"));
    v.push(text_entry("u", "Update all submodules"));
    v.push(text_entry("i", "Init submodules"));
    assert(v@.map_values(|e: HelpEntry| entry_view(e)) =~= submodules_help());
    v
}

/// The entries of the branches section.
pub open spec fn branches_help(kb: KeybindingConfig) -> Seq<(Seq<char>, Seq<char>)> {
    seq![
        ("<enter>"@, "View branch commits"@),
        ("<space>"@, "Checkout branch"@),
        ("c"@, "Checkout ref"@),
        ("-"@, "Checkout previous branch"@),
        ("n"@, "New branch"@),
        ("d"@, "Delete branch"@),
        (kb.branches.merge_into_current_branch@, "Merge into current"@),
        (kb.branches.rebase_branch@, "Rebase"@),
        (kb.branches.rename_branch@, "Rename branch"@),
        (kb.branches.fast_forward@, "Fast-forward"@),
        (kb.branches.set_upstream@, "Set upstream"@),
        ("y"@, "Copy to clipboard menu"@),
        (kb.branches.create_pull_request@, "Open in browser menu"@),
    ]
}

fn branches_entries(kb: &KeybindingConfig) -> (v: Vec<HelpEntry>)
    ensures
        v@.map_values(|e: HelpEntry| entry_view(e)) == branches_help(*kb),
{
    let mut v: Vec<HelpEntry> = Vec::new();
    v.push(text_entry("<enter>", "View branch commits"));
    v.push(text_entry("<space>", "Checkout branch"));
    v.push(text_entry("c", "Checkout ref"));
    v.push(text_entry("-", "Checkout previous branch"));
    v.push(text_entry("n", "New branch"));
    v.push(text_entry("d", "Delete branch"));
    v.push(key_entry(&kb.branches.merge_into_current_branch, "Merge into current"));
    v.push(key_entry(&kb.branches.rebase_branch, "Rebase"));
    v.push(key_entry(&kb.branches.rename_branch, "Rename branch"));
    v.push(key_entry(&kb.branches.fast_forward, "Fast-forward"));
    v.push(key_entry(&kb.branches.set_upstream, "Set upstream"));
    v.push(text_entry("y", "Copy to clipboard menu"));
    v.push(key_entry(&kb.branches.create_pull_request, "Open in browser menu"));
    assert(v@.map_values(|e: HelpEntry| entry_view(e)) =~= branches_help(*kb));
    v
}

/// The entries of the branch commits section.
pub open spec fn branch_commits_help() -> Seq<(Seq<char>, Seq<char>)> {
    seq![
        ("<enter>"@, "View commit files"@),
        ("<esc>"@, "Back to branches"@),
    ]
}

fn branch_commits_entries() -> (v: Vec<HelpEntry>)
    ensures
        v@.map_values(|e: HelpEntry| entry_view(e)) == branch_commits_help(),
{
    let mut v: Vec<HelpEntry> = Vec::new();
    v.push(text_entry("<enter>", "View commit files"));
    v.push(text_entry("<esc>", "Back to branches"));
    assert(v@.map_values(|e: HelpEntry| entry_view(e)) =~= branch_commits_help());
    v
}

/// The entries of the commits section.
pub open spec fn commits_help(kb: KeybindingConfig) -> Seq<(Seq<char>, Seq<char>)> {
    seq![
        ("<enter>"@, "View commit files"@),
        (kb.commits.squash_down@, "Squash down"@),
        (kb.commits.rename_commit@, "Reword commit"@),
        (kb.commits.view_reset_options@, "Reset options"@),
        (kb.commits.mark_commit_as_fixup@, "Fixup commit"@),
        (kb.commits.create_fixup_commit@, "Create fixup commit"@),
        (kb.commits.squash_above_commits@, "Apply fixup commits"@),
        (kb.commits.move_up_commit@, "Move commit up"@),
        (kb.commits.move_down_commit@, "Move commit down"@),
        (kb.commits.amend_to_commit@, "Amend to commit"@),
        (kb.commits.pick_commit@, "Pick / Drop commit"@),
        (kb.commits.revert_commit@, "Revert commit"@),
        (kb.commits.cherry_pick_copy@, "Cherry-pick copy"@),
        (kb.commits.paste_commits@, "Paste commits"@),
        ("v"@, "Toggle range select"@),
        (kb.commits.tag_commit@, "Tag commit"@),
        (kb.commits.checkout_commit@, "Checkout commit"@),
        (kb.commits.view_bisect_options@, "Bisect options"@),
        ("o"@, "Open in browser"@),
        ("y"@, "Copy to clipboard menu"@),
        (kb.commits.interactive_rebase@, "Interactive rebase"@),
        (kb.commits.open_log_menu@, "Filter by branch"@),
    ]
}

fn commits_entries(kb: &KeybindingConfig) -> (v: Vec<HelpEntry>)
    ensures
        v@.map_values(|e: HelpEntry| entry_view(e)) == commits_help(*kb),
{
    let mut v: Vec<HelpEntry> = Vec::new();
    v.push(text_entry("<enter>", "View commit files"));
    v.push(key_entry(&kb.commits.squash_down, "Squash down"));
    v.push(key_entry(&kb.commits.rename_commit, "Reword commit"));
    v.push(key_entry(&kb.commits.view_reset_options, "Reset options"));
    v.push(key_entry(&kb.commits.mark_commit_as_fixup, "Fixup commit"));
    v.push(key_entry(&kb.commits.create_fixup_commit, "Create fixup commit"));
    v.push(key_entry(&kb.commits.squash_above_commits, "Apply fixup commits"));
    v.push(key_entry(&kb.commits.move_up_commit, "Move commit up"));
    v.push(key_entry(&kb.commits.move_down_commit, "Move commit down"));
    v.push(key_entry(&kb.commits.amend_to_commit, "Amend to commit"));
    v.push(key_entry(&kb.commits.pick_commit, "Pick / Drop commit"));
    v.push(key_entry(&kb.commits.revert_commit, "Revert commit"));
    v.push(key_entry(&kb.commits.cherry_pick_copy, "Cherry-pick copy"));
    v.push(key_entry(&kb.commits.paste_commits, "Paste commits"));
    v.push(text_entry("v", "Toggle range select"));
    v.push(key_entry(&kb.commits.tag_commit, "Tag commit"));
    v.push(key_entry(&kb.commits.checkout_commit, "Checkout commit"));
    v.push(key_entry(&kb.commits.view_bisect_options, "Bisect options"));
    v.push(text_entry("o", "Open in browser"));
    v.push(text_entry("y", "Copy to clipboard menu"));
    v.push(key_entry(&kb.commits.interactive_rebase, "Interactive rebase"));
    v.push(key_entry(&kb.commits.open_log_menu, "Filter by branch"));
    assert(v@.map_values(|e: HelpEntry| entry_view(e)) =~= commits_help(*kb));
    v
}

/// The entries of the commit files section.
pub open spec fn commit_files_help(kb: KeybindingConfig) -> Seq<(Seq<char>, Seq<char>)> {
    seq![
        ("<enter>"@, "Toggle dir / Focus diff"@),
        ("<esc>"@, "Back to commits"@),
        (kb.files.toggle_tree_view@, "Toggle tree view"@),
        ("y"@, "Copy to clipboard menu"@),
    ]
}

fn commit_files_entries(kb: &KeybindingConfig) -> (v: Vec<HelpEntry>)
    ensures
        v@.map_values(|e: HelpEntry| entry_view(e)) == commit_files_help(*kb),
{
    let mut v: Vec<HelpEntry> = Vec::new();
    v.push(text_entry("<enter>", "Toggle dir / Focus diff"));
    v.push(text_entry("<esc>", "Back to commits"));
    v.push(key_entry(&kb.files.toggle_tree_view, "Toggle tree view"));
    v.push(text_entry("y", "Copy to clipboard menu"));
    assert(v@.map_values(|e: HelpEntry| entry_view(e)) =~= commit_files_help(*kb));
    v
}

/// The entries of the reflog section.
pub open spec fn reflog_help(kb: KeybindingConfig) -> Seq<(Seq<char>, Seq<char>)> {
    seq![
        ("<enter>"@, "View commit files"@),
        (kb.commits.checkout_commit@, "Checkout commit"@),
        (kb.commits.view_reset_options@, "Reset options"@),
        (kb.commits.cherry_pick_copy@, "Cherry-pick"@),
        ("y"@, "Copy to clipboard menu"@),
    ]
}

fn reflog_entries(kb: &KeybindingConfig) -> (v: Vec<HelpEntry>)
    ensures
        v@.map_values(|e: HelpEntry| entry_view(e)) == reflog_help(*kb),
{
    let mut v: Vec<HelpEntry> = Vec::new();
    v.push(text_entry("<enter>", "View commit files"));
    v.push(key_entry(&kb.commits.checkout_commit, "Checkout commit"));
    v.push(key_entry(&kb.commits.view_reset_options, "Reset options"));
    v.push(key_entry(&kb.commits.cherry_pick_copy, "Cherry-pick"));
    v.push(text_entry("y", "Copy to clipboard menu"));
    assert(v@.map_values(|e: HelpEntry| entry_view(e)) =~= reflog_help(*kb));
    v
}

/// The entries of the stash section.
pub open spec fn stash_help(kb: KeybindingConfig) -> Seq<(Seq<char>, Seq<char>)> {
    seq![
        ("<enter>"@, "View stash files"@),
        ("<space>"@, "Apply stash"@),
        (kb.stash.pop_stash@, "Pop stash"@),
        (kb.stash.rename_stash@, "Rename stash"@),
        ("d"@, "Drop stash"@),
    ]
}

fn stash_entries(kb: &KeybindingConfig) -> (v: Vec<HelpEntry>)
    ensures
        v@.map_values(|e: HelpEntry| entry_view(e)) == stash_help(*kb),
{
    let mut v: Vec<HelpEntry> = Vec::new();
    v.push(text_entry("<enter>", "View stash files"));
    v.push(text_entry("<space>", "Apply stash"));
    v.push(key_entry(&kb.stash.pop_stash, "Pop stash"));
    v.push(key_entry(&kb.stash.rename_stash, "Rename stash"));
    v.push(text_entry("d", "Drop stash"));
    assert(v@.map_values(|e: HelpEntry| entry_view(e)) =~= stash_help(*kb));
    v
}

/// The entries of the stash files section.
pub open spec fn stash_files_help(kb: KeybindingConfig) -> Seq<(Seq<char>, Seq<char>)> {
    seq![
        ("<enter>"@, "Toggle dir / Focus diff"@),
        ("<esc>"@, "Back to stash"@),
        (kb.files.toggle_tree_view@, "Toggle tree view"@),
        ("y"@, "Copy to clipboard menu"@),
    ]
}

fn stash_files_entries(kb: &KeybindingConfig) -> (v: Vec<HelpEntry>)
    ensures
        v@.map_values(|e: HelpEntry| entry_view(e)) == stash_files_help(*kb),
{
    let mut v: Vec<HelpEntry> = Vec::new();
    v.push(text_entry("<enter>", "Toggle dir / Focus diff"));
    v.push(text_entry("<esc>", "Back to stash"));
    v.push(key_entry(&kb.files.toggle_tree_view, "Toggle tree view"));
    v.push(text_entry("y", "Copy to clipboard menu"));
    assert(v@.map_values(|e: HelpEntry| entry_view(e)) =~= stash_files_help(*kb));
    v
}

/// The entries of the remotes section.
pub open spec fn remotes_help(kb: KeybindingConfig) -> Seq<(Seq<char>, Seq<char>)> {
    seq![
        ("<enter>"@, "View remote branches"@),
        ("f"@, "Fetch from remote"@),
        ("n"@, "Add new remote"@),
        ("d"@, "Delete remote"@),
        (kb.universal.push_files@, "Push"@),
        (kb.universal.pull_files@, "Pull"@),
    ]
}

fn remotes_entries(kb: &KeybindingConfig) -> (v: Vec<HelpEntry>)
    ensures
        v@.map_values(|e: HelpEntry| entry_view(e)) == remotes_help(*kb),
{
    let mut v: Vec<HelpEntry> = Vec::new();
    v.push(text_entry("<enter>", "View remote branches"));
    v.push(text_entry("f", "Fetch from remote"));
    v.push(text_entry("n", "Add new remote"));
    v.push(text_entry("d", "Delete remote"));
    v.push(key_entry(&kb.universal.push_files, "Push"));
    v.push(key_entry(&kb.universal.pull_files, "Pull"));
    assert(v@.map_values(|e: HelpEntry| entry_view(e)) =~= remotes_help(*kb));
    v
}

/// The entries of the remote branches section.
pub open spec fn remote_branches_help(kb: KeybindingConfig) -> Seq<(Seq<char>, Seq<char>)> {
    seq![
        ("<space>"@, "Checkout as local branch"@),
        (kb.branches.merge_into_current_branch@, "Merge into current"@),
        (kb.branches.rebase_branch@, "Rebase"@),
        ("d"@, "Delete remote branch"@),
        ("<esc>"@, "Back to remotes"@),
    ]
}

fn remote_branches_entries(kb: &KeybindingConfig) -> (v: Vec<HelpEntry>)
    ensures
        v@.map_values(|e: HelpEntry| entry_view(e)) == remote_branches_help(*kb),
{
    let mut v: Vec<HelpEntry> = Vec::new();
    v.push(text_entry("<space>", "Checkout as local branch"));
    v.push(key_entry(&kb.branches.merge_into_current_branch, "Merge into current"));
    v.push(key_entry(&kb.branches.rebase_branch, "Rebase"));
    v.push(text_entry("d", "Delete remote branch"));
    v.push(text_entry("<esc>", "Back to remotes"));
    assert(v@.map_values(|e: HelpEntry| entry_view(e)) =~= remote_branches_help(*kb));
    v
}

/// The entries of the tags section.
pub open spec fn tags_help() -> Seq<(Seq<char>, Seq<char>)> {
    seq![
        ("<enter>"@, "View tag commits"@),
        ("n"@, "Create tag"@),
        ("d"@, "Delete tag"@),
        ("P"@, "Push tag"@),
        ("g"@, "Reset options"@),
    ]
}

fn tags_entries() -> (v: Vec<HelpEntry>)
    ensures
        v@.map_values(|e: HelpEntry| entry_view(e)) == tags_help(),
{
    let mut v: Vec<HelpEntry> = Vec::new();
    v.push(text_entry("<enter>", "View tag commits"));
    v.push(text_entry("n", "Create tag"));
    v.push(text_entry("d", "Delete tag"));
    v.push(text_entry("P", "Push tag"));
    v.push(text_entry("g", "Reset options"));
    assert(v@.map_values(|e: HelpEntry| entry_view(e)) =~= tags_help());
    v
}

/// The entries of the status section.
pub open spec fn status_help() -> Seq<(Seq<char>, Seq<char>)> {
    seq![
        ("<enter>"@, "Recent repos"@),
    ]
}

fn status_entries() -> (v: Vec<HelpEntry>)
    ensures
        v@.map_values(|e: HelpEntry| entry_view(e)) == status_help(),
{
    let mut v: Vec<HelpEntry> = Vec::new();
    v.push(text_entry("<enter>", "Recent repos"));
    assert(v@.map_values(|e: HelpEntry| entry_view(e)) =~= status_help());
    v
}

/// The section of the keys of list `active`: its title and entries.
pub open spec fn context_help(kb: KeybindingConfig, active: ContextId) -> (Seq<char>, Seq<(Seq<char>, Seq<char>)>) {
    match active {
        ContextId::Files => ("Files"@, files_help(kb)),
        ContextId::Worktrees => ("Worktrees"@, worktrees_help()),
        ContextId::Submodules => ("Submodules"@, submodules_help()),
        ContextId::Branches => ("Branches"@, branches_help(kb)),
        ContextId::BranchCommits | ContextId::BranchCommitFiles => ("Branch Commits"@, branch_commits_help()),
        ContextId::Commits => ("Commits"@, commits_help(kb)),
        ContextId::CommitFiles => ("Commit Files"@, commit_files_help(kb)),
        ContextId::Reflog => ("Reflog"@, reflog_help(kb)),
        ContextId::Stash => ("Stash"@, stash_help(kb)),
        ContextId::StashFiles => ("Stash Files"@, stash_files_help(kb)),
        ContextId::Remotes => ("Remotes"@, remotes_help(kb)),
        ContextId::RemoteBranches => ("Remote Branches"@, remote_branches_help(kb)),
        ContextId::Tags => ("Tags"@, tags_help()),
        ContextId::Status => ("Status"@, status_help()),
    }
}

/// The help popup of the side panels: the section of the active list's keys, then the
/// universal keys.
pub open spec fn help_of(kb: KeybindingConfig, active: ContextId) -> Seq<(Seq<char>, Seq<(Seq<char>, Seq<char>)>)> {
    seq![context_help(kb, active), ("Universal"@, universal_help(kb))]
}

fn context_section(kb: &KeybindingConfig, active: ContextId) -> (s: HelpSection)
    ensures
        section_view(s) == context_help(*kb, active),
{
    let s = match active {
        ContextId::Files => section("Files", files_entries(kb)),
        ContextId::Worktrees => section("Worktrees", worktrees_entries()),
        ContextId::Submodules => section("Submodules", submodules_entries()),
        ContextId::Branches => section("Branches", branches_entries(kb)),
        ContextId::BranchCommits | ContextId::BranchCommitFiles => section("Branch Commits", branch_commits_entries()),
        ContextId::Commits => section("Commits", commits_entries(kb)),
        ContextId::CommitFiles => section("Commit Files", commit_files_entries(kb)),
        ContextId::Reflog => section("Reflog", reflog_entries(kb)),
        ContextId::Stash => section("Stash", stash_entries(kb)),
        ContextId::StashFiles => section("Stash Files", stash_files_entries(kb)),
        ContextId::Remotes => section("Remotes", remotes_entries(kb)),
        ContextId::RemoteBranches => section("Remote Branches", remote_branches_entries(kb)),
        ContextId::Tags => section("Tags", tags_entries()),
        ContextId::Status => section("Status", status_entries()),
    };
    s
}

/// The help popup of the side panels, for the bindings `kb` and the active list `active`.
pub fn help_sections(kb: &KeybindingConfig, active: ContextId) -> (r: Vec<HelpSection>)
    ensures
        sections_view(r@) == help_of(*kb, active),
{
    let mut r: Vec<HelpSection> = Vec::new();
    r.push(context_section(kb, active));
    r.push(section("Universal", universal_entries(kb)));
    assert(sections_view(r@) =~= help_of(*kb, active));
    r
}

/// The entries of the diff viewer's help.
pub open spec fn diff_view_help() -> Seq<(Seq<char>, Seq<char>)> {
    seq![
        ("j/k"@, "Scroll down / up"@),
        ("h/l"@, "Scroll left / right"@),
        ("{/}"@, "Previous / next hunk"@),
        ("["@, "Toggle old-only view"@),
        ("]"@, "Toggle new-only view"@),
        ("z"@, "Toggle line wrap"@),
        ("g/G"@, "Go to top / bottom"@),
        ("PgUp/PgDn"@, "Page up / down"@),
        ("/"@, "Search in diff"@),
        ("n/N"@, "Next / previous search match"@),
        ("e"@, "Edit file at line"@),
        ("y"@, "Copy selected text"@),
        ("q"@, "Quit"@),
        ("+/_"@, "Enlarge / shrink panel"@),
        (";"@, "Toggle command log"@),
        ("1-5"@, "Jump to sidebar panel"@),
        ("esc"@, "Return to sidebar"@),
        ("?"@, "Show this help"@),
    ]
}

fn diff_view_entries() -> (v: Vec<HelpEntry>)
    ensures
        v@.map_values(|e: HelpEntry| entry_view(e)) == diff_view_help(),
{
    let mut v: Vec<HelpEntry> = Vec::new();
    v.push(text_entry("j/k", "Scroll down / up"));
    v.push(text_entry("h/l", "Scroll left / right"));
    v.push(text_entry("{/}", "Previous / next hunk"));
    v.push(text_entry("[", "Toggle old-only view"));
    v.push(text_entry("]", "Toggle new-only view"));
    v.push(text_entry("z", "Toggle line wrap"));
    v.push(text_entry("g/G", "Go to top / bottom"));
    v.push(text_entry("PgUp/PgDn", "Page up / down"));
    v.push(text_entry("/", "Search in diff"));
    v.push(text_entry("n/N", "Next / previous search match"));
    v.push(text_entry("e", "Edit file at line"));
    v.push(text_entry("y", "Copy selected text"));
    v.push(text_entry("q", "Quit"));
    v.push(text_entry("+/_", "Enlarge / shrink panel"));
    v.push(text_entry(";", "Toggle command log"));
    v.push(text_entry("1-5", "Jump to sidebar panel"));
    v.push(text_entry("esc", "Return to sidebar"));
    v.push(text_entry("?", "Show this help"));
    assert(v@.map_values(|e: HelpEntry| entry_view(e)) =~= diff_view_help());
    v
}

/// The help popup of the focused diff panel: one section.
pub open spec fn diff_help() -> Seq<(Seq<char>, Seq<(Seq<char>, Seq<char>)>)> {
    seq![("Diff Viewer"@, diff_view_help())]
}

/// The help popup of the focused diff panel.
pub fn diff_help_sections() -> (r: Vec<HelpSection>)
    ensures
        sections_view(r@) == diff_help(),
{
    let mut r: Vec<HelpSection> = Vec::new();
    r.push(section("Diff Viewer", diff_view_entries()));
    assert(sections_view(r@) =~= diff_help());
    r
}

/// The entries of the compare view's own keys.
pub open spec fn compare_view_help() -> Seq<(Seq<char>, Seq<char>)> {
    seq![
        ("q"@, "Exit diff mode"@),
        ("Tab"@, "Cycle focus (A → B → Files → Diff)"@),
        ("1-4"@, "Jump to panel"@),
        ("<c-s>"@, "Swap A and B"@),
        ("<enter>"@, "Edit selector / Focus diff"@),
        ("`"@, "Toggle file tree view"@),
        ("j/k"@, "Navigate files / Scroll diff"@),
        ("{/}"@, "Previous / next hunk"@),
        ("[/]"@, "Toggle old / new only view"@),
        ("g/G"@, "Go to top / bottom"@),
        ("?"@, "Show this help"@),
    ]
}

fn compare_view_entries() -> (v: Vec<HelpEntry>)
    ensures
        v@.map_values(|e: HelpEntry| entry_view(e)) == compare_view_help(),
{
    let mut v: Vec<HelpEntry> = Vec::new();
    v.push(text_entry("q", "Exit diff mode"));
    v.push(text_entry("Tab", "Cycle focus (A → B → Files → Diff)"));
    v.push(text_entry("1-4", "Jump to panel"));
    v.push(text_entry("<c-s>", "Swap A and B"));
    v.push(text_entry("<enter>", "Edit selector / Focus diff"));
    v.push(text_entry("`", "Toggle file tree view"));
    v.push(text_entry("j/k", "Navigate files / Scroll diff"));
    v.push(text_entry("{/}", "Previous / next hunk"));
    v.push(text_entry("[/]", "Toggle old / new only view"));
    v.push(text_entry("g/G", "Go to top / bottom"));
    v.push(text_entry("?", "Show this help"));
    assert(v@.map_values(|e: HelpEntry| entry_view(e)) =~= compare_view_help());
    v
}

/// The entries of a selector being edited in the compare view.
pub open spec fn selector_help() -> Seq<(Seq<char>, Seq<char>)> {
    seq![
        ("<enter>"@, "Confirm selection"@),
        ("<esc>"@, "Cancel"@),
        ("Up/Down"@, "Navigate results"@),
        ("Type"@, "Filter branches, tags, commits, remotes"@),
    ]
}

fn selector_entries() -> (v: Vec<HelpEntry>)
    ensures
        v@.map_values(|e: HelpEntry| entry_view(e)) == selector_help(),
{
    let mut v: Vec<HelpEntry> = Vec::new();
    v.push(text_entry("<enter>", "Confirm selection"));
    v.push(text_entry("<esc>", "Cancel"));
    v.push(text_entry("Up/Down", "Navigate results"));
    v.push(text_entry("Type", "Filter branches, tags, commits, remotes"));
    assert(v@.map_values(|e: HelpEntry| entry_view(e)) =~= selector_help());
    v
}

/// The help popup of the compare view: its own keys, then those of a selector being edited.
pub open spec fn compare_help() -> Seq<(Seq<char>, Seq<(Seq<char>, Seq<char>)>)> {
    seq![
        ("Compare / Diff Mode"@, compare_view_help()),
        ("Combobox (while editing A or B)"@, selector_help()),
    ]
}

/// The help popup of the compare view.
pub fn compare_help_sections() -> (r: Vec<HelpSection>)
    ensures
        sections_view(r@) == compare_help(),
{
    let mut r: Vec<HelpSection> = Vec::new();
    r.push(section("Compare / Diff Mode", compare_view_entries()));
    r.push(section("Combobox (while editing A or B)", selector_entries()));
    assert(sections_view(r@) =~= compare_help());
    r
}

} // verus!
