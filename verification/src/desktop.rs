//! The desktop shell's view state: which screen a route shows, which
//! navigation entry is highlighted, and how the sync mode is shown.
use vstd::prelude::*;

verus! {

/// How the sync engine runs: only while the app is open, or as a daemon.
#[derive(Clone, Copy, Debug, PartialEq, Eq, Structural)]
pub enum SyncMode {
    AppBound,
    Daemon,
}

/// The screens of the workspace.
#[derive(Clone, Copy, Debug, PartialEq, Eq)]
pub enum Screen {
    Study,
    Vault,
    Sync,
    NotFound,
}

/// The screen a route names: "study", "vault" or "sync"; any other route is
/// not found.
pub open spec fn screen_of(route: Seq<char>) -> Screen {
    if route == "study"@ {
        Screen::Study
    } else if route == "vault"@ {
        Screen::Vault
    } else if route == "sync"@ {
        Screen::Sync
    } else {
        Screen::NotFound
    }
}

/// The navigation entry `entry` is highlighted when the current route is `current`.
pub open spec fn nav_active(current: Seq<char>, entry: Seq<char>) -> bool {
    current == entry
}

/// The screen a route shows.
pub fn screen_for(route: &str) -> (r: Screen)
    ensures
        r == screen_of(route@),
{
    proof {
        reveal_strlit("study");
        reveal_strlit("vault");
        reveal_strlit("sync");
        assert("study"@[0] != "vault"@[0]);
        assert("study"@[1] != "sync"@[1]);
        assert("vault"@[0] != "sync"@[0]);
    }
    if crate::auth::str_eq(route, "study") {
        Screen::Study
    } else if crate::auth::str_eq(route, "vault") {
        Screen::Vault
    } else if crate::auth::str_eq(route, "sync") {
        Screen::Sync
    } else {
        Screen::NotFound
    }
}

/// The CSS class of a navigation entry: "active" for the current route,
/// empty otherwise.
pub fn nav_class(current: &str, entry: &str) -> (r: &'static str)
    ensures
        nav_active(current@, entry@) ==> r@ == "active"@,
        !nav_active(current@, entry@) ==> r@ == ""@,
{
    if crate::auth::str_eq(current, entry) {
        "active"
    } else {
        ""
    }
}

/// The sidebar's sync status line.
pub fn sync_status(mode: SyncMode) -> (r: &'static str)
    ensures
        mode == SyncMode::Daemon ==> r@ == "🟢 Sync: 24/7 (Daemon)"@,
        mode == SyncMode::AppBound ==> r@ == "🟡 Sync: Active (App-bound)"@,
{
    match mode {
        SyncMode::Daemon => "🟢 Sync: 24/7 (Daemon)",
        SyncMode::AppBound => "🟡 Sync: Active (App-bound)",
    }
}

/// The CSS class of a sync-mode toggle: "active" for the mode in force,
/// empty otherwise.
pub fn mode_class(current: SyncMode, button: SyncMode) -> (r: &'static str)
    ensures
        current == button ==> r@ == "active"@,
        current != button ==> r@ == ""@,
{
    if current == button {
        "active"
    } else {
        ""
    }
}

/// Law (the sidebar agrees with the workspace): for any current route,
/// the highlighted entries among "study", "vault" and "sync" are exactly the
/// one whose screen the workspace shows, so at most one is highlighted, and
/// none when the route is not found.
pub proof fn lemma_nav_matches_screen(current: Seq<char>)
    ensures
        nav_active(current, "study"@) <==> screen_of(current) == Screen::Study,
        nav_active(current, "vault"@) <==> screen_of(current) == Screen::Vault,
        nav_active(current, "sync"@) <==> screen_of(current) == Screen::Sync,
        screen_of(current) == Screen::NotFound ==> !nav_active(current, "study"@) && !nav_active(
            current,
            "vault"@,
        ) && !nav_active(current, "sync"@),
{
    reveal_strlit("study");
    reveal_strlit("vault");
    reveal_strlit("sync");
    assert("study"@[0] != "vault"@[0]);
    assert("study"@[1] != "sync"@[1]);
    assert("vault"@[0] != "sync"@[0]);
}

} // verus!
