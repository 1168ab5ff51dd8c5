//! Where things are kept: the path of each place, as the names that lead to it.

use vstd::prelude::*;
use vstd::string::*;

use crate::credentials::{is_account_id, is_any_hex_digit};
use crate::effects::{Home, HomeFile, HomeView, Place, PlaceView};
use crate::text::{join2, join3, no_texts, views};
use crate::world::is_file;

verus! {

/// The directory that a path starts from: the home of Codex, or the data directory of the hub.
#[derive(Clone, Copy, Debug, PartialEq, Eq, Structural)]
pub enum Base {
    CodexHome,
    DataDir,
}

/// The name of a file of a home.
pub open spec fn file_text(file: HomeFile) -> Seq<char> {
    match file {
        HomeFile::Auth => "auth.json"@,
        HomeFile::AuthDraft => ".auth.json.tmp"@,
        HomeFile::SwitchDraft => ".auth.json.codex-account-hub.tmp"@,
        HomeFile::Child => "hub-child.json"@,
    }
}

/// The path of a home.
pub open spec fn home_route(home: HomeView) -> (Base, Seq<Seq<char>>) {
    match home {
        HomeView::Active => (Base::CodexHome, seq![]),
        HomeView::Login(name) => (Base::DataDir, seq!["login"@, name]),
        HomeView::Runtime(id) => (Base::DataDir, seq!["runtime"@, id]),
    }
}

/// The path of a place: where it starts, and the names that lead to it.
pub open spec fn route(place: PlaceView) -> (Base, Seq<Seq<char>>) {
    match place {
        PlaceView::InHome(home, file) => (
            home_route(home).0,
            home_route(home).1.push(file_text(file)),
        ),
        PlaceView::HomeDir(home) => home_route(home),
        PlaceView::LoginRoot => (Base::DataDir, seq!["login"@]),
        PlaceView::RuntimeRoot => (Base::DataDir, seq!["runtime"@]),
        PlaceView::DataDir => (Base::DataDir, seq![]),
        PlaceView::VaultDir => (Base::DataDir, seq!["vault"@]),
        PlaceView::BackupDir => (Base::DataDir, seq!["switch-backups"@]),
        PlaceView::Vault(id) => (Base::DataDir, seq!["vault"@, id + ".dpapi"@]),
        PlaceView::Staged(id) => (Base::DataDir, seq!["vault"@, "."@ + id + ".deleting"@]),
        PlaceView::Backup(name) => (Base::DataDir, seq!["switch-backups"@, name]),
        PlaceView::Journal => (Base::DataDir, seq!["switch-transaction.dpapi"@]),
    }
}

/// The name of a file of a home.
pub fn file_name(file: HomeFile) -> (r: String)
    ensures
        r@ == file_text(file),
{
    match file {
        HomeFile::Auth => "auth.json".to_owned(),
        HomeFile::AuthDraft => ".auth.json.tmp".to_owned(),
        HomeFile::SwitchDraft => ".auth.json.codex-account-hub.tmp".to_owned(),
        HomeFile::Child => "hub-child.json".to_owned(),
    }
}

/// A list of one name.
fn one_name(name: String) -> (r: Vec<String>)
    ensures
        views(r@) == seq![name@],
{
    let mut names: Vec<String> = Vec::new();
    names.push(name);
    assert(views(names@) =~= seq![name@]);
    names
}

/// A list of two names.
fn two_names(first: String, second: String) -> (r: Vec<String>)
    ensures
        views(r@) == seq![first@, second@],
{
    let mut names: Vec<String> = Vec::new();
    names.push(first);
    names.push(second);
    assert(views(names@) =~= seq![first@, second@]);
    names
}

/// The path of a home.
pub fn home_path(home: &Home) -> (r: (Base, Vec<String>))
    ensures
        r.0 == home_route(home@).0,
        views(r.1@) == home_route(home@).1,
{
    match home {
        Home::Active => (Base::CodexHome, no_texts()),
        Home::Login(name) => (Base::DataDir, two_names("login".to_owned(), name.clone())),
        Home::Runtime(id) => (Base::DataDir, two_names("runtime".to_owned(), id.clone())),
    }
}

/// The path of a place.
pub fn place_path(place: &Place) -> (r: (Base, Vec<String>))
    ensures
        r.0 == route(place@).0,
        views(r.1@) == route(place@).1,
{
    match place {
        Place::InHome(home, file) => {
            let (base, mut names) = home_path(home);
            let ghost before = names@;
            names.push(file_name(*file));
            assert(views(names@) =~= views(before).push(file_text(*file)));
            (base, names)
        },
        Place::HomeDir(home) => home_path(home),
        Place::LoginRoot => (Base::DataDir, one_name("login".to_owned())),
        Place::RuntimeRoot => (Base::DataDir, one_name("runtime".to_owned())),
        Place::DataDir => (Base::DataDir, no_texts()),
        Place::VaultDir => (Base::DataDir, one_name("vault".to_owned())),
        Place::BackupDir => (Base::DataDir, one_name("switch-backups".to_owned())),
        Place::Vault(id) => (
            Base::DataDir,
            two_names("vault".to_owned(), join2(id.as_str(), ".dpapi")),
        ),
        Place::Staged(id) => (
            Base::DataDir,
            two_names("vault".to_owned(), join3(".", id.as_str(), ".deleting")),
        ),
        Place::Backup(name) => (
            Base::DataDir,
            two_names("switch-backups".to_owned(), name.clone()),
        ),
        Place::Journal => (Base::DataDir, one_name("switch-transaction.dpapi".to_owned())),
    }
}

/// The path of the account index.
pub fn index_path() -> (r: (Base, Vec<String>))
    ensures
        r.0 == Base::DataDir,
        views(r.1@) == seq!["accounts.json"@],
{
    (Base::DataDir, one_name("accounts.json".to_owned()))
}

/// The path of the usage cache.
pub fn cache_path() -> (r: (Base, Vec<String>))
    ensures
        r.0 == Base::DataDir,
        views(r.1@) == seq!["usage-cache.json"@],
{
    (Base::DataDir, one_name("usage-cache.json".to_owned()))
}

/// Whether a character can part the names of a path or name a drive.
pub open spec fn is_separator(c: char) -> bool {
    c == '/' || c == '\\' || c == ':'
}

/// The id of an account cannot lead out of the directories that are its own: in the names made of
/// it nothing parts one name from another, and none is a way up.
pub proof fn law_account_id_stays_in_its_directory(id: Seq<char>)
    requires
        is_account_id(id),
    ensures
        forall|i: int, j: int|
            #![trigger route(PlaceView::Vault(id)).1[i][j]]
            0 <= i < 2 && 0 <= j < route(PlaceView::Vault(id)).1[i].len() ==> !is_separator(
                route(PlaceView::Vault(id)).1[i][j],
            ),
        forall|i: int, j: int|
            #![trigger route(PlaceView::HomeDir(HomeView::Runtime(id))).1[i][j]]
            0 <= i < 2 && 0 <= j < route(PlaceView::HomeDir(HomeView::Runtime(id))).1[i].len()
                ==> !is_separator(route(PlaceView::HomeDir(HomeView::Runtime(id))).1[i][j]),
        id != "."@,
        id != ".."@,
{
    reveal_strlit("vault");
    reveal_strlit("runtime");
    reveal_strlit(".dpapi");
    reveal_strlit(".");
    reveal_strlit("..");
    assert forall|j: int| 0 <= j < (id + ".dpapi"@).len() implies !is_separator(
        (id + ".dpapi"@)[j],
    ) by {
        if j < id.len() {
            assert(is_any_hex_digit(id[j]));
        }
    }
    assert forall|j: int| 0 <= j < id.len() implies !is_separator(#[trigger] id[j]) by {
        assert(is_any_hex_digit(id[j]));
    }
}

/// Whether the names in a place are those of accounts where they have to be.
pub open spec fn is_proper(place: PlaceView) -> bool {
    match place {
        PlaceView::Vault(id) => is_account_id(id),
        PlaceView::Staged(id) => is_account_id(id),
        _ => true,
    }
}

/// Files in different places are different files.
pub proof fn law_files_are_apart(a: PlaceView, b: PlaceView)
    requires
        is_file(a),
        is_file(b),
        is_proper(a),
        is_proper(b),
        a != b,
    ensures
        route(a) != route(b),
{
    lemma_names_apart();
    let (left, right) = (route(a).1, route(b).1);
    if route(a) == route(b) {
        assert(left.len() == right.len());
        match a {
            PlaceView::InHome(home, file) => {
                assert(left.last() == file_text(file));
                match b {
                    PlaceView::InHome(other, f) => {
                        assert(right.last() == file_text(f));
                        assert(file == f);
                        assert(left.drop_last() =~= home_route(home).1);
                        assert(right.drop_last() =~= home_route(other).1);
                        match home {
                            HomeView::Active => {},
                            HomeView::Login(name) => {
                                assert(home_route(home).1[0] == "login"@);
                                assert(home_route(home).1[1] == name);
                                if let HomeView::Login(n) = other {
                                    assert(home_route(other).1[1] == n);
                                } else if let HomeView::Runtime(n) = other {
                                    assert(home_route(other).1[0] == "runtime"@);
                                }
                            },
                            HomeView::Runtime(name) => {
                                assert(home_route(home).1[0] == "runtime"@);
                                assert(home_route(home).1[1] == name);
                                if let HomeView::Runtime(n) = other {
                                    assert(home_route(other).1[1] == n);
                                } else if let HomeView::Login(n) = other {
                                    assert(home_route(other).1[0] == "login"@);
                                }
                            },
                        }
                    },
                    _ => {
                        assert(home_route(home).0 == Base::DataDir);
                        assert(left.len() == 3);
                    },
                }
            },
            PlaceView::Vault(id) => {
                assert(left[0] == "vault"@ && left[1] == id + ".dpapi"@);
                match b {
                    PlaceView::Vault(other) => {
                        assert(right[1] == other + ".dpapi"@);
                        assert((id + ".dpapi"@).take(24) =~= id);
                        assert((other + ".dpapi"@).take(24) =~= other);
                    },
                    PlaceView::Staged(other) => {
                        assert(right[1] == "."@ + other + ".deleting"@);
                        assert((id + ".dpapi"@).len() == 30);
                        assert(("."@ + other + ".deleting"@).len() == 34);
                    },
                    PlaceView::Backup(name) => {
                        assert(right[0] == "switch-backups"@);
                    },
                    PlaceView::InHome(other, _) => {
                        assert(home_route(other).0 == Base::DataDir);
                        assert(right.len() == 3);
                    },
                    _ => {
                        assert(right.len() == 1);
                    },
                }
            },
            PlaceView::Staged(id) => {
                assert(left[0] == "vault"@ && left[1] == "."@ + id + ".deleting"@);
                match b {
                    PlaceView::Staged(other) => {
                        assert(right[1] == "."@ + other + ".deleting"@);
                        assert(("."@ + id + ".deleting"@).subrange(1, 25) =~= id);
                        assert(("."@ + other + ".deleting"@).subrange(1, 25) =~= other);
                    },
                    PlaceView::Vault(other) => {
                        assert(right[1] == other + ".dpapi"@);
                        assert((other + ".dpapi"@).len() == 30);
                        assert(("."@ + id + ".deleting"@).len() == 34);
                    },
                    PlaceView::Backup(name) => {
                        assert(right[0] == "switch-backups"@);
                    },
                    PlaceView::InHome(other, _) => {
                        assert(home_route(other).0 == Base::DataDir);
                        assert(right.len() == 3);
                    },
                    _ => {
                        assert(right.len() == 1);
                    },
                }
            },
            PlaceView::Backup(name) => {
                assert(left[0] == "switch-backups"@ && left[1] == name);
                match b {
                    PlaceView::Backup(other) => {
                        assert(right[1] == other);
                    },
                    PlaceView::Vault(_) | PlaceView::Staged(_) => {
                        assert(right[0] == "vault"@);
                    },
                    PlaceView::InHome(other, _) => {
                        assert(home_route(other).0 == Base::DataDir);
                        assert(right.len() == 3);
                    },
                    _ => {
                        assert(right.len() == 1);
                    },
                }
            },
            _ => {
                assert(left.len() == 1);
                if let PlaceView::InHome(other, _) = b {
                    assert(home_route(other).0 == Base::DataDir);
                    assert(right.len() == 3);
                }
            },
        }
    }
}

/// The names of directories and files differ from each other.
proof fn lemma_names_apart()
    ensures
        "login"@ != "runtime"@,
        "vault"@ != "switch-backups"@,
        forall|a: HomeFile, b: HomeFile|
            #[trigger] file_text(a) == #[trigger] file_text(b) ==> a == b,
        ".dpapi"@.len() == 6,
        "."@.len() == 1,
        ".deleting"@.len() == 9,
{
    reveal_strlit("login");
    reveal_strlit("runtime");
    reveal_strlit("vault");
    reveal_strlit("switch-backups");
    reveal_strlit("auth.json");
    reveal_strlit(".auth.json.tmp");
    reveal_strlit(".auth.json.codex-account-hub.tmp");
    reveal_strlit("hub-child.json");
    reveal_strlit(".dpapi");
    reveal_strlit(".");
    reveal_strlit(".deleting");
    assert("login"@.len() == 5 && "runtime"@.len() == 7);
    assert("vault"@.len() == 5 && "switch-backups"@.len() == 14);
    assert("auth.json"@.len() == 9 && ".auth.json.tmp"@.len() == 14);
    assert(".auth.json.codex-account-hub.tmp"@.len() == 32 && "hub-child.json"@.len() == 14);
    assert(".auth.json.tmp"@[0] == '.' && "hub-child.json"@[0] == 'h');
}

/// Where each file is: the credentials of Codex in its own home, everything else in the data
/// directory of the hub, each account under its id.
pub proof fn law_places_of_the_files(id: Seq<char>, name: Seq<char>)
    ensures
        route(PlaceView::InHome(HomeView::Active, HomeFile::Auth)) == (
            Base::CodexHome,
            seq!["auth.json"@],
        ),
        route(PlaceView::InHome(HomeView::Active, HomeFile::SwitchDraft)) == (
            Base::CodexHome,
            seq![".auth.json.codex-account-hub.tmp"@],
        ),
        route(PlaceView::InHome(HomeView::Runtime(id), HomeFile::Auth)) == (
            Base::DataDir,
            seq!["runtime"@, id, "auth.json"@],
        ),
        route(PlaceView::InHome(HomeView::Runtime(id), HomeFile::AuthDraft)) == (
            Base::DataDir,
            seq!["runtime"@, id, ".auth.json.tmp"@],
        ),
        route(PlaceView::InHome(HomeView::Runtime(id), HomeFile::Child)) == (
            Base::DataDir,
            seq!["runtime"@, id, "hub-child.json"@],
        ),
        route(PlaceView::InHome(HomeView::Login(name), HomeFile::Auth)) == (
            Base::DataDir,
            seq!["login"@, name, "auth.json"@],
        ),
        route(PlaceView::InHome(HomeView::Login(name), HomeFile::Child)) == (
            Base::DataDir,
            seq!["login"@, name, "hub-child.json"@],
        ),
        route(PlaceView::HomeDir(HomeView::Active)) == (Base::CodexHome, Seq::<Seq<char>>::empty()),
        route(PlaceView::HomeDir(HomeView::Login(name))) == (Base::DataDir, seq!["login"@, name]),
        route(PlaceView::HomeDir(HomeView::Runtime(id))) == (Base::DataDir, seq!["runtime"@, id]),
        route(PlaceView::LoginRoot) == (Base::DataDir, seq!["login"@]),
        route(PlaceView::RuntimeRoot) == (Base::DataDir, seq!["runtime"@]),
        route(PlaceView::DataDir) == (Base::DataDir, Seq::<Seq<char>>::empty()),
        route(PlaceView::VaultDir) == (Base::DataDir, seq!["vault"@]),
        route(PlaceView::BackupDir) == (Base::DataDir, seq!["switch-backups"@]),
        route(PlaceView::Vault(id)) == (Base::DataDir, seq!["vault"@, id + ".dpapi"@]),
        route(PlaceView::Staged(id)) == (Base::DataDir, seq!["vault"@, "."@ + id + ".deleting"@]),
        route(PlaceView::Backup(name)) == (Base::DataDir, seq!["switch-backups"@, name]),
        route(PlaceView::Journal) == (Base::DataDir, seq!["switch-transaction.dpapi"@]),
{
    assert(Seq::<Seq<char>>::empty().push("auth.json"@) =~= seq!["auth.json"@]);
    assert(Seq::<Seq<char>>::empty().push(".auth.json.codex-account-hub.tmp"@) =~= seq![
        ".auth.json.codex-account-hub.tmp"@,
    ]);
    assert(seq!["runtime"@, id].push("auth.json"@) =~= seq!["runtime"@, id, "auth.json"@]);
    assert(
        seq!["runtime"@, id].push(".auth.json.tmp"@) =~= seq!["runtime"@, id, ".auth.json.tmp"@]
    );
    assert(
        seq!["runtime"@, id].push("hub-child.json"@) =~= seq!["runtime"@, id, "hub-child.json"@]
    );
    assert(seq!["login"@, name].push("auth.json"@) =~= seq!["login"@, name, "auth.json"@]);
    assert(
        seq!["login"@, name].push("hub-child.json"@) =~= seq!["login"@, name, "hub-child.json"@]
    );
}

} // verus!
