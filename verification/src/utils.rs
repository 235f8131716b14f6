//! Where the store and the configuration are kept: in the marker
//! directory of the project, where the working directory lies in one, else
//! in the directories that the system gives to the application.

use vstd::prelude::*;
use crate::error::{Error, ErrorView};
use crate::model::views;
use crate::report::RULE_LINE;
use crate::state::{first_match, lemma_first_match_is};
use crate::text::{lemma_append_twice, opt_text};

verus! {

/// A directory on the way from the working directory up to the root of
/// the file system, and whether it holds a marker directory.
#[derive(Debug)]
pub struct Ancestor {
    pub directory: String,
    pub has_marker: bool,
}

/// The view of [`Ancestor`]: the same, with every string as a `Seq<char>`.
pub struct AncestorView {
    pub directory: Seq<char>,
    pub has_marker: bool,
}

impl View for Ancestor {
    type V = AncestorView;

    open spec fn view(&self) -> AncestorView {
        AncestorView { directory: self.directory@, has_marker: self.has_marker }
    }
}

/// Selects the directories that hold a marker directory.
pub open spec fn marked() -> spec_fn(AncestorView) -> bool {
    |a: AncestorView| a.has_marker
}

/// The name of the marker directory.
pub open spec fn marker_name() -> Seq<char> {
    ".contrack"@
}

/// The name of the file that keeps the store.
pub open spec fn database_name() -> Seq<char> {
    "contributions.db"@
}

/// The name of the file that keeps the configuration.
pub open spec fn config_name() -> Seq<char> {
    "config.toml"@
}

/// The path of `name` in the directory `directory`.
pub open spec fn joined(directory: Seq<char>, name: Seq<char>) -> Seq<char> {
    if directory.len() == 0 {
        name
    } else if directory.last() == '/' {
        directory + name
    } else {
        directory + "/"@ + name
    }
}

/// The path of `name` in the directory `directory`.
pub fn join_path(directory: &str, name: &str) -> (r: String)
    ensures
        r@ == joined(directory@, name@),
{
    let n = directory.unicode_len();
    if n == 0 {
        return String::from_str(name);
    }
    let mut out = String::from_str(directory);
    if directory.get_char(n - 1) != '/' {
        out.append("/");
    }
    out.append(name);
    out
}

/// The marker directory of the project: that of the first of
/// `ancestors` that holds one.
pub open spec fn contrack_dir(ancestors: Seq<AncestorView>) -> Option<Seq<char>> {
    let i = first_match(ancestors, marked());
    if i < ancestors.len() {
        Some(joined(ancestors[i].directory, marker_name()))
    } else {
        None
    }
}

/// The marker directory of the project, where the working directory lies
/// in one: that of the nearest of `ancestors`, which lead from the working
/// directory up to the root, that holds one.
pub fn get_contrack_dir(ancestors: &Vec<Ancestor>) -> (r: Option<String>)
    ensures
        opt_text(r) == contrack_dir(views(ancestors@)),
{
    let mut i: usize = 0;
    while i < ancestors.len() && !ancestors[i].has_marker
        invariant
            i <= ancestors@.len(),
            forall|j: int| 0 <= j < i ==> !(#[trigger] ancestors@[j]).has_marker,
        decreases ancestors@.len() - i,
    {
        i += 1;
    }
    proof {
        let all = views(ancestors@);
        assert forall|j: int| 0 <= j < i implies !marked()(#[trigger] all[j]) by {
            assert(all[j].has_marker == ancestors@[j].has_marker);
        }
        if i < ancestors@.len() {
            assert(all[i as int] == ancestors@[i as int]@);
        }
        lemma_first_match_is(all, marked(), i as int);
    }
    if i < ancestors.len() {
        Some(join_path(ancestors[i].directory.as_str(), ".contrack"))
    } else {
        None
    }
}

/// The directory in which a file of the application is kept: the marker
/// directory of the project, else the directory `fallback` that the system
/// gives.
pub open spec fn home_of(ancestors: Seq<AncestorView>, fallback: Option<Seq<char>>) -> Option<
    Seq<char>,
> {
    match contrack_dir(ancestors) {
        Some(d) => Some(d),
        None => fallback,
    }
}

/// The path of the file that keeps the store: in the marker directory of
/// the project, else in the data directory `data_dir` of the application.
/// It fails where there is neither.
pub fn get_database_path(ancestors: &Vec<Ancestor>, data_dir: &Option<String>) -> (r: Result<
    String,
    Error,
>)
    ensures
        match home_of(views(ancestors@), opt_text(*data_dir)) {
            Some(d) => r is Ok && r->Ok_0@ == joined(d, database_name()),
            None => r is Err && r->Err_0@ == ErrorView::NoDataDirectory,
        },
{
    match get_contrack_dir(ancestors) {
        Some(d) => Ok(join_path(d.as_str(), "contributions.db")),
        None => match data_dir {
            Some(d) => Ok(join_path(d.as_str(), "contributions.db")),
            None => Err(Error::NoDataDirectory),
        },
    }
}

/// The configuration directory `config_dir` of the application. It fails
/// where the system gives none.
pub fn get_config_dir(config_dir: &Option<String>) -> (r: Result<String, Error>)
    ensures
        match *config_dir {
            Some(d) => r is Ok && r->Ok_0@ == d@,
            None => r is Err && r->Err_0@ == ErrorView::NoDataDirectory,
        },
{
    match config_dir {
        Some(d) => Ok(d.clone()),
        None => Err(Error::NoDataDirectory),
    }
}

/// The path of the file that keeps the configuration: in the marker
/// directory of the project, else in the configuration directory
/// `config_dir` of the application. It fails where there is neither.
pub fn get_config_path(ancestors: &Vec<Ancestor>, config_dir: &Option<String>) -> (r: Result<
    String,
    Error,
>)
    ensures
        match home_of(views(ancestors@), opt_text(*config_dir)) {
            Some(d) => r is Ok && r->Ok_0@ == joined(d, config_name()),
            None => r is Err && r->Err_0@ == ErrorView::NoDataDirectory,
        },
{
    match get_contrack_dir(ancestors) {
        Some(d) => Ok(join_path(d.as_str(), "config.toml")),
        None => match config_dir {
            Some(d) => Ok(join_path(d.as_str(), "config.toml")),
            None => Err(Error::NoDataDirectory),
        },
    }
}

/// The word for whether a file exists.
pub open spec fn yes_or_no(exists: bool) -> Seq<char> {
    if exists {
        "Yes"@
    } else {
        "No"@
    }
}

/// What the report on locations says of one location.
pub open spec fn location_lines(
    kind: Seq<char>,
    directory: Seq<char>,
    database: Seq<char>,
    exists: bool,
) -> Seq<char> {
    "  Type: "@ + kind + "\n  Directory: "@ + directory + "\n  Database: "@ + database
        + "\n  Exists: "@ + yes_or_no(exists) + "\n"@
}

/// What the report on locations says of the global location, where the
/// store in use is not kept there.
pub open spec fn global_part(
    current: Seq<char>,
    data_dir: Seq<char>,
    global_exists: bool,
) -> Seq<char> {
    if joined(data_dir, database_name()) != current {
        "\n* Global Location\n"@ + location_lines(
            "Global"@,
            data_dir,
            joined(data_dir, database_name()),
            global_exists,
        )
    } else {
        Seq::empty()
    }
}

/// The report on where the store is kept: the location in use, and the
/// global location where it is another one.
pub open spec fn locations_report(
    ancestors: Seq<AncestorView>,
    data_dir: Seq<char>,
    current_exists: bool,
    global_exists: bool,
) -> Seq<char> {
    let home = match contrack_dir(ancestors) {
        Some(d) => d,
        None => data_dir,
    };
    let kind = if contrack_dir(ancestors) is Some {
        "Project-Local"@
    } else {
        "Global"@
    };
    "\nContrack Database Locations\n"@ + RULE_LINE@ + "\n* Current Database (Active)\n"@
        + location_lines(kind, home, joined(home, database_name()), current_exists) + global_part(
        joined(home, database_name()),
        data_dir,
        global_exists,
    ) + "\n"@
}

#[verifier::rlimit(40)]
fn push_location_lines(out: &mut String, kind: &str, directory: &str, database: &str, exists: bool)
    ensures
        final(out)@ == old(out)@ + location_lines(kind@, directory@, database@, exists),
{
    out.append("  Type: ");
    out.append(kind);
    out.append("\n  Directory: ");
    out.append(directory);
    out.append("\n  Database: ");
    out.append(database);
    out.append("\n  Exists: ");
    if exists {
        out.append("Yes");
    } else {
        out.append("No");
    }
    out.append("\n");
    assert(out@ =~= old(out)@ + location_lines(kind@, directory@, database@, exists));
}

/// Reports where the store is kept. `current_exists` and `global_exists`
/// say whether the file of the store in use and the file at the global
/// location exist. It fails where the system gives the application no data
/// directory.
#[verifier::rlimit(40)]
pub fn locations_command(
    ancestors: &Vec<Ancestor>,
    data_dir: &Option<String>,
    current_exists: bool,
    global_exists: bool,
) -> (r: Result<String, Error>)
    ensures
        match *data_dir {
            Some(d) => r is Ok && r->Ok_0@ == locations_report(
                views(ancestors@),
                d@,
                current_exists,
                global_exists,
            ),
            None => r is Err && r->Err_0@ == ErrorView::NoDataDirectory,
        },
{
    let data = match data_dir {
        Some(d) => d,
        None => {
            return Err(Error::NoDataDirectory);
        },
    };
    let project = get_contrack_dir(ancestors);
    let mut out = String::from_str("\nContrack Database Locations\n");
    out.append(RULE_LINE);
    out.append("\n* Current Database (Active)\n");
    let ghost start = out@;
    let current = match &project {
        Some(d) => {
            let database = join_path(d.as_str(), "contributions.db");
            push_location_lines(&mut out, "Project-Local", d.as_str(), database.as_str(), current_exists);
            database
        },
        None => {
            let database = join_path(data.as_str(), "contributions.db");
            push_location_lines(&mut out, "Global", data.as_str(), database.as_str(), current_exists);
            database
        },
    };
    let ghost middle = out@;
    let global = join_path(data.as_str(), "contributions.db");
    if !global.as_str().eq(current.as_str()) {
        out.append("\n* Global Location\n");
        push_location_lines(&mut out, "Global", data.as_str(), global.as_str(), global_exists);
        proof {
            lemma_append_twice(
                middle,
                "\n* Global Location\n"@,
                location_lines("Global"@, data@, global@, global_exists),
            );
        }
    } else {
        assert(out@ =~= middle + global_part(current@, data@, global_exists));
    }
    out.append("\n");
    Ok(out)
}

} // verus!
