//! Where the database lives, where downloads go by default, and the fixed
//! settings of the database and the HTTP client.

use vstd::prelude::*;
use crate::text::{
    has_drive, is_absolute_path, is_separator, join_path, joined_path, main_separator,
    path_is_absolute, Platform,
};

verus! {

/// The user agent that every request of a download sends.
pub const USER_AGENT: &'static str = "Mozilla/5.0 (Windows NT 10.0; Win64; x64) AppleWebKit/537.36 (KHTML, like Gecko) Chrome/124.0.0.0 Safari/537.36";

/// How many redirects a request follows before it fails.
pub const MAX_REDIRECTS: usize = 10;

/// How long a database operation waits on a locked database.
pub const BUSY_TIMEOUT_MS: u64 = 5000;

/// The answer to the liveness probe of the front end.
pub fn ping() -> (r: &'static str)
    ensures
        r@ == "pong"@,
{
    "pong"
}

/// Where application data lives under the home directory.
pub open spec fn home_data_suffix(platform: Platform) -> Seq<char> {
    match platform {
        Platform::Windows => "\\AppData\\Roaming"@,
        Platform::MacOs => "/Library/Application Support"@,
        Platform::Linux => "/.local/share"@,
    }
}

/// The base directory for application data: `APPDATA` where it is set,
/// else the platform's data directory under `HOME`: on Windows
/// `$HOME\AppData\Roaming`, on macOS `$HOME/Library/Application Support`,
/// on Linux `$HOME/.local/share`.
pub open spec fn app_data_base(
    platform: Platform,
    appdata: Option<Seq<char>>,
    home: Option<Seq<char>>,
) -> Option<Seq<char>> {
    match appdata {
        Some(a) => Some(a),
        None => match home {
            Some(h) => Some(h + home_data_suffix(platform)),
            None => None,
        },
    }
}

/// The base made absolute: a relative base is taken inside the working
/// directory `cwd`, and without any base the working directory itself is
/// used. None where no absolute path results.
pub open spec fn absolute_base(
    platform: Platform,
    appdata: Option<Seq<char>>,
    home: Option<Seq<char>>,
    cwd: Option<Seq<char>>,
) -> Option<Seq<char>> {
    let candidate = match app_data_base(platform, appdata, home) {
        Some(b) => match cwd {
            Some(c) => Some(joined_path(platform, c, b)),
            None => Some(b),
        },
        None => cwd,
    };
    match candidate {
        Some(c) => if is_absolute_path(platform, c) {
            Some(c)
        } else {
            None
        },
        None => None,
    }
}

/// The directory that holds the database: `tharsis` inside the absolute
/// application-data base.
pub open spec fn data_dir_of(
    platform: Platform,
    appdata: Option<Seq<char>>,
    home: Option<Seq<char>>,
    cwd: Option<Seq<char>>,
) -> Option<Seq<char>> {
    match absolute_base(platform, appdata, home, cwd) {
        Some(b) => Some(joined_path(platform, b, "tharsis"@)),
        None => None,
    }
}

pub open spec fn str_view(o: Option<&str>) -> Option<Seq<char>> {
    match o {
        Some(s) => Some(s@),
        None => None,
    }
}

/// Computes the directory of the database from the platform, the values of
/// the `APPDATA` and `HOME` environment variables (none where unset or not
/// Unicode) and the working directory (none where unknown).
pub fn data_dir(platform: Platform, appdata: Option<&str>, home: Option<&str>, cwd: Option<&str>) -> (r:
    Option<String>)
    ensures
        match r {
            Some(d) => data_dir_of(platform, str_view(appdata), str_view(home), str_view(cwd))
                == Some(d@),
            None => data_dir_of(platform, str_view(appdata), str_view(home), str_view(cwd)) is None,
        },
{
    let base: Option<String> = match appdata {
        Some(a) => Some(String::from_str(a)),
        None => match home {
            Some(h) => {
                let mut s = String::from_str(h);
                match platform {
                    Platform::Windows => s.append("\\AppData\\Roaming"),
                    Platform::MacOs => s.append("/Library/Application Support"),
                    Platform::Linux => s.append("/.local/share"),
                }
                Some(s)
            },
            None => None,
        },
    };
    let candidate: Option<String> = match base {
        Some(b) => match cwd {
            Some(c) => Some(join_path(platform, c, b.as_str())),
            None => Some(b),
        },
        None => match cwd {
            Some(c) => Some(String::from_str(c)),
            None => None,
        },
    };
    match candidate {
        Some(c) => {
            if path_is_absolute(platform, c.as_str()) {
                Some(join_path(platform, c.as_str(), "tharsis"))
            } else {
                None
            }
        },
        None => None,
    }
}

/// Joining a plain name (no separator or drive at its start) onto an
/// absolute path keeps it absolute.
proof fn lemma_join_keeps_absolute(platform: Platform, base: Seq<char>, name: Seq<char>)
    requires
        is_absolute_path(platform, base),
        name.len() > 0,
        !is_separator(platform, name[0]),
        !has_drive(platform, name),
        !is_absolute_path(platform, name),
    ensures
        is_absolute_path(platform, joined_path(platform, base, name)),
{
    let r = joined_path(platform, base, name);
    assert(r.subrange(0, base.len() as int) =~= base);
    assert(forall|i: int| 0 <= i < base.len() ==> r[i] == base[i]);
}

/// Law: without `APPDATA`, an absolute home directory locates the database
/// in the platform's data directory: `.local/share` on Linux,
/// `Library/Application Support` on macOS, `AppData\Roaming` on Windows.
pub proof fn lemma_home_locates_database(platform: Platform, home: Seq<char>, cwd: Option<Seq<char>>)
    requires
        is_absolute_path(platform, home),
    ensures
        data_dir_of(platform, None, Some(home), cwd) == Some(
            match platform {
                Platform::Linux => home + "/.local/share/tharsis"@,
                Platform::MacOs => home + "/Library/Application Support/tharsis"@,
                Platform::Windows => home + "\\AppData\\Roaming\\tharsis"@,
            },
        ),
{
    reveal_strlit("tharsis");
    reveal_strlit("/.local/share");
    reveal_strlit("/.local/share/tharsis");
    reveal_strlit("/Library/Application Support");
    reveal_strlit("/Library/Application Support/tharsis");
    reveal_strlit("\\AppData\\Roaming");
    reveal_strlit("\\AppData\\Roaming\\tharsis");
    let base = home + home_data_suffix(platform);
    assert(base.subrange(0, home.len() as int) =~= home);
    assert(forall|i: int| 0 <= i < home.len() ==> base[i] == home[i]);
    assert(is_absolute_path(platform, base));
    assert(joined_path(platform, base, "tharsis"@) == base + seq![main_separator(platform)] + "tharsis"@);
    match platform {
        Platform::Linux => {
            assert(base + seq!['/'] + "tharsis"@ =~= home + "/.local/share/tharsis"@);
        },
        Platform::MacOs => {
            assert(base + seq!['/'] + "tharsis"@ =~= home + "/Library/Application Support/tharsis"@);
        },
        Platform::Windows => {
            assert(base + seq!['\\'] + "tharsis"@ =~= home + "\\AppData\\Roaming\\tharsis"@);
        },
    }
}

/// Law: the database directory is always an absolute path, on every
/// platform.
pub proof fn lemma_data_dir_is_absolute(
    platform: Platform,
    appdata: Option<Seq<char>>,
    home: Option<Seq<char>>,
    cwd: Option<Seq<char>>,
)
    requires
        data_dir_of(platform, appdata, home, cwd) is Some,
    ensures
        is_absolute_path(platform, data_dir_of(platform, appdata, home, cwd)->0),
{
    reveal_strlit("tharsis");
    let b = absolute_base(platform, appdata, home, cwd)->0;
    lemma_join_keeps_absolute(platform, b, "tharsis"@);
}

/// Law: where `APPDATA` holds an absolute path, the database directory is
/// `tharsis` inside it, whatever `HOME` and the working directory are.
pub proof fn lemma_appdata_locates_database(
    platform: Platform,
    appdata: Seq<char>,
    home: Option<Seq<char>>,
    cwd: Option<Seq<char>>,
)
    requires
        is_absolute_path(platform, appdata),
    ensures
        data_dir_of(platform, Some(appdata), home, cwd) == Some(
            joined_path(platform, appdata, "tharsis"@),
        ),
{
}

/// The connection URL of the database file `tharsis.db` in `dir`.
pub open spec fn database_url_of(platform: Platform, dir: Seq<char>) -> Seq<char> {
    "sqlite:"@ + joined_path(platform, dir, "tharsis.db"@)
}

/// Law: the database URL of an absolute directory names an absolute file:
/// after the `sqlite:` scheme comes an absolute path.
pub proof fn lemma_database_url_is_absolute(platform: Platform, dir: Seq<char>)
    requires
        is_absolute_path(platform, dir),
    ensures
        database_url_of(platform, dir).subrange(0, 7) == "sqlite:"@,
        is_absolute_path(platform, database_url_of(platform, dir).subrange(7, database_url_of(platform, dir).len() as int)),
{
    reveal_strlit("sqlite:");
    reveal_strlit("tharsis.db");
    lemma_join_keeps_absolute(platform, dir, "tharsis.db"@);
    let file = joined_path(platform, dir, "tharsis.db"@);
    assert(database_url_of(platform, dir).subrange(0, 7) =~= "sqlite:"@);
    assert(database_url_of(platform, dir).subrange(7, database_url_of(platform, dir).len() as int) =~= file);
}

pub fn database_url(platform: Platform, dir: &str) -> (r: String)
    ensures
        r@ == database_url_of(platform, dir@),
{
    let mut s = String::from_str("sqlite:");
    let file = join_path(platform, dir, "tharsis.db");
    s.append(file.as_str());
    s
}

/// The default save directory: the user's download directory, else the
/// home directory, else `.`.
pub open spec fn download_dir_of(downloads: Option<Seq<char>>, home: Option<Seq<char>>) -> Seq<char> {
    match downloads {
        Some(d) => d,
        None => match home {
            Some(h) => h,
            None => "."@,
        },
    }
}

pub fn choose_download_dir(downloads: Option<String>, home: Option<String>) -> (r: String)
    ensures
        r@ == download_dir_of(
            match downloads {
                Some(d) => Some(d@),
                None => None,
            },
            match home {
                Some(h) => Some(h@),
                None => None,
            },
        ),
{
    match downloads {
        Some(d) => d,
        None => match home {
            Some(h) => h,
            None => String::from_str("."),
        },
    }
}

} // verus!
