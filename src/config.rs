//! Where the attachment tree and the metadata databases are.
use vstd::prelude::*;
use vstd::string::*;

use crate::file_checker::join;

verus! {

#[derive(Debug, Clone)]
pub struct Config {
    pub paths: PathsConfig,
    pub database: DatabaseConfig,
}

#[derive(Debug, Clone)]
pub struct PathsConfig {
    /// The client's data directory, relative to the home directory.
    pub qq_data_base: String,
    /// The prefix of the per-account directory inside it.
    pub nt_qq_prefix: String,
    /// The attachment tree, relative to the per-account directory.
    pub nt_data_subpath: String,
}

#[derive(Debug, Clone)]
pub struct DatabaseConfig {
    pub db_dir: String,
    pub files_db_name: String,
    pub group_db_name: String,
}

impl Config {
    /// The settings used when no configuration file is found.
    pub fn default() -> (r: Config)
        ensures
            r.paths.qq_data_base@
                == "Library/Containers/com.tencent.qq/Data/Library/Application Support/QQ"@,
            r.paths.nt_qq_prefix@ == "nt_qq_"@,
            r.paths.nt_data_subpath@ == "nt_data/Pic"@,
            r.database.db_dir@ == "nt_db"@,
            r.database.files_db_name@ == "files_in_chat.clean.db"@,
            r.database.group_db_name@ == "group_info.clean.db"@,
    {
        Config {
            paths: PathsConfig {
                qq_data_base: String::from_str(
                    "Library/Containers/com.tencent.qq/Data/Library/Application Support/QQ",
                ),
                nt_qq_prefix: String::from_str("nt_qq_"),
                nt_data_subpath: String::from_str("nt_data/Pic"),
            },
            database: DatabaseConfig {
                db_dir: String::from_str("nt_db"),
                files_db_name: String::from_str("files_in_chat.clean.db"),
                group_db_name: String::from_str("group_info.clean.db"),
            },
        }
    }

    /// The client's data directory under the home directory `home`.
    pub fn get_qq_base_dir_in(&self, home: &str) -> (r: String)
        ensures
            r@ == join(home@, self.paths.qq_data_base@),
    {
        join_text(home, self.paths.qq_data_base.as_str())
    }

    /// The decrypted files database inside `dir`.
    pub fn get_files_db_path_in(&self, dir: &str) -> (r: String)
        ensures
            r@ == join(dir@, self.database.files_db_name@),
    {
        join_text(dir, self.database.files_db_name.as_str())
    }

    /// The decrypted groups database inside `dir`.
    pub fn get_group_db_path_in(&self, dir: &str) -> (r: String)
        ensures
            r@ == join(dir@, self.database.group_db_name@),
    {
        join_text(dir, self.database.group_db_name.as_str())
    }
}

fn join_text(dir: &str, name: &str) -> (r: String)
    ensures
        r@ == join(dir@, name@),
{
    let mut s = String::from_str(dir);
    proof {
        reveal_strlit("/");
    }
    s.append("/");
    s.append(name);
    assert(s@ =~= join(dir@, name@));
    s
}

} // verus!
