//! What the launcher knows of an instance on disk.

use vstd::prelude::*;

use crate::models::Instance;
use crate::paths::{join, path_join};
use crate::text::{from_chars, push_str, to_chars, trim, trim_chars};

verus! {

pub struct InstanceStatus {
    pub id: String,
    /// The client jar of the Minecraft version is present.
    pub installed: bool,
    pub game_dir: String,
    /// The instance directory (custom files, saves, options) exists.
    pub has_game_dir: bool,
}

/// `<root>/versions/<version>/<version>.jar`, the version trimmed.
pub open spec fn client_jar_of(root: Seq<char>, version: Seq<char>) -> Seq<char> {
    let v = trim(version);
    path_join(path_join(path_join(root, "versions"@), v), v + ".jar"@)
}

/// `<root>/instances/<id>`.
pub open spec fn game_dir_of(root: Seq<char>, id: Seq<char>) -> Seq<char> {
    path_join(path_join(root, "instances"@), id)
}

pub fn client_jar_path(root: &str, version: &str) -> (r: String)
    ensures
        r@ == client_jar_of(root@, version@),
{
    let v = from_chars(&trim_chars(&to_chars(version)));
    let versions = join(root, "versions");
    let dir = join(versions.as_str(), v.as_str());
    let mut file = to_chars(v.as_str());
    push_str(&mut file, ".jar");
    let file = from_chars(&file);
    join(dir.as_str(), file.as_str())
}

pub fn game_dir_path(root: &str, id: &str) -> (r: String)
    ensures
        r@ == game_dir_of(root@, id@),
{
    let instances = join(root, "instances");
    join(instances.as_str(), id)
}

impl InstanceStatus {
    /// The status of an instance under `root`, given what the disk holds.
    pub fn of(instance: &Instance, root: &str, jar_is_file: bool, dir_is_dir: bool) -> (r: InstanceStatus)
        ensures
            r.id@ == instance.id@,
            r.installed == jar_is_file,
            r.game_dir@ == game_dir_of(root@, instance.id@),
            r.has_game_dir == dir_is_dir,
    {
        InstanceStatus {
            id: instance.id.clone(),
            installed: jar_is_file,
            game_dir: game_dir_path(root, instance.id.as_str()),
            has_game_dir: dir_is_dir,
        }
    }
}

} // verus!
