//! Paths as text, joined the way `std::path::PathBuf::push` joins paths on
//! Unix.

use vstd::prelude::*;

verus! {

/// `rel` appended to `base`, with a `/` between them unless `base` is empty
/// or already ends in one; an absolute `rel` replaces `base`.
pub open spec fn join_spec(base: Seq<char>, rel: Seq<char>) -> Seq<char> {
    if rel.len() > 0 && rel[0] == '/' {
        rel
    } else if base.len() == 0 || base.last() == '/' {
        base + rel
    } else {
        base + seq!['/'] + rel
    }
}

/// Joins a path onto a base path.
pub fn join(base: &str, rel: &str) -> (r: String)
    ensures
        r@ == join_spec(base@, rel@),
{
    if rel.unicode_len() > 0 && rel.get_char(0) == '/' {
        return rel.to_owned();
    }
    let n = base.unicode_len();
    let mut r = String::from_str(base);
    if n > 0 && base.get_char(n - 1) != '/' {
        r.append("/");
        proof { reveal_strlit("/"); }
    }
    r.append(rel);
    r
}

/// Where the client keeps the game server.
pub fn server_path() -> (r: &'static str)
    ensures
        r@ == "worldsync/mc_server"@,
{
    "worldsync/mc_server"
}

/// Where the client keeps its settings database.
pub fn db_path() -> (r: &'static str)
    ensures
        r@ == "worldsync/db"@,
{
    "worldsync/db"
}

/// Where the administration tool dumps and loads saves.
pub fn dump_path() -> (r: &'static str)
    ensures
        r@ == "save_dump"@,
{
    "save_dump"
}

/// Where the server keeps the content of stored objects.
pub fn object_store_path() -> (r: &'static str)
    ensures
        r@ == "object-store"@,
{
    "object-store"
}

} // verus!
