//! Where the vault file lives, relative to the user's home directory.
use vstd::prelude::*;
use vstd::string::{StrSliceExecFns, StringExecFns};

verus! {

/// `name` placed under the directory `dir`, with one separator between
/// them; an empty `dir` leaves `name` as it is.
pub open spec fn join_spec(dir: Seq<char>, name: Seq<char>) -> Seq<char> {
    if dir.len() == 0 {
        name
    } else if dir.last() == '/' {
        dir + name
    } else {
        dir + seq!['/'] + name
    }
}

/// The vault's directory under the home directory `home`.
pub open spec fn vault_dir_spec(home: Seq<char>) -> Seq<char> {
    join_spec(home, ".local/share/rvault"@)
}

/// The vault file under the home directory `home`.
pub open spec fn vault_path_spec(home: Seq<char>) -> Seq<char> {
    join_spec(vault_dir_spec(home), "vault.bin"@)
}

fn join(dir: String, name: &str) -> (r: String)
    ensures
        r@ == join_spec(dir@, name@),
{
    let n = dir.as_str().unicode_len();
    if n == 0 {
        return name.to_owned();
    }
    let mut out = dir;
    if out.as_str().get_char(n - 1) != '/' {
        out.append("/");
        proof {
            reveal_strlit("/");
        }
    }
    out.append(name);
    out
}

/// The directory that holds the vault, under the home directory `home`.
pub fn vault_dir(home: &str) -> (r: String)
    ensures
        r@ == vault_dir_spec(home@),
{
    join(home.to_owned(), ".local/share/rvault")
}

/// The vault file, under the home directory `home`.
pub fn vault_path(home: &str) -> (r: String)
    ensures
        r@ == vault_path_spec(home@),
{
    join(vault_dir(home), "vault.bin")
}

} // verus!
