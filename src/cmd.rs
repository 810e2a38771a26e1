//! The commands of the command-line front end.
use crate::error::VaultError;
use vstd::prelude::*;
use vstd::string::StringSliceAdditionalSpecFns;
use crate::text::is_word;

verus! {

/// One invocation of the tool.
#[derive(Debug)]
pub enum Command {
    Init,
    Add { key: String },
    Get { key: String },
    List,
    Remove { key: String },
    ChangePassword,
}

/// The usage text shown for a missing or unknown command.
pub open spec fn help_spec() -> Seq<char> {
    "Usage:\n  vault init\n  vault add <key>\n  vault get <key>\n  vault list\n  vault remove <key>\n  vault change-password"@
}

/// The arguments (program name first) name a command with the right
/// number of operands.
pub open spec fn recognized(args: Seq<String>) -> bool {
    &&& args.len() >= 2
    &&& {
        let w = args[1]@;
        ||| w == "init"@
        ||| w == "list"@
        ||| w == "change-password"@
        ||| (args.len() == 3 && (w == "add"@ || w == "get"@ || w == "remove"@))
    }
}

pub fn help_text() -> (r: String)
    ensures
        r@ == help_spec(),
{
    "Usage:\n  vault init\n  vault add <key>\n  vault get <key>\n  vault list\n  vault remove <key>\n  vault change-password".to_owned()
}

/// Reads a command from the program's arguments, the program name first.
pub fn parse_command(args: &Vec<String>) -> (r: Result<Command, String>)
    ensures
        r is Ok <==> recognized(args@),
        r is Err ==> r->Err_0@ == help_spec(),
        r matches Ok(Command::Init) <==> recognized(args@) && args@[1]@ == "init"@,
        r matches Ok(Command::List) <==> recognized(args@) && args@[1]@ == "list"@,
        r matches Ok(Command::ChangePassword) <==> recognized(args@) && args@[1]@
            == "change-password"@,
        r matches Ok(Command::Add { key }) ==> args@.len() == 3 && args@[1]@ == "add"@ && key@
            == args@[2]@,
        r matches Ok(Command::Get { key }) ==> args@.len() == 3 && args@[1]@ == "get"@ && key@
            == args@[2]@,
        r matches Ok(Command::Remove { key }) ==> args@.len() == 3 && args@[1]@ == "remove"@
            && key@ == args@[2]@,
        recognized(args@) && args@.len() == 3 && args@[1]@ == "add"@ ==> r matches Ok(
            Command::Add { .. },
        ),
        recognized(args@) && args@.len() == 3 && args@[1]@ == "get"@ ==> r matches Ok(
            Command::Get { .. },
        ),
        recognized(args@) && args@.len() == 3 && args@[1]@ == "remove"@ ==> r matches Ok(
            Command::Remove { .. },
        ),
{
    proof {
        reveal_strlit("init");
        reveal_strlit("add");
        reveal_strlit("get");
        reveal_strlit("list");
        reveal_strlit("remove");
        reveal_strlit("change-password");
        assert("list"@[0] != "init"@[0]);
        assert("get"@[0] != "add"@[0]);
        assert("remove"@.len() != "init"@.len() && "remove"@.len() != "add"@.len());
        assert("list"@ != "add"@ && "list"@ != "get"@ && "list"@ != "remove"@);
        assert("change-password"@.len() != "init"@.len());
        assert("change-password"@ != "add"@ && "change-password"@ != "get"@);
        assert("change-password"@ != "remove"@ && "change-password"@ != "list"@);
    }
    if args.len() < 2 {
        return Err(help_text());
    }
    let n = args.len();
    let word = args[1].as_str();
    if is_word(word, "init") {
        Ok(Command::Init)
    } else if is_word(word, "add") && n == 3 {
        Ok(Command::Add { key: args[2].clone() })
    } else if is_word(word, "get") && n == 3 {
        Ok(Command::Get { key: args[2].clone() })
    } else if is_word(word, "list") {
        Ok(Command::List)
    } else if is_word(word, "remove") && n == 3 {
        Ok(Command::Remove { key: args[2].clone() })
    } else if is_word(word, "change-password") {
        Ok(Command::ChangePassword)
    } else {
        Err(help_text())
    }
}

/// Passwords shorter than this many bytes draw a warning.
pub const RECOMMENDED_PASSWORD_LEN: usize = 10;

/// Checks a new password against its confirmation. On a match, tells
/// whether the password is short enough to deserve a warning.
pub fn confirm_new_password(first: &str, second: &str) -> (r: Result<bool, VaultError>)
    ensures
        first@ != second@ ==> r == Err::<bool, VaultError>(VaultError::PasswordMismatch),
        first@ == second@ ==> r == Ok::<bool, VaultError>(
            first.spec_bytes().len() < RECOMMENDED_PASSWORD_LEN,
        ),
{
    if !is_word(first, second) {
        return Err(VaultError::PasswordMismatch);
    }
    Ok(first.as_bytes().len() < RECOMMENDED_PASSWORD_LEN)
}

} // verus!
