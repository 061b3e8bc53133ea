use vstd::prelude::*;

use crate::text::chars_of;

verus! {

/// `dir` joined with `name` as `PathBuf::push` does on Unix: an absolute
/// `name` replaces `dir`; otherwise a `/` goes between them unless `dir` is
/// empty or already ends in one.
pub open spec fn joined(dir: Seq<char>, name: Seq<char>) -> Seq<char> {
    if name.len() > 0 && name[0] == '/' {
        name
    } else if dir.len() == 0 || dir.last() == '/' {
        dir + name
    } else {
        dir + seq!['/'] + name
    }
}

/// The path of an account's stored credentials: `<account_id>.json` in the
/// directory `auth_dir`.
pub fn get_account_auth_path(auth_dir: &str, account_id: &str) -> (r: String)
    ensures
        r@ == joined(auth_dir@, account_id@ + ".json"@),
{
    let mut name = String::from_str(account_id);
    name.append(".json");
    let ncs = chars_of(name.as_str());
    if ncs.len() > 0 && ncs[0] == '/' {
        return name;
    }
    let dcs = chars_of(auth_dir);
    let mut out = String::from_str(auth_dir);
    if dcs.len() == 0 || dcs[dcs.len() - 1] == '/' {
        out.append(name.as_str());
        out
    } else {
        out.append("/");
        proof {
            reveal_strlit("/");
        }
        out.append(name.as_str());
        out
    }
}

} // verus!
