//! Role-name matching and the messages of the role commands: a requested
//! role is looked up case-insensitively across the configured categories.

use vstd::prelude::*;
use vstd::string::*;
use crate::config::RoleConfiguration;

verus! {

/// The text that `str::to_lowercase` makes of a string: a function of the
/// characters alone.
pub uninterp spec fn lower_of(s: Seq<char>) -> Seq<char>;

/// Relies on `str::to_lowercase`: the result depends on the characters
/// alone.
#[verifier::external_body]
fn lowercase(s: &str) -> (r: String)
    ensures
        r@ == lower_of(s@),
{
    s.to_lowercase()
}

/// The first name at or after position `j` whose lowercase form is `low`.
pub open spec fn name_match_in(names: Seq<String>, low: Seq<char>, j: int) -> Option<Seq<char>>
    decreases names.len() - j,
{
    if j < 0 || j >= names.len() {
        None
    } else if lower_of(names[j]@) == low {
        Some(names[j]@)
    } else {
        name_match_in(names, low, j + 1)
    }
}

pub open spec fn role_match_from(
    categories: Seq<RoleConfiguration>,
    low: Seq<char>,
    i: int,
) -> Option<Seq<char>>
    decreases categories.len() - i,
{
    if i < 0 || i >= categories.len() {
        None
    } else {
        match name_match_in(categories[i].names@, low, 0) {
            Some(n) => Some(n),
            None => role_match_from(categories, low, i + 1),
        }
    }
}

/// The first configured role name — categories in order, names within a
/// category in order — whose lowercase form equals the lowercase form of
/// the requested name; `None` if no name matches.
pub open spec fn role_match(
    categories: Seq<RoleConfiguration>,
    requested: Seq<char>,
) -> Option<Seq<char>> {
    role_match_from(categories, lower_of(requested), 0)
}

/// Look up a requested role name case-insensitively in the configured
/// categories, returning the configured spelling of the first match.
pub fn find_role(categories: &Vec<RoleConfiguration>, requested: &str) -> (r: Option<String>)
    ensures
        match r {
            Some(n) => role_match(categories@, requested@) == Some(n@),
            None => role_match(categories@, requested@) is None,
        },
{
    let low = lowercase(requested);
    let mut i: usize = 0;
    while i < categories.len()
        invariant
            0 <= i <= categories@.len(),
            low@ == lower_of(requested@),
            role_match_from(categories@, low@, 0) == role_match_from(categories@, low@, i as int),
        decreases categories@.len() - i,
    {
        let names = &categories[i].names;
        let mut j: usize = 0;
        while j < names.len()
            invariant
                0 <= i < categories@.len(),
                0 <= j <= names@.len(),
                names == &categories@[i as int].names,
                low@ == lower_of(requested@),
                role_match_from(categories@, low@, 0) == role_match_from(
                    categories@,
                    low@,
                    i as int,
                ),
                name_match_in(names@, low@, 0) == name_match_in(names@, low@, j as int),
            decreases names@.len() - j,
        {
            let candidate = lowercase(names[j].as_str());
            if candidate == low {
                return Some(names[j].clone());
            }
            j = j + 1;
        }
        i = i + 1;
    }
    None
}

/// The reply after toggling a role: which role changed and in which
/// direction.
pub open spec fn change_message_rep(role_name: Seq<char>, had_role: bool) -> Seq<char> {
    if had_role {
        "Removed role `"@ + role_name + "`"@
    } else {
        "Added role `"@ + role_name + "`"@
    }
}

/// The message after a role toggle: removal when the member already had
/// the role, addition otherwise.
pub fn role_change_message(role_name: &str, had_role: bool) -> (r: String)
    ensures
        r@ == change_message_rep(role_name@, had_role),
{
    let mut r = if had_role {
        "Removed role `".to_owned()
    } else {
        "Added role `".to_owned()
    };
    r.append(role_name);
    r.append("`");
    proof {
        assert(r@ =~= change_message_rep(role_name@, had_role));
    }
    r
}

/// The reply when the requested role is not configured.
pub fn not_found_message() -> (r: String)
    ensures
        r@ == "The role you have requested cannot be found"@,
{
    "The role you have requested cannot be found".to_owned()
}

/// The body of one role-category listing, built name by name.
pub open spec fn lines_rep_prefix(names: Seq<String>, k: int) -> Seq<char>
    decreases k,
{
    if k <= 0 {
        Seq::empty()
    } else {
        lines_rep_prefix(names, k - 1) + names[k - 1]@ + "\n"@
    }
}

/// Each name on its own line, every line ended by a newline.
pub open spec fn lines_rep(names: Seq<String>) -> Seq<char> {
    lines_rep_prefix(names, names.len() as int)
}

/// Render the names of one role category, one per line.
pub fn role_list_text(names: &Vec<String>) -> (r: String)
    ensures
        r@ == lines_rep(names@),
{
    let mut r = String::new();
    let mut k: usize = 0;
    while k < names.len()
        invariant
            0 <= k <= names@.len(),
            r@ == lines_rep_prefix(names@, k as int),
        decreases names@.len() - k,
    {
        r.append(names[k].as_str());
        r.append("\n");
        k = k + 1;
    }
    r
}

/// The usage text shown above the role listing.
pub open spec fn help_rep(prefix: Seq<char>) -> Seq<char> {
    "Modify your roles with:\n"@ + prefix + "role <role>"@
}

/// Render the usage text for the configured command prefix.
pub fn roles_help_text(prefix: &str) -> (r: String)
    ensures
        r@ == help_rep(prefix@),
{
    let mut r = "Modify your roles with:\n".to_owned();
    r.append(prefix);
    r.append("role <role>");
    proof {
        assert(r@ =~= help_rep(prefix@));
    }
    r
}

} // verus!
