//! Role names as people type them.
use vstd::prelude::*;
use crate::error::{Failure, MeterError};
use crate::models::Role;
use crate::text::chars_of;

verus! {

/// What `str::to_lowercase` gives for a text.
pub uninterp spec fn lower_of(s: Seq<char>) -> Seq<char>;

/// Relies on `str::to_lowercase`: the result depends on the characters alone.
#[verifier::external_body]
fn lowercase(s: &str) -> (r: String)
    ensures
        r@ == lower_of(s@),
{
    s.to_lowercase()
}

/// `s` with every space and hyphen turned into an underscore.
pub open spec fn underscored(s: Seq<char>) -> Seq<char> {
    s.map_values(|c: char| if c == ' ' || c == '-' { '_' } else { c })
}

/// The role that a lower-case, underscored name stands for, if any.
pub open spec fn role_for_name(n: Seq<char>) -> Option<Role> {
    if n == "engineer"@ || n == "eng"@ {
        Some(Role::Engineer)
    } else if n == "senior_engineer"@ || n == "senior_eng"@ || n == "sr_engineer"@ {
        Some(Role::SeniorEngineer)
    } else if n == "staff_engineer"@ || n == "staff_eng"@ {
        Some(Role::StaffEngineer)
    } else if n == "principal_engineer"@ || n == "principal_eng"@ || n == "principal"@ {
        Some(Role::PrincipalEngineer)
    } else if n == "product_manager"@ || n == "pm"@ {
        Some(Role::ProductManager)
    } else if n == "senior_pm"@ || n == "senior_product_manager"@ || n == "sr_pm"@ {
        Some(Role::SeniorPm)
    } else if n == "director_pm"@ || n == "director_of_pm"@ || n == "pm_director"@ {
        Some(Role::DirectorPm)
    } else if n == "designer"@ || n == "design"@ {
        Some(Role::Designer)
    } else if n == "senior_designer"@ || n == "sr_designer"@ {
        Some(Role::SeniorDesigner)
    } else if n == "analyst"@ {
        Some(Role::Analyst)
    } else if n == "senior_analyst"@ || n == "sr_analyst"@ {
        Some(Role::SeniorAnalyst)
    } else if n == "director"@ || n == "dir"@ {
        Some(Role::Director)
    } else if n == "vp"@ || n == "vice_president"@ {
        Some(Role::Vp)
    } else if n == "executive"@ || n == "exec"@ || n == "c_level"@ {
        Some(Role::Executive)
    } else if n == "generic"@ {
        Some(Role::Generic)
    } else {
        None
    }
}

/// Whether `v` holds exactly the characters of `lit`.
fn same_text(v: &Vec<char>, lit: &str) -> (r: bool)
    ensures
        r == (v@ == lit@),
{
    let w = chars_of(lit);
    if v.len() != w.len() {
        return false;
    }
    let mut i: usize = 0;
    while i < v.len()
        invariant
            i <= v@.len(),
            v@.len() == w@.len(),
            w@ == lit@,
            forall|j: int| 0 <= j < i ==> v@[j] == w@[j],
        decreases v@.len() - i,
    {
        if v[i] != w[i] {
            return false;
        }
        i = i + 1;
    }
    assert(v@ =~= w@);
    true
}

/// The role that an already lower-cased name stands for: spaces and hyphens
/// count as underscores, and each role answers to a few aliases.
pub fn role_from_lowercase(lowered: &str) -> (r: Option<Role>)
    ensures
        r == role_for_name(underscored(lowered@)),
{
    let chars = chars_of(lowered);
    let mut n: Vec<char> = Vec::new();
    let mut i: usize = 0;
    while i < chars.len()
        invariant
            i <= chars@.len(),
            chars@ == lowered@,
            n@ == underscored(chars@.subrange(0, i as int)),
        decreases chars@.len() - i,
    {
        let c = chars[i];
        n.push(if c == ' ' || c == '-' { '_' } else { c });
        assert(underscored(chars@.subrange(0, i as int + 1)) =~= underscored(chars@.subrange(0, i as int)).push(
            if c == ' ' || c == '-' { '_' } else { c },
        ));
        i = i + 1;
    }
    assert(chars@.subrange(0, chars@.len() as int) =~= chars@);
    if same_text(&n, "engineer") || same_text(&n, "eng") {
        Some(Role::Engineer)
    } else if same_text(&n, "senior_engineer") || same_text(&n, "senior_eng") || same_text(&n, "sr_engineer") {
        Some(Role::SeniorEngineer)
    } else if same_text(&n, "staff_engineer") || same_text(&n, "staff_eng") {
        Some(Role::StaffEngineer)
    } else if same_text(&n, "principal_engineer") || same_text(&n, "principal_eng") || same_text(&n, "principal") {
        Some(Role::PrincipalEngineer)
    } else if same_text(&n, "product_manager") || same_text(&n, "pm") {
        Some(Role::ProductManager)
    } else if same_text(&n, "senior_pm") || same_text(&n, "senior_product_manager") || same_text(&n, "sr_pm") {
        Some(Role::SeniorPm)
    } else if same_text(&n, "director_pm") || same_text(&n, "director_of_pm") || same_text(&n, "pm_director") {
        Some(Role::DirectorPm)
    } else if same_text(&n, "designer") || same_text(&n, "design") {
        Some(Role::Designer)
    } else if same_text(&n, "senior_designer") || same_text(&n, "sr_designer") {
        Some(Role::SeniorDesigner)
    } else if same_text(&n, "analyst") {
        Some(Role::Analyst)
    } else if same_text(&n, "senior_analyst") || same_text(&n, "sr_analyst") {
        Some(Role::SeniorAnalyst)
    } else if same_text(&n, "director") || same_text(&n, "dir") {
        Some(Role::Director)
    } else if same_text(&n, "vp") || same_text(&n, "vice_president") {
        Some(Role::Vp)
    } else if same_text(&n, "executive") || same_text(&n, "exec") || same_text(&n, "c_level") {
        Some(Role::Executive)
    } else if same_text(&n, "generic") {
        Some(Role::Generic)
    } else {
        None
    }
}

/// The role that a typed name stands for, case-insensitively, with spaces and
/// hyphens read as underscores; `UnknownRole` with the name otherwise.
pub fn parse_role(s: &str) -> (r: Result<Role, MeterError>)
    ensures
        match role_for_name(underscored(lower_of(s@))) {
            Some(role) => r == Ok::<Role, MeterError>(role),
            None => r matches Err(e) && e@ == Failure::UnknownRole(s@),
        },
{
    let lowered = lowercase(s);
    match role_from_lowercase(lowered.as_str()) {
        Some(role) => Ok(role),
        None => Err(MeterError::UnknownRole(s.to_owned())),
    }
}

} // verus!
