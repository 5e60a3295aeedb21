//! Building a roster from per-role attendee counts.
use vstd::prelude::*;
use crate::models::{role_at, Role, Roster, ROLE_COUNT};

verus! {

/// The fifteen per-role counts, in the fixed role order.
pub open spec fn arg_counts(
    engineers: u32,
    senior_engineers: u32,
    staff_engineers: u32,
    principal_engineers: u32,
    pms: u32,
    senior_pms: u32,
    director_pms: u32,
    designers: u32,
    senior_designers: u32,
    analysts: u32,
    senior_analysts: u32,
    directors: u32,
    vps: u32,
    executives: u32,
    generic: u32,
) -> Seq<u32> {
    seq![
        engineers,
        senior_engineers,
        staff_engineers,
        principal_engineers,
        pms,
        senior_pms,
        director_pms,
        designers,
        senior_designers,
        analysts,
        senior_analysts,
        directors,
        vps,
        executives,
        generic,
    ]
}

/// Whether `roster` holds exactly the counts `counts`, in role order.
pub open spec fn roster_is(roster: Roster, counts: Seq<u32>) -> bool {
    forall|i: int| 0 <= i < ROLE_COUNT ==> #[trigger] roster.count(role_at(i)) == counts[i] as nat
}

/// A roster with the given count for each role; roles with count zero are
/// absent.
pub fn parse_attendees(
    engineers: u32,
    senior_engineers: u32,
    staff_engineers: u32,
    principal_engineers: u32,
    pms: u32,
    senior_pms: u32,
    director_pms: u32,
    designers: u32,
    senior_designers: u32,
    analysts: u32,
    senior_analysts: u32,
    directors: u32,
    vps: u32,
    executives: u32,
    generic: u32,
) -> (r: Roster)
    ensures
        roster_is(
            r,
            arg_counts(
                engineers,
                senior_engineers,
                staff_engineers,
                principal_engineers,
                pms,
                senior_pms,
                director_pms,
                designers,
                senior_designers,
                analysts,
                senior_analysts,
                directors,
                vps,
                executives,
                generic,
            ),
        ),
{
    let counts: Vec<u32> = vec![
        engineers,
        senior_engineers,
        staff_engineers,
        principal_engineers,
        pms,
        senior_pms,
        director_pms,
        designers,
        senior_designers,
        analysts,
        senior_analysts,
        directors,
        vps,
        executives,
        generic,
    ];
    let ghost args = arg_counts(
        engineers,
        senior_engineers,
        staff_engineers,
        principal_engineers,
        pms,
        senior_pms,
        director_pms,
        designers,
        senior_designers,
        analysts,
        senior_analysts,
        directors,
        vps,
        executives,
        generic,
    );
    assert(counts@ =~= args);
    let mut attendees = Roster::new();
    let mut i: usize = 0;
    while i < ROLE_COUNT
        invariant
            i <= ROLE_COUNT,
            counts@ == args,
            args.len() == ROLE_COUNT,
            forall|j: int| 0 <= j < i ==> #[trigger] attendees.count(role_at(j)) == args[j] as nat,
            forall|j: int| i <= j < ROLE_COUNT ==> #[trigger] attendees.count(role_at(j)) == 0,
        decreases ROLE_COUNT - i,
    {
        let c = counts[i];
        if c > 0 {
            let role = Role::from_index(i);
            attendees.set(role, c);
        }
        i = i + 1;
    }
    attendees
}

} // verus!
