use vstd::prelude::*;

verus! {

/// Number of roles.
pub const ROLE_COUNT: usize = 15;

/// Seconds in a minute, an hour and a day.
pub const SECS_PER_MINUTE: i64 = 60;

pub const SECS_PER_HOUR: i64 = 3600;

pub const SECS_PER_DAY: i64 = 86400;

/// Organisational roles, each with a built-in hourly rate.
#[derive(Debug, Clone, Copy, PartialEq, Eq, Hash, Structural)]
pub enum Role {
    Engineer,
    SeniorEngineer,
    StaffEngineer,
    PrincipalEngineer,
    ProductManager,
    SeniorPm,
    DirectorPm,
    Designer,
    SeniorDesigner,
    Analyst,
    SeniorAnalyst,
    Director,
    Vp,
    Executive,
    Generic,
}

/// The role at position `i` of the fixed role order.
pub open spec fn role_at(i: int) -> Role {
    if i == 0 {
        Role::Engineer
    } else if i == 1 {
        Role::SeniorEngineer
    } else if i == 2 {
        Role::StaffEngineer
    } else if i == 3 {
        Role::PrincipalEngineer
    } else if i == 4 {
        Role::ProductManager
    } else if i == 5 {
        Role::SeniorPm
    } else if i == 6 {
        Role::DirectorPm
    } else if i == 7 {
        Role::Designer
    } else if i == 8 {
        Role::SeniorDesigner
    } else if i == 9 {
        Role::Analyst
    } else if i == 10 {
        Role::SeniorAnalyst
    } else if i == 11 {
        Role::Director
    } else if i == 12 {
        Role::Vp
    } else if i == 13 {
        Role::Executive
    } else {
        Role::Generic
    }
}

impl Role {
    /// Position of the role in the fixed role order.
    pub open spec fn idx(self) -> int {
        match self {
            Role::Engineer => 0,
            Role::SeniorEngineer => 1,
            Role::StaffEngineer => 2,
            Role::PrincipalEngineer => 3,
            Role::ProductManager => 4,
            Role::SeniorPm => 5,
            Role::DirectorPm => 6,
            Role::Designer => 7,
            Role::SeniorDesigner => 8,
            Role::Analyst => 9,
            Role::SeniorAnalyst => 10,
            Role::Director => 11,
            Role::Vp => 12,
            Role::Executive => 13,
            Role::Generic => 14,
        }
    }

    /// Built-in hourly rate, in cents.
    pub open spec fn spec_default_rate(self) -> nat {
        match self {
            Role::Engineer => 4300,
            Role::SeniorEngineer => 6600,
            Role::StaffEngineer => 8300,
            Role::PrincipalEngineer => 10300,
            Role::ProductManager => 7200,
            Role::SeniorPm => 8800,
            Role::DirectorPm => 10500,
            Role::Designer => 5700,
            Role::SeniorDesigner => 6000,
            Role::Analyst => 5000,
            Role::SeniorAnalyst => 6400,
            Role::Director => 10500,
            Role::Vp => 10600,
            Role::Executive => 13900,
            Role::Generic => 4300,
        }
    }

    pub fn index(&self) -> (r: usize)
        ensures
            r as int == self.idx(),
            r < ROLE_COUNT,
            role_at(r as int) == *self,
    {
        match self {
            Role::Engineer => 0,
            Role::SeniorEngineer => 1,
            Role::StaffEngineer => 2,
            Role::PrincipalEngineer => 3,
            Role::ProductManager => 4,
            Role::SeniorPm => 5,
            Role::DirectorPm => 6,
            Role::Designer => 7,
            Role::SeniorDesigner => 8,
            Role::Analyst => 9,
            Role::SeniorAnalyst => 10,
            Role::Director => 11,
            Role::Vp => 12,
            Role::Executive => 13,
            Role::Generic => 14,
        }
    }

    pub fn from_index(i: usize) -> (r: Role)
        requires
            i < ROLE_COUNT,
        ensures
            r == role_at(i as int),
            r.idx() == i as int,
    {
        if i == 0 {
            Role::Engineer
        } else if i == 1 {
            Role::SeniorEngineer
        } else if i == 2 {
            Role::StaffEngineer
        } else if i == 3 {
            Role::PrincipalEngineer
        } else if i == 4 {
            Role::ProductManager
        } else if i == 5 {
            Role::SeniorPm
        } else if i == 6 {
            Role::DirectorPm
        } else if i == 7 {
            Role::Designer
        } else if i == 8 {
            Role::SeniorDesigner
        } else if i == 9 {
            Role::Analyst
        } else if i == 10 {
            Role::SeniorAnalyst
        } else if i == 11 {
            Role::Director
        } else if i == 12 {
            Role::Vp
        } else if i == 13 {
            Role::Executive
        } else {
            Role::Generic
        }
    }

    /// Built-in hourly rate of the role, in cents.
    pub fn default_rate(&self) -> (r: u32)
        ensures
            r as nat == self.spec_default_rate(),
    {
        match self {
            Role::Engineer => 4300,
            Role::SeniorEngineer => 6600,
            Role::StaffEngineer => 8300,
            Role::PrincipalEngineer => 10300,
            Role::ProductManager => 7200,
            Role::SeniorPm => 8800,
            Role::DirectorPm => 10500,
            Role::Designer => 5700,
            Role::SeniorDesigner => 6000,
            Role::Analyst => 5000,
            Role::SeniorAnalyst => 6400,
            Role::Director => 10500,
            Role::Vp => 10600,
            Role::Executive => 13900,
            Role::Generic => 4300,
        }
    }

    /// Every role, once each, in the fixed role order.
    pub fn all_roles() -> (r: Vec<Role>)
        ensures
            r@.len() == ROLE_COUNT,
            forall|i: int| 0 <= i < ROLE_COUNT ==> #[trigger] r@[i] == role_at(i),
            forall|role: Role| #[trigger] r@[role.idx()] == role,
    {
        let mut v: Vec<Role> = Vec::new();
        let mut i: usize = 0;
        while i < ROLE_COUNT
            invariant
                i <= ROLE_COUNT,
                v@.len() == i,
                forall|j: int| 0 <= j < i ==> #[trigger] v@[j] == role_at(j),
            decreases ROLE_COUNT - i,
        {
            v.push(Role::from_index(i));
            i = i + 1;
        }
        assert forall|role: Role| #[trigger] v@[role.idx()] == role by {
            assert(v@[role.idx()] == role_at(role.idx()));
        }
        v
    }

    /// The role's name as people write it.
    pub fn display_name(&self) -> (r: &'static str)
        ensures
            r@ == self.spec_display_name(),
    {
        match self {
            Role::Engineer => "Engineer",
            Role::SeniorEngineer => "Senior Engineer",
            Role::StaffEngineer => "Staff Engineer",
            Role::PrincipalEngineer => "Principal Engineer",
            Role::ProductManager => "Product Manager",
            Role::SeniorPm => "Senior PM",
            Role::DirectorPm => "Director of PM",
            Role::Designer => "Designer",
            Role::SeniorDesigner => "Senior Designer",
            Role::Analyst => "Analyst",
            Role::SeniorAnalyst => "Senior Analyst",
            Role::Director => "Director",
            Role::Vp => "VP",
            Role::Executive => "Executive",
            Role::Generic => "Generic",
        }
    }

    pub open spec fn spec_display_name(self) -> Seq<char> {
        match self {
            Role::Engineer => "Engineer"@,
            Role::SeniorEngineer => "Senior Engineer"@,
            Role::StaffEngineer => "Staff Engineer"@,
            Role::PrincipalEngineer => "Principal Engineer"@,
            Role::ProductManager => "Product Manager"@,
            Role::SeniorPm => "Senior PM"@,
            Role::DirectorPm => "Director of PM"@,
            Role::Designer => "Designer"@,
            Role::SeniorDesigner => "Senior Designer"@,
            Role::Analyst => "Analyst"@,
            Role::SeniorAnalyst => "Senior Analyst"@,
            Role::Director => "Director"@,
            Role::Vp => "VP"@,
            Role::Executive => "Executive"@,
            Role::Generic => "Generic"@,
        }
    }
}


/// Attendee counts per role; a role with count zero is absent.
pub struct Roster {
    counts: Vec<u32>,
}

impl Roster {
    #[verifier::type_invariant]
    spec fn inv(self) -> bool {
        self.counts@.len() == ROLE_COUNT
    }

    /// The attendee count of `role`.
    pub closed spec fn count(self, role: Role) -> nat {
        self.counts@[role.idx()] as nat
    }

    /// Whether the two rosters have the same count for every role.
    pub open spec fn same_counts(self, other: Roster) -> bool {
        forall|role: Role| self.count(role) == other.count(role)
    }

    pub proof fn lemma_count_bound(self, role: Role)
        ensures
            self.count(role) <= u32::MAX,
    {
    }

    /// A roster with no attendees.
    pub fn new() -> (r: Roster)
        ensures
            forall|role: Role| r.count(role) == 0,
    {
        let mut counts: Vec<u32> = Vec::new();
        let mut i: usize = 0;
        while i < ROLE_COUNT
            invariant
                i <= ROLE_COUNT,
                counts@.len() == i,
                forall|j: int| 0 <= j < i ==> counts@[j] == 0,
            decreases ROLE_COUNT - i,
        {
            counts.push(0);
            i = i + 1;
        }
        Roster { counts }
    }

    /// The attendee count of `role` (zero where the role is absent).
    pub fn get(&self, role: Role) -> (r: u32)
        ensures
            r as nat == self.count(role),
    {
        proof {
            use_type_invariant(self);
        }
        self.counts[role.index()]
    }

    /// Sets the attendee count of `role`; zero removes the role.
    pub fn set(&mut self, role: Role, count: u32)
        ensures
            final(self).count(role) == count as nat,
            forall|other: Role| other != role ==> final(self).count(other) == old(self).count(other),
    {
        proof {
            use_type_invariant(&*self);
        }
        let i = role.index();
        let mut counts = self.counts.clone();
        assert(counts@ =~= self.counts@);
        counts.set(i, count);
        self.counts = counts;
    }

    /// Whether no role has an attendee.
    pub fn is_empty(&self) -> (r: bool)
        ensures
            r == (forall|role: Role| self.count(role) == 0),
    {
        proof {
            use_type_invariant(self);
        }
        let mut i: usize = 0;
        while i < ROLE_COUNT
            invariant
                i <= ROLE_COUNT,
                self.counts@.len() == ROLE_COUNT,
                forall|j: int| 0 <= j < i ==> self.counts@[j] == 0,
            decreases ROLE_COUNT - i,
        {
            if self.counts[i] != 0 {
                assert(self.count(role_at(i as int)) != 0);
                return false;
            }
            i = i + 1;
        }
        true
    }

    /// The roles present, with their counts, in the fixed role order.
    pub open spec fn spec_entries(self, n: int) -> Seq<(Role, u32)>
        decreases n,
    {
        if n <= 0 {
            seq![]
        } else {
            let prev = self.spec_entries(n - 1);
            let role = role_at(n - 1);
            if self.count(role) > 0 {
                prev.push((role, self.count(role) as u32))
            } else {
                prev
            }
        }
    }

    /// The roles present, with their counts, in the fixed role order.
    pub fn entries(&self) -> (r: Vec<(Role, u32)>)
        ensures
            r@ == self.spec_entries(ROLE_COUNT as int),
    {
        proof {
            use_type_invariant(self);
        }
        let mut out: Vec<(Role, u32)> = Vec::new();
        let mut i: usize = 0;
        while i < ROLE_COUNT
            invariant
                i <= ROLE_COUNT,
                self.counts@.len() == ROLE_COUNT,
                out@ == self.spec_entries(i as int),
            decreases ROLE_COUNT - i,
        {
            let role = Role::from_index(i);
            let c = self.counts[i];
            if c > 0 {
                out.push((role, c));
            }
            i = i + 1;
        }
        out
    }
}

impl Clone for Roster {
    fn clone(&self) -> (r: Roster)
        ensures
            forall|role: Role| r.count(role) == self.count(role),
    {
        proof {
            use_type_invariant(self);
        }
        let counts = self.counts.clone();
        assert(counts@ =~= self.counts@);
        Roster { counts }
    }
}

/// Hourly rates per role (explicit entries over the built-in defaults) and
/// the two global multipliers.
pub struct Config {
    rates: Vec<Option<u32>>,
    context_switch_percent: u32,
    include_benefits: bool,
}

impl Config {
    #[verifier::type_invariant]
    spec fn inv(self) -> bool {
        self.rates@.len() == ROLE_COUNT
    }

    /// The hourly rate of `role` in cents: the explicit entry if there is one,
    /// else the role's built-in rate.
    pub closed spec fn rate(self, role: Role) -> nat {
        match self.rates@[role.idx()] {
            Some(r) => r as nat,
            None => role.spec_default_rate(),
        }
    }

    /// The explicit entry for `role`, if any.
    pub closed spec fn explicit_rate(self, role: Role) -> Option<u32> {
        self.rates@[role.idx()]
    }

    /// The context-switch multiplier in hundredths (100 is a factor of one).
    pub closed spec fn multiplier(self) -> nat {
        self.context_switch_percent as nat
    }

    /// Whether the benefits overhead applies.
    pub closed spec fn benefits(self) -> bool {
        self.include_benefits
    }

    pub proof fn lemma_rate_bound(self, role: Role)
        ensures
            self.rate(role) <= u32::MAX,
    {
    }

    pub proof fn lemma_multiplier_bound(self)
        ensures
            self.multiplier() <= u32::MAX,
    {
    }

    /// A table with the given multiplier and benefits flag and no explicit rates.
    pub fn new(context_switch_percent: u32, include_benefits: bool) -> (r: Config)
        ensures
            forall|role: Role| r.explicit_rate(role) is None,
            forall|role: Role| r.rate(role) == role.spec_default_rate(),
            r.multiplier() == context_switch_percent as nat,
            r.benefits() == include_benefits,
    {
        let mut rates: Vec<Option<u32>> = Vec::new();
        let mut i: usize = 0;
        while i < ROLE_COUNT
            invariant
                i <= ROLE_COUNT,
                rates@.len() == i,
                forall|j: int| 0 <= j < i ==> rates@[j] is None,
            decreases ROLE_COUNT - i,
        {
            rates.push(None);
            i = i + 1;
        }
        Config { rates, context_switch_percent, include_benefits }
    }

    /// The hourly rate of `role` in cents; never fails.
    pub fn get_rate(&self, role: &Role) -> (r: u32)
        ensures
            r as nat == self.rate(*role),
    {
        proof {
            use_type_invariant(self);
        }
        match self.rates[role.index()] {
            Some(r) => r,
            None => role.default_rate(),
        }
    }

    /// The explicit entry for `role`, if any.
    pub fn get_explicit_rate(&self, role: Role) -> (r: Option<u32>)
        ensures
            r == self.explicit_rate(role),
    {
        proof {
            use_type_invariant(self);
        }
        self.rates[role.index()]
    }

    /// Sets an explicit hourly rate, in cents, for `role`.
    pub fn set_rate(&mut self, role: Role, cents: u32)
        ensures
            final(self).explicit_rate(role) == Some(cents),
            final(self).rate(role) == cents as nat,
            forall|other: Role|
                other != role ==> final(self).explicit_rate(other) == old(self).explicit_rate(other)
                    && final(self).rate(other) == old(self).rate(other),
            final(self).multiplier() == old(self).multiplier(),
            final(self).benefits() == old(self).benefits(),
    {
        proof {
            use_type_invariant(&*self);
        }
        let i = role.index();
        let mut rates = self.rates.clone();
        assert(rates@ =~= self.rates@);
        rates.set(i, Some(cents));
        self.rates = rates;
    }

    pub fn context_switch_percent(&self) -> (r: u32)
        ensures
            r as nat == self.multiplier(),
    {
        self.context_switch_percent
    }

    pub fn include_benefits(&self) -> (r: bool)
        ensures
            r == self.benefits(),
    {
        self.include_benefits
    }
}

impl Clone for Config {
    fn clone(&self) -> (r: Config)
        ensures
            forall|role: Role| r.explicit_rate(role) == self.explicit_rate(role),
            forall|role: Role| r.rate(role) == self.rate(role),
            r.multiplier() == self.multiplier(),
            r.benefits() == self.benefits(),
    {
        proof {
            use_type_invariant(self);
        }
        let rates = self.rates.clone();
        assert(rates@ =~= self.rates@);
        Config {
            rates,
            context_switch_percent: self.context_switch_percent,
            include_benefits: self.include_benefits,
        }
    }
}

impl Default for Config {
    /// Built-in rates for every role, a multiplier of one, no benefits overhead.
    fn default() -> (r: Config)
        ensures
            forall|role: Role| r.rate(role) == role.spec_default_rate(),
            r.multiplier() == 100,
            !r.benefits(),
    {
        Config::new(100, false)
    }
}


/// Minutes in a span of `secs` seconds, rounded toward zero.
pub open spec fn whole_minutes(secs: int) -> int {
    if secs >= 0 {
        secs / 60
    } else {
        -((-secs) / 60)
    }
}

/// A signed length of time, in whole seconds: the resolution of every instant
/// here, since a live session ticks by the second and cost counts whole minutes.
#[derive(Debug, Clone, Copy, PartialEq, Eq, Structural)]
pub struct Span {
    pub secs: i64,
}

impl Span {
    pub fn seconds(secs: i64) -> (r: Span)
        ensures
            r.secs == secs,
    {
        Span { secs }
    }

    pub fn minutes(m: i64) -> (r: Span)
        requires
            i64::MIN <= m * 60 <= i64::MAX,
        ensures
            r.secs == m * 60,
    {
        Span { secs: m * 60 }
    }

    pub fn hours(h: i64) -> (r: Span)
        requires
            i64::MIN <= h * 3600 <= i64::MAX,
        ensures
            r.secs == h * 3600,
    {
        Span { secs: h * 3600 }
    }

    /// Whole minutes in the span, rounded toward zero.
    pub fn num_minutes(&self) -> (r: i64)
        ensures
            r as int == whole_minutes(self.secs as int),
    {
        if self.secs >= 0 {
            self.secs / 60
        } else {
            let p: u64 = ((-(self.secs + 1)) as u64) + 1;
            -((p / 60) as i64)
        }
    }
}

/// A wall-clock instant: seconds since 1970-01-01 00:00 local time, with no
/// time-zone conversion.
#[derive(Debug, Clone, Copy, PartialEq, Eq, Structural)]
pub struct Timestamp {
    pub secs: i64,
}

/// A time of day.
#[derive(Debug, Clone, Copy, PartialEq, Eq, Structural)]
pub struct ClockTime {
    hour: u32,
    minute: u32,
    second: u32,
}

impl ClockTime {
    pub closed spec fn spec_hour(self) -> nat {
        self.hour as nat
    }

    pub closed spec fn spec_minute(self) -> nat {
        self.minute as nat
    }

    pub closed spec fn spec_second(self) -> nat {
        self.second as nat
    }

    /// Seconds since midnight.
    pub open spec fn secs_of_day(self) -> int {
        (self.spec_hour() * 3600 + self.spec_minute() * 60 + self.spec_second()) as int
    }

    pub closed spec fn valid(self) -> bool {
        self.hour < 24 && self.minute < 60 && self.second < 60
    }

    /// The time `hour:minute:second`, if each part is in range.
    pub fn from_hms_opt(hour: u32, minute: u32, second: u32) -> (r: Option<ClockTime>)
        ensures
            r is Some <==> (hour < 24 && minute < 60 && second < 60),
            r matches Some(t) ==> t.spec_hour() == hour && t.spec_minute() == minute
                && t.spec_second() == second && t.valid(),
    {
        if hour < 24 && minute < 60 && second < 60 {
            Some(ClockTime { hour, minute, second })
        } else {
            None
        }
    }

    pub fn hour(&self) -> (r: u32)
        ensures
            r as nat == self.spec_hour(),
    {
        self.hour
    }

    pub fn minute(&self) -> (r: u32)
        ensures
            r as nat == self.spec_minute(),
    {
        self.minute
    }

    pub fn second(&self) -> (r: u32)
        ensures
            r as nat == self.spec_second(),
    {
        self.second
    }

    /// Seconds since midnight.
    pub fn seconds_of_day(&self) -> (r: i64)
        requires
            self.valid(),
        ensures
            r as int == self.secs_of_day(),
            0 <= r < SECS_PER_DAY,
    {
        (self.hour as i64) * 3600 + (self.minute as i64) * 60 + (self.second as i64)
    }
}

/// A finished meeting: an identifier, its interval, the roster, and its cost
/// in cost units (see `calculator`).
pub struct Meeting {
    pub id: String,
    pub start_time: Timestamp,
    pub end_time: Timestamp,
    pub attendees: Roster,
    pub cost: u128,
    pub notes: Option<String>,
}

/// Relies on uuid's `Uuid::new_v4` and its `Display`, which writes the
/// hyphenated form: 36 characters.
#[verifier::external_body]
fn new_meeting_id() -> (r: String)
    ensures
        r@.len() == 36,
{
    uuid::Uuid::new_v4().to_string()
}

impl Meeting {
    /// A record with a fresh identifier and no notes.
    pub fn new(start_time: Timestamp, end_time: Timestamp, attendees: Roster, cost: u128) -> (r: Meeting)
        ensures
            r.start_time == start_time,
            r.end_time == end_time,
            r.attendees == attendees,
            r.cost == cost,
            r.notes is None,
            r.id@.len() == 36,
    {
        Meeting { id: new_meeting_id(), start_time, end_time, attendees, cost, notes: None }
    }

    /// Whole minutes from start to end, rounded toward zero.
    pub fn duration_minutes(&self) -> (r: i64)
        requires
            i64::MIN <= self.end_time.secs - self.start_time.secs <= i64::MAX,
        ensures
            r as int == whole_minutes(self.end_time.secs - self.start_time.secs),
    {
        let span = Span::seconds(self.end_time.secs - self.start_time.secs);
        span.num_minutes()
    }
}

} // verus!
