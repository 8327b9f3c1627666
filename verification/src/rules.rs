use vstd::prelude::*;
use crate::clock::{local_now, parse_schedule_time, schedule_time_of, weekday_name, LocalMoment, TimeOfDay, Timestamp, Weekday};
use crate::error::MacError;
use crate::mac::MacAddress;
use crate::text::{clone_strings, is_listed, join3, lowercase_of, names, same_text};

verus! {

/// When a rule applies: on the listed days, from the start time to the end
/// time, both included. The start is never after the end.
#[derive(Debug)]
pub struct Schedule {
    days: Vec<String>,
    start_time: TimeOfDay,
    end_time: TimeOfDay,
}

/// The address that an interface should carry while an application runs.
#[derive(Debug)]
pub struct AppRule {
    pub app_name: String,
    pub service_name: Option<String>,
    pub mac_address: MacAddress,
    pub interface: String,
    pub schedule: Option<Schedule>,
    pub last_applied: Option<Timestamp>,
    pub enabled: bool,
}

/// The rules, at most one for each pair of application and interface, in
/// the order in which their pairs were first added.
#[derive(Debug)]
pub struct RuleManager {
    rules: Vec<AppRule>,
}

/// Whether a day is among the listed names, letter case aside.
pub open spec fn day_listed(days: Seq<Seq<char>>, day: Weekday) -> bool {
    exists|i: int| 0 <= i < days.len() && lowercase_of(#[trigger] days[i]) == weekday_name(day)
}

/// The text that explains a schedule time that cannot be read.
pub open spec fn unreadable_time_text() -> Seq<char> {
    "Schedule times must be written as HH:MM"@
}

/// The text that explains a schedule that would run past midnight.
pub open spec fn overnight_text() -> Seq<char> {
    "Schedule start time must not be after its end time"@
}

impl Schedule {
    #[verifier::type_invariant]
    spec fn ordered(&self) -> bool {
        self.start_time.not_after(self.end_time)
    }

    /// The listed day names, as they were given.
    pub closed spec fn day_names(&self) -> Seq<Seq<char>> {
        names(self.days@)
    }

    /// The first time of day at which the schedule applies.
    pub closed spec fn start(&self) -> TimeOfDay {
        self.start_time
    }

    /// The last time of day at which the schedule applies.
    pub closed spec fn end(&self) -> TimeOfDay {
        self.end_time
    }

    /// Whether the schedule applies at a moment: its day is listed and its
    /// time lies between start and end, both included.
    pub open spec fn admits(&self, now: LocalMoment) -> bool {
        &&& day_listed(self.day_names(), now.weekday)
        &&& self.start().not_after(now.time)
        &&& now.time.not_after(self.end())
    }

    /// A schedule from day names and two times written as `HH:MM`. A time
    /// that cannot be read is rejected as `InvalidFormat`; a start after
    /// the end is rejected as `ValidationFailed`.
    pub fn new(days: Vec<String>, start_time: &str, end_time: &str) -> (made: Result<
        Schedule,
        MacError,
    >)
        ensures
            match made {
                Ok(schedule) => {
                    &&& schedule.day_names() == names(days@)
                    &&& schedule_time_of(start_time@) == Some(schedule.start())
                    &&& schedule_time_of(end_time@) == Some(schedule.end())
                    &&& schedule.start().not_after(schedule.end())
                },
                Err(MacError::InvalidFormat(m)) => {
                    &&& schedule_time_of(start_time@) is None || schedule_time_of(end_time@) is None
                    &&& m@ == unreadable_time_text()
                },
                Err(MacError::ValidationFailed(m)) => {
                    &&& schedule_time_of(start_time@) matches Some(start)
                    &&& schedule_time_of(end_time@) matches Some(end)
                    &&& !start.not_after(end)
                    &&& m@ == overnight_text()
                },
                Err(_) => false,
            },
    {
        match (parse_schedule_time(start_time), parse_schedule_time(end_time)) {
            (Some(start), Some(end)) => {
                if start.is_not_after(&end) {
                    Ok(Schedule { days, start_time: start, end_time: end })
                } else {
                    Err(
                        MacError::ValidationFailed(
                            "Schedule start time must not be after its end time".to_string(),
                        ),
                    )
                }
            },
            _ => Err(MacError::InvalidFormat("Schedule times must be written as HH:MM".to_string())),
        }
    }

    pub fn days(&self) -> (days: &Vec<String>)
        ensures
            names(days@) == self.day_names(),
    {
        &self.days
    }

    pub fn start_time(&self) -> (start: TimeOfDay)
        ensures
            start == self.start(),
            start.not_after(self.end()),
    {
        proof {
            use_type_invariant(self);
        }
        self.start_time
    }

    pub fn end_time(&self) -> (end: TimeOfDay)
        ensures
            end == self.end(),
            self.start().not_after(end),
    {
        proof {
            use_type_invariant(self);
        }
        self.end_time
    }

    /// Whether the schedule applies at a moment.
    pub fn is_open_at(&self, now: &LocalMoment) -> (open: bool)
        ensures
            open == self.admits(*now),
    {
        let today = now.weekday.name();
        let mut listed = false;
        let mut i: usize = 0;
        while i < self.days.len()
            invariant
                i <= self.days.len(),
                today@ == weekday_name(now.weekday),
                listed == exists|j: int|
                    0 <= j < i && lowercase_of(#[trigger] self.day_names()[j]) == weekday_name(
                        now.weekday,
                    ),
            decreases self.days.len() - i,
        {
            let lowered = self.days[i].as_str().to_lowercase();
            assert(self.day_names()[i as int] == self.days@[i as int]@);
            if same_text(lowered.as_str(), today) {
                listed = true;
            }
            i += 1;
        }
        listed && self.start_time.is_not_after(&now.time) && now.time.is_not_after(&self.end_time)
    }
}

/// Whether a rule is in force at a moment: it is enabled and either has no
/// schedule or has one that applies then.
pub open spec fn rule_active_at(rule: AppRule, now: LocalMoment) -> bool {
    rule.enabled && match rule.schedule {
        None => true,
        Some(schedule) => schedule.admits(now),
    }
}

impl Clone for Schedule {
    fn clone(&self) -> (copy: Schedule)
        ensures
            copy.day_names() == self.day_names(),
            copy.start() == self.start(),
            copy.end() == self.end(),
    {
        proof {
            use_type_invariant(self);
        }
        Schedule {
            days: clone_strings(&self.days),
            start_time: self.start_time,
            end_time: self.end_time,
        }
    }
}

impl AppRule {
    /// The pair that names a rule: its application and its interface.
    pub open spec fn key(&self) -> (Seq<char>, Seq<char>) {
        (self.app_name@, self.interface@)
    }

    /// The text under which a rule is filed: its application, a colon and
    /// its interface.
    pub open spec fn filed_as(&self) -> Seq<char> {
        self.app_name@ + ":"@ + self.interface@
    }

    /// The text under which a rule is filed.
    pub fn file_key(&self) -> (key: String)
        ensures
            key@ == self.filed_as(),
    {
        join3(self.app_name.as_str(), ":", self.interface.as_str())
    }

    /// Whether two rules say the same.
    pub open spec fn agrees_with(&self, other: AppRule) -> bool {
        &&& self.app_name@ == other.app_name@
        &&& self.interface@ == other.interface@
        &&& self.mac_address == other.mac_address
        &&& self.enabled == other.enabled
        &&& self.last_applied == other.last_applied
        &&& match (self.service_name, other.service_name) {
            (Some(a), Some(b)) => a@ == b@,
            (None, None) => true,
            _ => false,
        }
        &&& match (self.schedule, other.schedule) {
            (Some(a), Some(b)) => a.day_names() == b.day_names() && a.start() == b.start()
                && a.end() == b.end(),
            (None, None) => true,
            _ => false,
        }
    }
}

impl Clone for AppRule {
    fn clone(&self) -> (copy: AppRule)
        ensures
            copy.agrees_with(*self),
    {
        AppRule {
            app_name: self.app_name.clone(),
            service_name: match &self.service_name {
                Some(name) => Some(name.clone()),
                None => None,
            },
            mac_address: self.mac_address,
            interface: self.interface.clone(),
            schedule: match &self.schedule {
                Some(schedule) => Some(schedule.clone()),
                None => None,
            },
            last_applied: self.last_applied,
            enabled: self.enabled,
        }
    }
}

/// Whether no two of the rules share a key.
pub open spec fn distinct_keys(rules: Seq<AppRule>) -> bool {
    forall|i: int, j: int|
        0 <= i < j < rules.len() ==> (#[trigger] rules[i]).key() != (#[trigger] rules[j]).key()
}

/// Where the rule with a key stands, or the number of rules where none has it.
pub open spec fn position_of(rules: Seq<AppRule>, key: (Seq<char>, Seq<char>)) -> int
    decreases rules.len(),
{
    if rules.len() == 0 {
        0
    } else if rules[0].key() == key {
        0
    } else {
        1 + position_of(rules.skip(1), key)
    }
}

/// `position_of` gives the first place at which the key stands.
pub proof fn lemma_position_of(rules: Seq<AppRule>, key: (Seq<char>, Seq<char>), at: int)
    requires
        0 <= at <= rules.len(),
        forall|j: int| 0 <= j < at ==> (#[trigger] rules[j]).key() != key,
        at == rules.len() || rules[at].key() == key,
    ensures
        position_of(rules, key) == at,
    decreases at,
{
    if at > 0 {
        let rest = rules.skip(1);
        assert forall|j: int| 0 <= j < at - 1 implies (#[trigger] rest[j]).key() != key by {
            assert(rest[j] == rules[j + 1]);
        }
        lemma_position_of(rest, key, at - 1);
    }
}

/// The rules after one is added: the rule takes the place of the one with
/// its key, or comes last where no rule has its key.
pub open spec fn with_rule(rules: Seq<AppRule>, rule: AppRule) -> Seq<AppRule> {
    let at = position_of(rules, rule.key());
    if 0 <= at < rules.len() {
        rules.update(at, rule)
    } else {
        rules.push(rule)
    }
}

/// The rules after the one with a key is taken out, the others in order.
pub open spec fn without_rule(rules: Seq<AppRule>, key: (Seq<char>, Seq<char>)) -> Seq<AppRule> {
    let at = position_of(rules, key);
    if 0 <= at < rules.len() {
        rules.remove(at)
    } else {
        rules
    }
}

/// Whether a rule calls for its address at a moment: it is for the
/// interface, its application runs, and it is in force.
pub open spec fn rule_applies(
    rule: AppRule,
    interface: Seq<char>,
    running: Seq<Seq<char>>,
    now: LocalMoment,
) -> bool {
    &&& rule.interface@ == interface
    &&& running.contains(rule.app_name@)
    &&& rule_active_at(rule, now)
}

/// The address that the rules call for: that of the first rule, in the
/// order of the store, that applies; none where no rule applies.
pub open spec fn override_for(
    rules: Seq<AppRule>,
    interface: Seq<char>,
    running: Seq<Seq<char>>,
    now: LocalMoment,
) -> Option<MacAddress>
    decreases rules.len(),
{
    if rules.len() == 0 {
        None
    } else if rule_applies(rules[0], interface, running, now) {
        Some(rules[0].mac_address)
    } else {
        override_for(rules.skip(1), interface, running, now)
    }
}

/// The first rule that applies decides: where a rule applies and none
/// before it does, the override is that rule's address, whatever follows.
pub proof fn law_first_match_wins(
    rules: Seq<AppRule>,
    interface: Seq<char>,
    running: Seq<Seq<char>>,
    now: LocalMoment,
    first: int,
)
    requires
        0 <= first < rules.len(),
        rule_applies(rules[first], interface, running, now),
        forall|j: int| 0 <= j < first ==> !rule_applies(#[trigger] rules[j], interface, running, now),
    ensures
        override_for(rules, interface, running, now) == Some(rules[first].mac_address),
    decreases first,
{
    if first > 0 {
        let rest = rules.skip(1);
        assert(!rule_applies(rules[0], interface, running, now));
        assert forall|j: int| 0 <= j < first - 1 implies !rule_applies(
            #[trigger] rest[j],
            interface,
            running,
            now,
        ) by {
            assert(rest[j] == rules[j + 1]);
        }
        assert(rest[first - 1] == rules[first]);
        law_first_match_wins(rest, interface, running, now, first - 1);
    }
}

/// Where no rule applies there is no override.
pub proof fn law_no_match_no_override(
    rules: Seq<AppRule>,
    interface: Seq<char>,
    running: Seq<Seq<char>>,
    now: LocalMoment,
)
    requires
        forall|j: int|
            0 <= j < rules.len() ==> !rule_applies(#[trigger] rules[j], interface, running, now),
    ensures
        override_for(rules, interface, running, now) is None,
    decreases rules.len(),
{
    if rules.len() > 0 {
        let rest = rules.skip(1);
        assert(!rule_applies(rules[0], interface, running, now));
        assert forall|j: int| 0 <= j < rest.len() implies !rule_applies(
            #[trigger] rest[j],
            interface,
            running,
            now,
        ) by {
            assert(rest[j] == rules[j + 1]);
        }
        law_no_match_no_override(rest, interface, running, now);
    }
}

/// Where no running application has a rule for the interface there is no
/// override, whatever the rules' schedules say.
pub proof fn law_no_running_app_no_override(
    rules: Seq<AppRule>,
    interface: Seq<char>,
    running: Seq<Seq<char>>,
    now: LocalMoment,
)
    requires
        forall|j: int|
            0 <= j < rules.len() && (#[trigger] rules[j]).interface@ == interface
                ==> !running.contains(rules[j].app_name@),
    ensures
        override_for(rules, interface, running, now) is None,
{
    law_no_match_no_override(rules, interface, running, now);
}

/// Where exactly one rule applies, the override is its address.
pub proof fn law_sole_match(
    rules: Seq<AppRule>,
    interface: Seq<char>,
    running: Seq<Seq<char>>,
    now: LocalMoment,
    only: int,
)
    requires
        0 <= only < rules.len(),
        rule_applies(rules[only], interface, running, now),
        forall|j: int|
            0 <= j < rules.len() && j != only ==> !rule_applies(
                #[trigger] rules[j],
                interface,
                running,
                now,
            ),
    ensures
        override_for(rules, interface, running, now) == Some(rules[only].mac_address),
{
    law_first_match_wins(rules, interface, running, now, only);
}

/// Where two rules apply at once, the one that stands first in the store
/// decides, provided no rule before it applies.
pub proof fn law_earlier_of_two_wins(
    rules: Seq<AppRule>,
    interface: Seq<char>,
    running: Seq<Seq<char>>,
    now: LocalMoment,
    earlier: int,
    later: int,
)
    requires
        0 <= earlier < later < rules.len(),
        rule_applies(rules[earlier], interface, running, now),
        rule_applies(rules[later], interface, running, now),
        forall|j: int|
            0 <= j < earlier ==> !rule_applies(#[trigger] rules[j], interface, running, now),
    ensures
        override_for(rules, interface, running, now) == Some(rules[earlier].mac_address),
{
    law_first_match_wins(rules, interface, running, now, earlier);
}

/// An override is always the address of a rule that applies.
pub proof fn law_override_comes_from_a_rule(
    rules: Seq<AppRule>,
    interface: Seq<char>,
    running: Seq<Seq<char>>,
    now: LocalMoment,
)
    requires
        override_for(rules, interface, running, now) is Some,
    ensures
        exists|i: int|
            0 <= i < rules.len() && rule_applies(#[trigger] rules[i], interface, running, now)
                && override_for(rules, interface, running, now) == Some(rules[i].mac_address),
    decreases rules.len(),
{
    if rule_applies(rules[0], interface, running, now) {
        assert(override_for(rules, interface, running, now) == Some(rules[0].mac_address));
    } else {
        let rest = rules.skip(1);
        law_override_comes_from_a_rule(rest, interface, running, now);
        let i = choose|i: int|
            0 <= i < rest.len() && rule_applies(#[trigger] rest[i], interface, running, now)
                && override_for(rest, interface, running, now) == Some(rest[i].mac_address);
        assert(rest[i] == rules[i + 1]);
    }
}

/// A disabled rule is never in force, and an enabled rule without a
/// schedule always is.
pub proof fn law_activity_without_schedule(rule: AppRule, now: LocalMoment)
    ensures
        !rule.enabled ==> !rule_active_at(rule, now),
        rule.enabled && rule.schedule is None ==> rule_active_at(rule, now),
{
}

/// A schedule applies at no moment earlier than its start or later than
/// its end.
pub proof fn law_schedule_bounds(schedule: Schedule, now: LocalMoment)
    requires
        !schedule.start().not_after(now.time) || !now.time.not_after(schedule.end()),
    ensures
        !schedule.admits(now),
{
}

/// Adding a rule keeps the keys distinct, and the store then holds the
/// rule under its key.
pub proof fn law_add_then_get(rules: Seq<AppRule>, rule: AppRule)
    requires
        distinct_keys(rules),
    ensures
        distinct_keys(with_rule(rules, rule)),
        0 <= position_of(with_rule(rules, rule), rule.key()) < with_rule(rules, rule).len(),
        with_rule(rules, rule)[position_of(with_rule(rules, rule), rule.key())] == rule,
        with_rule(rules, rule).len() == if position_of(rules, rule.key()) < rules.len() {
            rules.len()
        } else {
            rules.len() + 1
        },
{
    let at = position_of(rules, rule.key());
    lemma_position_bounds(rules, rule.key());
    let after = with_rule(rules, rule);
    assert forall|j: int| 0 <= j < at implies (#[trigger] after[j]).key() != rule.key() by {
        assert(after[j] == rules[j]);
    }
    lemma_position_of(after, rule.key(), at);
    assert forall|i: int, j: int| 0 <= i < j < after.len() implies (#[trigger] after[i]).key() != (
    #[trigger] after[j]).key() by {
        if at < rules.len() {
            assert(rules[i].key() != rules[j].key());
            assert(rules[at].key() == rule.key());
        } else if j < rules.len() {
            assert(rules[i].key() != rules[j].key());
        }
    }
}

/// Removing by key keeps the keys distinct and leaves no rule with the key.
pub proof fn law_remove_then_absent(rules: Seq<AppRule>, key: (Seq<char>, Seq<char>))
    requires
        distinct_keys(rules),
    ensures
        distinct_keys(without_rule(rules, key)),
        forall|i: int|
            0 <= i < without_rule(rules, key).len() ==> (#[trigger] without_rule(rules, key)[i]).key()
                != key,
{
    let at = position_of(rules, key);
    lemma_position_bounds(rules, key);
    let after = without_rule(rules, key);
    if at < rules.len() {
        assert forall|i: int| 0 <= i < after.len() implies (#[trigger] after[i]).key() != key by {
            let a = if i < at { i } else { i + 1 };
            assert(after[i] == rules[a]);
            if a > at {
                assert(rules[at].key() != rules[a].key());
            }
        }
        assert forall|i: int, j: int| 0 <= i < j < after.len() implies (#[trigger] after[i]).key()
            != (#[trigger] after[j]).key() by {
            let a = if i < at { i } else { i + 1 };
            let b = if j < at { j } else { j + 1 };
            assert(rules[a].key() != rules[b].key());
        }
    }
}

/// `position_of` lies within the store or just past it; within it, the
/// rule there has the key and no earlier rule has.
pub proof fn lemma_position_bounds(rules: Seq<AppRule>, key: (Seq<char>, Seq<char>))
    ensures
        0 <= position_of(rules, key) <= rules.len(),
        position_of(rules, key) < rules.len() ==> rules[position_of(rules, key)].key() == key,
        forall|j: int| 0 <= j < position_of(rules, key) ==> (#[trigger] rules[j]).key() != key,
    decreases rules.len(),
{
    if rules.len() > 0 && rules[0].key() != key {
        let rest = rules.skip(1);
        lemma_position_bounds(rest, key);
        assert forall|j: int| 0 <= j < position_of(rules, key) implies (#[trigger] rules[j]).key()
            != key by {
            if j > 0 {
                assert(rest[j - 1] == rules[j]);
            }
        }
    }
}

/// Looks for the rule with a key: its place, or the number of rules where
/// none has the key.
fn find_rule(rules: &Vec<AppRule>, app_name: &str, interface: &str) -> (at: usize)
    ensures
        at == position_of(rules@, (app_name@, interface@)),
        at <= rules@.len(),
        at < rules@.len() ==> rules@[at as int].key() == (app_name@, interface@),
        forall|j: int| 0 <= j < at ==> (#[trigger] rules@[j]).key() != (app_name@, interface@),
{
    let mut i: usize = 0;
    while i < rules.len()
        invariant
            i <= rules.len(),
            forall|j: int| 0 <= j < i ==> (#[trigger] rules@[j]).key() != (app_name@, interface@),
        decreases rules.len() - i,
    {
        if same_text(rules[i].app_name.as_str(), app_name) && same_text(
            rules[i].interface.as_str(),
            interface,
        ) {
            proof {
                lemma_position_of(rules@, (app_name@, interface@), i as int);
            }
            return i;
        }
        i += 1;
    }
    proof {
        lemma_position_of(rules@, (app_name@, interface@), i as int);
    }
    i
}

impl RuleManager {
    #[verifier::type_invariant]
    spec fn keys_are_distinct(&self) -> bool {
        distinct_keys(self.rules@)
    }

    /// The rules in the order of the store.
    pub closed spec fn view(&self) -> Seq<AppRule> {
        self.rules@
    }

    /// A store without rules.
    pub fn new() -> (manager: RuleManager)
        ensures
            manager@.len() == 0,
    {
        RuleManager { rules: Vec::new() }
    }

    /// The rules after each of a list was added, in the order of the list.
    pub open spec fn with_rules(rules: Seq<AppRule>, added: Seq<AppRule>) -> Seq<AppRule>
        decreases added.len(),
    {
        if added.len() == 0 {
            rules
        } else {
            Self::with_rules(with_rule(rules, added[0]), added.skip(1))
        }
    }

    /// A store that holds the rules of a list, added in order: of two
    /// rules for the same application and interface the later one stays,
    /// at the place of the earlier.
    pub fn from_rules(rules: Vec<AppRule>) -> (manager: RuleManager)
        ensures
            manager@ == Self::with_rules(Seq::empty(), rules@),
            distinct_keys(manager@),
    {
        let mut manager = RuleManager::new();
        let mut rest = rules;
        assert(manager@ =~= Seq::<AppRule>::empty());
        while rest.len() > 0
            invariant
                Self::with_rules(Seq::empty(), rules@) == Self::with_rules(manager@, rest@),
                distinct_keys(manager@),
            decreases rest.len(),
        {
            let ghost before = rest@;
            let rule = rest.remove(0);
            assert(rest@ =~= before.skip(1));
            manager.add_rule(rule);
        }
        manager
    }

    /// How many rules the store holds.
    pub fn len(&self) -> (n: usize)
        ensures
            n == self@.len(),
    {
        self.rules.len()
    }

    /// Adds a rule. A rule for the same application and interface is
    /// replaced where it stands; a rule with a new key comes last.
    pub fn add_rule(&mut self, rule: AppRule)
        ensures
            final(self)@ == with_rule(old(self)@, rule),
            distinct_keys(final(self)@),
    {
        proof {
            use_type_invariant(&*self);
        }
        let mut rules: Vec<AppRule> = Vec::new();
        std::mem::swap(&mut self.rules, &mut rules);
        let at = find_rule(&rules, rule.app_name.as_str(), rule.interface.as_str());
        let ghost before = rules@;
        if at < rules.len() {
            rules.set(at, rule);
            assert forall|i: int, j: int| 0 <= i < j < rules@.len() implies (#[trigger] rules@[i]).key()
                != (#[trigger] rules@[j]).key() by {
                assert(before[i].key() != before[j].key());
            }
        } else {
            rules.push(rule);
            assert forall|i: int, j: int| 0 <= i < j < rules@.len() implies (#[trigger] rules@[i]).key()
                != (#[trigger] rules@[j]).key() by {
                if j < before.len() {
                    assert(before[i].key() != before[j].key());
                } else {
                    assert(before[i].key() != rule.key());
                }
            }
        }
        self.rules = rules;
    }

    /// Takes out the rule for an application and an interface, if there is one.
    pub fn remove_rule(&mut self, app_name: &str, interface: &str)
        ensures
            final(self)@ == without_rule(old(self)@, (app_name@, interface@)),
            distinct_keys(final(self)@),
    {
        proof {
            use_type_invariant(&*self);
        }
        let mut rules: Vec<AppRule> = Vec::new();
        std::mem::swap(&mut self.rules, &mut rules);
        let at = find_rule(&rules, app_name, interface);
        let ghost before = rules@;
        if at < rules.len() {
            rules.remove(at);
            assert forall|i: int, j: int| 0 <= i < j < rules@.len() implies (#[trigger] rules@[i]).key()
                != (#[trigger] rules@[j]).key() by {
                let a = if i < at { i } else { i + 1 };
                let b = if j < at { j } else { j + 1 };
                assert(before[a].key() != before[b].key());
            }
        }
        self.rules = rules;
    }

    /// The rule for an application and an interface, if there is one.
    pub fn get_rule(&self, app_name: &str, interface: &str) -> (found: Option<&AppRule>)
        ensures
            match found {
                Some(rule) => {
                    &&& 0 <= position_of(self@, (app_name@, interface@)) < self@.len()
                    &&& *rule == self@[position_of(self@, (app_name@, interface@))]
                    &&& rule.key() == (app_name@, interface@)
                },
                None => forall|i: int|
                    0 <= i < self@.len() ==> (#[trigger] self@[i]).key() != (app_name@, interface@),
            },
    {
        let at = find_rule(&self.rules, app_name, interface);
        if at < self.rules.len() {
            Some(&self.rules[at])
        } else {
            None
        }
    }

    /// Every rule, in the order of the store.
    pub fn list_rules(&self) -> (listed: Vec<&AppRule>)
        ensures
            listed@.len() == self@.len(),
            forall|i: int| 0 <= i < listed@.len() ==> *(#[trigger] listed@[i]) == self@[i],
            distinct_keys(self@),
    {
        proof {
            use_type_invariant(self);
        }
        let mut listed: Vec<&AppRule> = Vec::new();
        let mut i: usize = 0;
        while i < self.rules.len()
            invariant
                i <= self.rules.len(),
                listed@.len() == i,
                forall|j: int| 0 <= j < i ==> *(#[trigger] listed@[j]) == self.rules@[j],
            decreases self.rules.len() - i,
        {
            listed.push(&self.rules[i]);
            i += 1;
        }
        listed
    }

    /// Whether a rule is in force at a moment.
    pub fn is_rule_active_at(&self, rule: &AppRule, now: &LocalMoment) -> (active: bool)
        ensures
            active == rule_active_at(*rule, *now),
    {
        if !rule.enabled {
            return false;
        }
        match &rule.schedule {
            Some(schedule) => schedule.is_open_at(now),
            None => true,
        }
    }

    /// Whether a rule is in force now, by the local clock. A disabled rule
    /// never is and an enabled rule without a schedule always is; for any
    /// other rule the answer is that of some moment the clock can show.
    pub fn is_rule_active(&self, rule: &AppRule) -> (active: bool)
        ensures
            !rule.enabled ==> !active,
            rule.enabled && rule.schedule is None ==> active,
            exists|now: LocalMoment| now.time.is_valid() && active == rule_active_at(*rule, now),
    {
        let now = local_now();
        self.is_rule_active_at(rule, &now)
    }

    /// The address that the rules call for on an interface at a moment,
    /// given the names of the running applications: that of the first
    /// rule, in the order of the store, that is for the interface, whose
    /// application runs and that is in force. None where no rule applies.
    pub fn select_override(
        &self,
        interface: &str,
        running_apps: &Vec<String>,
        now: &LocalMoment,
    ) -> (chosen: Option<MacAddress>)
        ensures
            chosen == override_for(self@, interface@, names(running_apps@), *now),
    {
        let mut i: usize = 0;
        assert(self.rules@.skip(0) =~= self.rules@);
        while i < self.rules.len()
            invariant
                i <= self.rules.len(),
                override_for(self.rules@, interface@, names(running_apps@), *now) == override_for(
                    self.rules@.skip(i as int),
                    interface@,
                    names(running_apps@),
                    *now,
                ),
            decreases self.rules.len() - i,
        {
            let rule = &self.rules[i];
            let ghost rest = self.rules@.skip(i as int);
            assert(rest[0] == *rule);
            assert(rest.skip(1) =~= self.rules@.skip(i + 1));
            if same_text(rule.interface.as_str(), interface) && is_listed(
                running_apps,
                rule.app_name.as_str(),
            ) && self.is_rule_active_at(rule, now) {
                return Some(rule.mac_address);
            }
            i += 1;
        }
        None
    }
}

} // verus!
