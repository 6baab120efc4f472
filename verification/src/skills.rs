//! The skills the skill picker offers.
use vstd::prelude::*;

verus! {

broadcast use vstd::string::group_string_axioms;

/// A runnable skill.
#[derive(Debug, Clone, Copy)]
pub struct Skill {
    pub id: &'static str,
    pub name: &'static str,
    pub description: &'static str,
}

/// The number of skills on offer.
pub const SKILL_COUNT: usize = 1;

/// The id of the skill that writes the daily activity report.
pub open spec fn daily_report_id() -> Seq<char> {
    "daily_report"@
}

/// The `i`-th skill of the picker.
pub fn skill(i: usize) -> (s: Skill)
    requires
        i < SKILL_COUNT,
    ensures
        s.id@ == daily_report_id(),
        s.name@ == "Daily Activity Report"@,
        s.description@
            == "Aggregate SOC data for the selected time window and generate a markdown report"@,
{
    Skill {
        id: "daily_report",
        name: "Daily Activity Report",
        description: "Aggregate SOC data for the selected time window and generate a markdown report",
    }
}

/// All skills, in picker order.
pub fn skills() -> (v: Vec<Skill>)
    ensures
        v@.len() == SKILL_COUNT,
        forall|i: int| 0 <= i < SKILL_COUNT ==> (#[trigger] v@[i]).id@ == daily_report_id(),
{
    let mut v = Vec::new();
    v.push(skill(0));
    v
}

} // verus!
