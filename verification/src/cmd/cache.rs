//! The commands on the cache.

use vstd::prelude::*;
use vstd::string::*;

use crate::cargo::workspace;
use crate::cargo::workspace::{UnitPlan, UnitPlanInfo};
use crate::text;

verus! {

/// A command on the cache.
#[derive(Debug)]
pub enum Command {
    /// All that is in the cache is deleted.
    Reset(ResetOptions),
    /// The directory of the local cache is shown.
    Show,
}

/// How a cache is reset.
#[derive(Debug, Clone, Copy, PartialEq, Eq, Structural)]
pub struct ResetOptions {
    /// Whether nothing is asked.
    pub yes: bool,
    /// Whether the remote cache is reset.
    pub remote: bool,
}

/// What is done to reset a cache.
#[derive(Debug, Clone, Copy, PartialEq, Eq, Structural)]
pub enum ResetStep {
    /// The user is told to say which cache.
    NothingChosen,
    /// The user is asked.
    Confirm,
    /// Nothing: the user did not want it.
    Stop,
    /// The remote cache is reset.
    ResetRemote,
}

/// What is done to reset a cache, given what the user said, if they were asked.
pub open spec fn reset_step(o: ResetOptions, confirmed: Option<bool>) -> ResetStep {
    if !o.remote {
        ResetStep::NothingChosen
    } else if o.yes || confirmed == Some(true) {
        ResetStep::ResetRemote
    } else if confirmed is None {
        ResetStep::Confirm
    } else {
        ResetStep::Stop
    }
}

impl ResetOptions {
    /// What is done, given what the user said, if they were asked.
    pub fn step(&self, confirmed: Option<bool>) -> (r: ResetStep)
        ensures
            r == reset_step(*self, confirmed),
    {
        if !self.remote {
            return ResetStep::NothingChosen;
        }
        if self.yes {
            return ResetStep::ResetRemote;
        }
        match confirmed {
            None => ResetStep::Confirm,
            Some(true) => ResetStep::ResetRemote,
            Some(false) => ResetStep::Stop,
        }
    }
}

/// Which units are shown.
#[derive(Debug)]
pub struct ShowFilter {
    pub name: Option<String>,
    pub version: Option<String>,
}

/// Whether a unit is shown: all units are, unless a package or a version is asked for.
pub open spec fn is_shown(filter: ShowFilter, info: workspace::UnitPlanInfoView) -> bool {
    &&& filter.name matches Some(name) ==> info.package_name == name@
    &&& filter.version matches Some(version) ==> info.package_version == version@
}

/// The units that are shown, in order.
pub open spec fn shown(filter: ShowFilter, units: Seq<workspace::UnitPlanView>) -> Seq<
    workspace::UnitPlanView,
>
    decreases units.len(),
{
    if units.len() == 0 {
        Seq::empty()
    } else {
        let before = shown(filter, units.drop_last());
        if is_shown(filter, units.last().info()) {
            before.push(units.last())
        } else {
            before
        }
    }
}

impl ShowFilter {
    /// Whether a unit is shown.
    pub fn matches(&self, info: &UnitPlanInfo) -> (r: bool)
        ensures
            r == is_shown(*self, info@),
    {
        if let Some(name) = &self.name {
            if !text::same(info.package_name.as_str(), name.as_str()) {
                return false;
            }
        }
        if let Some(version) = &self.version {
            if !text::same(info.package_version.as_str(), version.as_str()) {
                return false;
            }
        }
        true
    }

    /// The units that are shown, in order.
    pub fn select(&self, units: Vec<UnitPlan>) -> (r: Vec<UnitPlan>)
        ensures
            workspace::plan_views(r@) == shown(*self, workspace::plan_views(units@)),
    {
        let ghost all = workspace::plan_views(units@);
        let ghost list = units@;
        let mut rest: Vec<UnitPlan> = units;
        let mut r: Vec<UnitPlan> = Vec::new();
        let ghost mut n: int = 0;
        assert(workspace::plan_views(r@) =~= shown(*self, all.take(0)));
        while rest.len() > 0
            invariant
                0 <= n <= list.len(),
                all == workspace::plan_views(list),
                rest@ == list.skip(n),
                workspace::plan_views(r@) == shown(*self, all.take(n)),
            decreases rest.len(),
        {
            let ghost before = workspace::plan_views(r@);
            let unit = rest.remove(0);
            assert(unit == list[n]);
            proof {
                assert(all.take(n + 1).drop_last() =~= all.take(n));
                assert(all.take(n + 1).last() == unit@);
            }
            if self.matches(unit.info()) {
                r.push(unit);
                assert(workspace::plan_views(r@) =~= before.push(unit@));
            }
            proof {
                assert(rest@ =~= list.skip(n + 1));
                n = n + 1;
            }
        }
        assert(all.take(n) =~= all);
        r
    }
}

/// Nothing is deleted before the user was asked, unless they said not to ask.
pub proof fn law_reset_needs_consent(o: ResetOptions, confirmed: Option<bool>)
    ensures
        reset_step(o, confirmed) is ResetRemote ==> o.remote && (o.yes || confirmed == Some(true)),
{
}

/// What is done to reset a cache: without a cache nothing is, with consent the remote cache
/// is reset, and without an answer the user is asked, unless they said not to ask.
pub proof fn law_reset_asks_once(o: ResetOptions, confirmed: Option<bool>)
    ensures
        reset_step(o, confirmed) is NothingChosen <==> !o.remote,
        reset_step(o, confirmed) is ResetRemote <==> o.remote && (o.yes || confirmed == Some(true)),
        reset_step(o, confirmed) is Confirm <==> o.remote && !o.yes && confirmed is None,
        reset_step(o, confirmed) is Stop <==> o.remote && !o.yes && confirmed == Some(false),
{
    if let Some(b) = confirmed {
        assert(b || confirmed == Some(false));
    }
}

proof fn lemma_shown_is_filtered(
    filter: ShowFilter,
    units: Seq<workspace::UnitPlanView>,
    keep: spec_fn(workspace::UnitPlanView) -> bool,
)
    requires
        forall|u: workspace::UnitPlanView| #[trigger] keep(u) == is_shown(filter, u.info()),
    ensures
        shown(filter, units) == units.filter(keep),
    decreases units.len(),
{
    reveal(Seq::filter);
    if units.len() > 0 {
        lemma_shown_is_filtered(filter, units.drop_last(), keep);
        assert(keep(units.last()) == is_shown(filter, units.last().info()));
    }
}

/// The units that are shown are those of the package and of the version that are asked
/// for, in their order. Where neither is asked for, all are.
pub proof fn law_shown_units_are_those_asked_for(
    filter: ShowFilter,
    units: Seq<workspace::UnitPlanView>,
)
    ensures
        shown(filter, units) == units.filter(
            |u: workspace::UnitPlanView|
                (filter.name is None || u.info().package_name == filter.name->0@) && (
                filter.version is None || u.info().package_version == filter.version->0@),
        ),
{
    lemma_shown_is_filtered(
        filter,
        units,
        |u: workspace::UnitPlanView|
            (filter.name is None || u.info().package_name == filter.name->0@) && (
            filter.version is None || u.info().package_version == filter.version->0@),
    );
}

} // verus!
