//! `update`: which mods are checked, how each check's answer is recorded,
//! what an applied update changes in a mod's record, and the report.
use vstd::prelude::*;
use crate::errors::YammmError;
use crate::output::{views_of_strings, DiagnosticKind, EventView, OutputEvent, StatusKind};
use crate::text::{decimal, str_eq, u64_to_decimal};
use crate::types::{Dependency, HashType, ModSource, SourceView, TrackedMod};

verus! {

/// A mod with a newer version available.
pub struct ModUpdate {
    pub id: String,
    pub name: String,
    pub current_version: String,
    pub latest_version: String,
    pub download_url: String,
    pub hash: Option<String>,
    pub hash_type: HashType,
}

/// The outcome of checking the mods: the available updates, and the mods
/// whose check failed with the reason.
pub struct UpdateCheckResult {
    pub updates: Vec<ModUpdate>,
    pub failed_checks: Vec<(String, String)>,
}

/// The latest version a provider reports.
pub struct LatestVersion {
    pub version: String,
    pub download_url: String,
    pub hash: Option<String>,
    pub hash_type: HashType,
}

/// A source that is looked up through a provider's API (not a plain URL).
pub open spec fn requires_api(s: SourceView) -> bool {
    !(s is Url)
}

/// A recorded mod is checked for updates when it comes from a provider and
/// was resolved.
pub fn needs_update_check(m: &TrackedMod) -> (b: bool)
    ensures
        b == (requires_api(m.source@) && !m.unresolved),
{
    let api = match &m.source {
        ModSource::Url { .. } => false,
        _ => true,
    };
    api && !m.unresolved
}

impl UpdateCheckResult {
    /// Nothing checked yet.
    pub fn new() -> (r: Self)
        ensures
            r.updates@.len() == 0,
            r.failed_checks@.len() == 0,
    {
        UpdateCheckResult { updates: Vec::new(), failed_checks: Vec::new() }
    }

    /// Records the answer of one check: an update when the latest version
    /// differs from the installed one, nothing when it is the same, and a
    /// failed check (by the mod's name) when the lookup failed.
    pub fn record_check_outcome(
        &mut self,
        id: &str,
        name: &str,
        current_version: &str,
        outcome: Result<LatestVersion, String>,
    )
        ensures
            match outcome {
                Ok(latest) => {
                    &&& final(self).failed_checks@ == old(self).failed_checks@
                    &&& if latest.version@ == current_version@ {
                        final(self).updates@ == old(self).updates@
                    } else {
                        &&& final(self).updates@.len() == old(self).updates@.len() + 1
                        &&& final(self).updates@.drop_last() == old(self).updates@
                        &&& final(self).updates@.last().id@ == id@
                        &&& final(self).updates@.last().name@ == name@
                        &&& final(self).updates@.last().current_version@ == current_version@
                        &&& final(self).updates@.last().latest_version@ == latest.version@
                        &&& final(self).updates@.last().download_url@ == latest.download_url@
                        &&& final(self).updates@.last().hash == latest.hash
                        &&& final(self).updates@.last().hash_type == latest.hash_type
                    }
                },
                Err(e) => {
                    &&& final(self).updates@ == old(self).updates@
                    &&& final(self).failed_checks@.len() == old(self).failed_checks@.len() + 1
                    &&& final(self).failed_checks@.drop_last() == old(self).failed_checks@
                    &&& final(self).failed_checks@.last().0@ == name@
                    &&& final(self).failed_checks@.last().1@ == e@
                },
            },
    {
        match outcome {
            Ok(latest) => {
                if !str_eq(latest.version.as_str(), current_version) {
                    let ghost before = self.updates@;
                    self.updates.push(
                        ModUpdate {
                            id: String::from_str(id),
                            name: String::from_str(name),
                            current_version: String::from_str(current_version),
                            latest_version: latest.version,
                            download_url: latest.download_url,
                            hash: latest.hash,
                            hash_type: latest.hash_type,
                        },
                    );
                    assert(self.updates@.drop_last() =~= before);
                }
            },
            Err(e) => {
                let ghost before = self.failed_checks@;
                self.failed_checks.push((String::from_str(name), e));
                assert(self.failed_checks@.drop_last() =~= before);
            },
        }
    }
}

/// Applies an update to a mod's record: the new version, download URL and
/// hash, and the new version's dependencies when they could be fetched.
pub fn apply_update_fields(m: &mut TrackedMod, update: &ModUpdate, new_deps: Option<Vec<Dependency>>)
    ensures
        final(m).version@ == update.latest_version@,
        final(m).download_url@ == update.download_url@,
        final(m).hash == update.hash,
        final(m).dependencies == (match new_deps {
            Some(d) => d,
            None => old(m).dependencies,
        }),
        final(m).id == old(m).id,
        final(m).name == old(m).name,
        final(m).source == old(m).source,
        final(m).hash_type == old(m).hash_type,
        final(m).project_type == old(m).project_type,
        final(m).env == old(m).env,
        final(m).filename == old(m).filename,
{
    m.version = update.latest_version.clone();
    m.download_url = update.download_url.clone();
    m.hash = match &update.hash {
        Some(h) => Some(h.clone()),
        None => None,
    };
    if let Some(d) = new_deps {
        m.dependencies = d;
    }
}

/// The report of failed checks: a blank line, the count, and one bullet per
/// mod with its reason; nothing when every check succeeded.
pub open spec fn failed_checks_report(failed: Seq<(String, String)>) -> Seq<EventView> {
    if failed.len() == 0 {
        Seq::empty()
    } else {
        seq![
            EventView::BlankLine,
            EventView::Diagnostic(
                DiagnosticKind::Warning,
                decimal(failed.len()) + " mod(s) could not be checked for updates:"@,
            ),
        ] + failed.map_values(|p: (String, String)| EventView::Status(StatusKind::Bullet, p.0@ + ": "@ + p.1@))
    }
}

/// The lines reporting the mods whose check failed.
pub fn failed_checks_events(failed: &[(String, String)]) -> (events: Vec<OutputEvent>)
    ensures
        events@.map_values(|e: OutputEvent| e@) == failed_checks_report(failed@),
{
    let mut events: Vec<OutputEvent> = Vec::new();
    if failed.len() == 0 {
        assert(events@.map_values(|e: OutputEvent| e@) =~= Seq::<EventView>::empty());
        return events;
    }
    events.push(OutputEvent::BlankLine);
    let mut head = u64_to_decimal(failed.len() as u64);
    head.append(" mod(s) could not be checked for updates:");
    events.push(OutputEvent::Diagnostic(DiagnosticKind::Warning, head));
    let ghost start = events@.map_values(|e: OutputEvent| e@);
    let ghost bullets = failed@.map_values(|p: (String, String)| EventView::Status(StatusKind::Bullet, p.0@ + ": "@ + p.1@));
    let mut i: usize = 0;
    while i < failed.len()
        invariant
            i <= failed.len(),
            bullets == failed@.map_values(|p: (String, String)| EventView::Status(StatusKind::Bullet, p.0@ + ": "@ + p.1@)),
            events@.map_values(|e: OutputEvent| e@) == start + bullets.take(i as int),
        decreases failed.len() - i,
    {
        let mut line = failed[i].0.clone();
        line.append(": ");
        line.append(failed[i].1.as_str());
        let ghost before = events@;
        events.push(OutputEvent::Status(StatusKind::Bullet, line));
        assert(events@.map_values(|e: OutputEvent| e@) =~= before.map_values(|e: OutputEvent| e@).push(bullets[i as int]));
        assert(bullets.take(i as int + 1) =~= bullets.take(i as int).push(bullets[i as int]));
        i += 1;
    }
    assert(bullets.take(failed.len() as int) =~= bullets);
    events
}

/// The closing line of an update run: `<n> updated, <m> failed`, reported as
/// a success when nothing failed, else as a warning followed by a download
/// error counting the failures.
pub fn finish_updates(updated: usize, failed: usize) -> (r: (OutputEvent, Option<YammmError>))
    ensures
        ({
            let summary = decimal(updated as nat) + " updated, "@ + decimal(failed as nat) + " failed"@;
            &&& failed == 0 ==> r.0@ == EventView::Status(StatusKind::Success, summary) && r.1 is None
            &&& failed > 0 ==> r.0@ == EventView::Diagnostic(DiagnosticKind::Warning, summary) && (r.1 matches Some(
                YammmError::DownloadFailed(m),
            ) && m@ == decimal(failed as nat) + " update(s) failed"@)
        }),
{
    let mut summary = u64_to_decimal(updated as u64);
    summary.append(" updated, ");
    let f = u64_to_decimal(failed as u64);
    summary.append(f.as_str());
    summary.append(" failed");
    if failed == 0 {
        (OutputEvent::Status(StatusKind::Success, summary), None)
    } else {
        let mut m = u64_to_decimal(failed as u64);
        m.append(" update(s) failed");
        (OutputEvent::Diagnostic(DiagnosticKind::Warning, summary), Some(YammmError::DownloadFailed(m)))
    }
}

} // verus!

verus! {

/// `old → new`.
pub open spec fn arrow_text(old: Seq<char>, new: Seq<char>) -> Seq<char> {
    old + " \u{2192} "@ + new
}

/// What an update run does after the checks: report JSON for a check-only
/// run, report JSON that nothing was updated, print and stop, or print and
/// go through the updates.
pub enum UpdatePlan {
    JsonCheckOnly,
    JsonNothing,
    Stop(Vec<OutputEvent>),
    Proceed(Vec<OutputEvent>),
}

/// The events listing the updates of a check-only run.
pub open spec fn check_only_listing(updates: Seq<ModUpdate>) -> Seq<EventView> {
    seq![
        EventView::BlankLine,
        EventView::Status(StatusKind::Heading, decimal(updates.len()) + " update(s) available (not applied):"@),
    ] + updates.map_values(
        |u: ModUpdate| EventView::Status(StatusKind::Bullet, u.name@ + " "@ + arrow_text(u.current_version@, u.latest_version@)),
    )
}

/// The events listing the updates about to be offered.
pub open spec fn offer_listing(updates: Seq<ModUpdate>) -> Seq<EventView> {
    seq![
        EventView::BlankLine,
        EventView::Status(StatusKind::Heading, decimal(updates.len()) + " item(s) with available updates:"@),
    ] + updates.map_values(
        |u: ModUpdate| EventView::Status(StatusKind::Bullet, arrow_text(u.current_version@, u.latest_version@)),
    )
}

/// The plan of an update run (see [`UpdatePlan`]); the events of a plan
/// start with the report of failed checks.
pub open spec fn plan_ok(r: UpdateCheckResult, check_only: bool, json: bool, plan: UpdatePlan) -> bool {
    let report = failed_checks_report(r.failed_checks@);
    let none_failed = r.failed_checks@.len() == 0;
    if check_only {
        if json {
            plan is JsonCheckOnly
        } else if r.updates@.len() == 0 {
            plan matches UpdatePlan::Stop(e) && e@.map_values(|x: OutputEvent| x@) == report + if none_failed {
                seq![EventView::Status(StatusKind::Success, "All up to date."@)]
            } else {
                Seq::empty()
            }
        } else {
            plan matches UpdatePlan::Stop(e) && e@.map_values(|x: OutputEvent| x@) == report + check_only_listing(r.updates@)
        }
    } else if r.updates@.len() == 0 {
        if json {
            plan is JsonNothing
        } else {
            plan matches UpdatePlan::Stop(e) && e@.map_values(|x: OutputEvent| x@) == report + if none_failed {
                seq![EventView::Status(StatusKind::Success, "All mods, resource packs, and shader packs are up to date."@)]
            } else {
                Seq::empty()
            }
        }
    } else {
        plan matches UpdatePlan::Proceed(e) && e@.map_values(|x: OutputEvent| x@) == report + offer_listing(r.updates@)
    }
}

fn push_event(v: &mut Vec<OutputEvent>, e: OutputEvent)
    ensures
        final(v)@.map_values(|x: OutputEvent| x@) == old(v)@.map_values(|x: OutputEvent| x@).push(e@),
{
    v.push(e);
    assert(v@.map_values(|x: OutputEvent| x@) =~= old(v)@.map_values(|x: OutputEvent| x@).push(e@));
}

fn listing(updates: &Vec<ModUpdate>, check_only: bool) -> (v: Vec<OutputEvent>)
    ensures
        v@.map_values(|x: OutputEvent| x@) == if check_only {
            check_only_listing(updates@)
        } else {
            offer_listing(updates@)
        },
{
    let mut v: Vec<OutputEvent> = Vec::new();
    push_event(&mut v, OutputEvent::BlankLine);
    let mut head = u64_to_decimal(updates.len() as u64);
    if check_only {
        head.append(" update(s) available (not applied):");
    } else {
        head.append(" item(s) with available updates:");
    }
    push_event(&mut v, OutputEvent::Status(StatusKind::Heading, head));
    let ghost start = v@.map_values(|x: OutputEvent| x@);
    let ghost bullets = if check_only {
        updates@.map_values(
            |u: ModUpdate| EventView::Status(StatusKind::Bullet, u.name@ + " "@ + arrow_text(u.current_version@, u.latest_version@)),
        )
    } else {
        updates@.map_values(|u: ModUpdate| EventView::Status(StatusKind::Bullet, arrow_text(u.current_version@, u.latest_version@)))
    };
    let mut i: usize = 0;
    while i < updates.len()
        invariant
            i <= updates@.len(),
            bullets == if check_only {
                updates@.map_values(
                    |u: ModUpdate| EventView::Status(StatusKind::Bullet, u.name@ + " "@ + arrow_text(u.current_version@, u.latest_version@)),
                )
            } else {
                updates@.map_values(|u: ModUpdate| EventView::Status(StatusKind::Bullet, arrow_text(u.current_version@, u.latest_version@)))
            },
            v@.map_values(|x: OutputEvent| x@) == start + bullets.take(i as int),
        decreases updates@.len() - i,
    {
        let a = crate::output::version_arrow(updates[i].current_version.as_str(), updates[i].latest_version.as_str());
        let line = if check_only {
            let mut l = updates[i].name.clone();
            l.append(" ");
            l.append(a.as_str());
            l
        } else {
            a
        };
        push_event(&mut v, OutputEvent::Status(StatusKind::Bullet, line));
        assert(bullets.take(i + 1) =~= bullets.take(i as int).push(bullets[i as int]));
        i += 1;
    }
    assert(bullets.take(updates@.len() as int) =~= bullets);
    v
}

/// Decides what an update run does once the checks are done.
pub fn plan_update(r: &UpdateCheckResult, check_only: bool, json: bool) -> (plan: UpdatePlan)
    ensures
        plan_ok(*r, check_only, json, plan),
{
    let mut events = failed_checks_events(r.failed_checks.as_slice());
    if check_only && json {
        return UpdatePlan::JsonCheckOnly;
    }
    if !check_only && r.updates.len() == 0 && json {
        return UpdatePlan::JsonNothing;
    }
    if r.updates.len() == 0 {
        if r.failed_checks.len() == 0 {
            let msg = if check_only {
                String::from_str("All up to date.")
            } else {
                String::from_str("All mods, resource packs, and shader packs are up to date.")
            };
            push_event(&mut events, OutputEvent::Status(StatusKind::Success, msg));
        } else {
            assert(events@.map_values(|x: OutputEvent| x@) =~= failed_checks_report(r.failed_checks@) + Seq::<EventView>::empty());
        }
        return UpdatePlan::Stop(events);
    }
    let ghost e0 = events@;
    let mut more = listing(&r.updates, check_only);
    let ghost e1 = more@;
    events.append(&mut more);
    assert(events@.map_values(|x: OutputEvent| x@) =~= e0.map_values(|x: OutputEvent| x@) + e1.map_values(|x: OutputEvent| x@));
    if check_only {
        UpdatePlan::Stop(events)
    } else {
        UpdatePlan::Proceed(events)
    }
}

/// Going through the offered updates: the next one, whether the user is
/// asked, and what was applied or failed so far.
pub struct UpdateRun {
    pub updates: Vec<ModUpdate>,
    pub next: usize,
    pub auto_yes: bool,
    pub updated: usize,
    pub failed: usize,
    pub applied: Vec<(String, String, String, String)>,
    pub failed_updates: Vec<(String, String, String)>,
}

/// What to do with the next update: ask whether to apply it, apply it, or
/// nothing is left.
pub enum UpdateStep {
    Ask { index: usize, prompt: String },
    Apply { index: usize },
    Done,
}

impl UpdateRun {
    /// The counts never exceed the updates handled.
    pub open spec fn wf(&self) -> bool {
        &&& self.next <= self.updates@.len()
        &&& self.updated + self.failed <= self.next
    }

    /// A run over the updates; with `auto_yes` nobody is asked.
    pub fn new(updates: Vec<ModUpdate>, auto_yes: bool) -> (r: Self)
        ensures
            r.wf(),
            r.updates == updates,
            r.next == 0,
            r.auto_yes == auto_yes,
            r.updated == 0 && r.failed == 0,
            r.applied@.len() == 0 && r.failed_updates@.len() == 0,
    {
        UpdateRun { updates, next: 0, auto_yes, updated: 0, failed: 0, applied: Vec::new(), failed_updates: Vec::new() }
    }

    /// The next step: done when every update was handled, else apply the
    /// next one, asking first unless answers are automatic.
    pub fn step(&self) -> (s: UpdateStep)
        requires
            self.wf(),
        ensures
            self.next >= self.updates@.len() ==> s is Done,
            self.next < self.updates@.len() && self.auto_yes ==> s == (UpdateStep::Apply { index: self.next }),
            self.next < self.updates@.len() && !self.auto_yes ==> (s matches UpdateStep::Ask { index, prompt } && index
                == self.next && prompt@ == "Update "@ + self.updates@[self.next as int].name@ + " "@ + arrow_text(
                self.updates@[self.next as int].current_version@,
                self.updates@[self.next as int].latest_version@,
            ) + "?"@),
    {
        if self.next >= self.updates.len() {
            return UpdateStep::Done;
        }
        if self.auto_yes {
            return UpdateStep::Apply { index: self.next };
        }
        let u = &self.updates[self.next];
        let mut prompt = String::from_str("Update ");
        prompt.append(u.name.as_str());
        prompt.append(" ");
        prompt.append(crate::output::version_arrow(u.current_version.as_str(), u.latest_version.as_str()).as_str());
        prompt.append("?");
        UpdateStep::Ask { index: self.next, prompt }
    }

    /// The user declined the current update: it is passed over.
    pub fn decline(&mut self)
        requires
            old(self).wf(),
            old(self).next < old(self).updates@.len(),
        ensures
            final(self).wf(),
            *final(self) == (UpdateRun { next: (old(self).next + 1) as usize, ..*old(self) }),
    {
        assert(self.next < self.updates.len());
        self.next += 1;
    }

    /// The current update was tried: on success it is counted and noted as
    /// applied with a success message, on failure counted and noted with
    /// an error message; the run moves on.
    pub fn finish_apply(&mut self, outcome: Result<(), String>) -> (e: OutputEvent)
        requires
            old(self).wf(),
            old(self).next < old(self).updates@.len(),
        ensures
            final(self).wf(),
            final(self).next == old(self).next + 1,
            final(self).updates == old(self).updates,
            final(self).auto_yes == old(self).auto_yes,
            ({
                let u = old(self).updates@[old(self).next as int];
                match outcome {
                    Ok(_) => {
                        &&& final(self).updated == old(self).updated + 1
                        &&& final(self).failed == old(self).failed
                        &&& final(self).failed_updates == old(self).failed_updates
                        &&& final(self).applied@.len() == old(self).applied@.len() + 1
                        &&& final(self).applied@.drop_last() == old(self).applied@
                        &&& final(self).applied@.last().0@ == u.id@
                        &&& final(self).applied@.last().1@ == u.name@
                        &&& final(self).applied@.last().2@ == u.current_version@
                        &&& final(self).applied@.last().3@ == u.latest_version@
                        &&& e@ == EventView::Status(StatusKind::Success, u.name@ + " updated to "@ + u.latest_version@)
                    },
                    Err(msg) => {
                        &&& final(self).failed == old(self).failed + 1
                        &&& final(self).updated == old(self).updated
                        &&& final(self).applied == old(self).applied
                        &&& final(self).failed_updates@.len() == old(self).failed_updates@.len() + 1
                        &&& final(self).failed_updates@.drop_last() == old(self).failed_updates@
                        &&& final(self).failed_updates@.last().0@ == u.id@
                        &&& final(self).failed_updates@.last().1@ == u.name@
                        &&& final(self).failed_updates@.last().2@ == msg@
                        &&& e@ == EventView::Diagnostic(DiagnosticKind::Error, u.name@ + " update failed: "@ + msg@)
                    },
                }
            }),
    {
        let i = self.next;
        assert(i < self.updates.len());
        let id = self.updates[i].id.clone();
        let name = self.updates[i].name.clone();
        let e = match outcome {
            Ok(_) => {
                let mut m = name.clone();
                m.append(" updated to ");
                m.append(self.updates[i].latest_version.as_str());
                let ghost before = self.applied@;
                self.applied.push((id, name, self.updates[i].current_version.clone(), self.updates[i].latest_version.clone()));
                assert(self.applied@.drop_last() =~= before);
                self.updated += 1;
                OutputEvent::Status(StatusKind::Success, m)
            },
            Err(msg) => {
                let mut m = name.clone();
                m.append(" update failed: ");
                m.append(msg.as_str());
                let ghost before = self.failed_updates@;
                self.failed_updates.push((id, name, msg));
                assert(self.failed_updates@.drop_last() =~= before);
                self.failed += 1;
                OutputEvent::Diagnostic(DiagnosticKind::Error, m)
            },
        };
        self.next += 1;
        e
    }
}

/// A dependency as a provider reports it for a version.
pub struct ProviderDep {
    pub mod_id: String,
    pub dep_type: crate::types::DependencyKind,
    pub source: Option<ModSource>,
}

/// Whether a provider's dependency is recorded: not the mod itself and not
/// embedded in it.
pub open spec fn kept_dep(d: ProviderDep, mod_id: Seq<char>) -> bool {
    d.mod_id@ != mod_id && d.dep_type != crate::types::DependencyKind::Embedded
}

/// The recorded dependencies from a provider's list, in order: the kept
/// ones, with slugified ids and the mod's own source where none is given.
pub open spec fn recorded_deps_spec(raw: Seq<ProviderDep>, mod_id: Seq<char>, source: SourceView) -> Seq<(
    Seq<char>,
    SourceView,
    crate::types::DependencyKind,
)>
    decreases raw.len(),
{
    if raw.len() == 0 {
        Seq::empty()
    } else {
        let d = raw.last();
        recorded_deps_spec(raw.drop_last(), mod_id, source) + if kept_dep(d, mod_id) {
            seq![
                (
                    crate::mrpack::slugify_spec(d.mod_id@),
                    match d.source {
                        Some(s) => s@,
                        None => source,
                    },
                    d.dep_type,
                ),
            ]
        } else {
            Seq::empty()
        }
    }
}

/// The dependencies to record for an updated mod (see [`recorded_deps_spec`]).
pub fn recorded_deps(raw: &[ProviderDep], mod_id: &str, source: &ModSource) -> (deps: Vec<Dependency>)
    ensures
        deps@.map_values(|d: Dependency| (d.mod_id@, d.source@, d.kind)) == recorded_deps_spec(raw@, mod_id@, source@),
{
    let mut deps: Vec<Dependency> = Vec::new();
    let mut i: usize = 0;
    while i < raw.len()
        invariant
            i <= raw@.len(),
            deps@.map_values(|d: Dependency| (d.mod_id@, d.source@, d.kind)) == recorded_deps_spec(
                raw@.take(i as int),
                mod_id@,
                source@,
            ),
        decreases raw@.len() - i,
    {
        let ghost t = raw@.take(i + 1);
        proof {
            assert(t.drop_last() =~= raw@.take(i as int));
            assert(t.last() == raw@[i as int]);
        }
        let d = &raw[i];
        let ghost before = deps@;
        if !str_eq(d.mod_id.as_str(), mod_id) && d.dep_type != crate::types::DependencyKind::Embedded {
            let src = match &d.source {
                Some(s) => s.clone(),
                None => source.clone(),
            };
            deps.push(Dependency { mod_id: crate::mrpack::slugify(d.mod_id.as_str()), source: src, kind: d.dep_type });
            assert(deps@.map_values(|d: Dependency| (d.mod_id@, d.source@, d.kind)) =~= before.map_values(
                |d: Dependency| (d.mod_id@, d.source@, d.kind),
            ).push(recorded_deps_spec(t, mod_id@, source@).last()));
        } else {
            assert(recorded_deps_spec(t, mod_id@, source@) =~= recorded_deps_spec(raw@.take(i as int), mod_id@, source@));
        }
        i += 1;
    }
    assert(raw@.take(raw@.len() as int) =~= raw@);
    deps
}

} // verus!
