//! `remove`: the conversation before a mod is removed. Mods that depend on
//! it are listed; the user may take them along, remove only the mod, or
//! cancel. `--force` removes only the mod, `--yes` and JSON mode never ask.
use vstd::prelude::*;
use crate::output::{views_of_strings, DiagnosticKind, EventView, OutputEvent, StatusKind};
use crate::text::{decimal, u64_to_decimal};

verus! {

/// Where the conversation stands.
#[derive(Clone, Copy, Debug, PartialEq, Eq, Structural)]
pub enum RemoveStage {
    AskDependents,
    AskOnlyThis,
    AskConfirm,
    Finished,
}

/// What happens next: ask a yes/no question with its default answer, give
/// up, or remove these mods (slug, name), in order.
pub enum RemoveStep {
    Ask { prompt: String, default: bool },
    Cancel,
    Remove(Vec<(String, String)>),
}

/// The conversation: the mod to remove, the mods that depend on it, and
/// the stage.
pub struct RemoveFlow {
    pub target: (String, String),
    pub dependents: Vec<(String, String)>,
    pub stage: RemoveStage,
}

/// The pairs as texts.
pub open spec fn pairs_view(v: Seq<(String, String)>) -> Seq<(Seq<char>, Seq<char>)> {
    v.map_values(|p: (String, String)| (p.0@, p.1@))
}

/// The events before any question: the dependents and, with `--force`,
/// that only the mod goes.
pub open spec fn start_events(name: Seq<char>, dependents: Seq<(String, String)>, force: bool) -> Seq<EventView> {
    if dependents.len() == 0 {
        Seq::empty()
    } else {
        seq![EventView::Diagnostic(DiagnosticKind::Warning, decimal(dependents.len()) + " mods depend on "@ + name + ":"@)]
            + dependents.map_values(|p: (String, String)| EventView::Status(StatusKind::Bullet, p.1@)) + if force {
            seq![EventView::Status(StatusKind::Dim, "--force used. Will remove only this mod."@)]
        } else {
            Seq::empty()
        }
    }
}

/// The first step: with dependents, `--force` (or JSON mode) removes only
/// the mod, an interactive run asks whether to take the dependents, and a
/// `--yes` run removes only the mod; without dependents an interactive run
/// asks for confirmation.
pub open spec fn first_step_ok(
    slug: Seq<char>,
    name: Seq<char>,
    dependents: Seq<(String, String)>,
    yes: bool,
    force: bool,
    json: bool,
    flow: RemoveFlow,
    step: RemoveStep,
) -> bool {
    let interactive = !(yes || json);
    let forced = force || json;
    let only = seq![(slug, name)];
    if dependents.len() > 0 && !forced && interactive {
        flow.stage == RemoveStage::AskDependents && (step matches RemoveStep::Ask { prompt, default } && prompt@
            == "Remove dependent mods as well?"@ && !default)
    } else if dependents.len() == 0 && interactive {
        flow.stage == RemoveStage::AskConfirm && (step matches RemoveStep::Ask { prompt, default } && prompt@
            == "Are you sure you want to remove "@ + name + "?"@ && default)
    } else {
        flow.stage == RemoveStage::Finished && (step matches RemoveStep::Remove(l) && pairs_view(l@) == only)
    }
}

fn push_event(v: &mut Vec<OutputEvent>, e: OutputEvent)
    ensures
        final(v)@.map_values(|x: OutputEvent| x@) == old(v)@.map_values(|x: OutputEvent| x@).push(e@),
{
    v.push(e);
    assert(v@.map_values(|x: OutputEvent| x@) =~= old(v)@.map_values(|x: OutputEvent| x@).push(e@));
}

fn clone_pairs(v: &Vec<(String, String)>) -> (r: Vec<(String, String)>)
    ensures
        pairs_view(r@) == pairs_view(v@),
{
    let mut r: Vec<(String, String)> = Vec::new();
    let mut i: usize = 0;
    while i < v.len()
        invariant
            i <= v@.len(),
            r@.len() == i,
            pairs_view(r@) == pairs_view(v@).take(i as int),
        decreases v@.len() - i,
    {
        let ghost before = r@;
        r.push((v[i].0.clone(), v[i].1.clone()));
        assert forall|k: int| 0 <= k < i + 1 implies #[trigger] pairs_view(r@)[k] == pairs_view(v@).take(i + 1)[k] by {
            if k < i {
                assert(r@[k] == before[k]);
                assert(pairs_view(before)[k] == pairs_view(v@).take(i as int)[k]);
            }
        }
        assert(pairs_view(r@) =~= pairs_view(v@).take(i + 1));
        i += 1;
    }
    assert(pairs_view(v@).take(v@.len() as int) =~= pairs_view(v@));
    r
}

impl RemoveFlow {
    /// Starts the conversation about removing `slug` (named `name`).
    pub fn start(slug: &str, name: &str, dependents: Vec<(String, String)>, yes: bool, force: bool, json: bool) -> (r: (
        RemoveFlow,
        Vec<OutputEvent>,
        RemoveStep,
    ))
        ensures
            r.0.target.0@ == slug@ && r.0.target.1@ == name@,
            pairs_view(r.0.dependents@) == pairs_view(dependents@),
            r.1@.map_values(|x: OutputEvent| x@) == start_events(name@, dependents@, force || json),
            first_step_ok(slug@, name@, dependents@, yes, force, json, r.0, r.2),
    {
        let interactive = !(yes || json);
        let forced = force || json;
        let mut events: Vec<OutputEvent> = Vec::new();
        assert(events@.map_values(|x: OutputEvent| x@) =~= Seq::<EventView>::empty());
        let n = dependents.len();
        if n > 0 {
            let mut head = u64_to_decimal(n as u64);
            head.append(" mods depend on ");
            head.append(name);
            head.append(":");
            push_event(&mut events, OutputEvent::Diagnostic(DiagnosticKind::Warning, head));
            let ghost start = events@.map_values(|x: OutputEvent| x@);
            let ghost bullets = dependents@.map_values(|p: (String, String)| EventView::Status(StatusKind::Bullet, p.1@));
            let mut i: usize = 0;
            while i < n
                invariant
                    i <= n,
                    n == dependents@.len(),
                    bullets == dependents@.map_values(|p: (String, String)| EventView::Status(StatusKind::Bullet, p.1@)),
                    events@.map_values(|x: OutputEvent| x@) == start + bullets.take(i as int),
                decreases n - i,
            {
                push_event(&mut events, OutputEvent::Status(StatusKind::Bullet, dependents[i].1.clone()));
                assert(bullets.take(i + 1) =~= bullets.take(i as int).push(bullets[i as int]));
                i += 1;
            }
            assert(bullets.take(n as int) =~= bullets);
            if forced {
                push_event(&mut events, OutputEvent::Status(StatusKind::Dim, String::from_str("--force used. Will remove only this mod.")));
            } else {
                assert(events@.map_values(|x: OutputEvent| x@) =~= start + bullets + Seq::<EventView>::empty());
            }
        }
        let target = (String::from_str(slug), String::from_str(name));
        let (stage, step) = if n > 0 && !forced && interactive {
            (RemoveStage::AskDependents, RemoveStep::Ask { prompt: String::from_str("Remove dependent mods as well?"), default: false })
        } else if n == 0 && interactive {
            let mut p = String::from_str("Are you sure you want to remove ");
            p.append(name);
            p.append("?");
            (RemoveStage::AskConfirm, RemoveStep::Ask { prompt: p, default: true })
        } else {
            let mut only: Vec<(String, String)> = Vec::new();
            only.push((String::from_str(slug), String::from_str(name)));
            assert(pairs_view(only@) =~= seq![(slug@, name@)]);
            (RemoveStage::Finished, RemoveStep::Remove(only))
        };
        (RemoveFlow { target, dependents, stage }, events, step)
    }

    /// Takes the answer to the pending question. Taking the dependents
    /// removes them after the mod; declining asks whether to remove only
    /// the mod; declining that, or the confirmation, cancels.
    pub fn answer(&mut self, yes: bool) -> (step: RemoveStep)
        ensures
            final(self).target == old(self).target,
            final(self).dependents == old(self).dependents,
            ({
                let only = seq![(old(self).target.0@, old(self).target.1@)];
                match old(self).stage {
                    RemoveStage::AskDependents => if yes {
                        final(self).stage == RemoveStage::Finished && (step matches RemoveStep::Remove(l) && pairs_view(l@)
                            == only + pairs_view(old(self).dependents@))
                    } else {
                        final(self).stage == RemoveStage::AskOnlyThis && (step matches RemoveStep::Ask { prompt, default }
                            && prompt@ == "Proceed with removing ONLY this mod? (may break dependent mods)"@ && !default)
                    },
                    RemoveStage::AskOnlyThis | RemoveStage::AskConfirm => if yes {
                        final(self).stage == RemoveStage::Finished && (step matches RemoveStep::Remove(l) && pairs_view(l@) == only)
                    } else {
                        final(self).stage == RemoveStage::Finished && step is Cancel
                    },
                    RemoveStage::Finished => final(self).stage == RemoveStage::Finished && step is Cancel,
                }
            }),
    {
        let mut only: Vec<(String, String)> = Vec::new();
        only.push((self.target.0.clone(), self.target.1.clone()));
        assert(pairs_view(only@) =~= seq![(self.target.0@, self.target.1@)]);
        match self.stage {
            RemoveStage::AskDependents => {
                if yes {
                    let mut rest = clone_pairs(&self.dependents);
                    let ghost a = only@;
                    let ghost b = rest@;
                    only.append(&mut rest);
                    assert(pairs_view(only@) =~= pairs_view(a) + pairs_view(b));
                    self.stage = RemoveStage::Finished;
                    RemoveStep::Remove(only)
                } else {
                    self.stage = RemoveStage::AskOnlyThis;
                    RemoveStep::Ask {
                        prompt: String::from_str("Proceed with removing ONLY this mod? (may break dependent mods)"),
                        default: false,
                    }
                }
            },
            RemoveStage::AskOnlyThis | RemoveStage::AskConfirm => {
                self.stage = RemoveStage::Finished;
                if yes {
                    RemoveStep::Remove(only)
                } else {
                    RemoveStep::Cancel
                }
            },
            RemoveStage::Finished => RemoveStep::Cancel,
        }
    }
}

/// The message after a mod was removed.
pub fn removed_message(name: &str) -> (s: String)
    ensures
        s@ == "Removed "@ + name@ + " from modpack"@,
{
    let mut s = String::from_str("Removed ");
    s.append(name);
    s.append(" from modpack");
    s
}

} // verus!
