//! `cvg gates show` and `cvg actions list`: the daemon's gate
//! preconditions and API actions, optionally narrowed to one gate or one
//! capability, as localized lines.
use crate::cells::{join_or_dash, join_or_dash_text};
use crate::show::{lines_view, push_line, Line, Part, PartView};
use crate::text::{owned, str_eq};
use vstd::prelude::*;

verus! {

/// The preconditions of one gate.
pub struct GatePrecondition {
    pub gate: String,
    pub reads_evidence_kinds: Vec<String>,
    pub active_target_status: Vec<String>,
    pub refusal_reasons: Vec<String>,
    pub enforces_task_evidence_required: bool,
}

/// Entries that can be narrowed to one name: a gate's preconditions by
/// gate, an action by capability.
pub trait Tagged: Sized {
    /// The name the entry is narrowed by.
    spec fn tag(&self) -> Seq<char>;

    /// The name, computed.
    fn tag_str(&self) -> (r: &str)
        ensures
            r@ == self.tag();
}

impl Tagged for GatePrecondition {
    open spec fn tag(&self) -> Seq<char> {
        self.gate@
    }

    fn tag_str(&self) -> (r: &str) {
        self.gate.as_str()
    }
}

/// The entries tagged `g`.
pub open spec fn tagged<T: Tagged>(g: Seq<char>) -> spec_fn(T) -> bool {
    |p: T| p.tag() == g
}

/// The entries shown: all of them, or those tagged `tag`, in order.
pub open spec fn selected<T: Tagged>(ps: Seq<T>, tag: Option<Seq<char>>) -> Seq<T> {
    match tag {
        Some(g) => ps.filter(tagged(g)),
        None => ps,
    }
}

/// Keeps the entries tagged `tag` (all of them when no tag is given).
pub fn select_tagged<T: Tagged>(ps: Vec<T>, tag: Option<&str>) -> (r: Vec<T>)
    ensures
        r@ == selected(
            ps@,
            match tag {
                Some(g) => Some(g@),
                None => None,
            },
        ),
{
    match tag {
        None => ps,
        Some(g) => {
            let ghost orig = ps@;
            let mut kept: Vec<T> = Vec::new();
            let mut src = ps;
            let mut rev: Vec<T> = Vec::new();
            while src.len() > 0
                invariant
                    src@.len() <= orig.len(),
                    src@ == orig.take(src@.len() as int),
                    rev@ == orig.skip(src@.len() as int).reverse(),
                decreases src@.len(),
            {
                let ghost n = src@.len();
                let p = src.pop().unwrap();
                rev.push(p);
                proof {
                    assert(orig.take(n as int).drop_last() =~= orig.take(n - 1));
                    assert(orig.skip(n - 1).reverse() =~= orig.skip(n as int).reverse().push(orig[n - 1]));
                }
            }
            let ghost f = tagged::<T>(g@);
            let mut i: usize = 0;
            let total = rev.len();
            proof {
                assert(rev@ =~= orig.reverse());
                assert(orig.take(0) =~= Seq::<T>::empty());
                assert(orig.take(0).filter(f) =~= Seq::<T>::empty());
            }
            while rev.len() > 0
                invariant
                    i + rev@.len() == orig.len(),
                    orig.len() == total,
                    rev@ == orig.skip(i as int).reverse(),
                    f == tagged::<T>(g@),
                    kept@ == orig.take(i as int).filter(f),
                decreases rev@.len(),
            {
                let p = rev.pop().unwrap();
                proof {
                    assert(p == orig[i as int]);
                    assert(orig.skip(i + 1).reverse() =~= orig.skip(i as int).reverse().drop_last());
                    assert(orig.take(i + 1).drop_last() =~= orig.take(i as int));
                    assert(orig.take(i + 1).last() == orig[i as int]);
                    reveal(Seq::filter);
                }
                if str_eq(p.tag_str(), g) {
                    kept.push(p);
                }
                i = i + 1;
            }
            proof {
                assert(orig.take(i as int) =~= orig);
            }
            kept
        },
    }
}

/// The localized line of one gate: its name, the evidence it reads, the
/// statuses it is active for, its refusal reasons and whether it enforces
/// the task's required evidence.
pub open spec fn gate_line(p: GatePrecondition) -> Seq<PartView> {
    seq![
        (
            true,
            "gates-list-line"@,
            seq![
                ("gate"@, p.gate@),
                ("reads"@, join_or_dash_text(p.reads_evidence_kinds@.map_values(|s: String| s@))),
                ("active"@, join_or_dash_text(p.active_target_status@.map_values(|s: String| s@))),
                ("refusals"@, join_or_dash_text(p.refusal_reasons@.map_values(|s: String| s@))),
                (
                    "evidence_required"@,
                    if p.enforces_task_evidence_required {
                        "true"@
                    } else {
                        "false"@
                    },
                ),
            ],
        ),
    ]
}

/// The human listing: a note when there is no gate, else a counted
/// heading and a line per gate.
pub open spec fn gates_view(ps: Seq<GatePrecondition>) -> Seq<Seq<PartView>> {
    if ps.len() == 0 {
        seq![seq![(true, "gates-list-empty"@, Seq::empty())]]
    } else {
        seq![seq![(true, "gates-list-header"@, seq![("count"@, crate::numeric::dec(ps.len()))])]]
            + ps.map_values(|p: GatePrecondition| gate_line(p))
    }
}

/// The human listing of gate preconditions; the heading is a plural
/// message counted by `count`.
pub fn gates_lines(ps: &Vec<GatePrecondition>) -> (out: Vec<Line>)
    ensures
        lines_view(out@) == gates_view(ps@),
{
    let mut out: Vec<Line> = Vec::new();
    proof {
        assert(lines_view(out@) =~= Seq::<Seq<PartView>>::empty());
    }
    if ps.len() == 0 {
        push_line(&mut out, crate::show::line1(crate::show::msg("gates-list-empty")));
        proof {
            assert(lines_view(out@) =~= gates_view(ps@));
        }
        return out;
    }
    let mut n = String::new();
    crate::numeric::push_dec(&mut n, ps.len() as u64);
    push_line(&mut out, crate::show::line1(crate::show::msg1("gates-list-header", "count", n)));
    let ghost top = lines_view(out@);
    let mut i: usize = 0;
    while i < ps.len()
        invariant
            i <= ps@.len(),
            lines_view(out@) == top + ps@.take(i as int).map_values(|p: GatePrecondition| gate_line(p)),
        decreases ps@.len() - i,
    {
        let p = &ps[i];
        let mut args: Vec<(String, String)> = Vec::new();
        args.push((owned("gate"), owned(p.gate.as_str())));
        args.push((owned("reads"), join_or_dash(&p.reads_evidence_kinds)));
        args.push((owned("active"), join_or_dash(&p.active_target_status)));
        args.push((owned("refusals"), join_or_dash(&p.refusal_reasons)));
        args.push(
            (
                owned("evidence_required"),
                owned(if p.enforces_task_evidence_required { "true" } else { "false" }),
            ),
        );
        let part = Part::Msg { key: owned("gates-list-line"), args };
        proof {
            assert(crate::show::part_view(part) =~= gate_line(*p)[0]);
        }
        push_line(&mut out, crate::show::line1(part));
        proof {
            assert(ps@.take(i + 1).map_values(|p: GatePrecondition| gate_line(p)) =~= ps@.take(
                i as int,
            ).map_values(|p: GatePrecondition| gate_line(p)).push(gate_line(*p)));
        }
        i = i + 1;
    }
    proof {
        assert(ps@.take(i as int) =~= ps@);
        assert(lines_view(out@) =~= gates_view(ps@));
    }
    out
}


// ---------------------------------------------------------------------
// `cvg actions list`
// ---------------------------------------------------------------------

/// An API action of the daemon.
pub struct ActionRow {
    pub name: String,
    pub capability: String,
    pub summary: String,
}

impl Tagged for ActionRow {
    open spec fn tag(&self) -> Seq<char> {
        self.capability@
    }

    fn tag_str(&self) -> (r: &str) {
        self.capability.as_str()
    }
}

/// The localized line of one action: capability, name and summary.
pub open spec fn action_line(a: ActionRow) -> Seq<PartView> {
    seq![
        (
            true,
            "actions-list-line"@,
            seq![("capability"@, a.capability@), ("name"@, a.name@), ("summary"@, a.summary@)],
        ),
    ]
}

/// The human listing of actions: a note when there is none, else a
/// counted heading and a line per action.
pub open spec fn actions_view(acts: Seq<ActionRow>) -> Seq<Seq<PartView>> {
    if acts.len() == 0 {
        seq![seq![(true, "actions-list-empty"@, Seq::empty())]]
    } else {
        seq![seq![(true, "actions-list-header"@, seq![("count"@, crate::numeric::dec(acts.len()))])]]
            + acts.map_values(|a: ActionRow| action_line(a))
    }
}

/// The human listing of actions; the heading is a plural message counted
/// by `count`.
pub fn actions_lines(acts: &Vec<ActionRow>) -> (out: Vec<Line>)
    ensures
        lines_view(out@) == actions_view(acts@),
{
    let mut out: Vec<Line> = Vec::new();
    proof {
        assert(lines_view(out@) =~= Seq::<Seq<PartView>>::empty());
    }
    if acts.len() == 0 {
        push_line(&mut out, crate::show::line1(crate::show::msg("actions-list-empty")));
        proof {
            assert(lines_view(out@) =~= actions_view(acts@));
        }
        return out;
    }
    let mut n = String::new();
    crate::numeric::push_dec(&mut n, acts.len() as u64);
    push_line(&mut out, crate::show::line1(crate::show::msg1("actions-list-header", "count", n)));
    let ghost top = lines_view(out@);
    let mut i: usize = 0;
    while i < acts.len()
        invariant
            i <= acts@.len(),
            lines_view(out@) == top + acts@.take(i as int).map_values(|a: ActionRow| action_line(a)),
        decreases acts@.len() - i,
    {
        let a = &acts[i];
        let mut args: Vec<(String, String)> = Vec::new();
        args.push((owned("capability"), owned(a.capability.as_str())));
        args.push((owned("name"), owned(a.name.as_str())));
        args.push((owned("summary"), owned(a.summary.as_str())));
        let part = Part::Msg { key: owned("actions-list-line"), args };
        proof {
            assert(crate::show::part_view(part) =~= action_line(*a)[0]);
        }
        push_line(&mut out, crate::show::line1(part));
        proof {
            assert(acts@.take(i + 1).map_values(|a: ActionRow| action_line(a)) =~= acts@.take(
                i as int,
            ).map_values(|a: ActionRow| action_line(a)).push(action_line(*a)));
        }
        i = i + 1;
    }
    proof {
        assert(acts@.take(i as int) =~= acts@);
        assert(lines_view(out@) =~= actions_view(acts@));
    }
    out
}

} // verus!
