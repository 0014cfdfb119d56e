//! `cvg plan-templates`: the listing and description of plan templates,
//! and the `key=value` parameters a template is rendered with.
use crate::cells::{join, push_join};
use crate::numeric::{dec, dec_signed, push_dec, push_i64};
use crate::text::{
    char_from, char_from_exec, chars_of, lemma_char_from, lemma_line_texts_push, line_texts, owned,
    push_str, string_of_range, trim, trimmed,
};
use vstd::prelude::*;

verus! {

/// A parameter a template asks for.
pub struct TemplateParam {
    pub name: String,
    pub help: String,
}

/// A task a template creates.
pub struct TemplateTask {
    pub wave: i64,
    pub sequence: i64,
    pub title: String,
}

/// A plan template.
pub struct Template {
    pub name: String,
    pub summary: String,
    pub description: Option<String>,
    pub objective: String,
    pub title: String,
    pub parameters: Vec<TemplateParam>,
    pub tasks: Vec<TemplateTask>,
}

/// The names of a template's parameters.
pub open spec fn param_names(ps: Seq<TemplateParam>) -> Seq<Seq<char>> {
    ps.map_values(|p: TemplateParam| p.name@)
}

/// The three lines of a template in the human listing: name and number
/// of tasks, summary, parameter names.
pub open spec fn listing_text(t: Template) -> Seq<Seq<char>> {
    seq![
        "- "@ + t.name@ + " ("@ + dec(t.tasks@.len()) + " task(s))"@,
        "    "@ + t.summary@,
        "    params: "@ + join(param_names(t.parameters@), ", "@),
    ]
}

/// The human listing of templates.
pub open spec fn list_human_text(ts: Seq<Template>) -> Seq<Seq<char>>
    decreases ts.len(),
{
    if ts.len() == 0 {
        Seq::empty()
    } else {
        list_human_text(ts.drop_last()) + listing_text(ts.last())
    }
}

fn push_line(lines: &mut Vec<String>, s: String)
    ensures
        line_texts(final(lines)@) == line_texts(old(lines)@).push(s@),
{
    let ghost prev = lines@;
    lines.push(s);
    proof {
        lemma_line_texts_push(prev, s);
    }
}

/// The human listing of templates.
pub fn list_human_lines(ts: &Vec<Template>) -> (lines: Vec<String>)
    ensures
        line_texts(lines@) == list_human_text(ts@),
{
    let mut lines: Vec<String> = Vec::new();
    let mut i: usize = 0;
    while i < ts.len()
        invariant
            i <= ts@.len(),
            line_texts(lines@) == list_human_text(ts@.take(i as int)),
        decreases ts@.len() - i,
    {
        let t = &ts[i];
        let mut a = owned("- ");
        push_str(&mut a, t.name.as_str());
        push_str(&mut a, " (");
        push_dec(&mut a, t.tasks.len() as u64);
        push_str(&mut a, " task(s))");
        let mut b = owned("    ");
        push_str(&mut b, t.summary.as_str());
        let mut names: Vec<String> = Vec::new();
        let mut k: usize = 0;
        while k < t.parameters.len()
            invariant
                k <= t.parameters@.len(),
                names@.map_values(|s: String| s@) == param_names(t.parameters@.take(k as int)),
            decreases t.parameters@.len() - k,
        {
            let ghost before = names@;
            names.push(owned(t.parameters[k].name.as_str()));
            proof {
                assert(names@.map_values(|s: String| s@) =~= before.map_values(|s: String| s@).push(
                    t.parameters@[k as int].name@,
                ));
                assert(param_names(t.parameters@.take(k + 1)) =~= param_names(
                    t.parameters@.take(k as int),
                ).push(t.parameters@[k as int].name@));
            }
            k = k + 1;
        }
        proof {
            assert(t.parameters@.take(k as int) =~= t.parameters@);
        }
        let mut c = owned("    params: ");
        push_join(&mut c, &names, ", ");
        push_line(&mut lines, a);
        push_line(&mut lines, b);
        push_line(&mut lines, c);
        proof {
            assert(ts@.take(i + 1).drop_last() =~= ts@.take(i as int));
            assert(line_texts(lines@) =~= list_human_text(ts@.take(i + 1)));
        }
        i = i + 1;
    }
    proof {
        assert(ts@.take(i as int) =~= ts@);
    }
    lines
}

/// The plain listing: one template name per line.
pub fn list_plain_lines(ts: &Vec<Template>) -> (lines: Vec<String>)
    ensures
        line_texts(lines@) == ts@.map_values(|t: Template| t.name@),
{
    let mut lines: Vec<String> = Vec::new();
    let mut i: usize = 0;
    while i < ts.len()
        invariant
            i <= ts@.len(),
            line_texts(lines@) == ts@.take(i as int).map_values(|t: Template| t.name@),
        decreases ts@.len() - i,
    {
        push_line(&mut lines, owned(ts[i].name.as_str()));
        proof {
            assert(ts@.take(i + 1).map_values(|t: Template| t.name@) =~= ts@.take(i as int).map_values(
                |t: Template| t.name@,
            ).push(ts@[i as int].name@));
        }
        i = i + 1;
    }
    proof {
        assert(ts@.take(i as int) =~= ts@);
    }
    lines
}

/// The description of one template: its fields, its parameters with
/// their help, and its tasks by wave and sequence.
pub open spec fn show_text(t: Template) -> Seq<Seq<char>> {
    seq!["template: "@ + t.name@, "summary:  "@ + t.summary@] + (match t.description {
        Some(d) => seq!["description: "@ + d@],
        None => Seq::empty(),
    }) + seq!["objective:   "@ + t.objective@, "title:       "@ + t.title@, "parameters:"@]
        + t.parameters@.map_values(|p: TemplateParam| "  - "@ + p.name@ + ": "@ + p.help@) + seq![
        "tasks ("@ + dec(t.tasks@.len()) + "):"@,
    ] + t.tasks@.map_values(
        |k: TemplateTask| "  - w"@ + dec_signed(k.wave as int) + " s"@ + dec_signed(k.sequence as int)
            + " "@ + k.title@,
    )
}

/// The description of one template.
pub fn show_lines(t: &Template) -> (lines: Vec<String>)
    ensures
        line_texts(lines@) == show_text(*t),
{
    let mut lines: Vec<String> = Vec::new();
    let mut a = owned("template: ");
    push_str(&mut a, t.name.as_str());
    push_line(&mut lines, a);
    let mut b = owned("summary:  ");
    push_str(&mut b, t.summary.as_str());
    push_line(&mut lines, b);
    match &t.description {
        Some(d) => {
            let mut c = owned("description: ");
            push_str(&mut c, d.as_str());
            push_line(&mut lines, c);
        },
        None => {},
    }
    let mut o = owned("objective:   ");
    push_str(&mut o, t.objective.as_str());
    push_line(&mut lines, o);
    let mut ti = owned("title:       ");
    push_str(&mut ti, t.title.as_str());
    push_line(&mut lines, ti);
    push_line(&mut lines, owned("parameters:"));
    let ghost head = line_texts(lines@);
    let mut i: usize = 0;
    while i < t.parameters.len()
        invariant
            i <= t.parameters@.len(),
            line_texts(lines@) == head + t.parameters@.take(i as int).map_values(
                |p: TemplateParam| "  - "@ + p.name@ + ": "@ + p.help@,
            ),
        decreases t.parameters@.len() - i,
    {
        let p = &t.parameters[i];
        let mut l = owned("  - ");
        push_str(&mut l, p.name.as_str());
        push_str(&mut l, ": ");
        push_str(&mut l, p.help.as_str());
        push_line(&mut lines, l);
        proof {
            assert(t.parameters@.take(i + 1).map_values(|p: TemplateParam| "  - "@ + p.name@ + ": "@ + p.help@)
                =~= t.parameters@.take(i as int).map_values(
                |p: TemplateParam| "  - "@ + p.name@ + ": "@ + p.help@,
            ).push(l@));
        }
        i = i + 1;
    }
    proof {
        assert(t.parameters@.take(i as int) =~= t.parameters@);
    }
    let mut h = owned("tasks (");
    push_dec(&mut h, t.tasks.len() as u64);
    push_str(&mut h, "):");
    push_line(&mut lines, h);
    let ghost mid = line_texts(lines@);
    let mut j: usize = 0;
    while j < t.tasks.len()
        invariant
            j <= t.tasks@.len(),
            line_texts(lines@) == mid + t.tasks@.take(j as int).map_values(
                |k: TemplateTask| "  - w"@ + dec_signed(k.wave as int) + " s"@ + dec_signed(
                    k.sequence as int,
                ) + " "@ + k.title@,
            ),
        decreases t.tasks@.len() - j,
    {
        let k = &t.tasks[j];
        let mut l = owned("  - w");
        push_i64(&mut l, k.wave);
        push_str(&mut l, " s");
        push_i64(&mut l, k.sequence);
        push_str(&mut l, " ");
        push_str(&mut l, k.title.as_str());
        push_line(&mut lines, l);
        proof {
            assert(t.tasks@.take(j + 1).map_values(
                |k: TemplateTask| "  - w"@ + dec_signed(k.wave as int) + " s"@ + dec_signed(
                    k.sequence as int,
                ) + " "@ + k.title@,
            ) =~= t.tasks@.take(j as int).map_values(
                |k: TemplateTask| "  - w"@ + dec_signed(k.wave as int) + " s"@ + dec_signed(
                    k.sequence as int,
                ) + " "@ + k.title@,
            ).push(l@));
        }
        j = j + 1;
    }
    proof {
        assert(t.tasks@.take(j as int) =~= t.tasks@);
        assert(line_texts(lines@) =~= show_text(*t));
    }
    lines
}

/// The message for a template name that names none.
pub fn unknown_template(name: &str) -> (r: String)
    ensures
        r@ == "unknown template: "@ + name@,
{
    let mut r = owned("unknown template: ");
    push_str(&mut r, name);
    r
}

// ---------------------------------------------------------------------
// `--param key=value`
// ---------------------------------------------------------------------

/// A parameter binding without `=`.
pub struct MalformedParam {
    pub raw: String,
}

impl MalformedParam {
    /// What the operator is told.
    pub fn message(&self) -> (r: String)
        ensures
            r@ == "expected key=value, got `"@ + self.raw@ + "`"@,
    {
        let mut r = owned("expected key=value, got `");
        push_str(&mut r, self.raw.as_str());
        push_str(&mut r, "`");
        r
    }
}

/// A binding split at its first `=`, both sides trimmed.
pub open spec fn binding_of(kv: Seq<char>) -> Option<(Seq<char>, Seq<char>)> {
    match char_from(kv, '=', 0) {
        Some(i) => Some((trim(kv.take(i)), trim(kv.skip(i + 1)))),
        None => None,
    }
}

/// The bindings of all parameters, in order; the first one without `=`
/// refuses them all.
pub open spec fn bindings_of(raw: Seq<String>) -> Result<Seq<(Seq<char>, Seq<char>)>, Seq<char>>
    decreases raw.len(),
{
    if raw.len() == 0 {
        Ok(Seq::empty())
    } else {
        match bindings_of(raw.drop_last()) {
            Err(e) => Err(e),
            Ok(bs) => match binding_of(raw.last()@) {
                Some(b) => Ok(bs.push(b)),
                None => Err(raw.last()@),
            },
        }
    }
}

/// The texts of the bindings.
pub open spec fn pair_texts(v: Seq<(String, String)>) -> Seq<(Seq<char>, Seq<char>)> {
    v.map_values(|p: (String, String)| (p.0@, p.1@))
}

/// Splits `key=value` parameters (at the first `=`, trimming both sides);
/// later bindings of a key take precedence when the caller stores them.
pub fn parse_params(raw: &Vec<String>) -> (r: Result<Vec<(String, String)>, MalformedParam>)
    ensures
        match r {
            Ok(v) => bindings_of(raw@) == Ok::<Seq<(Seq<char>, Seq<char>)>, Seq<char>>(pair_texts(v@)),
            Err(e) => bindings_of(raw@) == Err::<Seq<(Seq<char>, Seq<char>)>, Seq<char>>(e.raw@),
        },
{
    let mut out: Vec<(String, String)> = Vec::new();
    let mut i: usize = 0;
    proof {
        assert(raw@.take(0) =~= Seq::<String>::empty());
        assert(pair_texts(out@) =~= Seq::<(Seq<char>, Seq<char>)>::empty());
    }
    while i < raw.len()
        invariant
            i <= raw@.len(),
            bindings_of(raw@.take(i as int)) == Ok::<Seq<(Seq<char>, Seq<char>)>, Seq<char>>(
                pair_texts(out@),
            ),
        decreases raw@.len() - i,
    {
        let kv = raw[i].as_str();
        let v = chars_of(kv);
        proof {
            assert(raw@.take(i + 1).drop_last() =~= raw@.take(i as int));
        }
        match char_from_exec(&v, '=', 0) {
            Some(p) => {
                proof {
                    lemma_char_from(v@, '=', 0);
                }
                let key = string_of_range(&v, 0, p);
                let value = string_of_range(&v, p + 1, v.len());
                let k = trimmed(key.as_str());
                let val = trimmed(value.as_str());
                let ghost before = out@;
                out.push((k, val));
                proof {
                    assert(v@.subrange(0, p as int) =~= kv@.take(p as int));
                    assert(v@.subrange(p + 1, v@.len() as int) =~= kv@.skip(p + 1));
                    assert(pair_texts(out@) =~= pair_texts(before).push((k@, val@)));
                }
            },
            None => {
                proof {
                    assert(bindings_of(raw@.take(i + 1)) == Err::<Seq<(Seq<char>, Seq<char>)>, Seq<char>>(kv@));
                    lemma_bindings_err_value(raw@, i + 1, raw@.len() as int);
                    assert(raw@.take(raw@.len() as int) =~= raw@);
                }
                return Err(MalformedParam { raw: owned(kv) });
            },
        }
        i = i + 1;
    }
    proof {
        assert(raw@.take(i as int) =~= raw@);
    }
    Ok(out)
}

proof fn lemma_bindings_err_value(raw: Seq<String>, i: int, j: int)
    requires
        0 < i <= j <= raw.len(),
        bindings_of(raw.take(i)) is Err,
    ensures
        bindings_of(raw.take(j)) == bindings_of(raw.take(i)),
    decreases j - i,
{
    if j > i {
        lemma_bindings_err_value(raw, i, j - 1);
        assert(raw.take(j).drop_last() =~= raw.take(j - 1));
    }
}

} // verus!
