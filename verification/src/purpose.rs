//! `cvg purpose`: the processing purposes registered with the daemon, as
//! listed lines.
use crate::text::{lemma_line_texts_push, line_texts, or_text, owned, push_or, push_str};
use vstd::prelude::*;

verus! {

/// A registered purpose (each field absent when the daemon's document
/// lacks it or it is not a string).
pub struct Purpose {
    pub id: Option<String>,
    pub label: Option<String>,
    pub description: Option<String>,
}

/// The plain line of a purpose: id and label, tab-separated.
pub open spec fn purpose_plain_text(p: Purpose) -> Seq<char> {
    or_text(p.id, ""@) + "\t"@ + or_text(p.label, ""@)
}

/// The plain line of a purpose.
pub fn purpose_plain_line(p: &Purpose) -> (r: String)
    ensures
        r@ == purpose_plain_text(*p),
{
    let mut r = String::new();
    push_or(&mut r, &p.id, "");
    push_str(&mut r, "\t");
    push_or(&mut r, &p.label, "");
    r
}

/// The human line confirming a registration.
pub open spec fn registered_text(p: Purpose) -> Seq<char> {
    "registered purpose `"@ + or_text(p.label, ""@) + "` ("@ + or_text(p.id, ""@) + ")"@
}

/// The human line confirming a registration.
pub fn registered_line(p: &Purpose) -> (r: String)
    ensures
        r@ == registered_text(*p),
{
    let mut r = owned("registered purpose `");
    push_or(&mut r, &p.label, "");
    push_str(&mut r, "` (");
    push_or(&mut r, &p.id, "");
    push_str(&mut r, ")");
    r
}

/// The human listing: a note when there is no purpose, else a line per
/// purpose with its label and description.
pub open spec fn purposes_human_text(ps: Seq<Purpose>) -> Seq<Seq<char>> {
    if ps.len() == 0 {
        seq!["no purposes registered"@]
    } else {
        ps.map_values(|p: Purpose| "- "@ + or_text(p.label, ""@) + " — "@ + or_text(p.description, ""@))
    }
}

/// The listing of purposes, human or plain.
pub fn purposes_lines(ps: &Vec<Purpose>, human: bool) -> (lines: Vec<String>)
    ensures
        line_texts(lines@) == if human {
            purposes_human_text(ps@)
        } else {
            ps@.map_values(|p: Purpose| purpose_plain_text(p))
        },
{
    let mut lines: Vec<String> = Vec::new();
    if human && ps.len() == 0 {
        lines.push(owned("no purposes registered"));
        proof {
            assert(line_texts(lines@) =~= purposes_human_text(ps@));
        }
        return lines;
    }
    let mut i: usize = 0;
    while i < ps.len()
        invariant
            i <= ps@.len(),
            human ==> ps@.len() > 0,
            line_texts(lines@) == if human {
                ps@.take(i as int).map_values(
                    |p: Purpose| "- "@ + or_text(p.label, ""@) + " — "@ + or_text(p.description, ""@),
                )
            } else {
                ps@.take(i as int).map_values(|p: Purpose| purpose_plain_text(p))
            },
        decreases ps@.len() - i,
    {
        let p = &ps[i];
        let l = if human {
            let mut l = owned("- ");
            push_or(&mut l, &p.label, "");
            push_str(&mut l, " — ");
            push_or(&mut l, &p.description, "");
            l
        } else {
            purpose_plain_line(p)
        };
        let ghost prev = lines@;
        lines.push(l);
        proof {
            lemma_line_texts_push(prev, l);
            assert(ps@.take(i + 1).map_values(
                |p: Purpose| "- "@ + or_text(p.label, ""@) + " — "@ + or_text(p.description, ""@),
            ) =~= ps@.take(i as int).map_values(
                |p: Purpose| "- "@ + or_text(p.label, ""@) + " — "@ + or_text(p.description, ""@),
            ).push("- "@ + or_text(p.label, ""@) + " — "@ + or_text(p.description, ""@)));
            assert(ps@.take(i + 1).map_values(|p: Purpose| purpose_plain_text(p)) =~= ps@.take(
                i as int,
            ).map_values(|p: Purpose| purpose_plain_text(p)).push(purpose_plain_text(*p)));
        }
        i = i + 1;
    }
    proof {
        assert(ps@.take(i as int) =~= ps@);
    }
    lines
}

} // verus!
