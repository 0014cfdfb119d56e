//! The static HTML of the public algorithm register: the index page and
//! one page per algorithm, with every value from the registry escaped.
use vstd::prelude::*;
use crate::register::{
    AlgorithmEntry, AppealContact, BilingualText, ModelRef, Reference, RiskClass,
    ReleaseGateRegistry, RegistryError, check_registry, registry_ok, registry_rejects,
};
use crate::text::{chars_of, opt_text, push_char, push_str, starts_with};

verus! {

// ---------------------------------------------------------------------
// Escaping
// ---------------------------------------------------------------------

/// The text that stands for `c` in HTML.
pub open spec fn entity(c: char) -> Seq<char> {
    if c == '&' {
        "&amp;"@
    } else if c == '<' {
        "&lt;"@
    } else if c == '>' {
        "&gt;"@
    } else if c == '"' {
        "&quot;"@
    } else if c == '\'' {
        "&#39;"@
    } else {
        seq![c]
    }
}

/// `s` with `&`, `<`, `>`, `"` and `'` replaced by their entities.
pub open spec fn escape(s: Seq<char>) -> Seq<char>
    decreases s.len(),
{
    if s.len() == 0 {
        Seq::empty()
    } else {
        escape(s.drop_last()) + entity(s.last())
    }
}

/// A character that could open a tag or end an attribute value.
pub open spec fn markup_char(c: char) -> bool {
    c == '<' || c == '>' || c == '"' || c == '\''
}

/// Escaped text holds no character that could open a tag or close an
/// attribute value, whatever the input.
pub proof fn escape_is_inert(s: Seq<char>)
    ensures
        forall|i: int| 0 <= i < escape(s).len() ==> !markup_char(#[trigger] escape(s)[i]),
    decreases s.len(),
{
    if s.len() > 0 {
        escape_is_inert(s.drop_last());
        let c = s.last();
        reveal_strlit("&amp;");
        reveal_strlit("&lt;");
        reveal_strlit("&gt;");
        reveal_strlit("&quot;");
        reveal_strlit("&#39;");
        let e = entity(c);
        assert forall|k: int| 0 <= k < e.len() implies !markup_char(#[trigger] e[k]) by {}
        let prev = escape(s.drop_last());
        assert forall|i: int| 0 <= i < escape(s).len() implies !markup_char(#[trigger] escape(s)[i]) by {
            if i < prev.len() {
                assert(escape(s)[i] == prev[i]);
            } else {
                assert(escape(s)[i] == e[i - prev.len()]);
            }
        }
    }
}

/// `t` begins with `p`.
pub open spec fn begins_with(t: Seq<char>, p: Seq<char>) -> bool {
    p.len() <= t.len() && t.take(p.len() as int) == p
}

/// `t` with the five entities that `escape` writes turned back into their
/// characters, read from the front.
pub open spec fn unescape(t: Seq<char>) -> Seq<char>
    decreases t.len(),
{
    proof {
        reveal_strlit("&amp;");
        reveal_strlit("&lt;");
        reveal_strlit("&gt;");
        reveal_strlit("&quot;");
        reveal_strlit("&#39;");
    }
    if t.len() == 0 {
        Seq::empty()
    } else if begins_with(t, "&amp;"@) {
        seq!['&'] + unescape(t.skip(5))
    } else if begins_with(t, "&lt;"@) {
        seq!['<'] + unescape(t.skip(4))
    } else if begins_with(t, "&gt;"@) {
        seq!['>'] + unescape(t.skip(4))
    } else if begins_with(t, "&quot;"@) {
        seq!['"'] + unescape(t.skip(6))
    } else if begins_with(t, "&#39;"@) {
        seq!['\''] + unescape(t.skip(5))
    } else {
        seq![t[0]] + unescape(t.skip(1))
    }
}

/// Escaping, seen from the front: the entity of the first character, then
/// the rest escaped.
proof fn lemma_escape_front(s: Seq<char>)
    requires
        s.len() > 0,
    ensures
        escape(s) == entity(s[0]) + escape(s.drop_first()),
    decreases s.len(),
{
    if s.len() == 1 {
        assert(s.drop_last().len() == 0);
        assert(s.drop_first().len() == 0);
        assert(escape(s.drop_last()) =~= Seq::<char>::empty());
        assert(s.last() == s[0]);
        assert(escape(s.drop_first()) =~= Seq::<char>::empty());
        assert(escape(s) =~= entity(s[0]));
    } else {
        lemma_escape_front(s.drop_last());
        assert(s.drop_first().drop_last() =~= s.drop_last().drop_first());
        assert(s.drop_first().last() == s.last());
        assert(s.drop_last()[0] == s[0]);
        assert(escape(s) =~= entity(s[0]) + escape(s.drop_first()));
    }
}

/// A text that begins with `p` agrees with `p` on its first characters.
proof fn lemma_begins_at(t: Seq<char>, p: Seq<char>, i: int)
    requires
        begins_with(t, p),
        0 <= i < p.len(),
    ensures
        t[i] == p[i],
{
    assert(t.take(p.len() as int)[i] == t[i]);
}

/// Decoding the entity of `c` in front of any text gives back `c`, then
/// the decoding of that text.
proof fn lemma_unescape_entity(c: char, t: Seq<char>)
    ensures
        unescape(entity(c) + t) == seq![c] + unescape(t),
{
    reveal_strlit("&amp;");
    reveal_strlit("&lt;");
    reveal_strlit("&gt;");
    reveal_strlit("&quot;");
    reveal_strlit("&#39;");
    let u = entity(c) + t;
    let n = entity(c).len() as int;
    assert(u.skip(n) =~= t);
    assert(u.len() >= 1);
    assert(u[0] == entity(c)[0]);
    if u.len() >= 2 && n >= 2 {
        assert(u[1] == entity(c)[1]);
    }
    if begins_with(u, "&amp;"@) {
        lemma_begins_at(u, "&amp;"@, 0);
        lemma_begins_at(u, "&amp;"@, 1);
    }
    if begins_with(u, "&lt;"@) {
        lemma_begins_at(u, "&lt;"@, 0);
        lemma_begins_at(u, "&lt;"@, 1);
    }
    if begins_with(u, "&gt;"@) {
        lemma_begins_at(u, "&gt;"@, 0);
        lemma_begins_at(u, "&gt;"@, 1);
    }
    if begins_with(u, "&quot;"@) {
        lemma_begins_at(u, "&quot;"@, 0);
        lemma_begins_at(u, "&quot;"@, 1);
    }
    if begins_with(u, "&#39;"@) {
        lemma_begins_at(u, "&#39;"@, 0);
        lemma_begins_at(u, "&#39;"@, 1);
    }
    if c == '&' {
        assert(u.take(5) =~= "&amp;"@);
    } else if c == '<' {
        assert(u.take(4) =~= "&lt;"@);
    } else if c == '>' {
        assert(u.take(4) =~= "&gt;"@);
    } else if c == '"' {
        assert(u.take(6) =~= "&quot;"@);
    } else if c == '\'' {
        assert(u.take(5) =~= "&#39;"@);
    }
}

/// Escaping loses nothing: decoding the five entities in what `h` returns
/// gives back its input.
pub proof fn escape_round_trip(s: Seq<char>)
    ensures
        unescape(escape(s)) == s,
    decreases s.len(),
{
    if s.len() == 0 {
        assert(escape(s) =~= Seq::<char>::empty());
    } else {
        lemma_escape_front(s);
        lemma_unescape_entity(s[0], escape(s.drop_first()));
        escape_round_trip(s.drop_first());
        assert(s =~= seq![s[0]] + s.drop_first());
    }
}

/// `h` is injective: two texts that escape alike are the same text.
pub proof fn escape_is_injective(a: Seq<char>, b: Seq<char>)
    requires
        escape(a) == escape(b),
    ensures
        a == b,
{
    escape_round_trip(a);
    escape_round_trip(b);
}

/// Appends `s`, escaped.
pub fn push_escaped(out: &mut String, s: &str)
    ensures
        final(out)@ == old(out)@ + escape(s@),
{
    let v = chars_of(s);
    let mut i: usize = 0;
    while i < v.len()
        invariant
            i <= v@.len(),
            v@ == s@,
            out@ == old(out)@ + escape(v@.take(i as int)),
        decreases v@.len() - i,
    {
        let c = v[i];
        if c == '&' {
            push_str(out, "&amp;");
        } else if c == '<' {
            push_str(out, "&lt;");
        } else if c == '>' {
            push_str(out, "&gt;");
        } else if c == '"' {
            push_str(out, "&quot;");
        } else if c == '\'' {
            push_str(out, "&#39;");
        } else {
            push_char(out, c);
        }
        proof {
            assert(v@.take(i + 1).drop_last() =~= v@.take(i as int));
            assert(v@.take(i + 1).last() == c);
            assert(out@ =~= old(out)@ + escape(v@.take(i + 1)));
        }
        i = i + 1;
    }
    proof {
        assert(v@.take(v@.len() as int) =~= v@);
    }
}

/// `s`, escaped (HTML text and attribute values).
pub fn h(s: &str) -> (r: String)
    ensures
        r@ == escape(s@),
{
    let mut r = String::new();
    push_escaped(&mut r, s);
    proof {
        assert(r@ =~= escape(s@));
    }
    r
}

// ---------------------------------------------------------------------
// Fixed pieces
// ---------------------------------------------------------------------

/// The placeholder shown for an absent value.
pub const NONE_HTML: &'static str = "<span class=\"muted\">(none / nessuno)</span>";

/// The style sheet of every page.
pub const STYLE: &'static str = r#"
:root { color-scheme: light dark; }
body { font-family: system-ui, -apple-system, Segoe UI, Roboto, sans-serif; line-height: 1.4; margin: 0; padding: 0; }
.container { max-width: 900px; margin: 0 auto; padding: 24px; }
a { color: inherit; }
.muted { opacity: 0.75; }
.grid { display: grid; grid-template-columns: 1fr 2fr; gap: 12px 16px; }
.grid dt { font-weight: 700; }
.grid dd { margin: 0; }
.bilingual { display: grid; grid-template-columns: 1fr; gap: 6px; }
.lang { font-size: 0.75rem; font-weight: 700; padding: 2px 6px; border-radius: 6px; border: 1px solid currentColor; margin-right: 6px; display: inline-block; }
hr { margin: 24px 0; opacity: 0.4; }
@media (min-width: 720px) {
  .bilingual { grid-template-columns: 1fr 1fr; }
}
"#;

/// The placeholder shown for an absent value.
pub fn none() -> (r: &'static str)
    ensures
        r@ == NONE_HTML@,
{
    NONE_HTML
}

/// The style sheet of every page.
pub fn css() -> (r: &'static str)
    ensures
        r@ == STYLE@,
{
    STYLE
}

/// A complete HTML document with the given title and body.
pub open spec fn page_text(title: Seq<char>, body: Seq<char>) -> Seq<char> {
    "<!doctype html>\n<html lang=\"en\">\n<head>\n<meta charset=\"utf-8\"/>\n<meta name=\"viewport\" content=\"width=device-width,initial-scale=1\"/>\n<title>"@
        + escape(title) + "</title>\n<style>\n"@ + STYLE@
        + "\n</style>\n</head>\n<body>\n<div class=\"container\">\n"@ + body
        + "\n</div>\n</body>\n</html>\n"@
}

/// Wraps a body into a complete HTML document.
pub fn page(title: &str, body: &str) -> (r: String)
    ensures
        r@ == page_text(title@, body@),
{
    let mut r = String::new();
    push_str(
        &mut r,
        "<!doctype html>\n<html lang=\"en\">\n<head>\n<meta charset=\"utf-8\"/>\n<meta name=\"viewport\" content=\"width=device-width,initial-scale=1\"/>\n<title>",
    );
    push_escaped(&mut r, title);
    push_str(&mut r, "</title>\n<style>\n");
    push_str(&mut r, css());
    push_str(&mut r, "\n</style>\n</head>\n<body>\n<div class=\"container\">\n");
    push_str(&mut r, body);
    push_str(&mut r, "\n</div>\n</body>\n</html>\n");
    proof {
        assert(r@ =~= page_text(title@, body@));
    }
    r
}

// ---------------------------------------------------------------------
// Definition-list rows
// ---------------------------------------------------------------------

/// A row with a plain value.
#[verifier::opaque]
pub open spec fn dl_line_text(label: Seq<char>, value: Seq<char>) -> Seq<char> {
    "<dt>"@ + escape(label) + "</dt><dd>"@ + escape(value) + "</dd>\n"@
}

/// A row with a plain value.
pub fn dl_line(label: &str, value: &str) -> (r: String)
    ensures
        r@ == dl_line_text(label@, value@),
{
    let mut r = String::new();
    push_str(&mut r, "<dt>");
    push_escaped(&mut r, label);
    push_str(&mut r, "</dt><dd>");
    push_escaped(&mut r, value);
    push_str(&mut r, "</dd>\n");
    proof {
        reveal(dl_line_text);
        assert(r@ =~= dl_line_text(label@, value@));
    }
    r
}

/// The English and Italian texts side by side.
#[verifier::opaque]
pub open spec fn bilingual_text(t: BilingualText) -> Seq<char> {
    "<div class=\"bilingual\"><div><span class=\"lang\">EN</span> "@ + escape(t.en@)
        + "</div><div><span class=\"lang\">IT</span> "@ + escape(t.it@) + "</div></div>"@
}

/// Appends the English and Italian texts side by side.
fn push_bilingual(out: &mut String, t: &BilingualText)
    ensures
        final(out)@ == old(out)@ + bilingual_text(*t),
{
    push_str(out, "<div class=\"bilingual\"><div><span class=\"lang\">EN</span> ");
    push_escaped(out, t.en.as_str());
    push_str(out, "</div><div><span class=\"lang\">IT</span> ");
    push_escaped(out, t.it.as_str());
    push_str(out, "</div></div>");
    proof {
        reveal(bilingual_text);
        assert(out@ =~= old(out)@ + bilingual_text(*t));
    }
}

/// A row with a bilingual value.
#[verifier::opaque]
pub open spec fn dl_bilingual_text(label: Seq<char>, t: BilingualText) -> Seq<char> {
    "<dt>"@ + escape(label) + "</dt><dd>"@ + bilingual_text(t) + "</dd>\n"@
}

/// A row with a bilingual value.
pub fn dl_bilingual(label: &str, t: &BilingualText) -> (r: String)
    ensures
        r@ == dl_bilingual_text(label@, *t),
{
    let mut r = String::new();
    push_str(&mut r, "<dt>");
    push_escaped(&mut r, label);
    push_str(&mut r, "</dt><dd>");
    push_bilingual(&mut r, t);
    push_str(&mut r, "</dd>\n");
    proof {
        reveal(dl_bilingual_text);
        assert(r@ =~= dl_bilingual_text(label@, *t));
    }
    r
}

/// One reference as a list item.
pub open spec fn ref_item_text(r: Reference) -> Seq<char> {
    "<li><a href=\""@ + escape(r.url@) + "\">"@ + escape(r.title.en@)
        + "</a><br/><span class=\"muted\">"@ + escape(r.title.it@) + "</span></li>"@
}

/// The items of a list of references.
pub open spec fn ref_items_text(refs: Seq<Reference>) -> Seq<char>
    decreases refs.len(),
{
    if refs.len() == 0 {
        Seq::empty()
    } else {
        ref_items_text(refs.drop_last()) + ref_item_text(refs.last())
    }
}

/// A list of references.
pub open spec fn refs_list_text(refs: Seq<Reference>) -> Seq<char> {
    "<ul>"@ + ref_items_text(refs) + "</ul>"@
}

/// A list of references.
pub fn refs_list(refs: &Vec<Reference>) -> (r: String)
    ensures
        r@ == refs_list_text(refs@),
{
    let mut r = String::new();
    push_str(&mut r, "<ul>");
    let ghost start = r@;
    let mut i: usize = 0;
    while i < refs.len()
        invariant
            i <= refs@.len(),
            r@ == start + ref_items_text(refs@.take(i as int)),
        decreases refs@.len() - i,
    {
        let x = &refs[i];
        push_str(&mut r, "<li><a href=\"");
        push_escaped(&mut r, x.url.as_str());
        push_str(&mut r, "\">");
        push_escaped(&mut r, x.title.en.as_str());
        push_str(&mut r, "</a><br/><span class=\"muted\">");
        push_escaped(&mut r, x.title.it.as_str());
        push_str(&mut r, "</span></li>");
        proof {
            assert(refs@.take(i + 1).drop_last() =~= refs@.take(i as int));
            assert(refs@.take(i + 1).last() == *x);
            assert(r@ =~= start + ref_items_text(refs@.take(i + 1)));
        }
        i = i + 1;
    }
    push_str(&mut r, "</ul>");
    proof {
        assert(refs@.take(refs@.len() as int) =~= refs@);
        assert(r@ =~= refs_list_text(refs@));
    }
    r
}

// ---------------------------------------------------------------------
// The index page
// ---------------------------------------------------------------------

/// The `Generated:` paragraph of the index, if there is a timestamp.
pub open spec fn generated_par_text(generated_at: Option<Seq<char>>) -> Seq<char> {
    match generated_at {
        Some(ts) => "<p><strong>Generated:</strong> "@ + escape(ts) + " </p>\n"@,
        None => Seq::empty(),
    }
}

/// One algorithm in the index list.
#[verifier::opaque]
pub open spec fn index_item_text(a: AlgorithmEntry) -> Seq<char> {
    "  <li><a href=\""@ + escape(a.slug@) + "/\">"@ + escape(a.title.en@)
        + "</a> — <span class=\"muted\">"@ + escape(a.action@)
        + "</span><br/><span class=\"muted\">"@ + escape(a.title.it@) + "</span></li>\n"@
}

fn push_index_item(out: &mut String, a: &AlgorithmEntry)
    ensures
        final(out)@ == old(out)@ + index_item_text(*a),
{
    push_str(out, "  <li><a href=\"");
    push_escaped(out, a.slug.as_str());
    push_str(out, "/\">");
    push_escaped(out, a.title.en.as_str());
    push_str(out, "</a> — <span class=\"muted\">");
    push_escaped(out, a.action.as_str());
    push_str(out, "</span><br/><span class=\"muted\">");
    push_escaped(out, a.title.it.as_str());
    push_str(out, "</span></li>\n");
    proof {
        reveal(index_item_text);
        assert(out@ =~= old(out)@ + index_item_text(*a));
    }
}

/// The items of the index list.
pub open spec fn index_items_text(algos: Seq<AlgorithmEntry>) -> Seq<char>
    decreases algos.len(),
{
    if algos.len() == 0 {
        Seq::empty()
    } else {
        index_items_text(algos.drop_last()) + index_item_text(algos.last())
    }
}

/// The body of the index page.
pub open spec fn index_body_text(
    tenant: Seq<char>,
    generated_at: Option<Seq<char>>,
    algos: Seq<AlgorithmEntry>,
) -> Seq<char> {
    "<h1>Algorithm Register / Registro degli algoritmi</h1>\n"@ + "<p><strong>Tenant:</strong> "@
        + escape(tenant) + " </p>\n"@ + generated_par_text(generated_at) + if algos.len() == 0 {
        "<p>No algorithms / Nessun algoritmo.</p>\n"@
    } else {
        "<ul>\n"@ + index_items_text(algos) + "</ul>\n"@
    }
}

/// The index page: the tenant, the timestamp if any, and one link per
/// algorithm in registry order.
pub open spec fn index_page_text(
    tenant: Seq<char>,
    generated_at: Option<Seq<char>>,
    algos: Seq<AlgorithmEntry>,
) -> Seq<char> {
    page_text("Algorithm Register"@, index_body_text(tenant, generated_at, algos))
}

/// Renders the index page of the register.
pub fn render_index_html(tenant: &str, generated_at: &Option<String>, algos: &Vec<AlgorithmEntry>) -> (r: String)
    ensures
        r@ == index_page_text(tenant@, opt_text(*generated_at), algos@),
{
    let mut body = String::new();
    push_str(&mut body, "<h1>Algorithm Register / Registro degli algoritmi</h1>\n");
    push_str(&mut body, "<p><strong>Tenant:</strong> ");
    push_escaped(&mut body, tenant);
    push_str(&mut body, " </p>\n");
    match generated_at {
        Some(ts) => {
            push_str(&mut body, "<p><strong>Generated:</strong> ");
            push_escaped(&mut body, ts.as_str());
            push_str(&mut body, " </p>\n");
        },
        None => {},
    }
    let ghost head = body@;
    if algos.len() == 0 {
        push_str(&mut body, "<p>No algorithms / Nessun algoritmo.</p>\n");
    } else {
        push_str(&mut body, "<ul>\n");
        let ghost start = body@;
        let mut i: usize = 0;
        while i < algos.len()
            invariant
                i <= algos@.len(),
                body@ == start + index_items_text(algos@.take(i as int)),
            decreases algos@.len() - i,
        {
            let a = &algos[i];
            push_index_item(&mut body, a);
            proof {
                assert(algos@.take(i + 1).drop_last() =~= algos@.take(i as int));
                assert(algos@.take(i + 1).last() == *a);
                assert(body@ =~= start + index_items_text(algos@.take(i + 1)));
            }
            i = i + 1;
        }
        push_str(&mut body, "</ul>\n");
        proof {
            assert(algos@.take(algos@.len() as int) =~= algos@);
        }
    }
    proof {
        assert(body@ =~= index_body_text(tenant@, opt_text(*generated_at), algos@));
    }
    page("Algorithm Register", body.as_str())
}

// ---------------------------------------------------------------------
// The page of one algorithm
// ---------------------------------------------------------------------

/// One data category as a list item.
pub open spec fn category_item_text(c: BilingualText) -> Seq<char> {
    "<li><span class=\"lang\">EN</span> "@ + escape(c.en@) + "<br/><span class=\"lang\">IT</span> "@
        + escape(c.it@) + "</li>"@
}

/// The items of the data categories list.
pub open spec fn category_items_text(cs: Seq<BilingualText>) -> Seq<char>
    decreases cs.len(),
{
    if cs.len() == 0 {
        Seq::empty()
    } else {
        category_items_text(cs.drop_last()) + category_item_text(cs.last())
    }
}

/// The data categories row.
#[verifier::opaque]
pub open spec fn categories_row_text(cs: Seq<BilingualText>) -> Seq<char> {
    "<dt>Data categories / Categorie di dati</dt><dd>"@ + (if cs.len() == 0 {
        NONE_HTML@
    } else {
        "<ul>"@ + category_items_text(cs) + "</ul>"@
    }) + "</dd>\n"@
}

fn push_categories_row(out: &mut String, cs: &Vec<BilingualText>)
    ensures
        final(out)@ == old(out)@ + categories_row_text(cs@),
{
    push_str(out, "<dt>Data categories / Categorie di dati</dt><dd>");
    if cs.len() == 0 {
        push_str(out, none());
    } else {
        push_str(out, "<ul>");
        let ghost start = out@;
        let mut i: usize = 0;
        while i < cs.len()
            invariant
                i <= cs@.len(),
                out@ == start + category_items_text(cs@.take(i as int)),
            decreases cs@.len() - i,
        {
            let c = &cs[i];
            push_str(out, "<li><span class=\"lang\">EN</span> ");
            push_escaped(out, c.en.as_str());
            push_str(out, "<br/><span class=\"lang\">IT</span> ");
            push_escaped(out, c.it.as_str());
            push_str(out, "</li>");
            proof {
                assert(cs@.take(i + 1).drop_last() =~= cs@.take(i as int));
                assert(cs@.take(i + 1).last() == *c);
                assert(out@ =~= start + category_items_text(cs@.take(i + 1)));
            }
            i = i + 1;
        }
        push_str(out, "</ul>");
        proof {
            assert(cs@.take(cs@.len() as int) =~= cs@);
        }
    }
    push_str(out, "</dd>\n");
    proof {
        reveal(categories_row_text);
        assert(out@ =~= old(out)@ + categories_row_text(cs@));
    }
}

/// An optional line of the model row.
pub open spec fn model_extra_text(label: Seq<char>, v: Option<Seq<char>>) -> Seq<char> {
    match v {
        Some(x) => "<div class=\"muted\">"@ + label + escape(x) + "</div>"@,
        None => Seq::empty(),
    }
}

fn push_model_extra(out: &mut String, label: &str, v: &Option<String>)
    ensures
        final(out)@ == old(out)@ + model_extra_text(label@, opt_text(*v)),
{
    match v {
        Some(x) => {
            push_str(out, "<div class=\"muted\">");
            push_str(out, label);
            push_escaped(out, x.as_str());
            push_str(out, "</div>");
            proof {
                assert(out@ =~= old(out)@ + model_extra_text(label@, opt_text(*v)));
            }
        },
        None => {
            proof {
                assert(out@ =~= old(out)@ + model_extra_text(label@, opt_text(*v)));
            }
        },
    }
}

/// The model row: name, then version and provider when known.
#[verifier::opaque]
pub open spec fn model_row_text(m: ModelRef) -> Seq<char> {
    "<dt>Model / Modello</dt><dd>"@ + "<div><strong>"@ + escape(m.name@) + "</strong></div>"@
        + model_extra_text("Version: "@, opt_text(m.version)) + model_extra_text(
        "Provider: "@,
        opt_text(m.provider),
    ) + "</dd>\n"@
}

fn push_model_row(out: &mut String, m: &ModelRef)
    ensures
        final(out)@ == old(out)@ + model_row_text(*m),
{
    push_str(out, "<dt>Model / Modello</dt><dd>");
    push_str(out, "<div><strong>");
    push_escaped(out, m.name.as_str());
    push_str(out, "</strong></div>");
    push_model_extra(out, "Version: ", &m.version);
    push_model_extra(out, "Provider: ", &m.provider);
    push_str(out, "</dd>\n");
    proof {
        reveal(model_row_text);
        assert(out@ =~= old(out)@ + model_row_text(*m));
    }
}

/// The name of a risk class.
pub open spec fn risk_name(r: RiskClass) -> Seq<char> {
    match r {
        RiskClass::Low => "low"@,
        RiskClass::Medium => "medium"@,
        RiskClass::High => "high"@,
        RiskClass::Critical => "critical"@,
    }
}

/// Each risk class is published under its own word, so two classes never
/// read alike.
pub proof fn risk_names_are_their_own(a: RiskClass, b: RiskClass)
    ensures
        risk_name(RiskClass::Low) == "low"@,
        risk_name(RiskClass::Medium) == "medium"@,
        risk_name(RiskClass::High) == "high"@,
        risk_name(RiskClass::Critical) == "critical"@,
        risk_name(a) == risk_name(b) ==> a == b,
{
    reveal_strlit("low");
    reveal_strlit("medium");
    reveal_strlit("high");
    reveal_strlit("critical");
    if risk_name(a) == risk_name(b) {
        assert(risk_name(a).len() == risk_name(b).len());
        assert(risk_name(a)[0] == risk_name(b)[0]);
    }
}

/// The name of a risk class.
pub fn risk_label(r: RiskClass) -> (s: &'static str)
    ensures
        s@ == risk_name(r),
        r is Low ==> s@ == "low"@,
        r is Medium ==> s@ == "medium"@,
        r is High ==> s@ == "high"@,
        r is Critical ==> s@ == "critical"@,
{
    match r {
        RiskClass::Low => "low",
        RiskClass::Medium => "medium",
        RiskClass::High => "high",
        RiskClass::Critical => "critical",
    }
}

/// The evaluation scorecard row.
#[verifier::opaque]
pub open spec fn scorecard_row_text(sc: Option<Reference>) -> Seq<char> {
    "<dt>Eval scorecard / Scorecard di valutazione</dt><dd>"@ + (match sc {
        Some(r) => "<div><a href=\""@ + escape(r.url@) + "\">"@ + escape(r.title.en@)
            + "</a></div><div class=\"muted\">"@ + escape(r.title.it@) + "</div>"@,
        None => NONE_HTML@,
    }) + "</dd>\n"@
}

fn push_scorecard_row(out: &mut String, sc: &Option<Reference>)
    ensures
        final(out)@ == old(out)@ + scorecard_row_text(*sc),
{
    push_str(out, "<dt>Eval scorecard / Scorecard di valutazione</dt><dd>");
    match sc {
        Some(r) => {
            push_str(out, "<div><a href=\"");
            push_escaped(out, r.url.as_str());
            push_str(out, "\">");
            push_escaped(out, r.title.en.as_str());
            push_str(out, "</a></div><div class=\"muted\">");
            push_escaped(out, r.title.it.as_str());
            push_str(out, "</div>");
        },
        None => {
            push_str(out, none());
        },
    }
    push_str(out, "</dd>\n");
    proof {
        reveal(scorecard_row_text);
        assert(out@ =~= old(out)@ + scorecard_row_text(*sc));
    }
}

/// A row of references, or the placeholder when there are none.
#[verifier::opaque]
pub open spec fn refs_row_text(head: Seq<char>, refs: Seq<Reference>) -> Seq<char> {
    head + (if refs.len() == 0 {
        NONE_HTML@
    } else {
        refs_list_text(refs)
    }) + "</dd>\n"@
}

fn push_refs_row(out: &mut String, head: &str, refs: &Vec<Reference>)
    ensures
        final(out)@ == old(out)@ + refs_row_text(head@, refs@),
{
    push_str(out, head);
    if refs.len() == 0 {
        push_str(out, none());
    } else {
        let l = refs_list(refs);
        push_str(out, l.as_str());
    }
    push_str(out, "</dd>\n");
    proof {
        reveal(refs_row_text);
        assert(out@ =~= old(out)@ + refs_row_text(head@, refs@));
    }
}

/// The e-mail line of the appeal contact, if there is an address.
pub open spec fn appeal_email_text(e: Option<Seq<char>>) -> Seq<char> {
    match e {
        Some(e) => "<div>Email: <a href=\"mailto:"@ + escape(e) + "\">"@ + escape(e) + "</a></div>"@,
        None => Seq::empty(),
    }
}

/// The URL line of the appeal contact, if there is one.
pub open spec fn appeal_url_text(u: Option<Seq<char>>) -> Seq<char> {
    match u {
        Some(u) => "<div>URL: <a href=\""@ + escape(u) + "\">"@ + escape(u) + "</a></div>"@,
        None => Seq::empty(),
    }
}

/// The notes of the appeal contact, if there are any.
pub open spec fn appeal_notes_text(n: Option<BilingualText>) -> Seq<char> {
    match n {
        Some(n) => bilingual_text(n),
        None => Seq::empty(),
    }
}

/// The appeal contact row: e-mail, URL and notes when given, or the
/// placeholder when none is.
#[verifier::opaque]
pub open spec fn appeal_row_text(c: AppealContact) -> Seq<char> {
    "<dt>Appeal contact / Contatto per ricorso</dt><dd>"@ + appeal_email_text(opt_text(c.email))
        + appeal_url_text(opt_text(c.url)) + appeal_notes_text(c.notes) + (if c.email is None && c.url is None && c.notes is None {
        NONE_HTML@
    } else {
        Seq::empty()
    }) + "</dd>\n"@
}

fn push_appeal_email(out: &mut String, e: &Option<String>)
    ensures
        final(out)@ == old(out)@ + appeal_email_text(opt_text(*e)),
{
    match e {
        Some(e) => {
            push_str(out, "<div>Email: <a href=\"mailto:");
            push_escaped(out, e.as_str());
            push_str(out, "\">");
            push_escaped(out, e.as_str());
            push_str(out, "</a></div>");
        },
        None => {},
    }
    proof {
        assert(out@ =~= old(out)@ + appeal_email_text(opt_text(*e)));
    }
}

fn push_appeal_url(out: &mut String, u: &Option<String>)
    ensures
        final(out)@ == old(out)@ + appeal_url_text(opt_text(*u)),
{
    match u {
        Some(u) => {
            push_str(out, "<div>URL: <a href=\"");
            push_escaped(out, u.as_str());
            push_str(out, "\">");
            push_escaped(out, u.as_str());
            push_str(out, "</a></div>");
        },
        None => {},
    }
    proof {
        assert(out@ =~= old(out)@ + appeal_url_text(opt_text(*u)));
    }
}

fn push_appeal_row(out: &mut String, c: &AppealContact)
    ensures
        final(out)@ == old(out)@ + appeal_row_text(*c),
{
    push_str(out, "<dt>Appeal contact / Contatto per ricorso</dt><dd>");
    push_appeal_email(out, &c.email);
    push_appeal_url(out, &c.url);
    let ghost before_notes = out@;
    match &c.notes {
        Some(n) => {
            push_bilingual(out, n);
        },
        None => {},
    }
    proof {
        assert(out@ =~= before_notes + appeal_notes_text(c.notes));
    }
    let ghost before_none = out@;
    if c.email.is_none() && c.url.is_none() && c.notes.is_none() {
        push_str(out, none());
    }
    push_str(out, "</dd>\n");
    proof {
        reveal(appeal_row_text);
        assert(out@ =~= old(out)@ + appeal_row_text(*c));
    }
}

/// The head of the page: back link, titles, and the opening of the list.
#[verifier::opaque]
pub open spec fn algorithm_head_text(a: AlgorithmEntry) -> Seq<char> {
    "<p><a href=\"../\">&larr; Back / Indietro</a></p>\n"@ + "<h1>"@ + escape(a.title.en@)
        + " <span class=\"muted\">("@ + escape(a.action@) + ")</span></h1>\n"@
        + "<p class=\"muted\">"@ + escape(a.title.it@) + "</p>\n"@ + "<dl class=\"grid\">\n"@
}

fn push_algorithm_head(out: &mut String, a: &AlgorithmEntry)
    ensures
        final(out)@ == old(out)@ + algorithm_head_text(*a),
{
    push_str(out, "<p><a href=\"../\">&larr; Back / Indietro</a></p>\n");
    push_str(out, "<h1>");
    push_escaped(out, a.title.en.as_str());
    push_str(out, " <span class=\"muted\">(");
    push_escaped(out, a.action.as_str());
    push_str(out, ")</span></h1>\n");
    push_str(out, "<p class=\"muted\">");
    push_escaped(out, a.title.it.as_str());
    push_str(out, "</p>\n");
    push_str(out, "<dl class=\"grid\">\n");
    proof {
        reveal(algorithm_head_text);
        assert(out@ =~= old(out)@ + algorithm_head_text(*a));
    }
}

/// Purpose, lawful basis, data categories, model and region.
#[verifier::opaque]
pub open spec fn first_rows_text(a: AlgorithmEntry) -> Seq<char> {
    dl_bilingual_text("Purpose / Scopo"@, a.purpose) + dl_bilingual_text(
        "Lawful basis / Base giuridica"@,
        a.lawful_basis,
    ) + categories_row_text(a.data_categories@) + model_row_text(a.model) + dl_line_text(
        "Region / Regione"@,
        a.region@,
    )
}

fn push_first_rows(out: &mut String, a: &AlgorithmEntry)
    ensures
        final(out)@ == old(out)@ + first_rows_text(*a),
{
    let s = dl_bilingual("Purpose / Scopo", &a.purpose);
    push_str(out, s.as_str());
    let s = dl_bilingual("Lawful basis / Base giuridica", &a.lawful_basis);
    push_str(out, s.as_str());
    push_categories_row(out, &a.data_categories);
    push_model_row(out, &a.model);
    let s = dl_line("Region / Regione", a.region.as_str());
    push_str(out, s.as_str());
    proof {
        reveal(first_rows_text);
        assert(out@ =~= old(out)@ + first_rows_text(*a));
    }
}

/// Oversight, risk class, scorecard, DPIA and ethics references,
/// limitations and appeal contact.
#[verifier::opaque]
pub open spec fn last_rows_text(a: AlgorithmEntry) -> Seq<char> {
    dl_bilingual_text("Oversight / Supervisione"@, a.oversight) + dl_line_text(
        "Risk class / Classe di rischio"@,
        risk_name(a.risk_class),
    ) + scorecard_row_text(a.eval_scorecard) + refs_row_text(
        "<dt>DPIA refs / Riferimenti DPIA</dt><dd>"@,
        a.dpia_refs@,
    ) + refs_row_text("<dt>Ethics refs / Riferimenti etici</dt><dd>"@, a.ethics_refs@)
        + dl_bilingual_text("Limitations / Limitazioni"@, a.limitations) + appeal_row_text(
        a.appeal_contact,
    )
}

fn push_last_rows(out: &mut String, a: &AlgorithmEntry)
    ensures
        final(out)@ == old(out)@ + last_rows_text(*a),
{
    let s = dl_bilingual("Oversight / Supervisione", &a.oversight);
    push_str(out, s.as_str());
    let s = dl_line("Risk class / Classe di rischio", risk_label(a.risk_class));
    push_str(out, s.as_str());
    push_scorecard_row(out, &a.eval_scorecard);
    push_refs_row(out, "<dt>DPIA refs / Riferimenti DPIA</dt><dd>", &a.dpia_refs);
    push_refs_row(out, "<dt>Ethics refs / Riferimenti etici</dt><dd>", &a.ethics_refs);
    let s = dl_bilingual("Limitations / Limitazioni", &a.limitations);
    push_str(out, s.as_str());
    push_appeal_row(out, &a.appeal_contact);
    proof {
        reveal(last_rows_text);
        assert(out@ =~= old(out)@ + last_rows_text(*a));
    }
}

/// The closing line: tenant, slug, and the timestamp when there is one.
#[verifier::opaque]
pub open spec fn footer_text(tenant: Seq<char>, slug: Seq<char>, generated_at: Option<Seq<char>>) -> Seq<char> {
    "<hr/><p class=\"muted\"><strong>Tenant:</strong> "@ + escape(tenant)
        + " &middot; <strong>Slug:</strong> "@ + escape(slug) + (match generated_at {
        Some(ts) => " &middot; <strong>Generated:</strong> "@ + escape(ts),
        None => Seq::empty(),
    }) + "</p>\n"@
}

fn push_footer(out: &mut String, tenant: &str, slug: &str, generated_at: &Option<String>)
    ensures
        final(out)@ == old(out)@ + footer_text(tenant@, slug@, opt_text(*generated_at)),
{
    push_str(out, "<hr/><p class=\"muted\"><strong>Tenant:</strong> ");
    push_escaped(out, tenant);
    push_str(out, " &middot; <strong>Slug:</strong> ");
    push_escaped(out, slug);
    let ghost mid = out@;
    match generated_at {
        Some(ts) => {
            push_str(out, " &middot; <strong>Generated:</strong> ");
            push_escaped(out, ts.as_str());
        },
        None => {},
    }
    push_str(out, "</p>\n");
    proof {
        reveal(footer_text);
        assert(out@ =~= old(out)@ + footer_text(tenant@, slug@, opt_text(*generated_at)));
    }
}

/// The body of an algorithm's page.
pub open spec fn algorithm_body_text(
    tenant: Seq<char>,
    generated_at: Option<Seq<char>>,
    a: AlgorithmEntry,
) -> Seq<char> {
    algorithm_head_text(a) + first_rows_text(a) + last_rows_text(a) + "</dl>\n"@ + footer_text(
        tenant,
        a.slug@,
        generated_at,
    )
}

/// The page of one algorithm, titled with its slug.
pub open spec fn algorithm_page_text(
    tenant: Seq<char>,
    generated_at: Option<Seq<char>>,
    a: AlgorithmEntry,
) -> Seq<char> {
    page_text("Algorithm: "@ + a.slug@, algorithm_body_text(tenant, generated_at, a))
}

/// Renders the page of one algorithm.
pub fn render_algorithm_html(tenant: &str, generated_at: &Option<String>, a: &AlgorithmEntry) -> (r: String)
    ensures
        r@ == algorithm_page_text(tenant@, opt_text(*generated_at), *a),
{
    let mut body = String::new();
    push_algorithm_head(&mut body, a);
    push_first_rows(&mut body, a);
    push_last_rows(&mut body, a);
    push_str(&mut body, "</dl>\n");
    push_footer(&mut body, tenant, a.slug.as_str(), generated_at);
    let mut title = String::new();
    push_str(&mut title, "Algorithm: ");
    push_str(&mut title, a.slug.as_str());
    proof {
        assert(title@ =~= "Algorithm: "@ + a.slug@);
        assert(body@ =~= algorithm_body_text(tenant@, opt_text(*generated_at), *a));
    }
    page(title.as_str(), body.as_str())
}

// ---------------------------------------------------------------------
// The site
// ---------------------------------------------------------------------

/// One file of the generated site: its path below
/// `<out>/<tenant>/algorithms/`, and its contents.
pub struct SiteFile {
    pub path: String,
    pub html: String,
}

/// Checks the registry for `tenant` and renders its site: the index
/// first, then one page per algorithm, in registry order, each at
/// `<slug>/index.html`.
pub fn generate_site(doc: &ReleaseGateRegistry, tenant: &str) -> (r: Result<Vec<SiteFile>, RegistryError>)
    ensures
        r is Ok <==> registry_ok(doc, tenant@),
        r matches Err(e) ==> registry_rejects(doc, tenant@, e),
        r matches Ok(files) ==> {
            &&& files@.len() == doc.algorithms@.len() + 1
            &&& files@[0].path@ == "index.html"@
            &&& files@[0].html@ == index_page_text(tenant@, opt_text(doc.generated_at), doc.algorithms@)
            &&& forall|i: int|
                0 <= i < doc.algorithms@.len() ==> (#[trigger] files@[i + 1]).path@
                    == doc.algorithms@[i].slug@ + "/index.html"@ && files@[i + 1].html@
                    == algorithm_page_text(tenant@, opt_text(doc.generated_at), doc.algorithms@[i])
        },
{
    match check_registry(doc, tenant) {
        Err(e) => {
            return Err(e);
        },
        Ok(()) => {},
    }
    let mut files: Vec<SiteFile> = Vec::new();
    let mut index_path = String::new();
    push_str(&mut index_path, "index.html");
    let index = render_index_html(tenant, &doc.generated_at, &doc.algorithms);
    files.push(SiteFile { path: index_path, html: index });
    let mut i: usize = 0;
    while i < doc.algorithms.len()
        invariant
            i <= doc.algorithms@.len(),
            files@.len() == i + 1,
            files@[0].path@ == "index.html"@,
            files@[0].html@ == index_page_text(tenant@, opt_text(doc.generated_at), doc.algorithms@),
            forall|k: int|
                0 <= k < i ==> (#[trigger] files@[k + 1]).path@ == doc.algorithms@[k].slug@
                    + "/index.html"@ && files@[k + 1].html@ == algorithm_page_text(
                    tenant@,
                    opt_text(doc.generated_at),
                    doc.algorithms@[k],
                ),
        decreases doc.algorithms@.len() - i,
    {
        let a = &doc.algorithms[i];
        let mut path = a.slug.clone();
        push_str(&mut path, "/index.html");
        let html = render_algorithm_html(tenant, &doc.generated_at, a);
        files.push(SiteFile { path, html });
        i = i + 1;
    }
    Ok(files)
}


// ---------------------------------------------------------------------
// Counting the list items of the index
// ---------------------------------------------------------------------

/// How many places of `s` begin an occurrence of `p`.
pub open spec fn occurrences(s: Seq<char>, p: Seq<char>) -> nat
    decreases s.len(),
{
    if s.len() == 0 {
        0
    } else {
        (if starts_with(s, p) { 1nat } else { 0nat }) + occurrences(s.drop_first(), p)
    }
}

/// No `<` of `s` is directly followed by `c`.
pub open spec fn no_tag(s: Seq<char>, c: char) -> bool {
    forall|i: int| 0 <= i < s.len() - 1 ==> !(#[trigger] s[i] == '<' && s[i + 1] == c)
}

/// The last `k` characters of `a` hold no `<`.
pub open spec fn tail_lt_free(a: Seq<char>, k: int) -> bool {
    forall|i: int| 0 <= i < a.len() && a.len() - k <= i ==> #[trigger] a[i] != '<'
}

/// A text with no `<` directly followed by the second character of `p`
/// (which starts with `<`) holds no occurrence of `p`.
proof fn lemma_no_tag_occ(s: Seq<char>, p: Seq<char>)
    requires
        p.len() >= 2,
        p[0] == '<',
        no_tag(s, p[1]),
    ensures
        occurrences(s, p) == 0,
    decreases s.len(),
{
    if s.len() > 0 {
        if starts_with(s, p) {
            assert(s.take(p.len() as int)[0] == s[0]);
            assert(s.take(p.len() as int)[1] == s[1]);
            assert(s[0] == '<' && s[1] == p[1]);
        }
        assert forall|i: int| 0 <= i < s.drop_first().len() - 1 implies !(#[trigger] s.drop_first()[i] == '<'
            && s.drop_first()[i + 1] == p[1]) by {
            assert(s.drop_first()[i] == s[i + 1]);
            assert(s.drop_first()[i + 1] == s[i + 2]);
            assert(!(s[i + 1] == '<' && s[i + 2] == p[1]));
        }
        lemma_no_tag_occ(s.drop_first(), p);
    }
}

/// Occurrences of a pattern that starts with `<` add up over a
/// concatenation whose left part ends without `<` in its last characters:
/// none can straddle the seam.
proof fn lemma_occ_concat(a: Seq<char>, b: Seq<char>, p: Seq<char>)
    requires
        p.len() >= 1,
        p[0] == '<',
        tail_lt_free(a, p.len() - 1),
    ensures
        occurrences(a + b, p) == occurrences(a, p) + occurrences(b, p),
    decreases a.len(),
{
    if a.len() == 0 {
        assert(a + b =~= b);
    } else {
        assert((a + b).drop_first() =~= a.drop_first() + b);
        assert forall|i: int|
            0 <= i < a.drop_first().len() && a.drop_first().len() - (p.len() - 1) <= i implies #[trigger] a.drop_first()[i]
            != '<' by {
            assert(a.drop_first()[i] == a[i + 1]);
        }
        lemma_occ_concat(a.drop_first(), b, p);
        if a.len() >= p.len() {
            assert((a + b).take(p.len() as int) =~= a.take(p.len() as int));
        } else {
            assert(a[0] != '<');
            assert((a + b)[0] == a[0]);
            if starts_with(a + b, p) {
                assert((a + b).take(p.len() as int)[0] == (a + b)[0]);
            }
        }
    }
}

/// Two texts whose last characters hold no `<` make one.
proof fn lemma_tail_concat(x: Seq<char>, y: Seq<char>, k: int)
    requires
        k >= 0,
        tail_lt_free(x, k),
        tail_lt_free(y, k),
    ensures
        tail_lt_free(x + y, k),
{
    assert forall|i: int| 0 <= i < (x + y).len() && (x + y).len() - k <= i implies #[trigger] (x + y)[i]
        != '<' by {
        if i < x.len() {
            assert((x + y)[i] == x[i]);
        } else {
            assert((x + y)[i] == y[i - x.len()]);
        }
    }
}

/// Escaped text holds no `<` at all.
proof fn lemma_escape_lt_free(s: Seq<char>)
    ensures
        tail_lt_free(escape(s), 3),
        no_tag(escape(s), 'l'),
{
    escape_is_inert(s);
    let e = escape(s);
    assert forall|i: int| 0 <= i < e.len() && e.len() - 3 <= i implies #[trigger] e[i] != '<' by {
        assert(!markup_char(e[i]));
    }
    assert forall|i: int| 0 <= i < e.len() - 1 implies !(#[trigger] e[i] == '<' && e[i + 1] == 'l') by {
        assert(!markup_char(e[i]));
    }
}

/// A piece of a page: no `<` in its last three characters, and the count
/// of list items in it.
pub open spec fn li_piece(s: Seq<char>, n: nat) -> bool {
    tail_lt_free(s, 3) && occurrences(s, "<li>"@) == n
}

/// Two pieces make one, with their counts added.
proof fn lemma_li_join(x: Seq<char>, m: nat, y: Seq<char>, n: nat)
    requires
        li_piece(x, m),
        li_piece(y, n),
    ensures
        li_piece(x + y, m + n),
{
    reveal_strlit("<li>");
    lemma_occ_concat(x, y, "<li>"@);
    lemma_tail_concat(x, y, 3);
}

/// A piece with no list item.
proof fn lemma_li_none(s: Seq<char>)
    requires
        tail_lt_free(s, 3),
        no_tag(s, 'l'),
    ensures
        li_piece(s, 0),
{
    reveal_strlit("<li>");
    lemma_no_tag_occ(s, "<li>"@);
}

proof fn lemma_li_escape(s: Seq<char>)
    ensures
        li_piece(escape(s), 0),
{
    lemma_escape_lt_free(s);
    lemma_li_none(escape(s));
}

/// The style sheet holds no `<`.
proof fn lemma_style_piece()
    ensures
        li_piece(STYLE@, 0),
{
    reveal_strlit(r#"
:root { color-scheme: light dark; }
body { font-family: system-ui, -apple-system, Segoe UI, Roboto, sans-serif; line-height: 1.4; margin: 0; padding: 0; }
.container { max-width: 900px; margin: 0 auto; padding: 24px; }
a { color: inherit; }
.muted { opacity: 0.75; }
.grid { display: grid; grid-template-columns: 1fr 2fr; gap: 12px 16px; }
.grid dt { font-weight: 700; }
.grid dd { margin: 0; }
.bilingual { display: grid; grid-template-columns: 1fr; gap: 6px; }
.lang { font-size: 0.75rem; font-weight: 700; padding: 2px 6px; border-radius: 6px; border: 1px solid currentColor; margin-right: 6px; display: inline-block; }
hr { margin: 24px 0; opacity: 0.4; }
@media (min-width: 720px) {
  .bilingual { grid-template-columns: 1fr 1fr; }
}
"#);
    assert(STYLE@ == (r#"
:root { color-scheme: light dark; }
body { font-family: system-ui, -apple-system, Segoe UI, Roboto, sans-serif; line-height: 1.4; margin: 0; padding: 0; }
.container { max-width: 900px; margin: 0 auto; padding: 24px; }
a { color: inherit; }
.muted { opacity: 0.75; }
.grid { display: grid; grid-template-columns: 1fr 2fr; gap: 12px 16px; }
.grid dt { font-weight: 700; }
.grid dd { margin: 0; }
.bilingual { display: grid; grid-template-columns: 1fr; gap: 6px; }
.lang { font-size: 0.75rem; font-weight: 700; padding: 2px 6px; border-radius: 6px; border: 1px solid currentColor; margin-right: 6px; display: inline-block; }
hr { margin: 24px 0; opacity: 0.4; }
@media (min-width: 720px) {
  .bilingual { grid-template-columns: 1fr 1fr; }
}
"#)@);
    lemma_li_none(STYLE@);
}

/// One algorithm of the index is one list item.
proof fn lemma_index_item_piece(a: AlgorithmEntry)
    ensures
        li_piece(index_item_text(a), 1),
{
    reveal(index_item_text);
    reveal_strlit("  ");
    reveal_strlit("<li>");
    reveal_strlit("<a href=\"");
    reveal_strlit("  <li><a href=\"");
    reveal_strlit("/\">");
    reveal_strlit("</a> — <span class=\"muted\">");
    reveal_strlit("</span><br/><span class=\"muted\">");
    reveal_strlit("</span></li>\n");
    assert("  <li><a href=\""@ =~= "  "@ + "<li>"@ + "<a href=\""@);
    lemma_li_none("  "@);
    // `<li>` itself.
    assert("<li>"@.take(4) =~= "<li>"@);
    assert(starts_with("<li>"@, "<li>"@));
    assert("<li>"@.drop_first().len() == 3);
    assert(occurrences("<li>"@.drop_first(), "<li>"@) == 0) by {
        lemma_li_none("<li>"@.drop_first());
    }
    assert(li_piece("<li>"@, 1));
    lemma_li_none("<a href=\""@);
    lemma_li_join("  "@, 0, "<li>"@, 1);
    lemma_li_join("  "@ + "<li>"@, 1, "<a href=\""@, 0);
    let x1 = "  <li><a href=\""@;
    lemma_li_escape(a.slug@);
    lemma_li_join(x1, 1, escape(a.slug@), 0);
    let x2 = x1 + escape(a.slug@);
    lemma_li_none("/\">"@);
    lemma_li_join(x2, 1, "/\">"@, 0);
    let x3 = x2 + "/\">"@;
    lemma_li_escape(a.title.en@);
    lemma_li_join(x3, 1, escape(a.title.en@), 0);
    let x4 = x3 + escape(a.title.en@);
    lemma_li_none("</a> — <span class=\"muted\">"@);
    lemma_li_join(x4, 1, "</a> — <span class=\"muted\">"@, 0);
    let x5 = x4 + "</a> — <span class=\"muted\">"@;
    lemma_li_escape(a.action@);
    lemma_li_join(x5, 1, escape(a.action@), 0);
    let x6 = x5 + escape(a.action@);
    lemma_li_none("</span><br/><span class=\"muted\">"@);
    lemma_li_join(x6, 1, "</span><br/><span class=\"muted\">"@, 0);
    let x7 = x6 + "</span><br/><span class=\"muted\">"@;
    lemma_li_escape(a.title.it@);
    lemma_li_join(x7, 1, escape(a.title.it@), 0);
    let x8 = x7 + escape(a.title.it@);
    lemma_li_none("</span></li>\n"@);
    lemma_li_join(x8, 1, "</span></li>\n"@, 0);
}

/// The list of the index holds one item per algorithm.
proof fn lemma_index_items_piece(algos: Seq<AlgorithmEntry>)
    ensures
        li_piece(index_items_text(algos), algos.len()),
    decreases algos.len(),
{
    reveal_strlit("<li>");
    if algos.len() == 0 {
        assert(index_items_text(algos) =~= Seq::<char>::empty());
        assert(li_piece(Seq::<char>::empty(), 0));
    } else {
        lemma_index_items_piece(algos.drop_last());
        lemma_index_item_piece(algos.last());
        lemma_li_join(index_items_text(algos.drop_last()), (algos.len() - 1) as nat, index_item_text(algos.last()), 1);
    }
}

/// The index page lists every algorithm of the register once: it holds
/// exactly as many `<li>` items as there are algorithms.
pub proof fn index_lists_each_algorithm(
    tenant: Seq<char>,
    generated_at: Option<Seq<char>>,
    algos: Seq<AlgorithmEntry>,
)
    ensures
        occurrences(index_page_text(tenant, generated_at, algos), "<li>"@) == algos.len(),
{
    reveal_strlit("<h1>Algorithm Register / Registro degli algoritmi</h1>\n");
    reveal_strlit("<p><strong>Tenant:</strong> ");
    reveal_strlit(" </p>\n");
    reveal_strlit("<p><strong>Generated:</strong> ");
    reveal_strlit("<p>No algorithms / Nessun algoritmo.</p>\n");
    reveal_strlit("<ul>\n");
    reveal_strlit("</ul>\n");
    reveal_strlit("<!doctype html>\n<html lang=\"en\">\n<head>\n<meta charset=\"utf-8\"/>\n<meta name=\"viewport\" content=\"width=device-width,initial-scale=1\"/>\n<title>");
    reveal_strlit("</title>\n<style>\n");
    reveal_strlit("\n</style>\n</head>\n<body>\n<div class=\"container\">\n");
    reveal_strlit("\n</div>\n</body>\n</html>\n");
    // The generated note.
    let g = generated_par_text(generated_at);
    match generated_at {
        Some(ts) => {
            lemma_li_none("<p><strong>Generated:</strong> "@);
            lemma_li_escape(ts);
            lemma_li_none(" </p>\n"@);
            lemma_li_join("<p><strong>Generated:</strong> "@, 0, escape(ts), 0);
            lemma_li_join("<p><strong>Generated:</strong> "@ + escape(ts), 0, " </p>\n"@, 0);
        },
        None => {
            assert(li_piece(Seq::<char>::empty(), 0));
        },
    }
    assert(li_piece(g, 0));
    // The list, or the note that there is none.
    let list = if algos.len() == 0 {
        "<p>No algorithms / Nessun algoritmo.</p>\n"@
    } else {
        "<ul>\n"@ + index_items_text(algos) + "</ul>\n"@
    };
    if algos.len() == 0 {
        lemma_li_none("<p>No algorithms / Nessun algoritmo.</p>\n"@);
    } else {
        lemma_li_none("<ul>\n"@);
        lemma_index_items_piece(algos);
        lemma_li_none("</ul>\n"@);
        lemma_li_join("<ul>\n"@, 0, index_items_text(algos), algos.len());
        lemma_li_join("<ul>\n"@ + index_items_text(algos), algos.len(), "</ul>\n"@, 0);
    }
    assert(li_piece(list, algos.len()));
    // The body.
    let b1 = "<h1>Algorithm Register / Registro degli algoritmi</h1>\n"@;
    let b2 = "<p><strong>Tenant:</strong> "@;
    let b3 = " </p>\n"@;
    lemma_li_none(b1);
    lemma_li_none(b2);
    lemma_li_none(b3);
    lemma_li_escape(tenant);
    lemma_li_join(b1, 0, b2, 0);
    lemma_li_join(b1 + b2, 0, escape(tenant), 0);
    lemma_li_join(b1 + b2 + escape(tenant), 0, b3, 0);
    lemma_li_join(b1 + b2 + escape(tenant) + b3, 0, g, 0);
    lemma_li_join(b1 + b2 + escape(tenant) + b3 + g, 0, list, algos.len());
    let body = index_body_text(tenant, generated_at, algos);
    assert(body == b1 + b2 + escape(tenant) + b3 + g + list);
    // The page around it.
    let h1 = "<!doctype html>\n<html lang=\"en\">\n<head>\n<meta charset=\"utf-8\"/>\n<meta name=\"viewport\" content=\"width=device-width,initial-scale=1\"/>\n<title>"@;
    let h2 = "</title>\n<style>\n"@;
    let h3 = "\n</style>\n</head>\n<body>\n<div class=\"container\">\n"@;
    let h4 = "\n</div>\n</body>\n</html>\n"@;
    lemma_li_none(h1);
    lemma_li_none(h2);
    lemma_li_none(h3);
    lemma_li_none(h4);
    lemma_style_piece();
    lemma_li_escape("Algorithm Register"@);
    lemma_li_join(h1, 0, escape("Algorithm Register"@), 0);
    lemma_li_join(h1 + escape("Algorithm Register"@), 0, h2, 0);
    lemma_li_join(h1 + escape("Algorithm Register"@) + h2, 0, STYLE@, 0);
    lemma_li_join(h1 + escape("Algorithm Register"@) + h2 + STYLE@, 0, h3, 0);
    lemma_li_join(h1 + escape("Algorithm Register"@) + h2 + STYLE@ + h3, 0, body, algos.len());
    lemma_li_join(h1 + escape("Algorithm Register"@) + h2 + STYLE@ + h3 + body, algos.len(), h4, 0);
}

} // verus!
