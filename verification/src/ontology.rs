//! `cvg ontology`: selectors, response rows, and the schema-registry
//! request paths.
use crate::numeric::{dec_signed, push_i64};
use crate::cells::{byte_len, byte_prefix, padded, push_byte_prefix, push_padded};
use crate::text::{line_texts, lemma_line_texts_push, lemma_map_take_push, owned, push_str};
use vstd::utf8::is_char_boundary;
use vstd::utf8::encode_utf8;
use vstd::prelude::*;

verus! {

/// `cvg ontology` subcommands.
pub enum OntologyCommand {
    /// List the latest revision of every registered ObjectType and LinkType.
    ListTypes,
    /// Describe a single ObjectType or LinkType.
    Describe { kind: TypeKindArg, name: String, version: Option<i64> },
    /// Render one ObjectType as a byte-identical export.
    Export { name: String, format: ExportFormatArg, version: Option<i64> },
}

/// Type family selector for `cvg ontology describe`.
#[derive(Clone, Copy, Debug, PartialEq, Eq, Structural)]
pub enum TypeKindArg {
    /// ObjectType: a typed domain object.
    Object,
    /// LinkType: a typed relationship between objects.
    Link,
}

/// Export format selector for `cvg ontology export`.
#[derive(Clone, Copy, Debug, PartialEq, Eq, Structural)]
pub enum ExportFormatArg {
    /// Canonical JSON-Schema document (draft 2020-12).
    Jsonschema,
    /// SHACL shape graph encoded as JSON-LD.
    Shacl,
}

impl ExportFormatArg {
    /// The URL fragment of the format.
    pub open spec fn path_text(self) -> Seq<char> {
        match self {
            ExportFormatArg::Jsonschema => "jsonschema"@,
            ExportFormatArg::Shacl => "shacl"@,
        }
    }

    /// URL fragment expected by the daemon.
    pub fn as_path(self) -> (r: &'static str)
        ensures
            r@ == self.path_text(),
            self is Jsonschema ==> r@ == "jsonschema"@,
            self is Shacl ==> r@ == "shacl"@,
    {
        match self {
            ExportFormatArg::Jsonschema => "jsonschema",
            ExportFormatArg::Shacl => "shacl",
        }
    }
}

/// Render format selector for `cvg ontology diff|lineage|branch-diff`.
#[derive(Clone, Copy, Debug, PartialEq, Eq, Structural)]
pub enum GraphFormatArg {
    /// Stable canonical JSON.
    Json,
    /// Mermaid flowchart.
    Mermaid,
    /// Graphviz DOT.
    Dot,
}

impl GraphFormatArg {
    /// The query-string value of the format.
    pub open spec fn query_text(self) -> Seq<char> {
        match self {
            GraphFormatArg::Json => "json"@,
            GraphFormatArg::Mermaid => "mermaid"@,
            GraphFormatArg::Dot => "dot"@,
        }
    }

    /// Query-string value expected by the daemon.
    pub fn as_query(self) -> (r: &'static str)
        ensures
            r@ == self.query_text(),
            self is Json ==> r@ == "json"@,
            self is Mermaid ==> r@ == "mermaid"@,
            self is Dot ==> r@ == "dot"@,
    {
        match self {
            GraphFormatArg::Json => "json",
            GraphFormatArg::Mermaid => "mermaid",
            GraphFormatArg::Dot => "dot",
        }
    }
}

/// One row in `cvg ontology list-types`.
pub struct TypeRow {
    /// "object" or "link".
    pub kind: String,
    /// Registry name.
    pub name: String,
    /// Schema version of the row.
    pub schema_version: i64,
    /// Display title (may be empty).
    pub title: String,
    /// Free-form description (may be empty).
    pub description: String,
    /// Stable content hash.
    pub content_hash: String,
}

/// Body of `GET /v1/ontology/types`.
pub struct ListResponse {
    /// Registered ObjectType rows (latest revision per name).
    pub objects: Vec<TypeRow>,
    /// Registered LinkType rows (latest revision per name).
    pub links: Vec<TypeRow>,
}

/// One property row in `cvg ontology describe object`.
pub struct PropertyRow {
    pub name: String,
    pub schema_version: i64,
    pub datatype: String,
    pub required: bool,
    pub title: String,
    pub description: String,
    pub content_hash: String,
}

/// Body of `GET /v1/ontology/types/object/:name`.
pub struct DescribeObject {
    pub name: String,
    pub schema_version: i64,
    pub title: String,
    pub description: String,
    pub breaking: bool,
    pub content_hash: String,
    pub properties: Vec<PropertyRow>,
}

/// Body of `GET /v1/ontology/types/link/:name`.
pub struct DescribeLink {
    pub name: String,
    pub schema_version: i64,
    pub title: String,
    pub description: String,
    pub from_object: String,
    pub to_object: String,
    pub breaking: bool,
    pub content_hash: String,
}

// ---------------------------------------------------------------------
// Request paths
// ---------------------------------------------------------------------

/// `?version=<v>` when a version is pinned.
pub open spec fn version_suffix(version: Option<int>) -> Seq<char> {
    match version {
        Some(v) => "?version="@ + dec_signed(v),
        None => Seq::empty(),
    }
}

fn push_version(out: &mut String, version: Option<i64>)
    ensures
        final(out)@ == old(out)@ + version_suffix(
            match version {
                Some(v) => Some(v as int),
                None => None,
            },
        ),
{
    match version {
        Some(v) => {
            push_str(out, "?version=");
            push_i64(out, v);
            proof {
                assert(out@ =~= old(out)@ + ("?version="@ + dec_signed(v as int)));
            }
        },
        None => {
            proof {
                assert(out@ =~= old(out)@ + Seq::<char>::empty());
            }
        },
    }
}

/// `/v1/ontology/types/<object|link>/<name>[?version=<v>]`.
pub open spec fn describe_path_text(kind: TypeKindArg, name: Seq<char>, version: Option<int>) -> Seq<
    char,
> {
    "/v1/ontology/types/"@ + match kind {
        TypeKindArg::Object => "object/"@,
        TypeKindArg::Link => "link/"@,
    } + name + version_suffix(version)
}

/// The request path of `cvg ontology describe`.
pub fn describe_path(kind: TypeKindArg, name: &str, version: Option<i64>) -> (r: String)
    ensures
        r@ == describe_path_text(
            kind,
            name@,
            match version {
                Some(v) => Some(v as int),
                None => None,
            },
        ),
{
    let mut r = String::new();
    push_str(&mut r, "/v1/ontology/types/");
    match kind {
        TypeKindArg::Object => push_str(&mut r, "object/"),
        TypeKindArg::Link => push_str(&mut r, "link/"),
    }
    push_str(&mut r, name);
    push_version(&mut r, version);
    proof {
        assert(r@ =~= describe_path_text(
            kind,
            name@,
            match version {
                Some(v) => Some(v as int),
                None => None,
            },
        ));
    }
    r
}

/// `/v1/ontology/export/<format>/object/<name>[?version=<v>]`.
pub open spec fn export_path_text(
    format: ExportFormatArg,
    name: Seq<char>,
    version: Option<int>,
) -> Seq<char> {
    "/v1/ontology/export/"@ + format.path_text() + "/object/"@ + name + version_suffix(version)
}

/// The request path of `cvg ontology export`.
pub fn export_path(format: ExportFormatArg, name: &str, version: Option<i64>) -> (r: String)
    ensures
        r@ == export_path_text(
            format,
            name@,
            match version {
                Some(v) => Some(v as int),
                None => None,
            },
        ),
{
    let mut r = String::new();
    push_str(&mut r, "/v1/ontology/export/");
    push_str(&mut r, format.as_path());
    push_str(&mut r, "/object/");
    push_str(&mut r, name);
    push_version(&mut r, version);
    proof {
        assert(r@ =~= export_path_text(
            format,
            name@,
            match version {
                Some(v) => Some(v as int),
                None => None,
            },
        ));
    }
    r
}

/// `/v1/ontology/diff/object/<name>?from=<f>&to=<t>&format=<fmt>`.
pub open spec fn diff_path_text(name: Seq<char>, from: int, to: int, format: GraphFormatArg) -> Seq<
    char,
> {
    "/v1/ontology/diff/object/"@ + name + "?from="@ + dec_signed(from) + "&to="@ + dec_signed(to)
        + "&format="@ + format.query_text()
}

/// The request path of `cvg ontology diff`.
pub fn diff_path(name: &str, from: i64, to: i64, format: GraphFormatArg) -> (r: String)
    ensures
        r@ == diff_path_text(name@, from as int, to as int, format),
{
    let mut r = String::new();
    push_str(&mut r, "/v1/ontology/diff/object/");
    push_str(&mut r, name);
    push_str(&mut r, "?from=");
    push_i64(&mut r, from);
    push_str(&mut r, "&to=");
    push_i64(&mut r, to);
    push_str(&mut r, "&format=");
    push_str(&mut r, format.as_query());
    proof {
        assert(r@ =~= diff_path_text(name@, from as int, to as int, format));
    }
    r
}

/// `/v1/ontology/<route>/object/<name>?format=<fmt>` for the `lineage`
/// and `branch-diff` routes.
pub open spec fn graph_path_text(route: Seq<char>, name: Seq<char>, format: GraphFormatArg) -> Seq<
    char,
> {
    "/v1/ontology/"@ + route + "/object/"@ + name + "?format="@ + format.query_text()
}

/// The request path of `cvg ontology lineage`.
pub fn lineage_path(name: &str, format: GraphFormatArg) -> (r: String)
    ensures
        r@ == graph_path_text("lineage"@, name@, format),
{
    graph_path("lineage", name, format)
}

/// The request path of `cvg ontology branch-diff`.
pub fn branch_diff_path(name: &str, format: GraphFormatArg) -> (r: String)
    ensures
        r@ == graph_path_text("branch-diff"@, name@, format),
{
    graph_path("branch-diff", name, format)
}

fn graph_path(route: &str, name: &str, format: GraphFormatArg) -> (r: String)
    ensures
        r@ == graph_path_text(route@, name@, format),
{
    let mut r = String::new();
    push_str(&mut r, "/v1/ontology/");
    push_str(&mut r, route);
    push_str(&mut r, "/object/");
    push_str(&mut r, name);
    push_str(&mut r, "?format=");
    push_str(&mut r, format.as_query());
    proof {
        assert(r@ =~= graph_path_text(route@, name@, format));
    }
    r
}

// ---------------------------------------------------------------------
// Listings
// ---------------------------------------------------------------------

/// A plain line of `list-types`: kind, name, version and hash, tab-separated.
pub open spec fn type_plain_line(kind: Seq<char>, r: TypeRow) -> Seq<char> {
    kind + "\t"@ + r.name@ + "\t"@ + dec_signed(r.schema_version as int) + "\t"@ + r.content_hash@
}

/// The plain lines of `list-types`: the object types, then the link types.
pub open spec fn types_plain_text(doc: ListResponse) -> Seq<Seq<char>> {
    doc.objects@.map_values(|r: TypeRow| type_plain_line("object"@, r)) + doc.links@.map_values(
        |r: TypeRow| type_plain_line("link"@, r),
    )
}

fn type_plain(kind: &str, r: &TypeRow) -> (s: String)
    ensures
        s@ == type_plain_line(kind@, *r),
{
    let mut s = owned(kind);
    push_str(&mut s, "\t");
    push_str(&mut s, r.name.as_str());
    push_str(&mut s, "\t");
    push_i64(&mut s, r.schema_version);
    push_str(&mut s, "\t");
    push_str(&mut s, r.content_hash.as_str());
    s
}

/// Appends the plain lines of `rows` of `kind`.
fn push_plain_rows(lines: &mut Vec<String>, kind: &str, rows: &Vec<TypeRow>)
    ensures
        line_texts(final(lines)@) == line_texts(old(lines)@) + rows@.map_values(
            |r: TypeRow| type_plain_line(kind@, r),
        ),
{
    let mut i: usize = 0;
    while i < rows.len()
        invariant
            i <= rows@.len(),
            line_texts(lines@) == line_texts(old(lines)@) + rows@.take(i as int).map_values(
                |r: TypeRow| type_plain_line(kind@, r),
            ),
        decreases rows@.len() - i,
    {
        let s = type_plain(kind, &rows[i]);
        let ghost prev = lines@;
        lines.push(s);
        proof {
            lemma_line_texts_push(prev, s);
            lemma_map_take_push(rows@, i as int, |r: TypeRow| type_plain_line(kind@, r));
            assert(line_texts(lines@) =~= line_texts(old(lines)@) + rows@.take(i + 1).map_values(
                |r: TypeRow| type_plain_line(kind@, r),
            ));
        }
        i = i + 1;
    }
    proof {
        assert(rows@.take(rows@.len() as int) =~= rows@);
    }
}

/// The plain output of `cvg ontology list-types`, one line per type.
pub fn types_plain_lines(doc: &ListResponse) -> (lines: Vec<String>)
    ensures
        line_texts(lines@) == types_plain_text(*doc),
{
    let mut lines: Vec<String> = Vec::new();
    proof {
        assert(line_texts(lines@) =~= Seq::<Seq<char>>::empty());
    }
    push_plain_rows(&mut lines, "object", &doc.objects);
    push_plain_rows(&mut lines, "link", &doc.links);
    proof {
        assert(line_texts(lines@) =~= types_plain_text(*doc));
    }
    lines
}

/// The hash of a row can be shortened to 12 bytes.
pub open spec fn short_hash_ok(r: TypeRow) -> bool {
    12 <= byte_len(r.content_hash@) && is_char_boundary(encode_utf8(r.content_hash@), 12)
}

/// A human line of `list-types`: the name in 20 columns, the version, the
/// title, and the first 12 bytes of the hash.
pub open spec fn type_human_line(r: TypeRow) -> Seq<char> {
    "  "@ + padded(r.name@, 20) + " v"@ + dec_signed(r.schema_version as int) + "  "@ + r.title@
        + "  ("@ + byte_prefix(r.content_hash@, 12) + ")"@
}

/// The human output of `list-types`: a note when nothing is registered,
/// else a section per kind that has rows.
pub open spec fn types_human_text(doc: ListResponse) -> Seq<Seq<char>> {
    if doc.objects@.len() == 0 && doc.links@.len() == 0 {
        seq!["(no ontology types registered)"@]
    } else {
        (if doc.objects@.len() == 0 {
            Seq::empty()
        } else {
            seq!["ObjectTypes:"@] + doc.objects@.map_values(|r: TypeRow| type_human_line(r))
        }) + (if doc.links@.len() == 0 {
            Seq::empty()
        } else {
            seq!["LinkTypes:"@] + doc.links@.map_values(|r: TypeRow| type_human_line(r))
        })
    }
}

fn type_human(r: &TypeRow) -> (s: String)
    requires
        short_hash_ok(*r),
    ensures
        s@ == type_human_line(*r),
{
    let mut s = owned("  ");
    push_padded(&mut s, r.name.as_str(), 20);
    push_str(&mut s, " v");
    push_i64(&mut s, r.schema_version);
    push_str(&mut s, "  ");
    push_str(&mut s, r.title.as_str());
    push_str(&mut s, "  (");
    push_byte_prefix(&mut s, r.content_hash.as_str(), 12);
    push_str(&mut s, ")");
    s
}

/// Appends a section header and the human lines of `rows`.
fn push_human_rows(lines: &mut Vec<String>, header: &str, rows: &Vec<TypeRow>)
    requires
        forall|i: int| 0 <= i < rows@.len() ==> short_hash_ok(#[trigger] rows@[i]),
    ensures
        line_texts(final(lines)@) == line_texts(old(lines)@) + seq![header@] + rows@.map_values(
            |r: TypeRow| type_human_line(r),
        ),
{
    lines.push(owned(header));
    let ghost start = line_texts(lines@);
    let mut i: usize = 0;
    while i < rows.len()
        invariant
            i <= rows@.len(),
            forall|k: int| 0 <= k < rows@.len() ==> short_hash_ok(#[trigger] rows@[k]),
            line_texts(lines@) == start + rows@.take(i as int).map_values(|r: TypeRow| type_human_line(r)),
        decreases rows@.len() - i,
    {
        let s = type_human(&rows[i]);
        let ghost prev = lines@;
        lines.push(s);
        proof {
            lemma_line_texts_push(prev, s);
            lemma_map_take_push(rows@, i as int, |r: TypeRow| type_human_line(r));
            assert(line_texts(lines@) =~= start + rows@.take(i + 1).map_values(
                |r: TypeRow| type_human_line(r),
            ));
        }
        i = i + 1;
    }
    proof {
        assert(rows@.take(rows@.len() as int) =~= rows@);
        assert(start =~= line_texts(old(lines)@) + seq![header@]);
    }
}

/// The human output of `cvg ontology list-types`. Every hash must have at
/// least 12 bytes, cut on a character boundary.
pub fn types_human_lines(doc: &ListResponse) -> (lines: Vec<String>)
    requires
        forall|i: int| 0 <= i < doc.objects@.len() ==> short_hash_ok(#[trigger] doc.objects@[i]),
        forall|i: int| 0 <= i < doc.links@.len() ==> short_hash_ok(#[trigger] doc.links@[i]),
    ensures
        line_texts(lines@) == types_human_text(*doc),
{
    let mut lines: Vec<String> = Vec::new();
    if doc.objects.len() == 0 && doc.links.len() == 0 {
        lines.push(owned("(no ontology types registered)"));
        proof {
            assert(line_texts(lines@) =~= types_human_text(*doc));
        }
        return lines;
    }
    proof {
        assert(line_texts(lines@) =~= Seq::<Seq<char>>::empty());
    }
    if doc.objects.len() > 0 {
        push_human_rows(&mut lines, "ObjectTypes:", &doc.objects);
    }
    let ghost mid = line_texts(lines@);
    if doc.links.len() > 0 {
        push_human_rows(&mut lines, "LinkTypes:", &doc.links);
    }
    proof {
        assert(line_texts(lines@) =~= types_human_text(*doc));
    }
    lines
}

// ---------------------------------------------------------------------
// Descriptions
// ---------------------------------------------------------------------

/// A property in the plain description of an object.
pub open spec fn property_plain_line(p: PropertyRow) -> Seq<char> {
    "  "@ + p.name@ + "\t"@ + dec_signed(p.schema_version as int) + "\t"@ + p.datatype@
        + "\trequired="@ + (if p.required {
        "true"@
    } else {
        "false"@
    })
}

/// A property in the human description of an object.
pub open spec fn property_human_line(p: PropertyRow) -> Seq<char> {
    "    - "@ + p.name@ + " ("@ + p.datatype@ + (if p.required {
        ", required"@
    } else {
        Seq::empty()
    }) + ") v"@ + dec_signed(p.schema_version as int)
}

/// The plain description of an object: its name, version and hash, then a
/// line per property.
pub open spec fn object_plain_text(d: DescribeObject) -> Seq<Seq<char>> {
    seq![d.name@ + "\t"@ + dec_signed(d.schema_version as int) + "\t"@ + d.content_hash@]
        + d.properties@.map_values(|p: PropertyRow| property_plain_line(p))
}

/// The human description of an object.
pub open spec fn object_human_text(d: DescribeObject) -> Seq<Seq<char>> {
    seq![
        "object "@ + d.name@ + " v"@ + dec_signed(d.schema_version as int) + " "@ + (if d.breaking {
            "[breaking]"@
        } else {
            Seq::empty()
        }),
        "  title       : "@ + d.title@,
        "  description : "@ + d.description@,
        "  hash        : "@ + d.content_hash@,
    ] + if d.properties@.len() == 0 {
        seq!["  properties  : (none)"@]
    } else {
        seq!["  properties  :"@] + d.properties@.map_values(|p: PropertyRow| property_human_line(p))
    }
}

fn property_line(p: &PropertyRow, human: bool) -> (s: String)
    ensures
        human ==> s@ == property_human_line(*p),
        !human ==> s@ == property_plain_line(*p),
{
    if human {
        let mut s = owned("    - ");
        push_str(&mut s, p.name.as_str());
        push_str(&mut s, " (");
        push_str(&mut s, p.datatype.as_str());
        if p.required {
            push_str(&mut s, ", required");
        }
        push_str(&mut s, ") v");
        push_i64(&mut s, p.schema_version);
        proof {
            assert(s@ =~= property_human_line(*p));
        }
        s
    } else {
        let mut s = owned("  ");
        push_str(&mut s, p.name.as_str());
        push_str(&mut s, "\t");
        push_i64(&mut s, p.schema_version);
        push_str(&mut s, "\t");
        push_str(&mut s, p.datatype.as_str());
        push_str(&mut s, "\trequired=");
        if p.required {
            push_str(&mut s, "true");
        } else {
            push_str(&mut s, "false");
        }
        proof {
            assert(s@ =~= property_plain_line(*p));
        }
        s
    }
}

fn push_properties(lines: &mut Vec<String>, props: &Vec<PropertyRow>, human: bool)
    ensures
        human ==> line_texts(final(lines)@) == line_texts(old(lines)@) + props@.map_values(
            |p: PropertyRow| property_human_line(p),
        ),
        !human ==> line_texts(final(lines)@) == line_texts(old(lines)@) + props@.map_values(
            |p: PropertyRow| property_plain_line(p),
        ),
{
    let mut i: usize = 0;
    while i < props.len()
        invariant
            i <= props@.len(),
            human ==> line_texts(lines@) == line_texts(old(lines)@) + props@.take(i as int).map_values(
                |p: PropertyRow| property_human_line(p),
            ),
            !human ==> line_texts(lines@) == line_texts(old(lines)@) + props@.take(i as int).map_values(
                |p: PropertyRow| property_plain_line(p),
            ),
        decreases props@.len() - i,
    {
        let s = property_line(&props[i], human);
        let ghost prev = lines@;
        lines.push(s);
        proof {
            lemma_line_texts_push(prev, s);
            lemma_map_take_push(props@, i as int, |p: PropertyRow| property_human_line(p));
            lemma_map_take_push(props@, i as int, |p: PropertyRow| property_plain_line(p));
            if human {
                assert(line_texts(lines@) =~= line_texts(old(lines)@) + props@.take(i + 1).map_values(
                    |p: PropertyRow| property_human_line(p),
                ));
            } else {
                assert(line_texts(lines@) =~= line_texts(old(lines)@) + props@.take(i + 1).map_values(
                    |p: PropertyRow| property_plain_line(p),
                ));
            }
        }
        i = i + 1;
    }
    proof {
        assert(props@.take(props@.len() as int) =~= props@);
    }
}

/// The plain output of `cvg ontology describe object`.
pub fn object_plain_lines(d: &DescribeObject) -> (lines: Vec<String>)
    ensures
        line_texts(lines@) == object_plain_text(*d),
{
    let mut head = owned(d.name.as_str());
    push_str(&mut head, "\t");
    push_i64(&mut head, d.schema_version);
    push_str(&mut head, "\t");
    push_str(&mut head, d.content_hash.as_str());
    let mut lines: Vec<String> = Vec::new();
    lines.push(head);
    push_properties(&mut lines, &d.properties, false);
    proof {
        assert(line_texts(lines@) =~= object_plain_text(*d));
    }
    lines
}

/// The human output of `cvg ontology describe object`.
pub fn object_human_lines(d: &DescribeObject) -> (lines: Vec<String>)
    ensures
        line_texts(lines@) == object_human_text(*d),
{
    let mut head = owned("object ");
    push_str(&mut head, d.name.as_str());
    push_str(&mut head, " v");
    push_i64(&mut head, d.schema_version);
    push_str(&mut head, " ");
    if d.breaking {
        push_str(&mut head, "[breaking]");
    }
    let mut title = owned("  title       : ");
    push_str(&mut title, d.title.as_str());
    let mut desc = owned("  description : ");
    push_str(&mut desc, d.description.as_str());
    let mut hash = owned("  hash        : ");
    push_str(&mut hash, d.content_hash.as_str());
    let mut lines: Vec<String> = Vec::new();
    lines.push(head);
    lines.push(title);
    lines.push(desc);
    lines.push(hash);
    if d.properties.len() == 0 {
        lines.push(owned("  properties  : (none)"));
    } else {
        lines.push(owned("  properties  :"));
        push_properties(&mut lines, &d.properties, true);
    }
    proof {
        assert(line_texts(lines@) =~= object_human_text(*d));
    }
    lines
}

/// The plain description of a link: one tab-separated line.
pub open spec fn link_plain_text(d: DescribeLink) -> Seq<char> {
    d.name@ + "\t"@ + dec_signed(d.schema_version as int) + "\t"@ + d.content_hash@ + "\t"@
        + d.from_object@ + "->"@ + d.to_object@
}

/// The human description of a link.
pub open spec fn link_human_text(d: DescribeLink) -> Seq<Seq<char>> {
    seq![
        "link "@ + d.name@ + " v"@ + dec_signed(d.schema_version as int),
        "  title       : "@ + d.title@,
        "  description : "@ + d.description@,
        "  endpoints   : "@ + d.from_object@ + " -> "@ + d.to_object@,
        "  hash        : "@ + d.content_hash@,
    ]
}

/// The plain output of `cvg ontology describe link`.
pub fn link_plain_line(d: &DescribeLink) -> (s: String)
    ensures
        s@ == link_plain_text(*d),
{
    let mut s = owned(d.name.as_str());
    push_str(&mut s, "\t");
    push_i64(&mut s, d.schema_version);
    push_str(&mut s, "\t");
    push_str(&mut s, d.content_hash.as_str());
    push_str(&mut s, "\t");
    push_str(&mut s, d.from_object.as_str());
    push_str(&mut s, "->");
    push_str(&mut s, d.to_object.as_str());
    s
}

/// The human output of `cvg ontology describe link`.
pub fn link_human_lines(d: &DescribeLink) -> (lines: Vec<String>)
    ensures
        line_texts(lines@) == link_human_text(*d),
{
    let mut head = owned("link ");
    push_str(&mut head, d.name.as_str());
    push_str(&mut head, " v");
    push_i64(&mut head, d.schema_version);
    let mut title = owned("  title       : ");
    push_str(&mut title, d.title.as_str());
    let mut desc = owned("  description : ");
    push_str(&mut desc, d.description.as_str());
    let mut ends = owned("  endpoints   : ");
    push_str(&mut ends, d.from_object.as_str());
    push_str(&mut ends, " -> ");
    push_str(&mut ends, d.to_object.as_str());
    let mut hash = owned("  hash        : ");
    push_str(&mut hash, d.content_hash.as_str());
    let mut lines: Vec<String> = Vec::new();
    lines.push(head);
    lines.push(title);
    lines.push(desc);
    lines.push(ends);
    lines.push(hash);
    proof {
        assert(line_texts(lines@) =~= link_human_text(*d));
    }
    lines
}


// ---------------------------------------------------------------------
// `cvg ontology import` report
// ---------------------------------------------------------------------

/// What the daemon registered from a draft: counts of objects, properties
/// and links (each absent when the report lacks it or it is not a
/// non-negative integer).
pub struct ImportReport {
    pub objects: Option<u64>,
    pub properties: Option<u64>,
    pub links: Option<u64>,
}

/// A count, or zero.
pub open spec fn count_or_zero(n: Option<u64>) -> nat {
    match n {
        Some(v) => v as nat,
        None => 0,
    }
}

fn zero_or(n: Option<u64>) -> (r: u64)
    ensures
        r as nat == count_or_zero(n),
{
    match n {
        Some(v) => v,
        None => 0,
    }
}

/// The import report line: the three counts tab-separated, or the human
/// sentence.
pub open spec fn import_text(r: ImportReport, human: bool) -> Seq<char> {
    let o = crate::numeric::dec(count_or_zero(r.objects));
    let p = crate::numeric::dec(count_or_zero(r.properties));
    let l = crate::numeric::dec(count_or_zero(r.links));
    if human {
        "imported "@ + o + " object(s), "@ + p + " property(ies), "@ + l + " link(s)"@
    } else {
        o + "\t"@ + p + "\t"@ + l
    }
}

/// The import report line.
pub fn import_line(r: &ImportReport, human: bool) -> (s: String)
    ensures
        s@ == import_text(*r, human),
{
    let mut s = String::new();
    if human {
        push_str(&mut s, "imported ");
    }
    crate::numeric::push_dec(&mut s, zero_or(r.objects));
    push_str(&mut s, if human { " object(s), " } else { "\t" });
    crate::numeric::push_dec(&mut s, zero_or(r.properties));
    push_str(&mut s, if human { " property(ies), " } else { "\t" });
    crate::numeric::push_dec(&mut s, zero_or(r.links));
    if human {
        push_str(&mut s, " link(s)");
    }
    proof {
        assert(s@ =~= import_text(*r, human));
    }
    s
}


// ---------------------------------------------------------------------
// `cvg ontology diff | lineage | branch-diff` output
// ---------------------------------------------------------------------

/// A graph answer is pretty-printed (re-indented JSON) only when it is
/// JSON and the output is for humans; otherwise its bytes are written as
/// they came.
pub fn pretty_prints(format: GraphFormatArg, output: crate::cli::OutputMode) -> (r: bool)
    ensures
        r == (format == GraphFormatArg::Json && output == crate::cli::OutputMode::Human),
{
    match (format, output) {
        (GraphFormatArg::Json, crate::cli::OutputMode::Human) => true,
        _ => false,
    }
}

/// A failed branch diff that the daemon does not implement yet: its error
/// names `501` or `not_implemented`.
pub fn branch_diff_unavailable(error_text: &str) -> (r: bool)
    ensures
        r == (crate::text::contains(error_text@, "501"@) || crate::text::contains(
            error_text@,
            "not_implemented"@,
        )),
{
    crate::text::contains_str(error_text, "501") || crate::text::contains_str(error_text, "not_implemented")
}

/// What is printed when the branch diff is not implemented yet: a JSON
/// error object, or a sentence naming the object.
pub open spec fn branch_diff_pending_text(name: Seq<char>, json: bool) -> Seq<char> {
    if json {
        "{\"error\":{\"code\":\"not_implemented\",\"message\":\"branch diff lands with ADR-0059\"}}"@
    } else {
        "branch diff for `"@ + name + "` is not implemented yet (lands with ADR-0059)"@
    }
}

/// What is printed when the branch diff is not implemented yet.
pub fn branch_diff_pending(name: &str, json: bool) -> (r: String)
    ensures
        r@ == branch_diff_pending_text(name@, json),
{
    if json {
        owned("{\"error\":{\"code\":\"not_implemented\",\"message\":\"branch diff lands with ADR-0059\"}}")
    } else {
        let mut r = owned("branch diff for `");
        push_str(&mut r, name);
        push_str(&mut r, "` is not implemented yet (lands with ADR-0059)");
        r
    }
}

} // verus!
