//! `cvg public algorithms generate`: the public algorithm register. The
//! registry document's model, its validation, and the static HTML pages
//! rendered from it (one index, one page per algorithm).
use vstd::prelude::*;
use crate::text::{chars_of, owned, push_str, str_eq};

verus! {

// ---------------------------------------------------------------------
// The registry document
// ---------------------------------------------------------------------

/// A text in English and Italian.
pub struct BilingualText {
    pub en: String,
    pub it: String,
}

/// The model an algorithm runs on.
pub struct ModelRef {
    pub name: String,
    pub version: Option<String>,
    pub provider: Option<String>,
}

/// Where an affected person can appeal.
pub struct AppealContact {
    pub email: Option<String>,
    pub url: Option<String>,
    pub notes: Option<BilingualText>,
}

/// A titled link.
pub struct Reference {
    pub title: BilingualText,
    pub url: String,
}

/// The risk class of an algorithm.
#[derive(Clone, Copy, Debug, PartialEq, Eq, Structural)]
pub enum RiskClass {
    Low,
    Medium,
    High,
    Critical,
}

/// One algorithm (one AI Action) of the register.
pub struct AlgorithmEntry {
    /// Stable slug used in the public URL path.
    pub slug: String,
    /// Stable action identifier (the AI Action).
    pub action: String,
    pub title: BilingualText,
    pub purpose: BilingualText,
    pub lawful_basis: BilingualText,
    pub data_categories: Vec<BilingualText>,
    pub model: ModelRef,
    pub region: String,
    pub oversight: BilingualText,
    pub risk_class: RiskClass,
    pub eval_scorecard: Option<Reference>,
    pub dpia_refs: Vec<Reference>,
    pub ethics_refs: Vec<Reference>,
    pub limitations: BilingualText,
    pub appeal_contact: AppealContact,
}

/// The release-gate registry document.
pub struct ReleaseGateRegistry {
    pub schema_version: String,
    pub tenant: Option<String>,
    pub generated_at: Option<String>,
    pub algorithms: Vec<AlgorithmEntry>,
}

// ---------------------------------------------------------------------
// Slugs
// ---------------------------------------------------------------------

/// Why a slug is refused.
#[derive(Clone, Copy, Debug, PartialEq, Eq, Structural)]
pub enum SlugError {
    /// The slug is empty.
    Empty,
    /// `.`, `..`, or a path separator.
    Unsafe,
    /// A character outside `[a-z0-9._-]`.
    Charset,
}

impl SlugError {
    /// The text of the error.
    pub open spec fn message_text(self) -> Seq<char> {
        match self {
            SlugError::Empty => "empty slug"@,
            SlugError::Unsafe => "unsafe slug"@,
            SlugError::Charset => "slug must be lowercase ASCII [a-z0-9._-]"@,
        }
    }

    /// The error message.
    pub fn message(&self) -> (r: String)
        ensures
            r@ == self.message_text(),
    {
        match self {
            SlugError::Empty => owned("empty slug"),
            SlugError::Unsafe => owned("unsafe slug"),
            SlugError::Charset => owned("slug must be lowercase ASCII [a-z0-9._-]"),
        }
    }
}

/// A character allowed in a slug.
pub open spec fn slug_char(c: char) -> bool {
    ('a' <= c <= 'z') || ('0' <= c <= '9') || c == '-' || c == '_' || c == '.'
}

/// What is wrong with a slug, if anything: empty; then `.`, `..` or a
/// `/` or `\` anywhere; then a character outside `[a-z0-9._-]`.
pub open spec fn slug_error(s: Seq<char>) -> Option<SlugError> {
    if s.len() == 0 {
        Some(SlugError::Empty)
    } else if s == "."@ || s == ".."@ || s.contains('/') || s.contains('\\') {
        Some(SlugError::Unsafe)
    } else if exists|i: int| 0 <= i < s.len() && !slug_char(#[trigger] s[i]) {
        Some(SlugError::Charset)
    } else {
        None
    }
}

/// Checks that `slug` is safe as one directory name of the published
/// site.
pub fn validate_slug(slug: &str) -> (r: Result<(), SlugError>)
    ensures
        r is Ok <==> slug_error(slug@) is None,
        r matches Err(e) ==> slug_error(slug@) == Some(e),
{
    let v = chars_of(slug);
    if v.len() == 0 {
        return Err(SlugError::Empty);
    }
    let mut sep = false;
    let mut bad = false;
    let mut i: usize = 0;
    while i < v.len()
        invariant
            i <= v@.len(),
            v@ == slug@,
            sep == exists|k: int| 0 <= k < i && (v@[k] == '/' || v@[k] == '\\'),
            bad == exists|k: int| 0 <= k < i && !slug_char(#[trigger] v@[k]),
        decreases v@.len() - i,
    {
        let c = v[i];
        if c == '/' || c == '\\' {
            sep = true;
        }
        if !(('a' <= c && c <= 'z') || ('0' <= c && c <= '9') || c == '-' || c == '_' || c == '.') {
            bad = true;
        }
        proof {
            assert(slug_char(v@[i as int]) == slug_char(c));
        }
        i = i + 1;
    }
    proof {
        assert(sep == (slug@.contains('/') || slug@.contains('\\'))) by {
            if slug@.contains('/') {
                let k = choose|k: int| 0 <= k < slug@.len() && slug@[k] == '/';
                assert(v@[k] == '/');
            }
            if slug@.contains('\\') {
                let k = choose|k: int| 0 <= k < slug@.len() && slug@[k] == '\\';
                assert(v@[k] == '\\');
            }
        }
    }
    if str_eq(slug, ".") || str_eq(slug, "..") || sep {
        return Err(SlugError::Unsafe);
    }
    if bad {
        return Err(SlugError::Charset);
    }
    Ok(())
}

/// Checks the tenant slug (the top directory of the site).
pub fn validate_tenant_slug(tenant: &str) -> (r: Result<(), SlugError>)
    ensures
        r is Ok <==> slug_error(tenant@) is None,
        r matches Err(e) ==> slug_error(tenant@) == Some(e),
{
    validate_slug(tenant)
}

// ---------------------------------------------------------------------
// Registry validation
// ---------------------------------------------------------------------

/// Why a registry is refused.
pub enum RegistryError {
    /// The tenant given on the command line is not a valid slug.
    InvalidTenant { cause: SlugError },
    /// The document's schema version is not `1`.
    UnsupportedSchema { version: String },
    /// The document names another tenant.
    TenantMismatch { registry: String, tenant: String },
    /// An algorithm's slug is not a valid slug.
    InvalidAlgorithmSlug { slug: String, cause: SlugError },
    /// Two algorithms share a slug.
    DuplicateSlug { slug: String },
    /// Two algorithms share an AI Action.
    DuplicateAction { action: String },
}

impl RegistryError {
    /// The text of the error (its outermost context).
    pub open spec fn message_text(self) -> Seq<char> {
        match self {
            RegistryError::InvalidTenant { .. } => "invalid tenant slug"@,
            RegistryError::UnsupportedSchema { version } => "unsupported registry schema_version '"@
                + version@ + "' (expected '1')"@,
            RegistryError::TenantMismatch { registry, tenant } => "registry tenant '"@ + registry@
                + "' does not match --tenant '"@ + tenant@ + "'"@,
            RegistryError::InvalidAlgorithmSlug { slug, .. } => "invalid algorithm slug '"@ + slug@
                + "'"@,
            RegistryError::DuplicateSlug { slug } => "duplicate algorithm slug '"@ + slug@ + "'"@,
            RegistryError::DuplicateAction { action } => "duplicate AI Action '"@ + action@ + "'"@,
        }
    }

    /// The error message.
    pub fn message(&self) -> (r: String)
        ensures
            r@ == self.message_text(),
    {
        let mut r = String::new();
        match self {
            RegistryError::InvalidTenant { .. } => {
                push_str(&mut r, "invalid tenant slug");
            },
            RegistryError::UnsupportedSchema { version } => {
                push_str(&mut r, "unsupported registry schema_version '");
                push_str(&mut r, version.as_str());
                push_str(&mut r, "' (expected '1')");
            },
            RegistryError::TenantMismatch { registry, tenant } => {
                push_str(&mut r, "registry tenant '");
                push_str(&mut r, registry.as_str());
                push_str(&mut r, "' does not match --tenant '");
                push_str(&mut r, tenant.as_str());
                push_str(&mut r, "'");
            },
            RegistryError::InvalidAlgorithmSlug { slug, .. } => {
                push_str(&mut r, "invalid algorithm slug '");
                push_str(&mut r, slug.as_str());
                push_str(&mut r, "'");
            },
            RegistryError::DuplicateSlug { slug } => {
                push_str(&mut r, "duplicate algorithm slug '");
                push_str(&mut r, slug.as_str());
                push_str(&mut r, "'");
            },
            RegistryError::DuplicateAction { action } => {
                push_str(&mut r, "duplicate AI Action '");
                push_str(&mut r, action.as_str());
                push_str(&mut r, "'");
            },
        }
        proof {
            assert(Seq::<char>::empty() + "invalid tenant slug"@ =~= "invalid tenant slug"@);
            assert(r@ =~= self.message_text());
        }
        r
    }
}

/// Some algorithm before `i` has the slug of algorithm `i`.
pub open spec fn slug_seen(algos: Seq<AlgorithmEntry>, i: int) -> bool {
    exists|j: int| 0 <= j < i && (#[trigger] algos[j]).slug@ == algos[i].slug@
}

/// Some algorithm before `i` has the action of algorithm `i`.
pub open spec fn action_seen(algos: Seq<AlgorithmEntry>, i: int) -> bool {
    exists|j: int| 0 <= j < i && (#[trigger] algos[j]).action@ == algos[i].action@
}

/// Algorithm `i` is refused: invalid slug, or a slug or action already
/// used before it.
pub open spec fn entry_refused(algos: Seq<AlgorithmEntry>, i: int) -> bool {
    slug_error(algos[i].slug@) is Some || slug_seen(algos, i) || action_seen(algos, i)
}

/// `e` is the error that algorithm `i` is refused with (slug validity is
/// checked first, then the slug, then the action).
pub open spec fn entry_error(algos: Seq<AlgorithmEntry>, i: int, e: RegistryError) -> bool {
    let a = algos[i];
    match e {
        RegistryError::InvalidAlgorithmSlug { slug, cause } => slug@ == a.slug@ && slug_error(a.slug@)
            == Some(cause),
        RegistryError::DuplicateSlug { slug } => slug_error(a.slug@) is None && slug_seen(algos, i)
            && slug@ == a.slug@,
        RegistryError::DuplicateAction { action } => slug_error(a.slug@) is None && !slug_seen(
            algos,
            i,
        ) && action_seen(algos, i) && action@ == a.action@,
        _ => false,
    }
}

/// `e` is what validating `algos` fails with: the error of the first
/// refused algorithm.
pub open spec fn algorithms_error(algos: Seq<AlgorithmEntry>, e: RegistryError) -> bool {
    exists|i: int|
        0 <= i < algos.len() && entry_error(algos, i, e) && forall|j: int|
            0 <= j < i ==> !#[trigger] entry_refused(algos, j)
}

/// Has some algorithm before `n` the text `t` as its slug (`slugs`) or
/// action (`!slugs`)?
fn seen_before(algos: &Vec<AlgorithmEntry>, n: usize, t: &String, slugs: bool) -> (r: bool)
    requires
        n <= algos@.len(),
    ensures
        slugs ==> r == exists|j: int| 0 <= j < n && (#[trigger] algos@[j]).slug@ == t@,
        !slugs ==> r == exists|j: int| 0 <= j < n && (#[trigger] algos@[j]).action@ == t@,
{
    let mut j: usize = 0;
    while j < n
        invariant
            j <= n <= algos@.len(),
            slugs ==> forall|k: int| 0 <= k < j ==> (#[trigger] algos@[k]).slug@ != t@,
            !slugs ==> forall|k: int| 0 <= k < j ==> (#[trigger] algos@[k]).action@ != t@,
        decreases n - j,
    {
        let a = &algos[j];
        let same = if slugs {
            str_eq(a.slug.as_str(), t.as_str())
        } else {
            str_eq(a.action.as_str(), t.as_str())
        };
        if same {
            return true;
        }
        j = j + 1;
    }
    false
}

/// Checks every algorithm's slug, and that no slug and no AI Action is
/// used twice.
pub fn validate_algorithms(algos: &Vec<AlgorithmEntry>) -> (r: Result<(), RegistryError>)
    ensures
        r is Ok <==> forall|i: int| 0 <= i < algos@.len() ==> !#[trigger] entry_refused(algos@, i),
        r matches Err(e) ==> algorithms_error(algos@, e),
{
    let mut i: usize = 0;
    while i < algos.len()
        invariant
            i <= algos@.len(),
            forall|j: int| 0 <= j < i ==> !#[trigger] entry_refused(algos@, j),
        decreases algos@.len() - i,
    {
        let a = &algos[i];
        match validate_slug(a.slug.as_str()) {
            Err(cause) => {
                let e = RegistryError::InvalidAlgorithmSlug { slug: a.slug.clone(), cause };
                proof {
                    assert(entry_error(algos@, i as int, e));
                    assert(entry_refused(algos@, i as int));
                }
                return Err(e);
            },
            Ok(()) => {},
        }
        if seen_before(algos, i, &a.slug, true) {
            let e = RegistryError::DuplicateSlug { slug: a.slug.clone() };
            proof {
                assert(entry_error(algos@, i as int, e));
                assert(entry_refused(algos@, i as int));
            }
            return Err(e);
        }
        if seen_before(algos, i, &a.action, false) {
            let e = RegistryError::DuplicateAction { action: a.action.clone() };
            proof {
                assert(entry_error(algos@, i as int, e));
                assert(entry_refused(algos@, i as int));
            }
            return Err(e);
        }
        i = i + 1;
    }
    Ok(())
}

/// The document names a tenant other than `tenant`.
pub open spec fn tenant_clash(doc: &ReleaseGateRegistry, tenant: Seq<char>) -> bool {
    doc.tenant is Some && doc.tenant->0@ != tenant
}

/// The registry is accepted for `tenant`.
pub open spec fn registry_ok(doc: &ReleaseGateRegistry, tenant: Seq<char>) -> bool {
    &&& slug_error(tenant) is None
    &&& doc.schema_version@ == "1"@
    &&& !tenant_clash(doc, tenant)
    &&& forall|i: int| 0 <= i < doc.algorithms@.len() ==> !#[trigger] entry_refused(doc.algorithms@, i)
}

/// `e` is what checking the registry for `tenant` fails with: the tenant
/// slug first, then the schema version, then the document's tenant, then
/// the algorithms.
pub open spec fn registry_rejects(doc: &ReleaseGateRegistry, tenant: Seq<char>, e: RegistryError) -> bool {
    if slug_error(tenant) is Some {
        match e {
            RegistryError::InvalidTenant { cause } => slug_error(tenant) == Some(cause),
            _ => false,
        }
    } else if doc.schema_version@ != "1"@ {
        match e {
            RegistryError::UnsupportedSchema { version } => version@ == doc.schema_version@,
            _ => false,
        }
    } else if tenant_clash(doc, tenant) {
        match e {
            RegistryError::TenantMismatch { registry, tenant: t } => registry@ == doc.tenant->0@ && t@
                == tenant,
            _ => false,
        }
    } else {
        algorithms_error(doc.algorithms@, e)
    }
}

/// Checks a registry for `tenant`: the tenant slug, schema version `1`,
/// the document's own tenant if it names one, then the algorithms.
pub fn check_registry(doc: &ReleaseGateRegistry, tenant: &str) -> (r: Result<(), RegistryError>)
    ensures
        r is Ok <==> registry_ok(doc, tenant@),
        r matches Err(e) ==> registry_rejects(doc, tenant@, e),
{
    match validate_tenant_slug(tenant) {
        Err(cause) => {
            return Err(RegistryError::InvalidTenant { cause });
        },
        Ok(()) => {},
    }
    if !str_eq(doc.schema_version.as_str(), "1") {
        return Err(RegistryError::UnsupportedSchema { version: doc.schema_version.clone() });
    }
    match &doc.tenant {
        Some(t) => {
            if !str_eq(t.as_str(), tenant) {
                return Err(RegistryError::TenantMismatch { registry: t.clone(), tenant: owned(tenant) });
            }
        },
        None => {},
    }
    validate_algorithms(&doc.algorithms)
}

} // verus!
