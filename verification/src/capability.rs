//! `cvg capability install | trust`: the supported install hints and the
//! file names written into the trust-store overlay.
use crate::text::{chars_of, push_char, push_str, str_eq, owned, line_texts, lemma_line_texts_push, lemma_map_take_push};
use crate::cells::{padded, push_padded};
use vstd::prelude::*;

verus! {

/// A capability name `cvg capability install` has no hint for.
pub struct UnknownCapability {
    pub name: String,
}

impl UnknownCapability {
    /// The text of the error.
    pub open spec fn message_text(self) -> Seq<char> {
        "unknown capability `"@ + self.name@
            + "`; only `a11y-axe` is supported by this command"@
    }

    /// The operator-facing error message.
    pub fn message(&self) -> (r: String)
        ensures
            r@ == self.message_text(),
    {
        let mut r = String::new();
        push_str(&mut r, "unknown capability `");
        push_str(&mut r, self.name.as_str());
        push_str(&mut r, "`; only `a11y-axe` is supported by this command");
        r
    }
}

/// Checks that `name` is a capability with an install hint: only
/// `a11y-axe` has one; any other name is an error naming it.
pub fn run_install_capability(name: &str) -> (r: Result<(), UnknownCapability>)
    ensures
        r is Ok <==> name@ == "a11y-axe"@,
        r matches Err(e) ==> e.name@ == name@,
{
    if str_eq(name, "a11y-axe") {
        Ok(())
    } else {
        Err(UnknownCapability { name: crate::text::owned(name) })
    }
}

/// A character kept in an overlay file name.
pub open spec fn filename_safe(c: char) -> bool {
    ('a' <= c <= 'z') || ('A' <= c <= 'Z') || ('0' <= c <= '9') || c == '-' || c == '_'
}

/// `s` with every character outside `[A-Za-z0-9_-]` replaced by `_`.
pub open spec fn safe_name(s: Seq<char>) -> Seq<char> {
    s.map_values(|c: char| if filename_safe(c) { c } else { '_' })
}

/// Makes a key id safe to use in a file name.
pub fn safe_filename(s: &str) -> (r: String)
    ensures
        r@ == safe_name(s@),
{
    let v = chars_of(s);
    let mut r = String::new();
    let mut i: usize = 0;
    while i < v.len()
        invariant
            i <= v@.len(),
            v@ == s@,
            r@ == safe_name(v@.take(i as int)),
        decreases v@.len() - i,
    {
        let c = v[i];
        if ('a' <= c && c <= 'z') || ('A' <= c && c <= 'Z') || ('0' <= c && c <= '9') || c == '-'
            || c == '_' {
            push_char(&mut r, c);
        } else {
            push_char(&mut r, '_');
        }
        proof {
            assert(safe_name(v@.take(i + 1)) =~= safe_name(v@.take(i as int)).push(
                if filename_safe(c) {
                    c
                } else {
                    '_'
                },
            ));
        }
        i = i + 1;
    }
    proof {
        assert(v@.take(v@.len() as int) =~= v@);
    }
    r
}

/// Sanitising keeps the length and leaves only file-name-safe characters.
pub proof fn safe_filename_is_safe(s: Seq<char>)
    ensures
        safe_name(s).len() == s.len(),
        forall|i: int| 0 <= i < s.len() ==> filename_safe(#[trigger] safe_name(s)[i]),
        forall|i: int| 0 <= i < s.len() && filename_safe(s[i]) ==> #[trigger] safe_name(s)[i] == s[i],
{
}

/// The baked-in trust store: an empty JSON array.
pub fn baked_in_bytes() -> (r: Vec<u8>)
    ensures
        r@ == seq![0x5Bu8, 0x5Du8],
{
    let mut r: Vec<u8> = Vec::new();
    r.push(0x5B);
    r.push(0x5D);
    r
}

/// `<stamp>-<safe key id>.json`, or `<stamp>-<safe key id>-revoked.json`
/// for a revoking sibling.
pub open spec fn overlay_file_text(stamp: Seq<char>, key_id: Seq<char>, revoked: bool) -> Seq<
    char,
> {
    stamp + seq!['-'] + safe_name(key_id) + if revoked {
        "-revoked.json"@
    } else {
        ".json"@
    }
}

/// The name of the overlay file an added (or revoking) entry is written to.
pub fn overlay_file_name(stamp: &str, key_id: &str, revoked: bool) -> (r: String)
    ensures
        r@ == overlay_file_text(stamp@, key_id@, revoked),
{
    let mut r = crate::text::owned(stamp);
    push_char(&mut r, '-');
    let safe = safe_filename(key_id);
    push_str(&mut r, safe.as_str());
    if revoked {
        push_str(&mut r, "-revoked.json");
    } else {
        push_str(&mut r, ".json");
    }
    proof {
        assert(r@ =~= overlay_file_text(stamp@, key_id@, revoked));
    }
    r
}

// ---------------------------------------------------------------------
// `cvg capability trust list` output
// ---------------------------------------------------------------------

/// One entry of the trust store, as the listing shows it.
pub struct TrustRow {
    pub key_id: String,
    pub owner: Option<String>,
    /// Start of the validity window, as displayed.
    pub valid_from: String,
    /// End of the validity window, as displayed.
    pub valid_until: String,
    pub revoked: bool,
    /// The store counts the key as active now.
    pub in_window: bool,
}

/// The owner, or `default` when there is none.
pub open spec fn owner_or(o: Option<String>, default: Seq<char>) -> Seq<char> {
    match o {
        Some(s) => s@,
        None => default,
    }
}

/// A plain line: key id, owner, window and `revoked`/`active`, tab-separated.
pub open spec fn trust_plain_line(r: TrustRow) -> Seq<char> {
    r.key_id@ + "\t"@ + owner_or(r.owner, Seq::empty()) + "\t"@ + r.valid_from@ + "\t"@
        + r.valid_until@ + "\t"@ + (if r.revoked {
        "revoked"@
    } else {
        "active"@
    })
}

/// The status column: revoked, active, or out of its window.
pub open spec fn trust_status(r: TrustRow) -> Seq<char> {
    if r.revoked {
        "revoked"@
    } else if r.in_window {
        "active"@
    } else {
        "out-of-window"@
    }
}

/// A human line: key id, owner, status in columns, then the window.
pub open spec fn trust_human_line(r: TrustRow) -> Seq<char> {
    padded(r.key_id@, 24) + " "@ + padded(owner_or(r.owner, "-"@), 20) + " "@ + padded(
        trust_status(r),
        14,
    ) + " "@ + r.valid_from@ + " → "@ + r.valid_until@
}

/// The header of the human listing.
pub open spec fn trust_header() -> Seq<char> {
    padded("KEY_ID"@, 24) + " "@ + padded("OWNER"@, 20) + " "@ + padded("STATUS"@, 14) + " WINDOW"@
}

/// The human listing: a note for an empty store, else the header and a
/// line per entry.
pub open spec fn trust_human_text(rows: Seq<TrustRow>) -> Seq<Seq<char>> {
    if rows.len() == 0 {
        seq!["trust store is empty"@]
    } else {
        seq![trust_header()] + rows.map_values(|r: TrustRow| trust_human_line(r))
    }
}

fn trust_line(r: &TrustRow, human: bool) -> (s: String)
    ensures
        human ==> s@ == trust_human_line(*r),
        !human ==> s@ == trust_plain_line(*r),
{
    let mut s = String::new();
    if human {
        push_padded(&mut s, r.key_id.as_str(), 24);
        push_str(&mut s, " ");
        match &r.owner {
            Some(o) => push_padded(&mut s, o.as_str(), 20),
            None => push_padded(&mut s, "-", 20),
        }
        push_str(&mut s, " ");
        let status = if r.revoked {
            "revoked"
        } else if r.in_window {
            "active"
        } else {
            "out-of-window"
        };
        push_padded(&mut s, status, 14);
        push_str(&mut s, " ");
        push_str(&mut s, r.valid_from.as_str());
        push_str(&mut s, " → ");
        push_str(&mut s, r.valid_until.as_str());
        proof {
            assert(s@ =~= trust_human_line(*r));
        }
    } else {
        push_str(&mut s, r.key_id.as_str());
        push_str(&mut s, "\t");
        match &r.owner {
            Some(o) => push_str(&mut s, o.as_str()),
            None => {},
        }
        push_str(&mut s, "\t");
        push_str(&mut s, r.valid_from.as_str());
        push_str(&mut s, "\t");
        push_str(&mut s, r.valid_until.as_str());
        push_str(&mut s, "\t");
        if r.revoked {
            push_str(&mut s, "revoked");
        } else {
            push_str(&mut s, "active");
        }
        proof {
            assert(s@ =~= trust_plain_line(*r));
        }
    }
    s
}

/// The lines of `cvg capability trust list`, human or plain.
pub fn trust_lines(rows: &Vec<TrustRow>, human: bool) -> (lines: Vec<String>)
    ensures
        human ==> line_texts(lines@) == trust_human_text(rows@),
        !human ==> line_texts(lines@) == rows@.map_values(|r: TrustRow| trust_plain_line(r)),
{
    let mut lines: Vec<String> = Vec::new();
    if human {
        if rows.len() == 0 {
            lines.push(owned("trust store is empty"));
            proof {
                assert(line_texts(lines@) =~= trust_human_text(rows@));
            }
            return lines;
        }
        let mut h = String::new();
        push_padded(&mut h, "KEY_ID", 24);
        push_str(&mut h, " ");
        push_padded(&mut h, "OWNER", 20);
        push_str(&mut h, " ");
        push_padded(&mut h, "STATUS", 14);
        push_str(&mut h, " WINDOW");
        lines.push(h);
    }
    let ghost head = line_texts(lines@);
    let mut i: usize = 0;
    while i < rows.len()
        invariant
            i <= rows@.len(),
            human ==> line_texts(lines@) == head + rows@.take(i as int).map_values(
                |r: TrustRow| trust_human_line(r),
            ),
            !human ==> line_texts(lines@) == head + rows@.take(i as int).map_values(
                |r: TrustRow| trust_plain_line(r),
            ),
        decreases rows@.len() - i,
    {
        let l = trust_line(&rows[i], human);
        let ghost prev = lines@;
        lines.push(l);
        proof {
            lemma_line_texts_push(prev, l);
            lemma_map_take_push(rows@, i as int, |r: TrustRow| trust_human_line(r));
            lemma_map_take_push(rows@, i as int, |r: TrustRow| trust_plain_line(r));
            if human {
                assert(line_texts(lines@) =~= head + rows@.take(i + 1).map_values(
                    |r: TrustRow| trust_human_line(r),
                ));
            } else {
                assert(line_texts(lines@) =~= head + rows@.take(i + 1).map_values(
                    |r: TrustRow| trust_plain_line(r),
                ));
            }
        }
        i = i + 1;
    }
    proof {
        assert(rows@.take(rows@.len() as int) =~= rows@);
        if human {
            assert(line_texts(lines@) =~= trust_human_text(rows@));
        } else {
            assert(line_texts(lines@) =~= rows@.map_values(|r: TrustRow| trust_plain_line(r)));
        }
    }
    lines
}


// ---------------------------------------------------------------------
// `cvg capability trust add | revoke`
// ---------------------------------------------------------------------

/// Why a trust-store change was refused.
pub enum TrustError {
    /// The file held a list of entries of another length than one.
    NotOneEntry(usize),
    /// The entry has an empty key id.
    EmptyKeyId,
    /// No entry has the key id to revoke.
    NoEntry(String),
}

/// What the operator is told of a refused change.
pub open spec fn trust_error_text(e: TrustError) -> Seq<char> {
    match e {
        TrustError::NotOneEntry(n) => "trust-store add expects exactly one entry, got "@ + crate::numeric::dec(
            n as nat,
        ),
        TrustError::EmptyKeyId => "trust-store entry has empty key_id"@,
        TrustError::NoEntry(k) => "no trust-store entry with key_id `"@ + k@ + "`"@,
    }
}

impl TrustError {
    /// The message of the refusal.
    pub fn message(&self) -> (r: String)
        ensures
            r@ == trust_error_text(*self),
    {
        match self {
            TrustError::NotOneEntry(n) => {
                let mut r = owned("trust-store add expects exactly one entry, got ");
                crate::numeric::push_dec(&mut r, *n as u64);
                r
            },
            TrustError::EmptyKeyId => owned("trust-store entry has empty key_id"),
            TrustError::NoEntry(k) => {
                let mut r = owned("no trust-store entry with key_id `");
                push_str(&mut r, k.as_str());
                push_str(&mut r, "`");
                r
            },
        }
    }
}

/// The entry a file to add holds: a single entry is taken as it is; a
/// list must hold exactly one.
pub fn single_entry(list_len: Option<usize>) -> (r: Result<(), TrustError>)
    ensures
        match list_len {
            None => r is Ok,
            Some(n) => if n == 1 {
                r is Ok
            } else {
                r matches Err(TrustError::NotOneEntry(m)) && m == n
            },
        },
{
    match list_len {
        None => Ok(()),
        Some(n) => if n == 1 {
            Ok(())
        } else {
            Err(TrustError::NotOneEntry(n))
        },
    }
}

/// An entry to add must name its key.
pub fn check_key_id(key_id: &str) -> (r: Result<(), TrustError>)
    ensures
        r is Ok <==> key_id@.len() > 0,
        r is Err ==> r matches Err(TrustError::EmptyKeyId),
{
    if key_id.is_empty() {
        Err(TrustError::EmptyKeyId)
    } else {
        Ok(())
    }
}

/// The entry to revoke: the first whose key id is `key_id`.
pub fn entry_to_revoke(key_ids: &Vec<String>, key_id: &str) -> (r: Result<usize, TrustError>)
    ensures
        match r {
            Ok(i) => i < key_ids@.len() && key_ids@[i as int]@ == key_id@ && forall|j: int|
                0 <= j < i ==> (#[trigger] key_ids@[j])@ != key_id@,
            Err(e) => (e matches TrustError::NoEntry(k) && k@ == key_id@) && forall|j: int|
                0 <= j < key_ids@.len() ==> (#[trigger] key_ids@[j])@ != key_id@,
        },
{
    let mut i: usize = 0;
    while i < key_ids.len()
        invariant
            i <= key_ids@.len(),
            forall|j: int| 0 <= j < i ==> (#[trigger] key_ids@[j])@ != key_id@,
        decreases key_ids@.len() - i,
    {
        if str_eq(key_ids[i].as_str(), key_id) {
            return Ok(i);
        }
        i = i + 1;
    }
    Err(TrustError::NoEntry(owned(key_id)))
}

/// The line reporting an added (or revoked) entry written to `path`:
/// plain `added=… path=…`, or the human sentence.
pub open spec fn trust_change_text(key_id: Seq<char>, path: Seq<char>, revoked: bool, human: bool) -> Seq<char> {
    if revoked {
        if human {
            "revoked trust-store entry `"@ + key_id + "` via "@ + path
        } else {
            "revoked="@ + key_id + " path="@ + path
        }
    } else {
        if human {
            "added trust-store entry `"@ + key_id + "` → "@ + path
        } else {
            "added="@ + key_id + " path="@ + path
        }
    }
}

/// The line reporting an added or revoked entry.
pub fn trust_change_line(key_id: &str, path: &str, revoked: bool, human: bool) -> (r: String)
    ensures
        r@ == trust_change_text(key_id@, path@, revoked, human),
{
    let mut r = String::new();
    if revoked {
        if human {
            push_str(&mut r, "revoked trust-store entry `");
            push_str(&mut r, key_id);
            push_str(&mut r, "` via ");
        } else {
            push_str(&mut r, "revoked=");
            push_str(&mut r, key_id);
            push_str(&mut r, " path=");
        }
    } else {
        if human {
            push_str(&mut r, "added trust-store entry `");
            push_str(&mut r, key_id);
            push_str(&mut r, "` → ");
        } else {
            push_str(&mut r, "added=");
            push_str(&mut r, key_id);
            push_str(&mut r, " path=");
        }
    }
    push_str(&mut r, path);
    proof {
        assert(r@ =~= trust_change_text(key_id@, path@, revoked, human));
    }
    r
}


// ---------------------------------------------------------------------
// The a11y-axe install hint
// ---------------------------------------------------------------------

/// What the a11y-axe capability descriptor says (fields absent when the
/// descriptor lacks them or they are not strings).
pub struct AxeDescriptor {
    pub version: Option<String>,
    pub env_var: Option<String>,
    pub description: Option<String>,
    /// The entry of `platforms` for the running platform, when it has one.
    pub platform: Option<PlatformHint>,
}

/// How to install the tool on one platform.
pub struct PlatformHint {
    pub install_hint: Option<String>,
    pub url: Option<String>,
}

/// The key of the running platform in the descriptor: `<os>-<arch>`.
pub fn platform_key(os: &str, arch: &str) -> (r: String)
    ensures
        r@ == os@ + "-"@ + arch@,
{
    let mut r = owned(os);
    push_str(&mut r, "-");
    push_str(&mut r, arch);
    r
}

/// The install hint: the capability and its version and description, then
/// for a listed platform its URL, the command to run and the variable to
/// set, else the manual route.
pub open spec fn axe_hint_text(d: AxeDescriptor, platform: Seq<char>) -> Seq<Seq<char>> {
    let env = crate::text::or_text(d.env_var, "CONVERGIO_A11Y_AXE_BIN"@);
    seq![
        "capability: a11y-axe v"@ + crate::text::or_text(d.version, "unknown"@),
        "  "@ + crate::text::or_text(d.description, ""@),
        Seq::empty(),
    ] + match d.platform {
        Some(p) => seq![
            "platform: "@ + platform,
            "  url:          "@ + crate::text::or_text(p.url, ""@),
            Seq::empty(),
            "run:"@,
            "  "@ + crate::text::or_text(p.install_hint, ""@),
            Seq::empty(),
            "then wire it up:"@,
            "  export "@ + env + "=$(which axe)"@,
        ],
        None => seq![
            "platform `"@ + platform + "` is not listed in the descriptor."@,
            "Install @axe-core/cli manually via npm, then set:"@,
            "  export "@ + env + "=$(which axe)"@,
        ],
    }
}

/// The install hint of the a11y-axe capability on `platform`.
pub fn axe_hint_lines(d: &AxeDescriptor, platform: &str) -> (lines: Vec<String>)
    ensures
        line_texts(lines@) == axe_hint_text(*d, platform@),
{
    let mut a = owned("capability: a11y-axe v");
    crate::text::push_or(&mut a, &d.version, "unknown");
    let mut b = owned("  ");
    crate::text::push_or(&mut b, &d.description, "");
    let mut export = owned("  export ");
    crate::text::push_or(&mut export, &d.env_var, "CONVERGIO_A11Y_AXE_BIN");
    push_str(&mut export, "=$(which axe)");
    let mut lines: Vec<String> = Vec::new();
    lines.push(a);
    lines.push(b);
    lines.push(String::new());
    match &d.platform {
        Some(p) => {
            let mut c = owned("platform: ");
            push_str(&mut c, platform);
            let mut u = owned("  url:          ");
            crate::text::push_or(&mut u, &p.url, "");
            let mut h = owned("  ");
            crate::text::push_or(&mut h, &p.install_hint, "");
            lines.push(c);
            lines.push(u);
            lines.push(String::new());
            lines.push(owned("run:"));
            lines.push(h);
            lines.push(String::new());
            lines.push(owned("then wire it up:"));
            lines.push(export);
        },
        None => {
            let mut c = owned("platform `");
            push_str(&mut c, platform);
            push_str(&mut c, "` is not listed in the descriptor.");
            lines.push(c);
            lines.push(owned("Install @axe-core/cli manually via npm, then set:"));
            lines.push(export);
        },
    }
    proof {
        reveal_strlit("");
        assert(line_texts(lines@) =~= axe_hint_text(*d, platform@));
    }
    lines
}

} // verus!
