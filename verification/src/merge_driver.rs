//! `cvg docs merge-driver` and its installation: the git configuration of
//! the AUTO-block merge driver, the `.gitattributes` line that routes
//! Markdown files to it, and the verdict on a merged file.
use crate::numeric::{dec, push_dec};
use crate::text::{contains, contains_str, owned, push_char, push_str};
use vstd::prelude::*;

verus! {

/// The attribute that routes a file to the driver.
pub open spec fn driver_attribute() -> Seq<char> {
    "merge=cvg-auto-blocks"@
}

/// The git configuration the driver is installed with, key and value.
pub open spec fn driver_config_text() -> Seq<(Seq<char>, Seq<char>)> {
    seq![
        ("merge.cvg-auto-blocks.name"@, "Convergio AUTO-blocks merge driver"@),
        (
            "merge.cvg-auto-blocks.driver"@,
            "cvg docs merge-driver %O %A %B --conflict-marker-size %L --path %P"@,
        ),
    ]
}

/// The git configuration the driver is installed with, in the order it is
/// written.
pub fn driver_config() -> (r: Vec<(&'static str, &'static str)>)
    ensures
        r@.map_values(|p: (&'static str, &'static str)| (p.0@, p.1@)) == driver_config_text(),
{
    let mut r: Vec<(&'static str, &'static str)> = Vec::new();
    r.push(("merge.cvg-auto-blocks.name", "Convergio AUTO-blocks merge driver"));
    r.push(
        (
            "merge.cvg-auto-blocks.driver",
            "cvg docs merge-driver %O %A %B --conflict-marker-size %L --path %P",
        ),
    );
    proof {
        assert(r@.map_values(|p: (&'static str, &'static str)| (p.0@, p.1@)) =~= driver_config_text());
    }
    r
}

/// The `.gitattributes` after installation: unchanged (`None`) when it
/// already routes files to the driver, else with the Markdown line
/// appended.
pub open spec fn attributes_after(existing: Seq<char>) -> Option<Seq<char>> {
    if contains(existing, driver_attribute()) {
        None
    } else {
        Some(existing + "*.md merge=cvg-auto-blocks\n"@)
    }
}

/// The new `.gitattributes` text, when it must be written.
pub fn attributes_with_driver(existing: &str) -> (r: Option<String>)
    ensures
        match r {
            Some(t) => attributes_after(existing@) == Some(t@),
            None => attributes_after(existing@) is None,
        },
{
    if contains_str(existing, "merge=cvg-auto-blocks") {
        None
    } else {
        let mut t = owned(existing);
        push_str(&mut t, "*.md merge=cvg-auto-blocks\n");
        Some(t)
    }
}

/// Installing twice writes the attribute line once: after one
/// installation the file routes Markdown to the driver, so a second one
/// leaves it as it is.
pub proof fn attributes_install_once(existing: Seq<char>)
    ensures
        attributes_after(existing) matches Some(t) ==> attributes_after(t) is None,
{
    if let Some(t) = attributes_after(existing) {
        reveal_strlit("*.md merge=cvg-auto-blocks\n");
        reveal_strlit("merge=cvg-auto-blocks");
        let a = driver_attribute();
        let k: int = existing.len() as int + 5;
        assert(t.subrange(k, k + a.len() as int) =~= a);
        assert(crate::text::matches_at(t, a, k));
    }
}

/// The arguments of the three-way `git merge-file` (before the paths of
/// ours, base and theirs).
pub open spec fn merge_file_args_text(marker_size: nat) -> Seq<Seq<char>> {
    seq!["merge-file"@, "-q"@, "--marker-size="@ + dec(marker_size)]
}

/// The arguments of the three-way `git merge-file`.
pub fn merge_file_args(marker_size: u32) -> (r: Vec<String>)
    ensures
        r@.map_values(|s: String| s@) == merge_file_args_text(marker_size as nat),
{
    let mut m = owned("--marker-size=");
    push_dec(&mut m, marker_size as u64);
    let mut r: Vec<String> = Vec::new();
    r.push(owned("merge-file"));
    r.push(owned("-q"));
    r.push(m);
    proof {
        assert(r@.map_values(|s: String| s@) =~= merge_file_args_text(marker_size as nat));
    }
    r
}

/// The start of a conflict: `marker_size` times `<`.
pub open spec fn conflict_start(marker_size: nat) -> Seq<char> {
    Seq::new(marker_size, |i: int| '<')
}

/// The driver's exit status: 1 when the merged text still holds a
/// conflict start, else 0.
pub fn merge_verdict(merged: &str, marker_size: u32) -> (r: i32)
    ensures
        r == if contains(merged@, conflict_start(marker_size as nat)) {
            1i32
        } else {
            0i32
        },
{
    let mut start = String::new();
    let mut k: u32 = 0;
    while k < marker_size
        invariant
            k <= marker_size,
            start@ == conflict_start(k as nat),
        decreases marker_size - k,
    {
        push_char(&mut start, '<');
        proof {
            assert(start@ =~= conflict_start((k + 1) as nat));
        }
        k = k + 1;
    }
    if contains_str(merged, start.as_str()) {
        1
    } else {
        0
    }
}

} // verus!
