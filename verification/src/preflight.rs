//! The safety checks on disks that are about to be written, and how disks are
//! named on the command line.

use vstd::prelude::*;
use crate::text;

verus! {

/// Why a disk must not be written.
#[derive(Debug, PartialEq, Eq)]
pub struct Blocker {
    /// The sentence that tells it.
    pub text: String,
    /// Whether it is that the disk already holds something, which may be
    /// overridden.
    pub has_content: bool,
}

/// A disk that was checked.
#[derive(Debug, PartialEq, Eq)]
pub struct Target {
    pub kernel_name: String,
    /// Stable `/dev/disk/by-id` name when known.
    pub id: Option<String>,
    pub system_disk: bool,
    pub has_content: bool,
    /// System mountpoints observed under the disk.
    pub system_mounts: Vec<String>,
}

/// The outcome of the safety checks.
#[derive(Debug, PartialEq, Eq)]
pub struct WritePreflight {
    pub ok: bool,
    pub targets: Vec<Target>,
    pub blockers: Vec<Blocker>,
    pub warnings: Vec<String>,
}

// ---------------------------------------------------------------------------
// The report
// ---------------------------------------------------------------------------

/// The sentence that ends a command whose disks did not pass the checks.
pub open spec fn unsafe_disks_text() -> Seq<char> {
    "safety checks failed: these disks are not safe to use"@
}

/// The lines about one disk.
pub open spec fn target_lines(t: Target) -> Seq<Seq<char>> {
    let first = "  "@ + t.kernel_name@ + "  id="@ + (match t.id {
        Some(id) => id@,
        None => "(no stable id)"@,
    }) + "  system="@ + truth(t.system_disk) + "  content="@ + truth(t.has_content);
    if t.system_mounts@.len() == 0 {
        seq![first]
    } else {
        seq![first, "    mounts: "@ + text::joined(text::views(t.system_mounts@), ", "@)]
    }
}

/// The word for a truth value.
pub open spec fn truth(b: bool) -> Seq<char> {
    if b {
        "true"@
    } else {
        "false"@
    }
}

/// The lines about the disks.
pub open spec fn targets_lines(targets: Seq<Target>) -> Seq<Seq<char>>
    decreases targets.len(),
{
    if targets.len() == 0 {
        Seq::empty()
    } else {
        targets_lines(targets.drop_last()) + target_lines(targets.last())
    }
}

/// The lines about what blocks.
pub open spec fn blocker_lines(blockers: Seq<Blocker>) -> Seq<Seq<char>> {
    blockers.map_values(|b: Blocker| "  BLOCK: "@ + b.text@)
}

/// The lines about what to beware of.
pub open spec fn warning_lines(warnings: Seq<String>) -> Seq<Seq<char>> {
    warnings.map_values(|w: String| "  WARN:  "@ + w@)
}

/// Whether a disk is blocked because it already holds something.
pub open spec fn blocked_by_content(blockers: Seq<Blocker>) -> bool {
    exists|i: int| 0 <= i < blockers.len() && (#[trigger] blockers[i]).has_content
}

/// The lines of the whole report.
pub open spec fn preflight_lines(r: WritePreflight) -> Seq<Seq<char>> {
    let verdict = "SHR-RS preflight: "@ + (if r.ok {
        "OK"@
    } else {
        "BLOCKED"@
    });
    let body = seq![verdict] + targets_lines(r.targets@) + blocker_lines(r.blockers@)
        + warning_lines(r.warnings@);
    if blocked_by_content(r.blockers@) {
        body.push("  (pass --force-content to reuse a disk with existing content anyway)"@)
    } else {
        body
    }
}

fn truth_word(b: bool) -> (s: &'static str)
    ensures
        s@ == truth(b),
{
    if b {
        "true"
    } else {
        "false"
    }
}

fn add_target(t: &Target, lines: &mut Vec<String>)
    ensures
        text::views(final(lines)@) == text::views(old(lines)@) + target_lines(*t),
{
    let ghost start = text::views(lines@);
    let mut first = "  ".to_owned();
    first.append(t.kernel_name.as_str());
    first.append("  id=");
    match &t.id {
        Some(id) => {
            first.append(id.as_str());
        },
        None => {
            first.append("(no stable id)");
        },
    }
    first.append("  system=");
    first.append(truth_word(t.system_disk));
    first.append("  content=");
    first.append(truth_word(t.has_content));
    text::add_line(lines, first);
    if t.system_mounts.len() > 0 {
        let mut mounts = "    mounts: ".to_owned();
        mounts.append(text::join(&t.system_mounts, ", ").as_str());
        text::add_line(lines, mounts);
    }
    assert(text::views(lines@) =~= start + target_lines(*t));
}

fn add_targets(targets: &Vec<Target>, lines: &mut Vec<String>)
    ensures
        text::views(final(lines)@) == text::views(old(lines)@) + targets_lines(targets@),
{
    let ghost start = text::views(lines@);
    let mut i: usize = 0;
    assert(targets@.take(0) =~= Seq::empty());
    assert(start + Seq::<Seq<char>>::empty() =~= start);
    while i < targets.len()
        invariant
            i <= targets.len(),
            text::views(lines@) == start + targets_lines(targets@.take(i as int)),
        decreases targets.len() - i,
    {
        let ghost so_far = targets_lines(targets@.take(i as int));
        add_target(&targets[i], lines);
        proof {
            let more = targets@.take(i + 1);
            assert(more.drop_last() =~= targets@.take(i as int));
            assert(more.last() == targets@[i as int]);
            assert(start + so_far + target_lines(targets@[i as int]) =~= start + (so_far
                + target_lines(targets@[i as int])));
        }
        i = i + 1;
    }
    assert(targets@.take(i as int) =~= targets@);
}

/// The outcome of the safety checks for people. Where content blocks a disk it
/// names the flag that overrides that.
pub fn render_preflight(r: &WritePreflight) -> (out: String)
    ensures
        out@ == text::lines(preflight_lines(*r)),
{
    let mut lines: Vec<String> = Vec::new();
    let mut verdict = "SHR-RS preflight: ".to_owned();
    if r.ok {
        verdict.append("OK");
    } else {
        verdict.append("BLOCKED");
    }
    text::add_line(&mut lines, verdict);
    assert(text::views(lines@) =~= seq![verdict@]);
    add_targets(&r.targets, &mut lines);
    let ghost above = text::views(lines@);
    let ghost all = blocker_lines(r.blockers@);
    let mut content = false;
    let mut i: usize = 0;
    assert(above + all.take(0) =~= above);
    while i < r.blockers.len()
        invariant
            i <= r.blockers.len(),
            all == blocker_lines(r.blockers@),
            text::views(lines@) == above + all.take(i as int),
            content == exists|k: int| 0 <= k < i && (#[trigger] r.blockers@[k]).has_content,
        decreases r.blockers.len() - i,
    {
        let mut line = "  BLOCK: ".to_owned();
        line.append(r.blockers[i].text.as_str());
        text::add_line(&mut lines, line);
        assert(above + all.take(i + 1) =~= (above + all.take(i as int)).push(all[i as int]));
        assert(r.blockers@[i as int].has_content ==> (exists|k: int|
            0 <= k < i + 1 && (#[trigger] r.blockers@[k]).has_content));
        if r.blockers[i].has_content {
            content = true;
        }
        i = i + 1;
    }
    assert(all.take(i as int) =~= all);
    let ghost middle = text::views(lines@);
    let ghost rest = warning_lines(r.warnings@);
    let mut j: usize = 0;
    assert(middle + rest.take(0) =~= middle);
    while j < r.warnings.len()
        invariant
            j <= r.warnings.len(),
            rest == warning_lines(r.warnings@),
            text::views(lines@) == middle + rest.take(j as int),
        decreases r.warnings.len() - j,
    {
        let mut line = "  WARN:  ".to_owned();
        line.append(r.warnings[j].as_str());
        text::add_line(&mut lines, line);
        assert(middle + rest.take(j + 1) =~= (middle + rest.take(j as int)).push(rest[j as int]));
        j = j + 1;
    }
    assert(rest.take(j as int) =~= rest);
    if content {
        text::add_line(
            &mut lines,
            "  (pass --force-content to reuse a disk with existing content anyway)".to_owned(),
        );
    }
    text::unlines(&lines)
}

/// How the command that only runs the checks ends: for machines the report on
/// its output tells what blocks, so the command succeeds; a person's command
/// fails where the disks are blocked.
pub fn preflight_failure(as_json: bool, ok: bool) -> (r: Option<String>)
    ensures
        r is Some <==> !as_json && !ok,
        r matches Some(m) ==> m@ == unsafe_disks_text(),
{
    if !as_json && !ok {
        Some("safety checks failed: these disks are not safe to use".to_owned())
    } else {
        None
    }
}

/// The sentences of a list of blockers.
pub open spec fn blocker_texts(blockers: Seq<Blocker>) -> Seq<Seq<char>> {
    blockers.map_values(|b: Blocker| b.text@)
}

/// All that blocks a disk, in one line.
pub fn format_blockers(blockers: &[Blocker]) -> (out: String)
    ensures
        out@ == text::joined(blocker_texts(blockers@), "; "@),
{
    let mut texts: Vec<String> = Vec::new();
    let mut i: usize = 0;
    while i < blockers.len()
        invariant
            i <= blockers.len(),
            text::views(texts@) =~= blocker_texts(blockers@).take(i as int),
        decreases blockers.len() - i,
    {
        text::add_line(&mut texts, blockers[i].text.clone());
        i = i + 1;
    }
    assert(blocker_texts(blockers@).take(i as int) =~= blocker_texts(blockers@));
    text::join(&texts, "; ")
}

/// Whether a disk may be planned with: one that is blocked is refused, with
/// all that blocks it.
pub fn accept_disk(blockers: &[Blocker]) -> (r: Result<(), String>)
    ensures
        r is Ok <==> blockers@.len() == 0,
        r matches Err(m) ==> m@ == text::joined(blocker_texts(blockers@), "; "@),
{
    if blockers.len() == 0 {
        Ok(())
    } else {
        Err(format_blockers(blockers))
    }
}

// ---------------------------------------------------------------------------
// Names on the command line
// ---------------------------------------------------------------------------

/// `s` without any number of copies of `prefix` at its beginning.
pub open spec fn without_prefix(s: Seq<char>, prefix: Seq<char>) -> Seq<char>
    decreases s.len(),
{
    if prefix.len() > 0 && text::starts_with(s, prefix) {
        without_prefix(s.subrange(prefix.len() as int, s.len() as int), prefix)
    } else {
        s
    }
}

fn strip_prefix<'a>(s: &'a str, prefix: &str) -> (r: &'a str)
    ensures
        r@ == without_prefix(s@, prefix@),
{
    let len: usize = s.unicode_len();
    let step: usize = prefix.unicode_len();
    let mut from: usize = 0;
    assert(s@.subrange(0, len as int) =~= s@);
    while step > 0 && text::has_prefix(s.substring_char(from, len), prefix)
        invariant
            len == s@.len(),
            step == prefix@.len(),
            from <= len,
            without_prefix(s@, prefix@) == without_prefix(
                s@.subrange(from as int, len as int),
                prefix@,
            ),
        decreases len - from,
    {
        assert(s@.subrange(from as int, len as int).subrange(step as int, len - from)
            =~= s@.subrange(from + step, len as int));
        from = from + step;
    }
    s.substring_char(from, len)
}

/// A disk as it was named on the command line, ready to be looked up: without
/// white space around it and without the directory of stable names.
pub fn clean_disk_name(raw: &str) -> (r: &str)
    ensures
        r@ == without_prefix(text::trimmed(raw@), "/dev/disk/by-id/"@),
{
    strip_prefix(text::trim(raw), "/dev/disk/by-id/")
}

/// Whether a kernel name is among those of the host's disks.
pub open spec fn is_kernel_name(disks: Seq<String>, name: Seq<char>) -> bool {
    text::views(disks).contains(name)
}

fn among(disks: &[String], name: &str) -> (r: bool)
    ensures
        r == is_kernel_name(disks@, name@),
{
    let mut i: usize = 0;
    while i < disks.len()
        invariant
            i <= disks.len(),
            forall|k: int| 0 <= k < i ==> (#[trigger] disks@[k])@ != name@,
        decreases disks.len() - i,
    {
        if text::same(disks[i].as_str(), name) {
            assert(text::views(disks@)[i as int] == name@);
            return true;
        }
        i = i + 1;
    }
    proof {
        if is_kernel_name(disks@, name@) {
            let k = choose|k: int|
                0 <= k < text::views(disks@).len() && text::views(disks@)[k] == name@;
            assert(disks@[k]@ == name@);
        }
    }
    false
}

/// The kernel name of a disk for the safety checks. A disk without a stable
/// name still has one: where looking it up failed, a path is taken for a
/// kernel name if a disk of the host has it. `path` is the path that was asked
/// for, where it was one; `found` is what the look-up gave.
pub fn kernel_name(found: Result<String, String>, path: Option<&str>, disks: &[String]) -> (r:
    Result<String, String>)
    ensures
        match found {
            Ok(name) => r == Ok::<String, String>(name),
            Err(why) => {
                let bare = match path {
                    Some(p) => Some(without_prefix(text::trimmed(p@), "/dev/"@)),
                    None => None,
                };
                if bare is Some && is_kernel_name(disks@, bare->0) {
                    r matches Ok(name) && name@ == bare->0
                } else {
                    r == Err::<String, String>(why)
                }
            },
        },
{
    match found {
        Ok(name) => Ok(name),
        Err(why) => {
            match path {
                Some(p) => {
                    let bare = strip_prefix(text::trim(p), "/dev/");
                    if among(disks, bare) {
                        return Ok(bare.to_owned());
                    }
                    Err(why)
                },
                None => Err(why),
            }
        },
    }
}

} // verus!
