//! What a dry run shows: the commands that would run, and a diagram of the
//! layout that would come out.

use vstd::prelude::*;
use crate::confirm;
use crate::diagram;
use crate::disk;
use crate::disk::Disk;
use crate::inventory::{ArrayState, StateDisk};
use crate::json;
use crate::json::{Json, JsonView};
use crate::metrics;
use crate::ops;
use crate::planner;
use crate::planner::{plan_initial, PlanError, PlannerInput};
use crate::raid;
use crate::raid::RedundancyMode;
use crate::text;

verus! {

// ---------------------------------------------------------------------------
// Diagrams
// ---------------------------------------------------------------------------

/// Why no layout can be drawn.
#[derive(Debug, PartialEq, Eq)]
pub enum DiagramError {
    /// The recorded mode is none that is known; its text.
    UnknownMode(String),
    /// The disks have no layout.
    Plan(PlanError),
}

/// The mode that a recorded text stands for.
pub open spec fn recorded_mode(s: Seq<char>) -> Option<RedundancyMode> {
    if s == "shr"@ {
        Some(RedundancyMode::Shr)
    } else if s == "shr2"@ {
        Some(RedundancyMode::Shr2)
    } else {
        None
    }
}

/// The sentence about a recorded mode that is not known.
pub open spec fn unknown_mode_text(mode: Seq<char>) -> Seq<char> {
    "unknown redundancy mode `"@ + mode + "` in the shr-rs configuration"@
}

fn unknown_mode(mode: &str) -> (out: String)
    ensures
        out@ == unknown_mode_text(mode@),
{
    let mut out = "unknown redundancy mode `".to_owned();
    out.append(mode);
    out.append("` in the shr-rs configuration");
    out
}

impl DiagramError {
    /// The sentence that describes the error.
    pub open spec fn text(self) -> Seq<char> {
        match self {
            DiagramError::UnknownMode(mode) => unknown_mode_text(mode@),
            DiagramError::Plan(e) => planner::plan_fault_text(e@),
        }
    }

    /// A sentence that describes the error.
    pub fn message(&self) -> (out: String)
        ensures
            out@ == self.text(),
    {
        match self {
            DiagramError::UnknownMode(mode) => unknown_mode(mode.as_str()),
            DiagramError::Plan(e) => e.message(),
        }
    }
}

/// The mode that a recorded text stands for. A text that stands for none is an
/// error, never a guess.
pub fn parse_redundancy_mode(s: &str) -> (r: Result<RedundancyMode, DiagramError>)
    ensures
        match recorded_mode(s@) {
            Some(mode) => r == Ok::<RedundancyMode, DiagramError>(mode),
            None => r matches Err(DiagramError::UnknownMode(m)) && m@ == s@,
        },
{
    if text::same(s, "shr") {
        Ok(RedundancyMode::Shr)
    } else if text::same(s, "shr2") {
        Ok(RedundancyMode::Shr2)
    } else {
        Err(DiagramError::UnknownMode(s.to_owned()))
    }
}

/// The mode that is recorded for a group is read back as that mode.
pub proof fn recorded_modes_are_read_back(mode: RedundancyMode)
    ensures
        recorded_mode(raid::mode_word(mode)) == Some(mode),
{
    reveal_strlit("shr");
    reveal_strlit("shr2");
    assert("shr"@.len() == 3 && "shr2"@.len() == 4);
}

/// Draw the layout that a new group of these disks would have.
pub fn dry_run_layout_diagram_text(disks: &[Disk], mode: RedundancyMode) -> (r: Result<
    String,
    PlanError,
>)
    requires
        planner::plan(ops::default_input(mode, disk::drives(disks@))) is Ok ==> metrics::raw_total(
            disk::drives(disks@),
        ) <= u64::MAX,
    ensures
        match (r, planner::plan(ops::default_input(mode, disk::drives(disks@)))) {
            (Ok(s), Ok(p)) => s@ == text::lines(
                diagram::diagram_lines(disk::drives(disks@), p),
            ),
            (Err(e), Err(f)) => e@ == f,
            _ => false,
        },
{
    let input = PlannerInput::new(disk::copy_disks(disks), mode);
    assert(input@ =~= ops::default_input(mode, disk::drives(disks@)));
    match plan_initial(&input) {
        Ok(out) => Ok(diagram::render_layout_diagram(disks, &out)),
        Err(e) => Err(e),
    }
}

/// The recorded disks, each by identifier and raw size.
pub open spec fn recorded_drives(disks: Seq<StateDisk>) -> Seq<(Seq<char>, u64)> {
    disks.map_values(|d: StateDisk| (d.id@, d.size_bytes))
}

fn planner_disks(list: &Vec<StateDisk>) -> (r: Vec<Disk>)
    ensures
        disk::drives(r@) == recorded_drives(list@),
{
    let mut r: Vec<Disk> = Vec::new();
    let mut i: usize = 0;
    while i < list.len()
        invariant
            i <= list.len(),
            disk::drives(r@) =~= recorded_drives(list@).take(i as int),
        decreases list.len() - i,
    {
        let ghost so_far = r@;
        let d = Disk::new(list[i].id.as_str(), list[i].size_bytes);
        r.push(d);
        assert(disk::drives(r@) =~= disk::drives(so_far).push((d.id@, d.size_bytes)));
        i = i + 1;
    }
    assert(recorded_drives(list@).take(i as int) =~= recorded_drives(list@));
    r
}

/// Draw the ideal full layout of all the disks that a group has, the new ones
/// included. Every group is planned on the default grid, so planning its disks
/// on it once more gives the same one.
pub fn expand_dry_run_layout_diagram_text(group: &ArrayState) -> (r: Result<String, DiagramError>)
    requires
        recorded_mode(group.mode@) matches Some(mode) ==> (planner::plan(
            ops::default_input(mode, recorded_drives(group.disks@)),
        ) is Ok ==> metrics::raw_total(recorded_drives(group.disks@)) <= u64::MAX),
    ensures
        match recorded_mode(group.mode@) {
            None => r matches Err(DiagramError::UnknownMode(m)) && m@ == group.mode@,
            Some(mode) => match (
                r,
                planner::plan(ops::default_input(mode, recorded_drives(group.disks@))),
            ) {
                (Ok(s), Ok(p)) => s@ == text::lines(
                    diagram::diagram_lines(recorded_drives(group.disks@), p),
                ),
                (Err(DiagramError::Plan(e)), Err(f)) => e@ == f,
                _ => false,
            },
        },
{
    let mode = match parse_redundancy_mode(group.mode.as_str()) {
        Ok(mode) => mode,
        Err(e) => {
            return Err(e);
        },
    };
    let disks = planner_disks(&group.disks);
    match dry_run_layout_diagram_text(disks.as_slice(), mode) {
        Ok(s) => Ok(s),
        Err(e) => Err(DiagramError::Plan(e)),
    }
}

// ---------------------------------------------------------------------------
// Planned commands as JSON
// ---------------------------------------------------------------------------

/// A state with the planned commands beside its own fields; anything but an
/// object stays what it is.
pub open spec fn merged(state: JsonView, commands: Seq<Seq<char>>) -> JsonView {
    match state {
        JsonView::Object(fields) => JsonView::Object(
            json::with_field(
                fields,
                "planned_commands"@,
                JsonView::List(json::text_values(commands)),
            ),
        ),
        other => other,
    }
}

/// Put the list of planned commands beside the fields of a state, in the order
/// in which they would run.
pub fn merge_planned_commands(state: Json, commands: &[String]) -> (r: Json)
    ensures
        r@ == merged(state@, text::views(commands@)),
{
    match state {
        Json::Object(fields) => {
            let ghost held = fields;
            proof {
                if let JsonView::Object(seen) = Json::Object(held)@ {
                    assert(seen =~= json::pairs(held@));
                }
            }
            json::object(json::set(fields, "planned_commands", json::strings(commands)))
        },
        other => other,
    }
}

/// No field of the state is lost, and the commands are there even where there
/// are none of them.
pub proof fn planned_commands_leave_the_state_fields_alone(
    fields: Seq<(Seq<char>, JsonView)>,
    commands: Seq<Seq<char>>,
    key: Seq<char>,
)
    requires
        key != "planned_commands"@,
    ensures
        merged(JsonView::Object(fields), commands) matches JsonView::Object(all) && json::field(
            all,
            key,
        ) == json::field(fields, key) && json::field(all, "planned_commands"@) == Some(
            JsonView::List(json::text_values(commands)),
        ),
{
    json::setting_a_field_keeps_the_others(
        fields,
        "planned_commands"@,
        JsonView::List(json::text_values(commands)),
        key,
    );
}

// ---------------------------------------------------------------------------
// What dry runs print
// ---------------------------------------------------------------------------

/// The line about a group that would be created.
pub open spec fn create_dry_run_line_text(
    name: Seq<char>,
    mode: Seq<char>,
    version: nat,
) -> Seq<char> {
    "Dry run -- array would be created. Name: "@ + name + ", Mode: "@ + mode
        + ", Version: "@ + text::dec(version)
}

fn create_dry_run_line(name: &str, mode: &str, version: u32) -> (out: String)
    ensures
        out@ == create_dry_run_line_text(name@, mode@, version as nat),
{
    let mut out = "Dry run -- array would be created. Name: ".to_owned();
    out.append(name);
    out.append(", Mode: ");
    out.append(mode);
    out.append(", Version: ");
    text::append_decimal(&mut out, version as u64);
    out
}

/// The line about a group that would be expanded.
pub open spec fn expand_dry_run_line_text(name: Seq<char>, version: nat) -> Seq<char> {
    "Dry run -- array would be expanded. Name: "@ + name + ", Layout Version: "@
        + text::dec(version)
}

fn expand_dry_run_line(name: &str, version: u32) -> (out: String)
    ensures
        out@ == expand_dry_run_line_text(name@, version as nat),
{
    let mut out = "Dry run -- array would be expanded. Name: ".to_owned();
    out.append(name);
    out.append(", Layout Version: ");
    text::append_decimal(&mut out, version as u64);
    out
}

/// The text of a dry run: its first line, the planned commands, the diagram.
pub open spec fn dry_run_text(
    first: Seq<char>,
    commands: Seq<Seq<char>>,
    diagram: Seq<char>,
) -> Seq<char> {
    first + "\n"@ + confirm::planned_text(commands) + diagram
}

/// The text that a dry run of creating a group prints. `group` is the group
/// that would come out, `diagram` its layout.
pub fn create_dry_run_text(group: &ArrayState, commands: &[String], diagram: &str) -> (out: String)
    ensures
        out@ == dry_run_text(
            create_dry_run_line_text(group.name@, group.mode@, group.layout_version as nat),
            text::views(commands@),
            diagram@,
        ),
{
    let mut out = create_dry_run_line(
        group.name.as_str(),
        group.mode.as_str(),
        group.layout_version,
    );
    out.append("\n");
    out.append(confirm::render_planned_commands_text(commands).as_str());
    out.append(diagram);
    out
}

/// The text that a dry run of expanding a group prints. `group` is the group
/// that would come out, `diagram` its layout.
pub fn expand_dry_run_text(group: &ArrayState, commands: &[String], diagram: &str) -> (out: String)
    ensures
        out@ == dry_run_text(
            expand_dry_run_line_text(group.name@, group.layout_version as nat),
            text::views(commands@),
            diagram@,
        ),
{
    let mut out = expand_dry_run_line(group.name.as_str(), group.layout_version);
    out.append("\n");
    out.append(confirm::render_planned_commands_text(commands).as_str());
    out.append(diagram);
    out
}

/// The object of a dry run of destroying a group.
pub open spec fn destroy_dry_run_object(commands: Seq<Seq<char>>, zero_superblocks: bool) ->
    JsonView {
    JsonView::Object(
        seq![
            ("planned_commands"@, JsonView::List(json::text_values(commands))),
            ("zero_superblocks"@, JsonView::Bool(zero_superblocks)),
        ],
    )
}

/// The JSON that a dry run of destroying a group prints; the text is that of
/// the planned commands alone.
pub fn destroy_dry_run_json(commands: &[String], zero_superblocks: bool) -> (r: Json)
    ensures
        r@ == destroy_dry_run_object(text::views(commands@), zero_superblocks),
{
    let mut fields: Vec<(String, Json)> = Vec::new();
    assert(json::pairs(fields@) =~= Seq::empty());
    json::put(&mut fields, "planned_commands", json::strings(commands));
    json::put(&mut fields, "zero_superblocks", Json::Bool(zero_superblocks));
    assert(json::pairs(fields@) =~= seq![
        ("planned_commands"@, JsonView::List(json::text_values(text::views(commands@)))),
        ("zero_superblocks"@, JsonView::Bool(zero_superblocks)),
    ]);
    json::object(fields)
}

} // verus!
