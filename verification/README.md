# shr-rs

`shr-rs` pools disks of different sizes into one protected storage space. It
slices the disks into bands, gives every band a RAID level that its members can
carry, grows a group when disks join it, reports on what a host has, and takes
an operator through every command that changes something.

The library is written in Verus: each function states what it returns, and the
statements are proved. What the proofs rest on is Verus and `vstd` alone; no
function of the library is taken on trust.

## Layout

`src/` is the library.

| Modules | What they hold |
| --- | --- |
| `raid`, `disk`, `band` | RAID levels and redundancy modes; disks; bands, which cannot exist unless they are redundant |
| `slices`, `planner`, `metrics` | the layout of a new group, and what its capacity is spent on |
| `expansion` | checking a recorded layout, and growing it |
| `inventory`, `report`, `ops` | what is observed and recorded, the reports, and how the first become the second |
| `render`, `detail`, `watch`, `plan_view`, `diagram` | reports as text |
| `json`, `report_json` | JSON values, and the reports as JSON |
| `answers`, `shown`, `reconcile`, `dry_run`, `status`, `preflight`, `sizes`, `confirm` | what commands answer, show, ask and refuse |
| `workflow`, `schedule` | the course of every command, and of installing the background schedule, as machines that decide what is done next |
| `sink`, `ui_mode`, `paths` | progress and consent, the choice of the interface, fixed paths |
| `text`, `figures`, `table` | strings, numbers as they are printed, ordered tables |
| `layout_laws`, `expansion_laws`, `width_laws`, `frame_laws`, `workflow_laws`, `schedule_laws` | what holds across functions |

Laws about a single module stand in that module.

`tests/` runs the library on concrete values. `app/` is the program around it:
arguments, files, the terminal, and the calls into the crates that inspect the
host and run commands on it.

## What is proved

Among other things:

- every band of a plan survives the loss of as many disks as the mode promises;
- the bands of a plan tile the disks, share no space, and account for every byte;
- an expansion never shrinks, moves or downgrades a band that exists;
- a layout is accepted for expansion exactly when it is coherent;
- nothing irreversible is done without the group's name typed by whoever can be
  asked, and nothing at all under a dry run;
- creating, expanding, destroying, reconciling, starting an error check,
  replacing a disk and the two timers that record what they find work only under
  the lock on the recorded state;
- a unit that cannot be disabled never keeps the schedule from being installed;
- a frame of the live status, read line by line, fits the terminal exactly.
