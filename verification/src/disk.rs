//! Disk identity and the disk value type used by the planner.

use vstd::prelude::*;
use crate::text;

verus! {

/// What an identifier or a text field can be made from.
pub trait IntoText: Sized {
    /// The characters that the value stands for.
    spec fn text(&self) -> Seq<char>;

    /// The value as an owned string.
    fn into_text(self) -> (s: String)
        ensures
            s@ == self.text(),
    ;
}

impl IntoText for String {
    open spec fn text(&self) -> Seq<char> {
        self@
    }

    fn into_text(self) -> (s: String) {
        self
    }
}

impl<'a> IntoText for &'a str {
    open spec fn text(&self) -> Seq<char> {
        self@
    }

    fn into_text(self) -> (s: String) {
        self.to_owned()
    }
}

impl IntoText for DiskId {
    open spec fn text(&self) -> Seq<char> {
        self@
    }

    fn into_text(self) -> (s: String) {
        self.id
    }
}

/// A stable disk identifier, derived from a `/dev/disk/by-id` symlink name
/// (e.g. `ata-WDC_WD40EFRX-68N32N0_WD-WCC7K1ABCDEF`).
///
/// Here it is an opaque, ordered text.
#[derive(Debug, PartialEq, Eq, Hash, PartialOrd, Ord)]
pub struct DiskId {
    id: String,
}

impl View for DiskId {
    type V = Seq<char>;

    closed spec fn view(&self) -> Seq<char> {
        self.id@
    }
}

/// The views of a list of identifiers.
pub open spec fn ids(list: Seq<DiskId>) -> Seq<Seq<char>> {
    list.map_values(|d: DiskId| d@)
}

/// The part of an identifier after its last underscore, or all of it when it
/// has none.
pub open spec fn short_id(id: Seq<char>) -> Seq<char>
    decreases id.len(),
{
    if id.len() == 0 || id.last() == '_' {
        Seq::empty()
    } else {
        short_id(id.drop_last()).push(id.last())
    }
}

impl Clone for DiskId {
    fn clone(&self) -> (r: Self)
        ensures
            r@ == self@,
    {
        DiskId { id: self.id.clone() }
    }
}

impl From<String> for DiskId {
    fn from(s: String) -> (r: Self)
        ensures
            r@ == s@,
    {
        DiskId { id: s }
    }
}

impl vstd::std_specs::convert::FromSpecImpl<String> for DiskId {
    open spec fn obeys_from_spec() -> bool {
        false
    }

    open spec fn from_spec(s: String) -> Self {
        arbitrary()
    }
}

impl<'a> From<&'a str> for DiskId {
    fn from(s: &'a str) -> (r: Self)
        ensures
            r@ == s@,
    {
        DiskId { id: s.to_owned() }
    }
}

impl<'a> vstd::std_specs::convert::FromSpecImpl<&'a str> for DiskId {
    open spec fn obeys_from_spec() -> bool {
        false
    }

    open spec fn from_spec(s: &'a str) -> Self {
        arbitrary()
    }
}

impl DiskId {
    pub fn new(id: impl IntoText) -> (r: Self)
        ensures
            r@ == id.text(),
    {
        DiskId { id: id.into_text() }
    }

    pub fn as_str(&self) -> (s: &str)
        ensures
            s@ == self@,
    {
        self.id.as_str()
    }

    /// Short, human-friendly tail: usually the serial fragment after the last
    /// underscore, e.g. `WD-WCC7K1ABCDEF`.
    pub fn short(&self) -> (s: &str)
        ensures
            s@ == short_id(self@),
    {
        let id = self.id.as_str();
        let len: usize = id.unicode_len();
        let mut from: usize = len;
        proof {
            assert(self@.subrange(0, len as int) =~= self@);
            assert(short_id(self@) =~= short_id(self@.subrange(0, len as int)) + self@.subrange(
                len as int,
                len as int,
            ));
        }
        while from > 0 && id.get_char(from - 1) != '_'
            invariant
                id@ == self@,
                len == id@.len(),
                from <= len,
                short_id(self@) == short_id(self@.subrange(0, from as int)) + self@.subrange(
                    from as int,
                    len as int,
                ),
            decreases from,
        {
            proof {
                let head = self@.subrange(0, from as int);
                assert(head.drop_last() =~= self@.subrange(0, from - 1));
                assert(short_id(head.drop_last()).push(head.last()) + self@.subrange(
                    from as int,
                    len as int,
                ) =~= short_id(head.drop_last()) + self@.subrange(from - 1, len as int));
            }
            from = from - 1;
        }
        assert(short_id(self@.subrange(0, from as int)) =~= Seq::<char>::empty());
        id.substring_char(from, len)
    }

    /// Whether two identifiers are the same text.
    pub fn same(&self, other: &DiskId) -> (r: bool)
        ensures
            r == (self@ == other@),
    {
        text::same(self.as_str(), other.as_str())
    }
}

/// Whether `list` holds an identifier equal to `id`.
pub fn holds(list: &[DiskId], id: &DiskId) -> (r: bool)
    ensures
        r == ids(list@).contains(id@),
{
    let mut i: usize = 0;
    while i < list.len()
        invariant
            i <= list.len(),
            forall|j: int| 0 <= j < i ==> #[trigger] ids(list@)[j] != id@,
        decreases list.len() - i,
    {
        if list[i].same(id) {
            assert(ids(list@)[i as int] == id@);
            return true;
        }
        i = i + 1;
    }
    false
}

/// A copy of a list of identifiers.
pub fn copy_ids(list: &[DiskId]) -> (r: Vec<DiskId>)
    ensures
        ids(r@) == ids(list@),
{
    let mut r: Vec<DiskId> = Vec::new();
    let mut i: usize = 0;
    while i < list.len()
        invariant
            i <= list.len(),
            r.len() == i,
            forall|j: int| 0 <= j < i ==> (#[trigger] r@[j])@ == list@[j]@,
        decreases list.len() - i,
    {
        r.push(list[i].clone());
        i = i + 1;
    }
    assert(ids(r@) =~= ids(list@));
    r
}

/// A physical disk as the planner sees it. The current `/dev/sdX` path is
/// deliberately absent: it is unstable and never persisted or planned against.
#[derive(Debug, PartialEq, Eq)]
pub struct Disk {
    pub id: DiskId,
    pub size_bytes: u64,
    pub serial: String,
    pub model: String,
}

/// Each disk by identifier and raw size.
pub open spec fn drives(disks: Seq<Disk>) -> Seq<(Seq<char>, u64)> {
    disks.map_values(|d: Disk| (d.id@, d.size_bytes))
}

impl Clone for Disk {
    fn clone(&self) -> (r: Self)
        ensures
            r.id@ == self.id@,
            r.size_bytes == self.size_bytes,
            r.serial@ == self.serial@,
            r.model@ == self.model@,
    {
        Disk {
            id: self.id.clone(),
            size_bytes: self.size_bytes,
            serial: self.serial.clone(),
            model: self.model.clone(),
        }
    }
}

/// Whether two lists are of the same disks, each with its serial number and
/// model name.
pub open spec fn same_disks(a: Seq<Disk>, b: Seq<Disk>) -> bool {
    &&& drives(a) == drives(b)
    &&& forall|i: int|
        0 <= i < a.len() ==> (#[trigger] a[i]).serial@ == b[i].serial@ && a[i].model@ == b[i].model@
}

/// A copy of a list of disks.
pub fn copy_disks(list: &[Disk]) -> (r: Vec<Disk>)
    ensures
        same_disks(r@, list@),
        r@.len() == list@.len(),
        forall|i: int|
            0 <= i < list@.len() ==> (#[trigger] r@[i]).id@ == list@[i].id@ && r@[i].size_bytes
                == list@[i].size_bytes && r@[i].serial@ == list@[i].serial@ && r@[i].model@
                == list@[i].model@,
{
    let mut r: Vec<Disk> = Vec::new();
    let mut i: usize = 0;
    while i < list.len()
        invariant
            i <= list.len(),
            r@.len() == i,
            forall|k: int|
                0 <= k < i ==> (#[trigger] r@[k]).id@ == list@[k].id@ && r@[k].size_bytes
                    == list@[k].size_bytes && r@[k].serial@ == list@[k].serial@ && r@[k].model@
                    == list@[k].model@,
        decreases list.len() - i,
    {
        r.push(list[i].clone());
        i = i + 1;
    }
    assert(drives(r@) =~= drives(list@));
    r
}

impl Disk {
    /// A disk of which only the identifier and the size are known.
    pub fn new(id: impl IntoText, size_bytes: u64) -> (r: Self)
        ensures
            r.id@ == id.text(),
            r.size_bytes == size_bytes,
            r.serial@ == Seq::<char>::empty(),
            r.model@ == Seq::<char>::empty(),
    {
        Disk { id: DiskId::new(id), size_bytes, serial: String::new(), model: String::new() }
    }

    /// The same disk with its serial number and model name.
    pub fn with_meta(self, serial: impl IntoText, model: impl IntoText) -> (r: Self)
        ensures
            r.id == self.id,
            r.size_bytes == self.size_bytes,
            r.serial@ == serial.text(),
            r.model@ == model.text(),
    {
        Disk {
            id: self.id,
            size_bytes: self.size_bytes,
            serial: serial.into_text(),
            model: model.into_text(),
        }
    }
}

} // verus!
