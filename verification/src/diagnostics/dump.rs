//! Heap dump: a human-readable summary of heap state.
//!
//! The dump is written to a fixed-size buffer as a sequence of lines.
use crate::region::Region;
use crate::region::table::RegionTable;
use vstd::prelude::*;
use vstd::string::StringSliceAdditionalSpecFns;

verus! {

/// Bytes per dump line.
pub const DUMP_LINE_LEN: usize = 64;

/// Maximum number of dump lines.
pub const DUMP_MAX_LINES: usize = 64;

/// Buffered heap dump.
pub struct HeapDump {
    lines: Vec<Vec<u8>>,
    line_count: usize,
}

/// A stored line for text bytes `b`: the first `DUMP_LINE_LEN` bytes,
/// padded with zero bytes to `DUMP_LINE_LEN`.
pub open spec fn pad_line(b: Seq<u8>) -> Seq<u8> {
    Seq::new(DUMP_LINE_LEN as nat, |i: int| if i < b.len() { b[i] } else { 0u8 })
}

/// The stored lines after writing text bytes `b` (dropped once full).
pub open spec fn written(v: Seq<Seq<u8>>, b: Seq<u8>) -> Seq<Seq<u8>> {
    if v.len() >= DUMP_MAX_LINES {
        v
    } else {
        v.push(pad_line(b))
    }
}

/// Index of the first zero byte of `l` at or after `from`, or `l.len()`.
pub open spec fn first_zero(l: Seq<u8>, from: int) -> int
    decreases l.len() - from,
{
    if from < 0 || from >= l.len() {
        l.len() as int
    } else if l[from] == 0 {
        from
    } else {
        first_zero(l, from + 1)
    }
}

/// The text a stored line reads back as: up to its first zero byte.
pub open spec fn line_text(l: Seq<u8>) -> Seq<u8> {
    l.take(first_zero(l, 0))
}

impl View for HeapDump {
    type V = Seq<Seq<u8>>;

    /// The lines written so far, each as its stored `DUMP_LINE_LEN` bytes.
    closed spec fn view(&self) -> Seq<Seq<u8>> {
        Seq::new(self.line_count as nat, |i: int| self.lines@[i]@)
    }
}

/// A line of `DUMP_LINE_LEN` zero bytes.
fn zero_line() -> (r: Vec<u8>)
    ensures
        r@ == Seq::new(DUMP_LINE_LEN as nat, |i: int| 0u8),
{
    let mut l: Vec<u8> = Vec::new();
    while l.len() < DUMP_LINE_LEN
        invariant
            l@.len() <= DUMP_LINE_LEN,
            forall|i: int| 0 <= i < l@.len() ==> l@[i] == 0,
        decreases DUMP_LINE_LEN - l@.len(),
    {
        l.push(0);
    }
    assert(l@ =~= Seq::new(DUMP_LINE_LEN as nat, |i: int| 0u8));
    l
}

impl HeapDump {
    /// Internal consistency: `DUMP_MAX_LINES` lines of `DUMP_LINE_LEN`
    /// bytes each, and the lines not yet written are all zeros.
    pub closed spec fn wf(&self) -> bool {
        &&& self.lines@.len() == DUMP_MAX_LINES
        &&& self.line_count <= DUMP_MAX_LINES
        &&& forall|i: int| 0 <= i < DUMP_MAX_LINES ==> (#[trigger] self.lines@[i])@.len()
            == DUMP_LINE_LEN
        &&& forall|i: int|
            self.line_count <= i < DUMP_MAX_LINES ==> (#[trigger] self.lines@[i])@ == Seq::new(
                DUMP_LINE_LEN as nat,
                |j: int| 0u8,
            )
    }

    /// Construct an empty dump.
    pub fn new() -> (r: HeapDump)
        ensures
            r.wf(),
            r@ == Seq::<Seq<u8>>::empty(),
    {
        let mut lines: Vec<Vec<u8>> = Vec::new();
        while lines.len() < DUMP_MAX_LINES
            invariant
                lines@.len() <= DUMP_MAX_LINES,
                forall|i: int|
                    0 <= i < lines@.len() ==> (#[trigger] lines@[i])@ == Seq::new(
                        DUMP_LINE_LEN as nat,
                        |j: int| 0u8,
                    ),
            decreases DUMP_MAX_LINES - lines@.len(),
        {
            lines.push(zero_line());
        }
        let r = HeapDump { lines, line_count: 0 };
        assert(r@ =~= Seq::<Seq<u8>>::empty());
        r
    }

    /// Append a line to the dump, truncated to `DUMP_LINE_LEN` bytes.
    /// Lines beyond `DUMP_MAX_LINES` are dropped.
    pub fn write_line(&mut self, line: &str)
        requires
            old(self).wf(),
        ensures
            final(self).wf(),
            final(self)@ == written(old(self)@, line.spec_bytes()),
    {
        if self.line_count >= DUMP_MAX_LINES {
            return;
        }
        let bytes = line.as_bytes();
        let n = if bytes.len() < DUMP_LINE_LEN {
            bytes.len()
        } else {
            DUMP_LINE_LEN
        };
        let mut row = zero_line();
        let mut i: usize = 0;
        while i < n
            invariant
                n <= bytes@.len(),
                n <= DUMP_LINE_LEN,
                i <= n,
                row@.len() == DUMP_LINE_LEN,
                forall|j: int| 0 <= j < DUMP_LINE_LEN ==> row@[j] == if j < i {
                    bytes@[j]
                } else {
                    0u8
                },
            decreases n - i,
        {
            row.set(i, bytes[i]);
            i = i + 1;
        }
        assert(row@ =~= pad_line(line.spec_bytes()));
        let ghost old_lines = self.lines@;
        self.lines.set(self.line_count, row);
        self.line_count = self.line_count + 1;
        assert(self@ =~= old(self)@.push(pad_line(line.spec_bytes())));
    }

    /// Number of lines written.
    pub fn line_count(&self) -> (r: usize)
        requires
            self.wf(),
        ensures
            r == self@.len(),
    {
        self.line_count
    }

    /// A written line's text (up to its first zero byte); empty for an
    /// index that was not written.
    pub fn get_line(&self, idx: usize) -> (r: &[u8])
        requires
            self.wf(),
        ensures
            idx < self@.len() ==> r@ == line_text(self@[idx as int]),
            idx >= self@.len() ==> r@.len() == 0,
    {
        if idx >= self.line_count {
            return self.lines[0].as_slice().split_at(0).0;
        }
        let line = self.lines[idx].as_slice();
        let mut len: usize = 0;
        while len < line.len()
            invariant
                self.wf(),
                idx < self@.len(),
                line@ == self@[idx as int],
                line@.len() == DUMP_LINE_LEN,
                len <= DUMP_LINE_LEN,
                first_zero(line@, 0) == first_zero(line@, len as int),
            ensures
                first_zero(line@, 0) == len as int,
            decreases DUMP_LINE_LEN - len,
        {
            if line[len] == 0 {
                break ;
            }
            len = len + 1;
        }
        vstd::slice::slice_subrange(line, 0, len)
    }
}

impl Default for HeapDump {
    fn default() -> (r: HeapDump)
        ensures
            r.wf(),
            r@ == Seq::<Seq<u8>>::empty(),
    {
        HeapDump::new()
    }
}

/// The dump lines for the first `n` regions: "R: free" for an available
/// region, "R: bound" otherwise.
pub open spec fn region_lines(v: Seq<Seq<u8>>, regions: Seq<Region>, n: int) -> Seq<Seq<u8>>
    decreases n,
{
    if n <= 0 {
        v
    } else {
        let prev = region_lines(v, regions, n - 1);
        let r = regions[n - 1];
        if !r.occupied && r.start != 0 {
            written(prev, "R: free".spec_bytes())
        } else {
            written(prev, "R: bound".spec_bytes())
        }
    }
}

/// Populate a `HeapDump` with a summary of the given region table: a
/// header line, then one line per region (at most `DUMP_MAX_LINES - 1`).
pub fn dump_region_table(table: &RegionTable, dump: &mut HeapDump)
    requires
        table.wf(),
        old(dump).wf(),
    ensures
        final(dump).wf(),
        final(dump)@ == region_lines(
            written(old(dump)@, "=== Region Table Dump ===".spec_bytes()),
            table@,
            if table@.len() < DUMP_MAX_LINES - 1 {
                table@.len() as int
            } else {
                DUMP_MAX_LINES - 1
            },
        ),
{
    dump.write_line("=== Region Table Dump ===");
    let n = if table.len() < DUMP_MAX_LINES - 1 {
        table.len()
    } else {
        DUMP_MAX_LINES - 1
    };
    let ghost start = dump@;
    let mut i: usize = 0;
    while i < n
        invariant
            table.wf(),
            dump.wf(),
            n <= table@.len(),
            i <= n,
            dump@ == region_lines(start, table@, i as int),
        decreases n - i,
    {
        if let Some(r) = table.get(i) {
            let line = if r.is_available() {
                "R: free"
            } else {
                "R: bound"
            };
            dump.write_line(line);
        }
        i = i + 1;
    }
}

} // verus!
