//! Process observation: what can be observed on a host, which events a
//! configuration asks for, and the lifecycle events of a child.
//!
//! Observation is off unless a configuration is attached.

use crate::host::HostOs;
use std::collections::VecDeque;
use vstd::prelude::*;
use vstd::string::*;
use vstd::utf8::*;

pub mod descendants;
pub mod process_watch;

verus! {

/// Category of observable process activity.
#[derive(Clone, Copy, Debug, PartialEq, Eq, Hash, Structural)]
pub enum EventCategory {
    /// Start and exit of children that this library spawns.
    Lifecycle,
    /// Filesystem activity.
    File,
    /// Network activity.
    Network,
    /// Descendants created outside this library's own spawn path.
    Process,
}

impl EventCategory {
    /// All categories, in a stable order.
    pub const ALL: [EventCategory; 4] = [
        EventCategory::Lifecycle,
        EventCategory::File,
        EventCategory::Network,
        EventCategory::Process,
    ];

    /// Stable lower-case name.
    pub open spec fn spec_str(self) -> Seq<char> {
        match self {
            EventCategory::Lifecycle => "lifecycle"@,
            EventCategory::File => "file"@,
            EventCategory::Network => "network"@,
            EventCategory::Process => "process"@,
        }
    }

    /// Stable lower-case name.
    pub fn as_str(self) -> (s: &'static str)
        ensures
            s@ == self.spec_str(),
    {
        match self {
            EventCategory::Lifecycle => "lifecycle",
            EventCategory::File => "file",
            EventCategory::Network => "network",
            EventCategory::Process => "process",
        }
    }
}

/// Negotiated support level for a category.
#[derive(Clone, Copy, Debug, PartialEq, Eq, Structural)]
pub enum CapabilitySupport {
    /// Fully observable.
    Supported,
    /// Observable with documented gaps.
    Partial,
    /// Not observable.
    Unavailable,
}

impl CapabilitySupport {
    /// Stable lower-case name.
    pub open spec fn spec_str(self) -> Seq<char> {
        match self {
            CapabilitySupport::Supported => "supported"@,
            CapabilitySupport::Partial => "partial"@,
            CapabilitySupport::Unavailable => "unavailable"@,
        }
    }

    /// Stable lower-case name.
    pub fn as_str(self) -> (s: &'static str)
        ensures
            s@ == self.spec_str(),
    {
        match self {
            CapabilitySupport::Supported => "supported",
            CapabilitySupport::Partial => "partial",
            CapabilitySupport::Unavailable => "unavailable",
        }
    }
}

/// Capability report for one category.
#[derive(Clone, Copy, Debug, PartialEq, Eq)]
pub struct CategoryCapability {
    /// Category that this entry describes.
    pub category: EventCategory,
    /// Negotiated support level.
    pub support: CapabilitySupport,
    /// Backend that serves, or would serve, this category.
    pub backend: &'static str,
    /// Explanation.
    pub reason: &'static str,
}

/// Backend name and reason for a category on a host.
pub open spec fn planned_backend(os: HostOs, category: EventCategory) -> (Seq<char>, Seq<char>) {
    match category {
        EventCategory::Lifecycle => (
            "portable-lifecycle"@,
            "started/exited emitted from the crate spawn and reap path"@,
        ),
        EventCategory::File => match os {
            HostOs::Linux => (
                "seccomp-user-notify"@,
                "Phase 3: Linux seccomp user-notify file backend not yet implemented"@,
            ),
            HostOs::Windows => ("etw"@, "Phase 3: Windows ETW file backend not yet implemented"@),
            HostOs::MacOs => (
                "kqueue"@,
                "Phase 3: macOS kqueue/EndpointSecurity file backend not yet implemented (entitlement-gated)"@,
            ),
            HostOs::Other => ("none"@, "Phase 3: no file backend planned for this OS"@),
        },
        EventCategory::Network => match os {
            HostOs::Linux => ("ebpf"@, "Phase 3: Linux eBPF network backend not yet implemented"@),
            HostOs::Windows => ("etw"@, "Phase 3: Windows ETW network backend not yet implemented"@),
            HostOs::MacOs => (
                "endpoint-security"@,
                "Phase 3: macOS EndpointSecurity network backend not yet implemented (entitlement-gated)"@,
            ),
            HostOs::Other => ("none"@, "Phase 3: no network backend planned for this OS"@),
        },
        EventCategory::Process => match os {
            HostOs::Linux => (
                "seccomp-user-notify"@,
                "Phase 3: Linux seccomp user-notify process backend not yet implemented"@,
            ),
            HostOs::Windows => ("etw"@, "Phase 3: Windows ETW process backend not yet implemented"@),
            HostOs::MacOs => (
                "endpoint-security"@,
                "Phase 3: macOS EndpointSecurity process backend not yet implemented (entitlement-gated)"@,
            ),
            HostOs::Other => ("none"@, "Phase 3: no process backend planned for this OS"@),
        },
    }
}

/// Support level of a category: only the portable lifecycle is served.
pub open spec fn negotiated_support(category: EventCategory) -> CapabilitySupport {
    if category == EventCategory::Lifecycle {
        CapabilitySupport::Supported
    } else {
        CapabilitySupport::Unavailable
    }
}

/// Whether `entry` is what is negotiated for a category on a host.
pub open spec fn is_negotiated(entry: CategoryCapability, os: HostOs, category: EventCategory) -> bool {
    &&& entry.category == category
    &&& entry.support == negotiated_support(category)
    &&& entry.backend@ == planned_backend(os, category).0
    &&& entry.reason@ == planned_backend(os, category).1
}

/// The backend that would serve filesystem activity.
pub fn detect_file_backend(os: HostOs) -> (r: (CapabilitySupport, &'static str, &'static str))
    ensures
        r.0 == CapabilitySupport::Unavailable,
        r.1@ == planned_backend(os, EventCategory::File).0,
        r.2@ == planned_backend(os, EventCategory::File).1,
{
    match os {
        HostOs::Linux => (
            CapabilitySupport::Unavailable,
            "seccomp-user-notify",
            "Phase 3: Linux seccomp user-notify file backend not yet implemented",
        ),
        HostOs::Windows => (
            CapabilitySupport::Unavailable,
            "etw",
            "Phase 3: Windows ETW file backend not yet implemented",
        ),
        HostOs::MacOs => (
            CapabilitySupport::Unavailable,
            "kqueue",
            "Phase 3: macOS kqueue/EndpointSecurity file backend not yet implemented (entitlement-gated)",
        ),
        HostOs::Other => (
            CapabilitySupport::Unavailable,
            "none",
            "Phase 3: no file backend planned for this OS",
        ),
    }
}

/// The backend that would serve network activity.
pub fn detect_network_backend(os: HostOs) -> (r: (CapabilitySupport, &'static str, &'static str))
    ensures
        r.0 == CapabilitySupport::Unavailable,
        r.1@ == planned_backend(os, EventCategory::Network).0,
        r.2@ == planned_backend(os, EventCategory::Network).1,
{
    match os {
        HostOs::Linux => (
            CapabilitySupport::Unavailable,
            "ebpf",
            "Phase 3: Linux eBPF network backend not yet implemented",
        ),
        HostOs::Windows => (
            CapabilitySupport::Unavailable,
            "etw",
            "Phase 3: Windows ETW network backend not yet implemented",
        ),
        HostOs::MacOs => (
            CapabilitySupport::Unavailable,
            "endpoint-security",
            "Phase 3: macOS EndpointSecurity network backend not yet implemented (entitlement-gated)",
        ),
        HostOs::Other => (
            CapabilitySupport::Unavailable,
            "none",
            "Phase 3: no network backend planned for this OS",
        ),
    }
}

/// The backend that would serve descendant activity.
pub fn detect_process_backend(os: HostOs) -> (r: (CapabilitySupport, &'static str, &'static str))
    ensures
        r.0 == CapabilitySupport::Unavailable,
        r.1@ == planned_backend(os, EventCategory::Process).0,
        r.2@ == planned_backend(os, EventCategory::Process).1,
{
    match os {
        HostOs::Linux => (
            CapabilitySupport::Unavailable,
            "seccomp-user-notify",
            "Phase 3: Linux seccomp user-notify process backend not yet implemented",
        ),
        HostOs::Windows => (
            CapabilitySupport::Unavailable,
            "etw",
            "Phase 3: Windows ETW process backend not yet implemented",
        ),
        HostOs::MacOs => (
            CapabilitySupport::Unavailable,
            "endpoint-security",
            "Phase 3: macOS EndpointSecurity process backend not yet implemented (entitlement-gated)",
        ),
        HostOs::Other => (
            CapabilitySupport::Unavailable,
            "none",
            "Phase 3: no process backend planned for this OS",
        ),
    }
}

/// The capability matrix of a host. Each category appears exactly once.
#[derive(Clone, Debug, PartialEq, Eq)]
pub struct ObserverCapabilities {
    categories: Vec<CategoryCapability>,
}

/// Position of a category in [`EventCategory::ALL`].
pub open spec fn category_index(category: EventCategory) -> int {
    match category {
        EventCategory::Lifecycle => 0,
        EventCategory::File => 1,
        EventCategory::Network => 2,
        EventCategory::Process => 3,
    }
}

impl View for ObserverCapabilities {
    type V = Seq<CategoryCapability>;

    closed spec fn view(&self) -> Seq<CategoryCapability> {
        self.categories@
    }
}

impl ObserverCapabilities {
    /// Whether every category stands at its own position, and nothing else.
    pub open spec fn wf(&self) -> bool {
        &&& self@.len() == 4
        &&& forall|i: int|
            0 <= i < 4 ==> category_index((#[trigger] self@[i]).category) == i
    }

    /// Whether this is the matrix of `os`.
    pub open spec fn is_matrix_of(&self, os: HostOs) -> bool {
        &&& self.wf()
        &&& forall|i: int|
            0 <= i < 4 ==> is_negotiated(#[trigger] self@[i], os, self@[i].category)
    }

    /// The entry of one category on `os`.
    fn entry_for(os: HostOs, category: EventCategory) -> (entry: CategoryCapability)
        ensures
            is_negotiated(entry, os, category),
    {
        match category {
            EventCategory::Lifecycle => CategoryCapability {
                category,
                support: CapabilitySupport::Supported,
                backend: "portable-lifecycle",
                reason: "started/exited emitted from the crate spawn and reap path",
            },
            EventCategory::File => {
                let (support, backend, reason) = detect_file_backend(os);
                CategoryCapability { category, support, backend, reason }
            },
            EventCategory::Network => {
                let (support, backend, reason) = detect_network_backend(os);
                CategoryCapability { category, support, backend, reason }
            },
            EventCategory::Process => {
                let (support, backend, reason) = detect_process_backend(os);
                CategoryCapability { category, support, backend, reason }
            },
        }
    }

    /// The capability matrix of the host.
    pub fn negotiate(os: HostOs) -> (c: ObserverCapabilities)
        ensures
            c.is_matrix_of(os),
    {
        let mut categories: Vec<CategoryCapability> = Vec::new();
        categories.push(ObserverCapabilities::entry_for(os, EventCategory::Lifecycle));
        categories.push(ObserverCapabilities::entry_for(os, EventCategory::File));
        categories.push(ObserverCapabilities::entry_for(os, EventCategory::Network));
        categories.push(ObserverCapabilities::entry_for(os, EventCategory::Process));
        ObserverCapabilities { categories }
    }

    /// The entries, in the order of [`EventCategory::ALL`].
    pub fn categories(&self) -> (s: &[CategoryCapability])
        ensures
            s@ == self@,
    {
        self.categories.as_slice()
    }

    /// The entry of one category.
    pub fn category(&self, category: EventCategory) -> (entry: &CategoryCapability)
        requires
            self.wf(),
        ensures
            entry.category == category,
            *entry == self@[category_index(category)],
    {
        let index: usize = match category {
            EventCategory::Lifecycle => 0,
            EventCategory::File => 1,
            EventCategory::Network => 2,
            EventCategory::Process => 3,
        };
        assert(category_index(self@[index as int].category) == index);
        &self.categories[index]
    }

    /// The support level of one category.
    pub fn support(&self, category: EventCategory) -> (s: CapabilitySupport)
        requires
            self.wf(),
        ensures
            s == self@[category_index(category)].support,
    {
        self.category(category).support
    }

    /// Whether a category is fully supported.
    pub fn is_supported(&self, category: EventCategory) -> (b: bool)
        requires
            self.wf(),
        ensures
            b == (self@[category_index(category)].support == CapabilitySupport::Supported),
    {
        self.support(category) == CapabilitySupport::Supported
    }

    /// The matrix as rows `[category, support, backend, reason]`.
    pub fn to_table_rows(&self) -> (rows: Vec<[String; 4]>)
        ensures
            rows@.len() == self@.len(),
            forall|i: int|
                0 <= i < self@.len() ==> row_text(#[trigger] rows@[i]) == entry_row(self@[i]),
    {
        let mut rows: Vec<[String; 4]> = Vec::new();
        let mut i: usize = 0;
        while i < self.categories.len()
            invariant
                i <= self.categories@.len(),
                rows@.len() == i,
                forall|j: int|
                    0 <= j < i ==> row_text(#[trigger] rows@[j]) == entry_row(self@[j]),
            decreases self.categories@.len() - i,
        {
            let entry: &CategoryCapability = &self.categories[i];
            let row: [String; 4] = [
                entry.category.as_str().to_owned(),
                entry.support.as_str().to_owned(),
                entry.backend.to_owned(),
                entry.reason.to_owned(),
            ];
            assert(row_text(row) =~= entry_row(*entry));
            rows.push(row);
            i = i + 1;
        }
        rows
    }

    /// The matrix as aligned text, one line per category.
    pub fn render_summary(&self) -> (out: String)
        ensures
            out@ == summary_text(self@),
    {
        let rows = self.to_table_rows();
        let ghost cells = Seq::new(rows@.len(), |i: int| row_text(rows@[i]));
        proof {
            assert(cells =~= summary_rows(self@));
        }
        let category_width: usize = column_width(&rows, 0);
        let support_width: usize = column_width(&rows, 1);
        let backend_width: usize = column_width(&rows, 2);
        let mut out: String = String::new();
        out.append("observer capabilities:\n");
        let ghost head = out@;
        let ghost widths = (category_width as nat, support_width as nat, backend_width as nat);
        let mut i: usize = 0;
        assert(cells.take(0) =~= Seq::<Seq<Seq<char>>>::empty());
        assert(head =~= head + summary_lines(cells.take(0), widths));
        assert(head =~= "observer capabilities:\n"@);
        while i < rows.len()
            invariant
                i <= rows@.len(),
                cells.len() == rows@.len(),
                forall|j: int| 0 <= j < cells.len() ==> #[trigger] cells[j] == row_text(rows@[j]),
                widths == (category_width as nat, support_width as nat, backend_width as nat),
                out@ == head + summary_lines(cells.take(i as int), widths),
            decreases rows@.len() - i,
        {
            let line = summary_line_of(&rows[i], category_width, support_width, backend_width);
            let ghost before = out@;
            out.append(line.as_str());
            proof {
                assert(cells.take(i as int + 1).drop_last() =~= cells.take(i as int));
                assert(cells.take(i as int + 1).last() == row_text(rows@[i as int]));
                assert((head + summary_lines(cells.take(i as int), widths)) + line@ =~= head + (
                summary_lines(cells.take(i as int), widths) + line@));
            }
            i = i + 1;
        }
        assert(cells.take(cells.len() as int) =~= cells);
        out
    }
}

/// The text of a row.
pub open spec fn row_text(row: [String; 4]) -> Seq<Seq<char>> {
    seq![row@[0]@, row@[1]@, row@[2]@, row@[3]@]
}

/// The cells of one entry.
pub open spec fn entry_row(entry: CategoryCapability) -> Seq<Seq<char>> {
    seq![entry.category.spec_str(), entry.support.spec_str(), entry.backend@, entry.reason@]
}

/// The cells of all entries.
pub open spec fn summary_rows(entries: Seq<CategoryCapability>) -> Seq<Seq<Seq<char>>> {
    Seq::new(entries.len(), |i: int| entry_row(entries[i]))
}

/// Longest cell of a column, in UTF-8 bytes.
pub open spec fn spec_column_width(rows: Seq<Seq<Seq<char>>>, column: int) -> nat
    decreases rows.len(),
{
    if rows.len() == 0 {
        0
    } else {
        let others = spec_column_width(rows.drop_last(), column);
        let own = encode_utf8(rows.last()[column]).len();
        if own > others {
            own
        } else {
            others
        }
    }
}

/// `n` spaces.
pub open spec fn spaces(n: nat) -> Seq<char> {
    Seq::new(n, |i: int| ' ')
}

/// A cell, filled up with spaces on the right.
pub open spec fn padded(cell: Seq<char>, width: nat) -> Seq<char> {
    if cell.len() < width {
        cell + spaces((width - cell.len()) as nat)
    } else {
        cell
    }
}

/// One line of the summary.
pub open spec fn summary_line(row: Seq<Seq<char>>, widths: (nat, nat, nat)) -> Seq<char> {
    "  "@ + padded(row[0], widths.0) + "  "@ + padded(row[1], widths.1) + "  "@ + padded(
        row[2],
        widths.2,
    ) + "  "@ + row[3] + "\n"@
}

/// The lines of the summary.
pub open spec fn summary_lines(rows: Seq<Seq<Seq<char>>>, widths: (nat, nat, nat)) -> Seq<char>
    decreases rows.len(),
{
    if rows.len() == 0 {
        Seq::empty()
    } else {
        summary_lines(rows.drop_last(), widths) + summary_line(rows.last(), widths)
    }
}

/// What [`ObserverCapabilities::render_summary`] renders.
pub open spec fn summary_text(entries: Seq<CategoryCapability>) -> Seq<char> {
    let rows = summary_rows(entries);
    "observer capabilities:\n"@ + summary_lines(
        rows,
        (spec_column_width(rows, 0), spec_column_width(rows, 1), spec_column_width(rows, 2)),
    )
}

fn column_width(rows: &Vec<[String; 4]>, column: usize) -> (w: usize)
    requires
        column < 4,
    ensures
        w == spec_column_width(
            Seq::new(rows@.len(), |i: int| row_text(rows@[i])),
            column as int,
        ),
{
    let ghost cells = Seq::new(rows@.len(), |i: int| row_text(rows@[i]));
    let mut width: usize = 0;
    let mut i: usize = 0;
    while i < rows.len()
        invariant
            i <= rows@.len(),
            column < 4,
            cells.len() == rows@.len(),
            forall|j: int| 0 <= j < cells.len() ==> #[trigger] cells[j] == row_text(rows@[j]),
            width == spec_column_width(cells.take(i as int), column as int),
        decreases rows@.len() - i,
    {
        let row: &[String; 4] = &rows[i];
        let own: usize = row[column].as_str().as_bytes().len();
        proof {
            assert(cells.take(i as int + 1).drop_last() =~= cells.take(i as int));
            assert(cells[i as int][column as int] == row@[column as int]@);
        }
        if own > width {
            width = own;
        }
        i = i + 1;
    }
    assert(cells.take(cells.len() as int) =~= cells);
    width
}

fn summary_line_of(
    row: &[String; 4],
    category_width: usize,
    support_width: usize,
    backend_width: usize,
) -> (line: String)
    ensures
        line@ == summary_line(
            row_text(*row),
            (category_width as nat, support_width as nat, backend_width as nat),
        ),
{
    let mut line: String = "  ".to_owned();
    append_padded(&mut line, row[0].as_str(), category_width);
    line.append("  ");
    append_padded(&mut line, row[1].as_str(), support_width);
    line.append("  ");
    append_padded(&mut line, row[2].as_str(), backend_width);
    line.append("  ");
    line.append(row[3].as_str());
    line.append("\n");
    line
}

fn append_padded(out: &mut String, cell: &str, width: usize)
    ensures
        final(out)@ == old(out)@ + padded(cell@, width as nat),
{
    let length: usize = cell.unicode_len();
    out.append(cell);
    let ghost start = out@;
    let mut filled: usize = length;
    assert(start =~= start + spaces(0));
    while filled < width
        invariant
            length <= filled,
            filled <= width || filled == length,
            out@ == start + spaces((filled - length) as nat),
        decreases width - filled,
    {
        out.push(' ');
        filled = filled + 1;
        assert(out@ =~= start + spaces((filled - length) as nat));
    }
    assert(out@ =~= old(out)@ + padded(cell@, width as nat));
}

/// Where a column of the summary begins in every line.
pub open spec fn column_offset(rows: Seq<Seq<Seq<char>>>, column: int) -> nat
    decreases column,
{
    if column <= 0 {
        2
    } else {
        column_offset(rows, column - 1) + spec_column_width(rows, column - 1) + 2
    }
}

proof fn lemma_utf8_is_no_shorter(chars: Seq<char>)
    ensures
        chars.len() <= encode_utf8(chars).len(),
    decreases chars.len(),
{
    if chars.len() > 0 {
        lemma_utf8_is_no_shorter(chars.drop_first());
    }
}

proof fn lemma_cell_fits(rows: Seq<Seq<Seq<char>>>, column: int, i: int)
    requires
        0 <= i < rows.len(),
    ensures
        rows[i][column].len() <= spec_column_width(rows, column),
    decreases rows.len(),
{
    lemma_utf8_is_no_shorter(rows[i][column]);
    if i < rows.len() - 1 {
        lemma_cell_fits(rows.drop_last(), column, i);
    }
}

/// Every line of the summary has its four cells unchanged, each column at the
/// same offset in every line and at least two spaces after the longest cell
/// before it, nothing but spaces between the cells, and ends with a line break.
#[verifier::rlimit(40)]
pub proof fn law_summary_lines_are_aligned(rows: Seq<Seq<Seq<char>>>, i: int)
    requires
        0 <= i < rows.len(),
        rows[i].len() == 4,
    ensures
        ({
            let widths = (
                spec_column_width(rows, 0),
                spec_column_width(rows, 1),
                spec_column_width(rows, 2),
            );
            let line = summary_line(rows[i], widths);
            &&& forall|c: int|
                0 <= c < 4 ==> line.subrange(
                    #[trigger] column_offset(rows, c) as int,
                    (column_offset(rows, c) + rows[i][c].len()) as int,
                ) == rows[i][c]
            &&& forall|c: int|
                0 <= c < 3 ==> (#[trigger] column_offset(rows, c)) + rows[i][c].len() + 2
                    <= column_offset(rows, c + 1)
            &&& forall|c: int, k: int|
                0 <= c < 3 && #[trigger] column_offset(rows, c) + rows[i][c].len() <= k
                    < column_offset(rows, c + 1) ==> #[trigger] line[k] == ' '
            &&& line[0] == ' ' && line[1] == ' '
            &&& line.len() == column_offset(rows, 3) + rows[i][3].len() + 1
            &&& line.last() == '\n'
        }),
{
    reveal_with_fuel(column_offset, 4);
    reveal_strlit("  ");
    reveal_strlit("\n");
    let row = rows[i];
    let w0 = spec_column_width(rows, 0);
    let w1 = spec_column_width(rows, 1);
    let w2 = spec_column_width(rows, 2);
    lemma_cell_fits(rows, 0, i);
    lemma_cell_fits(rows, 1, i);
    lemma_cell_fits(rows, 2, i);
    let line = summary_line(row, (w0, w1, w2));
    assert(padded(row[0], w0).len() == w0);
    assert(padded(row[1], w1).len() == w1);
    assert(padded(row[2], w2).len() == w2);
    assert(line.subrange(2, (2 + row[0].len()) as int) =~= row[0]);
    assert(line.subrange((4 + w0) as int, (4 + w0 + row[1].len()) as int) =~= row[1]);
    assert(line.subrange((6 + w0 + w1) as int, (6 + w0 + w1 + row[2].len()) as int) =~= row[2]);
    assert(line.subrange((8 + w0 + w1 + w2) as int, (8 + w0 + w1 + w2 + row[3].len()) as int)
        =~= row[3]);
    assert forall|c: int|
        0 <= c < 4 implies line.subrange(
        #[trigger] column_offset(rows, c) as int,
        (column_offset(rows, c) + row[c].len()) as int,
    ) == row[c] by {
        assert(c == 0 || c == 1 || c == 2 || c == 3);
    }
    assert forall|c: int, k: int|
        0 <= c < 3 && #[trigger] column_offset(rows, c) + row[c].len() <= k < column_offset(
            rows,
            c + 1,
        ) implies #[trigger] line[k] == ' ' by {
        assert(c == 0 || c == 1 || c == 2);
    }
}

/// The summary is its headline and then one line per row, in the order of the
/// rows.
pub proof fn law_summary_has_a_line_per_row(entries: Seq<CategoryCapability>, i: int)
    requires
        0 <= i < entries.len(),
    ensures
        ({
            let rows = summary_rows(entries);
            let widths = (
                spec_column_width(rows, 0),
                spec_column_width(rows, 1),
                spec_column_width(rows, 2),
            );
            let head = "observer capabilities:\n"@;
            let start = head.len() + summary_lines(rows.take(i), widths).len();
            let end = head.len() + summary_lines(rows.take(i + 1), widths).len();
            &&& summary_text(entries).take(head.len() as int) == head
            &&& 0 <= start <= end <= summary_text(entries).len()
            &&& summary_text(entries).subrange(start as int, end as int) == summary_line(
                rows[i],
                widths,
            )
            &&& i == entries.len() - 1 ==> end == summary_text(entries).len()
        }),
{
    let rows = summary_rows(entries);
    let widths = (spec_column_width(rows, 0), spec_column_width(rows, 1), spec_column_width(rows, 2));
    let head = "observer capabilities:\n"@;
    let text = summary_text(entries);
    lemma_lines_begin(rows, widths, i);
    lemma_lines_begin(rows, widths, i + 1);
    let upto = summary_lines(rows.take(i), widths);
    let past = summary_lines(rows.take(i + 1), widths);
    let all = summary_lines(rows, widths);
    assert(rows.take(i + 1).drop_last() =~= rows.take(i));
    assert(past == upto + summary_line(rows[i], widths));
    assert(text =~= head + all);
    assert(text.take(head.len() as int) =~= head);
    assert(text.subrange((head.len() + upto.len()) as int, (head.len() + past.len()) as int)
        =~= all.subrange(upto.len() as int, past.len() as int));
    assert(all.subrange(upto.len() as int, past.len() as int) =~= past.skip(upto.len() as int));
    assert(past.skip(upto.len() as int) =~= summary_line(rows[i], widths));
    assert(rows.take(rows.len() as int) =~= rows);
}

proof fn lemma_lines_begin(rows: Seq<Seq<Seq<char>>>, widths: (nat, nat, nat), n: int)
    requires
        0 <= n <= rows.len(),
    ensures
        summary_lines(rows.take(n), widths).len() <= summary_lines(rows, widths).len(),
        summary_lines(rows, widths).take(summary_lines(rows.take(n), widths).len() as int)
            == summary_lines(rows.take(n), widths),
    decreases rows.len(),
{
    if n == rows.len() {
        assert(rows.take(n) =~= rows);
        assert(summary_lines(rows, widths).take(summary_lines(rows, widths).len() as int)
            =~= summary_lines(rows, widths));
    } else {
        let front = rows.drop_last();
        lemma_lines_begin(front, widths, n);
        assert(front.take(n) =~= rows.take(n));
        let len = summary_lines(rows.take(n), widths).len() as int;
        assert(summary_lines(rows, widths).take(len) =~= summary_lines(front, widths).take(len));
    }
}

/// Every category is reported, and only the lifecycle is supported.
pub proof fn law_matrix_covers_every_category(c: ObserverCapabilities, os: HostOs, category: EventCategory)
    requires
        c.is_matrix_of(os),
    ensures
        is_negotiated(c@[category_index(category)], os, category),
        forall|i: int|
            0 <= i < 4 && (#[trigger] c@[i]).category == category ==> i == category_index(category),
        c@[category_index(category)].support == CapabilitySupport::Supported <==> category
            == EventCategory::Lifecycle,
{
    let i = category_index(category);
    assert(category_index(c@[i].category) == i);
}

/// What happened to an observed process.
#[derive(Clone, Copy, Debug, PartialEq, Eq, Structural)]
pub enum ObserverEventKind {
    /// The child was spawned.
    Started,
    /// The child exited.
    Exited {
        /// Exit code; signal exits are negative signal numbers.
        exit_code: i32,
    },
    /// A descendant appeared.
    DescendantStarted,
    /// A descendant is gone.
    DescendantExited,
}

impl ObserverEventKind {
    /// Stable lower-case name.
    pub open spec fn spec_str(self) -> Seq<char> {
        match self {
            ObserverEventKind::Started => "started"@,
            ObserverEventKind::Exited { .. } => "exited"@,
            ObserverEventKind::DescendantStarted => "descendant_started"@,
            ObserverEventKind::DescendantExited => "descendant_exited"@,
        }
    }

    /// Stable lower-case name.
    pub fn as_str(&self) -> (s: &'static str)
        ensures
            s@ == self.spec_str(),
    {
        match self {
            ObserverEventKind::Started => "started",
            ObserverEventKind::Exited { .. } => "exited",
            ObserverEventKind::DescendantStarted => "descendant_started",
            ObserverEventKind::DescendantExited => "descendant_exited",
        }
    }
}

/// One observation.
#[derive(Clone, Copy, Debug, PartialEq, Eq, Structural)]
pub struct ObserverEvent {
    /// Category that produced the event.
    pub category: EventCategory,
    /// What happened.
    pub kind: ObserverEventKind,
    /// Process that it happened to.
    pub pid: u32,
    /// Milliseconds since the Unix epoch.
    pub timestamp_ms: u128,
}

/// The categories that a caller asked to observe.
#[derive(Clone, Debug, PartialEq, Eq)]
pub struct ObserverConfig {
    categories: Vec<EventCategory>,
}

impl View for ObserverConfig {
    type V = Seq<EventCategory>;

    closed spec fn view(&self) -> Seq<EventCategory> {
        self.categories@
    }
}

impl ObserverConfig {
    /// Observes only the lifecycle.
    pub fn lifecycle() -> (c: ObserverConfig)
        ensures
            c@ == seq![EventCategory::Lifecycle],
    {
        let mut categories: Vec<EventCategory> = Vec::new();
        categories.push(EventCategory::Lifecycle);
        assert(categories@ =~= seq![EventCategory::Lifecycle]);
        ObserverConfig { categories }
    }

    /// Observes an explicit list of categories.
    pub fn with_categories(categories: Vec<EventCategory>) -> (c: ObserverConfig)
        ensures
            c@ == categories@,
    {
        ObserverConfig { categories }
    }

    /// Whether `category` was asked for.
    pub fn observes(&self, category: EventCategory) -> (b: bool)
        ensures
            b == self@.contains(category),
    {
        let mut i: usize = 0;
        while i < self.categories.len()
            invariant
                i <= self.categories@.len(),
                forall|j: int| 0 <= j < i ==> self.categories@[j] != category,
            decreases self.categories@.len() - i,
        {
            if self.categories[i] == category {
                assert(self@[i as int] == category);
                return true;
            }
            i = i + 1;
        }
        false
    }

    /// The categories that were asked for, in order.
    pub fn categories(&self) -> (s: &[EventCategory])
        ensures
            s@ == self@,
    {
        self.categories.as_slice()
    }
}

/// What waiting for the next event gave.
#[derive(Clone, Copy, Debug, PartialEq, Eq, Structural)]
pub enum Received {
    /// The next event.
    Event(ObserverEvent),
    /// No event yet; more may come.
    Pending,
    /// No event will come any more.
    Closed,
}

/// The receiving side of an observation: events in the order of their emission,
/// and whether the emitter is gone.
#[derive(Clone, Debug, PartialEq, Eq)]
pub struct ObserverSubscriber {
    queue: VecDeque<ObserverEvent>,
    closed: bool,
}

impl View for ObserverSubscriber {
    type V = Seq<ObserverEvent>;

    closed spec fn view(&self) -> Seq<ObserverEvent> {
        self.queue@
    }
}

/// What taking the next event gives of a queue, and the queue after it.
pub open spec fn received(queue: Seq<ObserverEvent>) -> (Option<ObserverEvent>, Seq<ObserverEvent>) {
    if queue.len() > 0 {
        (Some(queue[0]), queue.skip(1))
    } else {
        (None, queue)
    }
}

/// What taking all events gives of a queue, and the queue after it.
pub open spec fn drained(queue: Seq<ObserverEvent>) -> (Seq<ObserverEvent>, Seq<ObserverEvent>) {
    (queue, Seq::empty())
}

/// Draining gives everything that is queued, in its order; afterwards there is
/// no next event, and draining again gives nothing.
pub proof fn law_drain_takes_everything_once(queue: Seq<ObserverEvent>)
    ensures
        drained(queue).0 == queue,
        received(drained(queue).1).0 is None,
        drained(drained(queue).1).0.len() == 0,
{
}

impl ObserverSubscriber {
    /// Whether the emitter is gone.
    pub closed spec fn is_closed(&self) -> bool {
        self.closed
    }

    /// A subscriber without events.
    pub fn new() -> (s: ObserverSubscriber)
        ensures
            s@ == Seq::<ObserverEvent>::empty(),
            !s.is_closed(),
    {
        ObserverSubscriber { queue: VecDeque::new(), closed: false }
    }

    /// Hands an event over. Nothing is kept once the emitter is gone.
    pub fn deliver(&mut self, event: ObserverEvent)
        ensures
            final(self).is_closed() == old(self).is_closed(),
            final(self)@ == (if old(self).is_closed() {
                old(self)@
            } else {
                old(self)@.push(event)
            }),
    {
        if !self.closed {
            self.queue.push_back(event);
        }
    }

    /// Records that no more events will come.
    pub fn close(&mut self)
        ensures
            final(self).is_closed(),
            final(self)@ == old(self)@,
    {
        self.closed = true;
    }

    /// The next event; otherwise whether waiting for one makes sense.
    pub fn recv(&mut self) -> (r: Received)
        ensures
            final(self).is_closed() == old(self).is_closed(),
            r == (if old(self)@.len() > 0 {
                Received::Event(old(self)@[0])
            } else if old(self).is_closed() {
                Received::Closed
            } else {
                Received::Pending
            }),
            final(self)@ == (if old(self)@.len() > 0 {
                old(self)@.skip(1)
            } else {
                old(self)@
            }),
    {
        match self.queue.pop_front() {
            Some(event) => {
                assert(self.queue@ =~= old(self)@.skip(1));
                Received::Event(event)
            },
            None => if self.closed {
                Received::Closed
            } else {
                Received::Pending
            },
        }
    }

    /// The next event, if one is queued.
    pub fn try_recv(&mut self) -> (r: Option<ObserverEvent>)
        ensures
            final(self).is_closed() == old(self).is_closed(),
            (r, final(self)@) == received(old(self)@),
    {
        match self.queue.pop_front() {
            Some(event) => {
                assert(self.queue@ =~= old(self)@.skip(1));
                Some(event)
            },
            None => None,
        }
    }

    /// Takes all queued events.
    pub fn drain(&mut self) -> (events: Vec<ObserverEvent>)
        ensures
            (events@, final(self)@) == drained(old(self)@),
            final(self).is_closed() == old(self).is_closed(),
    {
        let mut events: Vec<ObserverEvent> = Vec::new();
        assert(events@ + self.queue@ =~= old(self)@);
        while self.queue.len() > 0
            invariant
                events@ + self.queue@ == old(self)@,
                self.closed == old(self).closed,
            decreases self.queue@.len(),
        {
            let ghost before = self.queue@;
            if let Some(event) = self.queue.pop_front() {
                events.push(event);
                assert(events@ + self.queue@ =~= old(self)@);
            }
        }
        assert(events@ =~= old(self)@);
        assert(self.queue@ =~= Seq::<ObserverEvent>::empty());
        events
    }

    /// The queued events.
    pub fn receiver(&self) -> (q: &VecDeque<ObserverEvent>)
        ensures
            q@ == self@,
    {
        &self.queue
    }
}

/// The emitting side of an observation.
#[derive(Clone, Debug, PartialEq, Eq)]
pub struct ObserverEmitter {
    config: ObserverConfig,
    exit_emitted: bool,
}

/// A queue after the spawn of the child was reported to it.
pub open spec fn with_started(
    queue: Seq<ObserverEvent>,
    categories: Seq<EventCategory>,
    closed: bool,
    pid: u32,
    timestamp_ms: u128,
) -> Seq<ObserverEvent> {
    if categories.contains(EventCategory::Lifecycle) && !closed {
        queue.push(
            ObserverEvent {
                category: EventCategory::Lifecycle,
                kind: ObserverEventKind::Started,
                pid,
                timestamp_ms,
            },
        )
    } else {
        queue
    }
}

/// A queue after an exit of the child was reported to it; `reported` tells
/// whether one was before.
pub open spec fn with_exited(
    queue: Seq<ObserverEvent>,
    categories: Seq<EventCategory>,
    closed: bool,
    reported: bool,
    pid: u32,
    exit_code: i32,
    timestamp_ms: u128,
) -> Seq<ObserverEvent> {
    if !reported && categories.contains(EventCategory::Lifecycle) && !closed {
        queue.push(
            ObserverEvent {
                category: EventCategory::Lifecycle,
                kind: ObserverEventKind::Exited { exit_code },
                pid,
                timestamp_ms,
            },
        )
    } else {
        queue
    }
}

/// What a subscriber has queued after a whole run of a child: its start, and
/// then every report of its exit, each with the code and the time that it saw.
pub open spec fn run_events(
    categories: Seq<EventCategory>,
    pid: u32,
    started_ms: u128,
    exits: Seq<(i32, u128)>,
) -> Seq<ObserverEvent>
    decreases exits.len(),
{
    if exits.len() == 0 {
        with_started(Seq::empty(), categories, false, pid, started_ms)
    } else {
        with_exited(
            run_events(categories, pid, started_ms, exits.drop_last()),
            categories,
            false,
            exits.len() > 1,
            pid,
            exits.last().0,
            exits.last().1,
        )
    }
}

/// However many paths see the exit, a whole run that is observed for its
/// lifecycle queues one start and then one exit, the first that was seen. A run
/// that is not queues nothing.
pub proof fn law_a_run_is_one_start_and_one_exit(
    categories: Seq<EventCategory>,
    pid: u32,
    started_ms: u128,
    exits: Seq<(i32, u128)>,
)
    requires
        exits.len() >= 1,
    ensures
        run_events(categories, pid, started_ms, exits) == if categories.contains(
            EventCategory::Lifecycle,
        ) {
            seq![
                ObserverEvent {
                    category: EventCategory::Lifecycle,
                    kind: ObserverEventKind::Started,
                    pid,
                    timestamp_ms: started_ms,
                },
                ObserverEvent {
                    category: EventCategory::Lifecycle,
                    kind: ObserverEventKind::Exited { exit_code: exits[0].0 },
                    pid,
                    timestamp_ms: exits[0].1,
                },
            ]
        } else {
            Seq::empty()
        },
    decreases exits.len(),
{
    if exits.len() > 1 {
        law_a_run_is_one_start_and_one_exit(categories, pid, started_ms, exits.drop_last());
    } else {
        assert(run_events(categories, pid, started_ms, exits.drop_last()) == with_started(
            Seq::empty(),
            categories,
            false,
            pid,
            started_ms,
        ));
    }
}

impl ObserverEmitter {
    /// The categories that are observed.
    pub closed spec fn categories(&self) -> Seq<EventCategory> {
        self.config@
    }

    /// Whether the exit of the child was reported.
    pub closed spec fn has_exited(&self) -> bool {
        self.exit_emitted
    }

    /// An emitter and the subscriber that it feeds.
    pub fn new(config: ObserverConfig) -> (r: (ObserverEmitter, ObserverSubscriber))
        ensures
            r.0.categories() == config@,
            !r.0.has_exited(),
            r.1@ == Seq::<ObserverEvent>::empty(),
            !r.1.is_closed(),
    {
        (ObserverEmitter { config, exit_emitted: false }, ObserverSubscriber::new())
    }

    /// Reports that the child was spawned, if the lifecycle is observed.
    pub fn emit_started(&self, subscriber: &mut ObserverSubscriber, pid: u32, timestamp_ms: u128)
        ensures
            final(subscriber).is_closed() == old(subscriber).is_closed(),
            final(subscriber)@ == with_started(
                old(subscriber)@,
                self.categories(),
                old(subscriber).is_closed(),
                pid,
                timestamp_ms,
            ),
    {
        if self.config.observes(EventCategory::Lifecycle) {
            subscriber.deliver(
                ObserverEvent {
                    category: EventCategory::Lifecycle,
                    kind: ObserverEventKind::Started,
                    pid,
                    timestamp_ms,
                },
            );
        }
    }

    /// Reports that the child exited, if the lifecycle is observed. Only the
    /// first report counts, whichever path sees the exit first.
    pub fn emit_exited(
        &mut self,
        subscriber: &mut ObserverSubscriber,
        pid: u32,
        exit_code: i32,
        timestamp_ms: u128,
    )
        ensures
            final(self).categories() == old(self).categories(),
            final(self).has_exited(),
            final(subscriber).is_closed() == old(subscriber).is_closed(),
            final(subscriber)@ == with_exited(
                old(subscriber)@,
                old(self).categories(),
                old(subscriber).is_closed(),
                old(self).has_exited(),
                pid,
                exit_code,
                timestamp_ms,
            ),
    {
        if self.exit_emitted {
            return;
        }
        self.exit_emitted = true;
        if self.config.observes(EventCategory::Lifecycle) {
            subscriber.deliver(
                ObserverEvent {
                    category: EventCategory::Lifecycle,
                    kind: ObserverEventKind::Exited { exit_code },
                    pid,
                    timestamp_ms,
                },
            );
        }
    }
}

/// Events are received in the order in which they were queued: the next one is the
/// oldest, and it and what stays are what was there.
pub proof fn law_events_are_received_in_order(queue: Seq<ObserverEvent>)
    ensures
        received(queue).0 is Some <==> queue.len() > 0,
        received(queue).0 matches Some(event) ==> seq![event] + received(queue).1 == queue,
        received(queue).0 is None ==> received(queue).1 == queue,
{
    if queue.len() > 0 {
        assert(seq![queue[0]] + queue.skip(1) =~= queue);
    }
}

/// A start and an exit are queued behind what waits, with their process, time and code,
/// exactly where the lifecycle is observed by someone who still listens; an exit only
/// where none was reported before.
pub proof fn law_lifecycle_events_are_queued(
    queue: Seq<ObserverEvent>,
    categories: Seq<EventCategory>,
    closed: bool,
    reported: bool,
    pid: u32,
    exit_code: i32,
    now: u128,
)
    ensures
        ({
            let wanted = categories.contains(EventCategory::Lifecycle) && !closed;
            let started = with_started(queue, categories, closed, pid, now);
            let exited = with_exited(queue, categories, closed, reported, pid, exit_code, now);
            &&& !wanted ==> started == queue && exited == queue
            &&& reported ==> exited == queue
            &&& wanted ==> started.drop_last() == queue && started.last() == (ObserverEvent {
                category: EventCategory::Lifecycle,
                kind: ObserverEventKind::Started,
                pid,
                timestamp_ms: now,
            })
            &&& wanted && !reported ==> exited.drop_last() == queue && exited.last() == (
            ObserverEvent {
                category: EventCategory::Lifecycle,
                kind: ObserverEventKind::Exited { exit_code },
                pid,
                timestamp_ms: now,
            })
        }),
{
    let started = with_started(queue, categories, closed, pid, now);
    let exited = with_exited(queue, categories, closed, reported, pid, exit_code, now);
    if categories.contains(EventCategory::Lifecycle) && !closed {
        assert(started.drop_last() =~= queue);
        if !reported {
            assert(exited.drop_last() =~= queue);
        }
    }
}

} // verus!
