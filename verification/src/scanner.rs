use vstd::prelude::*;

use crate::key::{key_at, spec_key_at, Key};

verus! {

/// The electrical state of the keypad grid: which of the sixteen row/column
/// contacts is mechanically closed at this instant.
///
/// The scanner owns the grid's lines but not its contacts; the contacts are
/// the outside world, so a poll takes the matrix as an explicit argument and
/// the scanner's contract is stated over it.
pub struct ContactMatrix {
    pub closed: [bool; 16],
}

impl ContactMatrix {
    /// Whether the contact at `(row, col)` is closed.
    pub open spec fn closed_at(self, row: int, col: int) -> bool
        recommends
            0 <= row < 4,
            0 <= col < 4,
    {
        self.closed@[row * 4 + col]
    }

    /// A grid with every contact open.
    pub fn new() -> (m: ContactMatrix)
        ensures
            forall|r: int, c: int| 0 <= r < 4 && 0 <= c < 4 ==> !m.closed_at(r, c),
    {
        ContactMatrix { closed: [false; 16] }
    }

    /// Closes or opens the contact at `(row, col)`, leaving every other
    /// contact as it was.
    pub fn set(&mut self, row: usize, col: usize, is_closed: bool)
        requires
            row < 4,
            col < 4,
        ensures
            final(self).closed_at(row as int, col as int) == is_closed,
            forall|r: int, c: int|
                0 <= r < 4 && 0 <= c < 4 && !(r == row && c == col) ==> final(self).closed_at(
                    r,
                    c,
                ) == old(self).closed_at(r, c),
    {
        self.closed[row * 4 + col] = is_closed;
    }

    /// Reads the contact at `(row, col)`.
    pub fn is_closed(&self, row: usize, col: usize) -> (b: bool)
        requires
            row < 4,
            col < 4,
        ensures
            b == self.closed_at(row as int, col as int),
    {
        self.closed[row * 4 + col]
    }
}

/// Whether some contact in row `r` is closed.
pub open spec fn row_has_contact(m: ContactMatrix, r: int) -> bool
    recommends
        0 <= r < 4,
{
    m.closed_at(r, 0) || m.closed_at(r, 1) || m.closed_at(r, 2) || m.closed_at(r, 3)
}

/// Whether any contact of the grid is closed.
pub open spec fn any_contact(m: ContactMatrix) -> bool {
    row_has_contact(m, 0) || row_has_contact(m, 1) || row_has_contact(m, 2) || row_has_contact(
        m,
        3,
    )
}

/// The lowest-indexed row with a closed contact, or 4 when the grid is idle.
/// The scan visits rows in this order and stops at the first hit, so this
/// row is the one a poll reports.
pub open spec fn first_contact_row(m: ContactMatrix) -> int {
    if row_has_contact(m, 0) {
        0
    } else if row_has_contact(m, 1) {
        1
    } else if row_has_contact(m, 2) {
        2
    } else if row_has_contact(m, 3) {
        3
    } else {
        4
    }
}

/// The lowest-indexed closed column within row `r`, or 4 when the row is
/// idle; columns are sampled in this order.
pub open spec fn first_contact_col(m: ContactMatrix, r: int) -> int
    recommends
        0 <= r < 4,
{
    if m.closed_at(r, 0) {
        0
    } else if m.closed_at(r, 1) {
        1
    } else if m.closed_at(r, 2) {
        2
    } else {
        3
    }
}

/// What a poll of the grid returns: the key at the first active position in
/// row-major scan order, or nothing when no contact is closed.
pub open spec fn spec_poll(m: ContactMatrix) -> Option<Key> {
    if any_contact(m) {
        let r = first_contact_row(m);
        Some(spec_key_at(r, first_contact_col(m, r)))
    } else {
        None
    }
}

/// The matrix keypad scanner. It owns the four row lines (driven, push-pull)
/// and the four column lines (pull-down inputs); `rows` holds the level each
/// row line is currently driven to.
pub struct KeyPad {
    pub rows: [bool; 4],
}

impl KeyPad {
    /// The level row line `r` is currently driven to.
    pub open spec fn row_level(self, r: int) -> bool
        recommends
            0 <= r < 4,
    {
        self.rows@[r]
    }

    /// All row lines are driven low: the scanner is between polls.
    pub open spec fn idle(self) -> bool {
        forall|i: int| 0 <= i < 4 ==> !self.row_level(i)
    }

    /// Exactly row `r` is driven high; rows are never simultaneously active.
    pub open spec fn only_row(self, r: int) -> bool {
        forall|i: int| 0 <= i < 4 ==> self.row_level(i) == (i == r)
    }

    /// A scanner with all four row lines driven low.
    pub fn new() -> (kp: KeyPad)
        ensures
            kp.idle(),
    {
        KeyPad { rows: [false, false, false, false] }
    }

    /// Drives row `r` high and every other row low.
    fn drive_only(&mut self, r: usize)
        requires
            r < 4,
        ensures
            final(self).only_row(r as int),
    {
        self.rows = [r == 0, r == 1, r == 2, r == 3];
    }

    /// Drives every row low.
    fn drive_none(&mut self)
        ensures
            final(self).idle(),
    {
        self.rows = [false, false, false, false];
    }

    /// What column line `c` reads: high exactly when some driven row reaches
    /// it through a closed contact; the pull-down keeps it low otherwise.
    pub open spec fn col_reads_high(self, m: ContactMatrix, c: int) -> bool
        recommends
            0 <= c < 4,
    {
        (self.row_level(0) && m.closed_at(0, c)) || (self.row_level(1) && m.closed_at(1, c)) || (
        self.row_level(2) && m.closed_at(2, c)) || (self.row_level(3) && m.closed_at(3, c))
    }

    /// Samples column line `c` under the current row drive levels.
    fn read_column(&self, m: &ContactMatrix, c: usize) -> (level: bool)
        requires
            c < 4,
        ensures
            level == self.col_reads_high(*m, c as int),
    {
        (self.rows[0] && m.is_closed(0, c)) || (self.rows[1] && m.is_closed(1, c)) || (
        self.rows[2] && m.is_closed(2, c)) || (self.rows[3] && m.is_closed(3, c))
    }

    /// The first column that reads high under the current row drive levels.
    pub open spec fn spec_find_column(self, m: ContactMatrix) -> Option<usize> {
        if self.col_reads_high(m, 0) {
            Some(0usize)
        } else if self.col_reads_high(m, 1) {
            Some(1usize)
        } else if self.col_reads_high(m, 2) {
            Some(2usize)
        } else if self.col_reads_high(m, 3) {
            Some(3usize)
        } else {
            None
        }
    }

    /// Samples the four columns in order and returns the first that reads
    /// high, if any.
    fn find_column(&self, m: &ContactMatrix) -> (c: Option<usize>)
        ensures
            c == self.spec_find_column(*m),
    {
        if self.read_column(m, 0) {
            Some(0)
        } else if self.read_column(m, 1) {
            Some(1)
        } else if self.read_column(m, 2) {
            Some(2)
        } else if self.read_column(m, 3) {
            Some(3)
        } else {
            None
        }
    }

    /// Scans the grid once and reports the currently pressed key, or nothing.
    ///
    /// Rows are energised one at a time in index order and the scan stops at
    /// the first row with an active column, so under simultaneous presses the
    /// lowest-indexed row (and within it the lowest-indexed column) wins.
    /// The poll is a stateless instantaneous sample: it returns `Some` on
    /// every call made while a key is held and `None` the instant it opens;
    /// edge detection belongs to the caller. All rows are driven low again
    /// before returning.
    pub fn poll(&mut self, contacts: &ContactMatrix) -> (reading: Option<Key>)
        ensures
            final(self).idle(),
            reading == spec_poll(*contacts),
    {
        let mut reading: Option<Key> = None;
        let mut r: usize = 0;
        while r < 4
            invariant_except_break
                r <= 4,
                reading is None,
                forall|i: int| 0 <= i < r ==> !row_has_contact(*contacts, i),
            ensures
                reading == spec_poll(*contacts),
            decreases 4 - r,
        {
            self.drive_only(r);
            match self.find_column(contacts) {
                Some(col) => {
                    reading = Some(key_at(r, col));
                    break ;
                },
                None => {},
            }
            r = r + 1;
        }
        self.drive_none();
        reading
    }
}

/// With no contact closed, a poll reports nothing: absence of a press is a
/// normal reading, not a failure.
pub proof fn lemma_poll_no_contact(m: ContactMatrix)
    requires
        forall|r: int, c: int| 0 <= r < 4 && 0 <= c < 4 ==> !m.closed_at(r, c),
    ensures
        spec_poll(m) is None,
{
}

/// With exactly the contact at `(row, col)` closed, a poll reports exactly
/// the key the fixed table maps to that position.
pub proof fn lemma_poll_single_contact(m: ContactMatrix, row: int, col: int)
    requires
        0 <= row < 4,
        0 <= col < 4,
        forall|r: int, c: int|
            0 <= r < 4 && 0 <= c < 4 ==> (m.closed_at(r, c) <==> (r == row && c == col)),
    ensures
        spec_poll(m) == Some(spec_key_at(row, col)),
{
}

/// With exactly two contacts closed, in different rows, a poll reports the
/// key of the lower-indexed row: a defined, deterministic tie-break.
pub proof fn lemma_poll_lower_row_wins(m: ContactMatrix, r1: int, c1: int, r2: int, c2: int)
    requires
        0 <= r1 < 4,
        0 <= c1 < 4,
        0 <= r2 < 4,
        0 <= c2 < 4,
        r1 < r2,
        forall|r: int, c: int|
            0 <= r < 4 && 0 <= c < 4 ==> (m.closed_at(r, c) <==> ((r == r1 && c == c1) || (r == r2
                && c == c2))),
    ensures
        spec_poll(m) == Some(spec_key_at(r1, c1)),
{
}

} // verus!
