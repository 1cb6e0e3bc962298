//! Generic tabular model of remote resources: typed cells with a canonical
//! string projection, column lookup, time-relative sorting and fixed-width
//! plain-text rendering.

use vstd::prelude::*;

use crate::strutil::find_char_from;
use crate::strutil::first_at_or_after;

verus! {

/// A typed cell value. Nested structures and numbers carry their canonical
/// string projection, computed by the layer that decodes remote data; the
/// table logic only ever reads that projection.
#[derive(Debug, Clone, PartialEq, Eq)]
pub enum Value {
    Null,
    Bool(bool),
    Number(String),
    Str(String),
    Array(String),
    Object(String),
}

/// The canonical string projection of a cell.
pub open spec fn spec_value_str(v: Value) -> Seq<char> {
    match v {
        Value::Null => "Null"@,
        Value::Bool(b) => if b { "True"@ } else { "False"@ },
        Value::Number(s) => s@,
        Value::Str(s) => s@,
        Value::Array(s) => s@,
        Value::Object(s) => s@,
    }
}

impl Value {
    /// The string form of a string-typed cell, and of no other kind.
    pub fn as_str(&self) -> (r: Option<&str>)
        ensures
            match r {
                Some(s) => self is Str && s@ == spec_value_str(*self),
                None => !(self is Str),
            },
    {
        match self {
            Value::Str(s) => Some(s.as_str()),
            _ => None,
        }
    }

    /// The canonical string projection of this cell.
    pub fn to_string(&self) -> (r: String)
        ensures
            r@ == spec_value_str(*self),
    {
        match self {
            Value::Null => String::from_str("Null"),
            Value::Bool(b) => {
                if *b {
                    String::from_str("True")
                } else {
                    String::from_str("False")
                }
            },
            Value::Number(s) => s.clone(),
            Value::Str(s) => s.clone(),
            Value::Array(s) => s.clone(),
            Value::Object(s) => s.clone(),
        }
    }
}

/// An elapsed time parsed from a duration string such as `"3h10m"`.
#[derive(Debug, Clone, Copy, PartialEq, Eq, Structural)]
pub struct Time {
    pub hour: u64,
    pub minute: u64,
    pub second: u64,
}

pub open spec fn spec_is_digit(c: char) -> bool {
    48 <= c as u32 <= 57
}

pub open spec fn all_digits(s: Seq<char>) -> bool {
    forall|i: int| 0 <= i < s.len() ==> spec_is_digit(#[trigger] s[i])
}

/// The numeric value of a digit string, most significant digit first.
pub open spec fn digits_val(s: Seq<char>) -> int
    decreases s.len(),
{
    if s.len() == 0 {
        0
    } else {
        digits_val(s.drop_last()) * 10 + (s.last() as u32 - 48)
    }
}

/// What parsing a whole string as a decimal number yields: the value when the
/// string is nonempty, all digits and in range, and the fallback `0` otherwise.
pub open spec fn spec_parse_u64(s: Seq<char>) -> u64 {
    if s.len() > 0 && all_digits(s) && digits_val(s) <= u64::MAX {
        digits_val(s) as u64
    } else {
        0
    }
}

/// Where scanning for unit `c` from `pos` resumes: after the unit character if
/// it occurs, unchanged otherwise.
pub open spec fn spec_unit_next(s: Seq<char>, pos: int, c: char) -> int {
    let e = first_at_or_after(s, pos, c);
    if e < s.len() {
        e + 1
    } else {
        pos
    }
}

/// The value of unit `c` read from `pos`: the digits before the unit character
/// if it occurs, and `0` otherwise.
pub open spec fn spec_unit_val(s: Seq<char>, pos: int, c: char) -> u64 {
    let e = first_at_or_after(s, pos, c);
    if e < s.len() {
        spec_parse_u64(s.subrange(pos, e))
    } else {
        0
    }
}

/// The time denoted by a duration string of the shape `[<h>h][<m>m][<s>s]`:
/// units are read left to right, a missing unit counts as zero, and malformed
/// digits fall back to zero.
pub open spec fn spec_to_time(s: Seq<char>) -> Time {
    let p1 = spec_unit_next(s, 0, 'h');
    let p2 = spec_unit_next(s, p1, 'm');
    Time {
        hour: spec_unit_val(s, 0, 'h'),
        minute: spec_unit_val(s, p1, 'm'),
        second: spec_unit_val(s, p2, 's'),
    }
}

pub(crate) proof fn lemma_digits_val_nonneg(s: Seq<char>)
    requires
        all_digits(s),
    ensures
        digits_val(s) >= 0,
    decreases s.len(),
{
    if s.len() > 0 {
        assert(all_digits(s.drop_last())) by {
            assert(forall|i: int|
                0 <= i < s.len() - 1 ==> #[trigger] s.drop_last()[i] == s[i]);
        }
        lemma_digits_val_nonneg(s.drop_last());
    }
}

/// Appending further digits never lowers the value.
proof fn lemma_digits_val_prefix_le(s: Seq<char>, k: int)
    requires
        all_digits(s),
        0 <= k <= s.len(),
    ensures
        digits_val(s.subrange(0, k)) <= digits_val(s),
    decreases s.len() - k,
{
    if k < s.len() {
        let t = s.subrange(0, k + 1);
        assert(t.drop_last() =~= s.subrange(0, k));
        assert(all_digits(t.drop_last()));
        lemma_digits_val_nonneg(t.drop_last());
        assert(digits_val(t) == digits_val(s.subrange(0, k)) * 10 + (s[k] as u32 - 48));
        lemma_digits_val_prefix_le(s, k + 1);
    } else {
        assert(s.subrange(0, k) =~= s);
    }
}

/// The decimal value of `cs[from..to]`, with the fallback of `spec_parse_u64`.
pub(crate) fn parse_num_range(cs: &Vec<char>, from: usize, to: usize) -> (r: u64)
    requires
        from <= to <= cs@.len(),
    ensures
        r == spec_parse_u64(cs@.subrange(from as int, to as int)),
{
    let ghost sub = cs@.subrange(from as int, to as int);
    if from == to {
        return 0;
    }
    let mut acc: u64 = 0;
    let mut i: usize = from;
    while i < to
        invariant
            from <= i <= to <= cs@.len(),
            sub == cs@.subrange(from as int, to as int),
            all_digits(sub.subrange(0, i - from)),
            acc == digits_val(sub.subrange(0, i - from)),
        decreases to - i,
    {
        let c = cs[i];
        let u = c as u32;
        let ghost pre = sub.subrange(0, i - from);
        let ghost cur = sub.subrange(0, i + 1 - from);
        proof {
            assert(cur.drop_last() =~= pre);
            assert(cur.last() == sub[i - from]);
            assert(sub[i - from] == cs@[i as int]);
        }
        if u < 48 || 57 < u {
            proof {
                assert(!spec_is_digit(sub[i - from]));
                assert(!all_digits(sub));
            }
            return 0;
        }
        let d = (u - 48) as u64;
        if acc <= (u64::MAX - d) / 10 {
            acc = acc * 10 + d;
            proof {
                assert(digits_val(cur) == digits_val(pre) * 10 + (cur.last() as u32 - 48));
            }
        } else {
            proof {
                assert(digits_val(cur) == digits_val(pre) * 10 + (cur.last() as u32 - 48));
                assert(digits_val(cur) > u64::MAX);
                if all_digits(sub) {
                    lemma_digits_val_prefix_le(sub, i + 1 - from);
                }
            }
            return 0;
        }
        i = i + 1;
    }
    proof {
        assert(sub.subrange(0, to - from) =~= sub);
        assert(sub.len() > 0);
    }
    acc
}

impl Time {
    /// The total elapsed seconds, saturating at the largest representable value.
    pub fn to_second(&self) -> (r: u64)
        ensures
            r == if self.second + self.minute * 60 + self.hour * 3600 <= u64::MAX {
                self.second + self.minute * 60 + self.hour * 3600
            } else {
                u64::MAX as int
            },
    {
        let total: u128 = self.second as u128 + self.minute as u128 * 60
            + self.hour as u128 * 3600;
        if total > u64::MAX as u128 {
            u64::MAX
        } else {
            total as u64
        }
    }
}

/// Parses a duration string of the shape `[<h>h][<m>m][<s>s]`; any missing or
/// malformed unit counts as zero.
pub fn to_time(s: &str) -> (t: Time)
    ensures
        t == spec_to_time(s@),
{
    let cs = crate::strutil::chars_of(s);
    let h_end = find_char_from(&cs, 0, 'h');
    let (hour, p1): (u64, usize) = if h_end < cs.len() {
        (parse_num_range(&cs, 0, h_end), h_end + 1)
    } else {
        (0, 0)
    };
    let m_end = find_char_from(&cs, p1, 'm');
    let (minute, p2): (u64, usize) = if m_end < cs.len() {
        (parse_num_range(&cs, p1, m_end), m_end + 1)
    } else {
        (0, p1)
    };
    let s_end = find_char_from(&cs, p2, 's');
    let second: u64 = if s_end < cs.len() {
        parse_num_range(&cs, p2, s_end)
    } else {
        0
    };
    Time { hour, minute, second }
}

fn upper_char(c: char) -> (r: char)
    ensures
        r == spec_upper_char(c),
{
    match c {
        'a' => 'A',
        'b' => 'B',
        'c' => 'C',
        'd' => 'D',
        'e' => 'E',
        'f' => 'F',
        'g' => 'G',
        'h' => 'H',
        'i' => 'I',
        'j' => 'J',
        'k' => 'K',
        'l' => 'L',
        'm' => 'M',
        'n' => 'N',
        'o' => 'O',
        'p' => 'P',
        'q' => 'Q',
        'r' => 'R',
        's' => 'S',
        't' => 'T',
        'u' => 'U',
        'v' => 'V',
        'w' => 'W',
        'x' => 'X',
        'y' => 'Y',
        'z' => 'Z',
        _ => c,
    }
}

fn upper_string(s: &str) -> (r: String)
    ensures
        r@ == spec_upper(s@),
{
    let cs = crate::strutil::chars_of(s);
    let mut r = String::new();
    let mut i: usize = 0;
    while i < cs.len()
        invariant
            cs@ == s@,
            i <= s@.len(),
            r@.len() == i,
            forall|j: int| 0 <= j < i ==> r@[j] == spec_upper_char(s@[j]),
        decreases s@.len() - i,
    {
        crate::strutil::push_char(&mut r, upper_char(cs[i]));
        i = i + 1;
    }
    proof {
        assert(r@ =~= spec_upper(s@));
    }
    r
}

fn pad_to(s: String, w: usize) -> (r: String)
    ensures
        r@ == spec_pad(s@, w as int),
{
    let ghost orig = s@;
    let mut r = s;
    let l = r.as_str().unicode_len();
    proof {
        assert(orig + spec_spaces(0) =~= orig);
    }
    let mut j: usize = l;
    while j < w
        invariant
            r@ == orig + spec_spaces(j - l),
            l == orig.len(),
            l <= j,
            j <= w || j == l,
        decreases w - j,
    {
        crate::strutil::push_char(&mut r, ' ');
        j = j + 1;
        proof {
            assert(r@ =~= orig + spec_spaces(j - l));
        }
    }
    proof {
        if l >= w {
            assert(spec_spaces(0) == Seq::<char>::empty());
            assert(spec_spaces(w - orig.len()) == Seq::<char>::empty());
        }
        assert(r@ =~= orig + spec_spaces(w - orig.len()));
    }
    r
}

/// The elapsed seconds denoted by the row's cell at `idx`, the row's sort key.
fn row_time_seconds(row: &TableRow, idx: usize) -> (r: u64)
    requires
        idx < row.cells@.len(),
    ensures
        r as int == spec_row_key(*row, idx as int),
{
    let s = row.cells[idx].to_string();
    let t = to_time(s.as_str());
    t.to_second()
}

/// One column of a resource table, as the remote listing describes it.
/// Columns with priority `0` are the default display set.
#[derive(Debug, Clone)]
pub struct TableColumnDefinition {
    pub name: String,
    pub kind: String,
    pub format: String,
    pub description: String,
    pub priority: i32,
}

/// One condition reported for a row.
#[derive(Debug, Clone)]
pub struct TableRowCondition {
    pub kind: String,
    pub status: String,
    pub reason: Option<String>,
    pub message: Option<String>,
}

/// One row of a resource table; `cells` aligns positionally with the table's
/// column definitions.
#[derive(Debug, Clone)]
pub struct TableRow {
    pub cells: Vec<Value>,
    pub conditions: Option<Vec<TableRowCondition>>,
}

/// A snapshot of one remote resource listing. Construction rejects any row
/// whose cell count differs from the number of columns, so every value of
/// this type keeps that alignment.
#[derive(Debug)]
pub struct Table {
    column_definitions: Vec<TableColumnDefinition>,
    rows: Vec<TableRow>,
}

/// Every row of the table has exactly one cell per column.
pub open spec fn rows_match_columns(cols: Seq<TableColumnDefinition>, rows: Seq<TableRow>) -> bool {
    forall|i: int| 0 <= i < rows.len() ==> (#[trigger] rows[i]).cells@.len() == cols.len()
}

/// The first column index whose name is `name`, scanning from `pos`.
pub open spec fn spec_find_index_from(
    cols: Seq<TableColumnDefinition>,
    name: Seq<char>,
    pos: int,
) -> Option<int>
    decreases cols.len() - pos,
{
    if pos < 0 || pos >= cols.len() {
        None
    } else if cols[pos].name@ == name {
        Some(pos)
    } else {
        spec_find_index_from(cols, name, pos + 1)
    }
}

pub open spec fn spec_find_index(cols: Seq<TableColumnDefinition>, name: Seq<char>) -> Option<int> {
    spec_find_index_from(cols, name, 0)
}

/// The column indexes of the present names, in the order the names were given;
/// absent names are dropped.
pub open spec fn spec_find_indexes_from(
    cols: Seq<TableColumnDefinition>,
    names: Seq<Seq<char>>,
    pos: int,
) -> Seq<int>
    decreases names.len() - pos,
{
    if pos < 0 || pos >= names.len() {
        Seq::empty()
    } else {
        match spec_find_index(cols, names[pos]) {
            Some(i) => seq![i] + spec_find_indexes_from(cols, names, pos + 1),
            None => spec_find_indexes_from(cols, names, pos + 1),
        }
    }
}

pub open spec fn spec_find_indexes(cols: Seq<TableColumnDefinition>, names: Seq<Seq<char>>) -> Seq<
    int,
> {
    spec_find_indexes_from(cols, names, 0)
}

/// How many of the given names occur in the columns, scanning from `pos`.
pub open spec fn spec_count_present(
    cols: Seq<TableColumnDefinition>,
    names: Seq<Seq<char>>,
    pos: int,
) -> int
    decreases names.len() - pos,
{
    if pos < 0 || pos >= names.len() {
        0
    } else {
        (if spec_find_index(cols, names[pos]) is Some {
            1int
        } else {
            0int
        }) + spec_count_present(cols, names, pos + 1)
    }
}

impl Table {
    #[verifier::type_invariant]
    spec fn wf(self) -> bool {
        rows_match_columns(self.column_definitions@, self.rows@)
    }

    pub closed spec fn spec_cols(self) -> Seq<TableColumnDefinition> {
        self.column_definitions@
    }

    pub closed spec fn spec_rows(self) -> Seq<TableRow> {
        self.rows@
    }

    /// Builds a table, rejecting input whose rows do not align with the columns.
    pub fn new(column_definitions: Vec<TableColumnDefinition>, rows: Vec<TableRow>) -> (r: Option<
        Table,
    >)
        ensures
            match r {
                Some(t) => t.spec_cols() == column_definitions@ && t.spec_rows() == rows@
                    && rows_match_columns(column_definitions@, rows@),
                None => !rows_match_columns(column_definitions@, rows@),
            },
    {
        let mut i: usize = 0;
        while i < rows.len()
            invariant
                i <= rows@.len(),
                forall|j: int| 0 <= j < i ==> (#[trigger] rows@[j]).cells@.len()
                    == column_definitions@.len(),
            decreases rows@.len() - i,
        {
            if rows[i].cells.len() != column_definitions.len() {
                return None;
            }
            i = i + 1;
        }
        Some(Table { column_definitions, rows })
    }

    pub fn column_definitions(&self) -> (r: &Vec<TableColumnDefinition>)
        ensures
            r@ == self.spec_cols(),
    {
        &self.column_definitions
    }

    /// Besides handing the rows out, this states the construction-time
    /// invariant that every value of the type keeps: each row has exactly one
    /// cell per column.
    pub fn rows(&self) -> (r: &Vec<TableRow>)
        ensures
            r@ == self.spec_rows(),
            rows_match_columns(self.spec_cols(), self.spec_rows()),
    {
        proof {
            use_type_invariant(self);
        }
        &self.rows
    }

    /// The index of the column named `target`, if any.
    pub fn find_index(&self, target: &str) -> (r: Option<usize>)
        ensures
            match r {
                Some(i) => spec_find_index(self.spec_cols(), target@) == Some(i as int),
                None => spec_find_index(self.spec_cols(), target@) is None,
            },
    {
        let t: String = target.to_owned();
        let mut i: usize = 0;
        while i < self.column_definitions.len()
            invariant
                i <= self.column_definitions@.len(),
                t@ == target@,
                spec_find_index(self.spec_cols(), target@) == spec_find_index_from(
                    self.spec_cols(),
                    target@,
                    i as int,
                ),
            decreases self.column_definitions@.len() - i,
        {
            if self.column_definitions[i].name == t {
                return Some(i);
            }
            i = i + 1;
        }
        None
    }

    /// Reorders the rows by the elapsed time their cell at `time_index`
    /// denotes, least elapsed first, keeping the relative order of rows whose
    /// keys are equal (see `spec_sort_by_key` and the lemmas about it).
    pub fn sort_rows_by_time(&mut self, time_index: usize)
        requires
            time_index < old(self).spec_cols().len(),
        ensures
            final(self).spec_cols() == old(self).spec_cols(),
            final(self).spec_rows() == spec_sort_by_key(
                old(self).spec_rows(),
                time_index as int,
            ),
    {
        proof {
            use_type_invariant(&*self);
        }
        let ghost orig = self.rows@;
        let ghost idx = time_index as int;
        let n_rows = self.rows.len();
        let mut work: Vec<TableRow> = Vec::new();
        std::mem::swap(&mut work, &mut self.rows);
        let mut out: Vec<TableRow> = Vec::new();
        let mut i: usize = 0;
        while work.len() > 0
            invariant
                idx == time_index as int,
                self.column_definitions@ == old(self).spec_cols(),
                orig.len() == n_rows,
                i + work@.len() == orig.len(),
                work@ == orig.subrange(i as int, orig.len() as int),
                out@ == spec_sort_by_key(orig.subrange(0, i as int), idx),
                rows_match_columns(self.column_definitions@, out@),
                rows_match_columns(self.column_definitions@, orig),
                idx < self.column_definitions@.len(),
            decreases work@.len(),
        {
            let row = work.remove(0);
            proof {
                assert(row == orig[i as int]);
                assert(work@ =~= orig.subrange(i + 1, orig.len() as int));
                assert(orig[i as int].cells@.len() == self.column_definitions@.len());
                assert(row.cells@.len() == self.column_definitions@.len());
                assert((time_index as int) < row.cells@.len());
            }
            let key = row_time_seconds(&row, time_index);
            // find the first position whose key is strictly greater
            let mut p: usize = 0;
            loop
                invariant
                    idx == time_index as int,
                    p <= out@.len(),
                    key as int == spec_row_key(row, idx),
                    rows_match_columns(self.column_definitions@, out@),
                    idx < self.column_definitions@.len(),
                    forall|j: int| 0 <= j < p ==> spec_row_key(#[trigger] out@[j], idx)
                        <= key as int,
                ensures
                    p <= out@.len(),
                    forall|j: int| 0 <= j < p ==> spec_row_key(#[trigger] out@[j], idx)
                        <= key as int,
                    p < out@.len() ==> spec_row_key(out@[p as int], idx) > key as int,
                decreases out@.len() - p,
            {
                if p >= out.len() {
                    break;
                }
                proof {
                    assert(out@[p as int].cells@.len() == self.column_definitions@.len());
                }
                if row_time_seconds(&out[p], time_index) > key {
                    break;
                }
                p = p + 1;
            }
            let ghost before = out@;
            out.insert(p, row);
            proof {
                lemma_insert_at_pos(row, before, idx, p as int);
                assert(out@ =~= before.subrange(0, p as int) + seq![row] + before.subrange(
                    p as int,
                    before.len() as int,
                ));
                let pre = orig.subrange(0, i as int);
                let cur = orig.subrange(0, i + 1);
                assert(cur.drop_last() =~= pre);
                assert(cur.last() == orig[i as int]);
                assert(out@ =~= spec_sort_by_key(cur, idx));
            }
            i = i + 1;
        }
        proof {
            assert(orig.subrange(0, orig.len() as int) =~= orig);
        }
        self.rows = out;
    }

    /// Renders the table as plain text: the default-priority columns only,
    /// headers upper-cased and dimmed, every cell left-padded to its column's
    /// width, columns joined by a three-space gutter, one line per row.
    pub fn to_print(&self) -> (r: String)
        ensures
            r@ == spec_to_print(self.spec_cols(), self.spec_rows()),
    {
        proof {
            use_type_invariant(self);
        }
        let ghost cols = self.column_definitions@;
        let ghost rowsg = self.rows@;
        let ghost sel_int = spec_default_columns_from(cols, 0);

        // the default-priority columns
        let mut sel: Vec<usize> = Vec::new();
        let mut i: usize = 0;
        while i < self.column_definitions.len()
            invariant
                cols == self.column_definitions@,
                sel_int == spec_default_columns_from(cols, 0),
                i <= cols.len(),
                forall|j: int| 0 <= j < sel@.len() ==> #[trigger] sel@[j] < cols.len(),
                sel_int == sel@.map_values(|x: usize| x as int) + spec_default_columns_from(
                    cols,
                    i as int,
                ),
            decreases cols.len() - i,
        {
            let ghost pre = sel@;
            if self.column_definitions[i].priority == 0 {
                sel.push(i);
                proof {
                    assert(sel@.map_values(|x: usize| x as int) =~= pre.map_values(
                        |x: usize| x as int,
                    ) + seq![i as int]);
                }
            }
            i = i + 1;
        }
        proof {
            assert(spec_default_columns_from(cols, cols.len() as int) =~= Seq::<int>::empty());
            assert(sel@.map_values(|x: usize| x as int) + Seq::<int>::empty() =~= sel@.map_values(
                |x: usize| x as int,
            ));
            assert(sel_int == sel@.map_values(|x: usize| x as int));
        }

        // per-column widths
        let ghost widths_int = Seq::new(
            sel_int.len(),
            |j: int| spec_col_width_from(rowsg, sel_int[j], cols[sel_int[j]].name@.len() as int, 0),
        );
        let mut widths: Vec<usize> = Vec::new();
        let mut j: usize = 0;
        while j < sel.len()
            invariant
                cols == self.column_definitions@,
                rowsg == self.rows@,
                rows_match_columns(cols, rowsg),
                sel_int == sel@.map_values(|x: usize| x as int),
                forall|q: int| 0 <= q < sel@.len() ==> #[trigger] sel@[q] < cols.len(),
                widths_int == Seq::new(
                    sel_int.len(),
                    |q: int| spec_col_width_from(
                        rowsg,
                        sel_int[q],
                        cols[sel_int[q]].name@.len() as int,
                        0,
                    ),
                ),
                j <= sel@.len(),
                widths@.len() == j,
                forall|q: int| 0 <= q < j ==> #[trigger] widths@[q] as int == widths_int[q],
            decreases sel@.len() - j,
        {
            let col = sel[j];
            let ghost base = cols[col as int].name@.len() as int;
            let mut w = self.column_definitions[col].name.as_str().unicode_len();
            let mut ri: usize = 0;
            while ri < self.rows.len()
                invariant
                    cols == self.column_definitions@,
                    rowsg == self.rows@,
                    rows_match_columns(cols, rowsg),
                    (col as int) < cols.len(),
                    ri <= rowsg.len(),
                    spec_col_width_from(rowsg, col as int, base, 0) == spec_col_width_from(
                        rowsg,
                        col as int,
                        w as int,
                        ri as int,
                    ),
                decreases rowsg.len() - ri,
            {
                proof {
                    assert(rowsg[ri as int].cells@.len() == cols.len());
                }
                let cell = self.rows[ri].cells[col].to_string();
                let l = cell.as_str().unicode_len();
                if w < l {
                    w = l;
                }
                ri = ri + 1;
            }
            widths.push(w);
            proof {
                assert(w as int == spec_col_width_from(rowsg, sel_int[j as int], base, 0));
            }
            j = j + 1;
        }

        // the header line
        let ghost hcells = spec_header_cells(cols, sel_int, widths_int);
        let mut buf = String::new();
        let mut j: usize = 0;
        while j < sel.len()
            invariant
                cols == self.column_definitions@,
                sel_int == sel@.map_values(|x: usize| x as int),
                forall|q: int| 0 <= q < sel@.len() ==> #[trigger] sel@[q] < cols.len(),
                widths@.len() == sel@.len(),
                forall|q: int| 0 <= q < sel@.len() ==> #[trigger] widths@[q] as int
                    == widths_int[q],
                widths_int.len() == sel_int.len(),
                hcells == spec_header_cells(cols, sel_int, widths_int),
                j <= sel@.len(),
                buf@ == spec_join_cells(hcells.subrange(0, j as int)),
            decreases sel@.len() - j,
        {
            let col = sel[j];
            let mut cell = String::from_str("\u{1b}[90m");
            let up = upper_string(self.column_definitions[col].name.as_str());
            let padded = pad_to(up, widths[j]);
            cell.append(padded.as_str());
            cell.append("\u{1b}[0m");
            proof {
                assert(cell@ == hcells[j as int]);
            }
            if j > 0 {
                buf.append("   ");
            }
            buf.append(cell.as_str());
            proof {
                let prefix = hcells.subrange(0, j as int);
                let cur = hcells.subrange(0, j + 1);
                assert(cur.drop_last() =~= prefix);
                assert(cur.last() == hcells[j as int]);
                if j == 0 {
                    assert(buf@ =~= spec_join_cells(cur));
                } else {
                    assert(buf@ =~= spec_join_cells(cur));
                }
            }
            j = j + 1;
        }
        proof {
            assert(hcells.subrange(0, hcells.len() as int) =~= hcells);
            assert(buf@ == spec_join_cells(hcells));
        }

        // one line per row
        let mut ri: usize = 0;
        while ri < self.rows.len()
            invariant
                cols == self.column_definitions@,
                rowsg == self.rows@,
                rows_match_columns(cols, rowsg),
                sel_int == sel@.map_values(|x: usize| x as int),
                forall|q: int| 0 <= q < sel@.len() ==> #[trigger] sel@[q] < cols.len(),
                widths@.len() == sel@.len(),
                forall|q: int| 0 <= q < sel@.len() ==> #[trigger] widths@[q] as int
                    == widths_int[q],
                widths_int.len() == sel_int.len(),
                hcells == spec_header_cells(cols, sel_int, widths_int),
                ri <= rowsg.len(),
                buf@ == spec_join_cells(hcells) + spec_body(
                    rowsg.subrange(0, ri as int),
                    sel_int,
                    widths_int,
                ),
            decreases rowsg.len() - ri,
        {
            proof {
                assert(rowsg[ri as int].cells@.len() == cols.len());
            }
            let ghost rcells = spec_row_cells(rowsg[ri as int], sel_int, widths_int);
            let mut line = String::new();
            let mut j: usize = 0;
            while j < sel.len()
                invariant
                    cols == self.column_definitions@,
                    rowsg == self.rows@,
                    rows_match_columns(cols, rowsg),
                    ri < rowsg.len(),
                    sel_int == sel@.map_values(|x: usize| x as int),
                    forall|q: int| 0 <= q < sel@.len() ==> #[trigger] sel@[q] < cols.len(),
                    widths@.len() == sel@.len(),
                    forall|q: int| 0 <= q < sel@.len() ==> #[trigger] widths@[q] as int
                        == widths_int[q],
                    widths_int.len() == sel_int.len(),
                    rcells == spec_row_cells(rowsg[ri as int], sel_int, widths_int),
                    j <= sel@.len(),
                    line@ == spec_join_cells(rcells.subrange(0, j as int)),
                decreases sel@.len() - j,
            {
                proof {
                    assert(rowsg[ri as int].cells@.len() == cols.len());
                }
                let col = sel[j];
                let cell = self.rows[ri].cells[col].to_string();
                let padded = pad_to(cell, widths[j]);
                proof {
                    assert(padded@ == rcells[j as int]);
                }
                if j > 0 {
                    line.append("   ");
                }
                line.append(padded.as_str());
                proof {
                    let prefix = rcells.subrange(0, j as int);
                    let cur = rcells.subrange(0, j + 1);
                    assert(cur.drop_last() =~= prefix);
                    assert(cur.last() == rcells[j as int]);
                    assert(line@ =~= spec_join_cells(cur));
                }
                j = j + 1;
            }
            proof {
                assert(rcells.subrange(0, rcells.len() as int) =~= rcells);
            }
            buf.append("\n");
            buf.append(line.as_str());
            proof {
                let pre = rowsg.subrange(0, ri as int);
                let cur = rowsg.subrange(0, ri + 1);
                assert(cur.drop_last() =~= pre);
                assert(cur.last() == rowsg[ri as int]);
                assert(buf@ =~= spec_join_cells(hcells) + spec_body(cur, sel_int, widths_int));
            }
            ri = ri + 1;
        }
        proof {
            assert(rowsg.subrange(0, rowsg.len() as int) =~= rowsg);
        }
        buf
    }

    /// The indexes of the given column names, present names only, in the given
    /// order.
    pub fn find_indexes(&self, targets: &Vec<&str>) -> (r: Vec<usize>)
        ensures
            r@.map_values(|x: usize| x as int) == spec_find_indexes_from(
                self.spec_cols(),
                targets@.map_values(|s: &str| s@),
                0,
            ),
    {
        let ghost names = targets@.map_values(|s: &str| s@);
        let mut r: Vec<usize> = Vec::new();
        let mut i: usize = 0;
        while i < targets.len()
            invariant
                i <= targets@.len(),
                names == targets@.map_values(|s: &str| s@),
                spec_find_indexes_from(self.spec_cols(), names, 0) == r@.map_values(
                    |x: usize| x as int,
                ) + spec_find_indexes_from(self.spec_cols(), names, i as int),
            decreases targets@.len() - i,
        {
            let ghost pre = r@;
            match self.find_index(targets[i]) {
                Some(idx) => {
                    r.push(idx);
                    proof {
                        assert(r@.map_values(|x: usize| x as int) =~= pre.map_values(
                            |x: usize| x as int,
                        ) + seq![idx as int]);
                    }
                },
                None => {},
            }
            i = i + 1;
        }
        proof {
            assert(spec_find_indexes_from(self.spec_cols(), names, targets@.len() as int)
                =~= Seq::<int>::empty());
            assert(r@.map_values(|x: usize| x as int) + Seq::<int>::empty() =~= r@.map_values(
                |x: usize| x as int,
            ));
        }
        r
    }
}

/// The elapsed seconds a time stands for, saturated at the largest
/// representable value.
pub open spec fn spec_seconds(t: Time) -> int {
    let total = t.second + t.minute * 60 + t.hour * 3600;
    if total <= u64::MAX {
        total
    } else {
        u64::MAX as int
    }
}

/// The sort key of a row: the elapsed seconds its cell at `idx` denotes.
pub open spec fn spec_row_key(r: TableRow, idx: int) -> int {
    spec_seconds(spec_to_time(spec_value_str(r.cells@[idx])))
}

/// Inserts a row into a sorted run: it lands before the first row whose key is
/// strictly greater, hence after every row with an equal key.
pub open spec fn spec_insert_by_key(row: TableRow, s: Seq<TableRow>, idx: int) -> Seq<TableRow>
    decreases s.len(),
{
    if s.len() == 0 {
        seq![row]
    } else if spec_row_key(row, idx) < spec_row_key(s[0], idx) {
        seq![row] + s
    } else {
        seq![s[0]] + spec_insert_by_key(row, s.drop_first(), idx)
    }
}

/// Stable sort by ascending elapsed seconds: rows are taken in order and each
/// is inserted after its equals.
pub open spec fn spec_sort_by_key(s: Seq<TableRow>, idx: int) -> Seq<TableRow>
    decreases s.len(),
{
    if s.len() == 0 {
        Seq::empty()
    } else {
        spec_insert_by_key(s.last(), spec_sort_by_key(s.drop_last(), idx), idx)
    }
}

pub open spec fn sorted_by_key(s: Seq<TableRow>, idx: int) -> bool {
    forall|i: int, j: int| 0 <= i < j < s.len() ==> spec_row_key(#[trigger] s[i], idx)
        <= spec_row_key(#[trigger] s[j], idx)
}

/// The subsequence of rows whose key is `k`, in order.
pub open spec fn filter_key(s: Seq<TableRow>, idx: int, k: int) -> Seq<TableRow>
    decreases s.len(),
{
    if s.len() == 0 {
        Seq::empty()
    } else if spec_row_key(s[0], idx) == k {
        seq![s[0]] + filter_key(s.drop_first(), idx, k)
    } else {
        filter_key(s.drop_first(), idx, k)
    }
}

/// Where positional insertion lands equals the recursive insertion: `p` is the
/// first position whose key is strictly greater than the new row's.
proof fn lemma_insert_at_pos(row: TableRow, s: Seq<TableRow>, idx: int, p: int)
    requires
        0 <= p <= s.len(),
        forall|j: int| 0 <= j < p ==> spec_row_key(#[trigger] s[j], idx) <= spec_row_key(row, idx),
        p < s.len() ==> spec_row_key(s[p], idx) > spec_row_key(row, idx),
    ensures
        spec_insert_by_key(row, s, idx) =~= s.subrange(0, p) + seq![row] + s.subrange(
            p,
            s.len() as int,
        ),
    decreases p,
{
    if p == 0 {
    } else {
        let t = s.drop_first();
        assert(forall|j: int| 0 <= j < p - 1 ==> #[trigger] t[j] == s[j + 1]);
        lemma_insert_at_pos(row, t, idx, p - 1);
        assert(t.subrange(0, p - 1) =~= s.subrange(1, p));
        assert(t.subrange(p - 1, t.len() as int) =~= s.subrange(p, s.len() as int));
    }
}

proof fn lemma_insert_by_key_sorted(row: TableRow, s: Seq<TableRow>, idx: int)
    requires
        sorted_by_key(s, idx),
    ensures
        sorted_by_key(spec_insert_by_key(row, s, idx), idx),
    decreases s.len(),
{
    if s.len() == 0 {
    } else if spec_row_key(row, idx) < spec_row_key(s[0], idx) {
        let r = seq![row] + s;
        assert(forall|j: int| 1 <= j < r.len() ==> #[trigger] r[j] == s[j - 1]);
    } else {
        let t = s.drop_first();
        assert(forall|i: int, j: int| 0 <= i < j < t.len() ==> spec_row_key(#[trigger] t[i], idx)
            <= spec_row_key(#[trigger] t[j], idx)) by {
            assert(forall|i: int| 0 <= i < t.len() ==> #[trigger] t[i] == s[i + 1]);
        }
        lemma_insert_by_key_sorted(row, t, idx);
        let u = spec_insert_by_key(row, t, idx);
        let r = seq![s[0]] + u;
        assert(forall|j: int| 1 <= j < r.len() ==> #[trigger] r[j] == u[j - 1]);
        assert forall|j: int| 0 <= j < u.len() implies spec_row_key(s[0], idx) <= spec_row_key(
            #[trigger] u[j],
            idx,
        ) by {
            lemma_insert_by_key_membership(row, t, idx, j);
            assert(forall|i: int| 0 <= i < t.len() ==> #[trigger] t[i] == s[i + 1]);
        }
    }
}

/// Every row of an insertion result is the inserted row or a row of the run.
proof fn lemma_insert_by_key_membership(row: TableRow, s: Seq<TableRow>, idx: int, j: int)
    requires
        0 <= j < spec_insert_by_key(row, s, idx).len(),
    ensures
        spec_insert_by_key(row, s, idx)[j] == row || s.contains(
            spec_insert_by_key(row, s, idx)[j],
        ),
    decreases s.len(),
{
    lemma_insert_by_key_len(row, s, idx);
    let r = spec_insert_by_key(row, s, idx);
    if s.len() == 0 {
    } else if spec_row_key(row, idx) < spec_row_key(s[0], idx) {
        if j > 0 {
            assert(r[j] == s[j - 1]);
        }
    } else {
        let t = s.drop_first();
        assert(forall|i: int| 0 <= i < t.len() ==> #[trigger] t[i] == s[i + 1]);
        if j == 0 {
            assert(r[0] == s[0]);
            assert(s.contains(s[0]));
        } else {
            lemma_insert_by_key_membership(row, t, idx, j - 1);
            let u = spec_insert_by_key(row, t, idx);
            assert(r[j] == u[j - 1]);
            if u[j - 1] != row {
                let i = choose|i: int| 0 <= i < t.len() && t[i] == u[j - 1];
                assert(s[i + 1] == u[j - 1]);
            }
        }
    }
}

proof fn lemma_filter_key_empty(idx: int, k: int)
    ensures
        filter_key(Seq::<TableRow>::empty(), idx, k) == Seq::<TableRow>::empty(),
{
}

/// Filtering commutes with dropping the last element.
proof fn lemma_filter_key_last(s: Seq<TableRow>, idx: int, k: int)
    requires
        s.len() > 0,
    ensures
        filter_key(s, idx, k) =~= filter_key(s.drop_last(), idx, k) + (if spec_row_key(
            s.last(),
            idx,
        ) == k {
            seq![s.last()]
        } else {
            Seq::<TableRow>::empty()
        }),
    decreases s.len(),
{
    let t = s.drop_first();
    if s.len() == 1 {
        assert(t =~= Seq::<TableRow>::empty());
        assert(s.drop_last() =~= Seq::<TableRow>::empty());
        lemma_filter_key_empty(idx, k);
        assert(s[0] == s.last());
        if spec_row_key(s[0], idx) == k {
            assert(filter_key(s, idx, k) == seq![s[0]] + filter_key(t, idx, k));
        } else {
            assert(filter_key(s, idx, k) == filter_key(t, idx, k));
        }
    } else {
        lemma_filter_key_last(t, idx, k);
        let d = s.drop_last();
        assert(t.drop_last() =~= d.drop_first());
        assert(t.last() == s.last());
        assert(d.len() > 0);
        assert(d[0] == s[0]);
        if spec_row_key(s[0], idx) == k {
            assert(filter_key(s, idx, k) == seq![s[0]] + filter_key(t, idx, k));
            assert(filter_key(d, idx, k) == seq![s[0]] + filter_key(d.drop_first(), idx, k));
        } else {
            assert(filter_key(s, idx, k) == filter_key(t, idx, k));
            assert(filter_key(d, idx, k) == filter_key(d.drop_first(), idx, k));
        }
    }
}

/// Inserting a row into a sorted run extends its own key class at the end and
/// leaves every other key class unchanged.
proof fn lemma_insert_filter_key(row: TableRow, s: Seq<TableRow>, idx: int, k: int)
    requires
        sorted_by_key(s, idx),
    ensures
        filter_key(spec_insert_by_key(row, s, idx), idx, k) =~= (if spec_row_key(row, idx) == k {
            filter_key(s, idx, k).push(row)
        } else {
            filter_key(s, idx, k)
        }),
    decreases s.len(),
{
    if s.len() == 0 {
        let r = seq![row];
        assert(r.drop_first() =~= Seq::<TableRow>::empty());
        lemma_filter_key_empty(idx, k);
        assert(r[0] == row);
        if spec_row_key(row, idx) == k {
            assert(filter_key(r, idx, k) == seq![row] + filter_key(r.drop_first(), idx, k));
            assert(filter_key(s, idx, k).push(row) =~= seq![row]);
        } else {
            assert(filter_key(r, idx, k) == filter_key(r.drop_first(), idx, k));
        }
    } else if spec_row_key(row, idx) < spec_row_key(s[0], idx) {
        let r = seq![row] + s;
        assert(r.drop_first() =~= s);
        assert(r[0] == row);
        if spec_row_key(row, idx) == k {
            assert(forall|i: int| 0 <= i < s.len() ==> spec_row_key(#[trigger] s[i], idx)
                > spec_row_key(row, idx));
            lemma_filter_key_all_ge(s, idx, k, spec_row_key(row, idx));
            assert(filter_key(r, idx, k) == seq![row] + filter_key(s, idx, k));
            assert(filter_key(s, idx, k).push(row) =~= seq![row] + filter_key(s, idx, k));
        } else {
            assert(filter_key(r, idx, k) == filter_key(s, idx, k));
        }
    } else {
        let t = s.drop_first();
        assert(forall|i: int| 0 <= i < t.len() ==> #[trigger] t[i] == s[i + 1]);
        lemma_insert_filter_key(row, t, idx, k);
        let u = spec_insert_by_key(row, t, idx);
        let r = seq![s[0]] + u;
        assert(r.drop_first() =~= u);
        assert(r[0] == s[0]);
        assert(r.len() > 0);
        if spec_row_key(s[0], idx) == k {
            assert(filter_key(r, idx, k) == seq![s[0]] + filter_key(u, idx, k));
            assert(filter_key(s, idx, k) == seq![s[0]] + filter_key(t, idx, k));
            if spec_row_key(row, idx) == k {
                assert(seq![s[0]] + filter_key(t, idx, k).push(row) =~= (seq![s[0]] + filter_key(
                    t,
                    idx,
                    k,
                )).push(row));
            }
        } else {
            assert(filter_key(r, idx, k) == filter_key(u, idx, k));
            assert(filter_key(s, idx, k) == filter_key(t, idx, k));
        }
    }
}

/// When every row's key is strictly above `b` and `k` is not, no row of the
/// run belongs to the key class of `k`.
proof fn lemma_filter_key_all_ge(s: Seq<TableRow>, idx: int, k: int, b: int)
    requires
        forall|i: int| 0 <= i < s.len() ==> spec_row_key(#[trigger] s[i], idx) > b,
        k <= b,
    ensures
        filter_key(s, idx, k) =~= Seq::<TableRow>::empty(),
    decreases s.len(),
{
    if s.len() > 0 {
        let t = s.drop_first();
        assert(forall|i: int| 0 <= i < t.len() ==> #[trigger] t[i] == s[i + 1]);
        lemma_filter_key_all_ge(t, idx, k, b);
    }
}

/// The sort leaves rows ordered by ascending elapsed seconds.
pub proof fn lemma_sort_by_key_sorted(s: Seq<TableRow>, idx: int)
    ensures
        sorted_by_key(spec_sort_by_key(s, idx), idx),
    decreases s.len(),
{
    if s.len() > 0 {
        lemma_sort_by_key_sorted(s.drop_last(), idx);
        lemma_insert_by_key_sorted(s.last(), spec_sort_by_key(s.drop_last(), idx), idx);
    }
}

/// The sort is stable: the rows of any one key class come out exactly as they
/// went in, in the same order.
pub proof fn lemma_sort_by_key_stable(s: Seq<TableRow>, idx: int, k: int)
    ensures
        filter_key(spec_sort_by_key(s, idx), idx, k) =~= filter_key(s, idx, k),
    decreases s.len(),
{
    if s.len() > 0 {
        lemma_sort_by_key_stable(s.drop_last(), idx, k);
        lemma_sort_by_key_sorted(s.drop_last(), idx);
        lemma_insert_filter_key(s.last(), spec_sort_by_key(s.drop_last(), idx), idx, k);
        lemma_filter_key_last(s, idx, k);
    }
}

/// The sort neither adds nor invents rows: each output row is an input row.
pub proof fn lemma_sort_by_key_membership(s: Seq<TableRow>, idx: int, j: int)
    requires
        0 <= j < spec_sort_by_key(s, idx).len(),
    ensures
        spec_sort_by_key(s, idx).len() == s.len(),
        s.contains(spec_sort_by_key(s, idx)[j]),
    decreases s.len(),
{
    lemma_sort_by_key_len(s, idx);
    if s.len() > 0 {
        let sorted_pre = spec_sort_by_key(s.drop_last(), idx);
        lemma_sort_by_key_len(s.drop_last(), idx);
        lemma_insert_by_key_membership(s.last(), sorted_pre, idx, j);
        let x = spec_sort_by_key(s, idx)[j];
        if x == s.last() {
            assert(s[s.len() - 1] == x);
        } else {
            let i = choose|i: int| 0 <= i < sorted_pre.len() && sorted_pre[i] == x;
            lemma_sort_by_key_membership(s.drop_last(), idx, i);
            let i2 = choose|i2: int| 0 <= i2 < s.drop_last().len() && s.drop_last()[i2] == x;
            assert(s[i2] == x);
        }
    }
}

proof fn lemma_sort_by_key_len(s: Seq<TableRow>, idx: int)
    ensures
        spec_sort_by_key(s, idx).len() == s.len(),
    decreases s.len(),
{
    if s.len() > 0 {
        lemma_sort_by_key_len(s.drop_last(), idx);
        lemma_insert_by_key_len(s.last(), spec_sort_by_key(s.drop_last(), idx), idx);
    }
}

proof fn lemma_insert_by_key_len(row: TableRow, s: Seq<TableRow>, idx: int)
    ensures
        spec_insert_by_key(row, s, idx).len() == s.len() + 1,
    decreases s.len(),
{
    if s.len() > 0 && !(spec_row_key(row, idx) < spec_row_key(s[0], idx)) {
        lemma_insert_by_key_len(row, s.drop_first(), idx);
    }
}

/// ASCII uppercasing of a single character; anything but a lowercase ASCII
/// letter passes through unchanged.
pub open spec fn spec_upper_char(c: char) -> char {
    match c {
        'a' => 'A',
        'b' => 'B',
        'c' => 'C',
        'd' => 'D',
        'e' => 'E',
        'f' => 'F',
        'g' => 'G',
        'h' => 'H',
        'i' => 'I',
        'j' => 'J',
        'k' => 'K',
        'l' => 'L',
        'm' => 'M',
        'n' => 'N',
        'o' => 'O',
        'p' => 'P',
        'q' => 'Q',
        'r' => 'R',
        's' => 'S',
        't' => 'T',
        'u' => 'U',
        'v' => 'V',
        'w' => 'W',
        'x' => 'X',
        'y' => 'Y',
        'z' => 'Z',
        _ => c,
    }
}

pub open spec fn spec_upper(s: Seq<char>) -> Seq<char> {
    s.map_values(|c: char| spec_upper_char(c))
}

pub open spec fn spec_spaces(n: int) -> Seq<char>
    decreases n,
{
    if n <= 0 {
        Seq::empty()
    } else {
        spec_spaces(n - 1).push(' ')
    }
}

/// `s` left-aligned in a field of width `w`: padded with spaces on the right,
/// never truncated.
pub open spec fn spec_pad(s: Seq<char>, w: int) -> Seq<char> {
    s + spec_spaces(w - s.len())
}

/// The indexes of the columns shown by default: those with priority `0`, in
/// their defined order, scanning from `pos`.
pub open spec fn spec_default_columns_from(cols: Seq<TableColumnDefinition>, pos: int) -> Seq<int>
    decreases cols.len() - pos,
{
    if pos < 0 || pos >= cols.len() {
        Seq::empty()
    } else if cols[pos].priority == 0 {
        seq![pos] + spec_default_columns_from(cols, pos + 1)
    } else {
        spec_default_columns_from(cols, pos + 1)
    }
}

/// The widest projection in column `col`, starting from a base width and
/// scanning the rows from `pos` on.
pub open spec fn spec_col_width_from(rows: Seq<TableRow>, col: int, base: int, pos: int) -> int
    decreases rows.len() - pos,
{
    if pos < 0 || pos >= rows.len() {
        base
    } else {
        let l = spec_value_str(rows[pos].cells@[col]).len() as int;
        spec_col_width_from(rows, col, if base < l {
            l
        } else {
            base
        }, pos + 1)
    }
}

/// Parts joined by the three-space gutter.
pub open spec fn spec_join_cells(parts: Seq<Seq<char>>) -> Seq<char>
    decreases parts.len(),
{
    if parts.len() == 0 {
        Seq::empty()
    } else if parts.len() == 1 {
        parts[0]
    } else {
        spec_join_cells(parts.drop_last()) + "   "@ + parts.last()
    }
}

/// One header cell: the column name upper-cased, padded to the column width
/// and wrapped in the dim-color escape.
pub open spec fn spec_header_cell(name: Seq<char>, w: int) -> Seq<char> {
    "\u{1b}[90m"@ + spec_pad(spec_upper(name), w) + "\u{1b}[0m"@
}

pub open spec fn spec_header_cells(
    cols: Seq<TableColumnDefinition>,
    sel: Seq<int>,
    widths: Seq<int>,
) -> Seq<Seq<char>> {
    Seq::new(sel.len(), |j: int| spec_header_cell(cols[sel[j]].name@, widths[j]))
}

pub open spec fn spec_row_cells(row: TableRow, sel: Seq<int>, widths: Seq<int>) -> Seq<Seq<char>> {
    Seq::new(sel.len(), |j: int| spec_pad(spec_value_str(row.cells@[sel[j]]), widths[j]))
}

/// The row lines, each opened by a newline, in order.
pub open spec fn spec_body(rows: Seq<TableRow>, sel: Seq<int>, widths: Seq<int>) -> Seq<char>
    decreases rows.len(),
{
    if rows.len() == 0 {
        Seq::empty()
    } else {
        spec_body(rows.drop_last(), sel, widths) + "\n"@ + spec_join_cells(
            spec_row_cells(rows.last(), sel, widths),
        )
    }
}

/// The whole plain-text rendering: default columns only, per-column width the
/// maximum of header and cell widths, dim-colored header line, one line per
/// row, three-space gutters.
pub open spec fn spec_to_print(cols: Seq<TableColumnDefinition>, rows: Seq<TableRow>) -> Seq<
    char,
> {
    let sel = spec_default_columns_from(cols, 0);
    let widths = Seq::new(
        sel.len(),
        |j: int| spec_col_width_from(rows, sel[j], cols[sel[j]].name@.len() as int, 0),
    );
    spec_join_cells(spec_header_cells(cols, sel, widths)) + spec_body(rows, sel, widths)
}

/// The indexes found are never more numerous than the names asked for, and
/// their number is exactly the count of names present among the columns.
pub proof fn lemma_find_indexes_counts(
    cols: Seq<TableColumnDefinition>,
    names: Seq<Seq<char>>,
    pos: int,
)
    ensures
        0 <= pos <= names.len() ==> spec_find_indexes_from(cols, names, pos).len() <= names.len()
            - pos,
        spec_find_indexes_from(cols, names, pos).len() == spec_count_present(cols, names, pos),
    decreases names.len() - pos,
{
    if 0 <= pos < names.len() {
        lemma_find_indexes_counts(cols, names, pos + 1);
    }
}

/// The flat header-and-rows snapshot a polling worker publishes. Every value
/// of this type keeps one cell per header column in every row.
#[derive(Debug)]
pub struct KubeTable {
    header: Vec<String>,
    rows: Vec<Vec<String>>,
}

/// Every row has exactly one cell per header column.
pub open spec fn kube_rows_match(header: Seq<String>, rows: Seq<Vec<String>>) -> bool {
    forall|i: int| 0 <= i < rows.len() ==> (#[trigger] rows[i])@.len() == header.len()
}

impl KubeTable {
    #[verifier::type_invariant]
    spec fn wf(self) -> bool {
        kube_rows_match(self.header@, self.rows@)
    }

    pub closed spec fn spec_header(self) -> Seq<String> {
        self.header@
    }

    pub closed spec fn spec_rows(self) -> Seq<Vec<String>> {
        self.rows@
    }

    /// Builds a snapshot, rejecting rows that do not align with the header.
    pub fn new(header: Vec<String>, rows: Vec<Vec<String>>) -> (r: Option<KubeTable>)
        ensures
            match r {
                Some(t) => t.spec_header() == header@ && t.spec_rows() == rows@
                    && kube_rows_match(header@, rows@),
                None => !kube_rows_match(header@, rows@),
            },
    {
        let mut i: usize = 0;
        while i < rows.len()
            invariant
                i <= rows@.len(),
                forall|j: int| 0 <= j < i ==> (#[trigger] rows@[j])@.len() == header@.len(),
            decreases rows@.len() - i,
        {
            if rows[i].len() != header.len() {
                return None;
            }
            i = i + 1;
        }
        Some(KubeTable { header, rows })
    }

    pub fn header(&self) -> (r: &Vec<String>)
        ensures
            r@ == self.spec_header(),
    {
        &self.header
    }

    /// Besides handing the rows out, this states the construction-time
    /// invariant: each row has exactly one cell per header column.
    pub fn rows(&self) -> (r: &Vec<Vec<String>>)
        ensures
            r@ == self.spec_rows(),
            kube_rows_match(self.spec_header(), self.spec_rows()),
    {
        proof {
            use_type_invariant(self);
        }
        &self.rows
    }

    /// Replaces the rows wholesale; rows that do not align are refused and
    /// nothing changes.
    pub fn update_rows(&mut self, rows: Vec<Vec<String>>) -> (ok: bool)
        ensures
            ok == kube_rows_match(old(self).spec_header(), rows@),
            final(self).spec_header() == old(self).spec_header(),
            final(self).spec_rows() == (if ok {
                rows@
            } else {
                old(self).spec_rows()
            }),
    {
        let mut i: usize = 0;
        while i < rows.len()
            invariant
                i <= rows@.len(),
                self == old(self),
                forall|j: int| 0 <= j < i ==> (#[trigger] rows@[j])@.len()
                    == self.header@.len(),
            decreases rows@.len() - i,
        {
            if rows[i].len() != self.header.len() {
                return false;
            }
            i = i + 1;
        }
        self.rows = rows;
        true
    }
}

} // verus!
