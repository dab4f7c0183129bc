//! The data that a formula is laid out against: the columns of a table, each
//! with its name, its kind, the text of its values and its distinct values,
//! and what makes such a table valid.

use crate::ast::Text;
use crate::text::chars_of;
use vstd::prelude::*;

verus! {

/// How the data engine types a column: text, 64-bit integers, 64-bit
/// floating-point numbers, or anything else.
#[derive(Debug, Clone, Copy, PartialEq, Eq, Structural)]
pub enum ColumnKind {
    Str,
    Int,
    Float,
    Other,
}

/// One column of the data.
///
/// `values` holds one entry per row: the text of the value (for a number its
/// decimal form), or nothing where the value is missing. `levels` holds the
/// distinct values in the order in which the data engine sorts them, as text,
/// a missing value as the empty text. What ties the two together is
/// [`valid_column`].
#[derive(Debug, PartialEq)]
pub struct Column {
    pub name: String,
    pub kind: ColumnKind,
    pub values: Vec<Option<String>>,
    pub levels: Vec<String>,
}

/// The data: its columns and the number of its rows.
#[derive(Debug, PartialEq)]
pub struct Table {
    pub columns: Vec<Column>,
    pub height: usize,
}

pub struct ColumnView {
    pub name: Text,
    pub kind: ColumnKind,
    pub values: Seq<Option<Text>>,
    pub levels: Seq<Text>,
}

pub struct TableView {
    pub columns: Seq<ColumnView>,
    pub height: nat,
}

pub open spec fn option_texts(s: Seq<Option<String>>) -> Seq<Option<Text>> {
    Seq::new(
        s.len(),
        |i: int|
            match s[i] {
                Some(t) => Some(t@),
                None => None,
            },
    )
}

impl View for Column {
    type V = ColumnView;

    open spec fn view(&self) -> ColumnView {
        ColumnView {
            name: self.name@,
            kind: self.kind,
            values: option_texts(self.values@),
            levels: crate::ast::texts_view(self.levels@),
        }
    }
}

pub open spec fn columns_view(s: Seq<Column>) -> Seq<ColumnView> {
    Seq::new(s.len(), |i: int| s[i]@)
}

impl View for Table {
    type V = TableView;

    open spec fn view(&self) -> TableView {
        TableView { columns: columns_view(self.columns@), height: self.height as nat }
    }
}

/// The index of the first column named `name` at or behind `from`, or the
/// number of columns where there is none.
pub open spec fn column_index(columns: Seq<ColumnView>, name: Text, from: int) -> int
    decreases columns.len() - from,
{
    if from < 0 || from >= columns.len() {
        columns.len() as int
    } else if columns[from].name == name {
        from
    } else {
        column_index(columns, name, from + 1)
    }
}

/// The first column named `name`.
pub open spec fn find_column(t: TableView, name: Text) -> Option<ColumnView> {
    let i = column_index(t.columns, name, 0);
    if 0 <= i < t.columns.len() {
        Some(t.columns[i])
    } else {
        None
    }
}

/// Whether text `a` stands before text `b` in the lexicographic order of
/// their characters.
pub open spec fn text_lt(a: Text, b: Text) -> bool
    decreases a.len(),
{
    if b.len() == 0 {
        false
    } else if a.len() == 0 {
        true
    } else if a[0] != b[0] {
        a[0] < b[0]
    } else {
        text_lt(a.drop_first(), b.drop_first())
    }
}

/// A rising list of distinct texts with one more text put in its place; the
/// list itself where it holds the text already.
pub open spec fn inserted(levels: Seq<Text>, v: Text) -> Seq<Text>
    decreases levels.len(),
{
    if levels.len() == 0 {
        seq![v]
    } else if levels.last() == v {
        levels
    } else if text_lt(levels.last(), v) {
        levels.push(v)
    } else {
        inserted(levels.drop_last(), v).push(levels.last())
    }
}

/// The distinct values of a column that are not missing, in rising order.
pub open spec fn levels_of(values: Seq<Option<Text>>) -> Seq<Text>
    decreases values.len(),
{
    if values.len() == 0 {
        Seq::empty()
    } else {
        match values.last() {
            Some(v) => inserted(levels_of(values.drop_last()), v),
            None => levels_of(values.drop_last()),
        }
    }
}

/// The rows of a column that hold the given text.
pub open spec fn marks(values: Seq<Option<Text>>, level: Text) -> Seq<bool> {
    Seq::new(values.len(), |i: int| values[i] == Some(level))
}

/// The text under which a value stands among the levels: its own, or the
/// empty text where it is missing.
pub open spec fn level_text(v: Option<Text>) -> Text {
    match v {
        Some(t) => t,
        None => Seq::empty(),
    }
}

/// Whether some row of a column holds a value with the given level text.
pub open spec fn is_level_of(values: Seq<Option<Text>>, level: Text) -> bool {
    exists|i: int| 0 <= i < values.len() && level_text(#[trigger] values[i]) == level
}

/// The number of distinct values of a column, a missing value counted as one
/// of them.
pub open spec fn distinct_count(values: Seq<Option<Text>>) -> nat
    decreases values.len(),
{
    if values.len() == 0 {
        0
    } else if values.drop_last().contains(values.last()) {
        distinct_count(values.drop_last())
    } else {
        distinct_count(values.drop_last()) + 1
    }
}

/// Whether a column fits a table of `height` rows: it has one value per row,
/// as many levels as distinct values, every level is the text of a value, and
/// the text of every value is a level.
pub open spec fn valid_column(c: ColumnView, height: nat) -> bool {
    &&& c.values.len() == height
    &&& c.levels.len() == distinct_count(c.values)
    &&& forall|j: int| 0 <= j < c.levels.len() ==> is_level_of(c.values, #[trigger] c.levels[j])
    &&& forall|i: int|
        0 <= i < c.values.len() ==> c.levels.contains(level_text(#[trigger] c.values[i]))
}

/// Whether every column of a table fits it.
pub open spec fn valid_table(t: TableView) -> bool {
    forall|k: int| 0 <= k < t.columns.len() ==> valid_column(#[trigger] t.columns[k], t.height)
}

fn same_value(a: &Option<String>, b: &Option<String>) -> (r: bool)
    ensures
        r == (option_texts(seq![*a])[0] == option_texts(seq![*b])[0]),
{
    match (a, b) {
        (Some(x), Some(y)) => *x == *y,
        (None, None) => true,
        _ => false,
    }
}

fn agrees_with_level(v: &Option<String>, level: &String) -> (r: bool)
    ensures
        r == (level_text(option_texts(seq![*v])[0]) == level@),
{
    match v {
        Some(x) => *x == *level,
        None => {
            assert(level@.len() == 0 ==> level@ =~= Seq::<char>::empty());
            level.as_str().unicode_len() == 0
        },
    }
}

fn seen_before(values: &Vec<Option<String>>, i: usize) -> (r: bool)
    requires
        i < values.len(),
    ensures
        r == option_texts(values@).take(i as int).contains(option_texts(values@)[i as int]),
{
    let ghost all = option_texts(values@);
    let mut j: usize = 0;
    while j < i
        invariant
            j <= i < values.len(),
            all == option_texts(values@),
            forall|k: int| 0 <= k < j ==> all[k] != all[i as int],
        decreases i - j,
    {
        assert(option_texts(seq![values@[j as int]])[0] == all[j as int]);
        assert(option_texts(seq![values@[i as int]])[0] == all[i as int]);
        if same_value(&values[j], &values[i]) {
            assert(all.take(i as int)[j as int] == all[i as int]);
            return true;
        }
        j += 1;
    }
    false
}

fn count_distinct(values: &Vec<Option<String>>) -> (r: usize)
    ensures
        r == distinct_count(option_texts(values@)),
{
    let ghost all = option_texts(values@);
    let mut count: usize = 0;
    let mut i: usize = 0;
    while i < values.len()
        invariant
            i <= values.len(),
            all == option_texts(values@),
            count == distinct_count(all.take(i as int)),
            count <= i,
        decreases values.len() - i,
    {
        proof {
            assert(all.take(i + 1).drop_last() =~= all.take(i as int));
            assert(all.take(i + 1).last() == all[i as int]);
        }
        if !seen_before(values, i) {
            count += 1;
        }
        i += 1;
    }
    assert(all.take(values.len() as int) =~= all);
    count
}

fn level_occurs(values: &Vec<Option<String>>, level: &String) -> (r: bool)
    ensures
        r == is_level_of(option_texts(values@), level@),
{
    let ghost all = option_texts(values@);
    let mut i: usize = 0;
    while i < values.len()
        invariant
            i <= values.len(),
            all == option_texts(values@),
            forall|k: int| 0 <= k < i ==> level_text(#[trigger] all[k]) != level@,
        decreases values.len() - i,
    {
        assert(option_texts(seq![values@[i as int]])[0] == all[i as int]);
        if agrees_with_level(&values[i], level) {
            return true;
        }
        i += 1;
    }
    false
}

fn value_is_level(levels: &Vec<String>, v: &Option<String>) -> (r: bool)
    ensures
        r == crate::ast::texts_view(levels@).contains(level_text(option_texts(seq![*v])[0])),
{
    let ghost all = crate::ast::texts_view(levels@);
    let ghost want = level_text(option_texts(seq![*v])[0]);
    let mut j: usize = 0;
    while j < levels.len()
        invariant
            j <= levels.len(),
            all == crate::ast::texts_view(levels@),
            want == level_text(option_texts(seq![*v])[0]),
            forall|k: int| 0 <= k < j ==> all[k] != want,
        decreases levels.len() - j,
    {
        assert(all[j as int] == levels@[j as int]@);
        if agrees_with_level(v, &levels[j]) {
            return true;
        }
        j += 1;
    }
    false
}

impl Column {
    /// Whether the column fits a table of `height` rows.
    pub fn is_valid(&self, height: usize) -> (r: bool)
        ensures
            r == valid_column(self@, height as nat),
    {
        let ghost c = self@;
        if self.values.len() != height || self.levels.len() != count_distinct(&self.values) {
            return false;
        }
        let mut j: usize = 0;
        while j < self.levels.len()
            invariant
                j <= self.levels.len(),
                c == self@,
                forall|k: int| 0 <= k < j ==> is_level_of(c.values, #[trigger] c.levels[k]),
            decreases self.levels.len() - j,
        {
            assert(c.levels[j as int] == self.levels@[j as int]@);
            if !level_occurs(&self.values, &self.levels[j]) {
                return false;
            }
            j += 1;
        }
        let mut i: usize = 0;
        while i < self.values.len()
            invariant
                i <= self.values.len(),
                c == self@,
                forall|k: int|
                    0 <= k < i ==> c.levels.contains(level_text(#[trigger] c.values[k])),
            decreases self.values.len() - i,
        {
            assert(option_texts(seq![self.values@[i as int]])[0] == c.values[i as int]);
            if !value_is_level(&self.levels, &self.values[i]) {
                return false;
            }
            i += 1;
        }
        true
    }
}

impl Table {
    /// Whether every column fits the table.
    pub fn is_valid(&self) -> (r: bool)
        ensures
            r == valid_table(self@),
    {
        let ghost t = self@;
        let mut k: usize = 0;
        while k < self.columns.len()
            invariant
                k <= self.columns.len(),
                t == self@,
                forall|j: int| 0 <= j < k ==> valid_column(#[trigger] t.columns[j], t.height),
            decreases self.columns.len() - k,
        {
            assert(t.columns[k as int] == self.columns@[k as int]@);
            if !self.columns[k].is_valid(self.height) {
                return false;
            }
            k += 1;
        }
        true
    }
}


/// Whether text `a` stands before text `b`.
pub fn text_less(a: &str, b: &str) -> (r: bool)
    ensures
        r == text_lt(a@, b@),
{
    let x = chars_of(a);
    let y = chars_of(b);
    let mut i: usize = 0;
    assert(x@.subrange(0, x@.len() as int) =~= x@);
    assert(y@.subrange(0, y@.len() as int) =~= y@);
    while i < x.len() && i < y.len() && x[i] == y[i]
        invariant
            i <= x.len(),
            i <= y.len(),
            text_lt(x@, y@) == text_lt(
                x@.subrange(i as int, x@.len() as int),
                y@.subrange(i as int, y@.len() as int),
            ),
        decreases x.len() - i,
    {
        proof {
            let xs = x@.subrange(i as int, x@.len() as int);
            let ys = y@.subrange(i as int, y@.len() as int);
            assert(xs[0] == x@[i as int]);
            assert(ys[0] == y@[i as int]);
            assert(xs.drop_first() =~= x@.subrange(i + 1, x@.len() as int));
            assert(ys.drop_first() =~= y@.subrange(i + 1, y@.len() as int));
        }
        i += 1;
    }
    proof {
        let xs = x@.subrange(i as int, x@.len() as int);
        let ys = y@.subrange(i as int, y@.len() as int);
        if i < x.len() {
            assert(xs[0] == x@[i as int]);
        }
        if i < y.len() {
            assert(ys[0] == y@[i as int]);
        }
    }
    if i >= y.len() {
        false
    } else if i >= x.len() {
        true
    } else {
        x[i] < y[i]
    }
}

fn insert_level(levels: &mut Vec<String>, v: &String)
    ensures
        crate::ast::texts_view(final(levels)@) == inserted(
            crate::ast::texts_view(old(levels)@),
            v@,
        ),
    decreases old(levels)@.len(),
{
    let ghost before = crate::ast::texts_view(levels@);
    if levels.len() == 0 {
        levels.push(v.clone());
        assert(crate::ast::texts_view(levels@) =~= seq![v@]);
        return ;
    }
    let n = levels.len();
    assert(before.last() == levels@[n - 1]@);
    if levels[n - 1] == *v {
        return ;
    }
    if text_less(levels[n - 1].as_str(), v.as_str()) {
        levels.push(v.clone());
        assert(crate::ast::texts_view(levels@) =~= before.push(v@));
        return ;
    }
    let last = levels.pop();
    assert(crate::ast::texts_view(levels@) =~= before.drop_last());
    insert_level(levels, v);
    match last {
        Some(t) => {
            let ghost mid = crate::ast::texts_view(levels@);
            levels.push(t);
            assert(crate::ast::texts_view(levels@) =~= mid.push(t@));
        },
        None => {},
    }
}

impl Column {
    /// The distinct values of the column that are not missing, in rising
    /// order.
    pub fn sorted_levels(&self) -> (r: Vec<String>)
        ensures
            crate::ast::texts_view(r@) == levels_of(self@.values),
    {
        let mut levels: Vec<String> = Vec::new();
        let mut i: usize = 0;
        let ghost all = option_texts(self.values@);
        assert(crate::ast::texts_view(levels@) =~= levels_of(all.take(0)));
        while i < self.values.len()
            invariant
                i <= self.values.len(),
                all == option_texts(self.values@),
                crate::ast::texts_view(levels@) == levels_of(all.take(i as int)),
            decreases self.values.len() - i,
        {
            proof {
                assert(all.take(i + 1).drop_last() =~= all.take(i as int));
                assert(all.take(i + 1).last() == all[i as int]);
            }
            match &self.values[i] {
                Some(v) => {
                    insert_level(&mut levels, v);
                },
                None => {},
            }
            i += 1;
        }
        assert(all.take(self.values.len() as int) =~= all);
        levels
    }

    /// The rows that hold the given text.
    pub fn indicator(&self, level: &str) -> (r: Vec<bool>)
        ensures
            r@ == marks(self@.values, level@),
    {
        let mut out: Vec<bool> = Vec::new();
        let mut i: usize = 0;
        let want = String::from_str(level);
        while i < self.values.len()
            invariant
                i <= self.values.len(),
                want@ == level@,
                out@.len() == i,
                forall|j: int| 0 <= j < i ==> out@[j] == (option_texts(self.values@)[j] == Some(level@)),
            decreases self.values.len() - i,
        {
            let hit = match &self.values[i] {
                Some(v) => *v == want,
                None => false,
            };
            out.push(hit);
            i += 1;
        }
        assert(out@ =~= marks(self@.values, level@));
        out
    }
}

impl Table {
    /// The first column named `name`.
    pub fn column(&self, name: &str) -> (r: Option<&Column>)
        ensures
            match r {
                Some(c) => find_column(self@, name@) == Some(c@),
                None => find_column(self@, name@) is None,
            },
    {
        let want = String::from_str(name);
        let ghost cols = columns_view(self.columns@);
        let mut i: usize = 0;
        while i < self.columns.len()
            invariant
                i <= self.columns.len(),
                want@ == name@,
                cols == columns_view(self.columns@),
                column_index(cols, name@, 0) == column_index(cols, name@, i as int),
            decreases self.columns.len() - i,
        {
            assert(cols[i as int] == self.columns@[i as int]@);
            if self.columns[i].name == want {
                return Some(&self.columns[i]);
            }
            i += 1;
        }
        None
    }
}

} // verus!
