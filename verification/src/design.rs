//! Design tables: what the columns of a design matrix are called and how
//! their numbers come from the data.

use crate::ast::Text;
use vstd::prelude::*;

verus! {

/// How the numbers of one column of a design table come from the data.
#[derive(Debug, PartialEq)]
pub enum Values {
    /// 1 in every row.
    Ones,
    /// 0 in every row.
    Zeros,
    /// The number with the given decimal text in every row.
    Constant(String),
    /// The column of the data with the given name, as it is.
    Column(String),
    /// 1 in the rows in which the column holds the level, else 0.
    Indicator { column: String, level: String },
    /// The number of `value` in the rows in which `column` holds the level,
    /// else 0.
    Masked { value: String, column: String, level: String },
    /// The numbers of the column raised to the exponent.
    Power { column: String, exponent: usize },
    /// The orthogonal polynomial of the given index among those of the given
    /// degree over the column: the power basis `1, x, .., x^degree` of the
    /// centered column made orthogonal from left to right, each vector
    /// divided by its norm, the constant one left out. Indices start at 1.
    Orthogonal { column: String, degree: usize, index: usize },
    /// The product of the factors, row by row.
    Product(Vec<Values>),
}

/// One column of a design table.
#[derive(Debug, PartialEq)]
pub struct DesignColumn {
    pub name: String,
    pub values: Values,
}

/// A design table: its columns in order, and the number of its rows.
#[derive(Debug, PartialEq)]
pub struct DesignTable {
    pub columns: Vec<DesignColumn>,
    pub rows: usize,
}

pub enum ValuesView {
    Ones,
    Zeros,
    Constant(Text),
    Column(Text),
    Indicator { column: Text, level: Text },
    Masked { value: Text, column: Text, level: Text },
    Power { column: Text, exponent: nat },
    Orthogonal { column: Text, degree: nat, index: nat },
    Product(Seq<ValuesView>),
}

pub struct DesignColumnView {
    pub name: Text,
    pub values: ValuesView,
}

pub struct DesignTableView {
    pub columns: Seq<DesignColumnView>,
    pub rows: nat,
}

pub open spec fn values_view(v: Values) -> ValuesView
    decreases v,
{
    match v {
        Values::Ones => ValuesView::Ones,
        Values::Zeros => ValuesView::Zeros,
        Values::Constant(n) => ValuesView::Constant(n@),
        Values::Column(c) => ValuesView::Column(c@),
        Values::Indicator { column, level } => ValuesView::Indicator {
            column: column@,
            level: level@,
        },
        Values::Masked { value, column, level } => ValuesView::Masked {
            value: value@,
            column: column@,
            level: level@,
        },
        Values::Power { column, exponent } => ValuesView::Power {
            column: column@,
            exponent: exponent as nat,
        },
        Values::Orthogonal { column, degree, index } => ValuesView::Orthogonal {
            column: column@,
            degree: degree as nat,
            index: index as nat,
        },
        Values::Product(fs) => ValuesView::Product(factors_view(fs@)),
    }
}

pub open spec fn factors_view(fs: Seq<Values>) -> Seq<ValuesView>
    decreases fs,
{
    Seq::new(
        fs.len(),
        |i: int|
            if 0 <= i < fs.len() {
                values_view(fs[i])
            } else {
                ValuesView::Ones
            },
    )
}

impl View for Values {
    type V = ValuesView;

    open spec fn view(&self) -> ValuesView {
        values_view(*self)
    }
}

impl View for DesignColumn {
    type V = DesignColumnView;

    open spec fn view(&self) -> DesignColumnView {
        DesignColumnView { name: self.name@, values: values_view(self.values) }
    }
}

pub open spec fn design_columns_view(s: Seq<DesignColumn>) -> Seq<DesignColumnView> {
    Seq::new(s.len(), |i: int| s[i]@)
}

impl View for DesignTable {
    type V = DesignTableView;

    open spec fn view(&self) -> DesignTableView {
        DesignTableView { columns: design_columns_view(self.columns@), rows: self.rows as nat }
    }
}

/// The names of the columns of a list.
pub open spec fn names_of(cols: Seq<DesignColumnView>) -> Seq<Text> {
    Seq::new(cols.len(), |i: int| cols[i].name)
}

/// A copy of the values of a column.
pub fn copy_values(v: &Values) -> (r: Values)
    ensures
        r@ == v@,
    decreases v,
{
    match v {
        Values::Ones => Values::Ones,
        Values::Zeros => Values::Zeros,
        Values::Constant(n) => Values::Constant(n.clone()),
        Values::Column(c) => Values::Column(c.clone()),
        Values::Indicator { column, level } => Values::Indicator {
            column: column.clone(),
            level: level.clone(),
        },
        Values::Masked { value, column, level } => Values::Masked {
            value: value.clone(),
            column: column.clone(),
            level: level.clone(),
        },
        Values::Power { column, exponent } => Values::Power {
            column: column.clone(),
            exponent: *exponent,
        },
        Values::Orthogonal { column, degree, index } => Values::Orthogonal {
            column: column.clone(),
            degree: *degree,
            index: *index,
        },
        Values::Product(fs) => {
            let mut out: Vec<Values> = Vec::new();
            let mut i: usize = 0;
            while i < fs.len()
                invariant
                    *v == Values::Product(*fs),
                    i <= fs.len(),
                    out@.len() == i,
                    forall|j: int| 0 <= j < i ==> out@[j]@ == fs@[j]@,
                decreases fs.len() - i,
            {
                proof {
                    assert(decreases_to!(*v => v->Product_0));
                    assert(decreases_to!(*fs => fs[i as int]));
                }
                out.push(copy_values(&fs[i]));
                i += 1;
            }
            assert(factors_view(out@) =~= factors_view(fs@));
            Values::Product(out)
        },
    }
}

impl Clone for Values {
    fn clone(&self) -> (r: Self)
        ensures
            r@ == self@,
    {
        copy_values(self)
    }
}

impl Clone for DesignColumn {
    fn clone(&self) -> (r: Self)
        ensures
            r@ == self@,
    {
        DesignColumn { name: self.name.clone(), values: copy_values(&self.values) }
    }
}

/// Appends a column to a list.
pub fn push_column(cols: &mut Vec<DesignColumn>, c: DesignColumn)
    ensures
        final(cols)@ == old(cols)@.push(c),
        design_columns_view(final(cols)@) == design_columns_view(old(cols)@).push(c@),
{
    cols.push(c);
    assert(design_columns_view(cols@) =~= design_columns_view(old(cols)@).push(c@));
}

/// Appends the columns of one list to another.
pub fn append_columns(cols: &mut Vec<DesignColumn>, more: Vec<DesignColumn>)
    ensures
        design_columns_view(final(cols)@) == design_columns_view(old(cols)@) + design_columns_view(
            more@,
        ),
{
    let mut more = more;
    let ghost first = cols@;
    let ghost second = more@;
    cols.append(&mut more);
    assert(cols@ =~= first + second);
    assert(design_columns_view(cols@) =~= design_columns_view(first) + design_columns_view(
        second,
    ));
}

impl DesignTable {
    /// The number of columns.
    pub fn width(&self) -> (r: usize)
        ensures
            r == self@.columns.len(),
    {
        self.columns.len()
    }

    /// The number of rows.
    pub fn height(&self) -> (r: usize)
        ensures
            r == self@.rows,
    {
        self.rows
    }

    /// The names of the columns, in order.
    pub fn get_column_names(&self) -> (r: Vec<String>)
        ensures
            crate::ast::texts_view(r@) == names_of(self@.columns),
    {
        let mut out: Vec<String> = Vec::new();
        let mut i: usize = 0;
        while i < self.columns.len()
            invariant
                i <= self.columns.len(),
                out@.len() == i,
                forall|j: int| 0 <= j < i ==> out@[j]@ == self.columns@[j].name@,
            decreases self.columns.len() - i,
        {
            out.push(self.columns[i].name.clone());
            i += 1;
        }
        assert(crate::ast::texts_view(out@) =~= names_of(self@.columns));
        out
    }
}

} // verus!
