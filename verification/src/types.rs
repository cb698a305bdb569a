//! Core types of the canvas: items, content kinds, and tabular data.
//!
//! Positions and sizes are whole canvas units; file paths are carried as
//! plain strings — reading the files they name is the caller's business.

use vstd::prelude::*;
use crate::text::{ascii_lower, check_float_literal, chars_vec, is_float_literal,
    to_lower_vec, string_from_chars, find_seq, matches_at, contains_seq};


verus! {

/// Which way a panel split runs.
#[derive(Clone, Copy, Debug, PartialEq, Eq, Structural)]
pub enum SplitDirection {
    Vertical,
    Horizontal,
}

/// Tool selected in the tool dock.
#[derive(Clone, Copy, Debug, PartialEq, Eq, Structural)]
pub enum ToolType {
    Select,
    Text,
    Arrow,
    Shape,
    Table,
    Chart,
}

impl Default for ToolType {
    fn default() -> (r: Self)
        ensures
            r == ToolType::Select,
    {
        ToolType::Select
    }
}

/// Shape kinds for the shape tool.
#[derive(Clone, Copy, Debug, PartialEq, Eq, Structural)]
pub enum ShapeType {
    Rectangle,
    RoundedRect,
    Ellipse,
}

impl Default for ShapeType {
    fn default() -> (r: Self)
        ensures
            r == ShapeType::Rectangle,
    {
        ShapeType::Rectangle
    }
}

/// Arrow head styles.
#[derive(Clone, Copy, Debug, PartialEq, Eq, Structural)]
pub enum ArrowHead {
    NoHead,
    Arrow,
    Diamond,
    Circle,
}

impl Default for ArrowHead {
    fn default() -> (r: Self)
        ensures
            r == ArrowHead::Arrow,
    {
        ArrowHead::Arrow
    }
}

/// Quadrant of an arrow's end offset, used to re-derive the directional
/// sign after a resize rather than trusting stored state.
#[derive(Clone, Copy, Debug, PartialEq, Eq, Structural)]
pub enum ArrowDirection {
    /// Both offsets non-negative.
    UpRight,
    /// Negative x offset, non-negative y.
    UpLeft,
    /// Non-negative x offset, negative y.
    DownRight,
    /// Both offsets negative.
    DownLeft,
}

impl ArrowDirection {
    /// Classify an end offset by the signs of its components.
    pub fn from_offset(offset: (i64, i64)) -> (r: ArrowDirection)
        ensures
            r == ArrowDirection::dir_of(offset.0 as int, offset.1 as int),
    {
        match (offset.0 >= 0, offset.1 >= 0) {
            (true, true) => ArrowDirection::UpRight,
            (false, true) => ArrowDirection::UpLeft,
            (true, false) => ArrowDirection::DownRight,
            (false, false) => ArrowDirection::DownLeft,
        }
    }

    /// The quadrant an offset with these component signs falls in.
    pub open spec fn dir_of(dx: int, dy: int) -> ArrowDirection {
        if dx >= 0 && dy >= 0 {
            ArrowDirection::UpRight
        } else if dx < 0 && dy >= 0 {
            ArrowDirection::UpLeft
        } else if dx >= 0 && dy < 0 {
            ArrowDirection::DownRight
        } else {
            ArrowDirection::DownLeft
        }
    }

    /// Sign multipliers corresponding to this quadrant.
    pub open spec fn signs_of(self) -> (int, int) {
        match self {
            ArrowDirection::UpRight => (1int, 1int),
            ArrowDirection::UpLeft => (-1int, 1int),
            ArrowDirection::DownRight => (1int, -1int),
            ArrowDirection::DownLeft => (-1int, -1int),
        }
    }

    /// The sign multipliers for this direction.
    pub fn to_signs(self) -> (r: (i64, i64))
        ensures
            (r.0 as int, r.1 as int) == self.signs_of(),
    {
        match self {
            ArrowDirection::UpRight => (1, 1),
            ArrowDirection::UpLeft => (-1, 1),
            ArrowDirection::DownRight => (1, -1),
            ArrowDirection::DownLeft => (-1, -1),
        }
    }
}

/// Data types a table column can carry.
#[derive(Clone, Copy, Debug, PartialEq, Eq, Structural)]
pub enum DataType {
    Text,
    Number,
    Boolean,
    Date,
}

impl Default for DataType {
    fn default() -> (r: Self)
        ensures
            r == DataType::Text,
    {
        DataType::Text
    }
}

/// Where a data source came from, for refresh and save-back.
#[derive(Clone, Debug)]
pub enum DataOrigin {
    /// Manually entered data.
    Manual,
    /// Imported from a CSV or TSV file.
    File { path: String, delimiter: char },
    /// Loaded from a JSON file, or from pasted JSON with no file behind it.
    Json { path: Option<String> },
    /// Fetched from an API URL.
    Api { url: String, last_fetched: Option<u64> },
}

/// A single cell value. A numeric cell keeps the literal it was read from,
/// so writing it back never reformats the number.
#[derive(Clone, Debug)]
pub enum DataCell {
    Text(String),
    /// A finite decimal number, stored as its literal spelling.
    Number(String),
    Boolean(bool),
    /// A date in ISO 8601 form.
    Date(String),
    Empty,
}

/// The text a cell shows and writes back.
pub open spec fn cell_text(c: DataCell) -> Seq<char> {
    match c {
        DataCell::Text(s) => s@,
        DataCell::Number(n) => n@,
        DataCell::Boolean(b) => if b { "true"@ } else { "false"@ },
        DataCell::Date(d) => d@,
        DataCell::Empty => Seq::empty(),
    }
}

/// The words that read as a true boolean cell, lowercased.
pub open spec fn is_true_word(s: Seq<char>) -> bool {
    s == "true"@ || s == "yes"@ || s == "1"@
}

/// The words that read as a false boolean cell, lowercased.
pub open spec fn is_false_word(s: Seq<char>) -> bool {
    s == "false"@ || s == "no"@ || s == "0"@
}

/// The relation `DataCell::parse` establishes between a trimmed value, a
/// type hint, and the resulting cell.
pub open spec fn parses_to(v: Seq<char>, hint: DataType, r: DataCell) -> bool {
    if v.len() == 0 {
        r is Empty
    } else {
        match hint {
            DataType::Number => if is_float_literal(v) {
                r matches DataCell::Number(t) && t@ == v
            } else {
                r matches DataCell::Text(t) && t@ == v
            },
            DataType::Boolean => if is_true_word(ascii_lower(v)) {
                r == DataCell::Boolean(true)
            } else if is_false_word(ascii_lower(v)) {
                r == DataCell::Boolean(false)
            } else {
                r matches DataCell::Text(t) && t@ == v
            },
            DataType::Date => r matches DataCell::Date(t) && t@ == v,
            DataType::Text => r matches DataCell::Text(t) && t@ == v,
        }
    }
}

impl DataCell {
    /// The cell's display text: the stored literal for text, numbers and
    /// dates, `true`/`false` for booleans, and nothing for an empty cell.
    pub fn to_string(&self) -> (r: String)
        ensures
            r@ == cell_text(*self),
    {
        match self {
            DataCell::Text(s) => s.clone(),
            DataCell::Number(n) => n.clone(),
            DataCell::Boolean(b) => if *b { "true".to_owned() } else { "false".to_owned() },
            DataCell::Date(d) => d.clone(),
            DataCell::Empty => String::new(),
        }
    }

    /// Parse a trimmed string into a cell under a type hint. An empty value
    /// is an empty cell; a number hint takes finite decimal literals; a
    /// boolean hint takes the usual yes/no words in any ASCII case; dates
    /// are kept verbatim; everything else falls back to text.
    pub fn parse(value: &str, hint: &DataType) -> (r: DataCell)
        ensures
            parses_to(value@, *hint, r),
    {
        let chars = chars_vec(value);
        if chars.len() == 0 {
            return DataCell::Empty;
        }
        match hint {
            DataType::Number => {
                if check_float_literal(&chars) {
                    DataCell::Number(value.to_owned())
                } else {
                    DataCell::Text(value.to_owned())
                }
            },
            DataType::Boolean => {
                let lower = to_lower_vec(&chars);
                let t1 = chars_vec("true");
                let y1 = chars_vec("yes");
                let o1 = chars_vec("1");
                let f1 = chars_vec("false");
                let n1 = chars_vec("no");
                let z1 = chars_vec("0");
                if crate::text::chars_eq(&lower, &t1) || crate::text::chars_eq(&lower, &y1)
                    || crate::text::chars_eq(&lower, &o1) {
                    DataCell::Boolean(true)
                } else if crate::text::chars_eq(&lower, &f1) || crate::text::chars_eq(&lower, &n1)
                    || crate::text::chars_eq(&lower, &z1) {
                    DataCell::Boolean(false)
                } else {
                    DataCell::Text(value.to_owned())
                }
            },
            DataType::Date => DataCell::Date(value.to_owned()),
            DataType::Text => DataCell::Text(value.to_owned()),
        }
    }
}

/// Column metadata.
#[derive(Clone, Debug)]
pub struct DataColumn {
    /// Column name shown in the header.
    pub name: String,
    /// Data type for this column.
    pub data_type: DataType,
    /// Optional rendering width in pixels at unit zoom.
    pub width: Option<u32>,
}

impl DataColumn {
    pub fn new(name: &str, data_type: DataType) -> (r: DataColumn)
        ensures
            r.name@ == name@,
            r.data_type == data_type,
            (r.width is None),
    {
        DataColumn { name: name.to_owned(), data_type, width: None }
    }
}

/// A row of cells.
#[derive(Clone, Debug)]
pub struct DataRow {
    pub cells: Vec<DataCell>,
}

impl DataRow {
    pub fn new(cells: Vec<DataCell>) -> (r: DataRow)
        ensures
            r.cells == cells,
    {
        DataRow { cells }
    }
}

/// A data source shared between table and chart items, referenced by id.
#[derive(Clone, Debug)]
pub struct DataSource {
    /// Unique identifier.
    pub id: u64,
    /// Human-readable name, from the file name or the user.
    pub name: String,
    /// Column definitions.
    pub columns: Vec<DataColumn>,
    /// Data rows.
    pub rows: Vec<DataRow>,
    /// Where the data came from.
    pub origin: DataOrigin,
    /// Whether the data has unsaved changes.
    pub dirty: bool,
}

impl DataSource {
    /// An empty three-by-three manual table ready for editing.
    pub fn new_empty(id: u64, name: String) -> (r: DataSource)
        ensures
            r.id == id,
            r.name == name,
            r.columns@.len() == 3,
            r.rows@.len() == 3,
            forall|i: int| 0 <= i < 3 ==> (#[trigger] r.rows@[i]).cells@.len() == 3,
            forall|i: int, j: int| 0 <= i < 3 && 0 <= j < 3
                ==> (#[trigger] r.rows@[i].cells@[j] is Empty),
            (r.origin is Manual),
            !r.dirty,
    {
        let mut columns: Vec<DataColumn> = Vec::new();
        columns.push(DataColumn::new("Column A", DataType::Text));
        columns.push(DataColumn::new("Column B", DataType::Text));
        columns.push(DataColumn::new("Column C", DataType::Text));
        let mut rows: Vec<DataRow> = Vec::new();
        let mut i: usize = 0;
        while i < 3
            invariant
                0 <= i <= 3,
                rows@.len() == i,
                forall|k: int| 0 <= k < i ==> (#[trigger] rows@[k]).cells@.len() == 3,
                forall|k: int, j: int| 0 <= k < i && 0 <= j < 3
                    ==> #[trigger] rows@[k].cells@[j] is Empty,
            decreases 3 - i,
        {
            let mut cells: Vec<DataCell> = Vec::new();
            cells.push(DataCell::Empty);
            cells.push(DataCell::Empty);
            cells.push(DataCell::Empty);
            rows.push(DataRow::new(cells));
            i = i + 1;
        }
        DataSource { id, name, columns, rows, origin: DataOrigin::Manual, dirty: false }
    }

    /// Whether this source can be saved back to a file.
    pub fn has_file_origin(&self) -> (r: bool)
        ensures
            r == (self.origin is File || (self.origin matches DataOrigin::Json { path } && path is Some)),
    {
        match &self.origin {
            DataOrigin::File { .. } => true,
            DataOrigin::Json { path: Some(_) } => true,
            _ => false,
        }
    }

    /// The file path behind this source, if it has one.
    pub fn file_path(&self) -> (r: Option<&String>)
        ensures
            match self.origin {
                DataOrigin::File { path, .. } => r matches Some(p) && p@ == path@,
                DataOrigin::Json { path: Some(p0) } => r matches Some(p) && p@ == p0@,
                _ => (r is None),
            },
    {
        match &self.origin {
            DataOrigin::File { path, .. } => Some(path),
            DataOrigin::Json { path: Some(p) } => Some(p),
            _ => None,
        }
    }

    /// Mark this source as holding unsaved changes.
    pub fn mark_dirty(&mut self)
        ensures
            *final(self) == (DataSource { dirty: true, ..*old(self) }),
    {
        self.dirty = true;
    }

    /// Mark this source as saved.
    pub fn mark_clean(&mut self)
        ensures
            *final(self) == (DataSource { dirty: false, ..*old(self) }),
    {
        self.dirty = false;
    }

    /// Whether this source holds unsaved changes.
    pub fn is_dirty(&self) -> (r: bool)
        ensures
            r == self.dirty,
    {
        self.dirty
    }

    /// Number of rows.
    pub fn row_count(&self) -> (r: usize)
        ensures
            r == self.rows@.len(),
    {
        self.rows.len()
    }

    /// Number of columns.
    pub fn column_count(&self) -> (r: usize)
        ensures
            r == self.columns@.len(),
    {
        self.columns.len()
    }

    /// Append an empty row, one cell per column.
    pub fn add_row(&mut self)
        ensures
            final(self).rows@.len() == old(self).rows@.len() + 1,
            final(self).rows@.drop_last() == old(self).rows@,
            final(self).rows@.last().cells@.len() == old(self).columns@.len(),
            forall|j: int| 0 <= j < old(self).columns@.len()
                ==> (#[trigger] final(self).rows@.last().cells@[j] is Empty),
            final(self).columns == old(self).columns,
            final(self).id == old(self).id,
            final(self).name == old(self).name,
            final(self).dirty == old(self).dirty,
    {
        let mut cells: Vec<DataCell> = Vec::new();
        let mut i: usize = 0;
        let n = self.columns.len();
        while i < n
            invariant
                0 <= i <= n,
                cells@.len() == i,
                forall|j: int| 0 <= j < i ==> #[trigger] cells@[j] is Empty,
            decreases n - i,
        {
            cells.push(DataCell::Empty);
            i = i + 1;
        }
        let row = DataRow::new(cells);
        self.rows.push(row);
        proof {
            assert(final(self).rows@.drop_last() =~= old(self).rows@);
        }
    }

    /// Append a column, padding every row with an empty cell.
    pub fn add_column(&mut self, name: String, data_type: DataType)
        ensures
            final(self).columns@.len() == old(self).columns@.len() + 1,
            final(self).columns@.drop_last() == old(self).columns@,
            final(self).columns@.last().name@ == name@,
            final(self).columns@.last().data_type == data_type,
            final(self).rows@.len() == old(self).rows@.len(),
            forall|i: int| 0 <= i < old(self).rows@.len() ==> {
                &&& (#[trigger] final(self).rows@[i]).cells@.len() == old(self).rows@[i].cells@.len() + 1
                &&& final(self).rows@[i].cells@.drop_last() == old(self).rows@[i].cells@
                &&& final(self).rows@[i].cells@.last() is Empty
            },
            final(self).id == old(self).id,
    {
        let col = DataColumn::new(name.as_str(), data_type);
        self.columns.push(col);
        proof {
            assert(self.columns@.drop_last() =~= old(self).columns@);
        }
        let ghost cols = self.columns@;
        let n = self.rows.len();
        let mut i: usize = 0;
        while i < n
            invariant
                0 <= i <= n,
                self.rows@.len() == n,
                n == old(self).rows@.len(),
                self.columns@ == cols,
                cols.len() == old(self).columns@.len() + 1,
                cols.drop_last() == old(self).columns@,
                cols.last().name@ == name@,
                cols.last().data_type == data_type,
                self.id == old(self).id,
                self.name == old(self).name,
                self.dirty == old(self).dirty,
                forall|k: int| 0 <= k < i ==> {
                    &&& (#[trigger] self.rows@[k]).cells@.len() == old(self).rows@[k].cells@.len() + 1
                    &&& self.rows@[k].cells@.drop_last() == old(self).rows@[k].cells@
                    &&& self.rows@[k].cells@.last() is Empty
                },
                forall|k: int| i <= k < n ==> #[trigger] self.rows@[k] == old(self).rows@[k],
            decreases n - i,
        {
            let ghost before = self.rows@[i as int].cells@;
            let row_ref = &mut self.rows[i];
            row_ref.cells.push(DataCell::Empty);
            proof {
                assert(self.rows@[i as int].cells@.drop_last() =~= before);
            }
            i = i + 1;
        }
    }
}

/// Chart kinds available for a data source.
#[derive(Clone, Copy, Debug, Hash, PartialEq, Eq, Structural)]
pub enum ChartType {
    Line,
    Bar,
    Area,
    Pie,
    Scatter,
}

impl Default for ChartType {
    fn default() -> (r: Self)
        ensures
            r == ChartType::Bar,
    {
        ChartType::Bar
    }
}

impl ChartType {
    /// Human-readable name of the chart kind.
    pub fn label(&self) -> (r: &'static str)
        ensures
            r@ == chart_type_label(*self),
    {
        match self {
            ChartType::Line => "Line",
            ChartType::Bar => "Bar",
            ChartType::Area => "Area",
            ChartType::Pie => "Pie",
            ChartType::Scatter => "Scatter",
        }
    }

    /// Every chart kind, in menu order.
    pub fn all() -> (r: Vec<ChartType>)
        ensures
            r@ == seq![ChartType::Bar, ChartType::Line, ChartType::Area, ChartType::Pie, ChartType::Scatter],
    {
        let mut v: Vec<ChartType> = Vec::new();
        v.push(ChartType::Bar);
        v.push(ChartType::Line);
        v.push(ChartType::Area);
        v.push(ChartType::Pie);
        v.push(ChartType::Scatter);
        proof {
            assert(v@ =~= seq![ChartType::Bar, ChartType::Line, ChartType::Area, ChartType::Pie, ChartType::Scatter]);
        }
        v
    }
}

pub open spec fn chart_type_label(t: ChartType) -> Seq<char> {
    match t {
        ChartType::Line => "Line"@,
        ChartType::Bar => "Bar"@,
        ChartType::Area => "Area"@,
        ChartType::Pie => "Pie"@,
        ChartType::Scatter => "Scatter"@,
    }
}

/// How Y values are combined when several rows share an X value.
#[derive(Clone, Copy, Debug, Hash, PartialEq, Eq, Structural)]
pub enum AggregationType {
    /// No aggregation: raw values, duplicates and all.
    Raw,
    /// Sum the values of each group.
    Sum,
    /// Average the values of each group.
    Average,
    /// Count the rows of each group.
    Count,
    /// Smallest value of each group.
    Min,
    /// Largest value of each group.
    Max,
}

impl Default for AggregationType {
    fn default() -> (r: Self)
        ensures
            r == AggregationType::Sum,
    {
        AggregationType::Sum
    }
}

pub open spec fn aggregation_label(t: AggregationType) -> Seq<char> {
    match t {
        AggregationType::Raw => "None"@,
        AggregationType::Sum => "Sum"@,
        AggregationType::Average => "Average"@,
        AggregationType::Count => "Count"@,
        AggregationType::Min => "Min"@,
        AggregationType::Max => "Max"@,
    }
}

impl AggregationType {
    /// Human-readable name of the aggregation.
    pub fn label(&self) -> (r: &'static str)
        ensures
            r@ == aggregation_label(*self),
    {
        match self {
            AggregationType::Raw => "None",
            AggregationType::Sum => "Sum",
            AggregationType::Average => "Average",
            AggregationType::Count => "Count",
            AggregationType::Min => "Min",
            AggregationType::Max => "Max",
        }
    }

    /// Every aggregation, in menu order.
    pub fn all() -> (r: Vec<AggregationType>)
        ensures
            r@ == seq![AggregationType::Sum, AggregationType::Average, AggregationType::Count,
                AggregationType::Min, AggregationType::Max, AggregationType::Raw],
    {
        let mut v: Vec<AggregationType> = Vec::new();
        v.push(AggregationType::Sum);
        v.push(AggregationType::Average);
        v.push(AggregationType::Count);
        v.push(AggregationType::Min);
        v.push(AggregationType::Max);
        v.push(AggregationType::Raw);
        proof {
            assert(v@ =~= seq![AggregationType::Sum, AggregationType::Average, AggregationType::Count,
                AggregationType::Min, AggregationType::Max, AggregationType::Raw]);
        }
        v
    }
}

/// Sort order applied to chart data before rendering.
#[derive(Clone, Copy, Debug, Hash, PartialEq, Eq, Structural)]
pub enum SortOrder {
    /// Keep the source order.
    Unsorted,
    /// By label, ascending.
    LabelAsc,
    /// By label, descending.
    LabelDesc,
    /// By value, ascending.
    ValueAsc,
    /// By value, descending.
    ValueDesc,
}

impl Default for SortOrder {
    fn default() -> (r: Self)
        ensures
            r == SortOrder::Unsorted,
    {
        SortOrder::Unsorted
    }
}

pub open spec fn sort_order_label(t: SortOrder) -> Seq<char> {
    match t {
        SortOrder::Unsorted => "Original"@,
        SortOrder::LabelAsc => "Label A-Z"@,
        SortOrder::LabelDesc => "Label Z-A"@,
        SortOrder::ValueAsc => "Value ascending"@,
        SortOrder::ValueDesc => "Value descending"@,
    }
}

impl SortOrder {
    /// Human-readable name of the sort order.
    pub fn label(&self) -> (r: &'static str)
        ensures
            r@ == sort_order_label(*self),
    {
        match self {
            SortOrder::Unsorted => "Original",
            SortOrder::LabelAsc => "Label A-Z",
            SortOrder::LabelDesc => "Label Z-A",
            SortOrder::ValueAsc => "Value ascending",
            SortOrder::ValueDesc => "Value descending",
        }
    }

    /// Every sort order, in menu order.
    pub fn all() -> (r: Vec<SortOrder>)
        ensures
            r@ == seq![SortOrder::Unsorted, SortOrder::LabelAsc, SortOrder::LabelDesc,
                SortOrder::ValueAsc, SortOrder::ValueDesc],
    {
        let mut v: Vec<SortOrder> = Vec::new();
        v.push(SortOrder::Unsorted);
        v.push(SortOrder::LabelAsc);
        v.push(SortOrder::LabelDesc);
        v.push(SortOrder::ValueAsc);
        v.push(SortOrder::ValueDesc);
        proof {
            assert(v@ =~= seq![SortOrder::Unsorted, SortOrder::LabelAsc, SortOrder::LabelDesc,
                SortOrder::ValueAsc, SortOrder::ValueDesc]);
        }
        v
    }
}

/// Configuration of a chart item.
#[derive(Debug)]
pub struct ChartConfig {
    /// Kind of chart to render.
    pub chart_type: ChartType,
    /// Column index supplying X labels.
    pub x_column: Option<usize>,
    /// Column indices supplying Y values.
    pub y_columns: Vec<usize>,
    /// Optional chart title.
    pub title: Option<String>,
    /// Whether to show the legend.
    pub show_legend: bool,
    /// How duplicate X values are combined.
    pub aggregation: AggregationType,
    /// Sort order for the data.
    pub sort_order: SortOrder,
}

/// The configuration every chart starts from: a bar chart of column 1 over
/// column 0, legend on, summed, unsorted.
pub open spec fn chart_config_default(c: ChartConfig) -> bool {
    &&& c.chart_type == ChartType::Bar
    &&& c.x_column == Some(0usize)
    &&& c.y_columns@ == seq![1usize]
    &&& c.title is None
    &&& c.show_legend
    &&& c.aggregation == AggregationType::Sum
    &&& c.sort_order == SortOrder::Unsorted
}

impl Default for ChartConfig {
    fn default() -> (r: Self)
        ensures
            chart_config_default(r),
    {
        let mut y: Vec<usize> = Vec::new();
        y.push(1);
        proof {
            assert(y@ =~= seq![1usize]);
        }
        ChartConfig {
            chart_type: ChartType::Bar,
            x_column: Some(0),
            y_columns: y,
            title: None,
            show_legend: true,
            aggregation: AggregationType::Sum,
            sort_order: SortOrder::Unsorted,
        }
    }
}

impl ChartConfig {
    /// The default configuration with the given chart kind.
    pub fn new(chart_type: ChartType) -> (r: ChartConfig)
        ensures
            r.chart_type == chart_type,
            r.x_column == Some(0usize),
            r.y_columns@ == seq![1usize],
            (r.title is None),
            r.show_legend,
            r.aggregation == AggregationType::Sum,
            r.sort_order == SortOrder::Unsorted,
    {
        let mut r = ChartConfig::default();
        r.chart_type = chart_type;
        r
    }

    /// Select the X column and the Y columns.
    pub fn with_columns(self, x: usize, y: Vec<usize>) -> (r: ChartConfig)
        ensures
            r == (ChartConfig { x_column: Some(x), y_columns: y, ..self }),
    {
        ChartConfig { x_column: Some(x), y_columns: y, ..self }
    }

    /// Set the chart title.
    pub fn with_title(self, title: String) -> (r: ChartConfig)
        ensures
            r.title matches Some(t) && t@ == title@,
            r.chart_type == self.chart_type,
            r.x_column == self.x_column,
            r.y_columns == self.y_columns,
            r.show_legend == self.show_legend,
            r.aggregation == self.aggregation,
            r.sort_order == self.sort_order,
    {
        ChartConfig { title: Some(title), ..self }
    }

    /// Set the aggregation.
    pub fn with_aggregation(self, aggregation: AggregationType) -> (r: ChartConfig)
        ensures
            r == (ChartConfig { aggregation, ..self }),
    {
        ChartConfig { aggregation, ..self }
    }

    /// Set the sort order.
    pub fn with_sort_order(self, sort_order: SortOrder) -> (r: ChartConfig)
        ensures
            r == (ChartConfig { sort_order, ..self }),
    {
        ChartConfig { sort_order, ..self }
    }
}

/// The content a canvas item displays. Path fields name files; reading
/// those files, and anything else that touches the disk, happens outside
/// this crate and is handed in as plain values.
#[derive(Debug)]
pub enum ItemContent {
    /// An image file.
    Image(String),
    /// Plain text.
    Text(String),
    /// A video file.
    Video(String),
    /// An audio file.
    Audio(String),
    /// A PDF document with an optional pre-rendered thumbnail image.
    Pdf { path: String, thumbnail: Option<String> },
    /// A web link.
    Link(String),
    /// An embedded video, by its site-assigned id.
    YouTube(String),
    /// A markdown document; the title comes from the file name and the
    /// content is filled in by whoever read the file.
    Markdown { path: String, title: String, content: String },
    /// A source code file with a language tag for highlighting.
    Code { path: String, language: String },
    /// An editable text box.
    TextBox { text: String, font_size: i64, color: String },
    /// An arrow from the item position to `position + end_offset`.
    Arrow { end_offset: (i64, i64), color: String, thickness: i64, head_style: ArrowHead },
    /// A shape with optional fill and a border.
    Shape { shape_type: ShapeType, fill_color: Option<String>, border_color: String, border_width: i64 },
    /// A data table backed by a shared data source.
    Table { data_source_id: u64, show_headers: bool, stripe: bool },
    /// A chart backed by a shared data source.
    Chart { data_source_id: u64, source_item_id: Option<u64>, config: ChartConfig },
}

/// An item placed on the infinite canvas.
#[derive(Debug)]
pub struct CanvasItem {
    /// Unique identifier.
    pub id: u64,
    /// Position on the canvas, in canvas units.
    pub position: (i64, i64),
    /// Size of the item, in canvas units.
    pub size: (i64, i64),
    /// What the item displays.
    pub content: ItemContent,
}

/// Mathematical view of a chart configuration.
pub struct ConfigV {
    pub chart_type: ChartType,
    pub x_column: Option<int>,
    pub y_columns: Seq<int>,
    pub title: Option<Seq<char>>,
    pub show_legend: bool,
    pub aggregation: AggregationType,
    pub sort_order: SortOrder,
}

impl View for ChartConfig {
    type V = ConfigV;

    open spec fn view(&self) -> ConfigV {
        ConfigV {
            chart_type: self.chart_type,
            x_column: match self.x_column {
                Some(x) => Some(x as int),
                None => None,
            },
            y_columns: self.y_columns@.map_values(|y: usize| y as int),
            title: match self.title {
                Some(t) => Some(t@),
                None => None,
            },
            show_legend: self.show_legend,
            aggregation: self.aggregation,
            sort_order: self.sort_order,
        }
    }
}

/// Mathematical view of an item's content: strings as character sequences,
/// machine integers as integers.
pub enum ContentV {
    Image(Seq<char>),
    Text(Seq<char>),
    Video(Seq<char>),
    Audio(Seq<char>),
    Pdf { path: Seq<char>, thumbnail: Option<Seq<char>> },
    Link(Seq<char>),
    YouTube(Seq<char>),
    Markdown { path: Seq<char>, title: Seq<char>, content: Seq<char> },
    Code { path: Seq<char>, language: Seq<char> },
    TextBox { text: Seq<char>, font_size: int, color: Seq<char> },
    Arrow { end_offset: (int, int), color: Seq<char>, thickness: int, head_style: ArrowHead },
    Shape { shape_type: ShapeType, fill_color: Option<Seq<char>>, border_color: Seq<char>, border_width: int },
    Table { data_source_id: u64, show_headers: bool, stripe: bool },
    Chart { data_source_id: u64, source_item_id: Option<u64>, config: ConfigV },
}

impl View for ItemContent {
    type V = ContentV;

    open spec fn view(&self) -> ContentV {
        match *self {
            ItemContent::Image(ref p) => ContentV::Image(p@),
            ItemContent::Text(ref t) => ContentV::Text(t@),
            ItemContent::Video(ref p) => ContentV::Video(p@),
            ItemContent::Audio(ref p) => ContentV::Audio(p@),
            ItemContent::Pdf { ref path, ref thumbnail } => ContentV::Pdf {
                path: path@,
                thumbnail: match thumbnail {
                    Some(t) => Some(t@),
                    None => None,
                },
            },
            ItemContent::Link(ref u) => ContentV::Link(u@),
            ItemContent::YouTube(ref id) => ContentV::YouTube(id@),
            ItemContent::Markdown { ref path, ref title, ref content } => ContentV::Markdown {
                path: path@,
                title: title@,
                content: content@,
            },
            ItemContent::Code { ref path, ref language } => ContentV::Code {
                path: path@,
                language: language@,
            },
            ItemContent::TextBox { ref text, font_size, ref color } => ContentV::TextBox {
                text: text@,
                font_size: font_size as int,
                color: color@,
            },
            ItemContent::Arrow { end_offset, ref color, thickness, head_style } => ContentV::Arrow {
                end_offset: (end_offset.0 as int, end_offset.1 as int),
                color: color@,
                thickness: thickness as int,
                head_style,
            },
            ItemContent::Shape { shape_type, ref fill_color, ref border_color, border_width } => ContentV::Shape {
                shape_type,
                fill_color: match fill_color {
                    Some(f) => Some(f@),
                    None => None,
                },
                border_color: border_color@,
                border_width: border_width as int,
            },
            ItemContent::Table { data_source_id, show_headers, stripe } => ContentV::Table {
                data_source_id,
                show_headers,
                stripe,
            },
            ItemContent::Chart { data_source_id, source_item_id, ref config } => ContentV::Chart {
                data_source_id,
                source_item_id,
                config: config@,
            },
        }
    }
}

/// Mathematical view of a canvas item.
pub struct ItemV {
    pub id: u64,
    pub position: (int, int),
    pub size: (int, int),
    pub content: ContentV,
}

impl View for CanvasItem {
    type V = ItemV;

    open spec fn view(&self) -> ItemV {
        ItemV {
            id: self.id,
            position: (self.position.0 as int, self.position.1 as int),
            size: (self.size.0 as int, self.size.1 as int),
            content: self.content@,
        }
    }
}

/// View of a whole item list.
pub open spec fn items_view(s: Seq<CanvasItem>) -> Seq<ItemV> {
    s.map_values(|it: CanvasItem| it@)
}

impl Clone for ChartConfig {
    fn clone(&self) -> (r: Self)
        ensures
            r@ == self@,
    {
        let mut y: Vec<usize> = Vec::new();
        let mut i: usize = 0;
        while i < self.y_columns.len()
            invariant
                0 <= i <= self.y_columns@.len(),
                y@ == self.y_columns@.take(i as int),
            decreases self.y_columns@.len() - i,
        {
            proof {
                assert(self.y_columns@.take(i + 1) =~= self.y_columns@.take(i as int).push(self.y_columns@[i as int]));
            }
            y.push(self.y_columns[i]);
            i = i + 1;
        }
        proof {
            assert(self.y_columns@.take(self.y_columns@.len() as int) =~= self.y_columns@);
        }
        let r = ChartConfig {
            chart_type: self.chart_type,
            x_column: self.x_column,
            y_columns: y,
            title: match &self.title {
                Some(t) => Some(t.clone()),
                None => None,
            },
            show_legend: self.show_legend,
            aggregation: self.aggregation,
            sort_order: self.sort_order,
        };
        proof {
            assert(r@.y_columns =~= self@.y_columns);
        }
        r
    }
}

impl Clone for ItemContent {
    fn clone(&self) -> (r: Self)
        ensures
            r@ == self@,
    {
        match self {
            ItemContent::Image(p) => ItemContent::Image(p.clone()),
            ItemContent::Text(t) => ItemContent::Text(t.clone()),
            ItemContent::Video(p) => ItemContent::Video(p.clone()),
            ItemContent::Audio(p) => ItemContent::Audio(p.clone()),
            ItemContent::Pdf { path, thumbnail } => ItemContent::Pdf {
                path: path.clone(),
                thumbnail: match thumbnail {
                    Some(t) => Some(t.clone()),
                    None => None,
                },
            },
            ItemContent::Link(u) => ItemContent::Link(u.clone()),
            ItemContent::YouTube(id) => ItemContent::YouTube(id.clone()),
            ItemContent::Markdown { path, title, content } => ItemContent::Markdown {
                path: path.clone(),
                title: title.clone(),
                content: content.clone(),
            },
            ItemContent::Code { path, language } => ItemContent::Code {
                path: path.clone(),
                language: language.clone(),
            },
            ItemContent::TextBox { text, font_size, color } => ItemContent::TextBox {
                text: text.clone(),
                font_size: *font_size,
                color: color.clone(),
            },
            ItemContent::Arrow { end_offset, color, thickness, head_style } => ItemContent::Arrow {
                end_offset: *end_offset,
                color: color.clone(),
                thickness: *thickness,
                head_style: *head_style,
            },
            ItemContent::Shape { shape_type, fill_color, border_color, border_width } => ItemContent::Shape {
                shape_type: *shape_type,
                fill_color: match fill_color {
                    Some(f) => Some(f.clone()),
                    None => None,
                },
                border_color: border_color.clone(),
                border_width: *border_width,
            },
            ItemContent::Table { data_source_id, show_headers, stripe } => ItemContent::Table {
                data_source_id: *data_source_id,
                show_headers: *show_headers,
                stripe: *stripe,
            },
            ItemContent::Chart { data_source_id, source_item_id, config } => ItemContent::Chart {
                data_source_id: *data_source_id,
                source_item_id: *source_item_id,
                config: config.clone(),
            },
        }
    }
}

impl Clone for CanvasItem {
    fn clone(&self) -> (r: Self)
        ensures
            r@ == self@,
    {
        CanvasItem {
            id: self.id,
            position: self.position,
            size: self.size,
            content: self.content.clone(),
        }
    }
}

/// Numeric fields of the content are small enough for size arithmetic.
pub open spec fn content_in_range(c: ItemContent) -> bool {
    match c {
        ItemContent::Arrow { end_offset, .. } =>
            crate::geom::coord_in_range(end_offset.0) && crate::geom::coord_in_range(end_offset.1),
        _ => true,
    }
}

/// The size a freshly placed item of this content gets, before the user
/// resizes it. An arrow's box hugs its offset, with a small minimum.
pub open spec fn default_size_spec(c: ItemContent) -> (int, int) {
    match c {
        ItemContent::Image(_) => (800int, 600int),
        ItemContent::Text(_) => (300int, 100int),
        ItemContent::Video(_) => (400int, 300int),
        ItemContent::Audio(_) => (320int, 160int),
        ItemContent::Pdf { .. } => (180int, 240int),
        ItemContent::Link(_) => (300int, 150int),
        ItemContent::YouTube(_) => (560int, 315int),
        ItemContent::Markdown { .. } => (200int, 36int),
        ItemContent::Code { .. } => (200int, 36int),
        ItemContent::TextBox { .. } => (200int, 100int),
        ItemContent::Arrow { end_offset, .. } => {
            let w = if end_offset.0 >= 0 { end_offset.0 as int } else { -(end_offset.0 as int) };
            let h = if end_offset.1 >= 0 { end_offset.1 as int } else { -(end_offset.1 as int) };
            (if w >= 50 { w } else { 50int }, if h >= 20 { h } else { 20int })
        },
        ItemContent::Shape { .. } => (150int, 100int),
        ItemContent::Table { .. } => (200int, 36int),
        ItemContent::Chart { .. } => (400int, 300int),
    }
}

/// A file name, or `Unknown` where a path ends in none.
pub open spec fn name_or_unknown(n: Seq<char>) -> Seq<char> {
    if n.len() == 0 {
        "Unknown"@
    } else {
        n
    }
}

/// What `display_name` shows for each content kind.
pub open spec fn display_name_spec(c: ItemContent) -> Seq<char> {
    match c {
        ItemContent::Image(p) => name_or_unknown(crate::text::file_name_of(p@)),
        ItemContent::Video(p) => name_or_unknown(crate::text::file_name_of(p@)),
        ItemContent::Audio(p) => name_or_unknown(crate::text::file_name_of(p@)),
        ItemContent::Pdf { path, .. } => name_or_unknown(crate::text::file_name_of(path@)),
        ItemContent::Text(t) => t@,
        ItemContent::Link(u) => u@,
        ItemContent::YouTube(id) => "YouTube: "@ + id@,
        ItemContent::Markdown { title, .. } => title@,
        ItemContent::Code { path, .. } => name_or_unknown(crate::text::file_name_of(path@)),
        ItemContent::TextBox { .. } => "TextBox"@,
        ItemContent::Arrow { .. } => "Arrow"@,
        ItemContent::Shape { shape_type, .. } => match shape_type {
            ShapeType::Rectangle => "Rectangle"@,
            ShapeType::RoundedRect => "Rounded Rect"@,
            ShapeType::Ellipse => "Ellipse"@,
        },
        ItemContent::Table { .. } => "Table"@,
        ItemContent::Chart { config, .. } => chart_type_label(config.chart_type) + " Chart"@,
    }
}

impl ItemContent {
    /// The size a freshly placed item of this content gets. For images this
    /// is the fallback box; when the true pixel dimensions are known,
    /// `image_fit_size` gives the better answer.
    pub fn default_size(&self) -> (r: (i64, i64))
        requires
            content_in_range(*self),
        ensures
            (r.0 as int, r.1 as int) == default_size_spec(*self),
    {
        match self {
            ItemContent::Image(_) => (800, 600),
            ItemContent::Text(_) => (300, 100),
            ItemContent::Video(_) => (400, 300),
            ItemContent::Audio(_) => (320, 160),
            ItemContent::Pdf { .. } => (180, 240),
            ItemContent::Link(_) => (300, 150),
            ItemContent::YouTube(_) => (560, 315),
            ItemContent::Markdown { .. } => (200, 36),
            ItemContent::Code { .. } => (200, 36),
            ItemContent::TextBox { .. } => (200, 100),
            ItemContent::Arrow { end_offset, .. } => {
                let w: i64 = if end_offset.0 >= 0 { end_offset.0 } else { -end_offset.0 };
                let h: i64 = if end_offset.1 >= 0 { end_offset.1 } else { -end_offset.1 };
                (if w >= 50 { w } else { 50 }, if h >= 20 { h } else { 20 })
            },
            ItemContent::Shape { .. } => (150, 100),
            ItemContent::Table { .. } => (200, 36),
            ItemContent::Chart { .. } => (400, 300),
        }
    }

    /// The name shown for the item in search results and lists.
    pub fn display_name(&self) -> (r: String)
        ensures
            r@ == display_name_spec(*self),
    {
        match self {
            ItemContent::Image(p) => path_display_name(p),
            ItemContent::Video(p) => path_display_name(p),
            ItemContent::Audio(p) => path_display_name(p),
            ItemContent::Pdf { path, .. } => path_display_name(path),
            ItemContent::Text(t) => t.clone(),
            ItemContent::Link(u) => u.clone(),
            ItemContent::YouTube(id) => {
                let mut s = "YouTube: ".to_owned();
                s.append(id.as_str());
                s
            },
            ItemContent::Markdown { title, .. } => title.clone(),
            ItemContent::Code { path, .. } => path_display_name(path),
            ItemContent::TextBox { .. } => "TextBox".to_owned(),
            ItemContent::Arrow { .. } => "Arrow".to_owned(),
            ItemContent::Shape { shape_type, .. } => match shape_type {
                ShapeType::Rectangle => "Rectangle".to_owned(),
                ShapeType::RoundedRect => "Rounded Rect".to_owned(),
                ShapeType::Ellipse => "Ellipse".to_owned(),
            },
            ItemContent::Table { .. } => "Table".to_owned(),
            ItemContent::Chart { config, .. } => {
                let mut s = config.chart_type.label().to_owned();
                s.append(" Chart");
                s
            },
        }
    }

    /// Whether the item should appear in search results: file-backed and
    /// textual content does, decoration (text boxes, arrows, shapes,
    /// charts) does not.
    pub fn is_searchable(&self) -> (r: bool)
        ensures
            r == !(*self is TextBox || *self is Arrow || *self is Shape || *self is Chart),
    {
        !matches!(self,
            ItemContent::TextBox { .. }
            | ItemContent::Arrow { .. }
            | ItemContent::Shape { .. }
            | ItemContent::Chart { .. })
    }
}

/// Scale image pixel dimensions to fit the maximum item dimension while
/// keeping the aspect ratio: the longer side is capped at 800 and the
/// shorter side scaled down in proportion (flooring); smaller images keep
/// their size.
pub open spec fn image_fit_spec(w: int, h: int) -> (int, int) {
    if w > h {
        if w > 800 {
            (800int, 800 * h / w)
        } else {
            (w, h)
        }
    } else {
        if h > 800 {
            (800 * w / h, 800int)
        } else {
            (w, h)
        }
    }
}

/// The canvas size an image of `width` by `height` pixels gets when placed.
pub fn image_fit_size(width: u64, height: u64) -> (r: (i64, i64))
    requires
        1 <= width <= 1_000_000_000,
        1 <= height <= 1_000_000_000,
    ensures
        (r.0 as int, r.1 as int) == image_fit_spec(width as int, height as int),
{
    if width > height {
        if width > 800 {
            let scaled: u64 = 800 * height / width;
            (800, scaled as i64)
        } else {
            (width as i64, height as i64)
        }
    } else {
        if height > 800 {
            let scaled: u64 = 800 * width / height;
            (scaled as i64, 800)
        } else {
            (width as i64, height as i64)
        }
    }
}

/// Index of the first match of `pat` in `s` at or after `i`, or `-1`.
pub open spec fn find_at(s: Seq<char>, pat: Seq<char>, i: int) -> int
    decreases s.len() - i + 1,
{
    if i < 0 || i + pat.len() > s.len() {
        -1
    } else if matches_at(s, pat, i) {
        i
    } else {
        find_at(s, pat, i + 1)
    }
}

/// Index of the first match of `pat` in `s`, or `-1`.
pub open spec fn find_first(s: Seq<char>, pat: Seq<char>) -> int {
    find_at(s, pat, 0)
}

/// A match at `i` with no match before it pins `find_at` down from any
/// earlier start.
pub proof fn lemma_find_at_first(s: Seq<char>, pat: Seq<char>, i: int, k: int)
    requires
        0 <= k <= i,
        matches_at(s, pat, i),
        forall|j: int| k <= j < i ==> !matches_at(s, pat, j),
    ensures
        find_at(s, pat, k) == i,
    decreases i - k,
{
    if k < i {
        lemma_find_at_first(s, pat, i, k + 1);
    }
}

/// With no match anywhere, `find_at` is `-1`.
pub proof fn lemma_find_at_none(s: Seq<char>, pat: Seq<char>, k: int)
    requires
        !contains_seq(s, pat),
        k >= 0,
    ensures
        find_at(s, pat, k) == -1,
    decreases s.len() - k + 1,
{
    if !(k < 0 || k + pat.len() > s.len()) {
        assert(!matches_at(s, pat, k));
        lemma_find_at_none(s, pat, k + 1);
    }
}

/// Index of the first URL query or fragment delimiter in `s`, or `s.len()`.
/// The question mark counts only when `with_q` is set.
pub open spec fn first_url_delim(s: Seq<char>, i: int, with_q: bool) -> int
    decreases s.len() - i,
{
    if i < 0 || i >= s.len() {
        s.len() as int
    } else if s[i] == '&' || s[i] == '#' || (with_q && s[i] == '?') {
        i
    } else {
        first_url_delim(s, i + 1, with_q)
    }
}

/// What `extract_youtube_id` finds in a URL: the text after the first
/// `youtu.be/` or `youtube.com/embed/` marker, or after the first `v=` of a
/// `youtube.com/watch` URL, cut at the next query or fragment delimiter
/// (for a `v=` parameter only `&` and `#` cut, as the `?` is already
/// behind).
pub open spec fn youtube_id_spec(s: Seq<char>) -> Option<Seq<char>> {
    if find_first(s, "youtu.be/"@) >= 0 {
        let a = s.subrange(find_first(s, "youtu.be/"@) + 9, s.len() as int);
        Some(a.take(first_url_delim(a, 0, true)))
    } else if find_first(s, "youtube.com/watch"@) >= 0 {
        if find_first(s, "v="@) >= 0 {
            let a = s.subrange(find_first(s, "v="@) + 2, s.len() as int);
            Some(a.take(first_url_delim(a, 0, false)))
        } else {
            None
        }
    } else if find_first(s, "youtube.com/embed/"@) >= 0 {
        let a = s.subrange(find_first(s, "youtube.com/embed/"@) + 18, s.len() as int);
        Some(a.take(first_url_delim(a, 0, true)))
    } else {
        None
    }
}

/// Extract the video id from a YouTube URL in any of its common shapes.
pub fn extract_youtube_id(url: &str) -> (r: Option<String>)
    ensures
        match r {
            Some(id) => youtube_id_spec(url@) matches Some(x) && id@ == x,
            None => (youtube_id_spec(url@) is None),
        },
{
    let chars = chars_vec(url);
    let n: usize = chars.len();
    let p_short = chars_vec("youtu.be/");
    let p_watch = chars_vec("youtube.com/watch");
    let p_vq = chars_vec("v=");
    let p_embed = chars_vec("youtube.com/embed/");
    proof {
        reveal_strlit("youtu.be/");
        reveal_strlit("youtube.com/watch");
        reveal_strlit("v=");
        reveal_strlit("youtube.com/embed/");
    }
    if let Some(i) = find_seq(&chars, &p_short) {
        proof {
            lemma_find_at_first(chars@, p_short@, i as int, 0);
            reveal_strlit("youtu.be/");
            assert(p_short@.len() == 9);
            assert(i + 9 <= n);
        }
        let id = cut_id(&chars, i + 9, true);
        return Some(string_from_chars(&id));
    }
    proof {
        lemma_find_at_none(chars@, p_short@, 0);
    }
    if let Some(_w) = find_seq(&chars, &p_watch) {
        proof {
            lemma_find_at_first(chars@, p_watch@, _w as int, 0);
        }
        if let Some(v) = find_seq(&chars, &p_vq) {
            proof {
                lemma_find_at_first(chars@, p_vq@, v as int, 0);
                reveal_strlit("v=");
                assert(p_vq@.len() == 2);
                assert(v + 2 <= n);
            }
            let id = cut_id(&chars, v + 2, false);
            return Some(string_from_chars(&id));
        }
        proof {
            lemma_find_at_none(chars@, p_vq@, 0);
        }
        return None;
    }
    proof {
        lemma_find_at_none(chars@, p_watch@, 0);
    }
    if let Some(i) = find_seq(&chars, &p_embed) {
        proof {
            lemma_find_at_first(chars@, p_embed@, i as int, 0);
            reveal_strlit("youtube.com/embed/");
            assert(p_embed@.len() == 18);
            assert(i + 18 <= n);
        }
        let id = cut_id(&chars, i + 18, true);
        return Some(string_from_chars(&id));
    }
    proof {
        lemma_find_at_none(chars@, p_embed@, 0);
    }
    None
}

/// The characters from `from` up to the next URL delimiter.
#[verifier::loop_isolation(false)]
fn cut_id(chars: &Vec<char>, from: usize, with_q: bool) -> (r: Vec<char>)
    requires
        from <= chars@.len(),
    ensures
        ({
            let a = chars@.subrange(from as int, chars@.len() as int);
            r@ == a.take(first_url_delim(a, 0, with_q))
        }),
{
    let ghost a = chars@.subrange(from as int, chars@.len() as int);
    let mut end: usize = from;
    while end < chars.len() && chars[end] != '&' && chars[end] != '#' && !(with_q && chars[end] == '?')
        invariant
            from <= end <= chars@.len(),
            first_url_delim(a, 0, with_q) == first_url_delim(a, end - from, with_q),
            forall|j: int| from <= j < end ==> chars@[j] != '&' && chars@[j] != '#' && (with_q ==> chars@[j] != '?'),
        decreases chars@.len() - end,
    {
        proof {
            assert(a[end - from] == chars@[end as int]);
        }
        end = end + 1;
    }
    proof {
        if end < chars@.len() {
            assert(a[end - from] == chars@[end as int]);
        }
        assert(first_url_delim(a, end - from, with_q) == end - from);
        assert(a.take(end - from) =~= chars@.subrange(from as int, end as int));
    }
    crate::text::subrange_vec(chars, from, end)
}

/// The highlighting language for a lowercased file extension, or `None`
/// for extensions no highlighter is known for.
pub open spec fn language_spec(e: Seq<char>) -> Option<Seq<char>> {
    if e == "rs"@ {
        Some("rust"@)
    } else if e == "py"@ {
        Some("python"@)
    } else if e == "js"@ {
        Some("javascript"@)
    } else if e == "ts"@ {
        Some("typescript"@)
    } else if e == "jsx"@ {
        Some("javascript"@)
    } else if e == "tsx"@ {
        Some("typescript"@)
    } else if e == "go"@ {
        Some("go"@)
    } else if e == "c"@ {
        Some("c"@)
    } else if e == "h"@ {
        Some("c"@)
    } else if e == "cpp"@ {
        Some("cpp"@)
    } else if e == "cc"@ {
        Some("cpp"@)
    } else if e == "cxx"@ {
        Some("cpp"@)
    } else if e == "hpp"@ {
        Some("cpp"@)
    } else if e == "hxx"@ {
        Some("cpp"@)
    } else if e == "java"@ {
        Some("java"@)
    } else if e == "kt"@ {
        Some("kotlin"@)
    } else if e == "kts"@ {
        Some("kotlin"@)
    } else if e == "swift"@ {
        Some("swift"@)
    } else if e == "rb"@ {
        Some("ruby"@)
    } else if e == "php"@ {
        Some("php"@)
    } else if e == "cs"@ {
        Some("csharp"@)
    } else if e == "fs"@ {
        Some("fsharp"@)
    } else if e == "fsx"@ {
        Some("fsharp"@)
    } else if e == "scala"@ {
        Some("scala"@)
    } else if e == "lua"@ {
        Some("lua"@)
    } else if e == "sh"@ {
        Some("bash"@)
    } else if e == "bash"@ {
        Some("bash"@)
    } else if e == "zsh"@ {
        Some("bash"@)
    } else if e == "ps1"@ {
        Some("powershell"@)
    } else if e == "sql"@ {
        Some("sql"@)
    } else if e == "html"@ {
        Some("html"@)
    } else if e == "htm"@ {
        Some("html"@)
    } else if e == "css"@ {
        Some("css"@)
    } else if e == "scss"@ {
        Some("scss"@)
    } else if e == "sass"@ {
        Some("scss"@)
    } else if e == "less"@ {
        Some("less"@)
    } else if e == "json"@ {
        Some("json"@)
    } else if e == "yaml"@ {
        Some("yaml"@)
    } else if e == "yml"@ {
        Some("yaml"@)
    } else if e == "toml"@ {
        Some("toml"@)
    } else if e == "xml"@ {
        Some("xml"@)
    } else if e == "vue"@ {
        Some("vue"@)
    } else if e == "svelte"@ {
        Some("svelte"@)
    } else if e == "zig"@ {
        Some("zig"@)
    } else if e == "nim"@ {
        Some("nim"@)
    } else if e == "ex"@ {
        Some("elixir"@)
    } else if e == "exs"@ {
        Some("elixir"@)
    } else if e == "erl"@ {
        Some("erlang"@)
    } else if e == "hrl"@ {
        Some("erlang"@)
    } else if e == "hs"@ {
        Some("haskell"@)
    } else if e == "ml"@ {
        Some("ocaml"@)
    } else if e == "mli"@ {
        Some("ocaml"@)
    } else if e == "clj"@ {
        Some("clojure"@)
    } else if e == "cljs"@ {
        Some("clojure"@)
    } else if e == "lisp"@ {
        Some("lisp"@)
    } else if e == "cl"@ {
        Some("lisp"@)
    } else if e == "r"@ {
        Some("r"@)
    } else if e == "jl"@ {
        Some("julia"@)
    } else if e == "dart"@ {
        Some("dart"@)
    } else if e == "v"@ {
        Some("v"@)
    } else if e == "asm"@ {
        Some("asm"@)
    } else if e == "s"@ {
        Some("asm"@)
    } else if e == "dockerfile"@ {
        Some("dockerfile"@)
    } else if e == "makefile"@ {
        Some("makefile"@)
    } else if e == "mk"@ {
        Some("makefile"@)
    } else {
        None
    }
}

/// The syntax-highlighting language for a file extension, compared
/// without regard to ASCII case.
pub fn language_from_extension(ext: &str) -> (r: Option<&'static str>)
    ensures
        match r {
            Some(l) => language_spec(ascii_lower(ext@)) matches Some(x) && l@ == x,
            None => (language_spec(ascii_lower(ext@)) is None),
        },
{
    let chars = chars_vec(ext);
    let low = to_lower_vec(&chars);
    if crate::text::chars_eq(&low, &chars_vec("rs")) {
        return Some("rust");
    }
    if crate::text::chars_eq(&low, &chars_vec("py")) {
        return Some("python");
    }
    if crate::text::chars_eq(&low, &chars_vec("js")) {
        return Some("javascript");
    }
    if crate::text::chars_eq(&low, &chars_vec("ts")) {
        return Some("typescript");
    }
    if crate::text::chars_eq(&low, &chars_vec("jsx")) {
        return Some("javascript");
    }
    if crate::text::chars_eq(&low, &chars_vec("tsx")) {
        return Some("typescript");
    }
    if crate::text::chars_eq(&low, &chars_vec("go")) {
        return Some("go");
    }
    if crate::text::chars_eq(&low, &chars_vec("c")) {
        return Some("c");
    }
    if crate::text::chars_eq(&low, &chars_vec("h")) {
        return Some("c");
    }
    if crate::text::chars_eq(&low, &chars_vec("cpp")) {
        return Some("cpp");
    }
    if crate::text::chars_eq(&low, &chars_vec("cc")) {
        return Some("cpp");
    }
    if crate::text::chars_eq(&low, &chars_vec("cxx")) {
        return Some("cpp");
    }
    if crate::text::chars_eq(&low, &chars_vec("hpp")) {
        return Some("cpp");
    }
    if crate::text::chars_eq(&low, &chars_vec("hxx")) {
        return Some("cpp");
    }
    if crate::text::chars_eq(&low, &chars_vec("java")) {
        return Some("java");
    }
    if crate::text::chars_eq(&low, &chars_vec("kt")) {
        return Some("kotlin");
    }
    if crate::text::chars_eq(&low, &chars_vec("kts")) {
        return Some("kotlin");
    }
    if crate::text::chars_eq(&low, &chars_vec("swift")) {
        return Some("swift");
    }
    if crate::text::chars_eq(&low, &chars_vec("rb")) {
        return Some("ruby");
    }
    if crate::text::chars_eq(&low, &chars_vec("php")) {
        return Some("php");
    }
    if crate::text::chars_eq(&low, &chars_vec("cs")) {
        return Some("csharp");
    }
    if crate::text::chars_eq(&low, &chars_vec("fs")) {
        return Some("fsharp");
    }
    if crate::text::chars_eq(&low, &chars_vec("fsx")) {
        return Some("fsharp");
    }
    if crate::text::chars_eq(&low, &chars_vec("scala")) {
        return Some("scala");
    }
    if crate::text::chars_eq(&low, &chars_vec("lua")) {
        return Some("lua");
    }
    if crate::text::chars_eq(&low, &chars_vec("sh")) {
        return Some("bash");
    }
    if crate::text::chars_eq(&low, &chars_vec("bash")) {
        return Some("bash");
    }
    if crate::text::chars_eq(&low, &chars_vec("zsh")) {
        return Some("bash");
    }
    if crate::text::chars_eq(&low, &chars_vec("ps1")) {
        return Some("powershell");
    }
    if crate::text::chars_eq(&low, &chars_vec("sql")) {
        return Some("sql");
    }
    if crate::text::chars_eq(&low, &chars_vec("html")) {
        return Some("html");
    }
    if crate::text::chars_eq(&low, &chars_vec("htm")) {
        return Some("html");
    }
    if crate::text::chars_eq(&low, &chars_vec("css")) {
        return Some("css");
    }
    if crate::text::chars_eq(&low, &chars_vec("scss")) {
        return Some("scss");
    }
    if crate::text::chars_eq(&low, &chars_vec("sass")) {
        return Some("scss");
    }
    if crate::text::chars_eq(&low, &chars_vec("less")) {
        return Some("less");
    }
    if crate::text::chars_eq(&low, &chars_vec("json")) {
        return Some("json");
    }
    if crate::text::chars_eq(&low, &chars_vec("yaml")) {
        return Some("yaml");
    }
    if crate::text::chars_eq(&low, &chars_vec("yml")) {
        return Some("yaml");
    }
    if crate::text::chars_eq(&low, &chars_vec("toml")) {
        return Some("toml");
    }
    if crate::text::chars_eq(&low, &chars_vec("xml")) {
        return Some("xml");
    }
    if crate::text::chars_eq(&low, &chars_vec("vue")) {
        return Some("vue");
    }
    if crate::text::chars_eq(&low, &chars_vec("svelte")) {
        return Some("svelte");
    }
    if crate::text::chars_eq(&low, &chars_vec("zig")) {
        return Some("zig");
    }
    if crate::text::chars_eq(&low, &chars_vec("nim")) {
        return Some("nim");
    }
    if crate::text::chars_eq(&low, &chars_vec("ex")) {
        return Some("elixir");
    }
    if crate::text::chars_eq(&low, &chars_vec("exs")) {
        return Some("elixir");
    }
    if crate::text::chars_eq(&low, &chars_vec("erl")) {
        return Some("erlang");
    }
    if crate::text::chars_eq(&low, &chars_vec("hrl")) {
        return Some("erlang");
    }
    if crate::text::chars_eq(&low, &chars_vec("hs")) {
        return Some("haskell");
    }
    if crate::text::chars_eq(&low, &chars_vec("ml")) {
        return Some("ocaml");
    }
    if crate::text::chars_eq(&low, &chars_vec("mli")) {
        return Some("ocaml");
    }
    if crate::text::chars_eq(&low, &chars_vec("clj")) {
        return Some("clojure");
    }
    if crate::text::chars_eq(&low, &chars_vec("cljs")) {
        return Some("clojure");
    }
    if crate::text::chars_eq(&low, &chars_vec("lisp")) {
        return Some("lisp");
    }
    if crate::text::chars_eq(&low, &chars_vec("cl")) {
        return Some("lisp");
    }
    if crate::text::chars_eq(&low, &chars_vec("r")) {
        return Some("r");
    }
    if crate::text::chars_eq(&low, &chars_vec("jl")) {
        return Some("julia");
    }
    if crate::text::chars_eq(&low, &chars_vec("dart")) {
        return Some("dart");
    }
    if crate::text::chars_eq(&low, &chars_vec("v")) {
        return Some("v");
    }
    if crate::text::chars_eq(&low, &chars_vec("asm")) {
        return Some("asm");
    }
    if crate::text::chars_eq(&low, &chars_vec("s")) {
        return Some("asm");
    }
    if crate::text::chars_eq(&low, &chars_vec("dockerfile")) {
        return Some("dockerfile");
    }
    if crate::text::chars_eq(&low, &chars_vec("makefile")) {
        return Some("makefile");
    }
    if crate::text::chars_eq(&low, &chars_vec("mk")) {
        return Some("makefile");
    }
    None
}

/// Lowercasing is idempotent: a lowered character is never uppercase.
pub proof fn lemma_ascii_lower_idempotent(s: Seq<char>)
    ensures
        ascii_lower(ascii_lower(s)) == ascii_lower(s),
{
    assert(ascii_lower(ascii_lower(s)) =~= ascii_lower(s));
}

/// A file name, or `Untitled` where the path ends in none.
pub open spec fn name_or_untitled(n: Seq<char>) -> Seq<char> {
    if n.len() == 0 {
        "Untitled"@
    } else {
        n
    }
}

pub open spec fn is_image_ext(e: Seq<char>) -> bool {
    e == "jpg"@ || e == "jpeg"@ || e == "png"@ || e == "gif"@ || e == "webp"@ || e == "bmp"@ || e == "svg"@
}

pub open spec fn is_video_ext(e: Seq<char>) -> bool {
    e == "mp4"@ || e == "mov"@ || e == "avi"@ || e == "webm"@ || e == "mkv"@
}

pub open spec fn is_audio_ext(e: Seq<char>) -> bool {
    e == "mp3"@ || e == "wav"@ || e == "ogg"@ || e == "m4a"@ || e == "aac"@ || e == "flac"@
}

/// What `ItemContent::from_path` builds for a path: content classified by
/// the lowercased extension. Markdown content starts empty and a PDF
/// thumbnail absent — filling them in takes reading files, which the
/// caller does.
pub open spec fn classified_content(path: Seq<char>, r: ItemContent) -> bool {
    match crate::text::extension_of(path) {
        Some(x) => {
            let e = ascii_lower(x);
            if is_image_ext(e) {
                r@ matches ContentV::Image(p) && p == path
            } else if is_video_ext(e) {
                r@ matches ContentV::Video(p) && p == path
            } else if is_audio_ext(e) {
                r@ matches ContentV::Audio(p) && p == path
            } else if e == "pdf"@ {
                r@ matches ContentV::Pdf { path: p, thumbnail } && p == path && thumbnail is None
            } else if e == "md"@ {
                r@ matches ContentV::Markdown { path: p, title, content }
                    && p == path && title == crate::text::file_stem_of(path) && content.len() == 0
            } else if language_spec(e) is Some {
                r@ matches ContentV::Code { path: p, language }
                    && p == path && Some(language) == language_spec(e)
            } else {
                r@ matches ContentV::Text(t) && t == name_or_untitled(crate::text::file_name_of(path))
            }
        },
        None => r@ matches ContentV::Text(t) && t == name_or_untitled(crate::text::file_name_of(path)),
    }
}

impl ItemContent {
    /// Classify a dropped file path into content by its extension. Reading
    /// the file itself — markdown text, PDF thumbnails, image pixels — is
    /// the caller's work, done after this classification.
    pub fn from_path(path: &str) -> (r: ItemContent)
        ensures
            classified_content(path@, r),
    {
        let chars = chars_vec(path);
        match crate::text::extension_chars_lower(&chars) {
            Some(e) => {
                if chars_eq_lit(&e, "jpg") || chars_eq_lit(&e, "jpeg") || chars_eq_lit(&e, "png")
                    || chars_eq_lit(&e, "gif") || chars_eq_lit(&e, "webp") || chars_eq_lit(&e, "bmp")
                    || chars_eq_lit(&e, "svg") {
                    return ItemContent::Image(path.to_owned());
                }
                if chars_eq_lit(&e, "mp4") || chars_eq_lit(&e, "mov") || chars_eq_lit(&e, "avi")
                    || chars_eq_lit(&e, "webm") || chars_eq_lit(&e, "mkv") {
                    return ItemContent::Video(path.to_owned());
                }
                if chars_eq_lit(&e, "mp3") || chars_eq_lit(&e, "wav") || chars_eq_lit(&e, "ogg")
                    || chars_eq_lit(&e, "m4a") || chars_eq_lit(&e, "aac") || chars_eq_lit(&e, "flac") {
                    return ItemContent::Audio(path.to_owned());
                }
                if chars_eq_lit(&e, "pdf") {
                    return ItemContent::Pdf { path: path.to_owned(), thumbnail: None };
                }
                if chars_eq_lit(&e, "md") {
                    let stem = crate::text::file_stem_chars(&chars);
                    return ItemContent::Markdown {
                        path: path.to_owned(),
                        title: string_from_chars(&stem),
                        content: String::new(),
                    };
                }
                let e_str = string_from_chars(&e);
                proof {
                    lemma_ascii_lower_idempotent(crate::text::extension_of(path@).unwrap());
                }
                match language_from_extension(e_str.as_str()) {
                    Some(l) => {
                        ItemContent::Code { path: path.to_owned(), language: l.to_owned() }
                    },
                    None => {
                        let name = crate::text::file_name_chars(&chars);
                        if name.len() == 0 {
                            ItemContent::Text("Untitled".to_owned())
                        } else {
                            ItemContent::Text(string_from_chars(&name))
                        }
                    },
                }
            },
            None => {
                let name = crate::text::file_name_chars(&chars);
                if name.len() == 0 {
                    ItemContent::Text("Untitled".to_owned())
                } else {
                    ItemContent::Text(string_from_chars(&name))
                }
            },
        }
    }
}

/// Compares a character vector against a string literal.
fn chars_eq_lit(v: &Vec<char>, lit: &str) -> (r: bool)
    ensures
        r == (v@ == lit@),
{
    let l = chars_vec(lit);
    crate::text::chars_eq(v, &l)
}

/// The kind badge an item shows, uppercased; code items are badged by
/// language.
pub open spec fn type_label_spec(c: ItemContent) -> Seq<char> {
    match c {
        ItemContent::Image(_) => "IMAGE"@,
        ItemContent::Video(_) => "VIDEO"@,
        ItemContent::Audio(_) => "AUDIO"@,
        ItemContent::Pdf { .. } => "PDF"@,
        ItemContent::Text(_) => "TEXT"@,
        ItemContent::Link(_) => "LINK"@,
        ItemContent::YouTube(_) => "YOUTUBE"@,
        ItemContent::Markdown { .. } => "MARKDOWN"@,
        ItemContent::Code { language, .. } => {
            if language@ == "rust"@ {
                "RUST"@
            } else if language@ == "python"@ {
                "PYTHON"@
            } else if language@ == "javascript"@ {
                "JS/TS"@
            } else if language@ == "typescript"@ {
                "JS/TS"@
            } else if language@ == "go"@ {
                "GO"@
            } else if language@ == "c"@ {
                "C/C++"@
            } else if language@ == "cpp"@ {
                "C/C++"@
            } else if language@ == "java"@ {
                "JAVA"@
            } else if language@ == "swift"@ {
                "SWIFT"@
            } else if language@ == "ruby"@ {
                "RUBY"@
            } else if language@ == "php"@ {
                "PHP"@
            } else if language@ == "html"@ {
                "HTML"@
            } else if language@ == "css"@ {
                "CSS"@
            } else if language@ == "scss"@ {
                "CSS"@
            } else if language@ == "json"@ {
                "JSON"@
            } else if language@ == "yaml"@ {
                "YAML"@
            } else if language@ == "toml"@ {
                "TOML"@
            } else if language@ == "bash"@ {
                "SHELL"@
            } else {
                "CODE"@
            }
        },
        ItemContent::TextBox { .. } => "TEXT"@,
        ItemContent::Arrow { .. } => "ARROW"@,
        ItemContent::Shape { shape_type, .. } => match shape_type {
            ShapeType::Rectangle => "RECT"@,
            ShapeType::RoundedRect => "RRECT"@,
            ShapeType::Ellipse => "ELLIPSE"@,
        },
        ItemContent::Table { .. } => "TABLE"@,
        ItemContent::Chart { config, .. } => match config.chart_type {
            ChartType::Line => "LINE"@,
            ChartType::Bar => "BAR"@,
            ChartType::Area => "AREA"@,
            ChartType::Pie => "PIE"@,
            ChartType::Scatter => "SCATTER"@,
        },
    }
}

impl ItemContent {
    /// The kind badge shown for this item.
    pub fn type_label(&self) -> (r: &'static str)
        ensures
            r@ == type_label_spec(*self),
    {
        match self {
            ItemContent::Image(_) => "IMAGE",
            ItemContent::Video(_) => "VIDEO",
            ItemContent::Audio(_) => "AUDIO",
            ItemContent::Pdf { .. } => "PDF",
            ItemContent::Text(_) => "TEXT",
            ItemContent::Link(_) => "LINK",
            ItemContent::YouTube(_) => "YOUTUBE",
            ItemContent::Markdown { .. } => "MARKDOWN",
            ItemContent::Code { language, .. } => {
                if crate::text::str_eq(language.as_str(), "rust") {
                    return "RUST";
                }
                if crate::text::str_eq(language.as_str(), "python") {
                    return "PYTHON";
                }
                if crate::text::str_eq(language.as_str(), "javascript") {
                    return "JS/TS";
                }
                if crate::text::str_eq(language.as_str(), "typescript") {
                    return "JS/TS";
                }
                if crate::text::str_eq(language.as_str(), "go") {
                    return "GO";
                }
                if crate::text::str_eq(language.as_str(), "c") {
                    return "C/C++";
                }
                if crate::text::str_eq(language.as_str(), "cpp") {
                    return "C/C++";
                }
                if crate::text::str_eq(language.as_str(), "java") {
                    return "JAVA";
                }
                if crate::text::str_eq(language.as_str(), "swift") {
                    return "SWIFT";
                }
                if crate::text::str_eq(language.as_str(), "ruby") {
                    return "RUBY";
                }
                if crate::text::str_eq(language.as_str(), "php") {
                    return "PHP";
                }
                if crate::text::str_eq(language.as_str(), "html") {
                    return "HTML";
                }
                if crate::text::str_eq(language.as_str(), "css") {
                    return "CSS";
                }
                if crate::text::str_eq(language.as_str(), "scss") {
                    return "CSS";
                }
                if crate::text::str_eq(language.as_str(), "json") {
                    return "JSON";
                }
                if crate::text::str_eq(language.as_str(), "yaml") {
                    return "YAML";
                }
                if crate::text::str_eq(language.as_str(), "toml") {
                    return "TOML";
                }
                if crate::text::str_eq(language.as_str(), "bash") {
                    return "SHELL";
                }
                "CODE"
            },
            ItemContent::TextBox { .. } => "TEXT",
            ItemContent::Arrow { .. } => "ARROW",
            ItemContent::Shape { shape_type, .. } => match shape_type {
                ShapeType::Rectangle => "RECT",
                ShapeType::RoundedRect => "RRECT",
                ShapeType::Ellipse => "ELLIPSE",
            },
            ItemContent::Table { .. } => "TABLE",
            ItemContent::Chart { config, .. } => match config.chart_type {
                ChartType::Line => "LINE",
                ChartType::Bar => "BAR",
                ChartType::Area => "AREA",
                ChartType::Pie => "PIE",
                ChartType::Scatter => "SCATTER",
            },
        }
    }
}

/// The display name for a file path: its file name, or `Unknown`.
fn path_display_name(p: &String) -> (r: String)
    ensures
        r@ == name_or_unknown(crate::text::file_name_of(p@)),
{
    let chars = chars_vec(p.as_str());
    let name = crate::text::file_name_chars(&chars);
    if name.len() == 0 {
        "Unknown".to_owned()
    } else {
        string_from_chars(&name)
    }
}

} // verus!
