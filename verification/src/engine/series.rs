//! A one dimensional array with a name and a label for every element.
use vstd::prelude::*;
use vstd::string::StringExecFns;
use crate::engine::block_manager::column::{Cell, CellView};
use crate::enums::DataTypes;
use crate::text::{decimal, texts, usize_to_string};

pub mod errors;
pub mod floats;
pub mod format;
pub mod generic;
pub mod impls;
pub mod ints;
pub mod iter;
pub mod ops;
pub mod strings;
pub mod traits;

verus! {

/// A double precision floating point value, held by its IEEE 754 bit pattern.
///
/// Columns of this type carry the tag [`DataTypes::F64`]. The library stores,
/// moves and hands out such values; arithmetic on them is done by the caller.
#[derive(Clone, Copy, Debug)]
pub struct Float64 {
    /// The bit pattern of the value.
    pub bits: u64,
}

/// A single precision floating point value, held by its IEEE 754 bit pattern.
///
/// Columns of this type carry the tag [`DataTypes::F32`].
#[derive(Clone, Copy, Debug)]
pub struct Float32 {
    /// The bit pattern of the value.
    pub bits: u32,
}

impl Float64 {
    /// The value with the given bit pattern.
    pub fn from_bits(bits: u64) -> (v: Self)
        ensures
            v.bits == bits,
    {
        Float64 { bits }
    }

    /// The bit pattern of the value.
    pub fn to_bits(&self) -> (bits: u64)
        ensures
            bits == self.bits,
    {
        self.bits
    }
}

impl Float32 {
    /// The value with the given bit pattern.
    pub fn from_bits(bits: u32) -> (v: Self)
        ensures
            v.bits == bits,
    {
        Float32 { bits }
    }

    /// The bit pattern of the value.
    pub fn to_bits(&self) -> (bits: u32)
        ensures
            bits == self.bits,
    {
        self.bits
    }
}

/// A column of one of the element types a table can store.
pub enum Column {
    /// A column of [`Float64`] values.
    F64(Series<Float64>),
    /// A column of [`Float32`] values.
    F32(Series<Float32>),
    /// A column of `i64` values.
    I64(Series<i64>),
    /// A column of `i32` values.
    I32(Series<i32>),
    /// A column of owned strings.
    Text(Series<String>),
    /// A column of borrowed strings.
    Str(Series<&'static str>),
    /// A column of booleans.
    Bool(Series<bool>),
}

/// An element type of a [`Series`].
///
/// The type decides the tag of every column of such elements, and whether and
/// how such a column is stored in a table.
pub trait Scalar: Sized {
    /// The tag of columns of this element type.
    spec fn tag() -> DataTypes;

    /// The column of this element type inside `col`, if that is what `col` holds.
    spec fn project(col: ColumnView) -> Option<SeriesView<Self>>;

    /// The stored form of a column of this element type, if tables store such columns.
    spec fn embed(series: SeriesView<Self>) -> Option<ColumnView>;

    /// Tables store the columns of every element type but those tagged
    /// [`DataTypes::OBJECT`]; a stored column keeps its tag, and taking it out
    /// again gives the column that was stored.
    proof fn lemma_stored(series: SeriesView<Self>, col: ColumnView)
        ensures
            Self::embed(series) is Some <==> Self::tag().is_supported(),
            Self::project(col) is Some <==> col.tag() == Self::tag(),
            Self::embed(series) == Some(col) <==> Self::project(col) == Some(series),
            Self::project(col) == Some(series) ==> col.name() == series.name && col.len()
                == series.values.len() && col.index() == series.index && col.aligned()
                == series.aligned(),
    ;

    /// The cell that shows the value.
    spec fn cell_of(self) -> CellView;

    /// The cell that shows the value.
    fn cell(&self) -> (c: Cell)
        ensures
            c@ == self.cell_of(),
    ;

    /// The tag of columns of this element type.
    fn kind() -> (d: DataTypes)
        ensures
            d == Self::tag(),
    ;

    /// A copy of the value.
    fn dup(&self) -> (r: Self)
        ensures
            r == *self,
    ;

    /// The column of this element type inside `col`, if that is what `col` holds.
    fn pick(col: &Column) -> (r: Option<&Series<Self>>)
        ensures
            Self::project(col@) is Some <==> r is Some,
            r matches Some(s) ==> Self::project(col@) == Some(s@),
            r is Some <==> col@.tag() == Self::tag(),
    ;

    /// Wraps a column for storage in a table. Element types with the tag
    /// [`DataTypes::OBJECT`] cannot be stored and give `None`.
    fn wrap(series: Series<Self>) -> (r: Option<Column>)
        ensures
            r is Some <==> Self::embed(series@) is Some,
            r matches Some(c) ==> Self::embed(series@) == Some(c@),
    ;
}

/// The tag of the element type of `value`.
pub fn get_type<T: Scalar>(value: &T) -> (d: DataTypes)
    ensures
        d == T::tag(),
{
    T::kind()
}

/// What a [`Series`] stands for: its values, its name, and one label per value.
/// Its tag is the tag of its element type.
pub struct SeriesView<T> {
    /// The values, in order.
    pub values: Seq<T>,
    /// The name of the column.
    pub name: Seq<char>,
    /// The labels; `index[i]` labels `values[i]`.
    pub index: Seq<Seq<char>>,
}

/// The labels that [`create_index`] makes: the numbers from 0 up to `len`,
/// each between `prefix` and `suffix`.
pub open spec fn numbered_labels(len: nat, prefix: Seq<char>, suffix: Seq<char>) -> Seq<
    Seq<char>,
> {
    Seq::new(len, |i: int| prefix + decimal(i as nat) + suffix)
}

/// The name of a column that was given none.
pub open spec fn default_name() -> Seq<char> {
    "series"@
}

impl<T> SeriesView<T> {
    /// The number of values.
    pub open spec fn len(self) -> nat {
        self.values.len()
    }

    /// Every value has its label.
    pub open spec fn aligned(self) -> bool {
        self.index.len() == self.values.len()
    }

    /// The first position that carries `label`, if any does.
    pub open spec fn position(self, label: Seq<char>) -> Option<int> {
        if self.index.contains(label) {
            Some(self.index.index_of_first(label)->0)
        } else {
            None
        }
    }

    /// The same column under another name.
    pub open spec fn renamed(self, name: Seq<char>) -> Self {
        SeriesView { name, ..self }
    }

    /// The same column with other labels.
    pub open spec fn relabelled(self, index: Seq<Seq<char>>) -> Self {
        SeriesView { index, ..self }
    }

    /// The same column with other values of the same type.
    pub open spec fn with_values(self, values: Seq<T>) -> Self {
        SeriesView { values, ..self }
    }
}

impl<T> SeriesView<T> {
    /// The column that the constructors make of a plain sequence: named
    /// `series` and labelled `0`, `1`, ...
    pub open spec fn from_values(values: Seq<T>) -> Self {
        SeriesView {
            values,
            name: default_name(),
            index: numbered_labels(values.len(), Seq::empty(), Seq::empty()),
        }
    }
}

/// A one dimensional array of values of one type, with a name and with a
/// label for every value. The tag of the column is the tag of its element type.
pub struct Series<T> {
    pub(crate) array: Vec<T>,
    pub(crate) name: String,
    pub(crate) index: Vec<String>,
}

impl<T> View for Series<T> {
    type V = SeriesView<T>;

    open(crate) spec fn view(&self) -> SeriesView<T> {
        SeriesView { values: self.array@, name: self.name@, index: texts(self.index@) }
    }
}

impl<T> Series<T> {
    /// Every value has its label.
    #[verifier::type_invariant]
    pub open(crate) spec fn wf(&self) -> bool {
        self@.aligned()
    }

    /// A column is always aligned.
    pub proof fn lemma_aligned(&self)
        requires
            self.wf(),
        ensures
            self@.aligned(),
    {
    }
}

/// What a [`Column`] stands for.
pub enum ColumnView {
    /// A column of `Float64` values.
    F64(SeriesView<Float64>),
    /// A column of `Float32` values.
    F32(SeriesView<Float32>),
    /// A column of `i64` values.
    I64(SeriesView<i64>),
    /// A column of `i32` values.
    I32(SeriesView<i32>),
    /// A column of `String` values.
    Text(SeriesView<String>),
    /// A column of `&'static str` values.
    Str(SeriesView<&'static str>),
    /// A column of `bool` values.
    Bool(SeriesView<bool>),
}

impl View for Column {
    type V = ColumnView;

    open spec fn view(&self) -> ColumnView {
        match self {
            Column::F64(s) => ColumnView::F64(s@),
            Column::F32(s) => ColumnView::F32(s@),
            Column::I64(s) => ColumnView::I64(s@),
            Column::I32(s) => ColumnView::I32(s@),
            Column::Text(s) => ColumnView::Text(s@),
            Column::Str(s) => ColumnView::Str(s@),
            Column::Bool(s) => ColumnView::Bool(s@),
        }
    }
}

impl ColumnView {
    /// The tag of the column.
    pub open spec fn tag(self) -> DataTypes {
        match self {
            ColumnView::F64(_) => DataTypes::F64,
            ColumnView::F32(_) => DataTypes::F32,
            ColumnView::I64(_) => DataTypes::I64,
            ColumnView::I32(_) => DataTypes::I32,
            ColumnView::Text(_) => DataTypes::STRING,
            ColumnView::Str(_) => DataTypes::STR,
            ColumnView::Bool(_) => DataTypes::BOOL,
        }
    }

    /// The name of the column.
    pub open spec fn name(self) -> Seq<char> {
        match self {
            ColumnView::F64(s) => s.name,
            ColumnView::F32(s) => s.name,
            ColumnView::I64(s) => s.name,
            ColumnView::I32(s) => s.name,
            ColumnView::Text(s) => s.name,
            ColumnView::Str(s) => s.name,
            ColumnView::Bool(s) => s.name,
        }
    }

    /// The number of values in the column.
    pub open spec fn len(self) -> nat {
        match self {
            ColumnView::F64(s) => s.values.len(),
            ColumnView::F32(s) => s.values.len(),
            ColumnView::I64(s) => s.values.len(),
            ColumnView::I32(s) => s.values.len(),
            ColumnView::Text(s) => s.values.len(),
            ColumnView::Str(s) => s.values.len(),
            ColumnView::Bool(s) => s.values.len(),
        }
    }

    /// The labels of the column.
    pub open spec fn index(self) -> Seq<Seq<char>> {
        match self {
            ColumnView::F64(s) => s.index,
            ColumnView::F32(s) => s.index,
            ColumnView::I64(s) => s.index,
            ColumnView::I32(s) => s.index,
            ColumnView::Text(s) => s.index,
            ColumnView::Str(s) => s.index,
            ColumnView::Bool(s) => s.index,
        }
    }

    /// The same column under another name.
    pub open spec fn renamed(self, name: Seq<char>) -> Self {
        match self {
            ColumnView::F64(s) => ColumnView::F64(s.renamed(name)),
            ColumnView::F32(s) => ColumnView::F32(s.renamed(name)),
            ColumnView::I64(s) => ColumnView::I64(s.renamed(name)),
            ColumnView::I32(s) => ColumnView::I32(s.renamed(name)),
            ColumnView::Text(s) => ColumnView::Text(s.renamed(name)),
            ColumnView::Str(s) => ColumnView::Str(s.renamed(name)),
            ColumnView::Bool(s) => ColumnView::Bool(s.renamed(name)),
        }
    }

    /// Every value of the column has its label.
    pub open spec fn aligned(self) -> bool {
        match self {
            ColumnView::F64(s) => s.aligned(),
            ColumnView::F32(s) => s.aligned(),
            ColumnView::I64(s) => s.aligned(),
            ColumnView::I32(s) => s.aligned(),
            ColumnView::Text(s) => s.aligned(),
            ColumnView::Str(s) => s.aligned(),
            ColumnView::Bool(s) => s.aligned(),
        }
    }
}

/// Labels made of the numbers from 0 up to `len`, each written in decimal
/// between `prefix` and `suffix`.
pub fn create_index(len: usize, prefix: &str, suffix: &str) -> (index: Vec<String>)
    ensures
        texts(index@) == numbered_labels(len as nat, prefix@, suffix@),
{
    let mut index: Vec<String> = Vec::new();
    let mut i: usize = 0;
    while i < len
        invariant
            i <= len,
            index@.len() == i,
            forall|k: int| 0 <= k < i ==> (#[trigger] index@[k])@ == prefix@ + decimal(k as nat) + suffix@,
        decreases len - i,
    {
        let mut label = String::from_str(prefix);
        let number = usize_to_string(i);
        label.append(number.as_str());
        label.append(suffix);
        index.push(label);
        i += 1;
    }
    assert(texts(index@) =~= numbered_labels(len as nat, prefix@, suffix@));
    index
}

impl<T: Scalar> Series<T> {
    /// A column of the given values, named `series` and labelled `0`, `1`, ...
    pub fn from_vec(vector: Vec<T>) -> (s: Self)
        ensures
            s@ == SeriesView::from_values(vector@),
    {
        let index = create_index(vector.len(), "", "");
        proof {
            assert(""@ =~= Seq::<char>::empty()) by {
                reveal_strlit("");
            }
        }
        Series { array: vector, name: String::from_str("series"), index }
    }
}


impl<T: Scalar> vstd::std_specs::convert::FromSpecImpl<Vec<T>> for Series<T> {
    open spec fn obeys_from_spec() -> bool {
        false
    }

    open spec fn from_spec(v: Vec<T>) -> Self {
        arbitrary()
    }
}

impl<T: Scalar> From<Vec<T>> for Series<T> {
    /// A column of the given values, named `series` and labelled `0`, `1`, ...
    fn from(vector: Vec<T>) -> (s: Self)
        ensures
            s@ == SeriesView::from_values(vector@),
    {
        Series::from_vec(vector)
    }
}

impl<T: Scalar> vstd::std_specs::convert::FromSpecImpl<&[T]> for Series<T> {
    open spec fn obeys_from_spec() -> bool {
        false
    }

    open spec fn from_spec(v: &[T]) -> Self {
        arbitrary()
    }
}

impl<T: Scalar> From<&[T]> for Series<T> {
    /// A column of copies of the given values, named `series` and labelled `0`, `1`, ...
    fn from(slice: &[T]) -> (s: Self)
        ensures
            s@ == SeriesView::from_values(slice@),
    {
        let mut vector: Vec<T> = Vec::new();
        let n = slice.len();
        let mut i: usize = 0;
        while i < n
            invariant
                i <= n,
                n == slice@.len(),
                vector@ == slice@.take(i as int),
            decreases n - i,
        {
            vector.push(slice[i].dup());
            i += 1;
        }
        assert(vector@ =~= slice@);
        Series::from_vec(vector)
    }
}

impl<T: Scalar, const N: usize> vstd::std_specs::convert::FromSpecImpl<[T; N]> for Series<T> {
    open spec fn obeys_from_spec() -> bool {
        false
    }

    open spec fn from_spec(v: [T; N]) -> Self {
        arbitrary()
    }
}

impl<T: Scalar, const N: usize> From<[T; N]> for Series<T> {
    /// A column of copies of the given values, named `series` and labelled `0`, `1`, ...
    fn from(array: [T; N]) -> (s: Self)
        ensures
            s@ == SeriesView::from_values(array@),
    {
        let mut vector: Vec<T> = Vec::new();
        let mut i: usize = 0;
        while i < N
            invariant
                i <= N,
                N == array@.len(),
                vector@ == array@.take(i as int),
            decreases N - i,
        {
            vector.push(array[i].dup());
            i += 1;
        }
        assert(vector@ =~= array@);
        Series::from_vec(vector)
    }
}

impl<T: Scalar> Default for Series<T> {
    /// The empty column named `series`.
    fn default() -> (s: Self)
        ensures
            s@ == SeriesView::<T>::from_values(Seq::empty()),
    {
        Series::from_vec(Vec::new())
    }
}


impl<T: Scalar> Clone for Series<T> {
    /// A copy of the column: its values, its name and its labels.
    fn clone(&self) -> (r: Self)
        ensures
            r@ == self@,
    {
        self.duplicate()
    }
}

/// The labels of a sequence of labelled values.
pub open spec fn pair_labels<T>(pairs: Seq<(String, T)>) -> Seq<Seq<char>> {
    pairs.map_values(|p: (String, T)| p.0@)
}

/// The values of a sequence of labelled values.
pub open spec fn pair_values<L, T>(pairs: Seq<(L, T)>) -> Seq<T> {
    pairs.map_values(|p: (L, T)| p.1)
}

/// The labels of a sequence of values labelled by borrowed strings.
pub open spec fn pair_str_labels<T>(pairs: Seq<(&str, T)>) -> Seq<Seq<char>> {
    pairs.map_values(|p: (&str, T)| p.0@)
}

impl<T: Scalar> Series<T> {
    /// The column of the given values, each under the label that comes with
    /// it. The column is named `series`.
    pub fn from_pairs(vector: Vec<(String, T)>) -> (s: Self)
        ensures
            s@ == SeriesView::from_values(pair_values(vector@)).relabelled(pair_labels(vector@)),
    {
        let mut array: Vec<T> = Vec::new();
        let mut index: Vec<String> = Vec::new();
        let n = vector.len();
        let mut i: usize = 0;
        while i < n
            invariant
                i <= n,
                n == vector@.len(),
                array@.len() == i,
                index@.len() == i,
                forall|k: int| 0 <= k < i ==> #[trigger] array@[k] == vector@[k].1,
                forall|k: int| 0 <= k < i ==> (#[trigger] index@[k])@ == vector@[k].0@,
            decreases n - i,
        {
            index.push(vector[i].0.clone());
            array.push(vector[i].1.dup());
            i += 1;
        }
        proof {
            assert(array@ =~= pair_values(vector@));
            assert(texts(index@) =~= pair_labels(vector@));
        }
        Series { array, name: String::from_str("series"), index }
    }

    /// The column of the one entry of a mapping from names to values: it has
    /// the name and the values of that entry and is labelled `0`, `1`, ...
    /// A mapping of another number of entries is refused.
    pub fn try_from_entries(value: Vec<(String, Vec<T>)>) -> (r: Result<Self, errors::Error>)
        ensures
            r is Ok <==> value@.len() == 1,
            r matches Ok(s) ==> s@ == SeriesView::from_values(value@[0].1@).renamed(value@[0].0@),
            r matches Err(e) ==> e == errors::Error::HashMapError(value@.len() as usize),
    {
        let mut value = value;
        if value.len() == 1 {
            let (key, values) = value.pop().unwrap();
            let mut series = Series::from_vec(values);
            series.set_name(key.as_str());
            Ok(series)
        } else {
            Err(errors::Error::HashMapError(value.len()))
        }
    }
}

impl<T: Scalar> vstd::std_specs::convert::FromSpecImpl<Vec<(String, T)>> for Series<T> {
    open spec fn obeys_from_spec() -> bool {
        false
    }

    open spec fn from_spec(v: Vec<(String, T)>) -> Self {
        arbitrary()
    }
}

impl<T: Scalar> From<Vec<(String, T)>> for Series<T> {
    /// The column of the given values, each under the label that comes with it.
    fn from(vector: Vec<(String, T)>) -> (s: Self)
        ensures
            s@ == SeriesView::from_values(pair_values(vector@)).relabelled(pair_labels(vector@)),
    {
        Series::from_pairs(vector)
    }
}

impl<'a, T: Scalar> vstd::std_specs::convert::FromSpecImpl<Vec<(&'a str, T)>> for Series<T> {
    open spec fn obeys_from_spec() -> bool {
        false
    }

    open spec fn from_spec(v: Vec<(&'a str, T)>) -> Self {
        arbitrary()
    }
}

impl<'a, T: Scalar> From<Vec<(&'a str, T)>> for Series<T> {
    /// The column of the given values, each under the label that comes with it.
    fn from(vector: Vec<(&'a str, T)>) -> (s: Self)
        ensures
            s@ == SeriesView::from_values(pair_values(vector@)).relabelled(
                pair_str_labels(vector@),
            ),
    {
        let mut array: Vec<T> = Vec::new();
        let mut index: Vec<String> = Vec::new();
        let n = vector.len();
        let mut i: usize = 0;
        while i < n
            invariant
                i <= n,
                n == vector@.len(),
                array@.len() == i,
                index@.len() == i,
                forall|k: int| 0 <= k < i ==> #[trigger] array@[k] == vector@[k].1,
                forall|k: int| 0 <= k < i ==> (#[trigger] index@[k])@ == vector@[k].0@,
            decreases n - i,
        {
            index.push(String::from_str(vector[i].0));
            array.push(vector[i].1.dup());
            i += 1;
        }
        proof {
            assert(array@ =~= pair_values(vector@));
            assert(texts(index@) =~= pair_str_labels(vector@));
        }
        Series { array, name: String::from_str("series"), index }
    }
}

} // verus!
