//! The schema aggregate: the top-level document, its tables and their
//! columns, with the read-only queries the decoded document answers.

use vstd::prelude::*;

use crate::json::{
    assoc_get, elems_decode, entries_decode, json_obj_get, lemma_assoc_get_skip,
    lemma_elems_decode_err, lemma_entries_decode_err, lemma_obj_model_index, lemma_obj_model_len,
    obj_model, str_eq, Json, JsonV,
};
use crate::json::{arr_model, lemma_arr_model_index, lemma_arr_model_len};
use crate::types::{
    bool_field, get_bool_field, get_opt_str_field, get_req_str_field, opt_str_field,
    req_str_field, spec_decode_column_type, ColumnType, ColumnTypeView,
};
use crate::Error;

verus! {

/// The default for the `isRoot` flag of a table.
pub fn default_true() -> (r: bool)
    ensures
        r == true,
{
    true
}

/// A column: its type and the ephemeral/mutable flags.
#[derive(Debug, PartialEq)]
pub struct Column {
    pub type_: ColumnType,
    pub ephemeral: bool,
    pub mutable: bool,
}

/// The mathematical view of a [`Column`].
pub struct ColumnView {
    pub type_: ColumnTypeView,
    pub ephemeral: bool,
    pub mutable: bool,
}

impl View for Column {
    type V = ColumnView;

    open spec fn view(&self) -> ColumnView {
        ColumnView { type_: self.type_@, ephemeral: self.ephemeral, mutable: self.mutable }
    }
}

impl DeepView for Column {
    type V = ColumnView;

    open spec fn deep_view(&self) -> ColumnView {
        self.view()
    }
}

/// A table: its columns in document order, the optional row bound, the
/// root flag and the optional declared indexes.
#[derive(Debug, PartialEq)]
pub struct Table {
    pub columns: Vec<(String, Column)>,
    pub max_rows: Option<u64>,
    pub is_root: bool,
    pub indexes: Option<Vec<Vec<String>>>,
}

/// The mathematical view of a [`Table`].
pub struct TableView {
    pub columns: Seq<(Seq<char>, ColumnView)>,
    pub max_rows: Option<u64>,
    pub is_root: bool,
    pub indexes: Option<Seq<Seq<Seq<char>>>>,
}

impl View for Table {
    type V = TableView;

    open spec fn view(&self) -> TableView {
        TableView {
            columns: self.columns.deep_view(),
            max_rows: self.max_rows,
            is_root: self.is_root,
            indexes: match self.indexes {
                None => None,
                Some(v) => Some(v.deep_view()),
            },
        }
    }
}

impl DeepView for Table {
    type V = TableView;

    open spec fn deep_view(&self) -> TableView {
        self.view()
    }
}

/// The top-level schema document.
#[derive(Debug, PartialEq)]
pub struct Schema {
    pub name: String,
    pub cksum: Option<String>,
    pub version: Option<String>,
    pub tables: Vec<(String, Table)>,
}

/// The mathematical view of a [`Schema`].
pub struct SchemaView {
    pub name: Seq<char>,
    pub cksum: Option<Seq<char>>,
    pub version: Option<Seq<char>>,
    pub tables: Seq<(Seq<char>, TableView)>,
}

impl View for Schema {
    type V = SchemaView;

    open spec fn view(&self) -> SchemaView {
        SchemaView {
            name: self.name@,
            cksum: match self.cksum {
                None => None,
                Some(s) => Some(s@),
            },
            version: match self.version {
                None => None,
                Some(s) => Some(s@),
            },
            tables: self.tables.deep_view(),
        }
    }
}

// ---------------------------------------------------------------------
// Decoding
// ---------------------------------------------------------------------

/// An optional non-negative integer field: absent or `null` is absence.
pub open spec fn opt_u64_field(fs: Seq<(Seq<char>, JsonV)>, key: Seq<char>) -> Result<
    Option<u64>,
    Error,
> {
    match assoc_get(fs, key) {
        None => Ok(None),
        Some(JsonV::Null) => Ok(None),
        Some(JsonV::Int(i)) => if i >= 0 {
            Ok(Some(i as u64))
        } else {
            Err(Error::TypeMismatch)
        },
        Some(_) => Err(Error::TypeMismatch),
    }
}

pub fn get_opt_u64_field(fields: &Vec<(String, Json)>, key: &str) -> (r: Result<
    Option<u64>,
    Error,
>)
    ensures
        match r {
            Ok(v) => opt_u64_field(obj_model(fields@), key@) == Ok::<Option<u64>, Error>(v),
            Err(e) => opt_u64_field(obj_model(fields@), key@) == Err::<Option<u64>, Error>(e),
        },
{
    match json_obj_get(fields, key) {
        None => Ok(None),
        Some(Json::Null) => Ok(None),
        Some(Json::Int(i)) => {
            if *i >= 0 {
                Ok(Some(*i as u64))
            } else {
                Err(Error::TypeMismatch)
            }
        },
        Some(_) => Err(Error::TypeMismatch),
    }
}

/// What a column object decodes to: its `type` field is required, the
/// two flags default to false.
pub open spec fn spec_decode_column(j: JsonV) -> Result<ColumnView, Error> {
    match j {
        JsonV::Obj(fs) => match assoc_get(fs, "type"@) {
            None => Err(Error::MissingRequiredField),
            Some(tj) => match spec_decode_column_type(tj) {
                Err(e) => Err(e),
                Ok(type_) => match bool_field(fs, "ephemeral"@, false) {
                    Err(e) => Err(e),
                    Ok(ephemeral) => match bool_field(fs, "mutable"@, false) {
                        Err(e) => Err(e),
                        Ok(mutable) => Ok(ColumnView { type_, ephemeral, mutable }),
                    },
                },
            },
        },
        _ => Err(Error::TypeMismatch),
    }
}

impl Column {
    /// Decodes a column object.
    pub fn decode(j: &Json) -> (r: Result<Column, Error>)
        ensures
            match r {
                Ok(v) => spec_decode_column(j@) == Ok::<ColumnView, Error>(v@),
                Err(e) => spec_decode_column(j@) == Err::<ColumnView, Error>(e),
            },
    {
        let fields = match j {
            Json::Obj(fields) => fields,
            _ => {
                return Err(Error::TypeMismatch);
            },
        };
        let type_ = match json_obj_get(fields, "type") {
            None => {
                return Err(Error::MissingRequiredField);
            },
            Some(tj) => match ColumnType::decode(tj) {
                Ok(t) => t,
                Err(e) => {
                    return Err(e);
                },
            },
        };
        let ephemeral = match get_bool_field(fields, "ephemeral", false) {
            Ok(v) => v,
            Err(e) => {
                return Err(e);
            },
        };
        let mutable = match get_bool_field(fields, "mutable", false) {
            Ok(v) => v,
            Err(e) => {
                return Err(e);
            },
        };
        Ok(Column { type_, ephemeral, mutable })
    }
}

/// What a `columns` object decodes to: every named entry decoded as a
/// column, names and order kept.
pub open spec fn spec_decode_columns(cfs: Seq<(Seq<char>, JsonV)>) -> Result<
    Seq<(Seq<char>, ColumnView)>,
    Error,
> {
    entries_decode(cfs, |x: JsonV| spec_decode_column(x))
}

fn decode_columns(cfs: &Vec<(String, Json)>) -> (r: Result<Vec<(String, Column)>, Error>)
    ensures
        match r {
            Ok(v) => spec_decode_columns(obj_model(cfs@)) == Ok::<
                Seq<(Seq<char>, ColumnView)>,
                Error,
            >(v.deep_view()),
            Err(e) => spec_decode_columns(obj_model(cfs@)) == Err::<
                Seq<(Seq<char>, ColumnView)>,
                Error,
            >(e),
        },
{
    proof {
        lemma_obj_model_len(cfs@);
    }
    let ghost cm = obj_model(cfs@);
    let mut out: Vec<(String, Column)> = Vec::new();
    let mut i: usize = 0;
    proof {
        assert(cm.take(0) =~= Seq::<(Seq<char>, JsonV)>::empty());
        assert(out.deep_view() =~= Seq::<(Seq<char>, ColumnView)>::empty());
    }
    while i < cfs.len()
        invariant
            i <= cfs.len(),
            cm == obj_model(cfs@),
            cm.len() == cfs@.len(),
            out@.len() == i,
            (entries_decode(cm.take(i as int), |x: JsonV| spec_decode_column(x)) == Ok::<
                Seq<(Seq<char>, ColumnView)>,
                Error,
            >(out.deep_view())),
        decreases cfs.len() - i,
    {
        proof {
            lemma_obj_model_index(cfs@, i as int);
        }
        let ghost prev = out.deep_view();
        match Column::decode(&cfs[i].1) {
            Ok(c) => {
                let ghost cv = c@;
                let name = cfs[i].0.clone();
                out.push((name, c));
                proof {
                    assert(out.deep_view() =~= prev.push((cm[i as int].0, cv)));
                    assert(cm.take(i as int + 1).drop_last() =~= cm.take(i as int));
                    assert(cm.take(i as int + 1).last() == cm[i as int]);
                }
            },
            Err(e) => {
                proof {
                    lemma_entries_decode_err(cm, |x: JsonV| spec_decode_column(x), i as int);
                }
                return Err(e);
            },
        }
        i += 1;
    }
    proof {
        assert(cm.take(cm.len() as int) =~= cm);
    }
    Ok(out)
}

/// What one entry of an index decodes to: a column name.
pub open spec fn spec_decode_index_name(j: JsonV) -> Result<Seq<char>, Error> {
    match j {
        JsonV::Str(s) => Ok(s),
        _ => Err(Error::TypeMismatch),
    }
}

/// What one declared index decodes to: an array of column names.
pub open spec fn spec_decode_index_list(j: JsonV) -> Result<Seq<Seq<char>>, Error> {
    match j {
        JsonV::Arr(items) => elems_decode(items, |x: JsonV| spec_decode_index_name(x)),
        _ => Err(Error::TypeMismatch),
    }
}

fn decode_index_names(items: &Vec<Json>) -> (r: Result<Vec<String>, Error>)
    ensures
        match r {
            Ok(v) => elems_decode(arr_model(items@), |x: JsonV| spec_decode_index_name(x)) == Ok::<
                Seq<Seq<char>>,
                Error,
            >(v.deep_view()),
            Err(e) => elems_decode(arr_model(items@), |x: JsonV| spec_decode_index_name(x))
                == Err::<Seq<Seq<char>>, Error>(e),
        },
{
    proof {
        lemma_arr_model_len(items@);
    }
    let ghost am = arr_model(items@);
    let mut out: Vec<String> = Vec::new();
    let mut i: usize = 0;
    proof {
        assert(am.take(0) =~= Seq::<JsonV>::empty());
        assert(out.deep_view() =~= Seq::<Seq<char>>::empty());
    }
    while i < items.len()
        invariant
            i <= items.len(),
            am == arr_model(items@),
            am.len() == items@.len(),
            out@.len() == i,
            (elems_decode(am.take(i as int), |x: JsonV| spec_decode_index_name(x)) == Ok::<
                Seq<Seq<char>>,
                Error,
            >(out.deep_view())),
        decreases items.len() - i,
    {
        proof {
            lemma_arr_model_index(items@, i as int);
        }
        let ghost prev = out.deep_view();
        match &items[i] {
            Json::Str(s) => {
                let name = s.clone();
                out.push(name);
                proof {
                    assert(out.deep_view() =~= prev.push(am[i as int]->Str_0));
                    assert(am.take(i as int + 1).drop_last() =~= am.take(i as int));
                    assert(am.take(i as int + 1).last() == am[i as int]);
                }
            },
            _ => {
                proof {
                    lemma_elems_decode_err(am, |x: JsonV| spec_decode_index_name(x), i as int);
                }
                return Err(Error::TypeMismatch);
            },
        }
        i += 1;
    }
    proof {
        assert(am.take(am.len() as int) =~= am);
    }
    Ok(out)
}

fn decode_index_lists(items: &Vec<Json>) -> (r: Result<Vec<Vec<String>>, Error>)
    ensures
        match r {
            Ok(v) => elems_decode(arr_model(items@), |x: JsonV| spec_decode_index_list(x)) == Ok::<
                Seq<Seq<Seq<char>>>,
                Error,
            >(v.deep_view()),
            Err(e) => elems_decode(arr_model(items@), |x: JsonV| spec_decode_index_list(x))
                == Err::<Seq<Seq<Seq<char>>>, Error>(e),
        },
{
    proof {
        lemma_arr_model_len(items@);
    }
    let ghost am = arr_model(items@);
    let mut out: Vec<Vec<String>> = Vec::new();
    let mut i: usize = 0;
    proof {
        assert(am.take(0) =~= Seq::<JsonV>::empty());
        assert(out.deep_view() =~= Seq::<Seq<Seq<char>>>::empty());
    }
    while i < items.len()
        invariant
            i <= items.len(),
            am == arr_model(items@),
            am.len() == items@.len(),
            out@.len() == i,
            (elems_decode(am.take(i as int), |x: JsonV| spec_decode_index_list(x)) == Ok::<
                Seq<Seq<Seq<char>>>,
                Error,
            >(out.deep_view())),
        decreases items.len() - i,
    {
        proof {
            lemma_arr_model_index(items@, i as int);
        }
        let ghost prev = out.deep_view();
        let inner = match &items[i] {
            Json::Arr(inner) => inner,
            _ => {
                proof {
                    lemma_elems_decode_err(am, |x: JsonV| spec_decode_index_list(x), i as int);
                }
                return Err(Error::TypeMismatch);
            },
        };
        match decode_index_names(inner) {
            Ok(names) => {
                let ghost nv = names.deep_view();
                out.push(names);
                proof {
                    assert(out.deep_view() =~= prev.push(nv));
                    assert(am.take(i as int + 1).drop_last() =~= am.take(i as int));
                    assert(am.take(i as int + 1).last() == am[i as int]);
                }
            },
            Err(e) => {
                proof {
                    lemma_elems_decode_err(am, |x: JsonV| spec_decode_index_list(x), i as int);
                }
                return Err(e);
            },
        }
        i += 1;
    }
    proof {
        assert(am.take(am.len() as int) =~= am);
    }
    Ok(out)
}

/// The optional `indexes` field: absent or `null` is absence, else an
/// array of arrays of column names.
pub open spec fn spec_decode_indexes_field(fs: Seq<(Seq<char>, JsonV)>) -> Result<
    Option<Seq<Seq<Seq<char>>>>,
    Error,
> {
    match assoc_get(fs, "indexes"@) {
        None => Ok(None),
        Some(JsonV::Null) => Ok(None),
        Some(JsonV::Arr(items)) => match elems_decode(items, |x: JsonV| spec_decode_index_list(x)) {
            Ok(ls) => Ok(Some(ls)),
            Err(e) => Err(e),
        },
        Some(_) => Err(Error::TypeMismatch),
    }
}

/// What a table object decodes to: its `columns` object is required,
/// `maxRows` and `indexes` are optional, and a table is a root table
/// unless `isRoot` says otherwise.
pub open spec fn spec_decode_table(j: JsonV) -> Result<TableView, Error> {
    match j {
        JsonV::Obj(fs) => match (match assoc_get(fs, "columns"@) {
            None => Err(Error::MissingRequiredField),
            Some(JsonV::Obj(cfs)) => spec_decode_columns(cfs),
            Some(_) => Err(Error::TypeMismatch),
        }) {
            Err(e) => Err(e),
            Ok(columns) => match opt_u64_field(fs, "maxRows"@) {
                Err(e) => Err(e),
                Ok(max_rows) => match bool_field(fs, "isRoot"@, true) {
                    Err(e) => Err(e),
                    Ok(is_root) => match spec_decode_indexes_field(fs) {
                        Err(e) => Err(e),
                        Ok(indexes) => Ok(TableView { columns, max_rows, is_root, indexes }),
                    },
                },
            },
        },
        _ => Err(Error::TypeMismatch),
    }
}

impl Table {
    /// Decodes a table object.
    pub fn decode(j: &Json) -> (r: Result<Table, Error>)
        ensures
            match r {
                Ok(v) => spec_decode_table(j@) == Ok::<TableView, Error>(v@),
                Err(e) => spec_decode_table(j@) == Err::<TableView, Error>(e),
            },
    {
        let fields = match j {
            Json::Obj(fields) => fields,
            _ => {
                return Err(Error::TypeMismatch);
            },
        };
        let columns = match json_obj_get(fields, "columns") {
            None => {
                return Err(Error::MissingRequiredField);
            },
            Some(Json::Obj(cfs)) => match decode_columns(cfs) {
                Ok(v) => v,
                Err(e) => {
                    return Err(e);
                },
            },
            Some(_) => {
                return Err(Error::TypeMismatch);
            },
        };
        let max_rows = match get_opt_u64_field(fields, "maxRows") {
            Ok(v) => v,
            Err(e) => {
                return Err(e);
            },
        };
        let is_root = match get_bool_field(fields, "isRoot", default_true()) {
            Ok(v) => v,
            Err(e) => {
                return Err(e);
            },
        };
        let indexes = match json_obj_get(fields, "indexes") {
            None => None,
            Some(Json::Null) => None,
            Some(Json::Arr(items)) => match decode_index_lists(items) {
                Ok(v) => Some(v),
                Err(e) => {
                    return Err(e);
                },
            },
            Some(_) => {
                return Err(Error::TypeMismatch);
            },
        };
        Ok(Table { columns, max_rows, is_root, indexes })
    }

    /// Whether this table is a root table.
    pub fn is_root(&self) -> (r: bool)
        ensures
            r == self@.is_root,
    {
        self.is_root
    }

    /// The columns, as (name, column) pairs in document order.
    pub fn iter_columns(&self) -> (r: &Vec<(String, Column)>)
        ensures
            r.deep_view() == self@.columns,
    {
        &self.columns
    }

    /// The declared indexes, if any.
    pub fn index(&self) -> (r: Option<&Vec<Vec<String>>>)
        ensures
            match r {
                Some(v) => self@.indexes == Some(v.deep_view()),
                None => self@.indexes is None,
            },
    {
        match &self.indexes {
            Some(v) => Some(v),
            None => None,
        }
    }

    /// The declared row bound, if any.
    pub fn get_max_rows(&self) -> (r: Option<u64>)
        ensures
            r == self@.max_rows,
    {
        self.max_rows
    }

    /// Whether the table declares any index.
    pub fn has_index(&self) -> (r: bool)
        ensures
            r == (self@.indexes is Some),
    {
        self.indexes.is_some()
    }
}

/// What a `tables` object decodes to: every named entry decoded as a
/// table, names and order kept.
pub open spec fn spec_decode_tables(tfs: Seq<(Seq<char>, JsonV)>) -> Result<
    Seq<(Seq<char>, TableView)>,
    Error,
> {
    entries_decode(tfs, |x: JsonV| spec_decode_table(x))
}

fn decode_tables(tfs: &Vec<(String, Json)>) -> (r: Result<Vec<(String, Table)>, Error>)
    ensures
        match r {
            Ok(v) => spec_decode_tables(obj_model(tfs@)) == Ok::<
                Seq<(Seq<char>, TableView)>,
                Error,
            >(v.deep_view()),
            Err(e) => spec_decode_tables(obj_model(tfs@)) == Err::<
                Seq<(Seq<char>, TableView)>,
                Error,
            >(e),
        },
{
    proof {
        lemma_obj_model_len(tfs@);
    }
    let ghost tm = obj_model(tfs@);
    let mut out: Vec<(String, Table)> = Vec::new();
    let mut i: usize = 0;
    proof {
        assert(tm.take(0) =~= Seq::<(Seq<char>, JsonV)>::empty());
        assert(out.deep_view() =~= Seq::<(Seq<char>, TableView)>::empty());
    }
    while i < tfs.len()
        invariant
            i <= tfs.len(),
            tm == obj_model(tfs@),
            tm.len() == tfs@.len(),
            out@.len() == i,
            (entries_decode(tm.take(i as int), |x: JsonV| spec_decode_table(x)) == Ok::<
                Seq<(Seq<char>, TableView)>,
                Error,
            >(out.deep_view())),
        decreases tfs.len() - i,
    {
        proof {
            lemma_obj_model_index(tfs@, i as int);
        }
        let ghost prev = out.deep_view();
        match Table::decode(&tfs[i].1) {
            Ok(t) => {
                let ghost tv = t@;
                let name = tfs[i].0.clone();
                out.push((name, t));
                proof {
                    assert(out.deep_view() =~= prev.push((tm[i as int].0, tv)));
                    assert(tm.take(i as int + 1).drop_last() =~= tm.take(i as int));
                    assert(tm.take(i as int + 1).last() == tm[i as int]);
                }
            },
            Err(e) => {
                proof {
                    lemma_entries_decode_err(tm, |x: JsonV| spec_decode_table(x), i as int);
                }
                return Err(e);
            },
        }
        i += 1;
    }
    proof {
        assert(tm.take(tm.len() as int) =~= tm);
    }
    Ok(out)
}

/// What a schema document decodes to: its `name` and `tables` are
/// required, `cksum` and `version` optional.
pub open spec fn spec_decode_schema(j: JsonV) -> Result<SchemaView, Error> {
    match j {
        JsonV::Obj(fs) => match req_str_field(fs, "name"@) {
            Err(e) => Err(e),
            Ok(name) => match opt_str_field(fs, "cksum"@) {
                Err(e) => Err(e),
                Ok(cksum) => match opt_str_field(fs, "version"@) {
                    Err(e) => Err(e),
                    Ok(version) => match (match assoc_get(fs, "tables"@) {
                        None => Err(Error::MissingRequiredField),
                        Some(JsonV::Obj(tfs)) => spec_decode_tables(tfs),
                        Some(_) => Err(Error::TypeMismatch),
                    }) {
                        Err(e) => Err(e),
                        Ok(tables) => Ok(SchemaView { name, cksum, version, tables }),
                    },
                },
            },
        },
        _ => Err(Error::TypeMismatch),
    }
}

/// The table names of a schema view, in document order.
pub open spec fn names_of(tables: Seq<(Seq<char>, TableView)>) -> Seq<Seq<char>> {
    Seq::new(tables.len(), |i: int| tables[i].0)
}

impl Schema {
    /// Decodes a whole schema document.
    pub fn decode(j: &Json) -> (r: Result<Schema, Error>)
        ensures
            match r {
                Ok(v) => spec_decode_schema(j@) == Ok::<SchemaView, Error>(v@),
                Err(e) => spec_decode_schema(j@) == Err::<SchemaView, Error>(e),
            },
    {
        let fields = match j {
            Json::Obj(fields) => fields,
            _ => {
                return Err(Error::TypeMismatch);
            },
        };
        let name = match get_req_str_field(fields, "name") {
            Ok(v) => v,
            Err(e) => {
                return Err(e);
            },
        };
        let cksum = match get_opt_str_field(fields, "cksum") {
            Ok(v) => v,
            Err(e) => {
                return Err(e);
            },
        };
        let version = match get_opt_str_field(fields, "version") {
            Ok(v) => v,
            Err(e) => {
                return Err(e);
            },
        };
        let tables = match json_obj_get(fields, "tables") {
            None => {
                return Err(Error::MissingRequiredField);
            },
            Some(Json::Obj(tfs)) => match decode_tables(tfs) {
                Ok(v) => v,
                Err(e) => {
                    return Err(e);
                },
            },
            Some(_) => {
                return Err(Error::TypeMismatch);
            },
        };
        Ok(Schema { name, cksum, version, tables })
    }

    /// The tables, as (name, table) pairs in document order.
    pub fn iter_tables(&self) -> (r: &Vec<(String, Table)>)
        ensures
            r.deep_view() == self@.tables,
    {
        &self.tables
    }

    /// Looks a table up by name; the first binding of the name wins.
    pub fn get_table(&self, name: &str) -> (r: Option<&Table>)
        ensures
            match r {
                Some(t) => assoc_get(self@.tables, name@) == Some(t@),
                None => assoc_get(self@.tables, name@) is None,
            },
    {
        let ghost m = self@.tables;
        let mut i: usize = 0;
        while i < self.tables.len()
            invariant
                i <= self.tables.len(),
                m == self@.tables,
                m.len() == self.tables@.len(),
                forall|k: int| 0 <= k < i ==> (#[trigger] m[k]).0 != name@,
            decreases self.tables.len() - i,
        {
            if str_eq(self.tables[i].0.as_str(), name) {
                proof {
                    lemma_assoc_get_skip(m, name@, i as int);
                    assert(m.skip(i as int)[0] == m[i as int]);
                }
                return Some(&self.tables[i].1);
            }
            i += 1;
        }
        proof {
            lemma_assoc_get_skip(m, name@, m.len() as int);
            assert(m.skip(m.len() as int) =~= Seq::<(Seq<char>, TableView)>::empty());
        }
        None
    }

    /// The table names, in document order.
    pub fn table_names(&self) -> (r: Vec<String>)
        ensures
            r.deep_view() == names_of(self@.tables),
    {
        let mut out: Vec<String> = Vec::new();
        let mut i: usize = 0;
        while i < self.tables.len()
            invariant
                i <= self.tables.len(),
                self@.tables.len() == self.tables@.len(),
                out@.len() == i,
                forall|k: int| 0 <= k < i ==> #[trigger] out.deep_view()[k] == self@.tables[k].0,
            decreases self.tables.len() - i,
        {
            let ghost prev = out.deep_view();
            out.push(self.tables[i].0.clone());
            proof {
                assert forall|k: int| 0 <= k < i as int + 1 implies out.deep_view()[k]
                    == self@.tables[k].0 by {
                    if k < i as int {
                        assert(out.deep_view()[k] == prev[k]);
                    }
                }
            }
            i += 1;
        }
        proof {
            assert(out.deep_view() =~= names_of(self@.tables));
        }
        out
    }

    /// How many tables the document declares.
    pub fn table_count(&self) -> (r: usize)
        ensures
            r == self@.tables.len(),
    {
        self.tables.len()
    }

    /// Whether a table of that name is present.
    pub fn has_table(&self, name: &str) -> (r: bool)
        ensures
            r == (assoc_get(self@.tables, name@) is Some),
    {
        self.get_table(name).is_some()
    }
}

} // verus!
