//! A sparse matrix of values indexed by the cells of columns of one type.
use vstd::prelude::*;
use std::collections::HashMap;
use std::marker::PhantomData;
use crate::table::{Column, ColumnType};

verus! {

broadcast use vstd::std_specs::hash::group_hash_axioms;

/// A matrix of columns and rows of a certain type (Instance, Fixed, Advice, etc). A cell that
/// was never written reads as the default value.
#[derive(Debug)]
pub struct Matrix<T, V: Default> {
    /// The written cells, by column and then row.
    data: HashMap<usize, HashMap<usize, V>>,
    default: V,
    _marker: PhantomData<T>,
}

impl<T, V: Default> Matrix<T, V> {
    /// The value written in the cell, if one was.
    pub closed spec fn written(&self, col: usize, row: usize) -> Option<V> {
        if self.data@.contains_key(col) && self.data@[col]@.contains_key(row) {
            Some(self.data@[col]@[row])
        } else {
            None
        }
    }

    /// The value that unwritten cells read as.
    pub closed spec fn default_value(&self) -> V {
        self.default
    }

    /// The value that the cell reads as.
    pub open spec fn value_at(&self, col: usize, row: usize) -> V {
        match self.written(col, row) {
            Some(v) => v,
            None => self.default_value(),
        }
    }

    /// An empty matrix.
    pub fn new() -> (r: Self)
        ensures
            forall|c: usize, row: usize| r.written(c, row) is None,
            call_ensures(V::default, (), r.default_value()),
    {
        Matrix { data: HashMap::new(), default: V::default(), _marker: PhantomData }
    }

    /// The value of the cell at the row of the column's index.
    pub fn get(&self, col: usize, row: usize) -> (r: &V)
        ensures
            *r == self.value_at(col, row),
    {
        match self.data.get(&col) {
            Some(rows) => match rows.get(&row) {
                Some(v) => v,
                None => &self.default,
            },
            None => &self.default,
        }
    }

    /// Mutable access to the value of the cell at the row of the column's index. A cell that
    /// was not written yet is first written with a default value.
    pub fn get_mut(&mut self, col: usize, row: usize) -> (r: &mut V)
        ensures
            old(self).written(col, row) matches Some(v) ==> *r == v,
            old(self).written(col, row) is None ==> call_ensures(V::default, (), *r),
            final(self).written(col, row) == Some(*final(r)),
            forall|c: usize, w: usize|
                !(c == col && w == row) ==> final(self).written(c, w) == old(self).written(c, w),
            final(self).default_value() == old(self).default_value(),
    {
        let rows = self.data.entry(col).or_insert(HashMap::new());
        rows.entry(row).or_insert(V::default())
    }
}

impl<T: ColumnType, V: Default> Matrix<T, V> {
    /// The value of the cell of the column at the row.
    pub fn index(&self, index: (Column<T>, usize)) -> (r: &V)
        ensures
            *r == self.value_at(index.0.index, index.1),
    {
        self.get(index.0.index, index.1)
    }

    /// Mutable access to the cell of the column at the row, written first with a default value
    /// if it was not written yet.
    pub fn index_mut(&mut self, index: (Column<T>, usize)) -> (r: &mut V)
        ensures
            old(self).written(index.0.index, index.1) matches Some(v) ==> *r == v,
            old(self).written(index.0.index, index.1) is None ==> call_ensures(V::default, (), *r),
            final(self).written(index.0.index, index.1) == Some(*final(r)),
            forall|c: usize, w: usize|
                !(c == index.0.index && w == index.1) ==> final(self).written(c, w) == old(self).written(c, w),
            final(self).default_value() == old(self).default_value(),
    {
        self.get_mut(index.0.index, index.1)
    }
}

impl<T, V: Default> Default for Matrix<T, V> {
    fn default() -> (r: Self)
        ensures
            forall|c: usize, row: usize| r.written(c, row) is None,
            call_ensures(V::default, (), r.default_value()),
    {
        Self::new()
    }
}

} // verus!
