//! Records as they were found on disk.
use vstd::prelude::*;

verus! {

/// What reading a record gave: no file, an error, or the record.
#[derive(Debug)]
pub enum Stored<T> {
    Missing,
    Failed(String),
    Found(T),
}

/// The view of a [`Stored`] record.
pub enum StoredView<V> {
    Missing,
    Failed(Seq<char>),
    Found(V),
}

impl<T: View> View for Stored<T> {
    type V = StoredView<T::V>;

    open spec fn view(&self) -> StoredView<T::V> {
        match *self {
            Stored::Missing => StoredView::Missing,
            Stored::Failed(error) => StoredView::Failed(error@),
            Stored::Found(record) => StoredView::Found(record@),
        }
    }
}

} // verus!
