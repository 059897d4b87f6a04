//! Splitting a keyed collection into chunks of bounded size, for fanning
//! pairs out across connections. The entries travel as a vector of
//! key-value pairs; the surrounding process rebuilds its maps from them.

use vstd::prelude::*;

verus! {

/// Hands out a map's entries as successive chunks of at most
/// `chunk_size` entries, in order, until none remain.
pub struct HashMapChunks<K, V> {
    items: Vec<(K, V)>,
    chunk_size: usize,
}

impl<K, V> View for HashMapChunks<K, V> {
    type V = Seq<(K, V)>;

    closed spec fn view(&self) -> Seq<(K, V)> {
        self.items@
    }
}

impl<K, V> HashMapChunks<K, V> {
    /// The chunk bound this chunker was built with.
    pub closed spec fn spec_chunk_size(&self) -> usize {
        self.chunk_size
    }

    pub fn new(items: Vec<(K, V)>, size: usize) -> (r: Self)
        ensures
            r@ == items@,
            r.spec_chunk_size() == size,
    {
        Self { items, chunk_size: size }
    }

    /// The next chunk: the first `chunk_size` remaining entries (all of
    /// them if fewer remain), or nothing once the entries are exhausted.
    pub fn next(&mut self) -> (r: Option<Vec<(K, V)>>)
        ensures
            final(self).spec_chunk_size() == old(self).spec_chunk_size(),
            old(self)@.len() == 0 ==> r is None && final(self)@ == old(self)@,
            old(self)@.len() > 0 ==> ({
                let k: int = if old(self).spec_chunk_size() <= old(self)@.len() {
                    old(self).spec_chunk_size() as int
                } else {
                    old(self)@.len() as int
                };
                &&& r matches Some(chunk) && chunk@ == old(self)@.take(k)
                &&& final(self)@ == old(self)@.skip(k)
            }),
    {
        if self.items.len() == 0 {
            None
        } else {
            let k = if self.chunk_size <= self.items.len() {
                self.chunk_size
            } else {
                self.items.len()
            };
            let mut chunk = self.items.split_off(k);
            std::mem::swap(&mut self.items, &mut chunk);
            Some(chunk)
        }
    }
}

} // verus!
