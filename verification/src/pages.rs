//! The memory pages a decoder has collected so far.

use crate::snapshot::{pages_sized, PAGE_SIZE};
use std::collections::HashMap;
use vstd::prelude::*;

verus! {

broadcast use vstd::std_specs::hash::group_hash_axioms;

/// Memory pages by page number.
///
/// Every page held is exactly [`PAGE_SIZE`] bytes long.
pub struct PageMap {
    pages: HashMap<u8, Vec<u8>>,
}

impl View for PageMap {
    type V = Map<u8, Seq<u8>>;

    /// The pages held, by number.
    closed spec fn view(&self) -> Map<u8, Seq<u8>> {
        Map::new(|p: u8| self.pages@.contains_key(p), |p: u8| self.pages@[p]@)
    }
}

impl PageMap {
    /// The invariant of the type: every page is of full size.
    pub closed spec fn wf(&self) -> bool {
        forall|p: u8| #[trigger] self.pages@.contains_key(p) ==> self.pages@[p].len() == PAGE_SIZE
    }

    /// In a well-formed map every page is of full size.
    pub proof fn lemma_sized(&self)
        requires
            self.wf(),
        ensures
            pages_sized(self@),
    {
        assert forall|p: u8| self@.dom().contains(p) implies (#[trigger] self@[p]).len()
            == PAGE_SIZE by {
            assert(self.pages@.contains_key(p));
        }
    }

    /// A map without pages.
    pub fn new() -> (m: PageMap)
        ensures
            m.wf(),
            m@ == Map::<u8, Seq<u8>>::empty(),
    {
        let m = PageMap { pages: HashMap::new() };
        assert(m@ =~= Map::<u8, Seq<u8>>::empty());
        m
    }

    /// A map that holds pages 0 to 7, each filled with zeros.
    pub fn zeroed() -> (m: PageMap)
        ensures
            m.wf(),
            m@ == zero_pages(),
    {
        let mut m = PageMap::new();
        let mut n: u8 = 0;
        while n < 8
            invariant
                n <= 8,
                m.wf(),
                m@.dom() == Set::new(|p: u8| p < n),
                forall|p: u8| p < n ==> m@[p] == zeros(PAGE_SIZE as nat),
            decreases 8 - n,
        {
            let page = vec![0u8; PAGE_SIZE];
            assert(page@ =~= zeros(PAGE_SIZE as nat));
            m.insert(n, page);
            n += 1;
            assert(m@.dom() =~= Set::new(|p: u8| p < n));
        }
        assert(m@ =~= zero_pages());
        m
    }

    /// Whether page `page` is held.
    pub fn contains(&self, page: u8) -> (b: bool)
        requires
            self.wf(),
        ensures
            b == self@.dom().contains(page),
    {
        self.pages.contains_key(&page)
    }

    /// Page `page`, if it is held.
    pub fn get(&self, page: u8) -> (r: Option<&Vec<u8>>)
        requires
            self.wf(),
        ensures
            r is Some == self@.dom().contains(page),
            r matches Some(v) ==> v@ == self@[page] && v.len() == PAGE_SIZE,
    {
        self.pages.get(&page)
    }

    /// Puts `content` in as page `page`, in place of what was there.
    pub fn insert(&mut self, page: u8, content: Vec<u8>)
        requires
            old(self).wf(),
            content.len() == PAGE_SIZE,
        ensures
            final(self).wf(),
            final(self)@ == old(self)@.insert(page, content@),
    {
        self.pages.insert(page, content);
        assert(self@ =~= old(self)@.insert(page, content@));
    }

    /// Takes `content` as page `page` if it has the size of a page, and
    /// leaves the map as it is otherwise. Returns whether the page was taken.
    pub fn store(&mut self, page: u8, content: Vec<u8>) -> (taken: bool)
        requires
            old(self).wf(),
        ensures
            final(self).wf(),
            taken == (content.len() == PAGE_SIZE),
            final(self)@ == stored(old(self)@, page, content@),
    {
        if content.len() == PAGE_SIZE {
            self.insert(page, content);
            true
        } else {
            false
        }
    }
}

/// `len` zero bytes.
pub open spec fn zeros(len: nat) -> Seq<u8> {
    Seq::new(len, |k: int| 0u8)
}

/// Pages 0 to 7, each filled with zeros.
pub open spec fn zero_pages() -> Map<u8, Seq<u8>> {
    Map::new(|p: u8| p < 8, |p: u8| zeros(PAGE_SIZE as nat))
}

/// `pages` after `content` was offered as page `page`: it is taken only if
/// it has the size of a page.
pub open spec fn stored(pages: Map<u8, Seq<u8>>, page: u8, content: Seq<u8>) -> Map<
    u8,
    Seq<u8>,
> {
    if content.len() == PAGE_SIZE {
        pages.insert(page, content)
    } else {
        pages
    }
}

} // verus!
