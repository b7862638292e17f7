//! Address-space model.
//!
//! A process's memory map is a set of linearly mapped areas: an area maps
//! the virtual range `[start, end)` one-for-one onto physical memory
//! beginning at `phys`.  Page tables, faulting and frame allocation belong
//! to the memory manager outside this library; what the lifecycle core
//! decides — where a free region lies, what a mapping translates to — is
//! modelled and verified here.

use vstd::prelude::*;

verus! {

/// One linearly mapped area of an address space.
#[derive(Clone, Copy, Debug, PartialEq, Eq, Structural)]
pub struct MemArea {
    /// First virtual address of the area.
    pub start: usize,
    /// One past the last virtual address of the area.
    pub end: usize,
    /// Physical address that `start` maps to.
    pub phys: usize,
    /// Whether user mode may access the area.
    pub user: bool,
}

/// A well-formed area: a real range whose physical image fits the address
/// width.
pub open spec fn area_wf(a: MemArea) -> bool {
    a.start <= a.end && a.phys + (a.end - a.start) <= usize::MAX
}

/// Whether virtual address `v` lies inside area `a`.
pub open spec fn area_contains(a: MemArea, v: usize) -> bool {
    a.start <= v < a.end
}

/// Whether area `a` overlaps the virtual range `[s, e)`.
pub open spec fn area_overlaps(a: MemArea, s: int, e: int) -> bool {
    s < a.end && a.start < e
}

/// Whether the virtual range `[s, e)` touches no area of `areas`.
pub open spec fn range_free(areas: Seq<MemArea>, s: int, e: int) -> bool {
    forall|i: int| 0 <= i < areas.len() ==> !area_overlaps(#[trigger] areas[i], s, e)
}

/// Whether a region of `len` bytes could be placed at `b`: it fits the
/// address width and touches no existing area.
pub open spec fn fits_free(areas: Seq<MemArea>, b: int, len: int) -> bool {
    b + len <= usize::MAX && range_free(areas, b, b + len)
}

/// What translation of `v` yields over `areas`, first matching area wins.
pub open spec fn seq_translate(areas: Seq<MemArea>, v: usize) -> Option<usize>
    decreases areas.len(),
{
    if areas.len() == 0 {
        None
    } else if area_contains(areas[0], v) {
        Some((areas[0].phys + (v - areas[0].start)) as usize)
    } else {
        seq_translate(areas.drop_first(), v)
    }
}

/// One process's memory map.
#[derive(Clone, Debug)]
pub struct AddressSpace {
    /// The mapped areas, in the order they were pushed.
    pub areas: Vec<MemArea>,
}

impl AddressSpace {
    /// Every area of the map is well formed.
    pub open spec fn wf(&self) -> bool {
        forall|i: int| 0 <= i < self.areas.len() ==> area_wf(#[trigger] self.areas[i])
    }

    /// A brand-new, empty address space.
    pub fn new() -> (r: AddressSpace)
        ensures
            r.wf(),
            r.areas@.len() == 0,
    {
        AddressSpace { areas: Vec::new() }
    }

    /// The index of some area overlapping `[s, e)`, or `None` when the
    /// range is free.
    fn overlap_index(&self, s: usize, e: usize) -> (r: Option<usize>)
        ensures
            match r {
                Some(i) => i < self.areas@.len() && area_overlaps(self.areas@[i as int], s as int, e as int),
                None => range_free(self.areas@, s as int, e as int),
            },
    {
        let n = self.areas.len();
        let mut i: usize = 0;
        while i < n
            invariant
                i <= n,
                n == self.areas@.len(),
                forall|j: int| 0 <= j < i ==> !area_overlaps(#[trigger] self.areas@[j], s as int, e as int),
            decreases n - i,
        {
            let a = self.areas[i];
            if s < a.end && a.start < e {
                return Some(i);
            }
            i = i + 1;
        }
        None
    }

    /// Find the lowest free region of `len` bytes at or above `hint`.
    /// Returns `None` exactly when no such region exists.
    pub fn find_free_area(&self, hint: usize, len: usize) -> (r: Option<usize>)
        ensures
            match r {
                Some(a) => {
                    &&& a >= hint
                    &&& fits_free(self.areas@, a as int, len as int)
                    &&& forall|b: int| hint <= b < a ==> !fits_free(self.areas@, b, len as int)
                },
                None => forall|b: int| b >= hint ==> !fits_free(self.areas@, b, len as int),
            },
    {
        let mut c: usize = hint;
        loop
            invariant
                c >= hint,
                forall|b: int| hint <= b < c ==> !fits_free(self.areas@, b, len as int),
            decreases usize::MAX - c,
        {
            if len > usize::MAX - c {
                proof {
                    assert forall|b: int| b >= hint implies !fits_free(self.areas@, b, len as int) by {
                        if b >= c {
                            assert(b + len > usize::MAX);
                        }
                    }
                }
                return None;
            }
            let e = c + len;
            match self.overlap_index(c, e) {
                None => {
                    return Some(c);
                },
                Some(i) => {
                    let a_end = self.areas[i].end;
                    proof {
                        let a = self.areas@[i as int];
                        assert forall|b: int| hint <= b < a_end implies !fits_free(
                            self.areas@,
                            b,
                            len as int,
                        ) by {
                            if b >= c && b + len <= usize::MAX {
                                assert(area_overlaps(a, b, b + len));
                            }
                        }
                    }
                    c = a_end;
                },
            }
        }
    }

    /// Map `[start, end)` linearly onto physical memory at `phys`.  The
    /// range must be free; the memory manager refuses overlapping maps.
    pub fn push(&mut self, start: usize, end: usize, phys: usize, user: bool)
        requires
            old(self).wf(),
            start <= end,
            phys + (end - start) <= usize::MAX,
            range_free(old(self).areas@, start as int, end as int),
        ensures
            final(self).wf(),
            final(self).areas@ == old(self).areas@.push(
                (MemArea { start, end, phys, user }),
            ),
    {
        self.areas.push(MemArea { start, end, phys, user });
    }

    /// The physical address that virtual address `v` maps to, or `None`
    /// when `v` is unmapped.
    pub fn translate(&self, v: usize) -> (r: Option<usize>)
        requires
            self.wf(),
        ensures
            r == seq_translate(self.areas@, v),
    {
        let n = self.areas.len();
        let mut i: usize = 0;
        proof {
            assert(self.areas@.skip(0) =~= self.areas@);
        }
        while i < n
            invariant
                i <= n,
                n == self.areas@.len(),
                self.wf(),
                seq_translate(self.areas@, v) == seq_translate(self.areas@.skip(i as int), v),
            decreases n - i,
        {
            let a = self.areas[i];
            proof {
                assert(self.areas@.skip(i as int)[0] == a);
                assert(self.areas@.skip(i as int).drop_first() =~= self.areas@.skip(i + 1));
            }
            if a.start <= v && v < a.end {
                return Some(a.phys + (v - a.start));
            }
            i = i + 1;
        }
        proof {
            assert(self.areas@.skip(n as int) =~= Seq::<MemArea>::empty());
        }
        None
    }
}

} // verus!
