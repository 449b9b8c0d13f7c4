//! An array-backed binary min-heap, independent of the cryptographic core.
//! Its contents are modelled as a multiset: `push` inserts, `pop` removes and
//! returns a smallest item.
use vstd::multiset::Multiset;
use vstd::pervasive::VecAdditionalExecFns;
use vstd::prelude::*;

verus! {

broadcast use vstd::seq_lib::group_to_multiset_ensures, vstd::multiset::group_multiset_properties;

/// Every item is at least its parent: the min-heap shape.
pub open spec fn is_heap(s: Seq<u64>) -> bool {
    forall|i: int| 1 <= i < s.len() ==> s[(i - 1) / 2] <= #[trigger] s[i]
}

/// The heap shape, except that the item at `x` may be smaller than its parent.
spec fn heap_except_up(s: Seq<u64>, x: int) -> bool {
    forall|i: int| 1 <= i < s.len() && i != x ==> s[(i - 1) / 2] <= #[trigger] s[i]
}

/// The heap shape, except that the item at `x` may be larger than its children.
spec fn heap_except_down(s: Seq<u64>, x: int) -> bool {
    forall|i: int| 1 <= i < s.len() && (i - 1) / 2 != x ==> s[(i - 1) / 2] <= #[trigger] s[i]
}

/// Every child of `x` is at least `b`.
spec fn children_above(s: Seq<u64>, x: int, b: u64) -> bool {
    forall|c: int| 1 <= c < s.len() && (c - 1) / 2 == x ==> b <= #[trigger] s[c]
}

/// In a heap, the root is a smallest item.
proof fn lemma_root_min(s: Seq<u64>, i: int)
    requires
        is_heap(s),
        0 <= i < s.len(),
    ensures
        s[0] <= s[i],
    decreases i,
{
    if i >= 1 {
        assert(0 <= (i - 1) / 2 < i);
        lemma_root_min(s, (i - 1) / 2);
        assert(s[(i - 1) / 2] <= s[i]);
    }
}

/// Exchanges the items at `i` and `j`; the contents are unchanged as a
/// multiset.
fn swap_items(v: &mut Vec<u64>, i: usize, j: usize)
    requires
        i < old(v)@.len(),
        j < old(v)@.len(),
    ensures
        final(v)@ == old(v)@.update(i as int, old(v)@[j as int]).update(j as int, old(v)@[i as int]),
        final(v)@.to_multiset() == old(v)@.to_multiset(),
        final(v)@.len() == old(v)@.len(),
{
    let a: u64 = v[i];
    let b: u64 = v[j];
    v.set(i, b);
    v.set(j, a);
    proof {
        assert(v@.to_multiset() =~= old(v)@.to_multiset());
    }
}

/// An array-backed binary min-heap of unsigned integers.
pub struct Heap {
    heap: Vec<u64>,
}

impl View for Heap {
    type V = Multiset<u64>;

    closed spec fn view(&self) -> Multiset<u64> {
        self.heap@.to_multiset()
    }
}

impl Heap {
    /// The heap shape holds of the backing array.
    pub closed spec fn wf(self) -> bool {
        is_heap(self.heap@)
    }

    /// An empty heap.
    pub fn new() -> (h: Heap)
        ensures
            h.wf(),
            h@ == Multiset::<u64>::empty(),
    {
        let h = Heap { heap: Vec::new() };
        proof {
            assert(h.heap@.to_multiset() =~= Multiset::<u64>::empty());
        }
        h
    }

    /// Inserts `v`: the contents grow by exactly that item.
    pub fn push(&mut self, v: u64)
        requires
            old(self).wf(),
        ensures
            final(self).wf(),
            final(self)@ == old(self)@.insert(v),
    {
        self.heap.push(v);
        let mut idx: usize = self.heap.len() - 1;
        proof {
            assert(self.heap@.to_multiset() == old(self)@.insert(v));
            assert(heap_except_up(self.heap@, idx as int));
        }
        while idx > 0 && self.heap[(idx - 1) / 2] > self.heap[idx]
            invariant
                idx < self.heap@.len(),
                self.heap@.to_multiset() == old(self)@.insert(v),
                heap_except_up(self.heap@, idx as int),
                idx > 0 ==> children_above(
                    self.heap@,
                    idx as int,
                    self.heap@[((idx as int) - 1) / 2],
                ),
            decreases idx,
        {
            let p: usize = (idx - 1) / 2;
            let ghost s = self.heap@;
            swap_items(&mut self.heap, idx, p);
            proof {
                let t = self.heap@;
                let x = idx as int;
                let q = p as int;
                assert forall|i: int| 1 <= i < t.len() && i != q implies t[(i - 1) / 2]
                    <= #[trigger] t[i] by {
                    if i == x {
                        assert(t[q] == s[x] && t[x] == s[q]);
                    } else if (i - 1) / 2 == x {
                        assert(s[q] <= s[i]);
                    } else if (i - 1) / 2 == q {
                        assert(s[q] <= s[i]);
                    } else {
                        assert(s[(i - 1) / 2] <= s[i]);
                    }
                };
                if q > 0 {
                    assert forall|c: int| 1 <= c < t.len() && (c - 1) / 2 == q implies t[(q - 1)
                        / 2] <= #[trigger] t[c] by {
                        if c == x {
                            assert(s[(q - 1) / 2] <= s[q]);
                        } else {
                            assert(s[(q - 1) / 2] <= s[q] && s[q] <= s[c]);
                        }
                    };
                }
            }
            idx = p;
        }
        proof {
            assert(is_heap(self.heap@));
        }
    }

    /// Removes and returns a smallest item, or nothing from an empty heap.
    #[verifier::rlimit(50)]
    pub fn pop(&mut self) -> (r: Option<u64>)
        requires
            old(self).wf(),
        ensures
            final(self).wf(),
            match r {
                None => old(self)@ == Multiset::<u64>::empty() && final(self)@ == old(self)@,
                Some(m) => old(self)@.count(m) > 0 && final(self)@ == old(self)@.remove(m)
                    && (forall|x: u64| old(self)@.count(x) > 0 ==> m <= x),
            },
    {
        let n: usize = self.heap.len();
        if n == 0 {
            proof {
                assert(self.heap@.to_multiset() =~= Multiset::<u64>::empty());
            }
            return None;
        }
        let ghost s0 = self.heap@;
        let smallest: u64 = self.heap[0];
        proof {
            assert forall|x: u64| s0.to_multiset().count(x) > 0 implies smallest <= x by {
                assert(s0.contains(x));
                let i = choose|i: int| 0 <= i < s0.len() && s0[i] == x;
                lemma_root_min(s0, i);
            };
        }
        if n == 1 {
            let only: u64 = self.heap.pop().unwrap();
            proof {
                assert(only == smallest);
                assert(s0.drop_last() =~= s0.remove(s0.len() - 1));
                assert(s0.drop_last().to_multiset() =~= s0.to_multiset().remove(smallest));
            }
            return Some(only);
        }
        let last: u64 = self.heap.pop().unwrap();
        self.heap.set(0, last);
        proof {
            let s1 = s0.drop_last();
            assert(s1 =~= s0.remove(s0.len() - 1));
            assert(s1.to_multiset() =~= s0.to_multiset().remove(s0.last()));
            assert(s1[0] == smallest);
            assert(self.heap@.to_multiset() =~= s0.to_multiset().remove(smallest));
            assert(heap_except_down(self.heap@, 0));
        }
        let ghost m1 = s0.to_multiset().remove(smallest);
        let mut x: usize = 0;
        let mut done: bool = false;
        while !done && x < self.heap.len() / 2
            invariant
                (x as int) < self.heap@.len(),
                self.heap@.len() == n - 1,
                self.heap@.to_multiset() == m1,
                heap_except_down(self.heap@, x as int),
                x > 0 ==> children_above(self.heap@, x as int, self.heap@[((x as int) - 1) / 2]),
                done ==> is_heap(self.heap@),
            decreases (if done { 0int } else { 1int }), self.heap@.len() - x,
        {
            let l: usize = 2 * x + 1;
            let mut c: usize = l;
            if l + 1 < self.heap.len() && self.heap[l + 1] < self.heap[l] {
                c = l + 1;
            }
            proof {
                assert((l as int - 1) / 2 == x as int);
                assert((l as int) / 2 == x as int);
            }
            if self.heap[c] < self.heap[x] {
                let ghost s = self.heap@;
                swap_items(&mut self.heap, x, c);
                proof {
                    let t = self.heap@;
                    let xi = x as int;
                    let ci = c as int;
                    assert forall|i: int| 1 <= i < t.len() && (i - 1) / 2 != ci implies t[(i - 1)
                        / 2] <= #[trigger] t[i] by {
                        if i == ci {
                            assert(t[xi] == s[ci] && t[ci] == s[xi]);
                        } else if (i - 1) / 2 == xi {
                            assert(s[ci] <= s[i]);
                        } else if i == xi {
                            assert(children_above(s, xi, s[(xi - 1) / 2]));
                            assert(s[(xi - 1) / 2] <= s[ci]);
                        } else {
                            assert(s[(i - 1) / 2] <= s[i]);
                        }
                    };
                    assert forall|g: int| 1 <= g < t.len() && (g - 1) / 2 == ci implies t[(ci - 1)
                        / 2] <= #[trigger] t[g] by {
                        assert(g != xi && g != ci);
                        assert(s[ci] <= s[g]);
                    };
                }
                x = c;
            } else {
                proof {
                    let s = self.heap@;
                    let xi = x as int;
                    assert forall|i: int| 1 <= i < s.len() implies s[(i - 1) / 2]
                        <= #[trigger] s[i] by {
                        if (i - 1) / 2 == xi {
                            assert(i == l as int || i == l as int + 1);
                            assert(s[xi] <= s[c as int]);
                        }
                    };
                }
                done = true;
            }
        }
        proof {
            if !done {
                let s = self.heap@;
                let xi = x as int;
                assert forall|i: int| 1 <= i < s.len() implies s[(i - 1) / 2] <= #[trigger] s[i] by {
                    assert((i - 1) / 2 != xi);
                };
            }
            assert(is_heap(self.heap@));
        }
        Some(smallest)
    }

    /// Gives the items up as a plain vector, smallest-first order not implied.
    pub fn into_vec(self) -> (v: Vec<u64>)
        ensures
            v@.to_multiset() == self@,
    {
        self.heap
    }
}

} // verus!
