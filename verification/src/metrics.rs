//! A string-keyed counter service: a fixed set of named `i64` counters,
//! registered once at construction, incremented and decremented by name.
//!
//! Counters use wrapping addition, the crate's explicit overflow policy.
//! Touching a name that was never registered fails with `KeyNotFound`.

use vstd::prelude::*;

use crate::error::MetricsError;
use crate::render::dec_i64;
use crate::render::push_dec_i64;
use vstd::string::StringExecFns;

verus! {

/// Some registered name reads `k`.
pub open spec fn has_key(names: Seq<String>, k: Seq<char>) -> bool {
    exists|p: int| 0 <= p < names.len() && (#[trigger] names[p])@ == k
}

/// The index of the registered name reading `k`; meaningful when the names
/// are pairwise distinct and `k` is among them.
pub open spec fn key_index(names: Seq<String>, k: Seq<char>) -> int {
    choose|p: int| 0 <= p < names.len() && (#[trigger] names[p])@ == k
}

/// The input names with later repeats removed: each name at its first
/// occurrence.
pub open spec fn dedup_keys(s: Seq<String>) -> Seq<String>
    decreases s.len(),
{
    if s.len() == 0 {
        Seq::empty()
    } else {
        let rest = dedup_keys(s.drop_last());
        if has_key(rest, s.last()@) {
            rest
        } else {
            rest.push(s.last())
        }
    }
}

/// A set of named counters. Names are fixed at construction and pairwise
/// distinct; `counts[i]` belongs to `names[i]`.
#[derive(Clone, Debug)]
pub struct AmapMetrics {
    /// The registered counter names, first occurrences in input order.
    pub names: Vec<String>,
    /// The counter values, one per name.
    pub counts: Vec<i64>,
}

impl AmapMetrics {
    /// One counter per name, and no name registered twice.
    pub open spec fn wf(self) -> bool {
        &&& self.names@.len() == self.counts@.len()
        &&& forall|p: int, q: int|
            0 <= p < q < self.names@.len() ==> self.names@[p]@ != self.names@[q]@
    }

    /// Registers the given names, each at its first occurrence, with every
    /// counter starting at zero.
    pub fn new(names: Vec<String>) -> (r: AmapMetrics)
        ensures
            r.wf(),
            r.names@ == dedup_keys(names@),
            forall|p: int| 0 <= p < r.counts@.len() ==> r.counts@[p] == 0i64,
    {
        let mut out = AmapMetrics { names: Vec::new(), counts: Vec::new() };
        let mut i: usize = 0;
        while i < names.len()
            invariant
                out.wf(),
                out.names@ == dedup_keys(names@.take(i as int)),
                out.counts@.len() == out.names@.len(),
                forall|p: int| 0 <= p < out.counts@.len() ==> out.counts@[p] == 0i64,
                i <= names@.len(),
            decreases names@.len() - i,
        {
            proof {
                assert(names@.take(i + 1).drop_last() =~= names@.take(i as int));
                assert(names@.take(i + 1).last() == names@[i as int]);
            }
            match find_key(&out.names, &names[i]) {
                Some(_) => {
                },
                None => {
                    out.names.push(names[i].clone());
                    out.counts.push(0i64);
                },
            }
            i = i + 1;
        }
        proof {
            assert(names@.take(names@.len() as int) =~= names@);
        }
        out
    }

    /// Adds one (wrapping) to the counter registered under `key`.
    ///
    /// Succeeds exactly when `key` is registered; otherwise fails with
    /// `KeyNotFound` and changes nothing.
    pub fn incr(&mut self, key: &String) -> (r: Result<(), MetricsError>)
        requires
            old(self).wf(),
        ensures
            final(self).wf(),
            final(self).names@ == old(self).names@,
            match r {
                Ok(()) => has_key(old(self).names@, key@) && final(self).counts@ == old(
                    self,
                ).counts@.update(
                    key_index(old(self).names@, key@),
                    old(self).counts@[key_index(old(self).names@, key@)].wrapping_add(1),
                ),
                Err(e) => e == MetricsError::KeyNotFound && !has_key(old(self).names@, key@)
                    && final(self).counts@ == old(self).counts@,
            },
    {
        self.adjust(key, 1)
    }

    /// Subtracts one (wrapping) from the counter registered under `key`.
    ///
    /// Succeeds exactly when `key` is registered; otherwise fails with
    /// `KeyNotFound` and changes nothing.
    pub fn decr(&mut self, key: &String) -> (r: Result<(), MetricsError>)
        requires
            old(self).wf(),
        ensures
            final(self).wf(),
            final(self).names@ == old(self).names@,
            match r {
                Ok(()) => has_key(old(self).names@, key@) && final(self).counts@ == old(
                    self,
                ).counts@.update(
                    key_index(old(self).names@, key@),
                    old(self).counts@[key_index(old(self).names@, key@)].wrapping_add(-1i64),
                ),
                Err(e) => e == MetricsError::KeyNotFound && !has_key(old(self).names@, key@)
                    && final(self).counts@ == old(self).counts@,
            },
    {
        self.adjust(key, -1)
    }

    /// Adds `delta` (wrapping) to the counter registered under `key`.
    fn adjust(&mut self, key: &String, delta: i64) -> (r: Result<(), MetricsError>)
        requires
            old(self).wf(),
        ensures
            final(self).wf(),
            final(self).names@ == old(self).names@,
            match r {
                Ok(()) => has_key(old(self).names@, key@) && final(self).counts@ == old(
                    self,
                ).counts@.update(
                    key_index(old(self).names@, key@),
                    old(self).counts@[key_index(old(self).names@, key@)].wrapping_add(delta),
                ),
                Err(e) => e == MetricsError::KeyNotFound && !has_key(old(self).names@, key@)
                    && final(self).counts@ == old(self).counts@,
            },
    {
        match find_key(&self.names, key) {
            Some(i) => {
                proof {
                    lemma_key_index_pins(self.names@, key@, i as int);
                }
                self.counts[i] = self.counts[i].wrapping_add(delta);
                Ok(())
            },
            None => Err(MetricsError::KeyNotFound),
        }
    }

    /// Renders the counters, one `name: value` line per counter, in
    /// registration order.
    pub fn render(&self) -> (r: String)
        requires
            self.wf(),
        ensures
            r@ == render_metrics(self.names@, self.counts@),
    {
        let mut s = String::new();
        proof {
            reveal_strlit(": ");
            reveal_strlit("\n");
            assert(": "@ =~= seq![':', ' ']);
            assert("\n"@ =~= seq!['\n']);
        }
        let mut i: usize = 0;
        while i < self.names.len()
            invariant
                self.wf(),
                i <= self.names@.len(),
                s@ == render_metrics(self.names@.take(i as int), self.counts@.take(i as int)),
                ": "@ == seq![':', ' '],
                "\n"@ == seq!['\n'],
            decreases self.names@.len() - i,
        {
            s.append(self.names[i].as_str());
            s.append(": ");
            push_dec_i64(&mut s, self.counts[i]);
            s.append("\n");
            proof {
                assert(self.names@.take(i + 1).drop_last() =~= self.names@.take(i as int));
                assert(self.counts@.take(i + 1).drop_last() =~= self.counts@.take(i as int));
                assert(s@ =~= render_metrics(self.names@.take(i + 1), self.counts@.take(i + 1)));
            }
            i = i + 1;
        }
        proof {
            assert(self.names@.take(self.names@.len() as int) =~= self.names@);
            assert(self.counts@.take(self.counts@.len() as int) =~= self.counts@);
        }
        s
    }
}

/// The counters as text: one `name: value` line each, in order.
pub open spec fn render_metrics(names: Seq<String>, counts: Seq<i64>) -> Seq<char>
    decreases names.len(),
{
    if names.len() == 0 {
        Seq::empty()
    } else {
        render_metrics(names.drop_last(), counts.drop_last()) + names.last()@ + seq![':', ' ']
            + dec_i64(counts.last()) + seq!['\n']
    }
}

/// Finds the first registered name reading like `key`.
fn find_key(names: &Vec<String>, key: &String) -> (r: Option<usize>)
    ensures
        match r {
            Some(i) => i < names@.len() && names@[i as int]@ == key@,
            None => !has_key(names@, key@),
        },
{
    let mut i: usize = 0;
    while i < names.len()
        invariant
            i <= names@.len(),
            forall|p: int| 0 <= p < i ==> (#[trigger] names@[p])@ != key@,
        decreases names@.len() - i,
    {
        if names[i] == *key {
            return Some(i);
        }
        i = i + 1;
    }
    None
}

/// With pairwise-distinct names, any index whose name reads `k` is the one
/// `key_index` picks.
proof fn lemma_key_index_pins(names: Seq<String>, k: Seq<char>, i: int)
    requires
        forall|p: int, q: int| 0 <= p < q < names.len() ==> names[p]@ != names[q]@,
        0 <= i < names.len(),
        names[i]@ == k,
    ensures
        key_index(names, k) == i,
{
    let c = key_index(names, k);
    assert(0 <= c < names.len() && names[c]@ == k);
}

} // verus!
